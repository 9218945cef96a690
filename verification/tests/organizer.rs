use pdf_organizer::organizer::{
    load_selected_folder, remove_pdf_from_state, selected_folder_label, update, Command,
    FolderPicker, Message,
    OrganizerState,
};
use pdf_organizer::pdf::{select_pdf_paths, PdfRenderState, RenderedPdfPage};

/// A stand-in for a page image.
type Image = u32;

fn sample_page(page_number: usize) -> RenderedPdfPage<Image> {
    RenderedPdfPage {
        page_number,
        handle: 0xff00_00ff,
    }
}

fn default_state() -> OrganizerState<Image> {
    OrganizerState::new(852)
}

fn jobs_of(command: &Command) -> usize {
    match command {
        Command::RenderPdfs(jobs) => jobs.len(),
        Command::DebounceResize { .. } => 1,
        Command::MoveFile { .. } => 1,
        Command::PickDestinationFolder | Command::PickSourceFolder => 1,
        Command::StoreDestinations => 1,
        Command::Nothing => 0,
    }
}

#[test]
fn state_default_uses_initial_window_metrics() {
    let state = default_state();

    assert_eq!(state.rendered_pdf_width, 852);
    assert_eq!(state.render_generation, 0);
    assert_eq!(state.resize_debounce_generation, 0);
    assert_eq!(state.pending_render_width, None);
}

#[test]
fn folder_picker_default_has_no_selection() {
    let folder_picker = FolderPicker::default();

    assert!(folder_picker.selected_folder.is_none());
}

#[test]
fn load_selected_folder_tracks_folder_and_marks_pdfs_loading() {
    let folder_string = "/tmp/PDFOrganizer_pdf_folder".to_string();
    let entries = vec![
        format!("{folder_string}/first.pdf"),
        format!("{folder_string}/second.pdf"),
        format!("{folder_string}/notes.txt"),
    ];
    let mut state = default_state();

    let pdf_paths = select_pdf_paths(entries);
    let task = load_selected_folder(&mut state, folder_string.clone(), pdf_paths, 852);

    assert_eq!(
        state.folder_picker.selected_folder.as_deref(),
        Some(folder_string.as_str())
    );
    assert_eq!(state.pdfs_in_folder.len(), 2);
    assert_eq!(state.render_generation, 1);
    assert!(jobs_of(&task) > 0);
    assert!(state
        .pdfs_in_folder
        .iter()
        .all(|path| matches!(state.pdf_renders.get(path), Some(PdfRenderState::Loading))));
}

#[test]
fn update_window_resized_tracks_pending_render_width() {
    let mut state = default_state();

    let task = update(&mut state, Message::WindowResized { render_width: 1152 });

    assert_eq!(state.pending_render_width, Some(1152));
    assert_eq!(state.resize_debounce_generation, 1);
    assert!(jobs_of(&task) > 0);
    assert!(matches!(
        task,
        Command::DebounceResize {
            generation: 1,
            render_width: 1152
        }
    ));
}

#[test]
fn update_window_resized_ignores_same_render_width() {
    let mut state = default_state();
    let current_width = state.rendered_pdf_width;

    let task = update(
        &mut state,
        Message::WindowResized {
            render_width: current_width,
        },
    );

    assert_eq!(jobs_of(&task), 0);
    assert!(state.pending_render_width.is_none());
}

#[test]
fn update_ignores_stale_debounced_resize() {
    let mut state = default_state();
    state.resize_debounce_generation = 3;
    state.pending_render_width = Some(444);

    let task = update(
        &mut state,
        Message::DebouncedResizeTriggered {
            generation: 2,
            render_width: 444,
        },
    );

    assert_eq!(jobs_of(&task), 0);
    assert_eq!(state.pending_render_width, Some(444));
    assert_eq!(state.render_generation, 0);
}

#[test]
fn update_current_debounced_resize_schedules_renders() {
    let mut state = default_state();
    let pdf_path = "example.pdf".to_string();
    state.pdfs_in_folder = vec![pdf_path.clone()];
    state.pending_render_width = Some(555);
    state.resize_debounce_generation = 1;

    let task = update(
        &mut state,
        Message::DebouncedResizeTriggered {
            generation: 1,
            render_width: 555,
        },
    );

    assert_eq!(state.pending_render_width, None);
    assert_eq!(state.rendered_pdf_width, 555);
    assert_eq!(state.render_generation, 1);
    assert!(jobs_of(&task) > 0);
    assert!(matches!(
        state.pdf_renders.get(&pdf_path),
        Some(PdfRenderState::Loading)
    ));
}

#[test]
fn update_stores_successful_pdf_render_results() {
    let mut state = default_state();
    let pdf_path = "success.pdf".to_string();
    state.render_generation = 7;

    let task = update(
        &mut state,
        Message::PdfRendered {
            pdf_path: pdf_path.clone(),
            generation: 7,
            result: Ok(vec![sample_page(1), sample_page(2)]),
        },
    );

    assert_eq!(jobs_of(&task), 0);
    match state.pdf_renders.get(&pdf_path) {
        Some(PdfRenderState::Loaded(pages)) => assert_eq!(pages.len(), 2),
        _ => panic!("expected loaded pages to be stored"),
    }
}

#[test]
fn update_stores_failed_pdf_render_results() {
    let mut state = default_state();
    let pdf_path = "failure.pdf".to_string();
    state.render_generation = 3;

    let _ = update(
        &mut state,
        Message::PdfRendered {
            pdf_path: pdf_path.clone(),
            generation: 3,
            result: Err("boom".to_string()),
        },
    );

    match state.pdf_renders.get(&pdf_path) {
        Some(PdfRenderState::Failed(error)) => assert_eq!(error, "boom"),
        _ => panic!("expected failed render state to be stored"),
    }
}

#[test]
fn update_ignores_stale_pdf_render_results() {
    let mut state = default_state();
    let pdf_path = "stale.pdf".to_string();
    state.render_generation = 5;
    state
        .pdf_renders
        .insert(pdf_path.clone(), PdfRenderState::Loading);

    let _ = update(
        &mut state,
        Message::PdfRendered {
            pdf_path: pdf_path.clone(),
            generation: 4,
            result: Ok(vec![sample_page(1)]),
        },
    );

    assert!(matches!(
        state.pdf_renders.get(&pdf_path),
        Some(PdfRenderState::Loading)
    ));
}

#[test]
fn second_resize_supersedes_first_debounce() {
    let mut state = default_state();
    state.pdfs_in_folder = vec!["a.pdf".to_string()];

    let first = update(&mut state, Message::WindowResized { render_width: 700 });
    let second = update(&mut state, Message::WindowResized { render_width: 900 });
    assert!(matches!(first, Command::DebounceResize { generation: 1, render_width: 700 }));
    assert!(matches!(second, Command::DebounceResize { generation: 2, render_width: 900 }));

    let stale = update(
        &mut state,
        Message::DebouncedResizeTriggered {
            generation: 1,
            render_width: 700,
        },
    );
    assert!(matches!(stale, Command::Nothing));
    assert_eq!(state.rendered_pdf_width, 852);
    assert_eq!(state.render_generation, 0);

    let current = update(
        &mut state,
        Message::DebouncedResizeTriggered {
            generation: 2,
            render_width: 900,
        },
    );
    match current {
        Command::RenderPdfs(jobs) => {
            assert_eq!(jobs.len(), 1);
            assert_eq!(jobs[0].pdf_path, "a.pdf");
            assert_eq!(jobs[0].render_width, 900);
            assert_eq!(jobs[0].generation, 1);
        }
        _ => panic!("expected render jobs"),
    }
    assert_eq!(state.rendered_pdf_width, 900);
}

#[test]
fn resize_back_to_rendered_width_while_pending_restarts_debounce() {
    let mut state = default_state();
    let _ = update(&mut state, Message::WindowResized { render_width: 700 });

    let task = update(&mut state, Message::WindowResized { render_width: 852 });

    assert!(matches!(task, Command::DebounceResize { generation: 2, render_width: 852 }));
    assert_eq!(state.pending_render_width, Some(852));
}

#[test]
fn current_debounce_without_pdfs_has_no_work() {
    let mut state = default_state();
    let _ = update(&mut state, Message::WindowResized { render_width: 640 });

    let task = update(
        &mut state,
        Message::DebouncedResizeTriggered {
            generation: 1,
            render_width: 640,
        },
    );

    assert!(matches!(task, Command::Nothing));
    assert_eq!(state.rendered_pdf_width, 640);
    assert_eq!(state.render_generation, 1);
}

#[test]
fn toggle_twice_restores_collapsed_flag() {
    let mut state = default_state();

    let _ = update(&mut state, Message::ToggleDestinationsCollapsed);
    assert!(state.destinations_collapsed);
    let _ = update(&mut state, Message::ToggleDestinationsCollapsed);
    assert!(!state.destinations_collapsed);
}

#[test]
fn pickers_are_requested_without_state_change() {
    let mut state = default_state();

    assert!(matches!(
        update(&mut state, Message::AddDestination),
        Command::PickDestinationFolder
    ));
    assert!(matches!(
        update(&mut state, Message::SelectFolder),
        Command::PickSourceFolder
    ));
    assert!(state.destination_manager.pending_destination.is_none());
    assert!(state.folder_picker.selected_folder.is_none());
}

#[test]
fn destination_workflow_through_messages() {
    let mut state = default_state();

    let _ = update(&mut state, Message::DestinationFolderPicked("/srv/out".to_string()));
    let _ = update(&mut state, Message::SaveDestination);
    assert_eq!(
        state.destination_manager.error_message,
        Some("Destination name is required.".to_string())
    );

    let _ = update(
        &mut state,
        Message::PendingDestinationNameChanged("out".to_string()),
    );
    assert!(state.destination_manager.error_message.is_none());
    let _ = update(&mut state, Message::SaveDestination);
    assert_eq!(
        state.destination_manager.destinations.get("out"),
        Some(&"/srv/out".to_string())
    );

    let _ = update(&mut state, Message::RemoveDestination("out".to_string()));
    assert!(state.destination_manager.destinations.is_empty());

    let _ = update(&mut state, Message::DestinationFolderPicked("/x".to_string()));
    let _ = update(&mut state, Message::CancelDestination);
    assert!(state.destination_manager.pending_destination.is_none());
}

#[test]
fn move_to_missing_destination_shows_error() {
    let mut state = default_state();
    let _ = update(&mut state, Message::BeginMovePdf("a.pdf".to_string()));

    let task = update(
        &mut state,
        Message::MovePdfToDestination {
            pdf_path: "a.pdf".to_string(),
            destination_nickname: "nowhere".to_string(),
        },
    );

    assert!(matches!(task, Command::Nothing));
    assert_eq!(
        state.destination_manager.error_message,
        Some("Selected destination does not exist.".to_string())
    );
    assert_eq!(
        state.destination_manager.active_move_pdf,
        Some("a.pdf".to_string())
    );
}

#[test]
fn successful_move_removes_pdf_from_state() {
    let mut state = default_state();
    state
        .destination_manager
        .destinations
        .insert("archive".to_string(), "/out".to_string());
    state.pdfs_in_folder = vec!["/in/a.pdf".to_string(), "/in/b.pdf".to_string()];
    state
        .pdf_renders
        .insert("/in/a.pdf".to_string(), PdfRenderState::Loading);
    state
        .pdf_renders
        .insert("/in/b.pdf".to_string(), PdfRenderState::Loading);
    let _ = update(&mut state, Message::BeginMovePdf("/in/a.pdf".to_string()));

    let task = update(
        &mut state,
        Message::MovePdfToDestination {
            pdf_path: "/in/a.pdf".to_string(),
            destination_nickname: "archive".to_string(),
        },
    );
    match task {
        Command::MoveFile { pdf_path, file_move } => {
            assert_eq!(pdf_path, "/in/a.pdf");
            assert_eq!(file_move.source, "/in/a.pdf");
            assert_eq!(file_move.folder, "/out");
        }
        _ => panic!("expected a file move"),
    }

    let _ = update(
        &mut state,
        Message::PdfMoveFinished {
            pdf_path: "/in/a.pdf".to_string(),
            outcome: Ok("/out/a.pdf".to_string()),
        },
    );

    assert_eq!(state.pdfs_in_folder, vec!["/in/b.pdf".to_string()]);
    assert!(state.pdf_renders.get("/in/a.pdf").is_none());
    assert_eq!(state.pdf_renders.len(), 1);
    assert!(state.destination_manager.active_move_pdf.is_none());
}

#[test]
fn failed_move_keeps_pdf_and_shows_error() {
    let mut state = default_state();
    state.pdfs_in_folder = vec!["/in/a.pdf".to_string()];

    let _ = update(
        &mut state,
        Message::PdfMoveFinished {
            pdf_path: "/in/a.pdf".to_string(),
            outcome: Err("A file with that name already exists in the destination.".to_string()),
        },
    );

    assert_eq!(state.pdfs_in_folder.len(), 1);
    assert_eq!(
        state.destination_manager.error_message,
        Some("A file with that name already exists in the destination.".to_string())
    );
}

#[test]
fn remove_pdf_from_state_drops_every_copy_of_the_path() {
    let mut state = default_state();
    state.pdfs_in_folder = vec![
        "x.pdf".to_string(),
        "y.pdf".to_string(),
        "x.pdf".to_string(),
    ];

    remove_pdf_from_state(&mut state, "x.pdf");

    assert_eq!(state.pdfs_in_folder, vec!["y.pdf".to_string()]);
}

#[test]
fn folder_loaded_message_replaces_previous_renders() {
    let mut state = default_state();
    state
        .pdf_renders
        .insert("old.pdf".to_string(), PdfRenderState::Failed("old".to_string()));

    let task = update(
        &mut state,
        Message::FolderLoaded {
            folder: "/docs".to_string(),
            pdf_paths: vec!["/docs/one.pdf".to_string()],
            render_width: 500,
        },
    );

    assert_eq!(jobs_of(&task), 1);
    assert_eq!(state.pdf_renders.len(), 1);
    assert!(state.pdf_renders.get("old.pdf").is_none());
    assert_eq!(state.rendered_pdf_width, 500);
    assert_eq!(state.render_generation, 1);
}

#[test]
fn adding_and_removing_destinations_asks_to_store_them() {
    let mut state = default_state();
    let _ = update(&mut state, Message::DestinationFolderPicked("/srv/out".to_string()));
    let _ = update(
        &mut state,
        Message::PendingDestinationNameChanged("out".to_string()),
    );

    assert!(matches!(
        update(&mut state, Message::SaveDestination),
        Command::StoreDestinations
    ));
    assert!(matches!(
        update(&mut state, Message::SaveDestination),
        Command::Nothing
    ));
    assert!(matches!(
        update(&mut state, Message::RemoveDestination("out".to_string())),
        Command::StoreDestinations
    ));
    assert!(matches!(
        update(&mut state, Message::RemoveDestination("out".to_string())),
        Command::Nothing
    ));
}

#[test]
fn failed_store_is_shown() {
    let mut state = default_state();

    let _ = update(&mut state, Message::DestinationsStored(Ok(())));
    assert!(state.destination_manager.error_message.is_none());

    let _ = update(
        &mut state,
        Message::DestinationsStored(Err("disk full".to_string())),
    );
    assert_eq!(
        state.destination_manager.error_message,
        Some("disk full".to_string())
    );
}

#[test]
fn selected_folder_label_falls_back_to_placeholder() {
    let mut picker = FolderPicker::default();
    assert_eq!(selected_folder_label(&picker), "No folder selected");

    picker.selected_folder = Some("C:\\temp".to_string());
    assert_eq!(selected_folder_label(&picker), "C:\\temp");
}
