use pdf_organizer::destination::{
    begin_destination_move, begin_destination_selection, cancel_destination_move,
    cancel_pending_destination, destination_choice_label, finish_pdf_move,
    move_pdf_to_destination, remove_destination, stored_destinations, save_pending_destination,
    update_pending_destination_name, DestinationManager, PendingDestination,
};
use pdf_organizer::destination::{destinations_panel, move_controls, MoveControls};
use pdf_organizer::file_move::MoveStep;

#[test]
fn begin_destination_selection_creates_pending_destination() {
    let mut manager = DestinationManager::default();

    begin_destination_selection(&mut manager, "C:\\dest".to_string());

    assert_eq!(
        manager.pending_destination,
        Some(PendingDestination {
            path: "C:\\dest".to_string(),
            nickname: String::new(),
        })
    );
}

#[test]
fn update_pending_destination_name_updates_pending_value() {
    let mut manager = DestinationManager::default();
    begin_destination_selection(&mut manager, "C:\\dest".to_string());

    update_pending_destination_name(&mut manager, "backup".to_string());

    assert_eq!(
        manager
            .pending_destination
            .as_ref()
            .map(|pending| pending.nickname.as_str()),
        Some("backup")
    );
}

#[test]
fn save_pending_destination_rejects_empty_name() {
    let mut manager = DestinationManager::default();
    begin_destination_selection(&mut manager, "C:\\dest".to_string());

    let result = save_pending_destination(&mut manager);

    assert_eq!(result, Err("Destination name is required.".to_string()));
    assert!(manager.pending_destination.is_some());
}

#[test]
fn save_pending_destination_inserts_destination() {
    let mut manager = DestinationManager::default();
    begin_destination_selection(&mut manager, "C:\\dest".to_string());
    update_pending_destination_name(&mut manager, "backup".to_string());

    let result = save_pending_destination(&mut manager);

    assert_eq!(result, Ok(()));
    assert_eq!(
        manager.destinations.get("backup"),
        Some(&"C:\\dest".to_string())
    );
    assert!(manager.pending_destination.is_none());
}

#[test]
fn save_pending_destination_rejects_duplicate_name() {
    let mut manager = DestinationManager::default();
    manager
        .destinations
        .insert("backup".to_string(), "C:\\existing".to_string());
    begin_destination_selection(&mut manager, "C:\\dest".to_string());
    update_pending_destination_name(&mut manager, "backup".to_string());

    let result = save_pending_destination(&mut manager);

    assert_eq!(result, Err("Destination name already exists.".to_string()));
    assert!(manager.pending_destination.is_some());
}

#[test]
fn cancel_and_remove_destination_clear_state() {
    let mut manager = DestinationManager::default();
    begin_destination_selection(&mut manager, "C:\\dest".to_string());
    cancel_pending_destination(&mut manager);
    manager
        .destinations
        .insert("backup".to_string(), "C:\\dest".to_string());

    let removed = remove_destination(&mut manager, "backup");

    assert!(removed);
    assert!(manager.pending_destination.is_none());
    assert!(manager.destinations.is_empty());
}

#[test]
fn begin_and_cancel_destination_move_update_active_pdf() {
    let mut manager = DestinationManager::default();
    let pdf_path = "sample.pdf".to_string();

    begin_destination_move(&mut manager, pdf_path.clone());
    assert_eq!(manager.active_move_pdf, Some(pdf_path));

    cancel_destination_move(&mut manager);
    assert!(manager.active_move_pdf.is_none());
}

#[test]
fn save_without_pending_destination_fails() {
    let mut manager = DestinationManager::default();

    let result = save_pending_destination(&mut manager);

    assert_eq!(
        result,
        Err("No destination is waiting to be saved.".to_string())
    );
    assert!(manager.destinations.is_empty());
}

#[test]
fn save_trims_the_nickname() {
    let mut manager = DestinationManager::default();
    begin_destination_selection(&mut manager, "/srv/archive".to_string());
    update_pending_destination_name(&mut manager, " \t archive\u{3000}\n".to_string());

    assert_eq!(save_pending_destination(&mut manager), Ok(()));
    assert_eq!(
        manager.destinations.get("archive"),
        Some(&"/srv/archive".to_string())
    );
    assert_eq!(manager.destinations.len(), 1);
}

#[test]
fn save_rejects_nickname_of_only_white_space() {
    let mut manager = DestinationManager::default();
    begin_destination_selection(&mut manager, "/srv/archive".to_string());
    update_pending_destination_name(&mut manager, " \u{a0}\u{2003} ".to_string());

    let result = save_pending_destination(&mut manager);

    assert_eq!(result, Err("Destination name is required.".to_string()));
    assert!(manager.destinations.is_empty());
}

#[test]
fn saved_nickname_cannot_be_saved_twice_even_with_spaces() {
    let mut manager = DestinationManager::default();
    begin_destination_selection(&mut manager, "/a".to_string());
    update_pending_destination_name(&mut manager, "docs".to_string());
    assert_eq!(save_pending_destination(&mut manager), Ok(()));

    begin_destination_selection(&mut manager, "/b".to_string());
    update_pending_destination_name(&mut manager, "  docs ".to_string());
    let result = save_pending_destination(&mut manager);

    assert_eq!(result, Err("Destination name already exists.".to_string()));
    assert_eq!(manager.destinations.get("docs"), Some(&"/a".to_string()));
    assert_eq!(
        manager.pending_destination,
        Some(PendingDestination {
            path: "/b".to_string(),
            nickname: "  docs ".to_string(),
        })
    );
}

#[test]
fn remove_after_save_restores_destinations() {
    let mut manager = DestinationManager::default();
    manager
        .destinations
        .insert("keep".to_string(), "/keep".to_string());
    begin_destination_selection(&mut manager, "/tmp/x".to_string());
    update_pending_destination_name(&mut manager, " temp ".to_string());
    assert_eq!(save_pending_destination(&mut manager), Ok(()));
    assert_eq!(manager.destinations.len(), 2);

    assert!(remove_destination(&mut manager, "temp"));

    assert_eq!(manager.destinations.len(), 1);
    assert_eq!(manager.destinations.get("keep"), Some(&"/keep".to_string()));
    assert!(!remove_destination(&mut manager, "temp"));
}

#[test]
fn renaming_without_pending_destination_changes_nothing() {
    let mut manager = DestinationManager::default();
    manager.error_message = Some("old error".to_string());

    update_pending_destination_name(&mut manager, "ignored".to_string());

    assert!(manager.pending_destination.is_none());
    assert_eq!(manager.error_message, Some("old error".to_string()));
}

#[test]
fn destinations_are_listed_in_ascending_nickname_order() {
    let mut manager = DestinationManager::default();
    for (name, path) in [("zeta", "/z"), ("Alpha", "/A"), ("alpha", "/a"), ("beta", "/b")] {
        begin_destination_selection(&mut manager, path.to_string());
        update_pending_destination_name(&mut manager, name.to_string());
        assert_eq!(save_pending_destination(&mut manager), Ok(()));
    }

    let names: Vec<&str> = manager.destinations.keys().iter().map(|k| k.as_str()).collect();
    let paths: Vec<&str> = manager.destinations.values().iter().map(|p| p.as_str()).collect();

    assert_eq!(names, vec!["Alpha", "alpha", "beta", "zeta"]);
    assert_eq!(paths, vec!["/A", "/a", "/b", "/z"]);
}

#[test]
fn move_to_unknown_destination_is_refused() {
    let manager = DestinationManager::default();

    let result = move_pdf_to_destination(&manager, "/in/sample.pdf", "archive");

    assert_eq!(
        result.err(),
        Some("Selected destination does not exist.".to_string())
    );
}

#[test]
fn move_to_saved_destination_starts_file_move() {
    let mut manager = DestinationManager::default();
    manager
        .destinations
        .insert("archive".to_string(), "/out".to_string());

    let file_move = match move_pdf_to_destination(&manager, "/in/sample.pdf", "archive") {
        Ok(file_move) => file_move,
        Err(error) => panic!("unexpected error: {error}"),
    };

    assert_eq!(file_move.source, "/in/sample.pdf");
    assert_eq!(file_move.folder, "/out");
    assert_eq!(
        std::path::PathBuf::from(&file_move.destination),
        std::path::Path::new("/out").join("sample.pdf")
    );
    assert!(matches!(file_move.step, MoveStep::CheckDestination));
}

#[test]
fn finishing_a_move_closes_choices_or_keeps_error() {
    let mut manager = DestinationManager::default();
    begin_destination_move(&mut manager, "a.pdf".to_string());

    finish_pdf_move(&mut manager, Err("disk full".to_string()));
    assert_eq!(manager.error_message, Some("disk full".to_string()));
    assert_eq!(manager.active_move_pdf, Some("a.pdf".to_string()));

    finish_pdf_move(&mut manager, Ok("/out/a.pdf".to_string()));
    assert!(manager.error_message.is_none());
    assert!(manager.active_move_pdf.is_none());
}

#[test]
fn destination_choice_label_joins_nickname_and_path() {
    assert_eq!(
        destination_choice_label("Invoices", "C:\\Users\\You\\Documents\\Invoices"),
        "Invoices -> C:\\Users\\You\\Documents\\Invoices"
    );
}

#[test]
fn stored_destinations_read_back_the_same() {
    let mut manager = DestinationManager::default();
    manager
        .destinations
        .insert("Invoices".to_string(), "C:\\Users\\You\\Documents\\Invoices".to_string());
    manager
        .destinations
        .insert("Archive".to_string(), "D:\\PDF Archive".to_string());

    let entries = stored_destinations(&manager);
    assert_eq!(
        entries,
        vec![
            ("Archive".to_string(), "D:\\PDF Archive".to_string()),
            (
                "Invoices".to_string(),
                "C:\\Users\\You\\Documents\\Invoices".to_string()
            ),
        ]
    );

    let restored = DestinationManager::from_stored(Ok(entries));
    assert_eq!(restored.destinations.keys(), manager.destinations.keys());
    assert_eq!(restored.destinations.values(), manager.destinations.values());
    assert!(restored.error_message.is_none());
}

#[test]
fn from_stored_keeps_the_later_of_two_entries() {
    let restored = DestinationManager::from_stored(Ok(vec![
        ("a".to_string(), "/first".to_string()),
        ("a".to_string(), "/second".to_string()),
    ]));

    assert_eq!(restored.destinations.len(), 1);
    assert_eq!(restored.destinations.get("a"), Some(&"/second".to_string()));
}

#[test]
fn unreadable_storage_starts_empty_with_error() {
    let restored = DestinationManager::from_stored(Err("bad json".to_string()));

    assert!(restored.destinations.is_empty());
    assert_eq!(restored.error_message, Some("bad json".to_string()));
    assert!(restored.pending_destination.is_none());
}

#[test]
fn move_controls_follow_active_pdf_and_destinations() {
    let mut manager = DestinationManager::default();
    assert!(matches!(move_controls(&manager, "a.pdf"), MoveControls::Closed));

    begin_destination_move(&mut manager, "a.pdf".to_string());
    assert!(matches!(
        move_controls(&manager, "a.pdf"),
        MoveControls::AddDestinationFirst
    ));
    assert!(matches!(move_controls(&manager, "b.pdf"), MoveControls::Closed));

    manager
        .destinations
        .insert("archive".to_string(), "/out".to_string());
    assert!(matches!(
        move_controls(&manager, "a.pdf"),
        MoveControls::ChooseDestination
    ));
}

#[test]
fn move_keeps_the_file_name_of_a_nested_source() {
    let mut manager = DestinationManager::default();
    manager
        .destinations
        .insert("archive".to_string(), "/out/".to_string());

    let file_move = match move_pdf_to_destination(&manager, "docs/scans/loaded.pdf", "archive") {
        Ok(file_move) => file_move,
        Err(error) => panic!("unexpected error: {error}"),
    };

    assert_eq!(file_move.destination, "/out/loaded.pdf");
}

#[test]
fn destinations_panel_hides_everything_when_collapsed() {
    let mut manager = DestinationManager::default();
    manager.error_message = Some("oops".to_string());
    begin_destination_selection(&mut manager, "/x".to_string());
    manager.error_message = Some("oops".to_string());

    let collapsed = destinations_panel(&manager, true);
    assert!(!collapsed.show_add_button);
    assert!(!collapsed.show_pending_editor);
    assert!(!collapsed.show_error);
    assert!(!collapsed.show_empty_notice);
    assert!(!collapsed.show_list);

    let open = destinations_panel(&manager, false);
    assert!(open.show_add_button);
    assert!(open.show_pending_editor);
    assert!(open.show_error);
    assert!(open.show_empty_notice);
    assert!(!open.show_list);

    manager
        .destinations
        .insert("a".to_string(), "/a".to_string());
    let listed = destinations_panel(&manager, false);
    assert!(!listed.show_empty_notice);
    assert!(listed.show_list);
}

#[test]
fn move_targets_folder_with_one_separator() {
    let mut manager = DestinationManager::default();
    manager
        .destinations
        .insert("archive".to_string(), "/out".to_string());

    let file_move = match move_pdf_to_destination(&manager, "/in/sample.pdf", "archive") {
        Ok(file_move) => file_move,
        Err(error) => panic!("unexpected error: {error}"),
    };

    assert_eq!(file_move.destination, "/out/sample.pdf");
}
