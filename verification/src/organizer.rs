//! The organizer's state and how each message changes it. Work outside the
//! state (folder pickers, reading a folder, moving files, waiting, rendering)
//! is handed back as a `Command`; its result comes back as another message.
//!
//! PDF paths are compared as text, in the folder's list and as keys of the
//! render table: two texts that `Path` would take for one path (`dir//a.pdf`,
//! `dir/a.pdf`) are two entries here. The paths come from one folder listing
//! and are handed back unchanged, so each file has one text.
use vstd::prelude::*;
use crate::destination::{
    DestinationManager, begin_destination_move, begin_destination_selection,
    cancel_destination_move, cancel_pending_destination, destination_removed, finish_pdf_move,
    move_begun, move_closed, move_pdf_to_destination, pdf_move_finished, pending_cancelled,
    pending_renamed, remove_destination, save_error_message, save_pending_destination,
    save_succeeds, saved, selection_begun, unknown_destination_message,
    update_pending_destination_name,
};
use crate::file_move::{FileMove, move_started};
use crate::pdf::{PdfRenderState, RenderJob, RenderedPdfPage, all_loading, schedule_pdf_renders, texts};
use crate::sorted_map::SortedTextMap;
use crate::text::same_text;

verus! {

/// The folder whose PDFs are shown.
pub struct FolderPicker {
    pub selected_folder: Option<String>,
}

impl Default for FolderPicker {
    fn default() -> (res: Self)
        ensures
            res.selected_folder is None,
    {
        FolderPicker { selected_folder: None }
    }
}

/// The text shown for the selected folder: its path, or `No folder selected`.
pub fn selected_folder_label(picker: &FolderPicker) -> (res: &str)
    ensures
        res@ == match picker.selected_folder {
            Some(f) => f@,
            None => "No folder selected"@,
        },
{
    match &picker.selected_folder {
        Some(folder) => folder.as_str(),
        None => "No folder selected",
    }
}

/// Everything the organizer keeps; `H` is the type of a rendered page image.
pub struct OrganizerState<H> {
    pub destination_manager: DestinationManager,
    pub destinations_collapsed: bool,
    pub folder_picker: FolderPicker,
    pub pdfs_in_folder: Vec<String>,
    pub pdf_renders: SortedTextMap<PdfRenderState<H>>,
    pub rendered_pdf_width: u16,
    pub render_generation: u64,
    pub resize_debounce_generation: u64,
    pub pending_render_width: Option<u16>,
}

/// What the user or a finished piece of work tells the organizer.
pub enum Message<H> {
    AddDestination,
    /// The folder picked after `AddDestination`.
    DestinationFolderPicked(String),
    BeginMovePdf(String),
    CancelDestination,
    CancelMovePdf,
    MovePdfToDestination { pdf_path: String, destination_nickname: String },
    /// How the file move of `pdf_path` ended: the new path, or the error.
    PdfMoveFinished { pdf_path: String, outcome: Result<String, String> },
    PendingDestinationNameChanged(String),
    RemoveDestination(String),
    SaveDestination,
    /// How writing the destinations to storage ended.
    DestinationsStored(Result<(), String>),
    ToggleDestinationsCollapsed,
    SelectFolder,
    /// The folder picked after `SelectFolder`, the PDFs found in it, and the
    /// render width for the current window.
    FolderLoaded { folder: String, pdf_paths: Vec<String>, render_width: u16 },
    /// The window changed size; `render_width` is the page width it allows.
    WindowResized { render_width: u16 },
    DebouncedResizeTriggered { generation: u64, render_width: u16 },
    PdfRendered {
        pdf_path: String,
        generation: u64,
        result: Result<Vec<RenderedPdfPage<H>>, String>,
    },
}

/// Work for the caller to do after a message.
pub enum Command {
    /// Nothing to do.
    Nothing,
    /// Ask the user for a folder to add as a destination.
    PickDestinationFolder,
    /// Ask the user for a folder of PDFs, and read it.
    PickSourceFolder,
    /// Write the current destinations to storage and report `DestinationsStored`.
    StoreDestinations,
    /// Carry out the file move of `pdf_path`.
    MoveFile { pdf_path: String, file_move: FileMove },
    /// Wait, then report `DebouncedResizeTriggered` with these values.
    DebounceResize { generation: u64, render_width: u16 },
    /// Render these PDFs and report each with `PdfRendered`.
    RenderPdfs(Vec<RenderJob>),
}

/// Whether a resize to `render_width` has to wait for a new debounce.
pub open spec fn resize_needs_debounce<H>(s: OrganizerState<H>, render_width: u16) -> bool {
    ||| render_width != s.rendered_pdf_width
    ||| (s.pending_render_width matches Some(p) && p != render_width)
}

/// Whether a debounce that fired with these values is the latest one.
pub open spec fn debounce_is_current<H>(s: OrganizerState<H>, generation: u64, render_width: u16) -> bool {
    generation == s.resize_debounce_generation && s.pending_render_width == Some(render_width)
}

/// The inputs on which handling `m` would not overflow a generation counter.
pub open spec fn can_handle<H>(s: OrganizerState<H>, m: Message<H>) -> bool {
    match m {
        Message::WindowResized { render_width } => resize_needs_debounce(s, render_width)
            ==> s.resize_debounce_generation < u64::MAX,
        Message::DebouncedResizeTriggered { generation, render_width } => debounce_is_current(
            s,
            generation,
            render_width,
        ) ==> s.render_generation < u64::MAX,
        Message::FolderLoaded { .. } => s.render_generation < u64::MAX,
        _ => true,
    }
}

/// `new` differs from `old` in the destination manager at most.
pub open spec fn only_manager_changed<H>(old: OrganizerState<H>, new: OrganizerState<H>) -> bool {
    &&& new.destinations_collapsed == old.destinations_collapsed
    &&& new.folder_picker == old.folder_picker
    &&& new.pdfs_in_folder == old.pdfs_in_folder
    &&& new.pdf_renders == old.pdf_renders
    &&& new.rendered_pdf_width == old.rendered_pdf_width
    &&& new.render_generation == old.render_generation
    &&& new.resize_debounce_generation == old.resize_debounce_generation
    &&& new.pending_render_width == old.pending_render_width
}

/// `jobs` are render jobs for `paths`, in order, at `render_width` for `generation`.
pub open spec fn jobs_for(jobs: Seq<RenderJob>, paths: Seq<String>, render_width: u16, generation: u64) -> bool {
    &&& jobs.len() == paths.len()
    &&& forall|i: int|
        0 <= i < jobs.len() ==> (#[trigger] jobs[i]).pdf_path@ == paths[i]@ && jobs[i].render_width
            == render_width && jobs[i].generation == generation
}

/// `new` is `old` after `pdf_path` left the folder: gone from the list and
/// from the renders.
pub open spec fn pdf_dropped<H>(old: OrganizerState<H>, new: OrganizerState<H>, pdf_path: Seq<char>) -> bool {
    &&& new.pdfs_in_folder@ == old.pdfs_in_folder@.filter(|p: String| p@ != pdf_path)
    &&& new.pdf_renders@ == old.pdf_renders@.remove(pdf_path)
    &&& new.destination_manager == old.destination_manager
    &&& new.destinations_collapsed == old.destinations_collapsed
    &&& new.folder_picker == old.folder_picker
    &&& new.rendered_pdf_width == old.rendered_pdf_width
    &&& new.render_generation == old.render_generation
    &&& new.resize_debounce_generation == old.resize_debounce_generation
    &&& new.pending_render_width == old.pending_render_width
}

/// `new` and `cmd` are `old` after loading `folder` with the PDFs `pdf_paths`
/// at `render_width`.
pub open spec fn folder_loaded<H>(
    old: OrganizerState<H>,
    new: OrganizerState<H>,
    cmd: Command,
    folder: String,
    pdf_paths: Vec<String>,
    render_width: u16,
) -> bool {
    &&& new.folder_picker.selected_folder == Some(folder)
    &&& new.pdfs_in_folder == pdf_paths
    &&& new.rendered_pdf_width == render_width
    &&& new.render_generation == old.render_generation + 1
    &&& new.pdf_renders@ == all_loading::<H>(texts(pdf_paths@))
    &&& cmd matches Command::RenderPdfs(jobs) && jobs_for(
        jobs@,
        pdf_paths@,
        render_width,
        new.render_generation,
    )
    &&& new.destination_manager == old.destination_manager
    &&& new.destinations_collapsed == old.destinations_collapsed
    &&& new.resize_debounce_generation == old.resize_debounce_generation
    &&& new.pending_render_width == old.pending_render_width
}

/// `new` and `cmd` are `old` after a resize to `render_width`.
pub open spec fn resized<H>(old: OrganizerState<H>, new: OrganizerState<H>, cmd: Command, render_width: u16) -> bool {
    if resize_needs_debounce(old, render_width) {
        &&& new.resize_debounce_generation == old.resize_debounce_generation + 1
        &&& new.pending_render_width == Some(render_width)
        &&& cmd == Command::DebounceResize {
            generation: new.resize_debounce_generation,
            render_width,
        }
        &&& new.destination_manager == old.destination_manager
        &&& new.destinations_collapsed == old.destinations_collapsed
        &&& new.folder_picker == old.folder_picker
        &&& new.pdfs_in_folder == old.pdfs_in_folder
        &&& new.pdf_renders == old.pdf_renders
        &&& new.rendered_pdf_width == old.rendered_pdf_width
        &&& new.render_generation == old.render_generation
    } else {
        new == old && cmd is Nothing
    }
}

/// `new` and `cmd` are `old` after a debounce fired with these values.
pub open spec fn debounce_fired<H>(
    old: OrganizerState<H>,
    new: OrganizerState<H>,
    cmd: Command,
    generation: u64,
    render_width: u16,
) -> bool {
    if debounce_is_current(old, generation, render_width) {
        &&& new.pending_render_width is None
        &&& new.rendered_pdf_width == render_width
        &&& new.render_generation == old.render_generation + 1
        &&& if old.pdfs_in_folder.len() == 0 {
            new.pdf_renders == old.pdf_renders && cmd is Nothing
        } else {
            &&& new.pdf_renders@ == all_loading::<H>(texts(old.pdfs_in_folder@))
            &&& cmd matches Command::RenderPdfs(jobs) && jobs_for(
                jobs@,
                old.pdfs_in_folder@,
                render_width,
                new.render_generation,
            )
        }
        &&& new.destination_manager == old.destination_manager
        &&& new.destinations_collapsed == old.destinations_collapsed
        &&& new.folder_picker == old.folder_picker
        &&& new.pdfs_in_folder == old.pdfs_in_folder
        &&& new.resize_debounce_generation == old.resize_debounce_generation
    } else {
        new == old && cmd is Nothing
    }
}

/// The render state that a render result stands for.
pub open spec fn render_state_of<H>(result: Result<Vec<RenderedPdfPage<H>>, String>) -> PdfRenderState<H> {
    match result {
        Ok(pages) => PdfRenderState::Loaded(pages),
        Err(e) => PdfRenderState::Failed(e),
    }
}

/// `new` is `old` after a render result for `pdf_path` from `generation`
/// came in: kept when it belongs to the current generation, ignored otherwise.
pub open spec fn render_recorded<H>(
    old: OrganizerState<H>,
    new: OrganizerState<H>,
    pdf_path: String,
    generation: u64,
    result: Result<Vec<RenderedPdfPage<H>>, String>,
) -> bool {
    if generation == old.render_generation {
        &&& new.pdf_renders@ == old.pdf_renders@.insert(pdf_path@, render_state_of(result))
        &&& new.destination_manager == old.destination_manager
        &&& new.destinations_collapsed == old.destinations_collapsed
        &&& new.folder_picker == old.folder_picker
        &&& new.pdfs_in_folder == old.pdfs_in_folder
        &&& new.rendered_pdf_width == old.rendered_pdf_width
        &&& new.render_generation == old.render_generation
        &&& new.resize_debounce_generation == old.resize_debounce_generation
        &&& new.pending_render_width == old.pending_render_width
    } else {
        new == old
    }
}

/// `new` and `cmd` are `old` after the user asked to move `pdf_path` into the
/// destination `nickname`.
pub open spec fn move_requested<H>(
    old: OrganizerState<H>,
    new: OrganizerState<H>,
    cmd: Command,
    pdf_path: String,
    nickname: Seq<char>,
) -> bool {
    if old.destination_manager.destinations@.contains_key(nickname) {
        &&& new == old
        &&& cmd matches Command::MoveFile { pdf_path: p, file_move } && p == pdf_path
            && move_started(file_move, pdf_path@, old.destination_manager.destinations@[nickname]@)
    } else {
        &&& cmd is Nothing
        &&& new.destination_manager.error_message matches Some(e) && e@
            == unknown_destination_message()
        &&& new.destination_manager.destinations == old.destination_manager.destinations
        &&& new.destination_manager.pending_destination
            == old.destination_manager.pending_destination
        &&& new.destination_manager.active_move_pdf == old.destination_manager.active_move_pdf
        &&& only_manager_changed(old, new)
    }
}

/// `new` is `old` after the file move of `pdf_path` ended with `result`: on
/// success the PDF leaves the list, on failure the error is shown.
pub open spec fn move_recorded<H>(
    old: OrganizerState<H>,
    new: OrganizerState<H>,
    pdf_path: String,
    result: Result<String, String>,
) -> bool {
    match result {
        Ok(_) => {
            &&& move_closed(old.destination_manager, new.destination_manager)
            &&& new.pdfs_in_folder@ == old.pdfs_in_folder@.filter(|p: String| p@ != pdf_path@)
            &&& new.pdf_renders@ == old.pdf_renders@.remove(pdf_path@)
            &&& new.destinations_collapsed == old.destinations_collapsed
            &&& new.folder_picker == old.folder_picker
            &&& new.rendered_pdf_width == old.rendered_pdf_width
            &&& new.render_generation == old.render_generation
            &&& new.resize_debounce_generation == old.resize_debounce_generation
            &&& new.pending_render_width == old.pending_render_width
        },
        Err(e) => {
            &&& pdf_move_finished(old.destination_manager, new.destination_manager, result)
            &&& only_manager_changed(old, new)
        },
    }
}

/// `new` is `old` after the user asked to save the pending destination: the
/// save, or the error it failed with shown.
pub open spec fn save_requested<H>(old: OrganizerState<H>, new: OrganizerState<H>) -> bool {
    &&& only_manager_changed(old, new)
    &&& if save_succeeds(old.destination_manager) {
        saved(old.destination_manager, new.destination_manager)
    } else {
        &&& new.destination_manager.error_message matches Some(e) && e@ == save_error_message(
            old.destination_manager,
        )
        &&& new.destination_manager.destinations == old.destination_manager.destinations
        &&& new.destination_manager.pending_destination
            == old.destination_manager.pending_destination
        &&& new.destination_manager.active_move_pdf == old.destination_manager.active_move_pdf
    }
}

/// What handling `m` does to `old`, giving `new` and `cmd`.
pub open spec fn handled<H>(old: OrganizerState<H>, new: OrganizerState<H>, cmd: Command, m: Message<H>) -> bool {
    match m {
        Message::AddDestination => new == old && cmd is PickDestinationFolder,
        Message::DestinationFolderPicked(path) => {
            &&& selection_begun(old.destination_manager, new.destination_manager, path)
            &&& only_manager_changed(old, new)
            &&& cmd is Nothing
        },
        Message::BeginMovePdf(pdf_path) => {
            &&& move_begun(old.destination_manager, new.destination_manager, pdf_path)
            &&& only_manager_changed(old, new)
            &&& cmd is Nothing
        },
        Message::CancelDestination => {
            &&& pending_cancelled(old.destination_manager, new.destination_manager)
            &&& only_manager_changed(old, new)
            &&& cmd is Nothing
        },
        Message::CancelMovePdf => {
            &&& move_closed(old.destination_manager, new.destination_manager)
            &&& only_manager_changed(old, new)
            &&& cmd is Nothing
        },
        Message::MovePdfToDestination { pdf_path, destination_nickname } => move_requested(
            old,
            new,
            cmd,
            pdf_path,
            destination_nickname@,
        ),
        Message::PdfMoveFinished { pdf_path, outcome } => move_recorded(old, new, pdf_path, outcome)
            && cmd is Nothing,
        Message::PendingDestinationNameChanged(nickname) => {
            &&& pending_renamed(old.destination_manager, new.destination_manager, nickname)
            &&& only_manager_changed(old, new)
            &&& cmd is Nothing
        },
        Message::RemoveDestination(nickname) => {
            &&& destination_removed(old.destination_manager, new.destination_manager, nickname@)
            &&& only_manager_changed(old, new)
            &&& if old.destination_manager.destinations@.contains_key(nickname@) {
                cmd is StoreDestinations
            } else {
                cmd is Nothing
            }
        },
        Message::SaveDestination => {
            &&& save_requested(old, new)
            &&& if save_succeeds(old.destination_manager) {
                cmd is StoreDestinations
            } else {
                cmd is Nothing
            }
        },
        Message::DestinationsStored(result) => {
            &&& cmd is Nothing
            &&& match result {
                Ok(_) => new == old,
                Err(e) => {
                    &&& new.destination_manager.error_message == Some(e)
                    &&& new.destination_manager.destinations
                        == old.destination_manager.destinations
                    &&& new.destination_manager.pending_destination
                        == old.destination_manager.pending_destination
                    &&& new.destination_manager.active_move_pdf
                        == old.destination_manager.active_move_pdf
                    &&& only_manager_changed(old, new)
                },
            }
        },
        Message::ToggleDestinationsCollapsed => {
            &&& new.destinations_collapsed == !old.destinations_collapsed
            &&& new.destination_manager == old.destination_manager
            &&& new.folder_picker == old.folder_picker
            &&& new.pdfs_in_folder == old.pdfs_in_folder
            &&& new.pdf_renders == old.pdf_renders
            &&& new.rendered_pdf_width == old.rendered_pdf_width
            &&& new.render_generation == old.render_generation
            &&& new.resize_debounce_generation == old.resize_debounce_generation
            &&& new.pending_render_width == old.pending_render_width
            &&& cmd is Nothing
        },
        Message::SelectFolder => new == old && cmd is PickSourceFolder,
        Message::FolderLoaded { folder, pdf_paths, render_width } => folder_loaded(
            old,
            new,
            cmd,
            folder,
            pdf_paths,
            render_width,
        ),
        Message::WindowResized { render_width } => resized(old, new, cmd, render_width),
        Message::DebouncedResizeTriggered { generation, render_width } => debounce_fired(
            old,
            new,
            cmd,
            generation,
            render_width,
        ),
        Message::PdfRendered { pdf_path, generation, result } => render_recorded(
            old,
            new,
            pdf_path,
            generation,
            result,
        ) && cmd is Nothing,
    }
}

impl<H> OrganizerState<H> {
    /// The starting state: nothing saved or selected, pages rendered at
    /// `rendered_pdf_width`, both generations 0.
    pub fn new(rendered_pdf_width: u16) -> (res: Self)
        ensures
            res.destination_manager.destinations@ == Map::<Seq<char>, String>::empty(),
            res.destination_manager.pending_destination is None,
            res.destination_manager.active_move_pdf is None,
            res.destination_manager.error_message is None,
            !res.destinations_collapsed,
            res.folder_picker.selected_folder is None,
            res.pdfs_in_folder@ == Seq::<String>::empty(),
            res.pdf_renders@ == Map::<Seq<char>, PdfRenderState<H>>::empty(),
            res.rendered_pdf_width == rendered_pdf_width,
            res.render_generation == 0,
            res.resize_debounce_generation == 0,
            res.pending_render_width is None,
    {
        OrganizerState {
            destination_manager: DestinationManager::new(),
            destinations_collapsed: false,
            folder_picker: FolderPicker { selected_folder: None },
            pdfs_in_folder: Vec::new(),
            pdf_renders: SortedTextMap::new(),
            rendered_pdf_width,
            render_generation: 0,
            resize_debounce_generation: 0,
            pending_render_width: None,
        }
    }
}

/// Takes `pdf_path` out of the folder's list and out of the renders.
pub fn remove_pdf_from_state<H>(state: &mut OrganizerState<H>, pdf_path: &str)
    ensures
        pdf_dropped(*old(state), *final(state), pdf_path@),
{
    let ghost before = state.pdfs_in_folder@;
    let ghost keep = |p: String| p@ != pdf_path@;
    let mut kept: Vec<String> = Vec::new();
    let mut rest = Vec::new();
    std::mem::swap(&mut rest, &mut state.pdfs_in_folder);
    let n = rest.len();
    let mut i: usize = 0;
    while i < n
        invariant
            n == before.len(),
            i <= n,
            rest@ == before.skip(i as int),
            kept@ == before.take(i as int).filter(keep),
            keep == (|p: String| p@ != pdf_path@),
        decreases n - i,
    {
        let ghost rest0 = rest@;
        let path = rest.remove(0);
        proof {
            reveal(Seq::filter);
            assert(path == before[i as int]) by {
                assert(before.skip(i as int)[0] == before[i as int]);
            }
            assert(before.take(i + 1).drop_last() =~= before.take(i as int));
            assert(before.take(i + 1).last() == before[i as int]);
            assert(rest@ =~= before.skip(i + 1));
        }
        if !same_text(path.as_str(), pdf_path) {
            kept.push(path);
        }
        i = i + 1;
    }
    proof {
        assert(before.take(n as int) =~= before);
    }
    state.pdfs_in_folder = kept;
    state.pdf_renders.remove(pdf_path);
}

/// Shows the PDFs `pdf_paths` of `folder`, rendered at `render_width`, in a
/// new render generation; hands back the render jobs.
pub fn load_selected_folder<H>(
    state: &mut OrganizerState<H>,
    selected_folder: String,
    pdf_paths: Vec<String>,
    render_width: u16,
) -> (res: Command)
    requires
        old(state).render_generation < u64::MAX,
    ensures
        folder_loaded(*old(state), *final(state), res, selected_folder, pdf_paths, render_width),
{
    state.folder_picker.selected_folder = Some(selected_folder);
    state.pdfs_in_folder = pdf_paths;
    state.rendered_pdf_width = render_width;
    state.render_generation = state.render_generation + 1;
    let jobs = schedule_pdf_renders(
        &state.pdfs_in_folder,
        &mut state.pdf_renders,
        state.rendered_pdf_width,
        state.render_generation,
    );
    Command::RenderPdfs(jobs)
}

/// Tells whether handling `message` keeps every generation counter in range
/// (it fails only when a counter that the message would advance is at its
/// maximum).
pub fn can_handle_message<H>(state: &OrganizerState<H>, message: &Message<H>) -> (res: bool)
    ensures
        res == can_handle(*state, *message),
{
    match message {
        Message::WindowResized { render_width } => {
            let needs = *render_width != state.rendered_pdf_width || match state.pending_render_width {
                Some(pending) => pending != *render_width,
                None => false,
            };
            !needs || state.resize_debounce_generation < u64::MAX
        },
        Message::DebouncedResizeTriggered { generation, render_width } => {
            let current = *generation == state.resize_debounce_generation && match state.pending_render_width {
                Some(pending) => pending == *render_width,
                None => false,
            };
            !current || state.render_generation < u64::MAX
        },
        Message::FolderLoaded { .. } => state.render_generation < u64::MAX,
        _ => true,
    }
}

/// Handles one message: changes the state as `handled` says and hands back
/// the work for the caller.
pub fn update<H>(state: &mut OrganizerState<H>, message: Message<H>) -> (res: Command)
    requires
        can_handle(*old(state), message),
    ensures
        handled(*old(state), *final(state), res, message),
{
    match message {
        Message::AddDestination => Command::PickDestinationFolder,
        Message::DestinationFolderPicked(path) => {
            begin_destination_selection(&mut state.destination_manager, path);
            Command::Nothing
        },
        Message::BeginMovePdf(pdf_path) => {
            begin_destination_move(&mut state.destination_manager, pdf_path);
            Command::Nothing
        },
        Message::CancelDestination => {
            cancel_pending_destination(&mut state.destination_manager);
            Command::Nothing
        },
        Message::CancelMovePdf => {
            cancel_destination_move(&mut state.destination_manager);
            Command::Nothing
        },
        Message::MovePdfToDestination { pdf_path, destination_nickname } => {
            match move_pdf_to_destination(
                &state.destination_manager,
                pdf_path.as_str(),
                destination_nickname.as_str(),
            ) {
                Ok(file_move) => Command::MoveFile { pdf_path, file_move },
                Err(error) => {
                    state.destination_manager.error_message = Some(error);
                    Command::Nothing
                },
            }
        },
        Message::PdfMoveFinished { pdf_path, outcome } => {
            let moved = outcome.is_ok();
            finish_pdf_move(&mut state.destination_manager, outcome);
            if moved {
                remove_pdf_from_state(state, pdf_path.as_str());
            }
            Command::Nothing
        },
        Message::PendingDestinationNameChanged(nickname) => {
            update_pending_destination_name(&mut state.destination_manager, nickname);
            Command::Nothing
        },
        Message::RemoveDestination(nickname) => {
            if remove_destination(&mut state.destination_manager, nickname.as_str()) {
                Command::StoreDestinations
            } else {
                Command::Nothing
            }
        },
        Message::SaveDestination => {
            match save_pending_destination(&mut state.destination_manager) {
                Ok(()) => Command::StoreDestinations,
                Err(error) => {
                    state.destination_manager.error_message = Some(error);
                    Command::Nothing
                },
            }
        },
        Message::DestinationsStored(result) => {
            if let Err(error) = result {
                state.destination_manager.error_message = Some(error);
            }
            Command::Nothing
        },
        Message::ToggleDestinationsCollapsed => {
            state.destinations_collapsed = !state.destinations_collapsed;
            Command::Nothing
        },
        Message::SelectFolder => Command::PickSourceFolder,
        Message::FolderLoaded { folder, pdf_paths, render_width } => {
            load_selected_folder(state, folder, pdf_paths, render_width)
        },
        Message::WindowResized { render_width } => {
            let changed = render_width != state.rendered_pdf_width || match state.pending_render_width {
                Some(pending) => pending != render_width,
                None => false,
            };
            if changed {
                state.resize_debounce_generation = state.resize_debounce_generation + 1;
                state.pending_render_width = Some(render_width);
                Command::DebounceResize {
                    generation: state.resize_debounce_generation,
                    render_width,
                }
            } else {
                Command::Nothing
            }
        },
        Message::DebouncedResizeTriggered { generation, render_width } => {
            let current = generation == state.resize_debounce_generation && match state.pending_render_width {
                Some(pending) => pending == render_width,
                None => false,
            };
            if !current {
                return Command::Nothing;
            }
            state.pending_render_width = None;
            state.rendered_pdf_width = render_width;
            state.render_generation = state.render_generation + 1;
            if state.pdfs_in_folder.len() == 0 {
                Command::Nothing
            } else {
                let jobs = schedule_pdf_renders(
                    &state.pdfs_in_folder,
                    &mut state.pdf_renders,
                    render_width,
                    state.render_generation,
                );
                Command::RenderPdfs(jobs)
            }
        },
        Message::PdfRendered { pdf_path, generation, result } => {
            if generation == state.render_generation {
                let render_state = match result {
                    Ok(pages) => PdfRenderState::Loaded(pages),
                    Err(error) => PdfRenderState::Failed(error),
                };
                state.pdf_renders.insert(pdf_path, render_state);
            }
            Command::Nothing
        },
    }
}

} // verus!
