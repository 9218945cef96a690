//! The destination folders that PDFs can be moved into, each saved under a
//! unique nickname, and the editing state around them.
//!
//! Paths are kept and compared as text: the PDF whose moves are open is the
//! one whose path has exactly the same text, so `dir//a.pdf` and `dir/a.pdf`
//! count as two paths (`Path` equality, which compares components, would
//! make them one). Every path the organizer sees comes from the same folder
//! listing and is handed back unchanged, so one file always has one text.
use vstd::prelude::*;
use crate::file_move::{FileMove, move_started, start_file_move};
use crate::sorted_map::{SortedTextMap, ascending};
use crate::text::{same_text, trim_whitespace, trimmed};

verus! {

/// A folder the user picked but has not saved under a nickname yet.
#[derive(Debug, Clone, PartialEq, Eq)]
pub struct PendingDestination {
    pub path: String,
    pub nickname: String,
}

/// The saved destinations (nickname to folder path) and the editing state.
pub struct DestinationManager {
    pub destinations: SortedTextMap<String>,
    pub pending_destination: Option<PendingDestination>,
    pub active_move_pdf: Option<String>,
    pub error_message: Option<String>,
}

impl DestinationManager {
    /// A manager with no destinations and nothing pending.
    pub fn new() -> (res: Self)
        ensures
            res.destinations@ == Map::<Seq<char>, String>::empty(),
            res.pending_destination is None,
            res.active_move_pdf is None,
            res.error_message is None,
    {
        DestinationManager {
            destinations: SortedTextMap::new(),
            pending_destination: None,
            active_move_pdf: None,
            error_message: None,
        }
    }
}

/// The destinations that stored (nickname, path) entries stand for; of two
/// entries with one nickname the later one counts.
pub open spec fn entries_map(entries: Seq<(String, String)>) -> Map<Seq<char>, String>
    decreases entries.len(),
{
    if entries.len() == 0 {
        Map::empty()
    } else {
        entries_map(entries.drop_last()).insert(entries.last().0@, entries.last().1)
    }
}

impl DestinationManager {
    /// A manager holding the destinations read back from storage; when they
    /// could not be read, none, and the error to show.
    pub fn from_stored(stored: Result<Vec<(String, String)>, String>) -> (res: Self)
        ensures
            match stored {
                Ok(entries) => res.destinations@ == entries_map(entries@) && res.error_message is None,
                Err(e) => res.destinations@ == Map::<Seq<char>, String>::empty()
                    && res.error_message == Some(e),
            },
            res.pending_destination is None,
            res.active_move_pdf is None,
    {
        let mut manager = DestinationManager::new();
        match stored {
            Ok(entries) => {
                let ghost all = entries@;
                let n = entries.len();
                let mut rest = entries;
                let mut i: usize = 0;
                while i < n
                    invariant
                        n == all.len(),
                        i <= n,
                        rest@ == all.skip(i as int),
                        manager.destinations@ == entries_map(all.take(i as int)),
                        manager.pending_destination is None,
                        manager.active_move_pdf is None,
                        manager.error_message is None,
                    decreases n - i,
                {
                    let ghost rest0 = rest@;
                    let (nickname, path) = rest.remove(0);
                    proof {
                        assert(all.skip(i as int)[0] == all[i as int]);
                        assert(all.take(i + 1).drop_last() =~= all.take(i as int));
                        assert(all.take(i + 1).last() == all[i as int]);
                        assert(rest@ =~= all.skip(i + 1));
                    }
                    manager.destinations.insert(nickname, path);
                    i = i + 1;
                }
                assert(all.take(n as int) =~= all);
            },
            Err(error) => {
                manager.error_message = Some(error);
            },
        }
        manager
    }
}

/// The nicknames of stored entries, in order.
pub open spec fn entry_nicknames(entries: Seq<(String, String)>) -> Seq<Seq<char>> {
    entries.map_values(|e: (String, String)| e.0@)
}

/// The saved destinations as (nickname, path) entries in ascending nickname
/// order: what is written to storage, and what `from_stored` reads back.
pub fn stored_destinations(manager: &DestinationManager) -> (res: Vec<(String, String)>)
    ensures
        entries_map(res@) == manager.destinations@,
        res.len() == manager.destinations@.len(),
        ascending(entry_nicknames(res@)),
{
    let keys = manager.destinations.keys();
    let values = manager.destinations.values();
    let ghost m = manager.destinations@;
    let ghost ks = manager.destinations.key_list();
    let n = keys.len();
    let mut res: Vec<(String, String)> = Vec::new();
    let mut i: usize = 0;
    assert(entries_map(res@) =~= Map::new(|k: Seq<char>| ks.take(0).contains(k), |k: Seq<char>| m[k]));
    while i < n
        invariant
            n == keys.len(),
            n == values.len(),
            keys@.map_values(|k: String| k@) == ks,
            forall|j: int| 0 <= j < values.len() ==> m.contains_key(#[trigger] ks[j]) && m[ks[j]] == values@[j],
            i <= n,
            res.len() == i,
            forall|j: int| 0 <= j < i ==> (#[trigger] res@[j]).0@ == ks[j],
            entries_map(res@) == Map::new(|k: Seq<char>| ks.take(i as int).contains(k), |k: Seq<char>| m[k]),
        decreases n - i,
    {
        let entry = (keys[i].clone(), values[i].clone());
        let ghost before = res@;
        res.push(entry);
        proof {
            assert(res@.drop_last() =~= before);
            assert(ks[i as int] == keys@[i as int]@);
            let t0 = ks.take(i as int);
            let t1 = ks.take(i + 1);
            assert forall|k: Seq<char>| #[trigger] t1.contains(k) <==> (t0.contains(k) || k == ks[i as int]) by {
                if t1.contains(k) {
                    let j = choose|j: int| 0 <= j < t1.len() && t1[j] == k;
                    if j < i {
                        assert(t0[j] == k);
                    }
                }
                if t0.contains(k) {
                    let j = choose|j: int| 0 <= j < t0.len() && t0[j] == k;
                    assert(t1[j] == k);
                }
                if k == ks[i as int] {
                    assert(t1[i as int] == k);
                }
            }
            assert(entries_map(res@) =~= Map::new(|k: Seq<char>| t1.contains(k), |k: Seq<char>| m[k]));
        }
        i = i + 1;
    }
    proof {
        assert(ks.take(n as int) =~= ks);
        assert forall|k: Seq<char>| ks.contains(k) <==> m.contains_key(k) by {
            assert(ks.to_set().contains(k) <==> ks.contains(k));
        }
        assert(entries_map(res@) =~= m);
        assert(entry_nicknames(res@) =~= ks);
    }
    res
}

impl Default for DestinationManager {
    fn default() -> (res: Self)
        ensures
            res.destinations@ == Map::<Seq<char>, String>::empty(),
            res.pending_destination is None,
            res.active_move_pdf is None,
            res.error_message is None,
    {
        DestinationManager::new()
    }
}

/// The error when nothing is pending.
pub open spec fn nothing_pending_message() -> Seq<char> {
    "No destination is waiting to be saved."@
}

/// The error when the trimmed nickname is empty.
pub open spec fn name_required_message() -> Seq<char> {
    "Destination name is required."@
}

/// The error when the trimmed nickname is already saved.
pub open spec fn name_taken_message() -> Seq<char> {
    "Destination name already exists."@
}

/// The error when a move names a destination that is not saved.
pub open spec fn unknown_destination_message() -> Seq<char> {
    "Selected destination does not exist."@
}

/// `new` is `old` after picking the folder `path` to add as a destination.
pub open spec fn selection_begun(old: DestinationManager, new: DestinationManager, path: String) -> bool {
    &&& new.pending_destination matches Some(p) && p.path == path && p.nickname@ == Seq::<char>::empty()
    &&& new.active_move_pdf is None
    &&& new.error_message is None
    &&& new.destinations == old.destinations
}

/// `new` is `old` after typing `nickname` into the pending destination's name.
pub open spec fn pending_renamed(old: DestinationManager, new: DestinationManager, nickname: String) -> bool {
    match old.pending_destination {
        Some(p) => {
            &&& new.pending_destination == Some(PendingDestination { path: p.path, nickname })
            &&& new.error_message is None
            &&& new.destinations == old.destinations
            &&& new.active_move_pdf == old.active_move_pdf
        },
        None => new == old,
    }
}

/// When saving the pending destination succeeds: something is pending, its
/// trimmed nickname is not empty and not saved yet.
pub open spec fn save_succeeds(m: DestinationManager) -> bool {
    &&& m.pending_destination is Some
    &&& trimmed(m.pending_destination->0.nickname@).len() > 0
    &&& !m.destinations@.contains_key(trimmed(m.pending_destination->0.nickname@))
}

/// The error that saving the pending destination of `m` fails with, when
/// `save_succeeds(m)` does not hold.
pub open spec fn save_error_message(m: DestinationManager) -> Seq<char> {
    if m.pending_destination is None {
        nothing_pending_message()
    } else if trimmed(m.pending_destination->0.nickname@).len() == 0 {
        name_required_message()
    } else {
        name_taken_message()
    }
}

/// `new` is `old` after a successful save of its pending destination.
pub open spec fn saved(old: DestinationManager, new: DestinationManager) -> bool {
    let p = old.pending_destination->0;
    &&& new.destinations@ == old.destinations@.insert(trimmed(p.nickname@), p.path)
    &&& new.pending_destination is None
    &&& new.error_message is None
    &&& new.active_move_pdf == old.active_move_pdf
}

/// `new` and `res` are what saving the pending destination of `old` gives.
pub open spec fn pending_saved(old: DestinationManager, new: DestinationManager, res: Result<(), String>) -> bool {
    if save_succeeds(old) {
        &&& res is Ok
        &&& saved(old, new)
    } else {
        &&& new == old
        &&& res matches Err(e) && e@ == save_error_message(old)
    }
}

/// `new` is `old` with the pending destination dropped.
pub open spec fn pending_cancelled(old: DestinationManager, new: DestinationManager) -> bool {
    &&& new.pending_destination is None
    &&& new.error_message is None
    &&& new.destinations == old.destinations
    &&& new.active_move_pdf == old.active_move_pdf
}

/// `new` is `old` with the move choices opened for `pdf_path`.
pub open spec fn move_begun(old: DestinationManager, new: DestinationManager, pdf_path: String) -> bool {
    &&& new.active_move_pdf == Some(pdf_path)
    &&& new.error_message is None
    &&& new.destinations == old.destinations
    &&& new.pending_destination == old.pending_destination
}

/// `new` is `old` with the move choices closed.
pub open spec fn move_closed(old: DestinationManager, new: DestinationManager) -> bool {
    &&& new.active_move_pdf is None
    &&& new.error_message is None
    &&& new.destinations == old.destinations
    &&& new.pending_destination == old.pending_destination
}

/// `new` is `old` with the destination `nickname` removed.
pub open spec fn destination_removed(old: DestinationManager, new: DestinationManager, nickname: Seq<char>) -> bool {
    &&& new.destinations@ == old.destinations@.remove(nickname)
    &&& new.pending_destination == old.pending_destination
    &&& new.active_move_pdf == old.active_move_pdf
    &&& new.error_message == old.error_message
}

/// Records the folder `path` as the destination to be named next, and closes
/// any open move choices and error.
pub fn begin_destination_selection(manager: &mut DestinationManager, path: String)
    ensures
        selection_begun(*old(manager), *final(manager), path),
{
    manager.pending_destination = Some(PendingDestination { path, nickname: String::new() });
    manager.active_move_pdf = None;
    manager.error_message = None;
}

/// Sets the nickname of the pending destination, if there is one.
pub fn update_pending_destination_name(manager: &mut DestinationManager, nickname: String)
    ensures
        pending_renamed(*old(manager), *final(manager), nickname),
{
    if let Some(pending_destination) = &mut manager.pending_destination {
        pending_destination.nickname = nickname;
        manager.error_message = None;
    }
}

/// Saves the pending destination under its trimmed nickname. Fails, leaving
/// everything as it was, when nothing is pending, when the trimmed nickname is
/// empty, or when it is already saved.
pub fn save_pending_destination(manager: &mut DestinationManager) -> (res: Result<(), String>)
    ensures
        pending_saved(*old(manager), *final(manager), res),
{
    let pending_destination = match manager.pending_destination.take() {
        Some(p) => p,
        None => {
            return Err(String::from_str("No destination is waiting to be saved."));
        },
    };
    let nickname = trim_whitespace(pending_destination.nickname.as_str());
    if nickname.unicode_len() == 0 {
        manager.pending_destination = Some(pending_destination);
        return Err(String::from_str("Destination name is required."));
    }
    if manager.destinations.contains_key(nickname.as_str()) {
        manager.pending_destination = Some(pending_destination);
        return Err(String::from_str("Destination name already exists."));
    }
    manager.destinations.insert(nickname, pending_destination.path);
    manager.error_message = None;
    Ok(())
}

/// Drops the pending destination.
pub fn cancel_pending_destination(manager: &mut DestinationManager)
    ensures
        pending_cancelled(*old(manager), *final(manager)),
{
    manager.pending_destination = None;
    manager.error_message = None;
}

/// Opens the move choices for `pdf_path`.
pub fn begin_destination_move(manager: &mut DestinationManager, pdf_path: String)
    ensures
        move_begun(*old(manager), *final(manager), pdf_path),
{
    manager.active_move_pdf = Some(pdf_path);
    manager.error_message = None;
}

/// Closes the move choices.
pub fn cancel_destination_move(manager: &mut DestinationManager)
    ensures
        move_closed(*old(manager), *final(manager)),
{
    manager.active_move_pdf = None;
    manager.error_message = None;
}

/// Removes the destination saved as `nickname`; tells whether there was one.
pub fn remove_destination(manager: &mut DestinationManager, nickname: &str) -> (res: bool)
    ensures
        res == old(manager).destinations@.contains_key(nickname@),
        destination_removed(*old(manager), *final(manager), nickname@),
{
    manager.destinations.remove(nickname)
}

/// Starts moving `pdf_path` into the folder saved as `destination_nickname`:
/// fails when no such destination is saved, and otherwise hands back the file
/// move to be carried out, from `pdf_path` into that folder. The manager
/// changes only when the move has finished (`finish_pdf_move`).
pub fn move_pdf_to_destination(
    manager: &DestinationManager,
    pdf_path: &str,
    destination_nickname: &str,
) -> (res: Result<FileMove, String>)
    ensures
        res is Ok <==> manager.destinations@.contains_key(destination_nickname@),
        res matches Err(e) ==> e@ == unknown_destination_message(),
        res matches Ok(m) ==> move_started(
            m,
            pdf_path@,
            manager.destinations@[destination_nickname@]@,
        ),
{
    match manager.destinations.get(destination_nickname) {
        Some(destination_folder) => Ok(start_file_move(pdf_path, destination_folder.as_str())),
        None => Err(String::from_str("Selected destination does not exist.")),
    }
}

/// What the destinations panel shows, below its title and its
/// show/hide button.
pub struct DestinationsPanel {
    pub show_add_button: bool,
    pub show_pending_editor: bool,
    pub show_error: bool,
    pub show_empty_notice: bool,
    pub show_list: bool,
}

/// What the destinations panel shows: nothing more when collapsed; otherwise
/// the add button, the editor of a pending destination if there is one, the
/// error if there is one, and the list of destinations, or a notice that
/// there are none.
pub fn destinations_panel(manager: &DestinationManager, collapsed: bool) -> (res: DestinationsPanel)
    ensures
        res.show_add_button == !collapsed,
        res.show_pending_editor == (!collapsed && manager.pending_destination is Some),
        res.show_error == (!collapsed && manager.error_message is Some),
        res.show_empty_notice == (!collapsed && manager.destinations@ == Map::<
            Seq<char>,
            String,
        >::empty()),
        res.show_list == (!collapsed && manager.destinations@ != Map::<Seq<char>, String>::empty()),
{
    let empty = manager.destinations.is_empty();
    DestinationsPanel {
        show_add_button: !collapsed,
        show_pending_editor: !collapsed && manager.pending_destination.is_some(),
        show_error: !collapsed && manager.error_message.is_some(),
        show_empty_notice: !collapsed && empty,
        show_list: !collapsed && !empty,
    }
}

/// What the move controls of one PDF show.
pub enum MoveControls {
    /// Only the button that opens them.
    Closed,
    /// A request to add a destination first, and a way to cancel.
    AddDestinationFirst,
    /// One choice per saved destination, and a way to cancel.
    ChooseDestination,
}

/// The move controls shown for the PDF at `pdf_path`.
pub open spec fn move_controls_for(m: DestinationManager, pdf_path: Seq<char>) -> MoveControls {
    if m.active_move_pdf is Some && m.active_move_pdf->0@ == pdf_path {
        if m.destinations@ == Map::<Seq<char>, String>::empty() {
            MoveControls::AddDestinationFirst
        } else {
            MoveControls::ChooseDestination
        }
    } else {
        MoveControls::Closed
    }
}

/// Which move controls the PDF at `pdf_path` shows: closed unless its moves
/// are open; then the choices, or, with no destination saved, a request to
/// add one first.
pub fn move_controls(manager: &DestinationManager, pdf_path: &str) -> (res: MoveControls)
    ensures
        res == move_controls_for(*manager, pdf_path@),
        (manager.active_move_pdf is Some && manager.active_move_pdf->0@ == pdf_path@) ==> {
            &&& res is AddDestinationFirst <==> forall|k: Seq<char>|
                !manager.destinations@.contains_key(k)
            &&& res is ChooseDestination <==> exists|k: Seq<char>|
                manager.destinations@.contains_key(k)
        },
        !(manager.active_move_pdf is Some && manager.active_move_pdf->0@ == pdf_path@)
            ==> res is Closed,
{
    proof {
        if forall|k: Seq<char>| !manager.destinations@.contains_key(k) {
            assert(manager.destinations@ =~= Map::<Seq<char>, String>::empty());
        }
    }
    match &manager.active_move_pdf {
        Some(active) => {
            if same_text(active.as_str(), pdf_path) {
                if manager.destinations.is_empty() {
                    MoveControls::AddDestinationFirst
                } else {
                    MoveControls::ChooseDestination
                }
            } else {
                MoveControls::Closed
            }
        },
        None => MoveControls::Closed,
    }
}

/// The label of the choice that moves a PDF into the destination `nickname`
/// at `path`: `nickname -> path`.
pub fn destination_choice_label(nickname: &str, path: &str) -> (res: String)
    ensures
        res@ == nickname@ + " -> "@ + path@,
{
    let mut label = String::from_str(nickname);
    label.append(" -> ");
    label.append(path);
    label
}

/// `new` is `old` after a move that ended with `outcome`.
pub open spec fn pdf_move_finished(old: DestinationManager, new: DestinationManager, outcome: Result<String, String>) -> bool {
    match outcome {
        Ok(_) => move_closed(old, new),
        Err(e) => {
            &&& new.error_message == Some(e)
            &&& new.destinations == old.destinations
            &&& new.pending_destination == old.pending_destination
            &&& new.active_move_pdf == old.active_move_pdf
        },
    }
}

/// Records how a file move ended: a success closes the move choices, a
/// failure is kept as the error to show.
pub fn finish_pdf_move(manager: &mut DestinationManager, outcome: Result<String, String>)
    ensures
        pdf_move_finished(*old(manager), *final(manager), outcome),
{
    match outcome {
        Ok(_) => {
            manager.active_move_pdf = None;
            manager.error_message = None;
        },
        Err(e) => {
            manager.error_message = Some(e);
        },
    }
}

} // verus!
