//! Properties that hold across operations of the library.
use vstd::prelude::*;
use crate::destination::{
    DestinationManager, entries_map, entry_nicknames, destination_removed, name_taken_message, pending_saved, save_error_message,
    save_succeeds,
};
use crate::file_move::{
    FileMove, FsOutcome, MoveStep, answers, move_started, step_after, step_rank,
};
use crate::paths::{
    final_segment, has_simple_file_name, is_appendable_folder, is_plain_name, is_portable_path,
    joins_to, lemma_joined_final_segment, no_backslash_after_slash, simple_file_name,
    slash_segment, starts_like_drive,
};
use crate::organizer::{
    Command, Message, OrganizerState, debounce_fired, handled, move_recorded, resize_needs_debounce,
    resized,
};
use crate::destination::{MoveControls, move_controls_for};
use crate::pdf::{PdfRenderState, PdfSectionKind, RenderedPdfPage, pdf_section_for};
use crate::sorted_map::{ascending, lemma_ascending_distinct};
use crate::text::{is_white_space, trim_end, trim_start, trimmed};

verus! {

proof fn lemma_trim_start_shape(s: Seq<char>)
    ensures
        trim_start(s).len() == 0 || !is_white_space(trim_start(s)[0]),
    decreases s.len(),
{
    if s.len() > 0 && is_white_space(s[0]) {
        lemma_trim_start_shape(s.drop_first());
    }
}

proof fn lemma_trim_end_shape(s: Seq<char>)
    ensures
        trim_end(s).len() <= s.len(),
        trim_end(s) == s.subrange(0, trim_end(s).len() as int),
        trim_end(s).len() == 0 || !is_white_space(trim_end(s).last()),
    decreases s.len(),
{
    if s.len() > 0 && is_white_space(s.last()) {
        lemma_trim_end_shape(s.drop_last());
        assert(s.drop_last().subrange(0, trim_end(s).len() as int) =~= s.subrange(
            0,
            trim_end(s).len() as int,
        ));
    } else {
        assert(s.subrange(0, s.len() as int) =~= s);
    }
}

/// A trimmed text neither starts nor ends with white space.
pub proof fn law_trimmed_has_no_outer_white_space(s: Seq<char>)
    ensures
        trimmed(s).len() > 0 ==> !is_white_space(trimmed(s)[0]) && !is_white_space(
            trimmed(s).last(),
        ),
{
    let u = trim_start(s);
    lemma_trim_start_shape(s);
    lemma_trim_end_shape(u);
    if trimmed(s).len() > 0 {
        assert(trimmed(s)[0] == u[0]);
    }
}

/// Trimming twice is trimming once.
pub proof fn law_trim_idempotent(s: Seq<char>)
    ensures
        trimmed(trimmed(s)) == trimmed(s),
{
    let t = trimmed(s);
    law_trimmed_has_no_outer_white_space(s);
    assert(trim_start(t) == t);
    assert(trim_end(t) == t);
}

/// Every saved nickname is non-empty and has no white space around it.
pub open spec fn nicknames_clean(m: DestinationManager) -> bool {
    forall|k: Seq<char>|
        #[trigger] m.destinations@.contains_key(k) ==> k.len() > 0 && trimmed(k) == k
}

/// Saving and removing keep every saved nickname non-empty and trimmed.
pub proof fn law_nicknames_stay_clean(
    m0: DestinationManager,
    m1: DestinationManager,
    res: Result<(), String>,
    m2: DestinationManager,
    nickname: Seq<char>,
)
    requires
        nicknames_clean(m0),
        pending_saved(m0, m1, res),
        destination_removed(m1, m2, nickname),
    ensures
        nicknames_clean(m1),
        nicknames_clean(m2),
{
    if save_succeeds(m0) {
        let n = trimmed(m0.pending_destination->0.nickname@);
        law_trim_idempotent(m0.pending_destination->0.nickname@);
        assert forall|k: Seq<char>| #[trigger] m1.destinations@.contains_key(k) implies k.len() > 0
            && trimmed(k) == k by {
            if k != n {
                assert(m0.destinations@.contains_key(k));
            }
        }
    }
    assert forall|k: Seq<char>| #[trigger] m2.destinations@.contains_key(k) implies k.len() > 0
        && trimmed(k) == k by {
        assert(m1.destinations@.contains_key(k));
    }
}

/// A nickname that was just saved cannot be saved again: a later save of a
/// pending destination whose trimmed nickname is the same fails as taken.
pub proof fn law_saved_nickname_is_taken(
    m0: DestinationManager,
    m1: DestinationManager,
    res: Result<(), String>,
    m2: DestinationManager,
)
    requires
        pending_saved(m0, m1, res),
        res is Ok,
        m2.destinations == m1.destinations,
        m2.pending_destination is Some,
        trimmed(m2.pending_destination->0.nickname@) == trimmed(
            m0.pending_destination->0.nickname@,
        ),
    ensures
        !save_succeeds(m2),
        save_error_message(m2) == name_taken_message(),
{
}

/// Removing the destination that was just saved gives back the destinations
/// from before the save.
pub proof fn law_remove_undoes_save(
    m0: DestinationManager,
    m1: DestinationManager,
    res: Result<(), String>,
    m2: DestinationManager,
)
    requires
        pending_saved(m0, m1, res),
        res is Ok,
        destination_removed(m1, m2, trimmed(m0.pending_destination->0.nickname@)),
    ensures
        m2.destinations@ == m0.destinations@,
{
    assert(m2.destinations@ =~= m0.destinations@);
}

proof fn lemma_entries_map_of_ascending(entries: Seq<(String, String)>)
    requires
        ascending(entry_nicknames(entries)),
    ensures
        entries_map(entries).dom() == entry_nicknames(entries).to_set(),
        entries_map(entries).len() == entries.len(),
        forall|i: int|
            0 <= i < entries.len() ==> entries_map(entries).contains_key(
                (#[trigger] entries[i]).0@,
            ) && entries_map(entries)[entries[i].0@] == entries[i].1,
    decreases entries.len(),
{
    let names = entry_nicknames(entries);
    lemma_ascending_distinct(names);
    if entries.len() > 0 {
        let rest = entries.drop_last();
        assert(entry_nicknames(rest) =~= names.drop_last());
        lemma_entries_map_of_ascending(rest);
        let k = entries.last().0@;
        assert(names[entries.len() - 1] == k);
        assert forall|i: int| 0 <= i < entries.len() implies entries_map(entries).contains_key(
            (#[trigger] entries[i]).0@,
        ) && entries_map(entries)[entries[i].0@] == entries[i].1 by {
            if i < entries.len() - 1 {
                assert(rest[i] == entries[i]);
                assert(names[i] == entries[i].0@);
                assert(names[i] != k);
            }
        }
        assert(entries_map(entries).dom() =~= names.to_set()) by {
            assert forall|x: Seq<char>| names.to_set().contains(x) implies entries_map(
                entries,
            ).dom().contains(x) by {
                let i = choose|i: int| 0 <= i < names.len() && names[i] == x;
                assert(entries[i].0@ == x);
            }
            assert forall|x: Seq<char>| entries_map(entries).dom().contains(x) implies names.to_set().contains(x) by {
                if x != k {
                    assert(entry_nicknames(rest).to_set().contains(x));
                    let i = choose|i: int| 0 <= i < rest.len() && entry_nicknames(rest)[i] == x;
                    assert(names[i] == x);
                } else {
                    assert(names[entries.len() - 1] == x);
                }
            }
        }
    } else {
        assert(entries_map(entries).dom() =~= names.to_set());
    }
    names.unique_seq_to_set();
}

/// Reading back what was written gives the same destinations, each stored
/// entry under its own nickname: `stored_destinations` writes one entry per
/// destination in ascending nickname order, and `from_stored` reads them.
pub proof fn law_store_then_restore(
    m: DestinationManager,
    entries: Seq<(String, String)>,
    restored: DestinationManager,
)
    requires
        entries_map(entries) == m.destinations@,
        ascending(entry_nicknames(entries)),
        restored.destinations@ == entries_map(entries),
    ensures
        restored.destinations@ == m.destinations@,
        restored.destinations@.len() == entries.len(),
        forall|i: int|
            0 <= i < entries.len() ==> restored.destinations@.contains_key(
                (#[trigger] entries[i]).0@,
            ) && restored.destinations@[entries[i].0@] == entries[i].1,
{
    lemma_entries_map_of_ascending(entries);
}

/// The saved destinations change exactly on the messages that ask for them
/// to be written to storage, so every addition and removal is stored at once.
pub proof fn law_destination_changes_are_stored<H>(
    old: OrganizerState<H>,
    new: OrganizerState<H>,
    cmd: Command,
    m: Message<H>,
)
    requires
        handled(old, new, cmd, m),
    ensures
        (cmd is StoreDestinations) <==> (new.destination_manager.destinations@
            != old.destination_manager.destinations@),
        !(m is SaveDestination || m is RemoveDestination)
            ==> new.destination_manager.destinations@ == old.destination_manager.destinations@,
{
    let before = old.destination_manager.destinations@;
    let after = new.destination_manager.destinations@;
    match m {
        Message::SaveDestination => {
            if save_succeeds(old.destination_manager) {
                let k = trimmed(old.destination_manager.pending_destination->0.nickname@);
                assert(after.contains_key(k) && !before.contains_key(k));
            }
        },
        Message::RemoveDestination(nickname) => {
            if before.contains_key(nickname@) {
                assert(!after.contains_key(nickname@));
            } else {
                assert(after =~= before);
            }
        },
        _ => {},
    }
}

/// No message makes a generation counter go back.
pub proof fn law_generations_never_decrease<H>(
    old: OrganizerState<H>,
    new: OrganizerState<H>,
    cmd: Command,
    m: Message<H>,
)
    requires
        handled(old, new, cmd, m),
    ensures
        new.render_generation >= old.render_generation,
        new.resize_debounce_generation >= old.resize_debounce_generation,
{
}

/// Only the latest resize takes effect: when a second resize needs a new
/// debounce, the debounce started by the first one is ignored when it fires.
pub proof fn law_superseded_debounce_is_ignored<H>(
    s0: OrganizerState<H>,
    s1: OrganizerState<H>,
    c1: Command,
    w1: u16,
    s2: OrganizerState<H>,
    c2: Command,
    w2: u16,
    s3: OrganizerState<H>,
    c3: Command,
)
    requires
        resized(s0, s1, c1, w1),
        resize_needs_debounce(s0, w1),
        resized(s1, s2, c2, w2),
        resize_needs_debounce(s1, w2),
        debounce_fired(s2, s3, c3, s1.resize_debounce_generation, w1),
    ensures
        s3 == s2,
        c3 is Nothing,
{
}

/// Once the move of `pdf_path` has succeeded, the PDF is no longer listed.
pub proof fn law_moved_pdf_leaves_the_list<H>(
    old: OrganizerState<H>,
    new: OrganizerState<H>,
    pdf_path: String,
    outcome: Result<String, String>,
)
    requires
        move_recorded(old, new, pdf_path, outcome),
        outcome is Ok,
    ensures
        forall|i: int|
            0 <= i < new.pdfs_in_folder.len() ==> (#[trigger] new.pdfs_in_folder@[i])@
                != pdf_path@,
        !new.pdf_renders@.contains_key(pdf_path@),
{
    broadcast use vstd::seq_lib::group_filter_ensures;

    let f = |p: String| p@ != pdf_path@;
    assert forall|i: int| 0 <= i < new.pdfs_in_folder.len() implies (
    #[trigger] new.pdfs_in_folder@[i])@ != pdf_path@ by {
        assert(f(old.pdfs_in_folder@.filter(f)[i]));
    }
}

/// Every outcome that answers a file move's request brings it closer to its
/// end, so a move finishes after at most four answered requests.
pub proof fn law_file_move_progresses(step: MoveStep, outcome: FsOutcome, destination: String, next: MoveStep)
    requires
        step_after(step, outcome, destination, next),
        answers(step, outcome),
    ensures
        step_rank(next) < step_rank(step),
{
}

/// A file move reports success only right after a successful rename, or after
/// the source was removed following a successful copy; it never renames over
/// an existing file.
pub proof fn law_file_move_success_paths(step: MoveStep, outcome: FsOutcome, destination: String, next: MoveStep)
    requires
        step_after(step, outcome, destination, next),
        !(step is Finished),
    ensures
        next matches MoveStep::Finished(Ok(p)) ==> p == destination && (step is Rename
            || step is RemoveSource) && outcome matches FsOutcome::Done(Ok(_)),
        step is CheckDestination && outcome == FsOutcome::Exists(true) ==> next matches MoveStep::Finished(Err(_)),
{
}

proof fn lemma_success_only_at_target(steps: Seq<MoveStep>, outcomes: Seq<FsOutcome>, destination: String, i: int)
    requires
        steps.len() == outcomes.len() + 1,
        steps[0] is CheckDestination,
        forall|j: int|
            0 <= j < outcomes.len() ==> step_after(
                #[trigger] steps[j],
                outcomes[j],
                destination,
                steps[j + 1],
            ),
        0 <= i < steps.len(),
    ensures
        steps[i] is Finished && steps[i]->0 is Ok ==> steps[i]->0->Ok_0 == destination,
    decreases i,
{
    if i > 0 {
        lemma_success_only_at_target(steps, outcomes, destination, i - 1);
        assert(step_after(steps[i - 1], outcomes[i - 1], destination, steps[i]));
        if !(steps[i - 1] is Finished) {
            law_file_move_success_paths(steps[i - 1], outcomes[i - 1], destination, steps[i]);
        }
    }
}

/// A moved file keeps its name: when a move of a simple path whose file name
/// is a plain name, into a folder that every platform extends alike, ends in
/// success, whatever outcomes led there, the new path is that file name appended to the folder,
/// and its text after the last separator is the same file name.
pub proof fn law_moved_file_keeps_its_name(
    m: FileMove,
    source: Seq<char>,
    folder: Seq<char>,
    steps: Seq<MoveStep>,
    outcomes: Seq<FsOutcome>,
)
    requires
        move_started(m, source, folder),
        has_simple_file_name(source),
        is_plain_name(simple_file_name(source)),
        is_appendable_folder(folder),
        steps.len() == outcomes.len() + 1,
        steps[0] == m.step,
        forall|j: int|
            0 <= j < outcomes.len() ==> step_after(
                #[trigger] steps[j],
                outcomes[j],
                m.destination,
                steps[j + 1],
            ),
        steps.last() is Finished,
        steps.last()->0 is Ok,
    ensures
        steps.last()->0->Ok_0 == m.destination,
        joins_to(steps.last()->0->Ok_0@, folder, simple_file_name(source)),
        final_segment(steps.last()->0->Ok_0@) == simple_file_name(source),
{
    lemma_success_only_at_target(steps, outcomes, m.destination, steps.len() - 1);
    lemma_joined_final_segment(m.destination@, folder, simple_file_name(source));
}

/// A move of a portable source (Windows-form ones such as
/// `C:\\Users\\You\\scan.pdf` among them, as long as no `/` in it is directly
/// followed by `\\`) into an appendable folder targets the folder followed by
/// one separator and the source's file name, which by platform is its final
/// segment or its text after the last `/`; only where Windows reads a drive
/// at the start of that name may the name stand alone. Either way the
/// target's final segment is the source's: the file keeps its name.
pub proof fn law_move_target_is_folder_and_file_name(m: FileMove, source: Seq<char>, folder: Seq<char>)
    requires
        move_started(m, source, folder),
        is_portable_path(source),
        no_backslash_after_slash(source),
        is_appendable_folder(folder),
    ensures
        m.step is CheckDestination,
        final_segment(m.destination@) == final_segment(source),
        exists|name: Seq<char>|
            #![trigger joins_to(m.destination@, folder, name)]
            (name == final_segment(source) || name == slash_segment(source)) && (joins_to(
                m.destination@,
                folder,
                name,
            ) || (starts_like_drive(name) && m.destination@ == name)),
{
    let d = m.destination@;
    let f = final_segment(source);
    let t = slash_segment(source);
    if joins_to(d, folder, f) || (starts_like_drive(f) && d == f) {
        assert((f == f || f == t) && (joins_to(d, folder, f) || (starts_like_drive(f) && d == f)));
    } else {
        assert((t == f || t == t) && (joins_to(d, folder, t) || (starts_like_drive(t) && d == t)));
    }
}

/// A render result of the current generation is kept for its PDF exactly as
/// it came: the rendered pages, all of them, or the error; every other PDF
/// keeps its state. A result of another generation changes nothing.
pub proof fn law_current_render_is_kept<H>(
    old: OrganizerState<H>,
    new: OrganizerState<H>,
    cmd: Command,
    pdf_path: String,
    generation: u64,
    result: Result<Vec<RenderedPdfPage<H>>, String>,
)
    requires
        handled(old, new, cmd, Message::PdfRendered { pdf_path, generation, result }),
    ensures
        cmd is Nothing,
        generation == old.render_generation ==> {
            &&& new.pdf_renders@.contains_key(pdf_path@)
            &&& result is Ok ==> new.pdf_renders@[pdf_path@] == PdfRenderState::Loaded(
                result->Ok_0,
            )
            &&& result is Err ==> new.pdf_renders@[pdf_path@] == PdfRenderState::<H>::Failed(
                result->Err_0,
            )
            &&& forall|k: Seq<char>|
                k != pdf_path@ ==> (new.pdf_renders@.contains_key(k) == old.pdf_renders@.contains_key(k)
                    && new.pdf_renders@[k] == old.pdf_renders@[k])
            &&& new.render_generation == old.render_generation
            &&& new.pdfs_in_folder == old.pdfs_in_folder
        },
        generation != old.render_generation ==> new == old,
{
}

/// A PDF whose render is loaded shows its pages exactly when there is at
/// least one, and the no-pages notice exactly when there is none; one still
/// loading, or with no entry, shows that it is rendering; a failed one shows
/// the failure.
pub proof fn law_loaded_pdf_shows_its_pages<H>(renders: Map<Seq<char>, PdfRenderState<H>>, path: Seq<char>)
    ensures
        !renders.contains_key(path) ==> pdf_section_for(renders, path) is Rendering,
        renders.contains_key(path) ==> match renders[path] {
            PdfRenderState::Loading => pdf_section_for(renders, path) is Rendering,
            PdfRenderState::Loaded(pages) => (pdf_section_for(renders, path) is Pages <==> pages.len()
                > 0) && (pdf_section_for(renders, path) is NoPages <==> pages.len() == 0),
            PdfRenderState::Failed(_) => pdf_section_for(renders, path) is Failed,
        },
{
}

/// When a PDF's moves are open, its controls ask to add a destination first
/// exactly when none is saved, and offer the choices whenever at least one
/// is; a PDF whose moves are not open shows them closed.
pub proof fn law_move_choices_whenever_a_destination_is_saved(m: DestinationManager, pdf_path: Seq<char>)
    ensures
        (m.active_move_pdf is Some && m.active_move_pdf->0@ == pdf_path) ==> {
            &&& move_controls_for(m, pdf_path) is AddDestinationFirst <==> forall|k: Seq<char>|
                !m.destinations@.contains_key(k)
            &&& move_controls_for(m, pdf_path) is ChooseDestination <==> exists|k: Seq<char>|
                m.destinations@.contains_key(k)
        },
        !(m.active_move_pdf is Some && m.active_move_pdf->0@ == pdf_path) ==> move_controls_for(
            m,
            pdf_path,
        ) is Closed,
{
    if forall|k: Seq<char>| !m.destinations@.contains_key(k) {
        assert(m.destinations@ =~= Map::<Seq<char>, String>::empty());
    }
}

} // verus!
