//! Moving a file into a folder, as a sequence of file-system requests: refuse
//! when the target exists, else rename, and when renaming fails copy the file
//! and remove the source. The caller performs each request and reports its
//! outcome back.
use vstd::prelude::*;
use crate::paths::{
    ends_in_parent, final_segment, has_simple_file_name, is_appendable_folder, is_plain_name,
    is_portable_path, is_simple_path, joins_to, lands_in, lemma_landing_final_segment,
    lemma_portable_file_names, no_backslash_after_slash, path_file_name, path_join,
    simple_file_name, slash_segment, without_trailing_slashes,
};

verus! {

/// Where a file move stands.
pub enum MoveStep {
    /// The target path's existence is to be checked.
    CheckDestination,
    /// The source is to be renamed to the target.
    Rename,
    /// Renaming failed with `rename_error`; the source is to be copied.
    Copy { rename_error: String },
    /// The copy succeeded; the source is to be removed.
    RemoveSource,
    /// The move is over: the target path, or the error to show.
    Finished(Result<String, String>),
}

/// A file move from `source` into the folder `folder`, whose target path is
/// `destination`.
pub struct FileMove {
    pub source: String,
    pub folder: String,
    pub destination: String,
    pub step: MoveStep,
}

/// A file-system request the caller is to carry out.
pub enum FsRequest {
    CheckExists(String),
    Rename { from: String, to: String },
    Copy { from: String, to: String },
    RemoveFile(String),
    /// Nothing more to do: the move's result.
    Finish(Result<String, String>),
}

/// What came of a request.
pub enum FsOutcome {
    /// The answer to `CheckExists`.
    Exists(bool),
    /// The result of `Rename`, `Copy` or `RemoveFile`, with the error's text.
    Done(Result<(), String>),
}

/// The error when the source path has no file name.
pub open spec fn missing_name_message() -> Seq<char> {
    "File name is missing for the selected PDF."@
}

/// The error when the target path already exists.
pub open spec fn target_exists_message() -> Seq<char> {
    "A file with that name already exists in the destination."@
}

/// The error when both renaming and copying failed.
pub open spec fn copy_failed_message(rename_error: Seq<char>, copy_error: Seq<char>) -> Seq<char> {
    "Failed to move file. Rename error: "@ + rename_error + ". Copy error: "@ + copy_error
}

/// The error when the copy succeeded but the source stayed.
pub open spec fn remove_failed_message(remove_error: Seq<char>) -> Seq<char> {
    "File was copied but the source could not be removed: "@ + remove_error
}

/// How far a step is from the end: every accepted outcome lowers it.
pub open spec fn step_rank(step: MoveStep) -> nat {
    match step {
        MoveStep::CheckDestination => 4,
        MoveStep::Rename => 3,
        MoveStep::Copy { .. } => 2,
        MoveStep::RemoveSource => 1,
        MoveStep::Finished(_) => 0,
    }
}

/// The step that `outcome` leads to from `step`, for a move whose target is
/// `destination`, as a predicate on the new step `next`.
pub open spec fn step_after(step: MoveStep, outcome: FsOutcome, destination: String, next: MoveStep) -> bool {
    match (step, outcome) {
        (MoveStep::CheckDestination, FsOutcome::Exists(true)) => next matches MoveStep::Finished(
            Err(e),
        ) && e@ == target_exists_message(),
        (MoveStep::CheckDestination, FsOutcome::Exists(false)) => next is Rename,
        (MoveStep::Rename, FsOutcome::Done(Ok(_))) => next == MoveStep::Finished(Ok(destination)),
        (MoveStep::Rename, FsOutcome::Done(Err(e))) => next == MoveStep::Copy { rename_error: e },
        (MoveStep::Copy { rename_error }, FsOutcome::Done(Ok(_))) => next is RemoveSource,
        (MoveStep::Copy { rename_error }, FsOutcome::Done(Err(e))) => next matches MoveStep::Finished(
            Err(m),
        ) && m@ == copy_failed_message(rename_error@, e@),
        (MoveStep::RemoveSource, FsOutcome::Done(Ok(_))) => next == MoveStep::Finished(
            Ok(destination),
        ),
        (MoveStep::RemoveSource, FsOutcome::Done(Err(e))) => next matches MoveStep::Finished(
            Err(m),
        ) && m@ == remove_failed_message(e@),
        _ => next == step,
    }
}

/// Whether `outcome` answers the request that `step` makes.
pub open spec fn answers(step: MoveStep, outcome: FsOutcome) -> bool {
    match step {
        MoveStep::CheckDestination => outcome is Exists,
        MoveStep::Rename | MoveStep::Copy { .. } | MoveStep::RemoveSource => outcome is Done,
        MoveStep::Finished(_) => false,
    }
}

/// The file move whose target path, if the source has a file name, is
/// `destination`: without one the move has already failed.
pub fn plan_file_move(source: String, folder: String, destination: Option<String>) -> (res: FileMove)
    ensures
        res.source == source,
        res.folder == folder,
        destination matches Some(d) ==> (res.destination == d && res.step is CheckDestination),
        destination is None ==> (res.step matches MoveStep::Finished(Err(e)) && e@
            == missing_name_message()),
{
    match destination {
        Some(d) => FileMove { source, folder, destination: d, step: MoveStep::CheckDestination },
        None => FileMove {
            source,
            folder,
            destination: String::new(),
            step: MoveStep::Finished(
                Err(String::from_str("File name is missing for the selected PDF.")),
            ),
        },
    }
}

/// Whether `m` is a fresh move of `source` into `folder`: its target is the
/// folder joined with the source's file name, or, without a file name, it has
/// already failed. Where the platforms agree on both paths the target is
/// exact: a simple source whose file name is a plain name (see
/// `has_simple_file_name`, `is_plain_name`), moved into an appendable folder
/// (`is_appendable_folder`), goes to that file name appended to the folder,
/// so the file keeps its name. A portable source (see `is_portable_path`),
/// Windows-form ones such as `C:\in\a.pdf` among them, has one of two file
/// names, by platform: its final segment, or its text after the last `/`.
/// Unless a `/` in it is directly followed by `\`, the target is that file
/// name appended to an appendable folder after one separator (or the name
/// alone, where Windows reads a drive at its start), and the target's final
/// segment is the source's.
pub open spec fn move_started(m: FileMove, source: Seq<char>, folder: Seq<char>) -> bool {
    &&& m.source@ == source
    &&& m.folder@ == folder
    &&& m.step is CheckDestination || (m.step matches MoveStep::Finished(Err(e)) && e@
        == missing_name_message())
    &&& (has_simple_file_name(source) || is_portable_path(source)) ==> m.step is CheckDestination
    &&& (has_simple_file_name(source) && is_plain_name(simple_file_name(source))
        && is_appendable_folder(folder)) ==> joins_to(
        m.destination@,
        folder,
        simple_file_name(source),
    )
    &&& (is_simple_path(source) && (without_trailing_slashes(source).len() == 0 || ends_in_parent(
        source,
    ))) ==> (m.step matches MoveStep::Finished(Err(e)) && e@ == missing_name_message())
    &&& (is_portable_path(source) && no_backslash_after_slash(source) && is_appendable_folder(
        folder,
    )) ==> {
        &&& m.step is CheckDestination
        &&& final_segment(m.destination@) == final_segment(source)
        &&& lands_in(m.destination@, folder, final_segment(source)) || lands_in(
            m.destination@,
            folder,
            slash_segment(source),
        )
    }
}

/// Starts moving the file `source` into the folder `folder`: the target is
/// the folder joined with the source's file name; without a file name the
/// move fails at once.
pub fn start_file_move(source: &str, folder: &str) -> (res: FileMove)
    ensures
        move_started(res, source@, folder@),
{
    let destination = match path_file_name(source) {
        Some(name) => {
            let target = path_join(folder, name.as_str());
            proof {
                if is_portable_path(source@) && no_backslash_after_slash(source@)
                    && is_appendable_folder(folder@) {
                    lemma_portable_file_names(source@, name@);
                    lemma_landing_final_segment(target@, folder@, name@);
                }
            }
            Some(target)
        },
        None => None,
    };
    plan_file_move(String::from_str(source), String::from_str(folder), destination)
}

fn joined(a: &str, b: &str) -> (res: String)
    ensures
        res@ == a@ + b@,
{
    let mut s = String::from_str(a);
    s.append(b);
    s
}

impl FileMove {
    /// The request the current step makes.
    pub fn request(&self) -> (res: FsRequest)
        ensures
            match self.step {
                MoveStep::CheckDestination => res matches FsRequest::CheckExists(p) && p
                    == self.destination,
                MoveStep::Rename => res matches FsRequest::Rename { from, to } && from
                    == self.source && to == self.destination,
                MoveStep::Copy { .. } => res matches FsRequest::Copy { from, to } && from
                    == self.source && to == self.destination,
                MoveStep::RemoveSource => res matches FsRequest::RemoveFile(p) && p
                    == self.source,
                MoveStep::Finished(r) => res matches FsRequest::Finish(x) && x == r,
            },
    {
        match &self.step {
            MoveStep::CheckDestination => FsRequest::CheckExists(self.destination.clone()),
            MoveStep::Rename => FsRequest::Rename {
                from: self.source.clone(),
                to: self.destination.clone(),
            },
            MoveStep::Copy { .. } => FsRequest::Copy {
                from: self.source.clone(),
                to: self.destination.clone(),
            },
            MoveStep::RemoveSource => FsRequest::RemoveFile(self.source.clone()),
            MoveStep::Finished(r) => FsRequest::Finish(
                match r {
                    Ok(p) => Ok(p.clone()),
                    Err(e) => Err(e.clone()),
                },
            ),
        }
    }

    /// Whether the move is over.
    pub fn is_finished(&self) -> (res: bool)
        ensures
            res == self.step is Finished,
    {
        matches!(self.step, MoveStep::Finished(_))
    }

    /// Takes in the outcome of the current request. An outcome that does not
    /// answer that request leaves the move as it is.
    pub fn advance(&mut self, outcome: FsOutcome)
        ensures
            final(self).source == old(self).source,
            final(self).folder == old(self).folder,
            final(self).destination == old(self).destination,
            step_after(old(self).step, outcome, old(self).destination, final(self).step),
    {
        let mut step = MoveStep::CheckDestination;
        std::mem::swap(&mut step, &mut self.step);
        let next = match (step, outcome) {
            (MoveStep::CheckDestination, FsOutcome::Exists(true)) => MoveStep::Finished(
                Err(String::from_str("A file with that name already exists in the destination.")),
            ),
            (MoveStep::CheckDestination, FsOutcome::Exists(false)) => MoveStep::Rename,
            (MoveStep::Rename, FsOutcome::Done(Ok(()))) => MoveStep::Finished(
                Ok(self.destination.clone()),
            ),
            (MoveStep::Rename, FsOutcome::Done(Err(e))) => MoveStep::Copy { rename_error: e },
            (MoveStep::Copy { rename_error }, FsOutcome::Done(Ok(()))) => MoveStep::RemoveSource,
            (MoveStep::Copy { rename_error }, FsOutcome::Done(Err(e))) => MoveStep::Finished(
                {
                    let mut m = joined("Failed to move file. Rename error: ", rename_error.as_str());
                    m.append(". Copy error: ");
                    m.append(e.as_str());
                    Err(m)
                },
            ),
            (MoveStep::RemoveSource, FsOutcome::Done(Ok(()))) => MoveStep::Finished(
                Ok(self.destination.clone()),
            ),
            (MoveStep::RemoveSource, FsOutcome::Done(Err(e))) => MoveStep::Finished(
                Err(joined("File was copied but the source could not be removed: ", e.as_str())),
            ),
            (other, _) => other,
        };
        self.step = next;
    }
}

} // verus!
