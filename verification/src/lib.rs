//! The decisions of a PDF triage tool: the destination folders a user keeps,
//! the state of the preview pane, and the steps of moving a file.
pub mod text;
pub mod sorted_map;
pub mod paths;
pub mod file_move;
pub mod destination;
pub mod pdf;
pub mod organizer;
pub mod laws;
