//! The resumption of agent sessions on remote machines.
//!
//! A terminal helper lists the sessions that an agent left on another machine. On
//! request it opens a pane of the terminal in which such a session goes on over SSH,
//! and from then on keeps its own record of which pane shows which session. The
//! records are kept apart from those of local sessions.
//!
//! [`model`] and the views of the types say what the records are and how each event
//! changes them, [`app`] holds the functions that the helper calls, and [`laws`]
//! states what holds of them together.

pub mod app;
pub mod binding;
pub mod clock;
pub mod guid;
pub mod key;
pub mod laws;
pub mod model;
pub mod requests;
pub mod resumes;
pub mod session;
pub mod tabs;
pub mod text;
