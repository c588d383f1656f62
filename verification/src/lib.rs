//! Agent status for a terminal workspace manager.
//!
//! A workspace holds tabs, a tab holds panes, and each pane shows a terminal that may be running
//! an agent. This crate decides what the user is told about those agents: which status stands for
//! a whole workspace, which panes are listed, how an idle pane ages, how a status is spelled and
//! coloured, where the small overlays go, and when the close-if-idle chord may close a pane.

pub mod clock;
pub mod geometry;
pub mod keys;
pub mod overlay;
pub mod pane;
pub mod screen;
pub mod status;
pub mod terminal;
pub mod text;
pub mod workspace;
