//! Logic of a Windows context-menu tool: batch renaming, path handling,
//! registry planning and command-line dispatch, with verified contracts.

pub mod text;
pub mod rename;
pub mod order;
pub mod collect;
pub mod winpath;
pub mod registry;
pub mod cli;
pub mod gui;
