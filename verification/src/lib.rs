//! Selection comments: markers that attach a comment to a selection in an
//! editor and queue it, with a quote of the selected lines, into an agent
//! thread; plus the settings migration and workflow plan that ship with them.

pub mod editor;
pub mod laws;
pub mod ranges;
pub mod settings_migration;
pub mod text;
pub mod thread_queue;
pub mod wezel;
