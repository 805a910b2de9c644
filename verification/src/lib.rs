//! Clipboard synchronisation rules for a remote-desktop session: which native
//! clipboard formats may be read or overwritten, how clipboard content is
//! marked with its owner, how it travels between peers, and when a remote
//! update has to wait for a recent local change.

pub mod data;
pub mod proto;
pub mod retry;
pub mod side;
pub mod text;
pub mod timing;
pub mod windows_formats;
pub mod files;
pub mod format_names;
pub mod listener;
