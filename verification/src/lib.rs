//! Administration of Minecraft servers over their remote console.
//!
//! The heart of the crate is the console itself: the wire format of its
//! frames (`frame`), the session that logs in and matches every reply to its
//! request (`connection`), and the running of several commands in a row
//! (`batch`). None of these reads or writes: the caller owns the socket and
//! hands in what arrived, and the crate decides what it means. What servers
//! print is read by `metrics` and `whitelist`.
//!
//! The rest is what the commands around the console need: the servers and
//! where they listen (`config`, `endpoint`), text as it is shown (`format`,
//! `status`, `console`, `names`), and the rules of the smaller commands
//! (`backups`, `choices`, `members`, `skin`, `todos`), on the common ground
//! of `text`, `numerals` and `pattern`.

pub mod backups;
pub mod batch;
pub mod choices;
pub mod config;
pub mod connection;
pub mod console;
pub mod endpoint;
pub mod format;
pub mod frame;
pub mod members;
pub mod metrics;
pub mod names;
pub mod numerals;
pub mod pattern;
pub mod skin;
pub mod status;
pub mod text;
pub mod todos;
pub mod whitelist;
