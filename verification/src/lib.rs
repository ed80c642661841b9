//! A bookmark store kept as a directory tree of small text records.
//!
//! Each bookmark is a record, a URL and a list of tags, in a file of its
//! own. The path of the file below the store root is the bookmark's name:
//! the segments of a logical path such as `dev/rust/book` are directories,
//! the last one the file. The store is kept free of empty directories, and
//! every change can be committed with git.
//!
//! The library decides and never acts. A command is a machine
//! ([`command::Machine`]) that asks for one action at a time, for a file to
//! be written or a line to be read, and is told what came of it; the caller
//! performs the actions.
//!
//! - [`path`], [`url`]: which paths and URLs are valid, and where a path
//!   lives below the root.
//! - [`record`]: the record and its text.
//! - [`gate`]: how a yes/no answer is read.
//! - [`sweep`]: the walk that removes empty directories.
//! - [`sync`]: the git commands that record a change.
//! - [`request`], [`machine`], [`command`], [`steps`]: the commands.
//! - [`tree`], [`store`], [`world`]: a model of the store on disk, and what
//!   is proved of the commands that run against it.
//! - [`settings`], [`init`], [`shell`], [`listing`], [`outcome`], [`text`],
//!   [`error`]: configuration, first setup, completion scripts, and helpers.

pub mod command;
pub mod error;
pub mod gate;
pub mod init;
pub mod listing;
pub mod machine;
pub mod outcome;
pub mod path;
pub mod record;
pub mod request;
pub mod settings;
pub mod shell;
pub mod steps;
pub mod store;
pub mod sweep;
pub mod sync;
pub mod text;
pub mod tree;
pub mod url;

pub mod world;
