//! Uploads local document folders, each described by a two-line
//! `description.txt`, as named bundles to a remote store: the text format,
//! the per-folder upload protocol and the tally shown to the user.
pub mod description;
pub mod tally;
pub mod text;
pub mod upload;
