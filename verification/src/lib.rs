//! A directory listing as data: one level of a directory is taken in as plain
//! values, sorted into folders and files, and laid out as text, either as a
//! grid of names or as one detailed line per entry.

pub mod args;
pub mod dir;
pub mod error;
pub mod file;
pub mod folder;
pub mod laws;
pub mod layout;
pub mod nameset;
pub mod order;
pub mod page;
pub mod probe;
pub mod snapshot;
pub mod style;
pub mod support;
pub mod text;

pub use args::Cli;
pub use dir::Directory;
pub use error::Error;
pub use file::File;
pub use folder::Folder;
