//! Listing of files and directories: which entries a request names, and
//! how they are shown, bare or as a table of their metadata.

pub mod args;
pub mod clock;
pub mod decimal;
pub mod format;
pub mod mode;
pub mod owner;
pub mod resolve;
pub mod table;
pub mod text;

pub use args::Args;
pub use format::{format_bare, format_output, format_rows, long_row};
pub use mode::{format_mode, mk_triple};
pub use resolve::find_files;
