//! The file-loading and navigation rules of an image viewer.
//!
//! - [`navigator`]: the sequence of candidate paths and the position in it;
//!   entries that cannot be shown are removed, archives are replaced by
//!   their members.
//! - [`load`]: a file's type from its sniffed media type, and the size limits.
//! - [`extract`]: which archive members may be written out.
//! - [`find`]: the regular files of a directory listing.
//! - [`humane_bytes`], [`percent_formatter`], [`image_info`]: the status line.
pub mod config;
pub mod extract;
pub mod find;
pub mod humane_bytes;
pub mod image_info;
pub mod keys;
pub mod load;
pub mod navigator;
pub mod percent_formatter;
pub mod text;
