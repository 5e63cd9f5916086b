//! The two ways in which the desktop shell asks for a thumbnail: with the
//! content of the file as a stream, where the caller waits for the
//! generator, and with the path of the file, where the caller is answered at
//! once from the cache.

pub mod thumbnail;
pub mod thumbnail_file;

pub use thumbnail::{ThumbnailHandler, ThumbnailProvider};
pub use thumbnail_file::{ThumbnailFileHandler, ThumbnailFileProvider};
