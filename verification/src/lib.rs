//! A verified core for a board-document archiver.
//!
//! A board is a JSON payload plus a set of referenced media files.  This
//! library packages both into a single store-mode zip container and restores
//! them later:
//!
//! - [`archive`] builds and decodes the container's entry list and holds the
//!   write/read entry points over in-memory bytes;
//! - [`media_name`] derives the archive-internal `media/<id>.<ext>` names
//!   from caller ids and source paths, and recovers ids when reading;
//! - [`extract`] plans where extracted media land in a staging directory;
//! - [`session`] tracks which archive file the in-memory document is bound
//!   to, deciding save-as-vs-save semantics;
//! - [`errors`] enumerates the failure modes of saving and loading;
//! - [`download`] vets URLs for the host's video-download subprocess;
//! - [`zipio`] is the trusted boundary to the `zip` crate;
//! - [`strutil`] holds small string helpers.
//!
//! All file and dialog I/O stays with the caller: the library computes the
//! exact bytes to write and the exact staging paths to fill.

pub mod archive;
pub mod download;
pub mod errors;
pub mod extract;
pub mod media_name;
pub mod session;
pub mod strutil;
pub mod zipio;
