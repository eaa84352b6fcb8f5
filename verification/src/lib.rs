//! Parsing of AVI containers: the RIFF envelope, its chunks, the index table,
//! and the raw bytes of every indexed frame.
//!
//! [`read_avi`] is the entry point. It takes a whole file held in memory and
//! returns the parsed [`Avi`] together with one [`Frame`] for each entry of the
//! index table. What it returns for every buffer is laid down by the spec
//! function [`container::spec_read_avi`], and the functions it is built from
//! are laid down in the same way, each by a spec function of its own.

pub mod bytes;
pub mod chunk;
pub mod container;
pub mod error;
pub mod header;
pub mod index;
pub mod reader;
pub mod stream;

pub use crate::bytes::vec_u8_to_string;
pub use crate::chunk::{Chunk, ChunkType};
pub use crate::container::{read_avi, read_frame, read_frames, Avi, Frame};
pub use crate::error::{AviError, ErrorKind};
pub use crate::header::{AviHeader, StreamFormat, StreamHeader};
pub use crate::index::{IndexEntry, IndexEntryType};
pub use crate::reader::SubReader;
pub use crate::stream::{InfoChunk, ListInfoChunk};
