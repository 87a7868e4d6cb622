//! Positioned byte buffers: read, write and seek within a borrowed slice, a
//! borrowed mutable slice, an array or a growable `Vec` through one set of
//! traits, with integers read and written in big-endian or little-endian.
//!
//! Each buffer has a single position that reads and writes share.
pub mod endian;
mod bytes;
mod bytes_array;
mod bytes_mut;
mod bytes_owned;
mod bytes_read;
mod bytes_seek;
mod bytes_write;
mod cursor;
pub mod laws;
mod offset;
mod offset_cursor;
mod util;

pub use bytes_read::{ahead, has_ahead, read_effect, rest, ByteRegion, BytesRead, BytesReadRef, ReadError};
pub use bytes_seek::{seek_effect, zero_extended, BytesSeek, SeekError};
pub use bytes::Bytes;
pub use bytes_array::BytesArray;
pub use bytes_mut::BytesMut;
pub use bytes_owned::BytesOwned;
pub use bytes_write::{overwrite, write_effect, BytesWrite, WriteError};
pub use cursor::{Cursor, Storage, StorageMut};
pub use offset::Offset;
pub use offset_cursor::OffsetCursor;
pub use util::{checked_target, seek_from_target, seek_from_to_n_pos, SeekFrom, SeekFromError};
