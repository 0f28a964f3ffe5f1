//! Resolves an HTTP Live Streaming playlist into one transport stream.
//!
//! A playlist is either a master playlist, a menu of variant streams, or a
//! media playlist, an ordered list of segments. The [`resolver`] classifies
//! the bytes it is given and says, step by step, what is to be loaded, asked
//! or written next; the [`remux`] module passes each fetched segment through
//! the transport-stream codec, packet by packet. The library does no input
//! or output of its own.

pub mod codec;
pub mod error;
pub mod playlist;
pub mod remux;
pub mod resolver;

pub use error::{CodecFault, PacketError, ResolveError, SegmentError};
pub use playlist::{selection_list, Playlist, Segment, Variant};
pub use remux::{remux, remux_segment};
pub use resolver::{Action, Event, Source, State, M3U8};
