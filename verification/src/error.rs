//! The errors of the library.

use vstd::prelude::*;

verus! {

/// The step at which the codec gave up on a packet.
#[derive(Debug, Clone, Copy, PartialEq, Eq, Structural)]
pub enum CodecFault {
    /// The reader did not accept the packet's bytes.
    Decode,
    /// The packet carries a clock reference too large for the writer.
    ClockRange,
    /// The writer did not accept the decoded packet.
    Encode,
}

/// A packet of a segment that the codec did not pass.
#[derive(Debug, Clone, Copy, PartialEq, Eq, Structural)]
pub struct PacketError {
    /// Position of the packet in its segment, counted from zero.
    pub packet: usize,
    pub fault: CodecFault,
}

/// A packet of a run of segments that the codec did not pass.
#[derive(Debug, Clone, Copy, PartialEq, Eq, Structural)]
pub struct SegmentError {
    /// Position of the segment in the playlist, counted from zero.
    pub segment: usize,
    pub error: PacketError,
}

/// Why a resolution failed.
#[derive(Debug, Clone, PartialEq, Eq)]
pub enum ResolveError {
    /// The bytes are not a playlist; the parser's words are kept.
    Parse(String),
    /// A playlist or a segment could not be loaded.
    Transport,
    /// A fetched segment did not pass the codec.
    Codec(SegmentError),
    /// No variant was selected, or one that is not on the list.
    Selection,
    /// The destination could not be opened or written.
    Output,
}

/// The mathematical value of a `ResolveError`.
pub enum ResolveErrorView {
    Parse(Seq<char>),
    Transport,
    Codec(SegmentError),
    Selection,
    Output,
}

impl DeepView for ResolveError {
    type V = ResolveErrorView;

    open spec fn deep_view(&self) -> ResolveErrorView {
        match self {
            ResolveError::Parse(message) => ResolveErrorView::Parse(message@),
            ResolveError::Transport => ResolveErrorView::Transport,
            ResolveError::Codec(error) => ResolveErrorView::Codec(*error),
            ResolveError::Selection => ResolveErrorView::Selection,
            ResolveError::Output => ResolveErrorView::Output,
        }
    }
}

impl ResolveError {
    /// Tells whether the error ends only the resolution at hand: a playlist
    /// that does not parse is reported, every other error is fatal.
    pub fn is_recoverable(&self) -> (r: bool)
        ensures
            r == (self.deep_view() is Parse),
    {
        match self {
            ResolveError::Parse(_) => true,
            _ => false,
        }
    }

    /// A copy of the error.
    pub fn duplicate(&self) -> (r: ResolveError)
        ensures
            r.deep_view() == self.deep_view(),
    {
        match self {
            ResolveError::Parse(message) => ResolveError::Parse(message.clone()),
            ResolveError::Transport => ResolveError::Transport,
            ResolveError::Codec(error) => ResolveError::Codec(*error),
            ResolveError::Selection => ResolveError::Selection,
            ResolveError::Output => ResolveError::Output,
        }
    }
}

} // verus!
