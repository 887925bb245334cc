//! QPACK, the header compression of HTTP/3. Header blocks pass through this
//! library as opaque bytes; only the errors of a decoder are named here.

use vstd::prelude::*;

verus! {

/// What a QPACK decoder can find wrong with a header block.
#[derive(Debug, Copy, Clone, PartialEq, Eq, Structural)]
pub enum DecoderError {
    InvalidRepresentation,
    InvalidIntegerPrefix,
    InvalidTableIndex,
    InvalidHuffmanCode,
    InvalidUtf8,
    InvalidStatusCode,
    InvalidPseudoheader,
    InvalidMaxDynamicSize,
    IntegerOverflow,
    /// The block ended before the decoder was done.
    NeedMore(NeedMore),
}

/// What a QPACK decoder was in the middle of when the block ended.
#[derive(Debug, Copy, Clone, PartialEq, Eq, Structural)]
pub enum NeedMore {
    UnexpectedEndOfStream,
    IntegerUnderflow,
    StringUnderflow,
}

} // verus!
