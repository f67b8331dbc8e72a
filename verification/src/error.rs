use vstd::prelude::*;

verus! {

/// The ways a GIF byte stream can fail to parse.
///
/// Every failure is structural and local: the first failing layer aborts the
/// whole parse and its error is surfaced to the caller verbatim.
#[derive(Debug, Clone, Copy, PartialEq, Eq, Structural)]
pub enum ParseError {
    /// Fewer bytes remain than a fixed-width field requires.
    UnexpectedEof,
    /// The six signature bytes match neither `GIF87a` nor `GIF89a`.
    UnrecognizedSignature,
    /// A block starts with a byte other than `,` (image) or `!` (extension).
    UnrecognizedSentinel,
    /// No null byte was found to close a sub-block.
    MissingDelimiter,
    /// The block sequence ends without a closing `;`, or no block was found.
    MissingTrailer,
    /// A one-or-more construct matched zero times.
    EmptyRepetition,
}

} // verus!
