use vstd::prelude::*;

verus! {

/// Failure taxonomy of the transcode pipeline. Every error aborts the whole
/// operation: no partial GIF is ever returned.
#[derive(Clone, Copy, Debug, PartialEq, Eq, Structural)]
pub enum PipelineError {
    /// The source stream or a frame/palette pairing is malformed.
    DecodeError,
    /// Neither a frame-local nor a global palette exists for some frame.
    NoPaletteError,
    /// The output stream could not be constructed or written.
    EncodeError,
    /// The font bytes do not parse as a usable font.
    FontLoadError,
    /// The reference palette holds no complete color entry.
    QuantizeError,
}

} // verus!
