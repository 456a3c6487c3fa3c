//! Overlays animated, fading-in caption text onto an existing animated GIF.
//!
//! The pipeline decodes each indexed frame against its palette, composites
//! outlined caption text with a time-varying blur and alpha fade, maps the
//! result back to an index stream bound to the original palette, and
//! re-encodes a looping GIF with every frame's timing and disposal metadata
//! preserved. Caption text is first normalized by substituting emoji with
//! ASCII stand-ins. A small path parser derives store keys and captions
//! from request-style paths.

pub mod blend;
pub mod canvas;
pub mod codec;
pub mod decode;
pub mod emoji;
pub mod error;
pub mod fade;
pub mod parse_query;
pub mod pipeline;
pub mod quantize;
pub mod strutil;
pub mod text;
