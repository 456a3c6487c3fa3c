use vstd::prelude::*;
use crate::error::PipelineError;

verus! {

#[verifier::external_type_specification]
#[verifier::external_body]
pub struct ExDisposalMethod(gif::DisposalMethod);

/// Owns a streaming decoder over an in-memory copy of the source bytes.
/// Held opaquely: the contents are reached only through the trusted
/// functions below and described by `decoder_pending` and `decoder_meta`.
#[verifier::external_body]
pub struct FrameDecoder {
    inner: gif::Decoder<std::io::Cursor<Vec<u8>>>,
}

/// Owns a streaming encoder writing to an in-memory byte buffer. Held
/// opaquely: the contents are reached only through the trusted functions
/// below and described by `encoder_frames` and `encoder_meta`.
#[verifier::external_body]
pub struct FrameEncoder {
    inner: gif::Encoder<Vec<u8>>,
}

/// One frame of an animation: an indexed pixel buffer with its geometry,
/// timing and transparency metadata, as the source stream carries it and as
/// the output stream receives it.
pub struct GifFrame {
    /// One palette index per frame-local pixel, row-major.
    pub buffer: Vec<u8>,
    /// Frame-local palette, if the frame carries one.
    pub palette: Option<Vec<u8>>,
    /// Offset of the frame from the left border of the canvas.
    pub left: u16,
    /// Offset of the frame from the top border of the canvas.
    pub top: u16,
    /// Frame-local width.
    pub width: u16,
    /// Frame-local height.
    pub height: u16,
    /// Delay before the next frame, in units of 10 ms.
    pub delay: u16,
    /// How the canvas is treated before the next frame.
    pub dispose: gif::DisposalMethod,
    /// Palette index rendered as transparent, if any.
    pub transparent: Option<u8>,
    /// Whether the frame waits for user input.
    pub needs_user_input: bool,
    /// Whether the frame data is interlaced.
    pub interlaced: bool,
}

/// The mathematical image of a `GifFrame`.
pub ghost struct FrameView {
    pub buffer: Seq<u8>,
    pub palette: Option<Seq<u8>>,
    pub left: u16,
    pub top: u16,
    pub width: u16,
    pub height: u16,
    pub delay: u16,
    pub dispose: gif::DisposalMethod,
    pub transparent: Option<u8>,
    pub needs_user_input: bool,
    pub interlaced: bool,
}

impl View for GifFrame {
    type V = FrameView;

    open spec fn view(&self) -> FrameView {
        FrameView {
            buffer: self.buffer@,
            palette: match self.palette {
                Some(p) => Some(p@),
                None => None,
            },
            left: self.left,
            top: self.top,
            width: self.width,
            height: self.height,
            delay: self.delay,
            dispose: self.dispose,
            transparent: self.transparent,
            needs_user_input: self.needs_user_input,
            interlaced: self.interlaced,
        }
    }
}

/// The logical screen of a source stream: canvas dimensions and the global
/// palette, if one exists.
pub ghost struct StreamMeta {
    pub width: u16,
    pub height: u16,
    pub global_palette: Option<Seq<u8>>,
}

/// Screen descriptor and looping state of an output stream.
pub ghost struct EncoderMeta {
    pub width: u16,
    pub height: u16,
    pub repeat_infinite: bool,
}

/// The frames that a decoder over the given source bytes yields, in order.
pub uninterp spec fn gif_pending_frames(data: Seq<u8>) -> Seq<FrameView>;

/// The logical screen that a decoder over the given source bytes reports.
pub uninterp spec fn gif_stream_meta(data: Seq<u8>) -> StreamMeta;

/// Whether the byte stream parses as a GIF whose header and every frame
/// read back without error.
pub uninterp spec fn gif_decodes(data: Seq<u8>) -> bool;

/// Whether every frame this decoder has yet to yield will read back without
/// error.
pub uninterp spec fn decoder_healthy(d: FrameDecoder) -> bool;

/// The frames a decoder has not yet yielded.
pub uninterp spec fn decoder_pending(d: FrameDecoder) -> Seq<FrameView>;

/// The logical screen a decoder reports.
pub uninterp spec fn decoder_meta(d: FrameDecoder) -> StreamMeta;

/// The frames written to an encoder so far, in order.
pub uninterp spec fn encoder_frames(e: FrameEncoder) -> Seq<FrameView>;

/// The screen descriptor and looping state an encoder was set up with.
pub uninterp spec fn encoder_meta(e: FrameEncoder) -> EncoderMeta;

/// The complete byte stream that encoding the given frames under the given
/// screen descriptor produces.
pub uninterp spec fn gif_encoding(meta: EncoderMeta, frames: Seq<FrameView>) -> Seq<u8>;

/// Relies on gif::Decoder::new: parses the stream header; what the decoder
/// will yield is a function of the source bytes alone, and a stream that
/// decodes fully opens as a healthy decoder.
#[verifier::external_body]
pub fn open_decoder(data: &[u8]) -> (r: Result<FrameDecoder, PipelineError>)
    ensures
        gif_decodes(data@) ==> r is Ok,
        r matches Ok(d) ==> decoder_pending(d) == gif_pending_frames(data@)
            && decoder_meta(d) == gif_stream_meta(data@)
            && (gif_decodes(data@) ==> decoder_healthy(d)),
        r matches Err(e) ==> e == PipelineError::DecodeError,
{
    match gif::Decoder::new(std::io::Cursor::new(data.to_vec())) {
        Ok(d) => Ok(FrameDecoder { inner: d }),
        Err(_) => Err(PipelineError::DecodeError),
    }
}

/// Relies on gif::Decoder::width.
#[verifier::external_body]
pub fn decoder_width(d: &FrameDecoder) -> (w: u16)
    ensures
        w == decoder_meta(*d).width,
{
    d.inner.width()
}

/// Relies on gif::Decoder::height.
#[verifier::external_body]
pub fn decoder_height(d: &FrameDecoder) -> (h: u16)
    ensures
        h == decoder_meta(*d).height,
{
    d.inner.height()
}

/// Relies on gif::Decoder::global_palette: the stream's global color table.
#[verifier::external_body]
pub fn decoder_global_palette(d: &FrameDecoder) -> (r: Option<Vec<u8>>)
    ensures
        match r {
            Some(p) => decoder_meta(*d).global_palette == Some(p@) && p@.len() <= 768,
            None => decoder_meta(*d).global_palette is None,
        },
{
    match d.inner.global_palette() {
        Some(p) => Some(p.to_vec()),
        None => None,
    }
}

/// Relies on gif::Decoder::read_next_frame: yields the decoder's next
/// pending frame, or reports that none remain, or fails on a malformed
/// stream; the screen descriptor never changes, a healthy decoder never
/// fails and stays healthy, and any yielded frame-local palette is a color
/// table of the format, at most 256 three-byte entries. Allocation is taken
/// as infallible here, as the verifier's standard library model already
/// assumes.
#[verifier::external_body]
pub fn read_next_frame(d: &mut FrameDecoder) -> (r: Result<
    Option<GifFrame>,
    PipelineError,
>)
    ensures
        decoder_meta(*final(d)) == decoder_meta(*old(d)),
        decoder_healthy(*old(d)) ==> !(r is Err) && decoder_healthy(*final(d)),
        r matches Ok(Some(f)) ==> decoder_pending(*old(d)).len() > 0
            && f@ == decoder_pending(*old(d))[0]
            && decoder_pending(*final(d)) == decoder_pending(*old(d)).drop_first()
            && (match f@.palette {
                Some(p) => p.len() <= 768,
                None => true,
            }),
        r matches Ok(None) ==> decoder_pending(*old(d)).len() == 0
            && decoder_pending(*final(d)) == decoder_pending(*old(d)),
        r matches Err(e) ==> e == PipelineError::DecodeError,
{
    match d.inner.read_next_frame() {
        Err(_) => Err(PipelineError::DecodeError),
        Ok(None) => Ok(None),
        Ok(Some(f)) => Ok(Some(GifFrame {
            buffer: f.buffer.to_vec(), palette: f.palette.clone(),
            left: f.left, top: f.top, width: f.width, height: f.height,
            delay: f.delay, dispose: f.dispose, transparent: f.transparent,
            needs_user_input: f.needs_user_input, interlaced: f.interlaced,
        })),
    }
}

/// Relies on gif::Encoder::new and gif::Encoder::set_repeat: writes the
/// screen descriptor for the given dimensions with no global color table
/// and requests infinite looping, before any frame; no frames are written
/// yet. Looping is part of the opening so that the final byte stream is a
/// function of the screen descriptor and the written frames alone. Writing
/// goes to an in-memory buffer and cannot fail.
#[verifier::external_body]
pub fn open_encoder(width: u16, height: u16) -> (r: Result<FrameEncoder, PipelineError>)
    ensures
        r is Ok,
        r matches Ok(e) ==> encoder_frames(e) == Seq::<FrameView>::empty()
            && encoder_meta(e) == (EncoderMeta { width, height, repeat_infinite: true }),
{
    match gif::Encoder::new(Vec::new(), width, height, &[]) {
        Ok(mut e) => match e.set_repeat(gif::Repeat::Infinite) {
            Ok(()) => Ok(FrameEncoder { inner: e }),
            Err(_) => Err(PipelineError::EncodeError),
        },
        Err(_) => Err(PipelineError::EncodeError),
    }
}

/// Relies on gif::Encoder::write_frame: appends the frame, with all its
/// metadata, to the in-memory output stream. The buffer must hold exactly
/// one index per pixel of the frame's geometry, and the frame must carry a
/// color table of the format, at most 256 three-byte entries: the encoder
/// rejects or aborts on anything else. Under those bounds the write cannot
/// fail; allocation is taken as infallible here, as the verifier's standard
/// library model already assumes.
#[verifier::external_body]
pub fn write_frame(e: &mut FrameEncoder, f: &GifFrame) -> (r: Result<
    (),
    PipelineError,
>)
    requires
        f.buffer@.len() == (f.width as int) * (f.height as int),
        match f.palette {
            Some(p) => p@.len() <= 768,
            None => false,
        },
    ensures
        r is Ok,
        encoder_frames(*final(e)) == encoder_frames(*old(e)).push(f@),
        encoder_meta(*final(e)) == encoder_meta(*old(e)),
{
    let mut gf = gif::Frame::default();
    gf.delay = f.delay; gf.dispose = f.dispose; gf.transparent = f.transparent;
    gf.needs_user_input = f.needs_user_input; gf.top = f.top; gf.left = f.left;
    gf.width = f.width; gf.height = f.height; gf.interlaced = f.interlaced;
    gf.palette = f.palette.clone();
    gf.buffer = std::borrow::Cow::from(f.buffer.clone());
    match e.inner.write_frame(&gf) {
        Ok(()) => Ok(()),
        Err(_) => Err(PipelineError::EncodeError),
    }
}

/// Relies on gif::Encoder::into_inner: writes the trailer and hands back
/// the accumulated in-memory bytes, a function of the screen descriptor,
/// the looping request and the written frames; it cannot fail.
#[verifier::external_body]
pub fn finish_encoder(e: FrameEncoder) -> (r: Result<Vec<u8>, PipelineError>)
    ensures
        r is Ok,
        r matches Ok(out) ==> out@ == gif_encoding(encoder_meta(e), encoder_frames(e)),
{
    match e.inner.into_inner() {
        Ok(v) => Ok(v),
        Err(_) => Err(PipelineError::EncodeError),
    }
}

} // verus!
