//! From a GIF byte stream to an `AnimatedGif`: the stream is read frame by frame
//! with the `gif` crate, and the frames are composited here.

use vstd::prelude::*;

use crate::compose::{canvas_before, clear_frame_rect, composited, draw_frame, lemma_canvas_len};
use crate::frame::{Disposal, RawFrame};

verus! {

/// A `gif::Decoder` reading from a byte slice. Verus cannot take the decoder's
/// own declaration, whose reader parameter is bound by `std::io::Read`, so it is
/// held here out of Verus's sight and reached only through the wrappers below.
#[verifier::external_body]
pub struct GifStream<'a> {
    decoder: gif::Decoder<&'a [u8]>,
}

/// A decoder together with the bytes it reads and the number of frames it has
/// been asked for so far. Only `open_gif` makes one.
pub struct GifReader<'a> {
    stream: GifStream<'a>,
    source: Ghost<Seq<u8>>,
    pos: Ghost<nat>,
}

#[verifier::external_type_specification]
#[verifier::external_body]
pub struct ExGifDecodingError(gif::DecodingError);

#[verifier::external_type_specification]
#[verifier::external_body]
pub struct ExGifDisposalMethod(gif::DisposalMethod);

/// Canvas width and height that the `gif` crate reads from the header of
/// `bytes`, or `None` where it refuses the header.
pub uninterp spec fn gif_screen(bytes: Seq<u8>) -> Option<(u16, u16)>;

/// What the `gif` crate hands back on the request, numbered `index` from 0, for
/// a frame of `bytes`: `Some(Some(f))` a frame, `Some(None)` the end of the
/// stream, `None` a decoding error.
pub uninterp spec fn gif_frame_at(bytes: Seq<u8>, index: nat) -> Option<Option<RawFrame>>;

/// The little-endian 16-bit number at `at` in `b`.
pub open spec fn le_u16(b: Seq<u8>, at: int) -> int {
    b[at] + 256 * b[at + 1]
}

/// Relies on gif::DecodeOptions::read_info, set to RGBA output: reads the
/// stream's header, which starts with the six-byte signature and then gives
/// the canvas width and height as little-endian numbers at bytes 6 and 8, and
/// hands back a decoder positioned before the first frame.
#[verifier::external_body]
fn open_gif<'a>(bytes: &'a [u8]) -> (r: Result<GifReader<'a>, gif::DecodingError>)
    ensures
        r is Ok <==> gif_screen(bytes@) is Some,
        r is Ok ==> bytes@.len() >= 13 && gif_screen(bytes@)->Some_0.0
            == le_u16(bytes@, 6) && gif_screen(bytes@)->Some_0.1 == le_u16(bytes@, 8),
        r is Ok ==> r->Ok_0.source@ == bytes@ && r->Ok_0.pos@ == 0,
{
    let mut options = gif::DecodeOptions::new();
    options.set_color_output(gif::ColorOutput::RGBA);
    let decoder = options.read_info(bytes)?;
    Ok(GifReader { stream: GifStream { decoder }, source: Ghost(bytes@), pos: Ghost(0) })
}

/// Relies on gif::Decoder::width: the canvas width that the stream's header declares.
#[verifier::external_body]
fn screen_width(d: &GifReader) -> (r: u16)
    ensures
        gif_screen(d.source@) is Some ==> r == gif_screen(d.source@)->Some_0.0,
{
    d.stream.decoder.width()
}

/// Relies on gif::Decoder::height: the canvas height that the stream's header declares.
#[verifier::external_body]
fn screen_height(d: &GifReader) -> (r: u16)
    ensures
        gif_screen(d.source@) is Some ==> r == gif_screen(d.source@)->Some_0.1,
{
    d.stream.decoder.height()
}

/// Relies on the variants of gif::DisposalMethod, each taken to the one of the same meaning.
#[verifier::external_body]
fn disposal_of(m: gif::DisposalMethod) -> (r: Disposal) {
    match m {
        gif::DisposalMethod::Any => Disposal::Unspecified,
        gif::DisposalMethod::Keep => Disposal::DoNotDispose,
        gif::DisposalMethod::Background => Disposal::RestoreToBackground,
        gif::DisposalMethod::Previous => Disposal::RestoreToPrevious,
    }
}

/// Relies on gif::Decoder::read_next_frame: the next frame of the stream with
/// its RGBA pixels, `None` once the stream has ended, or the decoding error.
#[verifier::external_body]
fn read_frame(d: &mut GifReader) -> (r: Result<Option<RawFrame>, gif::DecodingError>)
    ensures
        final(d).source == old(d).source,
        final(d).pos@ == old(d).pos@ + 1,
        r is Ok <==> gif_frame_at(old(d).source@, old(d).pos@) is Some,
        r is Ok ==> gif_frame_at(old(d).source@, old(d).pos@) == Some(r->Ok_0),
{
    d.pos = Ghost(d.pos@ + 1);
    match d.stream.decoder.read_next_frame() {
        Ok(Some(f)) => Ok(Some(RawFrame {
            left: f.left,
            top: f.top,
            width: f.width,
            height: f.height,
            dispose: disposal_of(f.dispose),
            delay: f.delay,
            buffer: f.buffer.to_vec(),
        })),
        Ok(None) => Ok(None),
        Err(e) => Err(e),
    }
}

/// The first `n` frames that the `gif` crate reads from `bytes`.
pub open spec fn stream_frames(bytes: Seq<u8>, n: nat) -> Seq<RawFrame> {
    Seq::new(n, |i: int| gif_frame_at(bytes, i as nat)->Some_0->Some_0)
}

/// The first `n` requests on `bytes` each give a frame.
pub open spec fn frames_read(bytes: Seq<u8>, n: nat) -> bool {
    forall|i: nat| i < n ==> #[trigger] gif_frame_at(bytes, i) matches Some(Some(_))
}

/// The stream `bytes` holds exactly `n` frames and then ends cleanly.
pub open spec fn stream_ends_at(bytes: Seq<u8>, n: nat) -> bool {
    frames_read(bytes, n) && gif_frame_at(bytes, n) == Some(None::<RawFrame>)
}

/// After `n` frames, reading `bytes` fails.
pub open spec fn stream_fails_at(bytes: Seq<u8>, n: nat) -> bool {
    frames_read(bytes, n) && gif_frame_at(bytes, n) is None
}

/// A canvas of this size can be addressed in memory.
pub open spec fn canvas_fits(w: u16, h: u16) -> bool {
    w as int * h as int * 4 <= usize::MAX
}

/// The header of `bytes` is read and gives a canvas that fits in memory.
pub open spec fn decode_fits(bytes: Seq<u8>) -> bool {
    gif_screen(bytes) is Some && canvas_fits(gif_screen(bytes)->Some_0.0, gif_screen(bytes)->Some_0.1)
}

/// One of the first `n` frames of `bytes` has a pixel buffer that does not fill its rectangle.
pub open spec fn has_bad_frame(bytes: Seq<u8>, n: nat) -> bool {
    exists|i: int| 0 <= i < n && !(#[trigger] stream_frames(bytes, n)[i]).wf()
}

/// `bytes` decodes: the header is read, the canvas fits in memory, and the
/// stream ends cleanly after `n` frames, where `0 < n <= bytes.len()`, each
/// with a pixel buffer that fills its rectangle.
pub open spec fn gif_decodable(bytes: Seq<u8>) -> bool {
    &&& gif_screen(bytes) is Some
    &&& canvas_fits(gif_screen(bytes)->Some_0.0, gif_screen(bytes)->Some_0.1)
    &&& exists|n: nat|
        0 < n <= bytes.len() && #[trigger] stream_ends_at(bytes, n) && forall|i: int|
            0 <= i < n ==> (#[trigger] stream_frames(bytes, n)[i]).wf()
}

/// `g` is what compositing the frames of `bytes` on the canvas of its header gives.
pub open spec fn gif_decodes_to(bytes: Seq<u8>, g: AnimatedGif) -> bool {
    &&& gif_screen(bytes) == Some((g.width, g.height))
    &&& exists|n: nat|
        #[trigger] stream_ends_at(bytes, n) && g.composes(g.width, g.height, stream_frames(bytes, n))
}

/// A stream ends after one number of frames at most.
pub proof fn lemma_stream_end_unique(bytes: Seq<u8>, n: nat, m: nat)
    requires
        stream_ends_at(bytes, n),
        stream_ends_at(bytes, m),
    ensures
        n == m,
{
    if n < m {
        assert(gif_frame_at(bytes, n) matches Some(Some(_)));
    } else if m < n {
        assert(gif_frame_at(bytes, m) matches Some(Some(_)));
    }
}

/// Display time, in milliseconds, given to a frame that declares a delay of zero.
pub const MIN_FRAME_DELAY_MS: u64 = 10;

/// Display time in milliseconds of a frame that declares `delay` hundredths of a second.
pub open spec fn delay_ms(delay: u16) -> u64 {
    if delay == 0 {
        MIN_FRAME_DELAY_MS
    } else {
        (delay * 10) as u64
    }
}

/// Why a stream could not be turned into an animation.
#[derive(Clone, Copy, Debug, PartialEq, Eq, Structural)]
pub enum DecodeError {
    /// The stream is not a GIF, or is cut short or corrupt.
    Malformed,
    /// The stream holds no frame.
    NoFrames,
    /// A frame's pixel buffer does not match its rectangle.
    BadFrameBuffer,
}

/// A decoded animation: one canvas-sized RGBA buffer and one display time per frame.
#[derive(Clone, Debug)]
pub struct AnimatedGif {
    pub width: u16,
    pub height: u16,
    pub frames: Vec<Vec<u8>>,
    /// Display time of each frame, in milliseconds.
    pub delays: Vec<u64>,
}

impl AnimatedGif {
    /// At least one frame, one delay per frame, every frame the size of the
    /// canvas, and no frame shown for zero time.
    pub open spec fn wf(&self) -> bool {
        &&& self.frames@.len() >= 1
        &&& self.delays@.len() == self.frames@.len()
        &&& forall|i: int|
            0 <= i < self.frames@.len() ==> #[trigger] self.frames@[i]@.len() == self.width as int
                * self.height as int * 4
        &&& forall|i: int| 0 <= i < self.delays@.len() ==> #[trigger] self.delays@[i] > 0
    }

    /// This is the animation that compositing `raws` on a `width` by `height` canvas gives.
    pub open spec fn composes(&self, width: u16, height: u16, raws: Seq<RawFrame>) -> bool {
        &&& self.width == width
        &&& self.height == height
        &&& self.frames@.len() == raws.len()
        &&& self.delays@.len() == raws.len()
        &&& forall|i: int|
            0 <= i < raws.len() ==> #[trigger] self.frames@[i]@ == composited(
                raws,
                width as int,
                height as int,
                i as nat,
            )
        &&& forall|i: int| 0 <= i < raws.len() ==> #[trigger] self.delays@[i] == delay_ms(raws[i].delay)
    }
}

/// Display time in milliseconds of a frame that declares `delay` hundredths of a second.
pub fn frame_delay_ms(delay: u16) -> (r: u64)
    ensures
        r == delay_ms(delay),
        r > 0,
{
    if delay == 0 {
        MIN_FRAME_DELAY_MS
    } else {
        delay as u64 * 10
    }
}

fn blank(len: usize) -> (r: Vec<u8>)
    ensures
        r@.len() == len,
        forall|k: int| 0 <= k < len ==> r@[k] == 0,
{
    let mut v: Vec<u8> = Vec::new();
    let mut i: usize = 0;
    while i < len
        invariant
            i <= len,
            v@.len() == i,
            forall|k: int| 0 <= k < i ==> v@[k] == 0,
        decreases len - i,
    {
        v.push(0);
        i = i + 1;
    }
    v
}

fn copy_bytes(src: &Vec<u8>) -> (r: Vec<u8>)
    ensures
        r@ == src@,
{
    let mut v: Vec<u8> = Vec::new();
    let mut i: usize = 0;
    while i < src.len()
        invariant
            i <= src@.len(),
            v@ == src@.subrange(0, i as int),
        decreases src@.len() - i,
    {
        v.push(src[i]);
        i = i + 1;
        assert(v@ =~= src@.subrange(0, i as int));
    }
    assert(v@ =~= src@);
    v
}

/// Composites `raws`, in order, on a `width` by `height` canvas that starts
/// fully transparent: each frame is drawn, the canvas is copied out as that
/// frame's image, and the frame's disposal prepares the canvas for the next.
pub fn composite_frames(width: u16, height: u16, raws: &Vec<RawFrame>) -> (r: Result<
    AnimatedGif,
    DecodeError,
>)
    requires
        width as int * height as int * 4 <= usize::MAX,
    ensures
        raws@.len() == 0 <==> r == Err::<AnimatedGif, DecodeError>(DecodeError::NoFrames),
        r == Err::<AnimatedGif, DecodeError>(DecodeError::BadFrameBuffer) <==> (raws@.len() > 0
            && exists|i: int| 0 <= i < raws@.len() && !(#[trigger] raws@[i]).wf()),
        r != Err::<AnimatedGif, DecodeError>(DecodeError::Malformed),
        r is Ok ==> r->Ok_0.wf() && r->Ok_0.composes(width, height, raws@),
{
    if raws.len() == 0 {
        return Err(DecodeError::NoFrames);
    }
    let w: u64 = width as u64;
    let h: u64 = height as u64;
    assert(w * h <= 0xffff * 0xffff) by (nonlinear_arith)
        requires
            w <= 0xffff,
            h <= 0xffff,
    ;
    let mut canvas = blank((w * h * 4) as usize);
    assert(canvas@ =~= canvas_before(raws@, width as int, height as int, 0));
    let mut frames: Vec<Vec<u8>> = Vec::new();
    let mut delays: Vec<u64> = Vec::new();
    let mut i: usize = 0;
    while i < raws.len()
        invariant
            0 < raws@.len(),
            i <= raws@.len(),
            canvas@ == canvas_before(raws@, width as int, height as int, i as nat),
            canvas@.len() == width as int * height as int * 4,
            frames@.len() == i,
            delays@.len() == i,
            forall|j: int| 0 <= j < i ==> (#[trigger] raws@[j]).wf(),
            forall|j: int|
                0 <= j < i ==> #[trigger] frames@[j]@ == composited(
                    raws@,
                    width as int,
                    height as int,
                    j as nat,
                ),
            forall|j: int| 0 <= j < i ==> #[trigger] delays@[j] == delay_ms(raws@[j].delay),
            forall|j: int| 0 <= j < i ==> #[trigger] delays@[j] > 0,
        decreases raws@.len() - i,
    {
        let f = &raws[i];
        if !f.is_well_formed() {
            return Err(DecodeError::BadFrameBuffer);
        }
        let ghost before = canvas@;
        let saved = if f.dispose == Disposal::RestoreToPrevious {
            Some(copy_bytes(&canvas))
        } else {
            None
        };
        draw_frame(&mut canvas, width, height, f);
        frames.push(copy_bytes(&canvas));
        delays.push(frame_delay_ms(f.delay));
        match saved {
            Some(prev) => {
                canvas = prev;
            },
            None => {
                if f.dispose == Disposal::RestoreToBackground {
                    clear_frame_rect(&mut canvas, width, height, f);
                }
            },
        }
        assert(canvas@ == canvas_before(raws@, width as int, height as int, (i + 1) as nat));
        i = i + 1;
    }
    let g = AnimatedGif { width, height, frames, delays };
    assert forall|j: int| 0 <= j < g.frames@.len() implies #[trigger] g.frames@[j]@.len()
        == width as int * height as int * 4 by {
        assert(g.frames@[j]@ == composited(raws@, width as int, height as int, j as nat));
        lemma_canvas_len(raws@, width as int, height as int, j as nat);
    }
    Ok(g)
}

/// Decodes a GIF stream into its composited frames.
///
/// Fails with `Malformed` where the `gif` crate refuses the header or a later
/// block, or the canvas is too large to address; with `NoFrames` where the
/// stream ends before a first frame; and with `BadFrameBuffer` where a frame's
/// pixels do not fill its rectangle. A stream of `n` bytes holds fewer than `n`
/// frames, so reading stops with `Malformed` after `n` of them.
pub fn decode_gif(bytes: &[u8]) -> (r: Result<AnimatedGif, DecodeError>)
    ensures
        r is Ok <==> gif_decodable(bytes@),
        r is Ok ==> r->Ok_0.wf() && gif_decodes_to(bytes@, r->Ok_0),
        r is Ok ==> bytes@.len() >= 13 && r->Ok_0.width == le_u16(bytes@, 6) && r->Ok_0.height
            == le_u16(bytes@, 8),
        gif_screen(bytes@) is None ==> r == Err::<AnimatedGif, DecodeError>(DecodeError::Malformed),
        gif_screen(bytes@) is Some && !canvas_fits(
            gif_screen(bytes@)->Some_0.0,
            gif_screen(bytes@)->Some_0.1,
        ) ==> r == Err::<AnimatedGif, DecodeError>(DecodeError::Malformed),
        decode_fits(bytes@) && stream_ends_at(bytes@, 0) ==> r == Err::<AnimatedGif, DecodeError>(
            DecodeError::NoFrames,
        ),
        forall|n: nat|
            decode_fits(bytes@) && n <= bytes@.len() && #[trigger] stream_fails_at(bytes@, n) ==> r
                == Err::<AnimatedGif, DecodeError>(DecodeError::Malformed),
        forall|n: nat|
            decode_fits(bytes@) && 0 < n <= bytes@.len() && #[trigger] stream_ends_at(bytes@, n)
                && has_bad_frame(bytes@, n) ==> r == Err::<AnimatedGif, DecodeError>(
                DecodeError::BadFrameBuffer,
            ),
{
    let mut d = match open_gif(bytes) {
        Ok(d) => d,
        Err(_) => {
            return Err(DecodeError::Malformed);
        },
    };
    let width = screen_width(&d);
    let height = screen_height(&d);
    let w: u64 = width as u64;
    let h: u64 = height as u64;
    assert(w * h <= 0xffff * 0xffff) by (nonlinear_arith)
        requires
            w <= 0xffff,
            h <= 0xffff,
    ;
    if w * h * 4 > usize::MAX as u64 {
        return Err(DecodeError::Malformed);
    }
    let ghost b = bytes@;
    let mut raws: Vec<RawFrame> = Vec::new();
    while raws.len() <= bytes.len()
        invariant
            canvas_fits(width, height),
            gif_screen(b) == Some((width, height)),
            b.len() >= 13,
            width == le_u16(b, 6),
            height == le_u16(b, 8),
            d.source@ == b,
            d.pos@ == raws@.len(),
            b == bytes@,
            frames_read(b, raws@.len() as nat),
            raws@ == stream_frames(b, raws@.len() as nat),
        decreases bytes@.len() + 1 - raws@.len(),
    {
        let ghost k = raws@.len() as nat;
        match read_frame(&mut d) {
            Ok(Some(f)) => {
                raws.push(f);
                assert(frames_read(b, (k + 1) as nat)) by {
                    assert forall|i: nat| i < k + 1 implies #[trigger] gif_frame_at(b, i) matches Some(
                        Some(_),
                    ) by {
                        if i < k {
                        }
                    }
                }
                assert(raws@ =~= stream_frames(b, (k + 1) as nat));
            },
            Ok(None) => {
                assert(stream_ends_at(b, k));
                let r = composite_frames(width, height, &raws);
                proof {
                    lemma_decode_outcome(b, k, r);
                    assert forall|n: nat|
                        0 < n <= b.len() && #[trigger] stream_ends_at(b, n) && has_bad_frame(b, n)
                        implies r == Err::<AnimatedGif, DecodeError>(DecodeError::BadFrameBuffer) by {
                        assert(n == k);
                    }
                }
                return r;
            },
            Err(_) => {
                assert(stream_fails_at(b, k));
                proof {
                    lemma_fails_not_decodable(b, k);
                }
                return Err(DecodeError::Malformed);
            },
        }
    }
    proof {
        let k = raws@.len() as nat;
        assert forall|n: nat| n <= b.len() implies !stream_ends_at(b, n) && !stream_fails_at(b, n) by {
            assert(gif_frame_at(b, n) matches Some(Some(_)));
        }
        assert(!stream_ends_at(b, 0));
        assert(!gif_decodable(b));
    }
    Err(DecodeError::Malformed)
}

proof fn lemma_fails_not_decodable(b: Seq<u8>, k: nat)
    requires
        stream_fails_at(b, k),
    ensures
        forall|n: nat| !#[trigger] stream_ends_at(b, n),
        forall|n: nat| #[trigger] stream_fails_at(b, n) ==> n == k,
{
    assert forall|n: nat| !#[trigger] stream_ends_at(b, n) by {
        if stream_ends_at(b, n) {
            if n < k {
                assert(gif_frame_at(b, n) matches Some(Some(_)));
            } else if k < n {
                assert(gif_frame_at(b, k) matches Some(Some(_)));
            }
        }
    }
    assert forall|n: nat| #[trigger] stream_fails_at(b, n) implies n == k by {
        if n < k {
            assert(gif_frame_at(b, n) matches Some(Some(_)));
        } else if k < n {
            assert(gif_frame_at(b, k) matches Some(Some(_)));
        }
    }
}

proof fn lemma_decode_outcome(b: Seq<u8>, k: nat, r: Result<AnimatedGif, DecodeError>)
    requires
        stream_ends_at(b, k),
        k <= b.len(),
        gif_screen(b) is Some,
        canvas_fits(gif_screen(b)->Some_0.0, gif_screen(b)->Some_0.1),
        k == 0 <==> r == Err::<AnimatedGif, DecodeError>(DecodeError::NoFrames),
        r == Err::<AnimatedGif, DecodeError>(DecodeError::BadFrameBuffer) <==> (k > 0 && exists|i: int|
            0 <= i < k && !(#[trigger] stream_frames(b, k)[i]).wf()),
        r != Err::<AnimatedGif, DecodeError>(DecodeError::Malformed),
        r is Ok ==> r->Ok_0.wf() && r->Ok_0.composes(
            gif_screen(b)->Some_0.0,
            gif_screen(b)->Some_0.1,
            stream_frames(b, k),
        ),
    ensures
        r is Ok <==> gif_decodable(b),
        r is Ok ==> gif_decodes_to(b, r->Ok_0),
        forall|n: nat| #[trigger] stream_ends_at(b, n) ==> n == k,
        forall|n: nat| !#[trigger] stream_fails_at(b, n),
{
    assert forall|n: nat| #[trigger] stream_ends_at(b, n) implies n == k by {
        lemma_stream_end_unique(b, n, k);
    }
    assert forall|n: nat| !#[trigger] stream_fails_at(b, n) by {
        if stream_fails_at(b, n) {
            if n < k {
                assert(gif_frame_at(b, n) matches Some(Some(_)));
            } else if k < n {
                assert(gif_frame_at(b, k) matches Some(Some(_)));
            }
        }
    }
    if r is Ok {
        assert(stream_ends_at(b, k));
        assert(r->Ok_0.composes(r->Ok_0.width, r->Ok_0.height, stream_frames(b, k)));
        assert forall|i: int| 0 <= i < k implies (#[trigger] stream_frames(b, k)[i]).wf() by {
            if !stream_frames(b, k)[i].wf() {
                assert(r == Err::<AnimatedGif, DecodeError>(DecodeError::BadFrameBuffer));
            }
        }
        assert(0 < k <= b.len() && stream_ends_at(b, k));
        assert(gif_decodable(b));
    }
    if gif_decodable(b) {
        let n = choose|n: nat|
            0 < n <= b.len() && #[trigger] stream_ends_at(b, n) && forall|i: int|
                0 <= i < n ==> (#[trigger] stream_frames(b, n)[i]).wf();
        lemma_stream_end_unique(b, n, k);
        assert(!exists|i: int| 0 <= i < k && !(#[trigger] stream_frames(b, k)[i]).wf());
        assert(r != Err::<AnimatedGif, DecodeError>(DecodeError::NoFrames));
        assert(r != Err::<AnimatedGif, DecodeError>(DecodeError::BadFrameBuffer));
        if r is Err {
            assert(r == Err::<AnimatedGif, DecodeError>(r->Err_0));
        }
    }
}

/// Reads only the header of a GIF stream and gives its canvas width and height.
pub fn get_gif_dimensions(bytes: &[u8]) -> (r: Result<(u16, u16), DecodeError>)
    ensures
        r == match gif_screen(bytes@) {
            Some(d) => Ok::<(u16, u16), DecodeError>(d),
            None => Err(DecodeError::Malformed),
        },
        r is Ok ==> bytes@.len() >= 13 && r->Ok_0.0 == le_u16(bytes@, 6) && r->Ok_0.1 == le_u16(
            bytes@,
            8,
        ),
{
    match open_gif(bytes) {
        Ok(d) => Ok((screen_width(&d), screen_height(&d))),
        Err(_) => Err(DecodeError::Malformed),
    }
}

} // verus!
