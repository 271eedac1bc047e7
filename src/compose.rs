//! Compositing: the canvas is threaded through the frames in stream order, each
//! frame is drawn onto it, a copy is emitted, and the frame's disposal prepares
//! the canvas for the next one.

use vstd::prelude::*;
use vstd::arithmetic::div_mod::{lemma_fundamental_div_mod, lemma_fundamental_div_mod_converse};

use crate::frame::{Disposal, RawFrame};

verus! {

/// Column of the canvas pixel that holds byte `k`.
pub open spec fn col_of(k: int, w: int) -> int {
    (k / 4) % w
}

/// Row of the canvas pixel that holds byte `k`.
pub open spec fn row_of(k: int, w: int) -> int {
    (k / 4) / w
}

/// Byte `k` of canvas `c` (`w` pixels wide) once frame `f` has been drawn on it.
pub open spec fn drawn_byte(c: Seq<u8>, w: int, f: RawFrame, k: int) -> u8 {
    let x = col_of(k, w);
    let y = row_of(k, w);
    if f.paints(x, y) {
        f.buffer@[f.src_index(x, y, k % 4)]
    } else {
        c[k]
    }
}

/// Canvas `c` with frame `f` drawn on it: every pixel that the frame covers with
/// a non-zero alpha is replaced, every other byte is kept.
pub open spec fn draw(c: Seq<u8>, w: int, f: RawFrame) -> Seq<u8> {
    Seq::new(c.len(), |k: int| drawn_byte(c, w, f, k))
}

/// Canvas `c` with the rectangle of frame `f` cleared to fully transparent.
pub open spec fn clear_rect(c: Seq<u8>, w: int, f: RawFrame) -> Seq<u8> {
    Seq::new(c.len(), |k: int| if f.covers(col_of(k, w), row_of(k, w)) { 0u8 } else { c[k] })
}

/// The canvas handed to the frame after `f`, given the canvas `c` that `f` was drawn on.
pub open spec fn next_canvas(c: Seq<u8>, w: int, f: RawFrame) -> Seq<u8> {
    match f.dispose {
        Disposal::RestoreToBackground => clear_rect(draw(c, w, f), w, f),
        Disposal::RestoreToPrevious => c,
        _ => draw(c, w, f),
    }
}

/// A fully transparent black canvas of `w` by `h` pixels.
pub open spec fn blank_canvas(w: int, h: int) -> Seq<u8> {
    Seq::new((w * h * 4) as nat, |k: int| 0u8)
}

/// The canvas that frame `n` of `frames` is drawn on.
pub open spec fn canvas_before(frames: Seq<RawFrame>, w: int, h: int, n: nat) -> Seq<u8>
    decreases n,
{
    if n == 0 {
        blank_canvas(w, h)
    } else {
        next_canvas(canvas_before(frames, w, h, (n - 1) as nat), w, frames[n - 1])
    }
}

/// The visible image while frame `n` of `frames` is displayed.
pub open spec fn composited(frames: Seq<RawFrame>, w: int, h: int, n: nat) -> Seq<u8> {
    draw(canvas_before(frames, w, h, n), w, frames[n as int])
}

/// Every canvas in the fold, and every composited image, has the size of the canvas.
pub proof fn lemma_canvas_len(frames: Seq<RawFrame>, w: int, h: int, n: nat)
    requires
        w >= 0,
        h >= 0,
    ensures
        canvas_before(frames, w, h, n).len() == w * h * 4,
        n < frames.len() ==> composited(frames, w, h, n).len() == w * h * 4,
    decreases n,
{
    assert(w * h >= 0) by (nonlinear_arith)
        requires
            w >= 0,
            h >= 0,
    ;
    if n > 0 {
        lemma_canvas_len(frames, w, h, (n - 1) as nat);
    }
}

/// A frame that fills the whole canvas, decoded on its own, shows exactly its
/// own pixels where they are opaque and transparent black where they are not.
pub proof fn lemma_single_full_frame(frames: Seq<RawFrame>, w: int, h: int)
    requires
        frames.len() == 1,
        frames[0].wf(),
        frames[0].left == 0,
        frames[0].top == 0,
        frames[0].width == w,
        frames[0].height == h,
    ensures
        composited(frames, w, h, 0) == Seq::new(
            (w * h * 4) as nat,
            |k: int|
                if frames[0].buffer@[4 * (k / 4) + 3] != 0 {
                    frames[0].buffer@[k]
                } else {
                    0u8
                },
        ),
{
    let f = frames[0];
    lemma_canvas_len(frames, w, h, 0);
    let c = composited(frames, w, h, 0);
    let e = Seq::new(
        (w * h * 4) as nat,
        |k: int|
            if f.buffer@[4 * (k / 4) + 3] != 0 {
                f.buffer@[k]
            } else {
                0u8
            },
    );
    assert forall|k: int| 0 <= k < w * h * 4 implies c[k] == e[k] by {
        let p = k / 4;
        assert(w > 0) by (nonlinear_arith)
            requires
                0 <= k < w * h * 4,
                h >= 0,
        ;
        lemma_fundamental_div_mod(p, w);
        let x = p % w;
        let y = p / w;
        assert(0 <= x < w);
        assert(p == w * y + x);
        assert(0 <= y < h) by (nonlinear_arith)
            requires
                p == w * y + x,
                0 <= x < w,
                0 <= p,
                p < w * h,
        ;
        assert(f.src_index(x, y, k % 4) == k) by (nonlinear_arith)
            requires
                p == w * y + x,
                p == k / 4,
                f.left == 0,
                f.top == 0,
                f.width == w,
        ;
        assert(f.src_index(x, y, 3) == 4 * p + 3) by (nonlinear_arith)
            requires
                p == w * y + x,
                f.left == 0,
                f.top == 0,
                f.width == w,
        ;
        assert(f.covers(x, y));
    }
    assert(c =~= e);
}

/// Where a frame keeps its pixels (no disposal, or "do not dispose"), the next
/// frame's image is this frame's image with the next frame's opaque pixels
/// drawn over it; its transparent pixels keep this frame's values.
pub proof fn lemma_kept_frame_underlies_next(frames: Seq<RawFrame>, w: int, h: int, n: nat)
    requires
        n + 1 < frames.len(),
        frames[n as int].dispose == Disposal::Unspecified || frames[n as int].dispose
            == Disposal::DoNotDispose,
    ensures
        composited(frames, w, h, (n + 1) as nat) == draw(composited(frames, w, h, n), w, frames[n + 1 as int]),
        forall|k: int|
            0 <= k < composited(frames, w, h, n).len() ==> #[trigger] composited(frames, w, h, (n + 1) as nat)[k]
                == if frames[n + 1 as int].paints(col_of(k, w), row_of(k, w)) {
                frames[n + 1 as int].buffer@[frames[n + 1 as int].src_index(col_of(k, w), row_of(k, w), k % 4)]
            } else {
                composited(frames, w, h, n)[k]
            },
{
    assert(canvas_before(frames, w, h, (n + 1) as nat) == composited(frames, w, h, n));
}

/// After a frame that restores to background, the rectangle it covered is
/// fully transparent on the next frame's canvas, and stays so in the next
/// frame's image wherever that frame does not paint.
pub proof fn lemma_background_clears_rect(frames: Seq<RawFrame>, w: int, h: int, n: nat)
    requires
        n + 1 < frames.len(),
        frames[n as int].dispose == Disposal::RestoreToBackground,
    ensures
        forall|k: int|
            0 <= k < canvas_before(frames, w, h, (n + 1) as nat).len() && frames[n as int].covers(
                col_of(k, w),
                row_of(k, w),
            ) ==> #[trigger] canvas_before(frames, w, h, (n + 1) as nat)[k] == 0,
        forall|k: int|
            0 <= k < canvas_before(frames, w, h, (n + 1) as nat).len() && frames[n as int].covers(
                col_of(k, w),
                row_of(k, w),
            ) && !frames[n + 1 as int].paints(col_of(k, w), row_of(k, w)) ==> #[trigger] composited(
                frames,
                w,
                h,
                (n + 1) as nat,
            )[k] == 0,
{
}

/// After a frame that restores to previous, the next frame's canvas is exactly
/// the canvas that the restoring frame was drawn on, and the next frame's image
/// keeps it wherever that frame does not paint.
pub proof fn lemma_previous_restores_canvas(frames: Seq<RawFrame>, w: int, h: int, n: nat)
    requires
        n + 1 < frames.len(),
        frames[n as int].dispose == Disposal::RestoreToPrevious,
    ensures
        canvas_before(frames, w, h, (n + 1) as nat) == canvas_before(frames, w, h, n),
        forall|k: int|
            0 <= k < canvas_before(frames, w, h, n).len() && !frames[n + 1 as int].paints(
                col_of(k, w),
                row_of(k, w),
            ) ==> #[trigger] composited(frames, w, h, (n + 1) as nat)[k] == canvas_before(frames, w, h, n)[k],
{
}

proof fn lemma_pixel_coords(p: int, w: int, x: int, y: int)
    requires
        w > 0,
        0 <= x < w,
        p == y * w + x,
    ensures
        forall|k: int| 4 * p <= k < 4 * p + 4 ==> col_of(k, w) == x && row_of(k, w) == y && k % 4
            == k - 4 * p,
{
    lemma_fundamental_div_mod_converse(p, w, y, x);
    assert forall|k: int| 4 * p <= k < 4 * p + 4 implies col_of(k, w) == x && row_of(k, w) == y
        && k % 4 == k - 4 * p by {
        assert(k / 4 == p);
    }
}

proof fn lemma_src_in_bounds(a: int, b: int, fw: int, fh: int)
    requires
        0 <= a < fh,
        0 <= b < fw,
    ensures
        0 <= a * fw <= a * fw + b,
        (a * fw + b) * 4 + 3 < fw * fh * 4,
{
    assert(0 <= a * fw <= a * fw + b && (a * fw + b) * 4 + 3 < fw * fh * 4) by (nonlinear_arith)
        requires
            0 <= a < fh,
            0 <= b < fw,
    ;
}

/// Draws `f` onto `canvas`, a `width` by `height` RGBA canvas. Pixels of the
/// frame with zero alpha, and pixels that fall outside the canvas, are skipped.
pub fn draw_frame(canvas: &mut Vec<u8>, width: u16, height: u16, f: &RawFrame)
    requires
        old(canvas)@.len() == width as int * height as int * 4,
        f.wf(),
    ensures
        final(canvas)@ == draw(old(canvas)@, width as int, *f),
{
    let ghost c0 = canvas@;
    if width == 0 || height == 0 {
        assert(canvas@ =~= draw(c0, width as int, *f));
        return;
    }
    let w: usize = width as usize;
    let n: usize = canvas.len() / 4;
    let left: usize = f.left as usize;
    let top: usize = f.top as usize;
    let fw: usize = f.width as usize;
    let fh: usize = f.height as usize;
    let blen: usize = f.buffer.len();
    let mut p: usize = 0;
    let mut x: usize = 0;
    let mut y: usize = 0;
    while p < n
        invariant
            w == width as usize,
            n == width as int * height as int,
            left == f.left as usize,
            top == f.top as usize,
            fw == f.width as usize,
            fh == f.height as usize,
            blen == f.buffer@.len(),
            f.wf(),
            canvas@.len() == n * 4,
            n * 4 <= usize::MAX,
            c0.len() == n * 4,
            p <= n,
            x < w,
            y <= p,
            p == y * w + x,
            forall|k: int| 0 <= k < 4 * p ==> canvas@[k] == drawn_byte(c0, w as int, *f, k),
            forall|k: int| 4 * p <= k < 4 * n ==> canvas@[k] == c0[k],
        decreases n - p,
    {
        proof {
            lemma_pixel_coords(p as int, w as int, x as int, y as int);
        }
        let ghost before = canvas@;
        if x >= left && x < left + fw && y >= top && y < top + fh {
            proof {
                lemma_src_in_bounds((y - top) as int, (x - left) as int, fw as int, fh as int);
            }
            let s: usize = ((y - top) * fw + (x - left)) * 4;
            assert(s as int == f.src_index(x as int, y as int, 0));
            if f.buffer[s + 3] != 0 {
                canvas.set(4 * p, f.buffer[s]);
                canvas.set(4 * p + 1, f.buffer[s + 1]);
                canvas.set(4 * p + 2, f.buffer[s + 2]);
                canvas.set(4 * p + 3, f.buffer[s + 3]);
            }
        }
        assert forall|k: int| 4 * p <= k < 4 * p + 4 implies canvas@[k] == drawn_byte(
            c0,
            w as int,
            *f,
            k,
        ) by {
            assert(before[k] == c0[k]);
        }
        p = p + 1;
        x = x + 1;
        if x == w {
            proof {
                assert((y + 1) * w == y * w + w) by (nonlinear_arith);
            }
            x = 0;
            y = y + 1;
        }
    }
    assert(canvas@ =~= draw(c0, width as int, *f));
}

/// Clears the part of `canvas` that the rectangle of `f` covers to fully transparent.
pub fn clear_frame_rect(canvas: &mut Vec<u8>, width: u16, height: u16, f: &RawFrame)
    requires
        old(canvas)@.len() == width as int * height as int * 4,
        f.wf(),
    ensures
        final(canvas)@ == clear_rect(old(canvas)@, width as int, *f),
{
    let ghost c0 = canvas@;
    if width == 0 || height == 0 {
        assert(canvas@ =~= clear_rect(c0, width as int, *f));
        return;
    }
    let w: usize = width as usize;
    let n: usize = canvas.len() / 4;
    let left: usize = f.left as usize;
    let top: usize = f.top as usize;
    let fw: usize = f.width as usize;
    let fh: usize = f.height as usize;
    let mut p: usize = 0;
    let mut x: usize = 0;
    let mut y: usize = 0;
    while p < n
        invariant
            w == width as usize,
            n == width as int * height as int,
            left == f.left as usize,
            top == f.top as usize,
            fw == f.width as usize,
            fh == f.height as usize,
            f.wf(),
            canvas@.len() == n * 4,
            n * 4 <= usize::MAX,
            c0.len() == n * 4,
            p <= n,
            x < w,
            y <= p,
            p == y * w + x,
            forall|k: int| 0 <= k < 4 * p ==> canvas@[k] == clear_rect(c0, w as int, *f)[k],
            forall|k: int| 4 * p <= k < 4 * n ==> canvas@[k] == c0[k],
        decreases n - p,
    {
        proof {
            lemma_pixel_coords(p as int, w as int, x as int, y as int);
        }
        let ghost before = canvas@;
        if x >= left && x < left + fw && y >= top && y < top + fh {
            canvas.set(4 * p, 0);
            canvas.set(4 * p + 1, 0);
            canvas.set(4 * p + 2, 0);
            canvas.set(4 * p + 3, 0);
        }
        assert forall|k: int| 4 * p <= k < 4 * p + 4 implies canvas@[k] == clear_rect(c0, w as int, *f)[k] by {
            assert(before[k] == c0[k]);
        }
        p = p + 1;
        x = x + 1;
        if x == w {
            proof {
                assert((y + 1) * w == y * w + w) by (nonlinear_arith);
            }
            x = 0;
            y = y + 1;
        }
    }
    assert(canvas@ =~= clear_rect(c0, width as int, *f));
}

} // verus!
