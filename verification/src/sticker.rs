//! Animated stickers: APNG detection, frame compositing onto an RGBA canvas,
//! frame timing, and the decode loop over the `png` crate's reader.
//!
//! A canvas is `width * height` pixels of four bytes (R, G, B, A), row by row.

use vstd::prelude::*;
use vstd::arithmetic::div_mod::lemma_fundamental_div_mod_converse;

verus! {

/// One decoded frame: RGBA bytes, its size, and how long it stays on screen.
#[derive(Clone, Debug)]
pub struct RawFrame {
    pub rgba: Vec<u8>,
    pub width: i32,
    pub height: i32,
    pub delay_ms: u32,
}

/// The frames of an image and how often they play; `plays == 0` loops forever.
#[derive(Clone, Debug)]
pub struct AnimFrames {
    pub frames: Vec<RawFrame>,
    pub plays: u32,
}

// ---------------------------------------------------------------------------
// Alpha blending
// ---------------------------------------------------------------------------

/// Alpha of a pixel of alpha `sa` drawn over one of alpha `da`, rounded.
pub open spec fn over_alpha(da: int, sa: int) -> int {
    sa + (da * (255 - sa) + 127) / 255
}

/// One colour channel of `sc` (alpha `sa`) drawn over `dc` (alpha `da`).
pub open spec fn over_color(dc: int, da: int, sc: int, sa: int) -> u8 {
    ((sc * sa + dc * da * (255 - sa) / 255 + 127) / over_alpha(da, sa)) as u8
}

/// Channel `c` of the source pixel `src` drawn over the pixel `dst`: a fully
/// transparent source leaves `dst`, an opaque one replaces it.
pub open spec fn over_byte(dst: Seq<u8>, src: Seq<u8>, c: int) -> u8 {
    let sa = src[3] as int;
    let da = dst[3] as int;
    if sa == 0 {
        dst[c]
    } else if sa == 255 {
        src[c]
    } else if c == 3 {
        over_alpha(da, sa) as u8
    } else {
        over_color(dst[c] as int, da, src[c] as int, sa)
    }
}

proof fn lemma_over_bounds(da: int, sa: int)
    requires
        0 <= da <= 255,
        1 <= sa <= 254,
    ensures
        1 <= over_alpha(da, sa) <= 255,
        0 <= da * (255 - sa) <= 255 * 254,
{
    assert(0 <= da * (255 - sa) <= 255 * 254) by (nonlinear_arith)
        requires
            0 <= da <= 255,
            1 <= sa <= 254,
    ;
    assert((da * (255 - sa) + 127) / 255 <= 255 - sa) by (nonlinear_arith)
        requires
            0 <= da <= 255,
            1 <= sa <= 254,
    ;
}

/// Drawing a pixel with alpha `sa` (at least half opaque, not fully) over a
/// fully transparent pixel keeps its colour and its alpha: the colour is
/// weighted by the alpha of the result, not darkened.
pub proof fn lemma_over_transparent_keeps_colour(dc: int, sc: int, sa: int)
    requires
        0 <= dc <= 255,
        0 <= sc <= 255,
        128 <= sa <= 254,
    ensures
        over_alpha(0, sa) == sa,
        over_color(dc, 0, sc, sa) == sc,
{
    assert(0 * (255 - sa) == 0);
    assert(over_alpha(0, sa) == sa);
    assert(dc * 0 * (255 - sa) == 0) by (nonlinear_arith);
    assert((sc * sa + 127) / sa == sc) by (nonlinear_arith)
        requires
            0 <= sc <= 255,
            128 <= sa <= 254,
    ;
    assert(dc * 0 * (255 - sa) / 255 == 0);
}

/// Alpha-over blending is a weighted average: the result's channel times the
/// result's alpha is the source channel weighted by the source alpha plus the
/// destination channel weighted by what the destination shows through,
/// rounded to the nearest step of the result's alpha (when the quotient fits
/// a byte).
pub proof fn lemma_over_is_weighted_average(dc: int, da: int, sc: int, sa: int)
    requires
        0 <= dc <= 255,
        0 <= da <= 255,
        0 <= sc <= 255,
        1 <= sa <= 254,
        sc * sa + dc * da * (255 - sa) / 255 + 127 < 256 * over_alpha(da, sa),
    ensures
        over_alpha(da, sa) * (over_color(dc, da, sc, sa) as int) <= sc * sa + dc * da * (255 - sa) / 255 + 127,
        sc * sa + dc * da * (255 - sa) / 255 + 127 < over_alpha(da, sa) * (over_color(dc, da, sc, sa) as int + 1),
        sa <= over_alpha(da, sa) <= 255,
{
    lemma_over_bounds(da, sa);
    let num = sc * sa + dc * da * (255 - sa) / 255 + 127;
    let a = over_alpha(da, sa);
    assert(0 <= dc * da * (255 - sa)) by (nonlinear_arith)
        requires
            0 <= dc,
            0 <= da,
            sa <= 254,
    ;
    assert(0 <= sc * sa) by (nonlinear_arith)
        requires
            0 <= sc,
            0 <= sa,
    ;
    let q = num / a;
    assert(0 <= q < 256) by (nonlinear_arith)
        requires
            0 <= num < 256 * a,
            1 <= a,
            q == num / a,
    ;
    assert(a * q <= num < a * (q + 1)) by (nonlinear_arith)
        requires
            1 <= a,
            0 <= num,
            q == num / a,
    ;
    assert(over_color(dc, da, sc, sa) as int == q);
}

fn blend_alpha(da: u8, sa: u8) -> (r: u32)
    requires
        1 <= sa <= 254,
    ensures
        r == over_alpha(da as int, sa as int),
        1 <= r <= 255,
{
    proof {
        lemma_over_bounds(da as int, sa as int);
    }
    let sa32 = sa as u32;
    let da32 = da as u32;
    sa32 + (da32 * (255 - sa32) + 127) / 255
}

fn blend_color(dc: u8, da: u8, sc: u8, sa: u8) -> (r: u8)
    requires
        1 <= sa <= 254,
    ensures
        r == over_color(dc as int, da as int, sc as int, sa as int),
        da == 0 && sa >= 128 ==> r == sc,
{
    let out_a = blend_alpha(da, sa);
    let s = sc as u32;
    let d = dc as u32;
    let a = sa as u32;
    let b = da as u32;
    assert(s * a <= 255 * 254) by (nonlinear_arith)
        requires
            s <= 255,
            a <= 254,
    ;
    assert(d * b <= 255 * 255) by (nonlinear_arith)
        requires
            d <= 255,
            b <= 255,
    ;
    assert(d * b * (255 - a) <= 255 * 255 * 254) by (nonlinear_arith)
        requires
            d * b <= 255 * 255,
            1 <= a <= 254,
    ;
    let v = (s * a + d * b * (255 - a) / 255 + 127) / out_a;
    proof {
        if da == 0 && sa >= 128 {
            lemma_over_transparent_keeps_colour(dc as int, sc as int, sa as int);
        }
    }
    #[verifier::truncate]
    (v as u8)
}

/// The four channels of `src` drawn over `dst`.
fn blend_pixel(dst: (u8, u8, u8, u8), src: (u8, u8, u8, u8)) -> (r: (u8, u8, u8, u8))
    ensures
        ({
            let d = seq![dst.0, dst.1, dst.2, dst.3];
            let s = seq![src.0, src.1, src.2, src.3];
            r.0 == over_byte(d, s, 0) && r.1 == over_byte(d, s, 1) && r.2 == over_byte(d, s, 2)
                && r.3 == over_byte(d, s, 3)
        }),
{
    let sa = src.3;
    if sa == 0 {
        dst
    } else if sa == 255 {
        src
    } else {
        let da = dst.3;
        let a = blend_alpha(da, sa);
        (
            blend_color(dst.0, da, src.0, sa),
            blend_color(dst.1, da, src.1, sa),
            blend_color(dst.2, da, src.2, sa),
            a as u8,
        )
    }
}

// ---------------------------------------------------------------------------
// Painting a rectangle of the canvas
// ---------------------------------------------------------------------------

/// How a sub-frame rectangle is painted: copied, alpha-blended over what is
/// there, or cleared to transparent black.
#[derive(Clone, Copy, Debug, PartialEq, Eq, Structural)]
pub enum Paint {
    Source,
    Over,
    Clear,
}

/// Whether byte `i` of a `w`-pixel-wide canvas lies in the rectangle of size
/// `fw` x `fh` at (`xo`, `yo`).
pub open spec fn in_rect(w: int, xo: int, yo: int, fw: int, fh: int, i: int) -> bool {
    let p = i / 4;
    xo <= p % w < xo + fw && yo <= p / w < yo + fh
}

/// Byte `i` of the canvas after painting `src` (a packed `fw` x `fh` RGBA
/// image) at (`xo`, `yo`).
pub open spec fn painted_byte(
    canvas: Seq<u8>,
    w: int,
    src: Seq<u8>,
    fw: int,
    fh: int,
    xo: int,
    yo: int,
    paint: Paint,
    i: int,
) -> u8 {
    let p = i / 4;
    let c = i % 4;
    let x = p % w;
    let y = p / w;
    if in_rect(w, xo, yo, fw, fh, i) {
        let s = ((y - yo) * fw + (x - xo)) * 4;
        match paint {
            Paint::Source => src[s + c],
            Paint::Over => over_byte(canvas.subrange(p * 4, p * 4 + 4), src.subrange(s, s + 4), c),
            Paint::Clear => 0,
        }
    } else {
        canvas[i]
    }
}

/// The canvas after painting `src` at (`xo`, `yo`); bytes outside the
/// rectangle keep their value.
pub open spec fn painted(
    canvas: Seq<u8>,
    w: int,
    src: Seq<u8>,
    fw: int,
    fh: int,
    xo: int,
    yo: int,
    paint: Paint,
) -> Seq<u8> {
    Seq::new(canvas.len(), |i: int| painted_byte(canvas, w, src, fw, fh, xo, yo, paint, i))
}

/// In the rectangle and already visited when rows before `row`, and columns
/// before `col` of `row`, have been painted.
spec fn visited(w: int, xo: int, yo: int, fw: int, fh: int, row: int, col: int, i: int) -> bool {
    let p = i / 4;
    let x = p % w;
    let y = p / w;
    in_rect(w, xo, yo, fw, fh, i) && (y - yo < row || (y - yo == row && x - xo < col))
}

proof fn lemma_pixel_coords(w: int, x: int, y: int, c: int)
    requires
        0 <= x < w,
        0 <= y,
        0 <= c < 4,
    ensures
        ((y * w + x) * 4 + c) / 4 == y * w + x,
        ((y * w + x) * 4 + c) % 4 == c,
        (y * w + x) % w == x,
        (y * w + x) / w == y,
{
    lemma_fundamental_div_mod_converse((y * w + x) * 4 + c, 4, y * w + x, c);
    lemma_fundamental_div_mod_converse(y * w + x, w, y, x);
}

proof fn lemma_same_pixel(w: int, i: int, x: int, y: int)
    requires
        0 < w,
        0 <= i,
        (i / 4) % w == x,
        (i / 4) / w == y,
    ensures
        i / 4 == y * w + x,
{
    vstd::arithmetic::div_mod::lemma_fundamental_div_mod(i / 4, w);
    vstd::arithmetic::mul::lemma_mul_is_commutative(w, y);
}

/// Paints `src` into the rectangle of size `fw` x `fh` at (`xo`, `yo`) of a
/// `w` x `h` canvas.
pub fn paint_rect(
    canvas: &mut Vec<u8>,
    w: usize,
    h: usize,
    src: &[u8],
    fw: usize,
    fh: usize,
    xo: usize,
    yo: usize,
    paint: Paint,
)
    requires
        old(canvas)@.len() == w * h * 4,
        w * h * 4 <= usize::MAX,
        xo + fw <= w,
        yo + fh <= h,
        !(paint is Clear) ==> src@.len() >= fw * fh * 4,
    ensures
        final(canvas)@ == painted(old(canvas)@, w as int, src@, fw as int, fh as int, xo as int, yo as int, paint),
{
    let ghost old_c = canvas@;
    let ghost len = old_c.len();
    let mut row: usize = 0;
    while row < fh
        invariant
            old_c == old(canvas)@,
            len == old_c.len(),
            len == w * h * 4,
            w * h * 4 <= usize::MAX,
            xo + fw <= w,
            yo + fh <= h,
            !(paint is Clear) ==> src@.len() >= fw * fh * 4,
            row <= fh,
            canvas@.len() == len,
            forall|i: int|
                0 <= i < len ==> #[trigger] canvas@[i] == (if visited(w as int, xo as int, yo as int, fw as int, fh as int, row as int, 0, i) {
                    painted_byte(old_c, w as int, src@, fw as int, fh as int, xo as int, yo as int, paint, i)
                } else {
                    old_c[i]
                }),
        decreases fh - row,
    {
        let mut col: usize = 0;
        while col < fw
            invariant
                old_c == old(canvas)@,
                len == old_c.len(),
                len == w * h * 4,
                w * h * 4 <= usize::MAX,
                xo + fw <= w,
                yo + fh <= h,
                !(paint is Clear) ==> src@.len() >= fw * fh * 4,
                row < fh,
                col <= fw,
                canvas@.len() == len,
                forall|i: int|
                    0 <= i < len ==> #[trigger] canvas@[i] == (if visited(w as int, xo as int, yo as int, fw as int, fh as int, row as int, col as int, i) {
                        painted_byte(old_c, w as int, src@, fw as int, fh as int, xo as int, yo as int, paint, i)
                    } else {
                        old_c[i]
                    }),
            decreases fw - col,
        {
            let ghost gx = (xo + col) as int;
            let ghost gy = (yo + row) as int;
            let ghost p0 = gy * w + gx;
            assert(p0 + 1 <= w * h) by (nonlinear_arith)
                requires
                    p0 == gy * w + gx,
                    gx < w,
                    gy < h,
            ;
            assert((row * fw + col + 1) * 4 <= fw * fh * 4) by (nonlinear_arith)
                requires
                    row < fh,
                    col < fw,
            ;
            assert(fw * fh * 4 <= w * h * 4) by (nonlinear_arith)
                requires
                    fw <= w,
                    fh <= h,
            ;
            let di = ((yo + row) * w + (xo + col)) * 4;
            let si = (row * fw + col) * 4;
            assert(di == p0 * 4);
            proof {
                lemma_pixel_coords(w as int, gx, gy, 0);
                lemma_pixel_coords(w as int, gx, gy, 1);
                lemma_pixel_coords(w as int, gx, gy, 2);
                lemma_pixel_coords(w as int, gx, gy, 3);
                assert(!visited(w as int, xo as int, yo as int, fw as int, fh as int, row as int, col as int, di as int));
                assert(!visited(w as int, xo as int, yo as int, fw as int, fh as int, row as int, col as int, di + 1));
                assert(!visited(w as int, xo as int, yo as int, fw as int, fh as int, row as int, col as int, di + 2));
                assert(!visited(w as int, xo as int, yo as int, fw as int, fh as int, row as int, col as int, di + 3));
            }
            let d = (canvas[di], canvas[di + 1], canvas[di + 2], canvas[di + 3]);
            let px = match paint {
                Paint::Clear => (0u8, 0u8, 0u8, 0u8),
                Paint::Source => (src[si], src[si + 1], src[si + 2], src[si + 3]),
                Paint::Over => blend_pixel(d, (src[si], src[si + 1], src[si + 2], src[si + 3])),
            };
            proof {
                let dpx = old_c.subrange(p0 * 4, p0 * 4 + 4);
                assert(dpx =~= seq![d.0, d.1, d.2, d.3]);
                if !(paint is Clear) {
                    let spx = src@.subrange(si as int, si + 4);
                    assert(spx =~= seq![src@[si as int], src@[si + 1], src@[si + 2], src@[si + 3]]);
                }
            }
            canvas.set(di, px.0);
            canvas.set(di + 1, px.1);
            canvas.set(di + 2, px.2);
            canvas.set(di + 3, px.3);
            proof {
                assert forall|i: int| 0 <= i < len implies #[trigger] canvas@[i] == (if visited(w as int, xo as int, yo as int, fw as int, fh as int, row as int, col + 1, i) {
                    painted_byte(old_c, w as int, src@, fw as int, fh as int, xo as int, yo as int, paint, i)
                } else {
                    old_c[i]
                }) by {
                    if di <= i < di + 4 {
                        lemma_pixel_coords(w as int, gx, gy, i - di);
                    } else {
                        let p = i / 4;
                        if p % (w as int) == gx && p / (w as int) == gy {
                            lemma_same_pixel(w as int, i, gx, gy);
                        }
                    }
                }
            }
            col = col + 1;
        }
        row = row + 1;
    }
    assert(canvas@ =~= painted(old_c, w as int, src@, fw as int, fh as int, xo as int, yo as int, paint));
}


/// Every pixel of the packed `fw` x `fh` image `src` has alpha `a`.
pub open spec fn all_alpha(src: Seq<u8>, fw: int, fh: int, a: u8) -> bool {
    forall|k: int| 0 <= k < fw * fh ==> #[trigger] src[k * 4 + 3] == a
}

proof fn lemma_src_pixel(w: int, xo: int, yo: int, fw: int, fh: int, i: int)
    requires
        0 < w,
        0 <= xo,
        0 <= yo,
        0 <= i,
        in_rect(w, xo, yo, fw, fh, i),
    ensures
        ({
            let p = i / 4;
            let k = (p / w - yo) * fw + (p % w - xo);
            &&& 0 <= k < fw * fh
            &&& k * 4 + 4 <= fw * fh * 4
            &&& ((p / w - yo) * fw + (p % w - xo)) * 4 + 3 == k * 4 + 3
        }),
{
    let p = i / 4;
    let r = p / w - yo;
    let c = p % w - xo;
    assert(0 <= r * fw + c < fw * fh) by (nonlinear_arith)
        requires
            0 <= r < fh,
            0 <= c < fw,
    ;
    assert((r * fw + c) * 4 + 4 <= fw * fh * 4) by (nonlinear_arith)
        requires
            r * fw + c < fw * fh,
    ;
}

/// Drawing a fully transparent frame over the canvas leaves it as it was.
pub proof fn lemma_transparent_over_keeps_canvas(
    canvas: Seq<u8>,
    w: int,
    src: Seq<u8>,
    fw: int,
    fh: int,
    xo: int,
    yo: int,
)
    requires
        0 < w,
        0 <= xo,
        0 <= yo,
        canvas.len() % 4 == 0,
        src.len() >= fw * fh * 4,
        all_alpha(src, fw, fh, 0),
    ensures
        painted(canvas, w, src, fw, fh, xo, yo, Paint::Over) == canvas,
{
    let r = painted(canvas, w, src, fw, fh, xo, yo, Paint::Over);
    assert forall|i: int| 0 <= i < canvas.len() implies r[i] == canvas[i] by {
        if in_rect(w, xo, yo, fw, fh, i) {
            lemma_src_pixel(w, xo, yo, fw, fh, i);
            let p = i / 4;
            let k = (p / w - yo) * fw + (p % w - xo);
            assert(src[k * 4 + 3] == 0);
            let s = ((p / w - yo) * fw + (p % w - xo)) * 4;
            assert(src.subrange(s, s + 4)[3] == src[s + 3]);
            assert(canvas.subrange(p * 4, p * 4 + 4)[i % 4] == canvas[i]);
        }
    }
    assert(r =~= canvas);
}

/// Drawing a fully opaque frame over the canvas is the same as copying it.
pub proof fn lemma_opaque_over_is_copy(canvas: Seq<u8>, w: int, src: Seq<u8>, fw: int, fh: int, xo: int, yo: int)
    requires
        0 < w,
        0 <= xo,
        0 <= yo,
        src.len() >= fw * fh * 4,
        all_alpha(src, fw, fh, 255),
    ensures
        painted(canvas, w, src, fw, fh, xo, yo, Paint::Over) == painted(canvas, w, src, fw, fh, xo, yo, Paint::Source),
{
    let a = painted(canvas, w, src, fw, fh, xo, yo, Paint::Over);
    let b = painted(canvas, w, src, fw, fh, xo, yo, Paint::Source);
    assert forall|i: int| 0 <= i < canvas.len() implies a[i] == b[i] by {
        if in_rect(w, xo, yo, fw, fh, i) {
            lemma_src_pixel(w, xo, yo, fw, fh, i);
            let p = i / 4;
            let k = (p / w - yo) * fw + (p % w - xo);
            assert(src[k * 4 + 3] == 255);
            let s = ((p / w - yo) * fw + (p % w - xo)) * 4;
            assert(src.subrange(s, s + 4)[3] == src[s + 3]);
            assert(src.subrange(s, s + 4)[i % 4] == src[s + i % 4]);
        }
    }
    assert(a =~= b);
}

// ---------------------------------------------------------------------------
// Pixel formats
// ---------------------------------------------------------------------------

/// The pixel layouts a decoded frame can come in (`png::ColorType`); only RGB
/// and RGBA are drawn.
#[derive(Clone, Copy, Debug, PartialEq, Eq, Structural)]
pub enum PixelLayout {
    Grayscale,
    Rgb,
    Indexed,
    GrayscaleAlpha,
    Rgba,
}

/// `n` RGB pixels widened to RGBA with full opacity.
pub open spec fn rgb_to_rgba(buf: Seq<u8>, n: int) -> Seq<u8> {
    Seq::new((n * 4) as nat, |i: int| if i % 4 == 3 { 255u8 } else { buf[(i / 4) * 3 + i % 4] })
}

/// The RGBA bytes of `n` pixels in `layout`, `None` for other layouts.
pub open spec fn as_rgba(buf: Seq<u8>, layout: PixelLayout, n: int) -> Option<Seq<u8>> {
    match layout {
        PixelLayout::Rgba => Some(buf.subrange(0, n * 4)),
        PixelLayout::Rgb => Some(rgb_to_rgba(buf, n)),
        _ => None,
    }
}

fn widen_rgb(buf: &[u8], n: usize) -> (out: Vec<u8>)
    requires
        buf@.len() >= n * 3,
        n * 4 <= usize::MAX,
    ensures
        out@ == rgb_to_rgba(buf@, n as int),
{
    let mut out: Vec<u8> = Vec::new();
    let mut i: usize = 0;
    while i < n
        invariant
            i <= n,
            buf@.len() >= n * 3,
            n * 4 <= usize::MAX,
            out@.len() == i * 4,
            forall|k: int| 0 <= k < i * 4 ==> #[trigger] out@[k] == rgb_to_rgba(buf@, n as int)[k],
        decreases n - i,
    {
        let ghost before = out@;
        out.push(buf[i * 3]);
        out.push(buf[i * 3 + 1]);
        out.push(buf[i * 3 + 2]);
        out.push(255u8);
        proof {
            assert forall|k: int| 0 <= k < (i + 1) * 4 implies #[trigger] out@[k] == rgb_to_rgba(buf@, n as int)[k] by {
                if k >= i * 4 {
                    lemma_fundamental_div_mod_converse(k, 4, i as int, k - i * 4);
                } else {
                    assert(out@[k] == before[k]);
                }
            }
        }
        i = i + 1;
    }
    assert(out@ =~= rgb_to_rgba(buf@, n as int));
    out
}

fn prefix_bytes(buf: &[u8], len: usize) -> (out: Vec<u8>)
    requires
        len <= buf@.len(),
    ensures
        out@ == buf@.subrange(0, len as int),
{
    let mut out: Vec<u8> = Vec::new();
    let mut i: usize = 0;
    while i < len
        invariant
            i <= len,
            len <= buf@.len(),
            out@ == buf@.subrange(0, i as int),
        decreases len - i,
    {
        out.push(buf[i]);
        i = i + 1;
        assert(out@ =~= buf@.subrange(0, i as int));
    }
    out
}

/// Widens a packed `width` x `height` frame to RGBA; `None` for layouts
/// other than RGB and RGBA, or a pixel count that overflows.
pub fn expand_to_rgba(buf: &[u8], layout: PixelLayout, width: u32, height: u32) -> (r: Option<Vec<u8>>)
    requires
        (width as int) * (height as int) * 4 <= usize::MAX,
        layout is Rgba ==> buf@.len() >= (width as int) * (height as int) * 4,
        layout is Rgb ==> buf@.len() >= (width as int) * (height as int) * 3,
    ensures
        match r {
            Some(v) => as_rgba(buf@, layout, (width as int) * (height as int)) == Some(v@),
            None => as_rgba(buf@, layout, (width as int) * (height as int)) is None,
        },
{
    let n = (width as usize).checked_mul(height as usize);
    match n {
        None => {
            assert((width as int) * (height as int) <= usize::MAX);
            None
        },
        Some(n) => match layout {
            PixelLayout::Rgba => Some(prefix_bytes(buf, n * 4)),
            PixelLayout::Rgb => Some(widen_rgb(buf, n)),
            _ => None,
        },
    }
}

// ---------------------------------------------------------------------------
// Recognising files
// ---------------------------------------------------------------------------

/// The eight bytes every PNG file starts with.
pub open spec fn png_signature() -> Seq<u8> {
    seq![0x89u8, 0x50u8, 0x4Eu8, 0x47u8, 0x0Du8, 0x0Au8, 0x1Au8, 0x0Au8]
}

/// The chunk type `acTL` that announces an animation.
pub open spec fn actl() -> Seq<u8> {
    seq![0x61u8, 0x63u8, 0x54u8, 0x4Cu8]
}

pub open spec fn bytes_at(s: Seq<u8>, i: int, pat: Seq<u8>) -> bool {
    0 <= i && i + pat.len() <= s.len() && s.subrange(i, i + pat.len()) == pat
}

pub open spec fn has_bytes(s: Seq<u8>, pat: Seq<u8>) -> bool {
    exists|i: int| #[trigger] bytes_at(s, i, pat)
}

/// An APNG: the first 512 bytes hold at least 24 bytes and start with the
/// PNG signature, and the file contains an `acTL` chunk type.
pub open spec fn is_apng(bytes: Seq<u8>) -> bool {
    let head = if bytes.len() < 512 { bytes.len() } else { 512 };
    head >= 24 && bytes_at(bytes, 0, png_signature()) && has_bytes(bytes, actl())
}

fn four_at(s: &[u8], i: usize, a: u8, b: u8, c: u8, d: u8) -> (r: bool)
    requires
        i + 4 <= s@.len(),
    ensures
        r == bytes_at(s@, i as int, seq![a, b, c, d]),
        r == (s@[i as int] == a && s@[i + 1] == b && s@[i + 2] == c && s@[i + 3] == d),
{
    let r = s[i] == a && s[i + 1] == b && s[i + 2] == c && s[i + 3] == d;
    proof {
        let sub = s@.subrange(i as int, i + 4);
        if r {
            assert(sub =~= seq![a, b, c, d]);
        } else if sub == seq![a, b, c, d] {
            assert(sub[0] == a && sub[1] == b && sub[2] == c && sub[3] == d);
        }
    }
    r
}

proof fn lemma_signature(b: Seq<u8>)
    requires
        b.len() >= 8,
    ensures
        bytes_at(b, 0, png_signature()) <==> (b[0] == 0x89 && b[1] == 0x50 && b[2] == 0x4E && b[3]
            == 0x47 && b[4] == 0x0D && b[5] == 0x0A && b[6] == 0x1A && b[7] == 0x0A),
{
    let sub = b.subrange(0, 8);
    assert(sub[0] == b[0] && sub[1] == b[1] && sub[2] == b[2] && sub[3] == b[3]);
    assert(sub[4] == b[4] && sub[5] == b[5] && sub[6] == b[6] && sub[7] == b[7]);
    if b[0] == 0x89 && b[1] == 0x50 && b[2] == 0x4E && b[3] == 0x47 && b[4] == 0x0D && b[5] == 0x0A
        && b[6] == 0x1A && b[7] == 0x0A {
        assert(sub =~= png_signature());
    }
}

fn find_actl(bytes: &[u8]) -> (r: bool)
    ensures
        r == has_bytes(bytes@, actl()),
{
    let mut i: usize = 0;
    while i < bytes.len() && bytes.len() - i >= 4
        invariant
            i <= bytes@.len(),
            forall|k: int| 0 <= k < i ==> !#[trigger] bytes_at(bytes@, k, actl()),
        decreases bytes@.len() - i,
    {
        if four_at(bytes, i, 0x61, 0x63, 0x54, 0x4C) {
            assert(bytes_at(bytes@, i as int, actl()));
            return true;
        }
        i = i + 1;
    }
    assert forall|k: int| #![auto] !bytes_at(bytes@, k, actl()) by {
        if 0 <= k < i {
        }
    }
    false
}

/// The big-endian 32-bit number at `i`.
fn be_u32(s: &[u8], i: usize) -> (r: u32)
    requires
        i + 4 <= s@.len(),
    ensures
        r == s@[i as int] * 16777216 + s@[i + 1] * 65536 + s@[i + 2] * 256 + s@[i + 3],
{
    let a = s[i] as u32;
    let b = s[i + 1] as u32;
    let c = s[i + 2] as u32;
    let d = s[i + 3] as u32;
    assert(a * 16777216 + b * 65536 + c * 256 + d <= 0xFFFF_FFFF) by (nonlinear_arith)
        requires
            a <= 255,
            b <= 255,
            c <= 255,
            d <= 255,
    ;
    a * 16777216 + b * 65536 + c * 256 + d
}

/// Whether `bytes` (a whole file) is an animated PNG. The chunk list of the
/// first 512 bytes is walked first; the whole file is searched only when the
/// walk stops before an `acTL` chunk.
pub fn looks_like_apng(bytes: &[u8]) -> (r: bool)
    ensures
        r == is_apng(bytes@),
{
    let n = if bytes.len() < 512 { bytes.len() } else { 512 };
    if n < 24 {
        return false;
    }
    proof {
        lemma_signature(bytes@);
    }
    if !four_at(bytes, 0, 0x89, 0x50, 0x4E, 0x47) || !four_at(bytes, 4, 0x0D, 0x0A, 0x1A, 0x0A) {
        return false;
    }
    let mut i: usize = 8;
    while i < n && n - i >= 8
        invariant
            n == (if bytes@.len() < 512 { bytes@.len() } else { 512 }),
            n >= 24,
            bytes_at(bytes@, 0, png_signature()),
            8 <= i,
        decreases usize::MAX - i,
    {
        let len = be_u32(bytes, i);
        if four_at(bytes, i + 4, 0x61, 0x63, 0x54, 0x4C) {
            assert(bytes_at(bytes@, i + 4, actl()));
            return true;
        }
        if four_at(bytes, i + 4, 0x49, 0x44, 0x41, 0x54) || four_at(bytes, i + 4, 0x49, 0x45, 0x4E, 0x44) {
            break;
        }
        let next = i.saturating_add(12).saturating_add(len as usize);
        if next <= i {
            break;
        }
        i = next;
    }
    find_actl(bytes)
}

/// The first bytes of a JPEG, PNG, GIF or WebP file.
pub open spec fn known_image_header(b: Seq<u8>) -> bool {
    ||| (b[0] == 0xFF && b[1] == 0xD8 && b[2] == 0xFF)
    ||| (b[0] == 0x89 && b[1] == 0x50 && b[2] == 0x4E && b[3] == 0x47)
    ||| (b[0] == 0x47 && b[1] == 0x49 && b[2] == 0x46)
    ||| (b[0] == 0x52 && b[1] == 0x49 && b[2] == 0x46 && b[3] == 0x46 && b[8] == 0x57 && b[9] == 0x45
        && b[10] == 0x42 && b[11] == 0x50)
}

/// How an image file is to be shown.
#[derive(Clone, Copy, Debug, PartialEq, Eq, Structural)]
pub enum ImageRoute {
    /// Too short, or not a known image format (an HTML error page, say).
    Rejected,
    /// An animated PNG, decoded frame by frame.
    Animated,
    /// A still image.
    Still,
}

pub open spec fn image_route_spec(bytes: Seq<u8>) -> ImageRoute {
    if bytes.len() < 32 || !known_image_header(bytes) {
        ImageRoute::Rejected
    } else if is_apng(bytes) {
        ImageRoute::Animated
    } else {
        ImageRoute::Still
    }
}

/// Sorts the bytes of an image file into rejected, animated or still.
pub fn image_route(bytes: &[u8]) -> (r: ImageRoute)
    ensures
        r == image_route_spec(bytes@),
{
    if bytes.len() < 32 {
        return ImageRoute::Rejected;
    }
    let b = bytes;
    let jpeg = b[0] == 0xFF && b[1] == 0xD8 && b[2] == 0xFF;
    let png = b[0] == 0x89 && b[1] == 0x50 && b[2] == 0x4E && b[3] == 0x47;
    let gif = b[0] == 0x47 && b[1] == 0x49 && b[2] == 0x46;
    let webp = b[0] == 0x52 && b[1] == 0x49 && b[2] == 0x46 && b[3] == 0x46 && b[8] == 0x57 && b[9]
        == 0x45 && b[10] == 0x42 && b[11] == 0x50;
    if !(jpeg || png || gif || webp) {
        ImageRoute::Rejected
    } else if looks_like_apng(bytes) {
        ImageRoute::Animated
    } else {
        ImageRoute::Still
    }
}

// ---------------------------------------------------------------------------
// Timing
// ---------------------------------------------------------------------------

/// Display time of a frame whose delay is `num / den` seconds (`den == 0`
/// meaning hundredths), clamped to 20 ms .. 5 s.
pub open spec fn frame_delay(num: int, den: int) -> int {
    let d = if den == 0 { 100 } else { den };
    let ms = num * 1000 / d;
    if ms < 20 {
        20
    } else if ms > 5000 {
        5000
    } else {
        ms
    }
}

pub fn frame_delay_ms(num: u16, den: u16) -> (r: u32)
    ensures
        r == frame_delay(num as int, den as int),
        20 <= r <= 5000,
{
    let d: u32 = if den == 0 { 100 } else { den as u32 };
    let ms = (num as u32) * 1000 / d;
    if ms < 20 {
        20
    } else if ms > 5000 {
        5000
    } else {
        ms
    }
}

/// Play count of the result: a still (or a single play) plays once, anything
/// else loops forever.
pub open spec fn shown_plays(animate: bool, plays: u32) -> u32 {
    if !animate || plays == 1 { 1 } else { 0 }
}


// ---------------------------------------------------------------------------
// The `png` crate's decoder
// ---------------------------------------------------------------------------

/// A `png::Reader` over a file held in memory. Verus does not accept a
/// declaration of the reader type (its `BufRead + Seek` bounds), so the reader
/// sits in this opaque struct; the functions below are its only users.
#[verifier::external_body]
pub struct PngReader {
    reader: png::Reader<std::io::Cursor<Vec<u8>>>,
}

/// A reader with the file it reads and how far it has read: how many images
/// it has handed over, and whether a read has failed.
pub struct PngFrames {
    reader: PngReader,
    source: Ghost<Seq<u8>>,
    rounds: Ghost<nat>,
    stopped: Ghost<bool>,
}

impl PngFrames {
    /// The bytes of the file.
    pub closed spec fn source(&self) -> Seq<u8> {
        self.source@
    }

    /// How many images the reader has handed over.
    pub closed spec fn rounds(&self) -> nat {
        self.rounds@
    }

    /// A read failed; the reader is not used again.
    pub closed spec fn stopped(&self) -> bool {
        self.stopped@
    }
}

/// What `Reader::output_buffer_size` reports before the reader hands over
/// image number `k` of the file `bytes` (the images before it read into
/// zeroed buffers of the reported size).
pub uninterp spec fn png_round_buffer(bytes: Seq<u8>, k: nat) -> Option<usize>;

/// What `Reader::next_frame` gives for image number `k` of the file `bytes`,
/// read into a zeroed buffer of the reported size: the output info and the
/// buffer's bytes, or `None` on an error.
pub uninterp spec fn png_round_image(bytes: Seq<u8>, k: nat) -> Option<(FrameOutput, Seq<u8>)>;

/// The frame control (`Reader::info().frame_control`) after image number `k`
/// of the file `bytes` was read.
pub uninterp spec fn png_round_control(bytes: Seq<u8>, k: nat) -> Option<FrameControl>;

/// What the reader says of the frame it just decoded (`png::OutputInfo`).
pub struct FrameOutput {
    pub width: u32,
    pub height: u32,
    pub layout: PixelLayout,
    /// `OutputInfo::buffer_size`: the bytes of the buffer that hold the frame.
    pub size: usize,
}

/// How an animation frame is placed and kept (`png::FrameControl`).
#[derive(Clone, Copy)]
pub struct FrameControl {
    pub x_offset: u32,
    pub y_offset: u32,
    pub delay_num: u16,
    pub delay_den: u16,
    pub dispose: Dispose,
    pub blend_over: bool,
}

/// What happens to a frame's rectangle after it was shown (`png::DisposeOp`).
#[derive(Clone, Copy, Debug, PartialEq, Eq, Structural)]
pub enum Dispose {
    Keep,
    Clear,
    Restore,
}

/// What the `png` crate reads from the header of a PNG file held in memory:
/// width, height and, when there is an `acTL` chunk, its frame and play
/// counts; `None` when the header cannot be read.
pub uninterp spec fn png_header(bytes: Seq<u8>) -> Option<(u32, u32, Option<(u32, u32)>)>;

/// `png::Decoder::new` on the bytes, then `Decoder::read_info`; with the
/// reader, the `width` and `height` of `Reader::info` and the `num_frames`
/// and `num_plays` of its `animation_control`. Which headers are read, and
/// what they say, is named, not described. The reader has handed over no
/// image yet.
#[verifier::external_body]
fn png_open(bytes: Vec<u8>) -> (r: Option<(PngFrames, u32, u32, Option<(u32, u32)>)>)
    ensures
        match r {
            Some(t) => png_header(bytes@) == Some((t.1, t.2, t.3)) && t.0.source() == bytes@ && t.0.rounds() == 0
                && !t.0.stopped(),
            None => png_header(bytes@) is None,
        },
{
    let source = Ghost(bytes@);
    png::Decoder::new(std::io::Cursor::new(bytes)).read_info().ok().map(|reader| {
        let info = reader.info();
        let (w, h) = (info.width, info.height);
        let anim = info.animation_control.map(|a| (a.num_frames, a.num_plays));
        (PngFrames { reader: PngReader { reader }, source, rounds: Ghost(0), stopped: Ghost(false) }, w, h, anim)
    })
}

/// The `fcTL` of the image just read, from `Reader::info`; named, not
/// described.
#[verifier::external_body]
fn png_frame_control(frames: &PngFrames) -> (r: Option<FrameControl>)
    requires
        !frames.stopped(),
        frames.rounds() > 0,
    ensures
        r == png_round_control(frames.source(), (frames.rounds() - 1) as nat),
{
    frames.reader.reader.info().frame_control.map(|fc| FrameControl {
        x_offset: fc.x_offset,
        y_offset: fc.y_offset,
        delay_num: fc.delay_num,
        delay_den: fc.delay_den,
        dispose: match fc.dispose_op {
            png::DisposeOp::None => Dispose::Keep,
            png::DisposeOp::Background => Dispose::Clear,
            png::DisposeOp::Previous => Dispose::Restore,
        },
        blend_over: match fc.blend_op {
            png::BlendOp::Source => false,
            png::BlendOp::Over => true,
        },
    })
}

/// `Reader::output_buffer_size`: bytes needed for the next image; named, not
/// described.
#[verifier::external_body]
fn png_output_buffer_size(frames: &PngFrames) -> (r: Option<usize>)
    requires
        !frames.stopped(),
    ensures
        r == png_round_buffer(frames.source(), frames.rounds()),
{
    frames.reader.reader.output_buffer_size()
}

/// `Reader::next_frame` into `buf`, a zeroed buffer of the reported size:
/// the next image (named, not described), after which the reader has handed
/// over one image more; `None` on a decoding error or when no image is left,
/// after which the reader is not used again. The buffer keeps its length.
#[verifier::external_body]
fn png_next_frame(frames: &mut PngFrames, buf: &mut Vec<u8>) -> (r: Option<FrameOutput>)
    requires
        !old(frames).stopped(),
        png_round_buffer(old(frames).source(), old(frames).rounds()) == Some(old(buf)@.len() as usize),
        old(buf)@ == Seq::new(old(buf)@.len(), |i: int| 0u8),
    ensures
        final(buf)@.len() == old(buf)@.len(),
        final(frames).source() == old(frames).source(),
        match png_round_image(old(frames).source(), old(frames).rounds()) {
            Some(img) => r == Some(img.0) && final(buf)@ == img.1 && final(frames).rounds() == old(frames).rounds() + 1
                && !final(frames).stopped(),
            None => r is None && final(frames).stopped(),
        },
{
    match frames.reader.reader.next_frame(buf.as_mut_slice()) {
        Ok(out) => Some(FrameOutput {
            width: out.width,
            height: out.height,
            layout: match out.color_type {
                png::ColorType::Grayscale => PixelLayout::Grayscale,
                png::ColorType::Rgb => PixelLayout::Rgb,
                png::ColorType::Indexed => PixelLayout::Indexed,
                png::ColorType::GrayscaleAlpha => PixelLayout::GrayscaleAlpha,
                png::ColorType::Rgba => PixelLayout::Rgba,
            },
            size: out.buffer_size(),
        }),
        Err(_) => None,
    }
}

/// The image that `image::imageops::resize` with the triangle filter makes of
/// a `w` x `h` RGBA image at `tw` x `th`.
pub uninterp spec fn triangle_resize(rgba: Seq<u8>, w: u32, h: u32, tw: u32, th: u32) -> Seq<u8>;

proof fn lemma_smaller_area(w: int, h: int, tw: int, th: int)
    requires
        1 <= tw <= w,
        1 <= th <= h,
    ensures
        w * th * 4 <= w * h * 4,
        tw * th * 4 <= w * h * 4,
{
    assert(w * th <= w * h) by (nonlinear_arith)
        requires
            1 <= tw <= w,
            1 <= th <= h,
    ;
    assert(tw * th <= w * th) by (nonlinear_arith)
        requires
            1 <= tw <= w,
            1 <= th <= h,
    ;
}

/// `image::RgbaImage::from_raw(w, h, rgba)`, which is `None` when the buffer
/// holds fewer than `w * h` pixels, then `image::imageops::resize` with
/// `FilterType::Triangle` to `tw` x `th` (smaller or larger) and `into_raw`:
/// `tw * th` pixels. `resize` works through a `w` x `th` image of four
/// floats a pixel; the sizes are bounded so that no buffer length overflows.
#[verifier::external_body]
fn resize_rgba(rgba: Vec<u8>, w: u32, h: u32, tw: u32, th: u32) -> (r: Option<Vec<u8>>)
    requires
        1 <= w,
        1 <= h,
        1 <= tw,
        1 <= th,
        (w as int) * (th as int) * 4 <= usize::MAX,
        (tw as int) * (th as int) * 4 <= usize::MAX,
    ensures
        r is Some <==> (w as int) * (h as int) * 4 <= rgba@.len(),
        r matches Some(v) ==> v@ == triangle_resize(rgba@, w, h, tw, th) && v@.len() == (tw as int) * (th as int) * 4,
{
    image::RgbaImage::from_raw(w, h, rgba).map(
        |img| image::imageops::resize(&img, tw, th, image::imageops::FilterType::Triangle).into_raw(),
    )
}

// ---------------------------------------------------------------------------
// Still pictures
// ---------------------------------------------------------------------------

/// What `image` decodes from the bytes of a picture file, its format found
/// from the bytes: width, height and RGBA pixels.
pub uninterp spec fn decoded_rgba(bytes: Seq<u8>) -> Option<(u32, u32, Seq<u8>)>;

/// `image::load_from_memory`, then `into_rgba8`, its `width`, `height` and
/// `into_raw`: four bytes a pixel. The decoded picture is named, not
/// described.
#[verifier::external_body]
fn decode_rgba(bytes: &[u8]) -> (r: Option<(u32, u32, Vec<u8>)>)
    ensures
        match r {
            Some(t) => decoded_rgba(bytes@) == Some((t.0, t.1, t.2@)) && t.2@.len() == (t.0 as int) * (t.1 as int) * 4,
            None => decoded_rgba(bytes@) is None,
        },
{
    image::load_from_memory(bytes).ok().map(|img| {
        let img = img.into_rgba8();
        (img.width(), img.height(), img.into_raw())
    })
}

/// Decodes a still picture: its width, height and RGBA pixels; `None` when
/// the bytes do not decode or the picture is empty.
pub fn decode_still(bytes: &[u8]) -> (r: Option<(u32, u32, Vec<u8>)>)
    ensures
        match decoded_rgba(bytes@) {
            Some((w, h, px)) => if w >= 1 && h >= 1 {
                r matches Some(t) && t.0 == w && t.1 == h && t.2@ == px && px.len() == (w as int) * (h as int) * 4
            } else {
                r is None
            },
            None => r is None,
        },
{
    match decode_rgba(bytes) {
        Some((w, h, px)) => if w >= 1 && h >= 1 {
            Some((w, h, px))
        } else {
            None
        },
        None => None,
    }
}

/// A still picture of `w` x `h` RGBA pixels shown at `tw` x `th`: one frame,
/// scaled with the triangle filter when the size changes, shown once.
pub fn still_frame(w: u32, h: u32, px: Vec<u8>, tw: u32, th: u32) -> (r: Option<AnimFrames>)
    requires
        1 <= tw <= w,
        1 <= th <= h,
        px@.len() == (w as int) * (h as int) * 4,
    ensures
        r is Some,
        r->0.plays == 1,
        r->0.frames@.len() == 1,
        r->0.frames@[0].width == tw as i32,
        r->0.frames@[0].height == th as i32,
        r->0.frames@[0].delay_ms == 0,
        r->0.frames@[0].rgba@ == (if tw == w && th == h { px@ } else { triangle_resize(px@, w, h, tw, th) }),
{
    let n = px.len();
    assert(n <= usize::MAX);
    let rgba = if tw != w || th != h {
        proof {
            lemma_smaller_area(w as int, h as int, tw as int, th as int);
        }
        match resize_rgba(px, w, h, tw, th) {
            Some(v) => v,
            None => return None,
        }
    } else {
        px
    };
    let frame = RawFrame {
        rgba,
        width: #[verifier::truncate] (tw as i32),
        height: #[verifier::truncate] (th as i32),
        delay_ms: 0,
    };
    let mut frames: Vec<RawFrame> = Vec::new();
    frames.push(frame);
    Some(AnimFrames { frames, plays: 1 })
}

// ---------------------------------------------------------------------------
// Fitting pictures to an exact canvas
// ---------------------------------------------------------------------------

/// What `image::imageops::overlay` makes of a transparent `tw` x `th` RGBA
/// canvas with the `rw` x `rh` RGBA picture `top` drawn at (`x`, `y`).
pub uninterp spec fn overlaid(tw: u32, th: u32, top: Seq<u8>, rw: u32, rh: u32, x: u32, y: u32) -> Seq<u8>;

/// `image::RgbaImage::new(tw, th)` (transparent), then
/// `image::imageops::overlay` of `top` (`RgbaImage::from_raw(rw, rh, top)`)
/// at (`x`, `y`), then `into_raw`: `tw * th` pixels, named, not described.
/// `from_raw` refuses only a short buffer, which the `requires` rules out.
#[verifier::external_body]
fn overlay_on_clear(tw: u32, th: u32, top: Vec<u8>, rw: u32, rh: u32, x: u32, y: u32) -> (r: Vec<u8>)
    requires
        top@.len() == (rw as int) * (rh as int) * 4,
        (tw as int) * (th as int) * 4 <= usize::MAX,
    ensures
        r@ == overlaid(tw, th, top@, rw, rh, x, y),
        r@.len() == (tw as int) * (th as int) * 4,
{
    let top = match image::RgbaImage::from_raw(rw, rh, top) {
        Some(t) => t,
        None => return Vec::new(),
    };
    let mut canvas = image::RgbaImage::new(tw, th);
    image::imageops::overlay(&mut canvas, &top, i64::from(x), i64::from(y));
    canvas.into_raw()
}

/// Rows `0..n` of the `tw`-pixel-wide window at (`x`, `y`) of an RGBA
/// picture `rw` pixels wide, one after the other.
pub open spec fn crop_rows(px: Seq<u8>, rw: int, x: int, y: int, tw: int, n: int) -> Seq<u8>
    decreases n,
{
    if n <= 0 {
        Seq::empty()
    } else {
        crop_rows(px, rw, x, y, tw, n - 1) + px.subrange(((y + n - 1) * rw + x) * 4, ((y + n - 1) * rw + x + tw) * 4)
    }
}

/// The picture on the exact canvas, from the picture scaled to `rw` x `rh`:
/// for `cover` the `tw` x `th` window in its middle; otherwise the scaled
/// picture in the middle of a transparent `tw` x `th` canvas.
pub open spec fn fitted(resized: Seq<u8>, rw: u32, rh: u32, tw: u32, th: u32, cover: bool) -> Seq<u8> {
    if cover {
        crop_rows(resized, rw as int, (rw - tw) / 2, (rh - th) / 2, tw as int, th as int)
    } else {
        overlaid(
            tw,
            th,
            resized,
            rw,
            rh,
            (if tw > rw { (tw - rw) / 2 } else { 0 }) as u32,
            (if th > rh { (th - rh) / 2 } else { 0 }) as u32,
        )
    }
}

proof fn lemma_row_inside(rw: int, rh: int, x: int, y: int, tw: int, r: int)
    requires
        0 <= r,
        0 <= x,
        0 <= y,
        0 <= tw,
        y + r < rh,
        x + tw <= rw,
    ensures
        0 <= ((y + r) * rw + x) * 4,
        ((y + r) * rw + x + tw) * 4 <= rw * rh * 4,
        ((y + r) * rw + x + tw) * 4 - ((y + r) * rw + x) * 4 == tw * 4,
{
    assert(0 <= (y + r) * rw) by (nonlinear_arith)
        requires
            0 <= y + r,
            0 <= rw,
    ;
    assert((y + r) * rw + rw <= rh * rw) by (nonlinear_arith)
        requires
            y + r + 1 <= rh,
            0 <= rw,
    ;
    assert(rh * rw == rw * rh) by (nonlinear_arith);
}

/// The `tw` x `th` window at (`x`, `y`) of an `rw` x `rh` RGBA picture
/// (`image::imageops::crop_imm` of a window inside the picture).
fn crop_window(px: &Vec<u8>, rw: u32, rh: u32, x: u32, y: u32, tw: u32, th: u32) -> (out: Vec<u8>)
    requires
        px@.len() == (rw as int) * (rh as int) * 4,
        x as int + tw as int <= rw as int,
        y as int + th as int <= rh as int,
    ensures
        out@ == crop_rows(px@, rw as int, x as int, y as int, tw as int, th as int),
        out@.len() == (tw as int) * (th as int) * 4,
{
    let mut out: Vec<u8> = Vec::new();
    let mut r: u32 = 0;
    let plen = px.len();
    while r < th
        invariant
            plen == px@.len(),
            px@.len() == (rw as int) * (rh as int) * 4,
            x as int + tw as int <= rw as int,
            y as int + th as int <= rh as int,
            r <= th,
            out@ == crop_rows(px@, rw as int, x as int, y as int, tw as int, r as int),
            out@.len() == (r as int) * (tw as int) * 4,
        decreases th - r,
    {
        proof {
            lemma_row_inside(rw as int, rh as int, x as int, y as int, tw as int, r as int);
            assert(0 <= (y as int + r as int) * (rw as int) <= ((y as int + r as int) * (rw as int) + x as int) * 4)
                by (nonlinear_arith)
                requires
                    0 <= y as int + r as int,
                    0 <= rw as int,
                    0 <= x as int,
            ;
        }
        let start: usize = ((y as usize + r as usize) * rw as usize + x as usize) * 4;
        let end: usize = start + tw as usize * 4;
        let ghost before = out@;
        let mut i = start;
        while i < end
            invariant
                start <= i <= end,
                end <= px@.len(),
                out@ == before + px@.subrange(start as int, i as int),
            decreases end - i,
        {
            out.push(px[i]);
            i = i + 1;
            assert(out@ =~= before + px@.subrange(start as int, i as int));
        }
        r = r + 1;
        proof {
            assert(out@.len() == (r as int) * (tw as int) * 4) by (nonlinear_arith)
                requires
                    out@.len() == before.len() + tw as int * 4,
                    before.len() == (r as int - 1) * (tw as int) * 4,
            ;
        }
    }
    assert((th as int) * (tw as int) * 4 == (tw as int) * (th as int) * 4) by (nonlinear_arith);
    out
}

/// The frame made to fill exactly a `target_w` x `target_h` canvas, from
/// the picture scaled to `resized_w` x `resized_h` (the scale is worked out
/// by the caller): `cover` crops the middle, otherwise the picture sits in
/// the middle of a transparent canvas. The frame keeps its delay. `None` when
/// the frame holds fewer bytes than its size says (a size below one counting
/// as one).
pub open spec fn fitted_frame(
    frame: RawFrame,
    resized_w: u32,
    resized_h: u32,
    target_w: u32,
    target_h: u32,
    cover: bool,
) -> Option<(Seq<u8>, i32, i32, u32)> {
    let sw = if frame.width < 1 { 1u32 } else { frame.width as u32 };
    let sh = if frame.height < 1 { 1u32 } else { frame.height as u32 };
    if frame.rgba@.len() < (sw as int) * (sh as int) * 4 {
        None
    } else {
        Some(
            (
                fitted(triangle_resize(frame.rgba@, sw, sh, resized_w, resized_h), resized_w, resized_h, target_w, target_h, cover),
                target_w as i32,
                target_h as i32,
                frame.delay_ms,
            ),
        )
    }
}

/// What fitting needs of the sizes: none below one, buffers whose lengths
/// fit, and, for `cover`, a scaled picture at least as large as the canvas.
pub open spec fn fit_sizes_ok(width: i32, resized_w: u32, resized_h: u32, target_w: u32, target_h: u32, cover: bool) -> bool {
    let sw = if width < 1 { 1int } else { width as int };
    &&& 1 <= resized_w && 1 <= resized_h && 1 <= target_w && 1 <= target_h
    &&& (resized_w as int) * (resized_h as int) * 4 <= usize::MAX
    &&& (target_w as int) * (target_h as int) * 4 <= usize::MAX
    &&& sw * (resized_h as int) * 4 <= usize::MAX
    &&& cover ==> target_w <= resized_w && target_h <= resized_h
}

/// Fits a frame to an exact canvas (see `fitted_frame`).
pub fn fit_frame(frame: RawFrame, resized_w: u32, resized_h: u32, target_w: u32, target_h: u32, cover: bool) -> (r: Option<RawFrame>)
    requires
        fit_sizes_ok(frame.width, resized_w, resized_h, target_w, target_h, cover),
    ensures
        match fitted_frame(frame, resized_w, resized_h, target_w, target_h, cover) {
            Some(v) => r matches Some(f) && frame_view(f) == v && f.rgba@.len() == (target_w as int) * (target_h as int) * 4,
            None => r is None,
        },
{
    let sw: u32 = if frame.width < 1 { 1 } else { frame.width as u32 };
    let sh: u32 = if frame.height < 1 { 1 } else { frame.height as u32 };
    let delay_ms = frame.delay_ms;
    let resized = match resize_rgba(frame.rgba, sw, sh, resized_w, resized_h) {
        Some(v) => v,
        None => return None,
    };
    let rgba = if cover {
        let x = (resized_w - target_w) / 2;
        let y = (resized_h - target_h) / 2;
        crop_window(&resized, resized_w, resized_h, x, y, target_w, target_h)
    } else {
        let x = if target_w > resized_w { (target_w - resized_w) / 2 } else { 0 };
        let y = if target_h > resized_h { (target_h - resized_h) / 2 } else { 0 };
        overlay_on_clear(target_w, target_h, resized, resized_w, resized_h, x, y)
    };
    Some(
        RawFrame {
            rgba,
            width: #[verifier::truncate] (target_w as i32),
            height: #[verifier::truncate] (target_h as i32),
            delay_ms,
        },
    )
}

/// The frames of `s` that fit, fitted, in order.
pub open spec fn fitted_all(
    s: Seq<RawFrame>,
    resized_w: u32,
    resized_h: u32,
    target_w: u32,
    target_h: u32,
    cover: bool,
) -> Seq<(Seq<u8>, i32, i32, u32)>
    decreases s.len(),
{
    if s.len() == 0 {
        Seq::empty()
    } else {
        let prev = fitted_all(s.drop_last(), resized_w, resized_h, target_w, target_h, cover);
        match fitted_frame(s.last(), resized_w, resized_h, target_w, target_h, cover) {
            Some(v) => prev.push(v),
            None => prev,
        }
    }
}

/// Fits every frame of `a` to an exact canvas (see `fit_frame`); frames
/// that do not fit are dropped, and nothing is left when none fits. The play
/// count is kept.
pub fn fit_frames(a: AnimFrames, resized_w: u32, resized_h: u32, target_w: u32, target_h: u32, cover: bool) -> (r: Option<AnimFrames>)
    requires
        forall|k: int|
            0 <= k < a.frames@.len() ==> fit_sizes_ok(
                (#[trigger] a.frames@[k]).width,
                resized_w,
                resized_h,
                target_w,
                target_h,
                cover,
            ),
    ensures
        fitted_all(a.frames@, resized_w, resized_h, target_w, target_h, cover).len() == 0 ==> r is None,
        fitted_all(a.frames@, resized_w, resized_h, target_w, target_h, cover).len() > 0 ==> (r matches Some(b)
            && frame_views(b.frames@) == fitted_all(a.frames@, resized_w, resized_h, target_w, target_h, cover)
            && b.plays == a.plays),
{
    let ghost orig = a.frames@;
    let plays = a.plays;
    let mut rest = a.frames;
    let mut out: Vec<RawFrame> = Vec::new();
    let n = rest.len();
    let mut i: usize = 0;
    assert(orig.take(0) =~= Seq::<RawFrame>::empty());
    assert(frame_views(out@) =~= Seq::empty());
    while i < n
        invariant
            n == orig.len(),
            i <= n,
            rest@ == orig.skip(i as int),
            forall|k: int|
                0 <= k < orig.len() ==> fit_sizes_ok(
                    (#[trigger] orig[k]).width,
                    resized_w,
                    resized_h,
                    target_w,
                    target_h,
                    cover,
                ),
            frame_views(out@) == fitted_all(orig.take(i as int), resized_w, resized_h, target_w, target_h, cover),
        decreases n - i,
    {
        let f = rest.remove(0);
        assert(f == orig[i as int]);
        assert(rest@ =~= orig.skip(i + 1));
        assert(orig.take(i + 1).drop_last() =~= orig.take(i as int));
        assert(orig.take(i + 1).last() == f);
        let ghost before = out@;
        match fit_frame(f, resized_w, resized_h, target_w, target_h, cover) {
            Some(g) => {
                let ghost gv = frame_view(g);
                out.push(g);
                assert(frame_views(out@) =~= frame_views(before).push(gv));
            },
            None => {},
        }
        i = i + 1;
    }
    assert(orig.take(n as int) =~= orig);
    if out.len() == 0 {
        None
    } else {
        Some(AnimFrames { frames: out, plays })
    }
}

// ---------------------------------------------------------------------------
// Decoding an animation
// ---------------------------------------------------------------------------

/// Largest canvas decoded, in pixels (2048 x 2048).
pub const MAX_CANVAS_PIXELS: u64 = 4194304;

/// An animated PNG whose header was read, with its canvas size and play count.
pub struct ApngDecoder {
    pub frames: PngFrames,
    pub width: u32,
    pub height: u32,
    /// `num_frames` of the `acTL` chunk, if there is one.
    pub frame_count: Option<u32>,
    /// `num_plays` of the `acTL` chunk; 0 without one.
    pub plays: u32,
}

impl ApngDecoder {
    /// A canvas of at least one pixel and at most `MAX_CANVAS_PIXELS`, and a
    /// reader that has handed over no image yet.
    pub open spec fn wf(self) -> bool {
        &&& 1 <= self.width && 1 <= self.height && (self.width as int) * (self.height as int)
            <= MAX_CANVAS_PIXELS
        &&& self.frames.rounds() == 0
        &&& !self.frames.stopped()
    }
}

/// The header of a PNG file accepted for decoding: a canvas of at least one
/// pixel and at most `MAX_CANVAS_PIXELS`.
pub open spec fn canvas_fits(w: u32, h: u32) -> bool {
    w != 0 && h != 0 && (w as int) * (h as int) <= MAX_CANVAS_PIXELS
}

/// Opens the bytes of a PNG file: `None` when the header cannot be read or the
/// canvas is empty or larger than `MAX_CANVAS_PIXELS`; else the reader with
/// the canvas size, the announced frame count and the play count (0 without
/// an `acTL` chunk).
pub fn apng_open(bytes: Vec<u8>) -> (r: Option<ApngDecoder>)
    ensures
        r matches Some(d) ==> d.wf(),
        match png_header(bytes@) {
            None => r is None,
            Some((w, h, anim)) => if canvas_fits(w, h) {
                r matches Some(d) && d.frames.source() == bytes@ && d.width == w && d.height == h && d.frame_count == (match anim {
                    Some(a) => Some(a.0),
                    None => None,
                }) && d.plays == (match anim {
                    Some(a) => a.1,
                    None => 0,
                })
            } else {
                r is None
            },
        },
{
    let (frames, w, h, anim) = match png_open(bytes) {
        Some(t) => t,
        None => return None,
    };
    assert((w as int) * (h as int) <= 0xFFFF_FFFF * 0xFFFF_FFFF) by (nonlinear_arith)
        requires
            w <= 0xFFFF_FFFF,
            h <= 0xFFFF_FFFF,
    ;
    if w == 0 || h == 0 || (w as u64) * (h as u64) > MAX_CANVAS_PIXELS {
        return None;
    }
    let (frame_count, plays) = match anim {
        Some((n, p)) => (Some(n), p),
        None => (None, 0),
    };
    Some(ApngDecoder { frames, width: w, height: h, frame_count, plays })
}

/// The frames are all `tw` x `th` RGBA images.
pub open spec fn frames_sized(frames: Seq<RawFrame>, tw: u32, th: u32) -> bool {
    forall|k: int|
        0 <= k < frames.len() ==> {
            let f = #[trigger] frames[k];
            &&& f.width == tw as i32
            &&& f.height == th as i32
            &&& f.rgba@.len() == (tw as int) * (th as int) * 4
            &&& 20 <= f.delay_ms <= 5000
        }
}

/// A frame as values: pixels, width, height, delay.
pub open spec fn frame_view(f: RawFrame) -> (Seq<u8>, i32, i32, u32) {
    (f.rgba@, f.width, f.height, f.delay_ms)
}

pub open spec fn frame_views(v: Seq<RawFrame>) -> Seq<(Seq<u8>, i32, i32, u32)> {
    v.map_values(|f: RawFrame| frame_view(f))
}

/// An image as the reader handed it over: what `next_frame` reported, the
/// buffer it wrote, and the frame control it read for that image.
pub ghost struct ReadImage {
    pub out: FrameOutput,
    pub buf: Seq<u8>,
    pub control: Option<FrameControl>,
}

/// The canvas and the frames made so far.
pub ghost struct DecodeState {
    pub canvas: Seq<u8>,
    pub frames: Seq<(Seq<u8>, i32, i32, u32)>,
}

/// After an image: go on reading, stop with what was made, or give up.
pub ghost enum StepEnd {
    Go(DecodeState),
    Stop(DecodeState),
    Fail,
}

/// A `w` x `h` canvas scaled to `tw` x `th` (kept as it is at full size).
pub open spec fn scaled(canvas: Seq<u8>, w: u32, h: u32, tw: u32, th: u32) -> Seq<u8> {
    if tw != w || th != h {
        triangle_resize(canvas, w, h, tw, th)
    } else {
        canvas
    }
}

/// The canvas after a frame's disposal: kept, its rectangle cleared, or the
/// canvas from before the frame.
pub open spec fn disposed(after: Seq<u8>, before: Seq<u8>, w: int, fw: int, fh: int, xo: int, yo: int, d: Dispose) -> Seq<u8> {
    match d {
        Dispose::Keep => after,
        Dispose::Clear => painted(after, w, Seq::empty(), fw, fh, xo, yo, Paint::Clear),
        Dispose::Restore => before,
    }
}

/// Whether a buffer reported to hold `size` bytes has room for `n` pixels in
/// `layout`.
pub open spec fn holds_pixels(layout: PixelLayout, n: int, size: int) -> bool {
    match layout {
        PixelLayout::Rgba => n * 4 <= size,
        PixelLayout::Rgb => n * 3 <= size,
        _ => true,
    }
}

/// What one image does to a `w` x `h` canvas scaled to `tw` x `th`. An image
/// without frame control is shown alone when it comes first (for 100 ms) and
/// ends the animation; a frame is drawn (replacing or blended over) into its
/// rectangle, the canvas becomes the next frame, and then it is disposed of.
/// Frames outside the canvas, or whose bytes are short, end the animation;
/// frames in other layouts are passed over.
pub open spec fn decode_step_spec(s: DecodeState, img: ReadImage, w: u32, h: u32, tw: u32, th: u32, animate: bool) -> StepEnd {
    let out = img.out;
    if out.size > img.buf.len() {
        StepEnd::Stop(s)
    } else {
        match img.control {
            None => if s.frames.len() == 0 {
                if out.width != w || out.height != h || !holds_pixels(out.layout, (w as int) * (h as int), out.size as int) {
                    StepEnd::Fail
                } else {
                    match as_rgba(img.buf, out.layout, (w as int) * (h as int)) {
                        None => StepEnd::Fail,
                        Some(rgba) => StepEnd::Stop(DecodeState {
                            canvas: s.canvas,
                            frames: s.frames.push((scaled(rgba, w, h, tw, th), tw as i32, th as i32, 100u32)),
                        }),
                    }
                }
            } else {
                StepEnd::Stop(s)
            },
            Some(fc) => {
                let fw = out.width as int;
                let fh = out.height as int;
                let n = fw * fh;
                if fc.x_offset as int + fw > w as int || fc.y_offset as int + fh > h as int {
                    StepEnd::Stop(s)
                } else if !(out.layout is Rgb || out.layout is Rgba) {
                    StepEnd::Go(s)
                } else if out.layout is Rgb && img.buf.len() < n * 3 {
                    StepEnd::Stop(s)
                } else {
                    let src = if out.layout is Rgba { img.buf.subrange(0, out.size as int) } else { rgb_to_rgba(img.buf, n) };
                    if src.len() < n * 4 {
                        StepEnd::Stop(s)
                    } else {
                        let drawn = painted(
                            s.canvas,
                            w as int,
                            src,
                            fw,
                            fh,
                            fc.x_offset as int,
                            fc.y_offset as int,
                            if fc.blend_over { Paint::Over } else { Paint::Source },
                        );
                        let frames = s.frames.push(
                            (
                                scaled(drawn, w, h, tw, th),
                                tw as i32,
                                th as i32,
                                frame_delay(fc.delay_num as int, fc.delay_den as int) as u32,
                            ),
                        );
                        if !animate {
                            StepEnd::Stop(DecodeState { canvas: drawn, frames })
                        } else {
                            StepEnd::Go(
                                DecodeState {
                                    canvas: disposed(
                                        drawn,
                                        s.canvas,
                                        w as int,
                                        fw,
                                        fh,
                                        fc.x_offset as int,
                                        fc.y_offset as int,
                                        fc.dispose,
                                    ),
                                    frames,
                                },
                            )
                        }
                    }
                }
            },
        }
    }
}

/// The images of `trace` decoded in order from the state `s0`; a stop or a
/// failure ends the run.
pub open spec fn decode_run(trace: Seq<ReadImage>, s0: DecodeState, w: u32, h: u32, tw: u32, th: u32, animate: bool) -> StepEnd
    decreases trace.len(),
{
    if trace.len() == 0 {
        StepEnd::Go(s0)
    } else {
        match decode_run(trace.drop_last(), s0, w, h, tw, th, animate) {
            StepEnd::Go(s) => decode_step_spec(s, trace.last(), w, h, tw, th, animate),
            other => other,
        }
    }
}

/// The result of a run: no frames (or a failure) give nothing.
pub open spec fn decode_result(end: StepEnd, plays: u32) -> Option<(Seq<(Seq<u8>, i32, i32, u32)>, u32)> {
    match end {
        StepEnd::Fail => None,
        StepEnd::Go(s) => if s.frames.len() == 0 { None } else { Some((s.frames, plays)) },
        StepEnd::Stop(s) => if s.frames.len() == 0 { None } else { Some((s.frames, plays)) },
    }
}

/// How many images are read at most: the announced frame count and two more.
pub open spec fn read_limit(frame_count: Option<u32>) -> nat {
    match frame_count {
        Some(n) => n as nat + 2,
        None => 2,
    }
}

/// The canvas a decoding starts from: transparent black.
pub open spec fn blank_canvas(w: u32, h: u32) -> Seq<u8> {
    Seq::new(((w as int) * (h as int) * 4) as nat, |i: int| 0u8)
}

/// How one image ended.
#[derive(Clone, Copy, Debug, PartialEq, Eq, Structural)]
pub enum StepOutcome {
    Go,
    Stop,
    Fail,
}

/// Decodes one image that the reader handed over (see `decode_step_spec`).
pub fn decode_step(
    canvas: &mut Vec<u8>,
    frames: &mut Vec<RawFrame>,
    out: &FrameOutput,
    buf: &Vec<u8>,
    control: Option<FrameControl>,
    full_w: u32,
    full_h: u32,
    tw: u32,
    th: u32,
    animate: bool,
) -> (r: StepOutcome)
    requires
        1 <= tw <= full_w,
        1 <= th <= full_h,
        (full_w as int) * (full_h as int) <= MAX_CANVAS_PIXELS,
        old(canvas)@.len() == (full_w as int) * (full_h as int) * 4,
        frames_sized(old(frames)@, tw, th),
    ensures
        final(canvas)@.len() == (full_w as int) * (full_h as int) * 4,
        frames_sized(final(frames)@, tw, th),
        final(frames)@.len() <= old(frames)@.len() + 1,
        r == StepOutcome::Go ==> final(frames)@.len() == old(frames)@.len() || animate,
        ({
            let s0 = DecodeState { canvas: old(canvas)@, frames: frame_views(old(frames)@) };
            let s1 = DecodeState { canvas: final(canvas)@, frames: frame_views(final(frames)@) };
            let img = ReadImage { out: *out, buf: buf@, control };
            match decode_step_spec(s0, img, full_w, full_h, tw, th, animate) {
                StepEnd::Go(s) => r == StepOutcome::Go && s1 == s,
                StepEnd::Stop(s) => r == StepOutcome::Stop && s1 == s,
                StepEnd::Fail => r == StepOutcome::Fail,
            }
        }),
{
    let w = full_w as usize;
    let h = full_h as usize;
    assert(w <= MAX_CANVAS_PIXELS && h <= MAX_CANVAS_PIXELS) by (nonlinear_arith)
        requires
            1 <= w,
            1 <= h,
            (w as int) * (h as int) <= MAX_CANVAS_PIXELS,
    ;
    let ghost s0 = DecodeState { canvas: canvas@, frames: frame_views(frames@) };
    let ghost img = ReadImage { out: *out, buf: buf@, control };
    let ghost f0 = frames@;
    if out.size > buf.len() {
        return StepOutcome::Stop;
    }
    let fc = match control {
        Some(fc) => fc,
        None => {
            if frames.len() != 0 {
                return StepOutcome::Stop;
            }
            if out.width != full_w || out.height != full_h {
                return StepOutcome::Fail;
            }
            let n = w * h;
            let fits = match out.layout {
                PixelLayout::Rgba => n * 4 <= out.size,
                PixelLayout::Rgb => n * 3 <= out.size,
                _ => true,
            };
            if !fits {
                return StepOutcome::Fail;
            }
            let rgba = match expand_to_rgba(buf.as_slice(), out.layout, full_w, full_h) {
                Some(v) => v,
                None => return StepOutcome::Fail,
            };
            let rgba = if tw != full_w || th != full_h {
                proof {
                    lemma_smaller_area(full_w as int, full_h as int, tw as int, th as int);
                }
                match resize_rgba(rgba, full_w, full_h, tw, th) {
                    Some(v) => v,
                    None => return StepOutcome::Fail,
                }
            } else {
                rgba
            };
            let f = RawFrame { rgba, width: tw as i32, height: th as i32, delay_ms: 100 };
            let ghost fv = frame_view(f);
            frames.push(f);
            assert(frame_views(frames@) =~= frame_views(f0).push(fv));
            return StepOutcome::Stop;
        },
    };
    let fw = out.width as usize;
    let fh = out.height as usize;
    let xo = fc.x_offset as usize;
    let yo = fc.y_offset as usize;
    if fc.x_offset as u64 + out.width as u64 > full_w as u64 || fc.y_offset as u64 + out.height as u64 > full_h as u64 {
        return StepOutcome::Stop;
    }
    assert((fw as int) * (fh as int) <= (w as int) * (h as int)) by (nonlinear_arith)
        requires
            fw <= w,
            fh <= h,
    ;
    let src = match out.layout {
        PixelLayout::Rgba => prefix_bytes(buf.as_slice(), out.size),
        PixelLayout::Rgb => {
            if buf.len() < fw * fh * 3 {
                return StepOutcome::Stop;
            }
            widen_rgb(buf.as_slice(), fw * fh)
        },
        _ => return StepOutcome::Go,
    };
    if src.len() < fw * fh * 4 {
        return StepOutcome::Stop;
    }
    let before: Option<Vec<u8>> = match fc.dispose {
        Dispose::Restore => Some(canvas.clone()),
        _ => None,
    };
    let ghost prev = canvas@;
    let paint = if fc.blend_over {
        Paint::Over
    } else {
        Paint::Source
    };
    paint_rect(canvas, w, h, src.as_slice(), fw, fh, xo, yo, paint);
    let delay_ms = frame_delay_ms(fc.delay_num, fc.delay_den);
    let rgba = if tw != full_w || th != full_h {
        proof {
            lemma_smaller_area(full_w as int, full_h as int, tw as int, th as int);
        }
        match resize_rgba(canvas.clone(), full_w, full_h, tw, th) {
            Some(v) => v,
            None => return StepOutcome::Fail,
        }
    } else {
        canvas.clone()
    };
    let f = RawFrame { rgba, width: tw as i32, height: th as i32, delay_ms };
    let ghost fv = frame_view(f);
    frames.push(f);
    assert(frame_views(frames@) =~= frame_views(f0).push(fv));
    if !animate {
        return StepOutcome::Stop;
    }
    match fc.dispose {
        Dispose::Keep => {},
        Dispose::Clear => {
            let empty: Vec<u8> = Vec::new();
            paint_rect(canvas, w, h, empty.as_slice(), fw, fh, xo, yo, Paint::Clear);
        },
        Dispose::Restore => {
            if let Some(p) = before {
                *canvas = p;
            }
        },
    }
    StepOutcome::Go
}

/// Image number `k` of the file `bytes` as the decoder takes it: the reader
/// reports a buffer size and hands the image over; its frame control is read
/// when the reported bytes fit the buffer.
pub open spec fn round_image(bytes: Seq<u8>, k: nat) -> Option<ReadImage> {
    match (png_round_buffer(bytes, k), png_round_image(bytes, k)) {
        (Some(size), Some(img)) => Some(
            ReadImage {
                out: img.0,
                buf: img.1,
                control: if img.0.size > img.1.len() { None } else { png_round_control(bytes, k) },
            },
        ),
        _ => None,
    }
}

/// The first `n` images of the file `bytes`.
pub open spec fn reader_trace(bytes: Seq<u8>, n: nat) -> Seq<ReadImage>
    decreases n,
{
    if n == 0 {
        Seq::empty()
    } else {
        reader_trace(bytes, (n - 1) as nat).push(
            match round_image(bytes, (n - 1) as nat) {
                Some(i) => i,
                None => arbitrary(),
            },
        )
    }
}

/// How many images the decoding of `bytes` reads, counting from `n`: it ends
/// at the read limit, where the reader has no image left, or once the run
/// has stopped or failed.
pub open spec fn images_read(
    bytes: Seq<u8>,
    s0: DecodeState,
    w: u32,
    h: u32,
    tw: u32,
    th: u32,
    animate: bool,
    limit: nat,
    n: nat,
) -> nat
    decreases limit - n,
{
    if n >= limit || round_image(bytes, n) is None || !(decode_run(reader_trace(bytes, n), s0, w, h, tw, th, animate) is Go) {
        n
    } else {
        images_read(bytes, s0, w, h, tw, th, animate, limit, n + 1)
    }
}

/// What decoding a file gives: the run over the images it reads.
pub open spec fn decode_file_spec(bytes: Seq<u8>, w: u32, h: u32, tw: u32, th: u32, animate: bool, limit: nat) -> StepEnd {
    let s0 = DecodeState { canvas: blank_canvas(w, h), frames: Seq::empty() };
    decode_run(reader_trace(bytes, images_read(bytes, s0, w, h, tw, th, animate, limit, 0)), s0, w, h, tw, th, animate)
}

/// Decodes the frames of `dec`, each composited onto the full canvas and then
/// scaled to `tw` x `th`: the result is what `decode_run` makes, from a blank
/// canvas, of the images the reader hands over, read one after the other
/// until the run stops or fails, the reader has none left, or
/// `read_limit(dec.frame_count)` of them were read. A file whose first image
/// is not part of the animation shows that image alone, for 100 ms. Without
/// `animate` only the first frame is kept and it plays once.
pub fn decode_frames(dec: ApngDecoder, tw: u32, th: u32, animate: bool) -> (r: Option<AnimFrames>)
    requires
        dec.wf(),
        1 <= tw <= dec.width,
        1 <= th <= dec.height,
    ensures
        match decode_result(
            decode_file_spec(dec.frames.source(), dec.width, dec.height, tw, th, animate, read_limit(dec.frame_count)),
            shown_plays(animate, dec.plays),
        ) {
            Some((fs, plays)) => r is Some && frame_views(r->0.frames@) == fs && r->0.plays == plays,
            None => r is None,
        },
        r matches Some(a) ==> {
            &&& a.frames@.len() >= 1
            &&& !animate ==> a.frames@.len() == 1
            &&& a.plays == shown_plays(animate, dec.plays)
            &&& frames_sized(a.frames@, tw, th)
        },
{
    let full_w = dec.width;
    let full_h = dec.height;
    let w = full_w as usize;
    let h = full_h as usize;
    assert(w <= MAX_CANVAS_PIXELS && h <= MAX_CANVAS_PIXELS) by (nonlinear_arith)
        requires
            1 <= w,
            1 <= h,
            (w as int) * (h as int) <= MAX_CANVAS_PIXELS,
    ;
    let mut reader = dec.frames;
    let mut canvas: Vec<u8> = vec![0u8; w * h * 4];
    assert(canvas@ =~= blank_canvas(full_w, full_h));
    let mut frames: Vec<RawFrame> = Vec::new();
    let limit: u64 = match dec.frame_count {
        Some(n) => n as u64 + 2,
        None => 2,
    };
    let ghost s0 = DecodeState { canvas: blank_canvas(full_w, full_h), frames: Seq::empty() };
    let ghost src = reader.source();
    let ghost lim = read_limit(dec.frame_count);
    let ghost mut trace: Seq<ReadImage> = Seq::empty();
    let mut calls: u64 = 0;
    let mut failed = false;
    assert(frame_views(frames@) =~= Seq::empty());
    while calls < limit
        invariant_except_break
            decode_run(trace, s0, full_w, full_h, tw, th, animate) == StepEnd::Go(
                DecodeState { canvas: canvas@, frames: frame_views(frames@) },
            ),
            !animate ==> frames@.len() == 0,
            !failed,
            reader.rounds() == calls as nat,
            !reader.stopped(),
            trace == reader_trace(src, calls as nat),
            images_read(src, s0, full_w, full_h, tw, th, animate, lim, 0) == images_read(
                src,
                s0,
                full_w,
                full_h,
                tw,
                th,
                animate,
                lim,
                calls as nat,
            ),
        invariant
            1 <= tw <= full_w,
            1 <= th <= full_h,
            w == full_w,
            h == full_h,
            (w as int) * (h as int) <= MAX_CANVAS_PIXELS,
            canvas@.len() == w * h * 4,
            frames_sized(frames@, tw, th),
            calls <= limit,
            limit == lim,
            lim == read_limit(dec.frame_count),
            reader.source() == src,
            s0 == (DecodeState { canvas: blank_canvas(full_w, full_h), frames: Seq::empty() }),
        ensures
            !animate ==> frames@.len() <= 1,
            failed ==> decode_run(trace, s0, full_w, full_h, tw, th, animate) == StepEnd::Fail,
            !failed ==> (decode_run(trace, s0, full_w, full_h, tw, th, animate) == StepEnd::Go(
                DecodeState { canvas: canvas@, frames: frame_views(frames@) },
            ) || decode_run(trace, s0, full_w, full_h, tw, th, animate) == StepEnd::Stop(
                DecodeState { canvas: canvas@, frames: frame_views(frames@) },
            )),
            trace == reader_trace(src, images_read(src, s0, full_w, full_h, tw, th, animate, lim, 0)),
        decreases limit - calls,
    {
        let ghost n = calls as nat;
        let size = match png_output_buffer_size(&reader) {
            Some(n) => n,
            None => {
                proof {
                    assert(round_image(src, n) is None);
                    assert(images_read(src, s0, full_w, full_h, tw, th, animate, lim, n) == n);
                }
                break;
            },
        };
        let mut buf: Vec<u8> = vec![0u8; size];
        assert(buf@ =~= Seq::new(buf@.len(), |i: int| 0u8));
        let out = match png_next_frame(&mut reader, &mut buf) {
            Some(o) => o,
            None => {
                proof {
                    assert(round_image(src, n) is None);
                    assert(images_read(src, s0, full_w, full_h, tw, th, animate, lim, n) == n);
                }
                break;
            },
        };
        let control = if out.size > buf.len() {
            None
        } else {
            png_frame_control(&reader)
        };
        let ghost prev_trace = trace;
        let ghost img = ReadImage { out, buf: buf@, control };
        proof {
            assert(round_image(src, n) == Some(img));
            trace = trace.push(img);
            assert(trace.drop_last() =~= prev_trace);
            assert(trace == reader_trace(src, n + 1));
            assert(images_read(src, s0, full_w, full_h, tw, th, animate, lim, n) == images_read(
                src,
                s0,
                full_w,
                full_h,
                tw,
                th,
                animate,
                lim,
                n + 1,
            ));
        }
        calls = calls + 1;
        let step = decode_step(&mut canvas, &mut frames, &out, &buf, control, full_w, full_h, tw, th, animate);
        match step {
            StepOutcome::Go => {},
            StepOutcome::Stop => {
                proof {
                    assert(images_read(src, s0, full_w, full_h, tw, th, animate, lim, n + 1) == n + 1);
                }
                break;
            },
            StepOutcome::Fail => {
                proof {
                    assert(images_read(src, s0, full_w, full_h, tw, th, animate, lim, n + 1) == n + 1);
                }
                failed = true;
                break;
            },
        }
    }
    if failed || frames.len() == 0 {
        return None;
    }
    let plays = if !animate || dec.plays == 1 {
        1
    } else {
        0
    };
    Some(AnimFrames { frames, plays })
}
} // verus!
