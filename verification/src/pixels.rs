//! Pixel arithmetic of the indicator: 32-bit BGRA pixels with the alpha in
//! the top byte, colour channels pre-multiplied by alpha where the layered
//! window needs it.
use vstd::prelude::*;

verus! {

/// A pixel with alpha `a` and channels `r`, `g`, `b`, packed as
/// `UpdateLayeredWindow` reads it.
pub open spec fn pack_argb(a: u32, r: u32, g: u32, b: u32) -> u32 {
    (a << 24u32) | (r << 16u32) | (g << 8u32) | b
}

/// A pixel of colour `c` pre-multiplied by alpha `a`; a transparent pixel
/// is all zero.
pub open spec fn premultiplied_spec(c: [u8; 3], a: u32) -> u32 {
    if a == 0 {
        0
    } else {
        pack_argb(
            a,
            (c@[0] as u32 * a / 255) as u32,
            (c@[1] as u32 * a / 255) as u32,
            (c@[2] as u32 * a / 255) as u32,
        )
    }
}

/// A pixel of the circle shape: colour `c` pre-multiplied by the alpha `a`
/// that the pixel's coverage and the opacity give.
pub fn premultiplied_pixel(c: [u8; 3], a: u32) -> (p: u32)
    requires
        a <= 0x0101_0101,
    ensures
        p == premultiplied_spec(c, a),
{
    if a == 0 {
        0
    } else {
        assert(c[0] as u32 * a <= 255 * 0x0101_0101) by (nonlinear_arith)
            requires
                c[0] <= 255,
                a <= 0x0101_0101,
        ;
        assert(c[1] as u32 * a <= 255 * 0x0101_0101) by (nonlinear_arith)
            requires
                c[1] <= 255,
                a <= 0x0101_0101,
        ;
        assert(c[2] as u32 * a <= 255 * 0x0101_0101) by (nonlinear_arith)
            requires
                c[2] <= 255,
                a <= 0x0101_0101,
        ;
        let pr = c[0] as u32 * a / 255;
        let pg = c[1] as u32 * a / 255;
        let pb = c[2] as u32 * a / 255;
        (a << 24u32) | (pr << 16u32) | (pg << 8u32) | pb
    }
}

/// The alpha byte of a whole-window opacity: `opacity * 255 / 100`, cut to a
/// byte as `as u8` cuts it.
pub open spec fn opacity_alpha_spec(pct: u8) -> u8 {
    ((pct as int * 255 / 100) % 256) as u8
}

pub fn opacity_to_alpha(pct: u8) -> (a: u8)
    ensures
        a == opacity_alpha_spec(pct),
{
    let v: u32 = pct as u32 * 255 / 100;
    (v % 256) as u8
}

/// The alpha that a layered icon pixel keeps under an opacity in percent.
pub open spec fn scaled_alpha(src: u32, pct: u8) -> u32 {
    ((src >> 24u32) * (pct as u32 * 255 / 100) / 255) as u32
}

/// An icon pixel under an opacity: alpha scaled, channels pre-multiplied by
/// the new alpha.
pub open spec fn faded_pixel(src: u32, pct: u8) -> u32 {
    let a = scaled_alpha(src, pct);
    if a == 0 {
        0
    } else {
        pack_argb(
            a,
            (((src >> 16u32) & 0xFF) * a / 255) as u32,
            (((src >> 8u32) & 0xFF) * a / 255) as u32,
            ((src & 0xFF) * a / 255) as u32,
        )
    }
}

proof fn lemma_top_byte(src: u32)
    ensures
        src >> 24u32 <= 255,
        (src >> 16u32) & 0xFF <= 255,
        (src >> 8u32) & 0xFF <= 255,
        src & 0xFF <= 255,
{
    assert(src >> 24u32 <= 255) by (bit_vector);
    assert((src >> 16u32) & 0xFF <= 255) by (bit_vector);
    assert((src >> 8u32) & 0xFF <= 255) by (bit_vector);
    assert(src & 0xFF <= 255) by (bit_vector);
}

fn fade_pixel(src: u32, pct: u8) -> (p: u32)
    ensures
        p == faded_pixel(src, pct),
{
    proof {
        lemma_top_byte(src);
    }
    let global: u32 = pct as u32 * 255 / 100;
    assert(global <= 650);
    let a_raw = src >> 24u32;
    assert(a_raw * global <= 255 * 650) by (nonlinear_arith)
        requires
            a_raw <= 255,
            global <= 650,
    ;
    let a = a_raw * global / 255;
    assert(a <= 650);
    if a == 0 {
        0
    } else {
        let r = (src >> 16u32) & 0xFF;
        let g = (src >> 8u32) & 0xFF;
        let b = src & 0xFF;
        assert(r * a <= 255 * 650) by (nonlinear_arith)
            requires
                r <= 255,
                a <= 650,
        ;
        assert(g * a <= 255 * 650) by (nonlinear_arith)
            requires
                g <= 255,
                a <= 650,
        ;
        assert(b * a <= 255 * 650) by (nonlinear_arith)
            requires
                b <= 255,
                a <= 650,
        ;
        (a << 24u32) | ((r * a / 255) << 16u32) | ((g * a / 255) << 8u32) | (b * a / 255)
    }
}

/// The layered-window pixels of the coloured icon under an opacity in
/// percent.
pub fn fade_pixels(icon: &Vec<u32>, pct: u8) -> (out: Vec<u32>)
    ensures
        out@.len() == icon@.len(),
        forall|i: int| 0 <= i < icon@.len() ==> #[trigger] out@[i] == faded_pixel(icon@[i], pct),
{
    let mut out: Vec<u32> = Vec::new();
    let mut i: usize = 0;
    while i < icon.len()
        invariant
            i <= icon@.len(),
            out@.len() == i,
            forall|k: int| 0 <= k < i ==> #[trigger] out@[k] == faded_pixel(icon@[k], pct),
        decreases icon@.len() - i,
    {
        out.push(fade_pixel(icon[i], pct));
        i = i + 1;
    }
    out
}

// ---------------------------------------------------------------------
// Colouring the icon
// ---------------------------------------------------------------------

/// Bytes per row of a one-bit mask bitmap `size` pixels wide: rows are
/// padded to whole 32-bit words.
pub open spec fn mask_stride(size: int) -> int {
    ((size + 31) / 32) * 4
}

/// Whether any pixel of the colour bitmap carries alpha.
pub open spec fn has_alpha(px: Seq<u32>) -> bool {
    exists|i: int| 0 <= i < px.len() && (#[trigger] px[i] >> 24u32) != 0
}

/// The mask bit of pixel (`x`, `y`); the mask is stored bottom-up, the most
/// significant bit first.
pub open spec fn mask_bit(mask: Seq<u8>, size: int, x: int, y: int) -> u8 {
    (mask[(size - 1 - y) * mask_stride(size) + x / 8] >> ((7 - x % 8) as u8)) & 1u8
}

/// The alpha of pixel (`x`, `y`) of the icon: the colour bitmap's alpha
/// where it has any, else opaque where the mask bit is clear.
pub open spec fn icon_alpha(px: Seq<u32>, mask: Seq<u8>, size: int, x: int, y: int) -> u8 {
    if has_alpha(px) {
        (px[y * size + x] >> 24u32) as u8
    } else if mask_bit(mask, size, x, y) == 0 {
        255
    } else {
        0
    }
}

/// Pixel (`x`, `y`) of the icon drawn in colour `c`: the icon gives only the
/// shape, through its alpha.
pub open spec fn icon_pixel(px: Seq<u32>, mask: Seq<u8>, size: int, c: [u8; 3], x: int, y: int) -> u32 {
    let a = icon_alpha(px, mask, size, x, y);
    if a == 0 {
        0
    } else {
        pack_argb(a as u32, c@[0] as u32, c@[1] as u32, c@[2] as u32)
    }
}

/// The byte of the mask row buffer that holds the bit of pixel (`x`, `y`)
/// lies inside the buffer.
proof fn lemma_mask_index(size: int, x: int, y: int)
    requires
        0 <= x < size,
        0 <= y < size,
    ensures
        0 <= (size - 1 - y) * mask_stride(size) + x / 8 < size * mask_stride(size),
{
    let q = (size + 31) / 32;
    assert(32 * q >= size) by (nonlinear_arith)
        requires
            q == (size + 31) / 32,
            size >= 1,
    ;
    assert(x / 8 < 4 * q) by (nonlinear_arith)
        requires
            0 <= x < size,
            32 * q >= size,
    ;
    assert(0 <= (size - 1 - y) * (4 * q)) by (nonlinear_arith)
        requires
            0 <= y < size,
            q >= 0,
    ;
    assert((size - 1 - y) * (4 * q) + 4 * q <= size * (4 * q)) by (nonlinear_arith)
        requires
            0 <= y < size,
            q >= 0,
    ;
}

/// Bytes per row of the mask bitmap.
pub fn icon_mask_stride(size: usize) -> (s: usize)
    requires
        size <= 0x7fff_ffff,
    ensures
        s == mask_stride(size as int),
{
    ((size + 31) / 32) * 4
}

fn any_alpha(px: &Vec<u32>) -> (r: bool)
    ensures
        r == has_alpha(px@),
{
    let mut i: usize = 0;
    while i < px.len()
        invariant
            i <= px@.len(),
            forall|k: int| 0 <= k < i ==> (#[trigger] px@[k] >> 24u32) == 0,
        decreases px@.len() - i,
    {
        if (px[i] >> 24u32) != 0 {
            return true;
        }
        i = i + 1;
    }
    false
}

/// The icon's pixels drawn in colour `c`, from the colour bitmap `px` and
/// the mask bitmap `mask` that the icon's bitmaps were read into (rows of
/// `size` pixels).
pub fn colorize_icon_pixels(px: &Vec<u32>, mask: &Vec<u8>, size: usize, c: [u8; 3]) -> (out: Vec<
    u32,
>)
    requires
        size <= 0x7fff_ffff,
        px@.len() == size * size,
        mask@.len() == mask_stride(size as int) * size,
    ensures
        out@.len() == size * size,
        forall|y: int, x: int|
            0 <= y < size && 0 <= x < size ==> #[trigger] out@[y * size + x] == icon_pixel(
                px@,
                mask@,
                size as int,
                c,
                x,
                y,
            ),
{
    let alpha_in_color = any_alpha(px);
    let stride = icon_mask_stride(size);
    let n = px.len();
    let mlen = mask.len();
    let mut out: Vec<u32> = Vec::new();
    let mut i: usize = 0;
    while i < n
        invariant
            n == size * size,
            mlen == mask@.len(),
            size <= 0x7fff_ffff,
            px@.len() == n,
            mask@.len() == mask_stride(size as int) * size,
            stride == mask_stride(size as int),
            alpha_in_color == has_alpha(px@),
            i <= n,
            out@.len() == i,
            forall|k: int|
                0 <= k < i ==> #[trigger] out@[k] == icon_pixel(
                    px@,
                    mask@,
                    size as int,
                    c,
                    k % (size as int),
                    k / (size as int),
                ),
        decreases n - i,
    {
        assert(size > 0) by (nonlinear_arith)
            requires
                i < n,
                n == size * size,
        ;
        let y = i / size;
        let x = i % size;
        assert(y < size) by (nonlinear_arith)
            requires
                y == i / size,
                i < size * size,
                size > 0,
        ;
        let alpha: u8 = if alpha_in_color {
            (px[i] >> 24u32) as u8
        } else {
            proof {
                lemma_mask_index(size as int, x as int, y as int);
                assert(mask_stride(size as int) * size == size * mask_stride(size as int))
                    by (nonlinear_arith);
                assert((size - 1 - y) * stride + x / 8 < mlen);
            }
            let byte_idx = (size - 1 - y) * stride + x / 8;
            let bit_idx = (7 - x % 8) as u8;
            let masked = (mask[byte_idx] >> bit_idx) & 1u8;
            if masked == 0 {
                255
            } else {
                0
            }
        };
        assert(i as int == y * size + x) by (nonlinear_arith)
            requires
                y == i / size,
                x == i % size,
                size > 0,
        ;
        let p = if alpha == 0 {
            0
        } else {
            (alpha as u32) << 24u32 | (c[0] as u32) << 16u32 | (c[1] as u32) << 8u32 | c[2] as u32
        };
        out.push(p);
        i = i + 1;
    }
    assert forall|y: int, x: int| 0 <= y < size && 0 <= x < size implies #[trigger] out@[y * size
        + x] == icon_pixel(px@, mask@, size as int, c, x, y) by {
        let k = y * size + x;
        assert(0 <= k < size * size && k % (size as int) == x && k / (size as int) == y)
            by (nonlinear_arith)
            requires
                0 <= y < size,
                0 <= x < size,
                k == y * size + x,
        ;
    }
    out
}

// ---------------------------------------------------------------------
// Laws
// ---------------------------------------------------------------------

/// At 0 % opacity every layered pixel is transparent, whatever the icon.
pub proof fn lemma_zero_opacity_invisible(src: u32)
    ensures
        faded_pixel(src, 0) == 0,
{
}

/// At 100 % opacity a layered icon pixel keeps its alpha.
pub proof fn lemma_full_opacity_keeps_alpha(src: u32)
    ensures
        scaled_alpha(src, 100) == src >> 24u32,
{
    lemma_top_byte(src);
    let a = src >> 24u32;
    assert(a * 255 / 255 == a) by (nonlinear_arith);
}

/// The whole-window alpha of the square shape: 0 % is invisible, 100 % is
/// fully solid, and the alpha grows with the opacity up to 100 %.
pub proof fn lemma_window_alpha(p: u8, q: u8)
    ensures
        opacity_alpha_spec(0) == 0,
        opacity_alpha_spec(100) == 255,
        p <= q <= 100 ==> opacity_alpha_spec(p) <= opacity_alpha_spec(q),
{
    if p <= q && q <= 100 {
        assert(p as int * 255 / 100 <= q as int * 255 / 100) by (nonlinear_arith)
            requires
                p <= q,
        ;
        assert(q as int * 255 / 100 <= 255) by (nonlinear_arith)
            requires
                q <= 100,
        ;
    }
}

/// A coloured icon pixel is either transparent or carries the colour
/// unchanged: the icon lends only its shape.
pub proof fn lemma_icon_pixel_color(px: Seq<u32>, mask: Seq<u8>, size: int, c: [u8; 3], x: int, y: int)
    ensures
        ({
            let p = icon_pixel(px, mask, size, c, x, y);
            p == 0 || (((p >> 16u32) & 0xFF) == c@[0] && ((p >> 8u32) & 0xFF) == c@[1] && (p
                & 0xFF) == c@[2] && (p >> 24u32) == icon_alpha(px, mask, size, x, y))
        }),
{
    let a = icon_alpha(px, mask, size, x, y) as u32;
    let r = c@[0] as u32;
    let g = c@[1] as u32;
    let b = c@[2] as u32;
    if a != 0 {
        assert(a <= 255 && r <= 255 && g <= 255 && b <= 255);
        let p = (a << 24u32) | (r << 16u32) | (g << 8u32) | b;
        assert(((p >> 16u32) & 0xFF) == r && ((p >> 8u32) & 0xFF) == g && (p & 0xFF) == b && (p
            >> 24u32) == a) by (bit_vector)
            requires
                a <= 255,
                r <= 255,
                g <= 255,
                b <= 255,
                p == (a << 24u32) | (r << 16u32) | (g << 8u32) | b,
        ;
    }
}


/// Packing bytes and reading them back gives the bytes.
proof fn lemma_unpack(a: u32, r: u32, g: u32, b: u32)
    requires
        a <= 255,
        r <= 255,
        g <= 255,
        b <= 255,
    ensures
        pack_argb(a, r, g, b) >> 24u32 == a,
        (pack_argb(a, r, g, b) >> 16u32) & 0xFF == r,
        (pack_argb(a, r, g, b) >> 8u32) & 0xFF == g,
        pack_argb(a, r, g, b) & 0xFF == b,
{
    let p = pack_argb(a, r, g, b);
    assert(((p >> 16u32) & 0xFF) == r && ((p >> 8u32) & 0xFF) == g && (p & 0xFF) == b && (p
        >> 24u32) == a) by (bit_vector)
        requires
            a <= 255,
            r <= 255,
            g <= 255,
            b <= 255,
            p == (a << 24u32) | (r << 16u32) | (g << 8u32) | b,
    ;
}

proof fn lemma_zero_bytes()
    ensures
        0u32 >> 24u32 == 0,
        (0u32 >> 16u32) & 0xFF == 0,
        (0u32 >> 8u32) & 0xFF == 0,
        0u32 & 0xFF == 0,
{
    assert(0u32 >> 24u32 == 0 && (0u32 >> 16u32) & 0xFF == 0 && (0u32 >> 8u32) & 0xFF == 0 && 0u32
        & 0xFF == 0) by (bit_vector);
}

/// A channel scaled by an alpha never exceeds that alpha.
proof fn lemma_channel_scaled(ch: int, a: int)
    requires
        0 <= ch <= 255,
        0 <= a,
    ensures
        0 <= ch * a / 255 <= a,
{
    assert(0 <= ch * a / 255 <= a) by (nonlinear_arith)
        requires
            0 <= ch <= 255,
            0 <= a,
    ;
}

/// A faded icon pixel is pre-multiplied by its own final alpha. Up to 100 %
/// opacity, that alpha is the source alpha scaled by the window alpha of the
/// opacity (over 255), and each colour channel is the source channel times
/// that alpha over 255; so no channel exceeds the pixel's alpha.
pub proof fn lemma_fade_premultiplies(src: u32, pct: u8)
    requires
        pct <= 100,
    ensures
        ({
            let p = faded_pixel(src, pct);
            let a = (p >> 24u32) as int;
            &&& a == (src >> 24u32) as int * opacity_alpha_spec(pct) as int / 255
            &&& ((p >> 16u32) & 0xFF) as int == ((src >> 16u32) & 0xFF) as int * a / 255
            &&& ((p >> 8u32) & 0xFF) as int == ((src >> 8u32) & 0xFF) as int * a / 255
            &&& (p & 0xFF) as int == (src & 0xFF) as int * a / 255
            &&& ((p >> 16u32) & 0xFF) as int <= a
            &&& ((p >> 8u32) & 0xFF) as int <= a
            &&& (p & 0xFF) as int <= a
        }),
{
    lemma_top_byte(src);
    lemma_zero_bytes();
    let g = pct as int * 255 / 100;
    assert(0 <= g <= 255) by (nonlinear_arith)
        requires
            g == pct as int * 255 / 100,
            pct <= 100,
    ;
    assert(opacity_alpha_spec(pct) as int == g);
    let sa = (src >> 24u32) as int;
    let a0 = sa * g / 255;
    lemma_channel_scaled(sa, g);
    assert(a0 <= 255) by (nonlinear_arith)
        requires
            a0 == sa * g / 255,
            0 <= sa <= 255,
            0 <= g <= 255,
    ;
    assert(scaled_alpha(src, pct) as int == a0);
    let r = ((src >> 16u32) & 0xFF) as int;
    let gg = ((src >> 8u32) & 0xFF) as int;
    let b = (src & 0xFF) as int;
    lemma_channel_scaled(r, a0);
    lemma_channel_scaled(gg, a0);
    lemma_channel_scaled(b, a0);
    if a0 != 0 {
        lemma_unpack(a0 as u32, (r * a0 / 255) as u32, (gg * a0 / 255) as u32, (b * a0 / 255) as u32);
    }
}

/// A circle pixel of colour `c` at alpha `a` (up to 255) carries `a` as its
/// alpha byte and each colour channel pre-multiplied by it: channel times
/// `a` over 255, so no channel exceeds the alpha.
pub proof fn lemma_circle_pixel_premultiplied(c: [u8; 3], a: u32)
    requires
        a <= 255,
    ensures
        ({
            let p = premultiplied_spec(c, a);
            &&& p >> 24u32 == a
            &&& ((p >> 16u32) & 0xFF) as int == c@[0] as int * a as int / 255
            &&& ((p >> 8u32) & 0xFF) as int == c@[1] as int * a as int / 255
            &&& (p & 0xFF) as int == c@[2] as int * a as int / 255
            &&& ((p >> 16u32) & 0xFF) <= a
            &&& ((p >> 8u32) & 0xFF) <= a
            &&& (p & 0xFF) <= a
        }),
{
    lemma_zero_bytes();
    lemma_channel_scaled(c@[0] as int, a as int);
    lemma_channel_scaled(c@[1] as int, a as int);
    lemma_channel_scaled(c@[2] as int, a as int);
    if a != 0 {
        lemma_unpack(
            a,
            (c@[0] as u32 * a / 255) as u32,
            (c@[1] as u32 * a / 255) as u32,
            (c@[2] as u32 * a / 255) as u32,
        );
    }
}

/// The whole-window alpha of an opacity up to 100 % is the largest byte
/// whose share of 255 does not exceed the opacity's share of 100.
pub proof fn lemma_window_alpha_share(pct: u8)
    requires
        pct <= 100,
    ensures
        opacity_alpha_spec(pct) as int * 100 <= pct as int * 255 < (opacity_alpha_spec(pct) as int
            + 1) * 100,
{
    let g = pct as int * 255 / 100;
    assert(0 <= g <= 255) by (nonlinear_arith)
        requires
            g == pct as int * 255 / 100,
            pct <= 100,
    ;
    assert(g * 100 <= pct as int * 255 < (g + 1) * 100) by (nonlinear_arith)
        requires
            g == pct as int * 255 / 100,
    ;
}

} // verus!
