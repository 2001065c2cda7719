use vstd::prelude::*;

use crate::colors::color::{byte_at, lemma_bytes_of_word, word_of, Color};

verus! {

/// How one channel of a foreground pixel with the given alpha lands on a
/// background channel: a weighted mean with weights `alpha + 1` and
/// `256 - alpha`, rounded down.
pub open spec fn blend_channel(alpha: u8, fg: u8, bg: u8) -> u8 {
    (((alpha + 1) * fg + (256 - alpha) * bg) / 256) as u8
}

/// The pixel `v`, in X11 order, with its alpha replaced by `a`.
#[verifier::opaque]
pub open spec fn with_alpha(v: u32, a: u8) -> u32 {
    word_of(a, byte_at(v, 2), byte_at(v, 1), byte_at(v, 0))
}

/// The opaque pixel that shows where `fg` lies over `bg`, both in X11 order:
/// each colour channel blended by the alpha of `fg`.
#[verifier::opaque]
pub open spec fn blended(fg: u32, bg: u32) -> u32 {
    word_of(
        0xFF,
        blend_channel(byte_at(fg, 3), byte_at(fg, 2), byte_at(bg, 2)),
        blend_channel(byte_at(fg, 3), byte_at(fg, 1), byte_at(bg, 1)),
        blend_channel(byte_at(fg, 3), byte_at(fg, 0), byte_at(bg, 0)),
    )
}

/// The weighted mean of two bytes, with weights that sum to 257, fits a byte.
proof fn lemma_blend_fits(alpha: u8, fg: u8, bg: u8)
    ensures
        (alpha + 1) * fg + (256 - alpha) * bg <= 0xFFFF,
        ((alpha + 1) * fg + (256 - alpha) * bg) / 256 <= 0xFF,
{
    assert((alpha + 1) * fg + (256 - alpha) * bg <= 0xFFFF) by (nonlinear_arith)
        requires
            0 <= alpha <= 255,
            0 <= fg <= 255,
            0 <= bg <= 255,
    {
        assert((alpha + 1) * fg <= (alpha + 1) * 255);
        assert((256 - alpha) * bg <= (256 - alpha) * 255);
    }
}

/// Replaces the alpha byte of a pixel in X11 order (`0xAARRGGBB`).
pub fn set_alpha(v: u32, a: u8) -> (out: u32)
    ensures
        out == with_alpha(v, a),
        Color::of_argb(out) == Color::rgba(
            Color::of_argb(v).red(),
            Color::of_argb(v).green(),
            Color::of_argb(v).blue(),
            a,
        ),
{
    proof {
        lemma_bytes_of_word(a, byte_at(v, 2), byte_at(v, 1), byte_at(v, 0));
        Color::of_argb(v).lemma_channels(byte_at(v, 2), byte_at(v, 1), byte_at(v, 0), byte_at(v, 3));
    }
    let r: u32 = v >> (8 * 2) & 0xFF;
    let g: u32 = v >> (8 * 1) & 0xFF;
    let b: u32 = v >> (8 * 0) & 0xFF;
    let a32: u32 = a as u32;
    proof {
        reveal(with_alpha);
        assert((v >> 16u32) & 0xFF == (v / 0x1_0000) % 0x100) by (bit_vector);
        assert((v >> 8u32) & 0xFF == (v / 0x100) % 0x100) by (bit_vector);
        assert((v >> 0u32) & 0xFF == v % 0x100) by (bit_vector);
        assert(b | g << 8u32 | r << 16u32 | a32 << 24u32 == a32 * 0x100_0000 + r * 0x1_0000 + g
            * 0x100 + b) by (bit_vector)
            requires
                a32 < 0x100,
                r < 0x100,
                g < 0x100,
                b < 0x100,
        ;
    }
    b | g << 8 | r << 16 | a32 << 24
}

/// Turns `0xRRGGBBAA` into X11 order, `0xAARRGGBB`: the lowest byte moves to the top.
pub fn swap_alpha(v: u32) -> (out: u32)
    ensures
        out == word_of(byte_at(v, 0), byte_at(v, 3), byte_at(v, 2), byte_at(v, 1)),
        Color::of_argb(out) == Color::of_rgba(v),
{
    proof {
        lemma_bytes_of_word(byte_at(v, 0), byte_at(v, 3), byte_at(v, 2), byte_at(v, 1));
    }
    let a: u32 = v >> (8 * 0) & 0xFF;
    let value: u32 = v >> 8;
    proof {
        assert(((v >> 0u32) & 0xFF) == v % 0x100) by (bit_vector);
        assert((v >> 8u32) | ((v >> 0u32) & 0xFF) << 24u32 == (v % 0x100) * 0x100_0000 + ((v
            / 0x100_0000) % 0x100) * 0x1_0000 + ((v / 0x1_0000) % 0x100) * 0x100 + (v / 0x100)
            % 0x100) by (bit_vector);
    }
    value | a << 24
}

/// Whether a pixel in X11 order has alpha zero.
pub fn is_transparent(c: u32) -> (t: bool)
    ensures
        t == (byte_at(c, 3) == 0),
{
    proof {
        assert((c >> 24u32) & 0xFF == (c / 0x100_0000) % 0x100) by (bit_vector);
    }
    (c >> (8 * 3) & 0xFF) as u8 == 0
}

/// Lays `fg` over `bg`, both in X11 order, by the alpha of `fg`. The result is opaque.
pub fn alpha_blend(fg: u32, bg: u32) -> (out: u32)
    ensures
        out == blended(fg, bg),
{
    let fg_a: u32 = fg >> (8 * 3) & 0xFF;
    proof {
        reveal(blended);
        assert((fg >> 24u32) & 0xFF == (fg / 0x100_0000) % 0x100) by (bit_vector);
        assert((fg >> 16u32) & 0xFF == (fg / 0x1_0000) % 0x100) by (bit_vector);
        assert((fg >> 8u32) & 0xFF == (fg / 0x100) % 0x100) by (bit_vector);
        assert((fg >> 0u32) & 0xFF == fg % 0x100) by (bit_vector);
        assert((bg >> 16u32) & 0xFF == (bg / 0x1_0000) % 0x100) by (bit_vector);
        assert((bg >> 8u32) & 0xFF == (bg / 0x100) % 0x100) by (bit_vector);
        assert((bg >> 0u32) & 0xFF == bg % 0x100) by (bit_vector);
        lemma_blend_fits(byte_at(fg, 3), byte_at(fg, 2), byte_at(bg, 2));
        lemma_blend_fits(byte_at(fg, 3), byte_at(fg, 1), byte_at(bg, 1));
        lemma_blend_fits(byte_at(fg, 3), byte_at(fg, 0), byte_at(bg, 0));
    }
    let alpha: u32 = fg_a + 1;
    let inv_alpha: u32 = 256 - fg_a;

    let fg_r: u32 = fg >> (8 * 2) & 0xFF;
    let fg_g: u32 = fg >> (8 * 1) & 0xFF;
    let fg_b: u32 = fg >> (8 * 0) & 0xFF;

    let bg_r: u32 = bg >> (8 * 2) & 0xFF;
    let bg_g: u32 = bg >> (8 * 1) & 0xFF;
    let bg_b: u32 = bg >> (8 * 0) & 0xFF;

    let a: u32 = 0xFF;
    let sum_r: u32 = alpha * fg_r + inv_alpha * bg_r;
    let sum_g: u32 = alpha * fg_g + inv_alpha * bg_g;
    let sum_b: u32 = alpha * fg_b + inv_alpha * bg_b;
    let r: u32 = sum_r >> 8;
    let g: u32 = sum_g >> 8;
    let b: u32 = sum_b >> 8;
    proof {
        assert(sum_r >> 8u32 == sum_r / 256) by (bit_vector);
        assert(sum_g >> 8u32 == sum_g / 256) by (bit_vector);
        assert(sum_b >> 8u32 == sum_b / 256) by (bit_vector);
        assert(b | g << 8u32 | r << 16u32 | a << 24u32 == a * 0x100_0000 + r * 0x1_0000 + g
            * 0x100 + b) by (bit_vector)
            requires
                a < 0x100,
                r < 0x100,
                g < 0x100,
                b < 0x100,
        ;
    }
    b | g << 8 | r << 16 | a << 24
}

} // verus!
