//! The buffer side of the renderer: which layouts a pixel buffer may have,
//! how an escape count becomes a grayscale intensity, and how a row-major
//! sequence of per-pixel shades is written into a one- or three-channel
//! buffer.
use vstd::prelude::*;

verus! {

/// How many bytes one pixel occupies in the output buffer: a single
/// grayscale channel, or the same value replicated across three channels.
#[derive(Clone, Copy, PartialEq, Eq, Structural, Debug)]
pub enum Channels {
    One,
    Three,
}

/// The grayscale value a pixel gets from its escape count: points that
/// never escape render black, points that escape after `c` steps render
/// `255 - c`.
pub open spec fn spec_intensity(escape: Option<u8>) -> u8 {
    match escape {
        Some(c) => (255 - c) as u8,
        None => 0,
    }
}

/// Turns the result of the escape-time evaluator into a grayscale value.
pub fn intensity(escape: Option<u8>) -> (r: u8)
    ensures
        r == spec_intensity(escape),
{
    match escape {
        Some(c) => 255 - c,
        None => 0,
    }
}

/// A buffer of this length holds one grayscale byte for each of
/// `width * height` pixels.
pub open spec fn is_gray_len(len: int, width: int, height: int) -> bool {
    len == width * height
}

/// A buffer of this length holds three bytes for each of `width * height`
/// pixels. A zero-pixel buffer counts as grayscale, never as three-channel.
pub open spec fn is_rgb_len(len: int, width: int, height: int) -> bool {
    len == 3 * width * height && len != width * height
}

/// Decides the channel layout of a buffer from its length alone, as the
/// renderer does: a length of exactly `width * height` is one channel,
/// exactly three times that is three channels, and anything else is no
/// valid layout at all.
pub fn buffer_layout(len: usize, width: usize, height: usize) -> (r: Option<Channels>)
    ensures
        r == Some(Channels::One) <==> is_gray_len(len as int, width as int, height as int),
        r == Some(Channels::Three) <==> is_rgb_len(len as int, width as int, height as int),
        r is None <==> (len != width * height && len != 3 * width * height),
{
    proof {
        let w = width as int;
        let h = height as int;
        assert(3 * w * h == (w * h) * 3) by (nonlinear_arith);
    }
    match width.checked_mul(height) {
        Some(wh) => {
            if len == wh {
                Some(Channels::One)
            } else {
                match wh.checked_mul(3) {
                    Some(t) => {
                        if len == t {
                            Some(Channels::Three)
                        } else {
                            None
                        }
                    },
                    None => None,
                }
            }
        },
        None => None,
    }
}

/// The whole buffer is a copy of the shades, one byte per pixel.
pub open spec fn gray_filled(pixels: Seq<u8>, shades: Seq<u8>) -> bool {
    pixels == shades
}

/// Every byte of the buffer is the shade of the pixel its slot belongs to:
/// slots `3*i`, `3*i + 1` and `3*i + 2` all hold shade `i`.
pub open spec fn rgb_filled(pixels: Seq<u8>, shades: Seq<u8>) -> bool {
    &&& pixels.len() == 3 * shades.len()
    &&& forall|j: int| 0 <= j < pixels.len() ==> pixels[j] == shades[j / 3]
}

/// What a finished buffer holds, for whichever of the two layouts its
/// length selects.
pub open spec fn spec_rendered(pixels: Seq<u8>, shades: Seq<u8>) -> bool {
    if pixels.len() == shades.len() {
        gray_filled(pixels, shades)
    } else {
        rgb_filled(pixels, shades)
    }
}

/// Writes the per-pixel shades into the buffer, row-major: a plain copy for
/// the one-channel layout, each shade replicated into three consecutive
/// slots for the three-channel layout. Every slot of the buffer is written,
/// and what it holds afterwards is a function of the shades alone.
pub fn render(pixels: &mut Vec<u8>, bounds: (usize, usize), shades: &Vec<u8>)
    requires
        shades@.len() == bounds.0 * bounds.1,
        old(pixels)@.len() == shades@.len() || old(pixels)@.len() == 3 * shades@.len(),
    ensures
        final(pixels)@.len() == old(pixels)@.len(),
        spec_rendered(final(pixels)@, shades@),
{
    let wh: usize = shades.len();
    if pixels.len() == wh {
        let mut i: usize = 0;
        while i < wh
            invariant
                i <= wh,
                pixels@.len() == wh,
                shades@.len() == wh,
                forall|j: int| 0 <= j < i ==> pixels@[j] == shades@[j],
            decreases wh - i,
        {
            pixels.set(i, shades[i]);
            i += 1;
        }
        assert(pixels@ =~= shades@);
    } else {
        let pl: usize = pixels.len();
        assert(pl == 3 * wh);
        let mut i: usize = 0;
        while i < wh
            invariant
                i <= wh,
                3 * (wh as int) <= usize::MAX,
                pixels@.len() == 3 * wh,
                shades@.len() == wh,
                forall|j: int| 0 <= j < 3 * i ==> pixels@[j] == shades@[j / 3],
            decreases wh - i,
        {
            let s: u8 = shades[i];
            pixels.set(3 * i, s);
            pixels.set(3 * i + 1, s);
            pixels.set(3 * i + 2, s);
            proof {
                let ii = i as int;
                assert((3 * ii) / 3 == ii && (3 * ii + 1) / 3 == ii && (3 * ii + 2) / 3 == ii)
                    by (nonlinear_arith)
                    requires
                        ii >= 0,
                ;
            }
            i += 1;
        }
    }
}

/// The fill is deterministic: two buffers of the same length filled from
/// the same shades are byte-for-byte identical, however the slots were
/// scheduled to be written.
pub proof fn lemma_render_deterministic(first: Seq<u8>, second: Seq<u8>, shades: Seq<u8>)
    requires
        first.len() == second.len(),
        spec_rendered(first, shades),
        spec_rendered(second, shades),
    ensures
        first == second,
{
    if first.len() == shades.len() {
        assert(first =~= second);
    } else {
        assert(first =~= second);
    }
}

} // verus!
