//! The textual wire form of pixels: `PX <x> <y> <hex-color>\n` lines,
//! with lowercase, zero-padded hex and a single trailing newline.

use vstd::prelude::*;

use crate::coordinate::Coordinate;
use crate::pixel::Color;
use crate::pixel::Pixel;
use crate::pixel::translate_pixel;

verus! {

/// The decimal digits of `n` as ASCII bytes, most significant first,
/// without leading zeros (a single `0` for zero).
pub open spec fn dec_digits(n: nat) -> Seq<u8>
    decreases n,
{
    if n < 10 {
        seq![(48 + n) as u8]
    } else {
        dec_digits(n / 10).push((48 + n % 10) as u8)
    }
}

/// The lowercase ASCII hex digit for a value below 16.
pub open spec fn hex_digit(d: u8) -> u8 {
    if d < 10 {
        (48 + d) as u8
    } else {
        (87 + d) as u8
    }
}

/// A byte as two lowercase hex digits, zero-padded.
pub open spec fn hex_byte(b: u8) -> Seq<u8> {
    seq![hex_digit(b / 16), hex_digit(b % 16)]
}

/// The hex form of a color: six digits `rrggbb` when fully opaque,
/// eight digits `rrggbbaa` otherwise.
pub open spec fn color_hex(c: Color) -> Seq<u8> {
    if c.a == 255 {
        hex_byte(c.r) + hex_byte(c.g) + hex_byte(c.b)
    } else {
        hex_byte(c.r) + hex_byte(c.g) + hex_byte(c.b) + hex_byte(c.a)
    }
}

/// The complete command line that paints `p`: empty when the pixel is
/// transparent, otherwise `PX <x> <y> <color>` and a newline.
pub open spec fn pixel_line(p: Pixel) -> Seq<u8> {
    if p.color.a == 0 {
        Seq::empty()
    } else {
        seq![80u8, 88u8, 32u8] + dec_digits(p.coordinate.x as nat) + seq![32u8] + dec_digits(
            p.coordinate.y as nat,
        ) + seq![32u8] + color_hex(p.color) + seq![10u8]
    }
}

/// A transparent pixel contributes no bytes at all to the wire.
pub proof fn lemma_transparent_line_empty(p: Pixel)
    requires
        p.color.a == 0,
    ensures
        pixel_line(p).len() == 0,
{
}

/// The concatenation of the wire lines of `pixels`, each first translated
/// by the canvas `offset`.
pub open spec fn encode_seq(pixels: Seq<Pixel>, offset: Coordinate) -> Seq<u8>
    decreases pixels.len(),
{
    if pixels.len() == 0 {
        Seq::empty()
    } else {
        pixel_line(translate_pixel(pixels[0], offset)) + encode_seq(pixels.drop_first(), offset)
    }
}

/// Appending a pixel to the sequence appends its line to the encoding.
pub proof fn lemma_encode_seq_push(pixels: Seq<Pixel>, p: Pixel, offset: Coordinate)
    ensures
        encode_seq(pixels.push(p), offset) == encode_seq(pixels, offset) + pixel_line(
            translate_pixel(p, offset),
        ),
    decreases pixels.len(),
{
    if pixels.len() == 0 {
        assert(pixels.push(p)[0] == p);
        assert(pixels.push(p).drop_first() =~= Seq::<Pixel>::empty());
        assert(encode_seq(Seq::<Pixel>::empty(), offset) =~= Seq::<u8>::empty());
        assert(encode_seq(pixels.push(p), offset) =~= pixel_line(translate_pixel(p, offset)));
        assert(encode_seq(pixels, offset) + pixel_line(translate_pixel(p, offset)) =~= pixel_line(
            translate_pixel(p, offset),
        ));
    } else {
        assert(pixels.push(p).drop_first() =~= pixels.drop_first().push(p));
        lemma_encode_seq_push(pixels.drop_first(), p, offset);
        assert(encode_seq(pixels.push(p), offset) =~= encode_seq(pixels, offset) + pixel_line(
            translate_pixel(p, offset),
        ));
    }
}

/// The encoding of a concatenation is the concatenation of the encodings.
pub proof fn lemma_encode_seq_concat(a: Seq<Pixel>, b: Seq<Pixel>, offset: Coordinate)
    ensures
        encode_seq(a + b, offset) == encode_seq(a, offset) + encode_seq(b, offset),
    decreases a.len(),
{
    if a.len() == 0 {
        assert(a + b =~= b);
        assert(encode_seq(a, offset) + encode_seq(b, offset) =~= encode_seq(b, offset));
    } else {
        assert((a + b).drop_first() =~= a.drop_first() + b);
        lemma_encode_seq_concat(a.drop_first(), b, offset);
        assert(encode_seq(a + b, offset) =~= encode_seq(a, offset) + encode_seq(b, offset));
    }
}

/// The pixels of `pixels` that are emitted at all: those with a nonzero
/// alpha channel.
pub open spec fn visible_pixels(pixels: Seq<Pixel>) -> Seq<Pixel> {
    pixels.filter(|p: Pixel| p.color.a != 0)
}

/// Every pixel of `pixels`, translated by `delta`.
pub open spec fn translate_seq(pixels: Seq<Pixel>, delta: Coordinate) -> Seq<Pixel> {
    pixels.map_values(|p: Pixel| translate_pixel(p, delta))
}

/// Transparent pixels contribute no bytes anywhere in the stream: the
/// encoding of a pixel sequence equals the encoding of its visible pixels
/// alone.
pub proof fn lemma_encode_skips_transparent(pixels: Seq<Pixel>, offset: Coordinate)
    ensures
        encode_seq(pixels, offset) == encode_seq(visible_pixels(pixels), offset),
    decreases pixels.len(),
{
    reveal(Seq::filter);
    if pixels.len() == 0 {
        assert(visible_pixels(pixels) =~= Seq::<Pixel>::empty());
    } else {
        let l = pixels.last();
        let d = pixels.drop_last();
        lemma_encode_skips_transparent(d, offset);
        assert(pixels =~= d.push(l));
        lemma_encode_seq_push(d, l, offset);
        if l.color.a != 0 {
            assert(visible_pixels(pixels) == visible_pixels(d).push(l));
            lemma_encode_seq_push(visible_pixels(d), l, offset);
            assert(encode_seq(pixels, offset) =~= encode_seq(visible_pixels(pixels), offset));
        } else {
            assert(visible_pixels(pixels) == visible_pixels(d));
            assert(pixel_line(translate_pixel(l, offset)) =~= Seq::<u8>::empty());
            assert(encode_seq(pixels, offset) =~= encode_seq(visible_pixels(pixels), offset));
        }
    }
}

/// Moving the canvas offset by `delta` before re-emitting shifts every
/// emitted coordinate by exactly `delta` and changes nothing else: the
/// bytes equal those of the stream whose pixels were each moved by
/// `delta`, emitted at the original offset.
pub proof fn lemma_offset_shift(pixels: Seq<Pixel>, offset: Coordinate, delta: Coordinate)
    requires
        offset.x + delta.x <= usize::MAX,
        offset.y + delta.y <= usize::MAX,
        forall|k: int|
            0 <= k < pixels.len() ==> (#[trigger] pixels[k]).coordinate.x + delta.x + offset.x
                <= usize::MAX && pixels[k].coordinate.y + delta.y + offset.y <= usize::MAX,
    ensures
        encode_seq(
            pixels,
            (Coordinate { x: (offset.x + delta.x) as usize, y: (offset.y + delta.y) as usize }),
        ) == encode_seq(translate_seq(pixels, delta), offset),
    decreases pixels.len(),
{
    let moved = Coordinate { x: (offset.x + delta.x) as usize, y: (offset.y + delta.y) as usize };
    if pixels.len() == 0 {
        assert(translate_seq(pixels, delta) =~= Seq::<Pixel>::empty());
    } else {
        let rest = pixels.drop_first();
        lemma_offset_shift(rest, offset, delta);
        assert(translate_seq(pixels, delta).drop_first() =~= translate_seq(rest, delta));
        assert(translate_pixel(pixels[0], moved) == translate_pixel(
            translate_pixel(pixels[0], delta),
            offset,
        ));
        assert(translate_seq(pixels, delta)[0] == translate_pixel(pixels[0], delta));
        assert(encode_seq(pixels, moved) =~= encode_seq(translate_seq(pixels, delta), offset));
    }
}

/// Whether every pixel of `pixels` can be translated by `offset` without
/// leaving the machine's coordinate range.
pub open spec fn translatable(pixels: Seq<Pixel>, offset: Coordinate) -> bool {
    forall|k: int|
        0 <= k < pixels.len() ==> (#[trigger] pixels[k]).coordinate.x + offset.x <= usize::MAX
            && pixels[k].coordinate.y + offset.y <= usize::MAX
}

impl Pixel {
    /// The bytes this pixel contributes to the wire: the empty buffer when
    /// transparent, one full `PX` line otherwise.
    pub fn encode(&self) -> (r: Vec<u8>)
        ensures
            r@ == pixel_line(*self),
    {
        let mut buf: Vec<u8> = Vec::new();
        push_pixel(&mut buf, self);
        buf
    }
}

/// The lowercase hex digit for `d`.
fn hex_digit_of(d: u8) -> (r: u8)
    requires
        d < 16,
    ensures
        r == hex_digit(d),
{
    if d < 10 {
        48 + d
    } else {
        87 + d
    }
}

/// Appends the two hex digits of `b` to `buf`.
pub fn push_hex_byte(buf: &mut Vec<u8>, b: u8)
    ensures
        final(buf)@ == old(buf)@ + hex_byte(b),
{
    buf.push(hex_digit_of(b / 16));
    buf.push(hex_digit_of(b % 16));
    proof {
        assert(buf@ =~= old(buf)@ + hex_byte(b));
    }
}

/// Appends the decimal digits of `n` to `buf`.
pub fn push_decimal(buf: &mut Vec<u8>, n: usize)
    ensures
        final(buf)@ == old(buf)@ + dec_digits(n as nat),
    decreases n,
{
    if n >= 10 {
        push_decimal(buf, n / 10);
    }
    buf.push(48 + (n % 10) as u8);
    proof {
        assert(buf@ =~= old(buf)@ + dec_digits(n as nat));
    }
}

/// Appends the wire line of `p` to `buf`; a transparent pixel appends
/// nothing.
pub fn push_pixel(buf: &mut Vec<u8>, p: &Pixel)
    ensures
        final(buf)@ == old(buf)@ + pixel_line(*p),
{
    if p.color.a == 0 {
        proof {
            assert(buf@ =~= old(buf)@ + pixel_line(*p));
        }
        return ;
    }
    buf.push(80);
    buf.push(88);
    buf.push(32);
    push_decimal(buf, p.coordinate.x);
    buf.push(32);
    push_decimal(buf, p.coordinate.y);
    buf.push(32);
    push_hex_byte(buf, p.color.r);
    push_hex_byte(buf, p.color.g);
    push_hex_byte(buf, p.color.b);
    if p.color.a != 255 {
        push_hex_byte(buf, p.color.a);
    }
    buf.push(10);
    proof {
        assert(buf@ =~= old(buf)@ + pixel_line(*p));
    }
}

/// Appends the lines of `pixels[from..to]`, each translated by `offset`.
pub fn push_pixel_range(
    buf: &mut Vec<u8>,
    pixels: &Vec<Pixel>,
    from: usize,
    to: usize,
    offset: Coordinate,
)
    requires
        from <= to <= pixels@.len(),
        translatable(pixels@, offset),
    ensures
        final(buf)@ == old(buf)@ + encode_seq(pixels@.subrange(from as int, to as int), offset),
{
    let mut i: usize = from;
    proof {
        assert(pixels@.subrange(from as int, from as int) =~= Seq::<Pixel>::empty());
        assert(buf@ =~= old(buf)@ + encode_seq(pixels@.subrange(from as int, from as int), offset));
    }
    while i < to
        invariant
            from <= i <= to <= pixels@.len(),
            translatable(pixels@, offset),
            buf@ == old(buf)@ + encode_seq(pixels@.subrange(from as int, i as int), offset),
        decreases to - i,
    {
        let p = pixels[i].translated(offset);
        push_pixel(buf, &p);
        proof {
            assert(pixels@.subrange(from as int, i + 1) =~= pixels@.subrange(
                from as int,
                i as int,
            ).push(pixels@[i as int]));
            lemma_encode_seq_push(pixels@.subrange(from as int, i as int), pixels@[i as int], offset);
            assert(buf@ =~= old(buf)@ + encode_seq(pixels@.subrange(from as int, i + 1), offset));
        }
        i = i + 1;
    }
}

} // verus!
