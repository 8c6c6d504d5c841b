//! Partitioning a serialized pixel stream into per-stream byte slabs of
//! complete `PX` lines.
//!
//! With `P` pixels and `N` streams, each of the first `N - 1` slabs takes
//! exactly `P / N` pixels (in emission order), and the last slab takes the
//! rest, remainder included.

use vstd::prelude::*;
use vstd::multiset::Multiset;

use crate::coordinate::Coordinate;
use crate::encode::encode_seq;
use crate::encode::lemma_encode_seq_concat;
use crate::encode::push_pixel_range;
use crate::encode::translatable;
use crate::encode::translate_seq;
use crate::encode::visible_pixels;
use crate::frame::Frame;
use crate::frame_serializer::row_seq;
use crate::pixel::Pixel;
use crate::pixel::translate_pixel;

verus! {

/// The index of the first pixel of slab `i`.
pub open spec fn slab_start(total: int, count: int, i: int) -> int {
    i * (total / count)
}

/// The index one past the last pixel of slab `i`: the last slab runs to
/// the end of the stream, taking the division remainder.
pub open spec fn slab_end(total: int, count: int, i: int) -> int {
    if i == count - 1 {
        total
    } else {
        (i + 1) * (total / count)
    }
}

/// The pixels of `pixels` that belong to slab `i` of `count`.
pub open spec fn slab_pixels(pixels: Seq<Pixel>, count: int, i: int) -> Seq<Pixel> {
    pixels.subrange(
        slab_start(pixels.len() as int, count, i),
        slab_end(pixels.len() as int, count, i),
    )
}

/// The byte content of slab `i` of `count`: the lines of its pixels, each
/// translated by `offset`.
pub open spec fn slab_seq(pixels: Seq<Pixel>, count: int, i: int, offset: Coordinate) -> Seq<u8> {
    encode_seq(slab_pixels(pixels, count, i), offset)
}

/// How the slab boundaries partition a stream of `total` pixels over
/// `count` slabs: boundaries are monotone and in range, every slab but the
/// last holds exactly `total / count` pixels, and the last holds the rest,
/// `total - (count - 1) * (total / count)` pixels.
pub proof fn lemma_slab_partition(total: int, count: int, i: int)
    requires
        0 <= total,
        0 < count,
        0 <= i < count,
    ensures
        0 <= slab_start(total, count, i) <= slab_end(total, count, i) <= total,
        i < count - 1 ==> slab_end(total, count, i) - slab_start(total, count, i) == total / count,
        i == count - 1 ==> slab_end(total, count, i) - slab_start(total, count, i) == total - (count
            - 1) * (total / count),
        i < count - 1 ==> slab_start(total, count, i + 1) == slab_end(total, count, i),
{
    let per = total / count;
    vstd::arithmetic::div_mod::lemma_div_pos_is_pos(total, count);
    vstd::arithmetic::div_mod::lemma_remainder_lower(total, count);
    assert(per * count == count * per) by (nonlinear_arith);
    vstd::arithmetic::mul::lemma_mul_inequality(i + 1, count, per);
    vstd::arithmetic::mul::lemma_mul_inequality(0, i, per);
    vstd::arithmetic::mul::lemma_mul_inequality(i, i + 1, per);
    assert((i + 1) * per == i * per + per) by (nonlinear_arith);
}

/// Splits the serialized pixels into `stream_count` byte slabs: slab `i`
/// holds exactly the lines of its share of the stream, in emission order,
/// each pixel translated by `position`. With no streams there are no
/// slabs.
pub fn build_slabs(pixels: &Vec<Pixel>, stream_count: usize, position: Coordinate) -> (r: Vec<
    Vec<u8>,
>)
    requires
        translatable(pixels@, position),
    ensures
        r@.len() == stream_count,
        forall|i: int|
            0 <= i < stream_count ==> (#[trigger] r@[i])@ == slab_seq(
                pixels@,
                stream_count as int,
                i,
                position,
            ),
{
    let mut slabs: Vec<Vec<u8>> = Vec::new();
    if stream_count == 0 {
        return slabs;
    }
    let total = pixels.len();
    let per = total / stream_count;
    let mut i: usize = 0;
    while i < stream_count
        invariant
            0 < stream_count,
            total == pixels@.len(),
            per == total as int / stream_count as int,
            i <= stream_count,
            translatable(pixels@, position),
            slabs@.len() == i,
            forall|k: int|
                0 <= k < i ==> (#[trigger] slabs@[k])@ == slab_seq(
                    pixels@,
                    stream_count as int,
                    k,
                    position,
                ),
        decreases stream_count - i,
    {
        proof {
            lemma_slab_partition(total as int, stream_count as int, i as int);
        }
        let from = i * per;
        let to = if i == stream_count - 1 {
            total
        } else {
            (i + 1) * per
        };
        let mut buf: Vec<u8> = Vec::new();
        push_pixel_range(&mut buf, pixels, from, to, position);
        slabs.push(buf);
        i = i + 1;
    }
    slabs
}

/// The content of every slab of the stream, in index order.
pub open spec fn all_slabs(pixels: Seq<Pixel>, count: int, offset: Coordinate) -> Seq<Seq<u8>> {
    Seq::new(count as nat, |i: int| slab_seq(pixels, count, i, offset))
}

/// The pixel index where the first `k` slabs of `count` end.
spec fn slab_boundary(total: int, count: int, k: int) -> int {
    if k == count {
        total
    } else {
        slab_start(total, count, k)
    }
}

/// The first `k` slabs, concatenated, hold the lines of the pixels before
/// the `k`-th slab boundary.
proof fn lemma_slabs_concat_upto(pixels: Seq<Pixel>, count: int, offset: Coordinate, k: int)
    requires
        0 < count,
        0 <= k <= count,
    ensures
        all_slabs(pixels, count, offset).take(k).flatten() == encode_seq(
            pixels.subrange(0, slab_boundary(pixels.len() as int, count, k)),
            offset,
        ),
    decreases k,
{
    let total = pixels.len() as int;
    if k == 0 {
        assert(all_slabs(pixels, count, offset).take(0) =~= Seq::<Seq<u8>>::empty());
        assert(Seq::<Seq<u8>>::empty().flatten() =~= Seq::<u8>::empty());
        assert(slab_boundary(total, count, 0) == 0);
        assert(pixels.subrange(0, 0) =~= Seq::<Pixel>::empty());
        assert(encode_seq(Seq::<Pixel>::empty(), offset) =~= Seq::<u8>::empty());
        assert(all_slabs(pixels, count, offset).take(k).flatten() =~= encode_seq(
            pixels.subrange(0, slab_boundary(total, count, k)),
            offset,
        ));
    } else {
        lemma_slabs_concat_upto(pixels, count, offset, k - 1);
        lemma_slab_partition(total, count, k - 1);
        let prefix = all_slabs(pixels, count, offset).take(k - 1);
        let elem = slab_seq(pixels, count, k - 1, offset);
        assert(all_slabs(pixels, count, offset).take(k) =~= prefix.push(elem));
        prefix.lemma_flatten_push(elem);
        let a = slab_boundary(total, count, k - 1);
        let b = slab_boundary(total, count, k);
        assert(slab_start(total, count, k - 1) == a);
        assert(slab_end(total, count, k - 1) == b);
        assert(pixels.subrange(0, a) + pixels.subrange(a, b) =~= pixels.subrange(0, b));
        lemma_encode_seq_concat(pixels.subrange(0, a), pixels.subrange(a, b), offset);
        assert(all_slabs(pixels, count, offset).take(k).flatten() =~= encode_seq(
            pixels.subrange(0, b),
            offset,
        ));
    }
}

/// Concatenating all slabs, in index order, yields exactly the encoding
/// of the whole pixel stream: every line lands in exactly one slab, in
/// emission order, and nothing else is ever emitted.
pub proof fn lemma_slabs_concat(pixels: Seq<Pixel>, count: int, offset: Coordinate)
    requires
        0 < count,
    ensures
        all_slabs(pixels, count, offset).flatten() == encode_seq(pixels, offset),
{
    lemma_slabs_concat_upto(pixels, count, offset, count);
    assert(all_slabs(pixels, count, offset).take(count) =~= all_slabs(pixels, count, offset));
    assert(pixels.subrange(0, pixels.len() as int) =~= pixels);
}

/// Moving the canvas offset before a re-emission shifts every slab's
/// lines by exactly the difference: each slab equals the one the
/// pre-shifted stream would produce at the old offset.
pub proof fn lemma_slab_offset_shift(
    pixels: Seq<Pixel>,
    count: int,
    i: int,
    offset: Coordinate,
    delta: Coordinate,
)
    requires
        0 < count,
        0 <= i < count,
        offset.x + delta.x <= usize::MAX,
        offset.y + delta.y <= usize::MAX,
        forall|k: int|
            0 <= k < pixels.len() ==> (#[trigger] pixels[k]).coordinate.x + delta.x + offset.x
                <= usize::MAX && pixels[k].coordinate.y + delta.y + offset.y <= usize::MAX,
    ensures
        slab_seq(
            pixels,
            count,
            i,
            (Coordinate { x: (offset.x + delta.x) as usize, y: (offset.y + delta.y) as usize }),
        ) == slab_seq(translate_seq(pixels, delta), count, i, offset),
{
    let total = pixels.len() as int;
    lemma_slab_partition(total, count, i);
    let a = slab_start(total, count, i);
    let b = slab_end(total, count, i);
    let sub = pixels.subrange(a, b);
    crate::encode::lemma_offset_shift(sub, offset, delta);
    assert(translate_seq(pixels, delta).len() == pixels.len());
    assert(translate_seq(pixels, delta).subrange(a, b) =~= translate_seq(sub, delta));
}

/// Sequences with equal multisets keep equal multisets under a common
/// element mapping.
pub proof fn lemma_map_values_multiset<A, B>(a: Seq<A>, b: Seq<A>, f: spec_fn(A) -> B)
    requires
        a.to_multiset() == b.to_multiset(),
    ensures
        a.map_values(f).to_multiset() == b.map_values(f).to_multiset(),
    decreases a.len(),
{
    broadcast use vstd::multiset::group_multiset_axioms;

    a.to_multiset_ensures();
    b.to_multiset_ensures();
    if a.len() == 0 {
        assert(b.len() == 0);
        assert(a.map_values(f) =~= Seq::<B>::empty());
        assert(b.map_values(f) =~= Seq::<B>::empty());
    } else {
        let l = a.last();
        let d = a.drop_last();
        assert(a =~= d.push(l));
        d.to_multiset_ensures();
        assert(a.to_multiset() =~= d.to_multiset().insert(l));
        assert(a.to_multiset().count(l) > 0);
        assert(b.to_multiset().count(l) > 0);
        assert(b.contains(l));
        let j = choose|j: int| 0 <= j < b.len() && b[j] == l;
        vstd::seq_lib::to_multiset_remove(b, j);
        assert(d.to_multiset() =~= a.to_multiset().remove(l));
        assert(d.to_multiset() == b.remove(j).to_multiset());
        lemma_map_values_multiset(d, b.remove(j), f);
        assert(a.map_values(f) =~= d.map_values(f).push(f(l)));
        d.map_values(f).to_multiset_ensures();
        assert(a.map_values(f).to_multiset() =~= d.map_values(f).to_multiset().insert(f(l)));
        assert(b.remove(j).map_values(f) =~= b.map_values(f).remove(j));
        vstd::seq_lib::to_multiset_remove(b.map_values(f), j);
        assert(b.map_values(f)[j] == f(l));
        b.map_values(f).to_multiset_ensures();
        assert(b.map_values(f).contains(f(l)));
        assert(b.map_values(f).to_multiset().count(f(l)) > 0);
        assert(a.map_values(f).to_multiset() =~= b.map_values(f).to_multiset());
    }
}

/// Sequences with equal multisets keep equal multisets under a common
/// filter.
pub proof fn lemma_filter_multiset<A>(a: Seq<A>, b: Seq<A>, pred: spec_fn(A) -> bool)
    requires
        a.to_multiset() == b.to_multiset(),
    ensures
        a.filter(pred).to_multiset() == b.filter(pred).to_multiset(),
    decreases a.len(),
{
    broadcast use vstd::multiset::group_multiset_axioms;

    reveal(Seq::filter);
    a.to_multiset_ensures();
    b.to_multiset_ensures();
    if a.len() == 0 {
        assert(b.len() == 0);
        assert(a.filter(pred) =~= Seq::<A>::empty());
        assert(b.filter(pred) =~= Seq::<A>::empty());
    } else {
        let l = a.last();
        let d = a.drop_last();
        assert(a =~= d.push(l));
        d.to_multiset_ensures();
        assert(a.to_multiset() =~= d.to_multiset().insert(l));
        assert(a.to_multiset().count(l) > 0);
        assert(b.to_multiset().count(l) > 0);
        assert(b.contains(l));
        let j = choose|j: int| 0 <= j < b.len() && b[j] == l;
        vstd::seq_lib::to_multiset_remove(b, j);
        assert(d.to_multiset() =~= a.to_multiset().remove(l));
        assert(d.to_multiset() == b.remove(j).to_multiset());
        lemma_filter_multiset(d, b.remove(j), pred);
        // Split b around index j and distribute the filter over the parts.
        let before = b.subrange(0, j);
        let at = b.subrange(j, j + 1);
        let after = b.subrange(j + 1, b.len() as int);
        assert(b =~= (before + at) + after);
        Seq::<A>::filter_distributes_over_add(before, at, pred);
        Seq::<A>::filter_distributes_over_add(before + at, after, pred);
        assert(b.remove(j) == before + after);
        Seq::<A>::filter_distributes_over_add(before, after, pred);
        assert(at =~= Seq::<A>::empty().push(l));
        assert(Seq::<A>::empty().filter(pred) =~= Seq::<A>::empty());
        vstd::seq_lib::lemma_multiset_commutative(before.filter(pred) + at.filter(pred), after.filter(pred));
        vstd::seq_lib::lemma_multiset_commutative(before.filter(pred), at.filter(pred));
        vstd::seq_lib::lemma_multiset_commutative(before.filter(pred), after.filter(pred));
        if pred(l) {
            assert(at.filter(pred) =~= Seq::<A>::empty().push(l));
            Seq::<A>::empty().to_multiset_ensures();
            assert(at.filter(pred).to_multiset() =~= Multiset::<A>::empty().insert(l));
            assert(a.filter(pred) =~= d.filter(pred).push(l));
            d.filter(pred).to_multiset_ensures();
            assert(a.filter(pred).to_multiset() =~= d.filter(pred).to_multiset().insert(l));
            assert(b.filter(pred).to_multiset() =~= b.remove(j).filter(pred).to_multiset().insert(
                l,
            ));
            assert(a.filter(pred).to_multiset() =~= b.filter(pred).to_multiset());
        } else {
            assert(at.drop_last() =~= Seq::<A>::empty());
            assert(at.last() == l);
            assert(at.filter(pred) =~= Seq::<A>::empty());
            assert(a.filter(pred) =~= d.filter(pred));
            assert(b.filter(pred).to_multiset() =~= b.remove(j).filter(pred).to_multiset());
            assert(a.filter(pred).to_multiset() =~= b.filter(pred).to_multiset());
        }
    }
}

/// The pixels a stream actually emits: each pixel translated by the
/// canvas offset, transparent ones left out.
pub open spec fn emitted_pixels(pixels: Seq<Pixel>, offset: Coordinate) -> Seq<Pixel> {
    visible_pixels(translate_seq(pixels, offset))
}

/// Serializations with the same pixels emit the same pixels: whatever
/// order a stream was drawn in, the multiset of translated visible pixels
/// it emits is fixed by the frame.
pub proof fn lemma_emitted_multiset(a: Seq<Pixel>, b: Seq<Pixel>, offset: Coordinate)
    requires
        a.to_multiset() == b.to_multiset(),
    ensures
        emitted_pixels(a, offset).to_multiset() == emitted_pixels(b, offset).to_multiset(),
{
    let f = |p: Pixel| translate_pixel(p, offset);
    let pred = |p: Pixel| p.color.a != 0;
    lemma_map_values_multiset(a, b, f);
    assert(translate_seq(a, offset) =~= a.map_values(f));
    assert(translate_seq(b, offset) =~= b.map_values(f));
    lemma_filter_multiset(translate_seq(a, offset), translate_seq(b, offset), pred);
    assert(emitted_pixels(a, offset).to_multiset() == translate_seq(a, offset).filter(
        pred,
    ).to_multiset()) by {
        assert(visible_pixels(translate_seq(a, offset)) =~= translate_seq(a, offset).filter(pred))
            by {
            lemma_filter_congruent(translate_seq(a, offset), pred);
        }
    }
    assert(emitted_pixels(b, offset).to_multiset() == translate_seq(b, offset).filter(
        pred,
    ).to_multiset()) by {
        assert(visible_pixels(translate_seq(b, offset)) =~= translate_seq(b, offset).filter(pred))
            by {
            lemma_filter_congruent(translate_seq(b, offset), pred);
        }
    }
}

/// Filtering with any predicate that agrees with visibility pointwise
/// gives the visible pixels.
proof fn lemma_filter_congruent(s: Seq<Pixel>, pred: spec_fn(Pixel) -> bool)
    requires
        forall|p: Pixel| #[trigger] pred(p) == (p.color.a != 0),
    ensures
        visible_pixels(s) == s.filter(pred),
    decreases s.len(),
{
    reveal(Seq::filter);
    if s.len() == 0 {
    } else {
        lemma_filter_congruent(s.drop_last(), pred);
    }
}

/// For any serialization of a frame, whatever its order: the
/// concatenated slabs are exactly the encoding of the stream, and the
/// stream emits exactly the frame's visible cells, translated by the
/// offset, each exactly once.
pub proof fn lemma_slabs_complete(f: Frame, pixels: Seq<Pixel>, count: int, offset: Coordinate)
    requires
        f.wf(),
        pixels.to_multiset() == row_seq(f).to_multiset(),
        0 < count,
    ensures
        all_slabs(pixels, count, offset).flatten() == encode_seq(pixels, offset),
        emitted_pixels(pixels, offset).to_multiset() == emitted_pixels(row_seq(f), offset).to_multiset(),
{
    lemma_slabs_concat(pixels, count, offset);
    lemma_emitted_multiset(pixels, row_seq(f), offset);
}

} // verus!
