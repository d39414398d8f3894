//! G-code preview: layers of typed extrusion segments and their binary
//! buffer (`WSPv`), plus the line-level reading of a G-code file for the
//! preview (comment tags and commands). Coordinates, widths, heights and
//! feed rates are carried as the IEEE-754 bit patterns of their `f32`
//! values; their numeric reading is done by the caller.
//!
//! Buffer layout (little-endian):
//! `"WSPv" | version u16 | from u32 | to u32 | segment_count u32` then, per
//! segment, `start 3×f32 | end 3×f32 | F f32 | w f32 | h f32 | kind u8 |
//! extruder u8 | layer u16`.

use vstd::prelude::*;

use crate::gcode::{kind_id_chars, spec_kind_id};
use crate::mesh::{le_bytes, push_u32, words_bytes};
use crate::text::{
    chars_of, copy_range, eq_lit, find_char, find_first, is_ws, lemma_find_first_bounds, lines, lines_of,
    parse_u64_max, parse_uint, string_of, strip_lit, strip_prefix, tokens, trim, trim_start,
    trimmed, trimmed_start, ws_tokens,
};

verus! {

/// Size of one segment record in a preview buffer.
pub const PREVIEW_RECORD_BYTES: u32 = 40;

/// Version of the preview buffer format.
pub const PREVIEW_VERSION: u16 = 1;

/// One extrusion segment (millimetres and mm/min as `f32` bit patterns).
#[derive(Debug, Clone, Copy, PartialEq, Eq)]
pub struct PreviewSegment {
    pub start: [u32; 3],
    pub end: [u32; 3],
    /// Extrusion role id.
    pub kind: u8,
    pub extruder: u8,
    pub feedrate: u32,
    pub width: u32,
    pub height: u32,
}

/// A layer: its height `z` (`f32` bit pattern) and its segments.
#[derive(Debug, Clone, PartialEq, Eq)]
pub struct PreviewLayer {
    pub z: u32,
    pub segments: Vec<PreviewSegment>,
}

/// Layers of a G-code file that carry extrusions.
#[derive(Debug, Clone, PartialEq, Eq)]
pub struct PreviewModel {
    pub layers: Vec<PreviewLayer>,
}

/// Little-endian bytes of a 16-bit value.
pub open spec fn le16(x: u16) -> Seq<u8> {
    seq![(x & 0xff) as u8, (x >> 8u16) as u8]
}

fn push_u16(out: &mut Vec<u8>, x: u16)
    ensures
        final(out)@ == old(out)@ + le16(x),
{
    out.push((x & 0xff) as u8);
    out.push((x >> 8u16) as u8);
    assert(final(out)@ =~= old(out)@ + le16(x));
}

/// The nine 32-bit words of a segment record.
pub open spec fn segment_words(s: PreviewSegment) -> Seq<u32> {
    seq![
        s.start@[0],
        s.start@[1],
        s.start@[2],
        s.end@[0],
        s.end@[1],
        s.end@[2],
        s.feedrate,
        s.width,
        s.height,
    ]
}

/// The record of a segment drawn on layer `layer`.
pub open spec fn segment_record(s: PreviewSegment, layer: u16) -> Seq<u8> {
    words_bytes(segment_words(s)) + seq![s.kind, s.extruder] + le16(layer)
}

/// Records of the first `n` segments of a layer.
pub open spec fn layer_records(segs: Seq<PreviewSegment>, layer: u16, n: int) -> Seq<u8>
    decreases n,
{
    if n <= 0 {
        Seq::empty()
    } else {
        layer_records(segs, layer, n - 1) + segment_record(segs[n - 1], layer)
    }
}

/// Records of layers `from ..= to - 1` ... written as layers `from .. upto`.
pub open spec fn range_records(layers: Seq<PreviewLayer>, from: int, upto: int) -> Seq<u8>
    decreases upto - from,
{
    if upto <= from {
        Seq::empty()
    } else {
        range_records(layers, from, upto - 1) + layer_records(
            layers[upto - 1].segments@,
            (upto - 1) as u16,
            layers[upto - 1].segments@.len() as int,
        )
    }
}

/// Number of segments of layers `from .. upto`.
pub open spec fn range_count(layers: Seq<PreviewLayer>, from: int, upto: int) -> int
    decreases upto - from,
{
    if upto <= from {
        0
    } else {
        range_count(layers, from, upto - 1) + layers[upto - 1].segments@.len()
    }
}

/// The layer range actually encoded for a request `from ..= to`: both
/// bounds clamped to the last layer, `to` at least `from`.
pub open spec fn clamp_range(len: int, from: int, to: int) -> (int, int) {
    let last = len - 1;
    let f = if from < last {
        from
    } else {
        last
    };
    let t0 = if to < last {
        to
    } else {
        last
    };
    let t = if t0 < f {
        f
    } else {
        t0
    };
    (f, t)
}

/// Magic and version of a preview buffer.
pub open spec fn preview_header() -> Seq<u8> {
    seq![87u8, 83u8, 80u8, 118u8] + le16(1)
}

/// The buffer of layers `from ..= to` (clamped); an empty model gives a
/// header with zero range and count.
pub open spec fn spec_encode_range(layers: Seq<PreviewLayer>, from: int, to: int) -> Seq<u8> {
    if layers.len() == 0 {
        preview_header() + le_bytes(0) + le_bytes(0) + le_bytes(0)
    } else {
        let (f, t) = clamp_range(layers.len() as int, from, to);
        preview_header() + le_bytes(f as u32) + le_bytes(t as u32) + le_bytes(
            range_count(layers, f, t + 1) as u32,
        ) + range_records(layers, f, t + 1)
    }
}

/// The encoded range holds fewer than 2^32 segments (its count is a `u32`).
pub open spec fn range_fits(layers: Seq<PreviewLayer>, from: int, to: int) -> bool {
    layers.len() == 0 || {
        let (f, t) = clamp_range(layers.len() as int, from, to);
        range_count(layers, f, t + 1) <= u32::MAX
    }
}

proof fn lemma_range_count_mono(layers: Seq<PreviewLayer>, from: int, a: int, b: int)
    requires
        from <= a <= b,
    ensures
        range_count(layers, from, a) <= range_count(layers, from, b),
    decreases b - a,
{
    if a < b {
        lemma_range_count_mono(layers, from, a, b - 1);
    }
}

proof fn lemma_layer_records_len(segs: Seq<PreviewSegment>, layer: u16, n: int)
    requires
        0 <= n,
    ensures
        layer_records(segs, layer, n).len() == 40 * n,
    decreases n,
{
    if n > 0 {
        lemma_layer_records_len(segs, layer, n - 1);
    }
}

proof fn lemma_range_records_len(layers: Seq<PreviewLayer>, from: int, upto: int)
    ensures
        range_records(layers, from, upto).len() == 40 * range_count(layers, from, upto),
    decreases upto - from,
{
    if upto > from {
        lemma_range_records_len(layers, from, upto - 1);
        lemma_layer_records_len(
            layers[upto - 1].segments@,
            (upto - 1) as u16,
            layers[upto - 1].segments@.len() as int,
        );
    }
}

/// A preview buffer is its 18-byte header followed by one 40-byte record
/// per segment it counts.
pub proof fn law_encode_range_size(layers: Seq<PreviewLayer>, from: int, to: int)
    requires
        range_fits(layers, from, to),
    ensures
        layers.len() == 0 ==> spec_encode_range(layers, from, to).len() == 18,
        layers.len() > 0 ==> ({
            let (f, t) = clamp_range(layers.len() as int, from, to);
            spec_encode_range(layers, from, to).len() == 18 + PREVIEW_RECORD_BYTES * range_count(
                layers,
                f,
                t + 1,
            )
        }),
{
    if layers.len() > 0 {
        let (f, t) = clamp_range(layers.len() as int, from, to);
        lemma_range_records_len(layers, f, t + 1);
    }
}

proof fn lemma_segment_record_len(s: PreviewSegment, layer: u16)
    ensures
        segment_record(s, layer).len() == 40,
{
    lemma_layer_records_len(seq![s], layer, 1);
    assert(layer_records(seq![s], layer, 1) =~= segment_record(s, layer));
}

proof fn lemma_layer_record_at(segs: Seq<PreviewSegment>, layer: u16, n: int, j: int)
    requires
        0 <= j < n,
    ensures
        layer_records(segs, layer, n).subrange(40 * j, 40 * j + 40) == segment_record(segs[j], layer),
    decreases n,
{
    let prev = layer_records(segs, layer, n - 1);
    lemma_layer_records_len(segs, layer, n - 1);
    lemma_segment_record_len(segs[n - 1], layer);
    if j < n - 1 {
        lemma_layer_record_at(segs, layer, n - 1, j);
        assert(layer_records(segs, layer, n).subrange(40 * j, 40 * j + 40) =~= prev.subrange(
            40 * j,
            40 * j + 40,
        ));
    } else {
        assert(layer_records(segs, layer, n).subrange(40 * j, 40 * j + 40) =~= segment_record(
            segs[j],
            layer,
        ));
    }
}

proof fn lemma_range_record_at(layers: Seq<PreviewLayer>, from: int, upto: int, i: int, j: int)
    requires
        from <= i < upto,
        0 <= j < layers[i].segments@.len(),
    ensures
        range_records(layers, from, upto).subrange(
            40 * (range_count(layers, from, i) + j),
            40 * (range_count(layers, from, i) + j) + 40,
        ) == segment_record(layers[i].segments@[j], i as u16),
    decreases upto - from,
{
    let prev = range_records(layers, from, upto - 1);
    let last = layer_records(
        layers[upto - 1].segments@,
        (upto - 1) as u16,
        layers[upto - 1].segments@.len() as int,
    );
    lemma_range_records_len(layers, from, upto - 1);
    lemma_layer_records_len(
        layers[upto - 1].segments@,
        (upto - 1) as u16,
        layers[upto - 1].segments@.len() as int,
    );
    assert(range_records(layers, from, upto) == prev + last);
    let p = 40 * (range_count(layers, from, i) + j);
    if i == upto - 1 {
        assert(prev.len() == 40 * range_count(layers, from, i));
        assert(p == prev.len() + 40 * j);
        assert(40 * j + 40 <= last.len());
        lemma_layer_record_at(layers[i].segments@, i as u16, layers[i].segments@.len() as int, j);
        assert(range_records(layers, from, upto).subrange(p, p + 40) =~= last.subrange(
            40 * j,
            40 * j + 40,
        ));
    } else {
        lemma_range_record_at(layers, from, upto - 1, i, j);
        lemma_range_count_mono(layers, from, i + 1, upto - 1);
        assert(range_count(layers, from, i + 1) == range_count(layers, from, i)
            + layers[i].segments@.len());
        assert(p + 40 <= prev.len());
        lemma_range_count_mono(layers, from, from, i);
        assert(p >= 0);
        assert(range_records(layers, from, upto).subrange(p, p + 40) =~= prev.subrange(p, p + 40));
    }
}

/// Every segment of the encoded layers is written as its own record, tagged
/// with the absolute index of its layer in the model (truncated to 16
/// bits), whatever the first layer of the range: the record of segment `j`
/// of layer `i` stands after the header and the records of the earlier
/// segments of the range.
pub proof fn law_records_carry_absolute_layer(
    layers: Seq<PreviewLayer>,
    from: int,
    to: int,
    i: int,
    j: int,
)
    requires
        layers.len() > 0,
        clamp_range(layers.len() as int, from, to).0 <= i <= clamp_range(
            layers.len() as int,
            from,
            to,
        ).1,
        0 <= j < layers[i].segments@.len(),
    ensures
        ({
            let f = clamp_range(layers.len() as int, from, to).0;
            let p = 18 + 40 * (range_count(layers, f, i) + j);
            &&& spec_encode_range(layers, from, to).subrange(p, p + 40) == segment_record(
                layers[i].segments@[j],
                i as u16,
            )
            &&& spec_encode_range(layers, from, to).subrange(p + 38, p + 40) == le16(i as u16)
        }),
{
    let (f, t) = clamp_range(layers.len() as int, from, to);
    let head = preview_header() + le_bytes(f as u32) + le_bytes(t as u32) + le_bytes(
        range_count(layers, f, t + 1) as u32,
    );
    let recs = range_records(layers, f, t + 1);
    assert(head.len() == 18);
    let p = 18 + 40 * (range_count(layers, f, i) + j);
    lemma_range_record_at(layers, f, t + 1, i, j);
    lemma_range_count_mono(layers, f, i + 1, t + 1);
    assert(range_count(layers, f, i + 1) == range_count(layers, f, i) + layers[i].segments@.len());
    lemma_range_records_len(layers, f, t + 1);
    assert(spec_encode_range(layers, from, to) == head + recs);
    assert(recs.len() == 40 * range_count(layers, f, t + 1));
    assert(p + 40 <= 18 + recs.len());
    lemma_range_count_mono(layers, f, f, i);
    assert(p >= 18);
    assert(recs.subrange(p - 18, p - 18 + 40) == segment_record(layers[i].segments@[j], i as u16));
    assert((head + recs).subrange(p, p + 40) =~= recs.subrange(p - 18, p - 18 + 40));
    let rec = segment_record(layers[i].segments@[j], i as u16);
    lemma_segment_record_len(layers[i].segments@[j], i as u16);
    assert(rec.subrange(38, 40) =~= le16(i as u16)) by {
        assert(words_bytes(segment_words(layers[i].segments@[j])).len() == 36) by {
            lemma_segment_record_len(layers[i].segments@[j], i as u16);
        }
    }
    assert((head + recs).subrange(p + 38, p + 40) =~= rec.subrange(38, 40));
}

fn push_segment(out: &mut Vec<u8>, s: &PreviewSegment, layer: u16)
    ensures
        final(out)@ == old(out)@ + segment_record(*s, layer),
{
    let ghost start = old(out)@;
    push_u32(out, s.start[0]);
    push_u32(out, s.start[1]);
    push_u32(out, s.start[2]);
    push_u32(out, s.end[0]);
    push_u32(out, s.end[1]);
    push_u32(out, s.end[2]);
    push_u32(out, s.feedrate);
    push_u32(out, s.width);
    push_u32(out, s.height);
    out.push(s.kind);
    out.push(s.extruder);
    push_u16(out, layer);
    proof {
        let w = segment_words(*s);
        let wb = words_bytes(w);
        assert forall|k: int| 0 <= k < 36 implies #[trigger] wb[k] == out@[start.len() + k] by {
            assert(wb[k] == crate::mesh::word_byte(w[k / 4], k % 4));
        }
        assert(out@ =~= start + segment_record(*s, layer));
    }
}

/// Mathematical value of a sequence of layers: height and segments.
pub open spec fn layers_view(ls: Seq<PreviewLayer>) -> Seq<(u32, Seq<PreviewSegment>)> {
    Seq::new(ls.len(), |i: int| (ls[i].z, ls[i].segments@))
}

/// The layers that carry at least one segment, in order.
pub open spec fn drawn_layers(layers: Seq<(u32, Seq<PreviewSegment>)>) -> Seq<(u32, Seq<PreviewSegment>)>
    decreases layers.len(),
{
    if layers.len() == 0 {
        Seq::empty()
    } else if layers.last().1.len() == 0 {
        drawn_layers(layers.drop_last())
    } else {
        drawn_layers(layers.drop_last()).push(layers.last())
    }
}

fn copy_layer(l: &PreviewLayer) -> (r: PreviewLayer)
    ensures
        r.z == l.z,
        r.segments@ == l.segments@,
{
    let mut segs: Vec<PreviewSegment> = Vec::new();
    let mut j: usize = 0;
    while j < l.segments.len()
        invariant
            j <= l.segments@.len(),
            segs@ == l.segments@.take(j as int),
        decreases l.segments.len() - j,
    {
        segs.push(l.segments[j]);
        j = j + 1;
        assert(segs@ =~= l.segments@.take(j as int));
    }
    assert(segs@ =~= l.segments@);
    PreviewLayer { z: l.z, segments: segs }
}

impl PreviewModel {
    /// The model of a parsed file: layers without extrusion (priming,
    /// travel-only hops) are not drawn and are dropped.
    pub fn from_layers(layers: &Vec<PreviewLayer>) -> (r: Self)
        ensures
            layers_view(r.layers@) == drawn_layers(layers_view(layers@)),
    {
        let ghost lv = layers_view(layers@);
        let mut kept: Vec<PreviewLayer> = Vec::new();
        let mut i: usize = 0;
        while i < layers.len()
            invariant
                i <= layers@.len(),
                lv == layers_view(layers@),
                layers_view(kept@) == drawn_layers(lv.take(i as int)),
            decreases layers.len() - i,
        {
            assert(lv.take(i + 1).drop_last() =~= lv.take(i as int));
            assert(lv.take(i + 1).last() == (layers@[i as int].z, layers@[i as int].segments@));
            if layers[i].segments.len() > 0 {
                let ghost before = kept@;
                let c = copy_layer(&layers[i]);
                kept.push(c);
                assert(layers_view(kept@) =~= layers_view(before).push((c.z, c.segments@)));
            }
            i = i + 1;
        }
        assert(lv.take(layers.len() as int) =~= lv);
        PreviewModel { layers: kept }
    }
}

impl PreviewModel {
    /// Number of layers.
    pub fn layer_count(&self) -> (r: usize)
        ensures
            r == self.layers@.len(),
    {
        self.layers.len()
    }

    /// Encodes the segments of layers `from ..= to` (clamped to the
    /// existing layers) into a preview buffer.
    pub fn encode_range(&self, from: usize, to: usize) -> (r: Vec<u8>)
        requires
            range_fits(self.layers@, from as int, to as int),
        ensures
            r@ == spec_encode_range(self.layers@, from as int, to as int),
    {
        let mut out: Vec<u8> = Vec::new();
        out.push(87u8);
        out.push(83u8);
        out.push(80u8);
        out.push(118u8);
        push_u16(&mut out, PREVIEW_VERSION);
        assert(out@ =~= preview_header());
        if self.layers.len() == 0 {
            push_u32(&mut out, 0);
            push_u32(&mut out, 0);
            push_u32(&mut out, 0);
            return out;
        }
        let last = self.layers.len() - 1;
        let f = if from < last {
            from
        } else {
            last
        };
        let t0 = if to < last {
            to
        } else {
            last
        };
        let t = if t0 < f {
            f
        } else {
            t0
        };
        let ghost ls = self.layers@;
        assert((f as int, t as int) == clamp_range(ls.len() as int, from as int, to as int));
        let mut count: u32 = 0;
        let mut i: usize = f;
        while i <= t
            invariant
                ls == self.layers@,
                f <= i <= t + 1,
                t < self.layers.len(),
                count == range_count(ls, f as int, i as int),
                range_count(ls, f as int, t + 1) <= u32::MAX,
            decreases t + 1 - i,
        {
            proof {
                lemma_range_count_mono(ls, f as int, i + 1, t + 1);
            }
            count = count + self.layers[i].segments.len() as u32;
            i = i + 1;
        }
        push_u32(&mut out, f as u32);
        push_u32(&mut out, t as u32);
        push_u32(&mut out, count);
        let ghost head = out@;
        let mut i: usize = f;
        while i <= t
            invariant
                ls == self.layers@,
                f <= i <= t + 1,
                t < self.layers.len(),
                out@ == head + range_records(ls, f as int, i as int),
            decreases t + 1 - i,
        {
            let layer = &self.layers[i];
            let index = i as u16;
            let ghost before = out@;
            let mut j: usize = 0;
            while j < layer.segments.len()
                invariant
                    j <= layer.segments@.len(),
                    out@ == before + layer_records(layer.segments@, index, j as int),
                decreases layer.segments.len() - j,
            {
                push_segment(&mut out, &layer.segments[j], index);
                j = j + 1;
            }
            i = i + 1;
        }
        out
    }
}

/// Integer part of the preview metadata: layer and segment counts, and
/// the extrusion roles and extruders present (ascending, no repeat).
#[derive(Debug, Clone, PartialEq, Eq)]
pub struct PreviewCounts {
    pub layer_count: u32,
    pub layer_segment_counts: Vec<u32>,
    pub kinds_present: Vec<u8>,
    pub extruders_present: Vec<u8>,
}

/// Some segment of `layers` has role `k`.
pub open spec fn kind_present(layers: Seq<PreviewLayer>, k: int) -> bool {
    exists|i: int, j: int|
        0 <= i < layers.len() && 0 <= j < layers[i].segments@.len()
            && #[trigger] layers[i].segments@[j].kind == k
}

/// Some segment of `layers` is drawn by extruder `e`.
pub open spec fn extruder_present(layers: Seq<PreviewLayer>, e: int) -> bool {
    exists|i: int, j: int|
        0 <= i < layers.len() && 0 <= j < layers[i].segments@.len()
            && #[trigger] layers[i].segments@[j].extruder == e
}

/// The values `v < n` whose flag is set, ascending.
pub open spec fn flagged_upto(flags: Seq<bool>, n: int) -> Seq<u8>
    decreases n,
{
    if n <= 0 {
        Seq::empty()
    } else if flags[n - 1] {
        flagged_upto(flags, n - 1).push((n - 1) as u8)
    } else {
        flagged_upto(flags, n - 1)
    }
}

/// Presence flags of the 256 roles.
pub open spec fn kind_flags(layers: Seq<PreviewLayer>) -> Seq<bool> {
    Seq::new(256, |k: int| kind_present(layers, k))
}

/// Presence flags of the 256 extruders.
pub open spec fn extruder_flags(layers: Seq<PreviewLayer>) -> Seq<bool> {
    Seq::new(256, |e: int| extruder_present(layers, e))
}

fn collect_flagged(flags: &[bool; 256]) -> (r: Vec<u8>)
    ensures
        r@ == flagged_upto(flags@, 256),
{
    let mut r: Vec<u8> = Vec::new();
    let mut k: usize = 0;
    while k < 256
        invariant
            k <= 256,
            r@ == flagged_upto(flags@, k as int),
        decreases 256 - k,
    {
        if flags[k] {
            r.push(k as u8);
        }
        k = k + 1;
    }
    r
}

impl PreviewModel {
    /// Counts of the preview metadata: number of layers, segments per
    /// layer (as `u32`), and the roles and extruders present.
    pub fn counts(&self) -> (r: PreviewCounts)
        ensures
            r.layer_count == self.layers@.len() as u32,
            r.layer_segment_counts@ == Seq::new(
                self.layers@.len(),
                |i: int| self.layers@[i].segments@.len() as u32,
            ),
            r.kinds_present@ == flagged_upto(kind_flags(self.layers@), 256),
            r.extruders_present@ == flagged_upto(extruder_flags(self.layers@), 256),
    {
        let ghost ls = self.layers@;
        let mut kinds: [bool; 256] = [false; 256];
        let mut extruders: [bool; 256] = [false; 256];
        let mut seg_counts: Vec<u32> = Vec::new();
        let mut i: usize = 0;
        while i < self.layers.len()
            invariant
                ls == self.layers@,
                i <= ls.len(),
                seg_counts@ == Seq::new(i as nat, |x: int| ls[x].segments@.len() as u32),
                forall|k: int|
                    0 <= k < 256 ==> #[trigger] kinds@[k] == exists|a: int, b: int|
                        0 <= a < i && 0 <= b < ls[a].segments@.len()
                            && #[trigger] ls[a].segments@[b].kind == k,
                forall|e: int|
                    0 <= e < 256 ==> #[trigger] extruders@[e] == exists|a: int, b: int|
                        0 <= a < i && 0 <= b < ls[a].segments@.len()
                            && #[trigger] ls[a].segments@[b].extruder == e,
            decreases ls.len() - i,
        {
            let segs = &self.layers[i].segments;
            let ghost kinds_before = kinds@;
            let ghost extruders_before = extruders@;
            let mut j: usize = 0;
            while j < segs.len()
                invariant
                    ls == self.layers@,
                    i < ls.len(),
                    segs@ == ls[i as int].segments@,
                    j <= segs@.len(),
                    forall|k: int|
                        0 <= k < 256 ==> #[trigger] kinds@[k] == (kinds_before[k] || exists|b: int|
                            0 <= b < j && #[trigger] segs@[b].kind == k),
                    forall|e: int|
                        0 <= e < 256 ==> #[trigger] extruders@[e] == (extruders_before[e]
                            || exists|b: int| 0 <= b < j && #[trigger] segs@[b].extruder == e),
                decreases segs.len() - j,
            {
                let s = &segs[j];
                kinds[s.kind as usize] = true;
                extruders[s.extruder as usize] = true;
                j = j + 1;
                proof {
                    assert forall|k: int| 0 <= k < 256 implies #[trigger] kinds@[k] == (
                    kinds_before[k] || exists|b: int| 0 <= b < j && #[trigger] segs@[b].kind == k) by {
                        if k == segs@[j - 1].kind {
                            assert(segs@[j - 1].kind == k);
                        }
                    }
                    assert forall|e: int| 0 <= e < 256 implies #[trigger] extruders@[e] == (
                    extruders_before[e] || exists|b: int|
                        0 <= b < j && #[trigger] segs@[b].extruder == e) by {
                        if e == segs@[j - 1].extruder {
                            assert(segs@[j - 1].extruder == e);
                        }
                    }
                }
            }
            proof {
                assert forall|k: int| 0 <= k < 256 implies #[trigger] kinds@[k] == exists|a: int, b: int|
                    0 <= a < i + 1 && 0 <= b < ls[a].segments@.len()
                        && #[trigger] ls[a].segments@[b].kind == k by {
                    if exists|b: int| 0 <= b < segs@.len() && #[trigger] segs@[b].kind == k {
                        let b = choose|b: int| 0 <= b < segs@.len() && #[trigger] segs@[b].kind == k;
                        assert(ls[i as int].segments@[b].kind == k);
                    }
                    if exists|a: int, b: int|
                        0 <= a < i + 1 && 0 <= b < ls[a].segments@.len()
                            && #[trigger] ls[a].segments@[b].kind == k {
                        let (a, b) = choose|a: int, b: int|
                            0 <= a < i + 1 && 0 <= b < ls[a].segments@.len()
                                && #[trigger] ls[a].segments@[b].kind == k;
                        if a == i {
                            assert(segs@[b].kind == k);
                        }
                    }
                }
                assert forall|e: int| 0 <= e < 256 implies #[trigger] extruders@[e] == exists|a: int, b: int|
                    0 <= a < i + 1 && 0 <= b < ls[a].segments@.len()
                        && #[trigger] ls[a].segments@[b].extruder == e by {
                    if exists|b: int| 0 <= b < segs@.len() && #[trigger] segs@[b].extruder == e {
                        let b = choose|b: int| 0 <= b < segs@.len() && #[trigger] segs@[b].extruder == e;
                        assert(ls[i as int].segments@[b].extruder == e);
                    }
                    if exists|a: int, b: int|
                        0 <= a < i + 1 && 0 <= b < ls[a].segments@.len()
                            && #[trigger] ls[a].segments@[b].extruder == e {
                        let (a, b) = choose|a: int, b: int|
                            0 <= a < i + 1 && 0 <= b < ls[a].segments@.len()
                                && #[trigger] ls[a].segments@[b].extruder == e;
                        if a == i {
                            assert(segs@[b].extruder == e);
                        }
                    }
                }
            }
            seg_counts.push(segs.len() as u32);
            i = i + 1;
            assert(seg_counts@ =~= Seq::new(i as nat, |x: int| ls[x].segments@.len() as u32));
        }
        assert(kinds@ =~= kind_flags(ls));
        assert(extruders@ =~= extruder_flags(ls));
        PreviewCounts {
            layer_count: self.layers.len() as u32,
            layer_segment_counts: seg_counts,
            kinds_present: collect_flagged(&kinds),
            extruders_present: collect_flagged(&extruders),
        }
    }
}

// --- Reading a G-code file for the preview ----------------------------------

/// A `G0`/`G1` parameter: its letter and the text of its value.
#[derive(Debug, Clone, PartialEq, Eq)]
pub struct MoveParam {
    pub axis: char,
    pub value: String,
}

/// What a line of G-code asks of the preview: comment tags (role, layer
/// change, `Z`, height, width) and commands (moves, `G92` resets, `M82`/
/// `M83` extrusion modes, tool changes). Numeric values are left as text.
#[derive(Debug, Clone, PartialEq, Eq)]
pub enum PreviewAction {
    /// `TYPE:` / `FEATURE:` role, as its id.
    SetKind(u8),
    /// `LAYER_CHANGE` / `CHANGE_LAYER`.
    NewLayer,
    /// `Z:` value text.
    SetZ(String),
    /// `HEIGHT:` / `LAYER_HEIGHT:` value text.
    SetHeight(String),
    /// `WIDTH:` / `LINE_WIDTH:` value text.
    SetWidth(String),
    /// `G0` / `G1` with its parameters, in order.
    Move(Vec<MoveParam>),
    /// `G92`: the texts following each `E` parameter, in order.
    ResetE(Vec<String>),
    /// `M82`.
    AbsoluteE,
    /// `M83`.
    RelativeE,
    /// `T<n>` tool change.
    Tool(u8),
}

/// Mathematical value of a preview action.
pub enum ActionView {
    SetKind(u8),
    NewLayer,
    SetZ(Seq<char>),
    SetHeight(Seq<char>),
    SetWidth(Seq<char>),
    Move(Seq<(char, Seq<char>)>),
    ResetE(Seq<Seq<char>>),
    AbsoluteE,
    RelativeE,
    Tool(u8),
}

impl PreviewAction {
    pub open spec fn view(&self) -> ActionView {
        match self {
            PreviewAction::SetKind(k) => ActionView::SetKind(*k),
            PreviewAction::NewLayer => ActionView::NewLayer,
            PreviewAction::SetZ(v) => ActionView::SetZ(v@),
            PreviewAction::SetHeight(v) => ActionView::SetHeight(v@),
            PreviewAction::SetWidth(v) => ActionView::SetWidth(v@),
            PreviewAction::Move(ps) => ActionView::Move(
                Seq::new(ps@.len(), |i: int| (ps@[i].axis, ps@[i].value@)),
            ),
            PreviewAction::ResetE(vs) => ActionView::ResetE(vs.deep_view()),
            PreviewAction::AbsoluteE => ActionView::AbsoluteE,
            PreviewAction::RelativeE => ActionView::RelativeE,
            PreviewAction::Tool(n) => ActionView::Tool(*n),
        }
    }
}

/// Views of a sequence of actions.
pub open spec fn actions_view(v: Seq<PreviewAction>) -> Seq<ActionView> {
    Seq::new(v.len(), |i: int| v[i].view())
}

/// Value of a tag written `plain` at the start of the comment, or `spaced`
/// after leading whitespace.
pub open spec fn tag_value(c: Seq<char>, plain: Seq<char>, spaced: Seq<char>) -> Option<Seq<char>> {
    match strip_prefix(c, plain) {
        Some(v) => Some(v),
        None => strip_prefix(trim_start(c), spaced),
    }
}

/// The action of a (trimmed) comment, if it carries a known tag.
pub open spec fn comment_action(c: Seq<char>) -> Option<ActionView> {
    match tag_value(c, "TYPE:"@, "FEATURE:"@) {
        Some(v) => Some(ActionView::SetKind(spec_kind_id(trim(v)))),
        None => if c == "LAYER_CHANGE"@ || c == "CHANGE_LAYER"@ {
            Some(ActionView::NewLayer)
        } else {
            match strip_prefix(c, "Z:"@) {
                Some(v) => Some(ActionView::SetZ(trim(v))),
                None => match tag_value(c, "HEIGHT:"@, "LAYER_HEIGHT:"@) {
                    Some(v) => Some(ActionView::SetHeight(trim(v))),
                    None => match tag_value(c, "WIDTH:"@, "LINE_WIDTH:"@) {
                        Some(v) => Some(ActionView::SetWidth(trim(v))),
                        None => None,
                    },
                },
            }
        },
    }
}

/// The texts after the `E` of the `E…` parameters, in order.
pub open spec fn e_values(toks: Seq<Seq<char>>) -> Seq<Seq<char>>
    decreases toks.len(),
{
    if toks.len() == 0 {
        Seq::empty()
    } else {
        match strip_prefix(toks.last(), "E"@) {
            Some(v) => e_values(toks.drop_last()).push(v),
            None => e_values(toks.drop_last()),
        }
    }
}

/// A move parameter token: its first character and the rest.
pub open spec fn param_parts(t: Seq<char>) -> (char, Seq<char>) {
    (t[0], t.drop_first())
}

/// The action of a (trimmed, non-empty) command.
pub open spec fn code_action(code: Seq<char>) -> Option<ActionView> {
    let toks = ws_tokens(code);
    if toks.len() == 0 {
        None
    } else {
        let cmd = toks[0];
        let rest = toks.drop_first();
        if cmd == "G0"@ || cmd == "G1"@ {
            Some(ActionView::Move(Seq::new(rest.len(), |i: int| param_parts(rest[i]))))
        } else if cmd == "G92"@ {
            Some(ActionView::ResetE(e_values(rest)))
        } else if cmd == "M82"@ {
            Some(ActionView::AbsoluteE)
        } else if cmd == "M83"@ {
            Some(ActionView::RelativeE)
        } else {
            match strip_prefix(cmd, "T"@) {
                Some(n) => match parse_uint(n, 255) {
                    Some(v) => Some(ActionView::Tool(v as u8)),
                    None => None,
                },
                None => None,
            }
        }
    }
}

/// The parameters of a `G0`/`G1` command start with an ASCII character
/// (the parameter letter is its first byte).
pub open spec fn moves_ascii(code: Seq<char>) -> bool {
    let toks = ws_tokens(code);
    toks.len() > 0 && (toks[0] == "G0"@ || toks[0] == "G1"@) ==> forall|i: int|
        1 <= i < toks.len() ==> (#[trigger] toks[i])[0] as u32 <= 0x7f
}

/// A line split at its first `;`: the trimmed command and the trimmed
/// comment, if any.
pub open spec fn line_parts(line: Seq<char>) -> (Seq<char>, Option<Seq<char>>) {
    match find_first(line, ';') {
        Some(i) => (trim(line.take(i)), Some(trim(line.skip(i + 1)))),
        None => (trim(line), None),
    }
}

/// Actions of one line: its comment's, then its command's.
pub open spec fn line_actions(line: Seq<char>) -> Seq<ActionView> {
    let (code, comment) = line_parts(line);
    let a = match comment {
        Some(c) => match comment_action(c) {
            Some(x) => seq![x],
            None => Seq::empty(),
        },
        None => Seq::empty(),
    };
    let b = if code.len() == 0 {
        Seq::empty()
    } else {
        match code_action(code) {
            Some(x) => seq![x],
            None => Seq::empty(),
        }
    };
    a + b
}

/// Actions of a sequence of lines, in order.
pub open spec fn actions_of(ls: Seq<Seq<char>>) -> Seq<ActionView>
    decreases ls.len(),
{
    if ls.len() == 0 {
        Seq::empty()
    } else {
        actions_of(ls.drop_last()) + line_actions(ls.last())
    }
}

/// Every move of the file has ASCII-led parameters.
pub open spec fn preview_readable(gcode: Seq<char>) -> bool {
    forall|i: int|
        0 <= i < lines_of(gcode).len() ==> moves_ascii(#[trigger] line_parts(lines_of(gcode)[i]).0)
}

/// Both layer-change tags, the compatible `LAYER_CHANGE` and the modern
/// `CHANGE_LAYER`, open a new layer: a line whose comment is either of them
/// yields `NewLayer` as its first action, whatever command precedes the
/// comment.
pub proof fn law_layer_tags_open_a_layer(line: Seq<char>)
    requires
        line_parts(line).1 == Some("LAYER_CHANGE"@) || line_parts(line).1 == Some("CHANGE_LAYER"@),
    ensures
        line_actions(line).len() >= 1,
        line_actions(line)[0] == ActionView::NewLayer,
{
    reveal_strlit("LAYER_CHANGE");
    reveal_strlit("CHANGE_LAYER");
    reveal_strlit("TYPE:");
    reveal_strlit("FEATURE:");
    let c = line_parts(line).1->0;
    assert(!is_ws(c[0]));
    assert(trim_start(c) == c);
    assert(!"TYPE:"@.is_prefix_of(c)) by {
        assert("TYPE:"@[0] != c[0]);
    }
    assert(!"FEATURE:"@.is_prefix_of(c)) by {
        assert("FEATURE:"@[0] != c[0]);
    }
    assert(comment_action(c) == Some(ActionView::NewLayer));
}

/// `G0` and `G1` are read alike: two commands that differ only in `G0`
/// for `G1` give the same action, a move with one parameter per token that
/// follows (its letter and the text after it), in order.
pub proof fn law_g0_moves_like_g1(c0: Seq<char>, c1: Seq<char>, rest: Seq<Seq<char>>)
    requires
        ws_tokens(c0) == seq!["G0"@] + rest,
        ws_tokens(c1) == seq!["G1"@] + rest,
    ensures
        code_action(c0) == code_action(c1),
        code_action(c0) == Some(
            ActionView::Move(Seq::new(rest.len(), |i: int| (rest[i][0], rest[i].drop_first()))),
        ),
{
    assert(ws_tokens(c0).drop_first() =~= rest);
    assert(ws_tokens(c1).drop_first() =~= rest);
    assert(ws_tokens(c0)[0] == "G0"@);
    assert(ws_tokens(c1)[0] == "G1"@);
    let r0 = ws_tokens(c0).drop_first();
    assert(Seq::new(r0.len(), |i: int| param_parts(r0[i])) =~= Seq::new(
        rest.len(),
        |i: int| (rest[i][0], rest[i].drop_first()),
    ));
}

fn tag_value_exec(c: &Vec<char>, plain: &str, spaced: &str) -> (r: Option<Vec<char>>)
    ensures
        match tag_value(c@, plain@, spaced@) {
            Some(v) => r is Some && r->0@ == v,
            None => r is None,
        },
{
    match strip_lit(c, plain) {
        Some(v) => Some(v),
        None => {
            let t = trimmed_start(c);
            strip_lit(&t, spaced)
        },
    }
}

fn comment_action_exec(c: &Vec<char>) -> (r: Option<PreviewAction>)
    ensures
        match comment_action(c@) {
            Some(a) => r is Some && r->0.view() == a,
            None => r is None,
        },
{
    if let Some(v) = tag_value_exec(c, "TYPE:", "FEATURE:") {
        let t = trimmed(&v);
        return Some(PreviewAction::SetKind(kind_id_chars(&t)));
    }
    if eq_lit(c, "LAYER_CHANGE") || eq_lit(c, "CHANGE_LAYER") {
        return Some(PreviewAction::NewLayer);
    }
    if let Some(v) = strip_lit(c, "Z:") {
        return Some(PreviewAction::SetZ(string_of(&trimmed(&v))));
    }
    if let Some(v) = tag_value_exec(c, "HEIGHT:", "LAYER_HEIGHT:") {
        return Some(PreviewAction::SetHeight(string_of(&trimmed(&v))));
    }
    if let Some(v) = tag_value_exec(c, "WIDTH:", "LINE_WIDTH:") {
        return Some(PreviewAction::SetWidth(string_of(&trimmed(&v))));
    }
    None
}

proof fn lemma_ws_tokens_non_empty(s: Seq<char>)
    ensures
        forall|i: int| 0 <= i < ws_tokens(s).len() ==> (#[trigger] ws_tokens(s)[i]).len() > 0,
{
    crate::gcode::lemma_tokens_non_empty(crate::text::split_ws_pieces(s));
}

fn first_char(v: &Vec<char>) -> (c: char)
    requires
        v@.len() > 0,
    ensures
        c == v@[0],
{
    v[0]
}

fn move_params(toks: &Vec<Vec<char>>) -> (r: Vec<MoveParam>)
    requires
        toks@.len() > 0,
        forall|k: int| 1 <= k < toks@.len() ==> (#[trigger] toks@[k])@.len() > 0,
    ensures
        r@.len() == toks@.len() - 1,
        forall|k: int|
            0 <= k < r@.len() ==> (#[trigger] r@[k]).axis == param_parts(toks@[k + 1]@).0
                && r@[k].value@ == param_parts(toks@[k + 1]@).1,
{
    let mut params: Vec<MoveParam> = Vec::new();
    let mut i: usize = 1;
    while i < toks.len()
        invariant
            1 <= i <= toks.len(),
            forall|k: int| 1 <= k < toks@.len() ==> (#[trigger] toks@[k])@.len() > 0,
            params@.len() == i - 1,
            forall|k: int|
                0 <= k < i - 1 ==> (#[trigger] params@[k]).axis == param_parts(toks@[k + 1]@).0
                    && params@[k].value@ == param_parts(toks@[k + 1]@).1,
        decreases toks.len() - i,
    {
        let tok: &Vec<char> = &toks[i];
        let n = tok.len();
        let rest = copy_range(tok, 1, n);
        assert(rest@ =~= tok@.drop_first());
        let axis = first_char(tok);
        let value = string_of(&rest);
        let ghost before = params@;
        params.push(MoveParam { axis, value });
        assert(params@.len() == before.len() + 1);
        i = i + 1;
    }
    params
}

fn code_action_exec(code: &Vec<char>) -> (r: Option<PreviewAction>)
    requires
        moves_ascii(code@),
    ensures
        match code_action(code@) {
            Some(a) => r is Some && r->0.view() == a,
            None => r is None,
        },
{
    let toks = tokens(code);
    let ghost tv = toks.deep_view();
    proof {
        lemma_ws_tokens_non_empty(code@);
    }
    if toks.len() == 0 {
        return None;
    }
    let cmd = &toks[0];
    assert(cmd@ == tv[0]);
    proof {
        assert forall|k: int| 0 <= k < tv.len() implies (#[trigger] toks@[k])@ == tv[k] by {
            assert(toks@[k]@ =~= tv[k]);
        }
    }
    if eq_lit(cmd, "G0") || eq_lit(cmd, "G1") {
        let params = move_params(&toks);
        let r = PreviewAction::Move(params);
        proof {
            let rest = tv.drop_first();
            assert(Seq::new(params@.len(), |k: int| (params@[k].axis, params@[k].value@)) =~= Seq::new(
                rest.len(),
                |k: int| param_parts(rest[k]),
            ));
        }
        return Some(r);
    }
    if eq_lit(cmd, "G92") {
        let mut vals: Vec<String> = Vec::new();
        let mut i: usize = 1;
        while i < toks.len()
            invariant
                1 <= i <= toks.len(),
                tv == toks.deep_view(),
                vals.deep_view() == e_values(tv.drop_first().take(i - 1)),
            decreases toks.len() - i,
        {
            let ghost before = vals.deep_view();
            assert(tv.drop_first().take(i as int).drop_last() =~= tv.drop_first().take(i - 1));
            assert(tv.drop_first().take(i as int).last() == toks@[i as int]@);
            if let Some(v) = strip_lit(&toks[i], "E") {
                vals.push(string_of(&v));
                assert(vals.deep_view() =~= before.push(v@));
            }
            i = i + 1;
        }
        assert(tv.drop_first().take(toks.len() - 1) =~= tv.drop_first());
        return Some(PreviewAction::ResetE(vals));
    }
    if eq_lit(cmd, "M82") {
        return Some(PreviewAction::AbsoluteE);
    }
    if eq_lit(cmd, "M83") {
        return Some(PreviewAction::RelativeE);
    }
    match strip_lit(cmd, "T") {
        Some(n) => match parse_u64_max(&n, 255) {
            Some(v) => Some(PreviewAction::Tool(v as u8)),
            None => None,
        },
        None => None,
    }
}

fn line_actions_exec(line: &Vec<char>, out: &mut Vec<PreviewAction>)
    requires
        moves_ascii(line_parts(line@).0),
    ensures
        actions_view(final(out)@) == actions_view(old(out)@) + line_actions(line@),
{
    let ghost start = actions_view(out@);
    proof {
        lemma_find_first_bounds(line@, ';');
    }
    let (code, comment) = match find_char(line, ';') {
        Some(i) => {
            assert(i < line.len());
            let c = trimmed(&copy_range(line, 0, i));
            let m = trimmed(&copy_range(line, i + 1, line.len()));
            assert(line@.subrange(0, i as int) =~= line@.take(i as int));
            assert(line@.subrange(i + 1, line@.len() as int) =~= line@.skip(i + 1));
            (c, Some(m))
        },
        None => (trimmed(line), None),
    };
    if let Some(m) = &comment {
        if let Some(a) = comment_action_exec(m) {
            let ghost before = out@;
            out.push(a);
            assert(actions_view(out@) =~= actions_view(before).push(a.view()));
        }
    }
    let ghost mid = actions_view(out@);
    if code.len() > 0 {
        if let Some(a) = code_action_exec(&code) {
            let ghost before = out@;
            out.push(a);
            assert(actions_view(out@) =~= actions_view(before).push(a.view()));
        }
    }
    proof {
        let (cv, mv) = line_parts(line@);
        assert(cv == code@);
        let a = match mv {
            Some(c) => match comment_action(c) {
                Some(x) => seq![x],
                None => Seq::<ActionView>::empty(),
            },
            None => Seq::<ActionView>::empty(),
        };
        let b = if cv.len() == 0 {
            Seq::<ActionView>::empty()
        } else {
            match code_action(cv) {
                Some(x) => seq![x],
                None => Seq::<ActionView>::empty(),
            }
        };
        assert(mid =~= start + a);
        assert(actions_view(out@) =~= mid + b);
        assert(line_actions(line@) == a + b);
        assert(actions_view(out@) =~= start + line_actions(line@));
    }
}

fn moves_ascii_exec(code: &Vec<char>) -> (r: bool)
    ensures
        r == moves_ascii(code@),
{
    let toks = tokens(code);
    let ghost tv = toks.deep_view();
    proof {
        lemma_ws_tokens_non_empty(code@);
    }
    if toks.len() == 0 {
        return true;
    }
    assert(toks@[0]@ == tv[0]);
    if !(eq_lit(&toks[0], "G0") || eq_lit(&toks[0], "G1")) {
        return true;
    }
    let mut i: usize = 1;
    while i < toks.len()
        invariant
            1 <= i <= toks.len(),
            tv == toks.deep_view(),
            tv == ws_tokens(code@),
            tv[0] == "G0"@ || tv[0] == "G1"@,
            forall|k: int| 0 <= k < tv.len() ==> (#[trigger] tv[k]).len() > 0,
            forall|k: int| 1 <= k < i ==> (#[trigger] tv[k])[0] as u32 <= 0x7f,
        decreases toks.len() - i,
    {
        assert(toks@[i as int]@ == tv[i as int]);
        let c = first_char(&toks[i]);
        if c as u32 > 0x7f {
            assert(tv[i as int][0] as u32 > 0x7f);
            return false;
        }
        i = i + 1;
    }
    true
}

/// Whether every `G0`/`G1` parameter of a G-code file starts with an ASCII
/// character, so that the file can be read for the preview.
pub fn is_preview_readable(gcode: &str) -> (r: bool)
    ensures
        r == preview_readable(gcode@),
{
    let text = chars_of(gcode);
    let ls = lines(&text);
    let ghost lv = ls.deep_view();
    let mut i: usize = 0;
    while i < ls.len()
        invariant
            i <= ls.len(),
            lv == ls.deep_view(),
            lv == lines_of(gcode@),
            forall|k: int| 0 <= k < i ==> moves_ascii(#[trigger] line_parts(lv[k]).0),
        decreases ls.len() - i,
    {
        assert(ls@[i as int]@ == lv[i as int]);
        let line = &ls[i];
        proof {
            lemma_find_first_bounds(line@, ';');
        }
        let code = match find_char(line, ';') {
            Some(j) => {
                let c = trimmed(&copy_range(line, 0, j));
                assert(line@.subrange(0, j as int) =~= line@.take(j as int));
                c
            },
            None => trimmed(line),
        };
        if !moves_ascii_exec(&code) {
            assert(!moves_ascii(line_parts(lv[i as int]).0));
            return false;
        }
        i = i + 1;
    }
    true
}

/// Reads a G-code file for the preview: the actions of its lines, in
/// order (see [`line_actions`]).
pub fn preview_actions(gcode: &str) -> (r: Vec<PreviewAction>)
    requires
        preview_readable(gcode@),
    ensures
        actions_view(r@) == actions_of(lines_of(gcode@)),
{
    let text = chars_of(gcode);
    let ls = lines(&text);
    let ghost lv = ls.deep_view();
    let mut out: Vec<PreviewAction> = Vec::new();
    let mut i: usize = 0;
    assert(actions_view(out@) =~= actions_of(lv.take(0)));
    while i < ls.len()
        invariant
            i <= ls.len(),
            lv == ls.deep_view(),
            lv == lines_of(gcode@),
            preview_readable(gcode@),
            actions_view(out@) == actions_of(lv.take(i as int)),
        decreases ls.len() - i,
    {
        assert(ls@[i as int]@ == lv[i as int]);
        assert(moves_ascii(line_parts(lv[i as int]).0));
        line_actions_exec(&ls[i], &mut out);
        assert(lv.take(i + 1).drop_last() =~= lv.take(i as int));
        i = i + 1;
    }
    assert(lv.take(ls.len() as int) =~= lv);
    out
}

} // verus!
