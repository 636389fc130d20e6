//! Chunked binary model serialization.
//!
//! Encodes an RGBA voxel grid into the model-exchange layout: a fixed
//! signature and version header, then one container chunk holding a
//! dimension chunk, a positional-record chunk, and a 256-entry palette
//! chunk. Every chunk declares its exact content size, and the container
//! declares the exact byte length of its children.
//!
//! Only voxels with a non-zero alpha channel are emitted. Each distinct
//! emitted color is assigned a 1-based palette slot in first-seen order,
//! walking the grid in ascending linear-index order.

use vstd::prelude::*;
use vstd::bytes::{spec_u32_to_le_bytes, u32_to_le_bytes};
use crate::buffer::spec_coord;

verus! {

/// One RGBA color as plain bytes: `(red, green, blue, alpha)`.
pub type ColorBytes = (u8, u8, u8, u8);

/// A color is emitted to the file exactly when its alpha channel is non-zero.
pub open spec fn is_opaque(c: ColorBytes) -> bool {
    c.3 > 0
}

/// The palette that a color sequence builds: the distinct colors of its
/// non-transparent entries, in first-seen order.
pub open spec fn palette_of(s: Seq<ColorBytes>) -> Seq<ColorBytes>
    decreases s.len(),
{
    if s.len() == 0 {
        Seq::empty()
    } else {
        let p = palette_of(s.drop_last());
        let c = s.last();
        if is_opaque(c) && !p.contains(c) {
            p.push(c)
        } else {
            p
        }
    }
}

/// How many entries of a color sequence are non-transparent.
pub open spec fn opaque_count(s: Seq<ColorBytes>) -> nat
    decreases s.len(),
{
    if s.len() == 0 {
        0
    } else {
        opaque_count(s.drop_last()) + if is_opaque(s.last()) {
            1nat
        } else {
            0nat
        }
    }
}

/// The 4-byte positional record of the voxel at linear index `i` in a grid
/// of width `w` and depth `d`: its coordinate followed by its 1-based slot
/// in palette `p`.
pub open spec fn record_bytes(w: nat, d: nat, i: nat, c: ColorBytes, p: Seq<ColorBytes>) -> Seq<
    u8,
> {
    let x = spec_coord(w, d, i).0;
    let y = spec_coord(w, d, i).1;
    let z = spec_coord(w, d, i).2;
    seq![x as u8, y as u8, z as u8, (p.index_of(c) + 1) as u8]
}

/// The concatenated positional records of all non-transparent voxels of `s`,
/// in ascending linear-index order. The record of voxel `i` refers to the
/// palette that the first `i + 1` voxels build; palette slots are stable
/// under extension, so the slot equals the one in the full palette.
pub open spec fn records_of(s: Seq<ColorBytes>, w: nat, d: nat) -> Seq<u8>
    decreases s.len(),
{
    if s.len() == 0 {
        Seq::empty()
    } else {
        let rest = records_of(s.drop_last(), w, d);
        let c = s.last();
        if is_opaque(c) {
            rest + record_bytes(w, d, (s.len() - 1) as nat, c, palette_of(s))
        } else {
            rest
        }
    }
}

/// The channel `k` (0 to 3) of a color, in the order red, green, blue, alpha.
pub open spec fn channel(c: ColorBytes, k: int) -> u8 {
    if k == 0 {
        c.0
    } else if k == 1 {
        c.1
    } else if k == 2 {
        c.2
    } else {
        c.3
    }
}

/// The 1024-byte payload of the palette chunk: 256 four-byte entries, the
/// entry at position `j` holding the color of palette slot `j + 1`, unused
/// entries all zero.
pub open spec fn palette_chunk_content(p: Seq<ColorBytes>) -> Seq<u8> {
    Seq::new(
        1024,
        |i: int|
            if i / 4 < p.len() {
                channel(p[i / 4], i % 4)
            } else {
                0u8
            },
    )
}

/// The complete encoded file for a `w * d * h` grid whose voxel colors are
/// `s` in ascending linear-index order: signature, version 150, then the
/// container chunk holding the dimension, positional-record, and palette
/// chunks, each with its exact declared sizes.
pub open spec fn encode_spec(w: u32, d: u32, h: u32, s: Seq<ColorBytes>) -> Seq<u8> {
    let n = opaque_count(s);
    seq![86u8, 79u8, 88u8, 32u8] + spec_u32_to_le_bytes(150) + seq![77u8, 65u8, 73u8, 78u8]
        + spec_u32_to_le_bytes(0) + spec_u32_to_le_bytes((1076 + 4 * n) as u32) + seq![
        83u8,
        73u8,
        90u8,
        69u8,
    ] + spec_u32_to_le_bytes(12) + spec_u32_to_le_bytes(0) + spec_u32_to_le_bytes(w)
        + spec_u32_to_le_bytes(d) + spec_u32_to_le_bytes(h) + seq![88u8, 89u8, 90u8, 73u8]
        + spec_u32_to_le_bytes((4 + 4 * n) as u32) + spec_u32_to_le_bytes(0)
        + spec_u32_to_le_bytes(n as u32) + records_of(s, w as nat, d as nat) + seq![
        82u8,
        71u8,
        66u8,
        65u8,
    ] + spec_u32_to_le_bytes(1024) + spec_u32_to_le_bytes(0) + palette_chunk_content(
        palette_of(s),
    )
}

/// Every palette entry is a non-transparent color that occurs in `s`, and no
/// color occupies two slots.
pub proof fn lemma_palette_entries(s: Seq<ColorBytes>)
    ensures
        forall|j: int, k: int|
            0 <= j < k < palette_of(s).len() ==> palette_of(s)[j] != palette_of(s)[k],
        forall|j: int|
            0 <= j < palette_of(s).len() ==> is_opaque(#[trigger] palette_of(s)[j])
                && s.contains(palette_of(s)[j]),
        palette_of(s).len() <= s.len(),
    decreases s.len(),
{
    if s.len() > 0 {
        lemma_palette_entries(s.drop_last());
        let p = palette_of(s.drop_last());
        let c = s.last();
        assert(forall|j: int|
            0 <= j < p.len() ==> s.drop_last().contains(#[trigger] p[j]) ==> s.contains(p[j]))
            by {
            assert(forall|j: int|
                0 <= j < s.len() - 1 ==> s.drop_last()[j] == #[trigger] s[j]);
        }
        if is_opaque(c) && !p.contains(c) {
            assert(s.contains(c)) by {
                assert(s[s.len() - 1] == c);
            }
        }
    }
}

/// The palette of a prefix is a prefix of the palette: later voxels only
/// append slots, they never reorder or replace earlier ones.
pub proof fn lemma_palette_prefix(s: Seq<ColorBytes>, i: int)
    requires
        0 <= i <= s.len(),
    ensures
        palette_of(s.take(i)).is_prefix_of(palette_of(s)),
    decreases s.len(),
{
    if i == s.len() {
        assert(s.take(i) =~= s);
    } else {
        assert(s.drop_last().take(i) =~= s.take(i));
        lemma_palette_prefix(s.drop_last(), i);
        let p = palette_of(s.drop_last());
        let q = palette_of(s);
        let r = palette_of(s.take(i));
        if is_opaque(s.last()) && !p.contains(s.last()) {
            assert(q == p.push(s.last()));
            assert(r =~= q.subrange(0, r.len() as int)) by {
                assert(r =~= p.subrange(0, r.len() as int));
            }
        }
    }
}

/// No voxel record outruns the grid: at most one record per voxel.
pub proof fn lemma_opaque_count_le(s: Seq<ColorBytes>)
    ensures
        opaque_count(s) <= s.len(),
    decreases s.len(),
{
    if s.len() > 0 {
        lemma_opaque_count_le(s.drop_last());
    }
}

/// The positional-record payload holds exactly four bytes per
/// non-transparent voxel.
pub proof fn lemma_records_len(s: Seq<ColorBytes>, w: nat, d: nat)
    ensures
        records_of(s, w, d).len() == 4 * opaque_count(s),
    decreases s.len(),
{
    if s.len() > 0 {
        lemma_records_len(s.drop_last(), w, d);
    }
}

/// The encoded file's exact byte length: a fixed 1096-byte frame plus four
/// bytes per emitted voxel.
pub proof fn lemma_encode_len(w: u32, d: u32, h: u32, s: Seq<ColorBytes>)
    ensures
        encode_spec(w, d, h, s).len() == 1096 + 4 * opaque_count(s),
{
    vstd::bytes::lemma_auto_spec_u32_to_from_le_bytes();
    lemma_records_len(s, w as nat, d as nat);
}

/// Encoding is deterministic: the encoded bytes are a function of the
/// dimensions and the stored colors alone, so encoding the same buffer twice
/// produces byte-identical output.
pub proof fn lemma_encode_deterministic(
    w1: u32,
    d1: u32,
    h1: u32,
    s1: Seq<ColorBytes>,
    w2: u32,
    d2: u32,
    h2: u32,
    s2: Seq<ColorBytes>,
)
    requires
        w1 == w2,
        d1 == d2,
        h1 == h2,
        s1 == s2,
    ensures
        encode_spec(w1, d1, h1, s1) == encode_spec(w2, d2, h2, s2),
{
}

/// A grid with no non-transparent voxel still encodes to a well-formed file:
/// the positional-record chunk declares count zero and carries no record,
/// and the palette chunk is entirely zero.
pub proof fn lemma_encode_empty(s: Seq<ColorBytes>, w: nat, d: nat)
    requires
        forall|j: int| 0 <= j < s.len() ==> !is_opaque(#[trigger] s[j]),
    ensures
        opaque_count(s) == 0,
        palette_of(s) == Seq::<ColorBytes>::empty(),
        records_of(s, w, d) == Seq::<u8>::empty(),
        forall|i: int| 0 <= i < 1024 ==> palette_chunk_content(palette_of(s))[i] == 0,
    decreases s.len(),
{
    if s.len() > 0 {
        assert(forall|j: int|
            0 <= j < s.len() - 1 ==> s.drop_last()[j] == #[trigger] s[j]);
        lemma_encode_empty(s.drop_last(), w, d);
    }
}

/// A grid with exactly one non-transparent voxel encodes that voxel alone:
/// one positional record whose palette slot is 1, a palette whose first
/// entry is the voxel's color, and every other palette entry zero.
pub proof fn lemma_encode_single(s: Seq<ColorBytes>, w: nat, d: nat, k: int)
    requires
        0 <= k < s.len(),
        is_opaque(s[k]),
        forall|j: int| 0 <= j < s.len() && j != k ==> !is_opaque(#[trigger] s[j]),
    ensures
        opaque_count(s) == 1,
        palette_of(s) == seq![s[k]],
        records_of(s, w, d) == record_bytes(w, d, k as nat, s[k], seq![s[k]]),
        records_of(s, w, d).len() == 4,
        records_of(s, w, d)[3] == 1,
        palette_chunk_content(palette_of(s))[0] == s[k].0,
        palette_chunk_content(palette_of(s))[1] == s[k].1,
        palette_chunk_content(palette_of(s))[2] == s[k].2,
        palette_chunk_content(palette_of(s))[3] == s[k].3,
        forall|i: int| 4 <= i < 1024 ==> palette_chunk_content(palette_of(s))[i] == 0,
    decreases s.len(),
{
    let c = s[k];
    if k == s.len() - 1 {
        assert(forall|j: int|
            0 <= j < s.len() - 1 ==> !is_opaque(#[trigger] s.drop_last()[j])) by {
            assert(forall|j: int|
                0 <= j < s.len() - 1 ==> s.drop_last()[j] == #[trigger] s[j]);
        }
        lemma_encode_empty(s.drop_last(), w, d);
        let p = palette_of(s);
        assert(p =~= seq![c]);
        assert(p.index_of(c) == 0) by {
            assert(p.contains(c)) by {
                assert(p[0] == c);
            }
            let ix = p.index_of(c);
            assert(0 <= ix < p.len() && p[ix] == c) by {
                assert(p[0] == c);
            }
        }
        assert(records_of(s, w, d) =~= record_bytes(w, d, k as nat, c, seq![c]));
    } else {
        assert(is_opaque(s.drop_last()[k]) && s.drop_last()[k] == c) by {
            assert(s.drop_last()[k] == s[k]);
        }
        assert(forall|j: int|
            0 <= j < s.len() - 1 && j != k ==> !is_opaque(#[trigger] s.drop_last()[j])) by {
            assert(forall|j: int|
                0 <= j < s.len() - 1 ==> s.drop_last()[j] == #[trigger] s[j]);
        }
        lemma_encode_single(s.drop_last(), w, d, k);
        assert(s.drop_last()[k] == c);
        assert(!is_opaque(s.last())) by {
            assert(s[s.len() - 1] == s.last());
        }
    }
}

/// The first palette slot (0-based) holding color `c`, or `None` when the
/// palette has no such slot.
fn find_color(p: &Vec<ColorBytes>, c: ColorBytes) -> (r: Option<usize>)
    ensures
        match r {
            Some(j) => j < p@.len() && p@[j as int] == c,
            None => !p@.contains(c),
        },
{
    let mut j: usize = 0;
    while j < p.len()
        invariant
            j <= p@.len(),
            forall|k: int| 0 <= k < j ==> p@[k] != c,
        decreases p@.len() - j,
    {
        let e = p[j];
        if e.0 == c.0 && e.1 == c.1 && e.2 == c.2 && e.3 == c.3 {
            return Some(j);
        }
        j += 1;
    }
    proof {
        assert(forall|k: int| 0 <= k < p@.len() ==> p@[k] != c);
    }
    None
}

/// Walk the grid in ascending linear-index order, building the palette, the
/// positional records, and the emitted-voxel count; `None` exactly when the
/// grid needs more than 255 palette slots.
fn scan_colors(w: u32, d: u32, h: u32, colors: &Vec<ColorBytes>) -> (r: Option<
    (Vec<ColorBytes>, Vec<u8>, u32),
>)
    requires
        colors@.len() == (w as nat) * (d as nat) * (h as nat),
        w <= 256,
        d <= 256,
        h <= 256,
    ensures
        match r {
            Some(pr) => {
                &&& palette_of(colors@).len() <= 255
                &&& pr.0@ == palette_of(colors@)
                &&& pr.1@ == records_of(colors@, w as nat, d as nat)
                &&& pr.2 as nat == opaque_count(colors@)
            },
            None => palette_of(colors@).len() > 255,
        },
{
    let total = colors.len();
    proof {
        assert((w as nat) * (d as nat) * (h as nat) <= 16777216) by (nonlinear_arith)
            requires
                w <= 256,
                d <= 256,
                h <= 256,
        ;
    }
    let mut palette: Vec<ColorBytes> = Vec::new();
    let mut records: Vec<u8> = Vec::new();
    let mut count: u32 = 0;
    let mut i: usize = 0;
    while i < total
        invariant
            i <= total,
            total == colors@.len(),
            colors@.len() == (w as nat) * (d as nat) * (h as nat),
            total <= 16777216,
            w <= 256,
            d <= 256,
            h <= 256,
            palette@ == palette_of(colors@.take(i as int)),
            records@ == records_of(colors@.take(i as int), w as nat, d as nat),
            count as nat == opaque_count(colors@.take(i as int)),
            palette@.len() <= 255,
        decreases total - i,
    {
        let ghost s = colors@;
        let c = colors[i];
        proof {
            assert(s.take(i + 1).drop_last() =~= s.take(i as int));
            assert(s.take(i + 1).last() == s[i as int]);
            lemma_opaque_count_le(s.take(i as int));
        }
        if c.3 > 0 {
            proof {
                assert(w >= 1 && d >= 1 && h >= 1) by (nonlinear_arith)
                    requires
                        i < total,
                        total == (w as nat) * (d as nat) * (h as nat),
                        i >= 0,
                ;
                crate::buffer::lemma_coord_in_range(
                    w as nat,
                    d as nat,
                    h as nat,
                    i as nat,
                );
                assert((w as int) * (d as int) <= 65536) by (nonlinear_arith)
                    requires
                        w <= 256,
                        d <= 256,
                ;
            }
            let plane = (w as usize) * (d as usize);
            let z = i / plane;
            let rem = i % plane;
            let y = rem / (w as usize);
            let x = rem % (w as usize);
            let slot: u8;
            match find_color(&palette, c) {
                Some(j) => {
                    proof {
                        lemma_palette_entries(s.take(i + 1));
                        let p1 = palette_of(s.take(i + 1));
                        assert(p1 == palette@);
                        assert(p1.contains(c)) by {
                            assert(p1[j as int] == c);
                        }
                        let k = p1.index_of(c);
                        assert(0 <= k < p1.len() && p1[k] == c) by {
                            assert(p1[j as int] == c);
                        }
                        assert(k == j);
                    }
                    slot = (j as u8) + 1;
                },
                None => {
                    if palette.len() >= 255 {
                        proof {
                            let p1 = palette_of(s.take(i + 1));
                            assert(p1 == palette@.push(c));
                            lemma_palette_prefix(s, i + 1);
                            assert(palette_of(s).len() >= p1.len());
                        }
                        return None;
                    }
                    palette.push(c);
                    proof {
                        lemma_palette_entries(s.take(i + 1));
                        let p1 = palette_of(s.take(i + 1));
                        assert(p1 == palette@);
                        let k = p1.index_of(c);
                        assert(p1.contains(c)) by {
                            assert(p1[p1.len() - 1] == c);
                        }
                        assert(0 <= k < p1.len() && p1[k] == c) by {
                            assert(p1[p1.len() - 1] == c);
                        }
                        assert(k == p1.len() - 1);
                    }
                    slot = palette.len() as u8;
                },
            }
            records.push(x as u8);
            records.push(y as u8);
            records.push(z as u8);
            records.push(slot);
            count = count + 1;
            proof {
                assert(records@ =~= records_of(s.take(i as int), w as nat, d as nat)
                    + record_bytes(
                    w as nat,
                    d as nat,
                    i as nat,
                    c,
                    palette_of(s.take(i + 1)),
                ));
            }
        }
        i += 1;
    }
    proof {
        assert(colors@.take(total as int) =~= colors@);
    }
    Some((palette, records, count))
}

/// Encode a `w * d * h` grid of RGBA colors, given in ascending linear-index
/// order, into the complete binary file.
///
/// Returns `None` exactly when the grid falls outside what the format's
/// record layout can carry: a dimension above 256 (coordinates are single
/// bytes) or more than 255 distinct emitted colors (palette slots are single
/// bytes, slot 0 stays reserved).
pub fn encode_colors(w: u32, d: u32, h: u32, colors: &Vec<ColorBytes>) -> (r: Option<Vec<u8>>)
    requires
        colors@.len() == (w as nat) * (d as nat) * (h as nat),
    ensures
        match r {
            Some(bytes) => {
                &&& w <= 256
                &&& d <= 256
                &&& h <= 256
                &&& palette_of(colors@).len() <= 255
                &&& bytes@ == encode_spec(w, d, h, colors@)
            },
            None => w > 256 || d > 256 || h > 256 || palette_of(colors@).len() > 255,
        },
{
    if w > 256 || d > 256 || h > 256 {
        return None;
    }
    let (palette, mut records, n) = match scan_colors(w, d, h, colors) {
        None => {
            return None;
        },
        Some(t) => t,
    };
    proof {
        lemma_opaque_count_le(colors@);
        assert((w as nat) * (d as nat) * (h as nat) <= 16777216) by (nonlinear_arith)
            requires
                w <= 256,
                d <= 256,
                h <= 256,
        ;
    }
    let mut out: Vec<u8> = Vec::new();
    out.push(86);
    out.push(79);
    out.push(88);
    out.push(32);
    let mut version = u32_to_le_bytes(150);
    out.append(&mut version);
    out.push(77);
    out.push(65);
    out.push(73);
    out.push(78);
    let mut main_content = u32_to_le_bytes(0);
    out.append(&mut main_content);
    let mut main_children = u32_to_le_bytes(1076 + 4 * n);
    out.append(&mut main_children);
    out.push(83);
    out.push(73);
    out.push(90);
    out.push(69);
    let mut size_content = u32_to_le_bytes(12);
    out.append(&mut size_content);
    let mut size_children = u32_to_le_bytes(0);
    out.append(&mut size_children);
    let mut size_w = u32_to_le_bytes(w);
    out.append(&mut size_w);
    let mut size_d = u32_to_le_bytes(d);
    out.append(&mut size_d);
    let mut size_h = u32_to_le_bytes(h);
    out.append(&mut size_h);
    out.push(88);
    out.push(89);
    out.push(90);
    out.push(73);
    let mut xyzi_content = u32_to_le_bytes(4 + 4 * n);
    out.append(&mut xyzi_content);
    let mut xyzi_children = u32_to_le_bytes(0);
    out.append(&mut xyzi_children);
    let mut xyzi_count = u32_to_le_bytes(n);
    out.append(&mut xyzi_count);
    out.append(&mut records);
    out.push(82);
    out.push(71);
    out.push(66);
    out.push(65);
    let mut rgba_content = u32_to_le_bytes(1024);
    out.append(&mut rgba_content);
    let mut rgba_children = u32_to_le_bytes(0);
    out.append(&mut rgba_children);
    let mut pal_bytes = palette_bytes(&palette);
    out.append(&mut pal_bytes);
    proof {
        assert(out@ =~= encode_spec(w, d, h, colors@));
    }
    Some(out)
}

/// The palette chunk's fixed 1024-byte payload for the given palette.
fn palette_bytes(palette: &Vec<ColorBytes>) -> (r: Vec<u8>)
    requires
        palette@.len() <= 255,
    ensures
        r@ == palette_chunk_content(palette@),
{
    let mut out: Vec<u8> = Vec::new();
    let mut j: usize = 0;
    while j < 256
        invariant
            j <= 256,
            palette@.len() <= 255,
            out@.len() == 4 * j,
            forall|i: int|
                0 <= i < 4 * j ==> out@[i] == (if i / 4 < palette@.len() {
                    channel(palette@[i / 4], i % 4)
                } else {
                    0u8
                }),
        decreases 256 - j,
    {
        if j < palette.len() {
            let c = palette[j];
            out.push(c.0);
            out.push(c.1);
            out.push(c.2);
            out.push(c.3);
        } else {
            out.push(0);
            out.push(0);
            out.push(0);
            out.push(0);
        }
        proof {
            let jj = j as int;
            assert((4 * jj) / 4 == jj && (4 * jj) % 4 == 0 && (4 * jj + 1) / 4 == jj && (4 * jj
                + 1) % 4 == 1 && (4 * jj + 2) / 4 == jj && (4 * jj + 2) % 4 == 2 && (4 * jj + 3)
                / 4 == jj && (4 * jj + 3) % 4 == 3) by (nonlinear_arith);
        }
        j += 1;
    }
    proof {
        assert(out@ =~= palette_chunk_content(palette@));
    }
    out
}

} // verus!
