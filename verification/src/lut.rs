//! The palette lookup volume: a dense 256x256x256 grid mapping every 24-bit
//! color to the index of its nearest palette entry, built once per session.

use vstd::prelude::*;
use crate::color::Color;
use crate::palette::Palette;

verus! {

/// Squared Euclidean distance between two colors in RGB space, the metric
/// the lookup volume is built with.
pub open spec fn dist2(a: Color, b: Color) -> int {
    (a.r - b.r) * (a.r - b.r) + (a.g - b.g) * (a.g - b.g) + (a.b - b.b) * (a.b - b.b)
}

/// The distance contributed by the red and green channels alone.
pub open spec fn dist2_rg(a: Color, b: Color) -> int {
    (a.r - b.r) * (a.r - b.r) + (a.g - b.g) * (a.g - b.g)
}

/// `i` is the index the volume stores for color `c`: the first palette index
/// whose entry is at minimal squared distance from `c`.
pub open spec fn is_nearest(palette: Seq<Color>, c: Color, i: int) -> bool {
    &&& 0 <= i < palette.len()
    &&& forall|j: int|
        0 <= j < palette.len() ==> dist2(palette[i], c) <= dist2(palette[j], c)
    &&& forall|j: int| 0 <= j < i ==> dist2(palette[j], c) > dist2(palette[i], c)
}

/// Squared distances are nonnegative and zero exactly between equal colors.
pub proof fn lemma_dist2_properties(a: Color, b: Color)
    ensures
        dist2(a, b) >= 0,
        dist2(a, b) == 0 <==> a == b,
        dist2_rg(a, b) >= 0,
        dist2(a, b) >= dist2_rg(a, b),
{
    let dr = a.r - b.r;
    let dg = a.g - b.g;
    let db = a.b - b.b;
    assert(dr * dr >= 0 && (dr * dr == 0 <==> dr == 0)) by (nonlinear_arith);
    assert(dg * dg >= 0 && (dg * dg == 0 <==> dg == 0)) by (nonlinear_arith);
    assert(db * db >= 0 && (db * db == 0 <==> db == 0)) by (nonlinear_arith);
}

/// At most one index satisfies `is_nearest` for a given palette and color.
pub proof fn lemma_nearest_unique(palette: Seq<Color>, c: Color, i: int, j: int)
    requires
        is_nearest(palette, c, i),
        is_nearest(palette, c, j),
    ensures
        i == j,
{
    if i < j {
        assert(dist2(palette[i], c) > dist2(palette[j], c));
        assert(dist2(palette[j], c) >= dist2(palette[i], c));
    } else if j < i {
        assert(dist2(palette[j], c) > dist2(palette[i], c));
        assert(dist2(palette[i], c) >= dist2(palette[j], c));
    }
}

/// For a palette of pairwise distinct entries, the color of entry `i` maps
/// back to index `i` exactly: the round trip for in-palette colors.
pub proof fn lemma_nearest_round_trip(palette: Seq<Color>, i: int)
    requires
        0 <= i < palette.len(),
        forall|j: int, k: int|
            0 <= j < k < palette.len() ==> palette[j] != palette[k],
    ensures
        is_nearest(palette, palette[i], i),
{
    assert forall|j: int| 0 <= j < palette.len()
        implies dist2(palette[i], palette[i]) <= dist2(palette[j], palette[i]) by {
        lemma_dist2_properties(palette[i], palette[i]);
        lemma_dist2_properties(palette[j], palette[i]);
    }
    assert forall|j: int| 0 <= j < i
        implies dist2(palette[j], palette[i]) > dist2(palette[i], palette[i]) by {
        lemma_dist2_properties(palette[i], palette[i]);
        lemma_dist2_properties(palette[j], palette[i]);
    }
}

/// A channel difference squared stays within `i32` range.
proof fn lemma_sq_bound(x: int)
    requires
        -255 <= x <= 255,
    ensures
        0 <= x * x <= 65025,
{
    assert(0 <= x * x <= 65025) by (nonlinear_arith)
        requires -255 <= x <= 255;
}

/// The per-cell kernel of the volume build: scans the whole palette and
/// returns the first index at minimal squared distance from `c`.
pub fn lut_generation_shader(palette: &Palette, c: Color) -> (r: u8)
    requires
        palette.wf(),
    ensures
        is_nearest(palette.entries@, c, r as int),
{
    let e0 = palette.entries[0];
    let dr0: i32 = e0.r as i32 - c.r as i32;
    let dg0: i32 = e0.g as i32 - c.g as i32;
    let db0: i32 = e0.b as i32 - c.b as i32;
    proof {
        lemma_sq_bound(dr0 as int);
        lemma_sq_bound(dg0 as int);
        lemma_sq_bound(db0 as int);
    }
    let mut best_d: i32 = dr0 * dr0 + dg0 * dg0 + db0 * db0;
    let mut best_i: usize = 0;
    let mut e: usize = 1;
    while e < 256
        invariant
            palette.wf(),
            1 <= e <= 256,
            best_i < e,
            best_d == dist2(palette.entries@[best_i as int], c),
            forall|j: int|
                0 <= j < e ==> best_d <= dist2(palette.entries@[j], c),
            forall|j: int| 0 <= j < best_i ==> dist2(palette.entries@[j], c) > best_d,
        decreases 256 - e,
    {
        let pe = palette.entries[e];
        let dr: i32 = pe.r as i32 - c.r as i32;
        let dg: i32 = pe.g as i32 - c.g as i32;
        let db: i32 = pe.b as i32 - c.b as i32;
        proof {
            lemma_sq_bound(dr as int);
            lemma_sq_bound(dg as int);
            lemma_sq_bound(db as int);
        }
        let d: i32 = dr * dr + dg * dg + db * db;
        if d < best_d {
            best_d = d;
            best_i = e;
        }
        e = e + 1;
    }
    best_i as u8
}

/// The flat row-major cell index of a color inside the volume.
pub open spec fn flat_index(c: Color) -> int {
    c.r * 0x10000 + c.g * 0x100 + c.b
}

/// Two colors with the same cell index are the same color.
pub proof fn lemma_flat_index_injective(c1: Color, c2: Color)
    requires
        flat_index(c1) == flat_index(c2),
    ensures
        c1 == c2,
{
    assert(c1.r == c2.r && c1.g == c2.g && c1.b == c2.b) by (nonlinear_arith)
        requires
            c1.r * 0x10000 + c1.g * 0x100 + c1.b == c2.r * 0x10000 + c2.g * 0x100 + c2.b,
            c1.r < 256, c1.g < 256, c1.b < 256,
            c2.r < 256, c2.g < 256, c2.b < 256;
}

/// The dense 256x256x256 lookup volume together with the palette it was
/// built from. Built once, then only ever sampled.
pub struct PaletteIndexLUT {
    pub palette: Palette,
    pub table: Vec<u8>,
}

impl PaletteIndexLUT {
    /// Every cell of the volume holds the nearest palette index of its color.
    pub open spec fn wf(self) -> bool {
        &&& self.palette.wf()
        &&& self.table@.len() == 0x1000000
        &&& forall|c: Color| is_nearest(self.palette.entries@, c, #[trigger] self.table@[flat_index(c)] as int)
    }

    /// Builds the volume: one pass over all 256^3 cells, each cell receiving
    /// the first palette index at minimal squared distance.
    ///
    /// The scan over the palette is pruned with the red-green part of the
    /// distance, which never changes the chosen index: a candidate whose
    /// red-green distance already reaches the best full distance cannot win.
    pub fn new(palette: Palette) -> (lut: PaletteIndexLUT)
        requires
            palette.wf(),
        ensures
            lut.wf(),
            lut.palette == palette,
    {
        let mut table: Vec<u8> = Vec::new();
        let mut r: usize = 0;
        while r < 256
            invariant
                palette.wf(),
                r <= 256,
                table@.len() == r * 0x10000,
                forall|c: Color|
                    flat_index(c) < table@.len()
                        ==> is_nearest(palette.entries@, c, #[trigger] table@[flat_index(c)] as int),
            decreases 256 - r,
        {
            let mut g: usize = 0;
            while g < 256
                invariant
                    palette.wf(),
                    r < 256,
                    g <= 256,
                    table@.len() == r * 0x10000 + g * 0x100,
                    forall|c: Color|
                        flat_index(c) < table@.len()
                            ==> is_nearest(palette.entries@, c, #[trigger] table@[flat_index(c)] as int),
                decreases 256 - g,
            {
                // Red-green distances of every entry to this (r, g) slice.
                let mut partial: Vec<i32> = Vec::new();
                let mut e: usize = 0;
                while e < 256
                    invariant
                        palette.wf(),
                        r < 256,
                        g < 256,
                        e <= 256,
                        partial@.len() == e,
                        forall|k: int| 0 <= k < e ==> 0 <= #[trigger] partial@[k] <= 130050,
                        forall|k: int|
                            0 <= k < e ==> partial@[k] == dist2_rg(
                                palette.entries@[k],
                                (Color { r: r as u8, g: g as u8, b: 0 }),
                            ),
                    decreases 256 - e,
                {
                    let pe = palette.entries[e];
                    let dr: i32 = pe.r as i32 - r as i32;
                    let dg: i32 = pe.g as i32 - g as i32;
                    proof {
                        lemma_sq_bound(dr as int);
                        lemma_sq_bound(dg as int);
                    }
                    partial.push(dr * dr + dg * dg);
                    e = e + 1;
                }
                let mut b: usize = 0;
                while b < 256
                    invariant
                        palette.wf(),
                        r < 256,
                        g < 256,
                        b <= 256,
                        partial@.len() == 256,
                        forall|k: int| 0 <= k < 256 ==> 0 <= #[trigger] partial@[k] <= 130050,
                        forall|k: int|
                            0 <= k < 256 ==> partial@[k] == dist2_rg(
                                palette.entries@[k],
                                (Color { r: r as u8, g: g as u8, b: 0 }),
                            ),
                        table@.len() == r * 0x10000 + g * 0x100 + b,
                        forall|c: Color|
                            flat_index(c) < table@.len()
                                ==> is_nearest(palette.entries@, c, #[trigger] table@[flat_index(c)] as int),
                    decreases 256 - b,
                {
                    let ghost cell = Color { r: r as u8, g: g as u8, b: b as u8 };
                    let e0 = palette.entries[0];
                    let db0: i32 = e0.b as i32 - b as i32;
                    proof {
                        lemma_sq_bound(db0 as int);
                        assert(dist2(palette.entries@[0], cell)
                            == dist2_rg(palette.entries@[0], (Color { r: r as u8, g: g as u8, b: 0 }))
                                + db0 * db0);
                    }
                    let mut best_d: i32 = partial[0] + db0 * db0;
                    let mut best_i: usize = 0;
                    let mut e: usize = 1;
                    while e < 256
                        invariant
                            palette.wf(),
                            r < 256,
                            g < 256,
                            b < 256,
                            cell == (Color { r: r as u8, g: g as u8, b: b as u8 }),
                            partial@.len() == 256,
                            forall|k: int| 0 <= k < 256 ==> 0 <= #[trigger] partial@[k] <= 130050,
                            forall|k: int|
                                0 <= k < 256 ==> partial@[k] == dist2_rg(
                                    palette.entries@[k],
                                    (Color { r: r as u8, g: g as u8, b: 0 }),
                                ),
                            1 <= e <= 256,
                            best_i < e,
                            best_d == dist2(palette.entries@[best_i as int], cell),
                            forall|j: int|
                                0 <= j < e ==> best_d <= dist2(palette.entries@[j], cell),
                            forall|j: int|
                                0 <= j < best_i ==> dist2(palette.entries@[j], cell) > best_d,
                        decreases 256 - e,
                    {
                        let p = partial[e];
                        proof {
                            lemma_dist2_properties(palette.entries@[e as int], cell);
                            assert(dist2_rg(palette.entries@[e as int], cell)
                                == dist2_rg(
                                    palette.entries@[e as int],
                                    (Color { r: r as u8, g: g as u8, b: 0 }),
                                ));
                        }
                        if p < best_d {
                            let pe = palette.entries[e];
                            let db: i32 = pe.b as i32 - b as i32;
                            proof {
                                lemma_sq_bound(db as int);
                                assert(dist2(palette.entries@[e as int], cell)
                                    == dist2_rg(palette.entries@[e as int], cell) + db * db);
                            }
                            let d: i32 = p + db * db;
                            if d < best_d {
                                best_d = d;
                                best_i = e;
                            }
                        }
                        e = e + 1;
                    }
                    table.push(best_i as u8);
                    proof {
                        assert(flat_index(cell) == table@.len() - 1);
                        assert forall|c: Color| flat_index(c) < table@.len()
                            implies is_nearest(palette.entries@, c, table@[flat_index(c)] as int) by {
                            if flat_index(c) == table@.len() - 1 {
                                lemma_flat_index_injective(c, cell);
                            }
                        }
                    }
                    b = b + 1;
                }
                g = g + 1;
            }
            r = r + 1;
        }
        PaletteIndexLUT { palette, table }
    }
}

/// For a palette of pairwise distinct entries, the built volume maps the
/// color of entry `i` back to index `i` exactly: the round trip for
/// in-palette colors.
pub proof fn lemma_lut_round_trip(lut: PaletteIndexLUT, i: int)
    requires
        lut.wf(),
        0 <= i < 256,
        forall|j: int, k: int|
            0 <= j < k < 256 ==> lut.palette.entries@[j] != lut.palette.entries@[k],
    ensures
        lut.table@[flat_index(lut.palette.entries@[i])] == i,
{
    let c = lut.palette.entries@[i];
    lemma_nearest_round_trip(lut.palette.entries@, i);
    assert(is_nearest(lut.palette.entries@, c, lut.table@[flat_index(c)] as int));
    lemma_nearest_unique(lut.palette.entries@, c, i, lut.table@[flat_index(c)] as int);
}

/// The per-pixel kernel of the quantization pass: samples the lookup volume
/// at a pixel's color, yielding that color's nearest palette index.
pub fn lut_lookup_pixel_shader(lut: &PaletteIndexLUT, c: Color) -> (r: u8)
    requires
        lut.wf(),
    ensures
        is_nearest(lut.palette.entries@, c, r as int),
{
    let idx: usize = (c.r as usize) * 0x10000 + (c.g as usize) * 0x100 + (c.b as usize);
    proof {
        assert(idx == flat_index(c));
        assert(is_nearest(lut.palette.entries@, c, lut.table@[flat_index(c)] as int));
    }
    lut.table[idx]
}

} // verus!
