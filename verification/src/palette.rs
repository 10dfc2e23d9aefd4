//! The session palette: an ordered table of exactly 256 RGB entries.

use vstd::prelude::*;
use crate::color::Color;

verus! {

/// Number of entries every session palette holds.
pub const PALETTE_ENTRIES: usize = 256;

/// The entry a caller-supplied byte string describes at index `i`: three
/// consecutive bytes starting at `3 * i`, each missing byte read as zero.
/// Truncation and padding of ill-sized palettes both fall out of this rule.
pub open spec fn entry_of_bytes(bytes: Seq<u8>, i: int) -> Color {
    Color {
        r: if 3 * i < bytes.len() { bytes[3 * i] } else { 0 },
        g: if 3 * i + 1 < bytes.len() { bytes[3 * i + 1] } else { 0 },
        b: if 3 * i + 2 < bytes.len() { bytes[3 * i + 2] } else { 0 },
    }
}

/// An ordered color table of exactly 256 entries, fixed for a session.
pub struct Palette {
    pub entries: Vec<Color>,
}

impl Palette {
    pub open spec fn wf(self) -> bool {
        self.entries@.len() == 256
    }

    /// Builds the session palette from caller-supplied `[r, g, b, ...]` bytes,
    /// truncating extra entries and padding missing ones with black.
    pub fn normalize(bytes: &Vec<u8>) -> (r: Palette)
        ensures
            r.wf(),
            forall|i: int| 0 <= i < 256 ==> r.entries@[i] == entry_of_bytes(bytes@, i),
    {
        let mut entries: Vec<Color> = Vec::new();
        let mut i: usize = 0;
        while i < PALETTE_ENTRIES
            invariant
                i <= 256,
                entries@.len() == i,
                forall|k: int| 0 <= k < i ==> entries@[k] == entry_of_bytes(bytes@, k),
            decreases 256 - i,
        {
            let r = if 3 * i < bytes.len() { bytes[3 * i] } else { 0 };
            let g = if 3 * i + 1 < bytes.len() { bytes[3 * i + 1] } else { 0 };
            let b = if 3 * i + 2 < bytes.len() { bytes[3 * i + 2] } else { 0 };
            entries.push(Color { r, g, b });
            i = i + 1;
        }
        Palette { entries }
    }

    /// Flattens the palette back to 768 `[r, g, b, ...]` bytes, the form the
    /// output sink takes as its global color table.
    pub fn to_rgb_bytes(&self) -> (r: Vec<u8>)
        requires
            self.wf(),
        ensures
            r@.len() == 768,
            forall|i: int| 0 <= i < 256 ==> {
                &&& r@[3 * i] == self.entries@[i].r
                &&& r@[3 * i + 1] == self.entries@[i].g
                &&& r@[3 * i + 2] == self.entries@[i].b
            },
    {
        let mut bytes: Vec<u8> = Vec::new();
        let mut i: usize = 0;
        while i < PALETTE_ENTRIES
            invariant
                i <= 256,
                self.wf(),
                bytes@.len() == 3 * i,
                forall|k: int| 0 <= k < i ==> {
                    &&& bytes@[3 * k] == self.entries@[k].r
                    &&& bytes@[3 * k + 1] == self.entries@[k].g
                    &&& bytes@[3 * k + 2] == self.entries@[k].b
                },
            decreases 256 - i,
        {
            let e = self.entries[i];
            bytes.push(e.r);
            bytes.push(e.g);
            bytes.push(e.b);
            i = i + 1;
        }
        bytes
    }
}

/// The red component the default palette holds at entry `i`: the 216-color
/// cube (each channel in six evenly spaced steps of 51) followed by 40
/// evenly spread gray levels.
pub open spec fn default_entry_red(i: int) -> int {
    if i < 216 {
        ((i / 36) % 6) * 51
    } else {
        ((i - 216) * 255) / 39
    }
}

/// The green component of default palette entry `i`.
pub open spec fn default_entry_green(i: int) -> int {
    if i < 216 {
        ((i / 6) % 6) * 51
    } else {
        ((i - 216) * 255) / 39
    }
}

/// The blue component of default palette entry `i`.
pub open spec fn default_entry_blue(i: int) -> int {
    if i < 216 {
        (i % 6) * 51
    } else {
        ((i - 216) * 255) / 39
    }
}

/// A general-purpose default palette: the 216-color cube followed by 40
/// gray levels, flattened to `[r, g, b, ...]` bytes.
pub fn default_palette() -> (r: Vec<u8>)
    ensures
        r@.len() == 768,
        forall|i: int| 0 <= i < 256 ==> {
            &&& #[trigger] r@[3 * i] == default_entry_red(i)
            &&& r@[3 * i + 1] == default_entry_green(i)
            &&& r@[3 * i + 2] == default_entry_blue(i)
        },
{
    let mut bytes: Vec<u8> = Vec::new();
    let mut e: usize = 0;
    while e < 256
        invariant
            e <= 256,
            bytes@.len() == 3 * e,
            forall|i: int| 0 <= i < e ==> {
                &&& #[trigger] bytes@[3 * i] == default_entry_red(i)
                &&& bytes@[3 * i + 1] == default_entry_green(i)
                &&& bytes@[3 * i + 2] == default_entry_blue(i)
            },
        decreases 256 - e,
    {
        let ghost before = bytes@;
        let red: usize;
        let green: usize;
        let blue: usize;
        if e < 216 {
            red = ((e / 36) % 6) * 51;
            green = ((e / 6) % 6) * 51;
            blue = (e % 6) * 51;
        } else {
            let v = ((e - 216) * 255) / 39;
            red = v;
            green = v;
            blue = v;
        }
        bytes.push(red as u8);
        bytes.push(green as u8);
        bytes.push(blue as u8);
        proof {
            assert(bytes@[3 * (e as int)] == default_entry_red(e as int));
            assert(bytes@[3 * (e as int) + 1] == default_entry_green(e as int));
            assert(bytes@[3 * (e as int) + 2] == default_entry_blue(e as int));
            assert forall|i: int| 0 <= i < e implies {
                &&& #[trigger] bytes@[3 * i] == default_entry_red(i)
                &&& bytes@[3 * i + 1] == default_entry_green(i)
                &&& bytes@[3 * i + 2] == default_entry_blue(i)
            } by {
                assert(bytes@[3 * i] == before[3 * i]);
                assert(bytes@[3 * i + 1] == before[3 * i + 1]);
                assert(bytes@[3 * i + 2] == before[3 * i + 2]);
            }
        }
        e = e + 1;
    }
    bytes
}

} // verus!
