//! The compute side of presentation: packing the framebuffer into the 32-bit
//! column words a renderer uploads, and resolving a colour-scheme name to its
//! colour pair. Putting pixels on a screen is the host's business.

use vstd::prelude::*;

verus! {

/// An 8-bit-per-channel colour.
#[derive(Clone, Copy, Debug, PartialEq, Eq, Structural)]
pub struct Rgb {
    pub r: u8,
    pub g: u8,
    pub b: u8,
}

/// A resolved colour scheme. `known` is false when the name was not
/// recognized and the monochrome fallback was taken; the host may warn.
#[derive(Clone, Copy, Debug, PartialEq, Eq, Structural)]
pub struct Palette {
    pub foreground: Rgb,
    pub background: Rgb,
    pub known: bool,
}

pub open spec fn mono_palette(known: bool) -> Palette {
    Palette {
        foreground: Rgb { r: 255, g: 255, b: 255 },
        background: Rgb { r: 0, g: 0, b: 0 },
        known: known,
    }
}

/// The fixed colour-scheme table; every unknown name falls back to "mono".
pub open spec fn palette_spec(name: Seq<char>) -> Palette {
    if name == "amber"@ {
        Palette {
            foreground: Rgb { r: 255, g: 197, b: 0 },
            background: Rgb { r: 30, g: 18, b: 8 },
            known: true,
        }
    } else if name == "pride"@ {
        Palette {
            foreground: Rgb { r: 245, g: 169, b: 184 },
            background: Rgb { r: 91, g: 206, b: 250 },
            known: true,
        }
    } else if name == "moneybags"@ {
        Palette {
            foreground: Rgb { r: 239, g: 152, b: 21 },
            background: Rgb { r: 196, g: 196, b: 196 },
            known: true,
        }
    } else if name == "mono"@ {
        mono_palette(true)
    } else if name == "inverted"@ {
        Palette {
            foreground: Rgb { r: 0, g: 0, b: 0 },
            background: Rgb { r: 255, g: 255, b: 255 },
            known: true,
        }
    } else {
        mono_palette(false)
    }
}

/// Character-by-character string comparison.
fn str_eq(a: &str, b: &str) -> (r: bool)
    ensures
        r == (a@ == b@),
{
    let la = a.unicode_len();
    let lb = b.unicode_len();
    if la != lb {
        return false;
    }
    let mut k: usize = 0;
    while k < la
        invariant
            la == a@.len(),
            lb == b@.len(),
            la == lb,
            k <= la,
            forall|j: int| 0 <= j < k ==> a@[j] == b@[j],
        decreases la - k,
    {
        if a.get_char(k) != b.get_char(k) {
            return false;
        }
        k = k + 1;
    }
    proof {
        assert(a@ =~= b@);
    }
    true
}

/// Resolve a colour-scheme name. Unknown names fall back to monochrome with
/// `known` cleared so the host can warn.
pub fn get_colors(name: &str) -> (p: Palette)
    ensures
        p == palette_spec(name@),
{
    if str_eq(name, "amber") {
        Palette {
            foreground: Rgb { r: 255, g: 197, b: 0 },
            background: Rgb { r: 30, g: 18, b: 8 },
            known: true,
        }
    } else if str_eq(name, "pride") {
        Palette {
            foreground: Rgb { r: 245, g: 169, b: 184 },
            background: Rgb { r: 91, g: 206, b: 250 },
            known: true,
        }
    } else if str_eq(name, "moneybags") {
        Palette {
            foreground: Rgb { r: 239, g: 152, b: 21 },
            background: Rgb { r: 196, g: 196, b: 196 },
            known: true,
        }
    } else if str_eq(name, "mono") {
        Palette {
            foreground: Rgb { r: 255, g: 255, b: 255 },
            background: Rgb { r: 0, g: 0, b: 0 },
            known: true,
        }
    } else if str_eq(name, "inverted") {
        Palette {
            foreground: Rgb { r: 0, g: 0, b: 0 },
            background: Rgb { r: 255, g: 255, b: 255 },
            known: true,
        }
    } else {
        Palette {
            foreground: Rgb { r: 255, g: 255, b: 255 },
            background: Rgb { r: 0, g: 0, b: 0 },
            known: false,
        }
    }
}

/// Bit `yp` of `col` (as 0 or 1).
pub open spec fn col_bit(col: u32, yp: u32) -> u32 {
    (col >> yp) & 1
}

/// Or-ing one bit at `y` into a word keeps the bits below, sets bit `y`, and
/// keeps clear bits above clear.
proof fn lemma_pack_step(col: u32, b: u32, y: u32, yp: u32)
    by (bit_vector)
    requires
        b <= 1,
        y < 32,
        yp < 32,
    ensures
        yp < y ==> ((col | (b << y)) >> yp) & 1 == (col >> yp) & 1,
        yp == y && (col >> yp) & 1 == 0 ==> ((col | (b << y)) >> yp) & 1 == b,
        yp > y && (col >> yp) & 1 == 0 ==> ((col | (b << y)) >> yp) & 1 == 0,
{
}

/// Pack the 64x32 boolean framebuffer into 64 column words: bit y of word x
/// is the cell at row y, column x.
pub fn pack_vram(video_buffer: &Vec<bool>) -> (out: Vec<u32>)
    requires
        video_buffer@.len() == 2048,
    ensures
        out@.len() == 64,
        forall|x: int, y: u32|
            0 <= x < 64 && y < 32 ==> col_bit(out@[x], y) == (if video_buffer@[y as int * 64 + x] {
                1u32
            } else {
                0u32
            }),
{
    let mut out: Vec<u32> = Vec::new();
    let mut x: usize = 0;
    while x < 64
        invariant
            video_buffer@.len() == 2048,
            x <= 64,
            out@.len() == x,
            forall|xx: int, y: u32|
                0 <= xx < x && y < 32 ==> col_bit(out@[xx], y) == (if video_buffer@[y as int * 64
                    + xx] {
                    1u32
                } else {
                    0u32
                }),
        decreases 64 - x,
    {
        let mut col: u32 = 0;
        proof {
            assert(forall|yp: u32| yp < 32 ==> #[trigger] ((0u32 >> yp) & 1) == 0) by (bit_vector);
        }
        let mut y: usize = 0;
        while y < 32
            invariant
                video_buffer@.len() == 2048,
                x < 64,
                y <= 32,
                forall|yp: u32|
                    yp < y ==> col_bit(col, yp) == (if video_buffer@[yp as int * 64 + x as int] {
                        1u32
                    } else {
                        0u32
                    }),
                forall|yp: u32| y <= yp < 32 ==> col_bit(col, yp) == 0,
            decreases 32 - y,
        {
            let b: u32 = if video_buffer[y * 64 + x] {
                1
            } else {
                0
            };
            let ghost col0 = col;
            col = col | (b << (y as u32));
            proof {
                assert forall|yp: u32| yp < 32 implies (if yp <= y {
                    col_bit(col, yp) == (if video_buffer@[yp as int * 64 + x as int] {
                        1u32
                    } else {
                        0u32
                    })
                } else {
                    col_bit(col, yp) == 0
                }) by {
                    let c0: u32 = col_bit(col0, yp);
                    lemma_pack_step(col0, b, y as u32, yp);
                }
            }
            y = y + 1;
        }
        out.push(col);
        x = x + 1;
    }
    out
}

} // verus!
