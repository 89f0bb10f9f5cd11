use vstd::prelude::*;
use vstd::string::*;

verus! {

/// The flag that marks a colour value as packed 24-bit RGB rather than a palette index.
pub const RGB_FLAG: u32 = 0x1000000;

pub open spec fn hex_digits() -> Seq<char> {
    seq!['0', '1', '2', '3', '4', '5', '6', '7', '8', '9', 'A', 'B', 'C', 'D', 'E', 'F']
}

/// Two upper-case hexadecimal digits of a byte value.
pub open spec fn hex_byte(v: int) -> Seq<char> {
    seq![hex_digits()[v / 16], hex_digits()[v % 16]]
}

/// `#RRGGBB`.
pub open spec fn hex_rgb(r: int, g: int, b: int) -> Seq<char> {
    seq!['#'] + hex_byte(r) + hex_byte(g) + hex_byte(b)
}

/// The sixteen ANSI colours.
pub open spec fn ansi_rgb(i: int) -> (int, int, int) {
    if i == 0 {
        (0x00, 0x00, 0x00)
    } else if i == 1 {
        (0xCC, 0x00, 0x00)
    } else if i == 2 {
        (0x4E, 0x9A, 0x06)
    } else if i == 3 {
        (0xC4, 0xA0, 0x00)
    } else if i == 4 {
        (0x34, 0x65, 0xA4)
    } else if i == 5 {
        (0x75, 0x50, 0x7B)
    } else if i == 6 {
        (0x06, 0x98, 0x9A)
    } else if i == 7 {
        (0xD3, 0xD7, 0xCF)
    } else if i == 8 {
        (0x55, 0x57, 0x53)
    } else if i == 9 {
        (0xEF, 0x29, 0x29)
    } else if i == 10 {
        (0x8A, 0xE2, 0x34)
    } else if i == 11 {
        (0xFC, 0xE9, 0x4F)
    } else if i == 12 {
        (0x72, 0x9F, 0xCF)
    } else if i == 13 {
        (0xAD, 0x7F, 0xA8)
    } else if i == 14 {
        (0x34, 0xE2, 0xE2)
    } else {
        (0xEE, 0xEE, 0xEC)
    }
}

/// One axis of the 6x6x6 colour cube.
pub open spec fn cube_level(v: int) -> int {
    if v > 0 {
        v * 40 + 55
    } else {
        0
    }
}

/// Entry `i` of the initial palette: the ANSI colours, then the colour cube,
/// then 24 grey steps.
pub open spec fn default_rgb(i: int) -> (int, int, int) {
    if i < 16 {
        ansi_rgb(i)
    } else if i < 232 {
        let k = i - 16;
        (cube_level(k / 36), cube_level((k / 6) % 6), cube_level(k % 6))
    } else {
        let v = 8 + (i - 232) * 10;
        (v, v, v)
    }
}

pub open spec fn default_entry(i: int) -> Seq<char> {
    hex_rgb(default_rgb(i).0, default_rgb(i).1, default_rgb(i).2)
}

pub open spec fn default_palette() -> Seq<Seq<char>> {
    Seq::new(256, |i: int| default_entry(i))
}

/// A tagged RGB value packed from its three components.
pub open spec fn rgb_tag(r: u32, g: u32, b: u32) -> u32 {
    (r << 16u32) | (g << 8u32) | b | RGB_FLAG
}

/// The colour that a value names: a tagged RGB value by its own components,
/// else the palette entry, else white.
pub open spec fn color_name(palette: Seq<Seq<char>>, index: u32) -> Seq<char> {
    if index & RGB_FLAG != 0 {
        hex_rgb(
            ((index >> 16u32) & 0xffu32) as int,
            ((index >> 8u32) & 0xffu32) as int,
            (index & 0xffu32) as int,
        )
    } else if index < palette.len() {
        palette[index as int]
    } else {
        hex_rgb(255, 255, 255)
    }
}

fn push_hex_byte(s: &mut String, v: u8)
    ensures
        final(s)@ == old(s)@ + hex_byte(v as int),
{
    let digits = "0123456789ABCDEF";
    proof {
        reveal_strlit("0123456789ABCDEF");
    }
    assert(digits@ == hex_digits());
    assert(digits.is_ascii());
    let hi = (v / 16) as usize;
    let lo = (v % 16) as usize;
    s.append(digits.substring_ascii(hi, hi + 1));
    s.append(digits.substring_ascii(lo, lo + 1));
    assert(digits@.subrange(hi as int, hi + 1) =~= seq![hex_digits()[v as int / 16]]);
    assert(digits@.subrange(lo as int, lo + 1) =~= seq![hex_digits()[v as int % 16]]);
    assert(old(s)@ + hex_byte(v as int) =~= old(s)@ + seq![hex_digits()[v as int / 16]] + seq![
        hex_digits()[v as int % 16],
    ]);
}

/// `#RRGGBB` for three byte values.
pub fn hex_color(r: u8, g: u8, b: u8) -> (s: String)
    ensures
        s@ == hex_rgb(r as int, g as int, b as int),
{
    let hash = "#";
    proof {
        reveal_strlit("#");
    }
    let mut s = String::from_str(hash);
    push_hex_byte(&mut s, r);
    push_hex_byte(&mut s, g);
    push_hex_byte(&mut s, b);
    assert(s@ =~= hex_rgb(r as int, g as int, b as int));
    s
}

fn ansi_rgb_exec(i: u8) -> (r: (u8, u8, u8))
    requires
        i < 16,
    ensures
        (r.0 as int, r.1 as int, r.2 as int) == ansi_rgb(i as int),
{
    if i == 0 {
        (0x00, 0x00, 0x00)
    } else if i == 1 {
        (0xCC, 0x00, 0x00)
    } else if i == 2 {
        (0x4E, 0x9A, 0x06)
    } else if i == 3 {
        (0xC4, 0xA0, 0x00)
    } else if i == 4 {
        (0x34, 0x65, 0xA4)
    } else if i == 5 {
        (0x75, 0x50, 0x7B)
    } else if i == 6 {
        (0x06, 0x98, 0x9A)
    } else if i == 7 {
        (0xD3, 0xD7, 0xCF)
    } else if i == 8 {
        (0x55, 0x57, 0x53)
    } else if i == 9 {
        (0xEF, 0x29, 0x29)
    } else if i == 10 {
        (0x8A, 0xE2, 0x34)
    } else if i == 11 {
        (0xFC, 0xE9, 0x4F)
    } else if i == 12 {
        (0x72, 0x9F, 0xCF)
    } else if i == 13 {
        (0xAD, 0x7F, 0xA8)
    } else if i == 14 {
        (0x34, 0xE2, 0xE2)
    } else {
        (0xEE, 0xEE, 0xEC)
    }
}

fn cube_level_exec(v: u8) -> (r: u8)
    requires
        v < 6,
    ensures
        r as int == cube_level(v as int),
{
    if v > 0 {
        v * 40 + 55
    } else {
        0
    }
}

/// The components of entry `i` of the initial palette.
fn default_rgb_exec(i: u8) -> (r: (u8, u8, u8))
    ensures
        (r.0 as int, r.1 as int, r.2 as int) == default_rgb(i as int),
{
    if i < 16 {
        ansi_rgb_exec(i)
    } else if i < 232 {
        let k = i - 16;
        (cube_level_exec(k / 36), cube_level_exec((k / 6) % 6), cube_level_exec(k % 6))
    } else {
        let v = 8 + (i - 232) * 10;
        (v, v, v)
    }
}

/// The 256-entry palette a screen starts with.
pub fn default_palette_exec() -> (p: Vec<String>)
    ensures
        p@.map_values(|s: String| s@) == default_palette(),
{
    let mut p: Vec<String> = Vec::new();
    let mut i: usize = 0;
    while i < 256
        invariant
            i <= 256,
            p@.len() == i,
            forall|j: int| 0 <= j < i ==> (#[trigger] p@[j])@ == default_entry(j),
        decreases 256 - i,
    {
        let (r, g, b) = default_rgb_exec(i as u8);
        p.push(hex_color(r, g, b));
        i = i + 1;
    }
    assert(p@.map_values(|s: String| s@) =~= default_palette());
    p
}

/// The colour that `index` names, as `#RRGGBB` or the palette's text.
pub fn color_text(palette: &Vec<String>, index: u32) -> (s: String)
    ensures
        s@ == color_name(palette@.map_values(|x: String| x@), index),
{
    if index & RGB_FLAG != 0 {
        let r = ((index >> 16) & 0xff) as u8;
        let g = ((index >> 8) & 0xff) as u8;
        let b = (index & 0xff) as u8;
        assert((index >> 16u32) & 0xffu32 <= 0xff) by (bit_vector);
        assert((index >> 8u32) & 0xffu32 <= 0xff) by (bit_vector);
        assert(index & 0xffu32 <= 0xff) by (bit_vector);
        hex_color(r, g, b)
    } else if (index as usize) < palette.len() {
        palette[index as usize].clone()
    } else {
        hex_color(255, 255, 255)
    }
}

} // verus!
