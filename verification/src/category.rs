//! Product category resolution: the single source of truth every renderer
//! shares for a departure's glyph and color.

use vstd::prelude::*;
use crate::text::{ascii_lower, contains_seq, str_contains_lower};

verus! {

/// The transit vehicle classes the board distinguishes.
#[derive(Clone, Copy, Debug, PartialEq, Eq, Structural)]
pub enum ProductCategory {
    Subway,
    Suburban,
    Bus,
    Tram,
    Other,
}

/// The category a raw product/mode string resolves to: a case-insensitive
/// substring match, tried in the fixed priority order subway, suburban, bus,
/// tram; anything else is `Other`.
pub open spec fn category_spec(product: Seq<char>) -> ProductCategory {
    if contains_seq(ascii_lower(product), "subway"@) {
        ProductCategory::Subway
    } else if contains_seq(ascii_lower(product), "suburban"@) {
        ProductCategory::Suburban
    } else if contains_seq(ascii_lower(product), "bus"@) {
        ProductCategory::Bus
    } else if contains_seq(ascii_lower(product), "tram"@) {
        ProductCategory::Tram
    } else {
        ProductCategory::Other
    }
}

/// Resolve a raw product/mode string to its category.
pub fn product_category(product: &str) -> (r: ProductCategory)
    ensures
        r == category_spec(product@),
{
    if str_contains_lower(product, "subway") {
        ProductCategory::Subway
    } else if str_contains_lower(product, "suburban") {
        ProductCategory::Suburban
    } else if str_contains_lower(product, "bus") {
        ProductCategory::Bus
    } else if str_contains_lower(product, "tram") {
        ProductCategory::Tram
    } else {
        ProductCategory::Other
    }
}

/// Category resolution is total and deterministic: every string resolves to
/// exactly one of the five categories, and when several of the four named
/// substrings occur, the earlier one in the order subway, suburban, bus,
/// tram decides.
pub proof fn lemma_category_priority(product: Seq<char>)
    ensures
        contains_seq(ascii_lower(product), "subway"@) ==> category_spec(product)
            == ProductCategory::Subway,
        !contains_seq(ascii_lower(product), "subway"@) && contains_seq(
            ascii_lower(product),
            "suburban"@,
        ) ==> category_spec(product) == ProductCategory::Suburban,
        !contains_seq(ascii_lower(product), "subway"@) && !contains_seq(
            ascii_lower(product),
            "suburban"@,
        ) && contains_seq(ascii_lower(product), "bus"@) ==> category_spec(product)
            == ProductCategory::Bus,
        !contains_seq(ascii_lower(product), "subway"@) && !contains_seq(
            ascii_lower(product),
            "suburban"@,
        ) && !contains_seq(ascii_lower(product), "bus"@) && contains_seq(
            ascii_lower(product),
            "tram"@,
        ) ==> category_spec(product) == ProductCategory::Tram,
        !contains_seq(ascii_lower(product), "subway"@) && !contains_seq(
            ascii_lower(product),
            "suburban"@,
        ) && !contains_seq(ascii_lower(product), "bus"@) && !contains_seq(
            ascii_lower(product),
            "tram"@,
        ) ==> category_spec(product) == ProductCategory::Other,
{
}

/// The glyph a category is drawn with.
pub open spec fn symbol_spec(c: ProductCategory) -> Seq<char> {
    match c {
        ProductCategory::Subway => "\u{1F687}"@,
        ProductCategory::Suburban => "\u{1F686}"@,
        ProductCategory::Bus => "\u{1F68C}"@,
        ProductCategory::Tram => "\u{1F683}"@,
        ProductCategory::Other => "\u{1F680}"@,
    }
}

/// The glyph for a raw product/mode string.
pub fn product_symbol(product: &str) -> (r: &'static str)
    ensures
        r@ == symbol_spec(category_spec(product@)),
{
    match product_category(product) {
        ProductCategory::Subway => "\u{1F687}",
        ProductCategory::Suburban => "\u{1F686}",
        ProductCategory::Bus => "\u{1F68C}",
        ProductCategory::Tram => "\u{1F683}",
        ProductCategory::Other => "\u{1F680}",
    }
}

/// The fixed color of a category, written `#RRGGBB`.
pub open spec fn hex_spec(c: ProductCategory) -> Seq<char> {
    match c {
        ProductCategory::Subway => "#00539F"@,
        ProductCategory::Suburban => "#00854A"@,
        ProductCategory::Bus => "#95276E"@,
        ProductCategory::Tram => "#BE1414"@,
        ProductCategory::Other => "#00FFFF"@,
    }
}

/// The color code for a raw product/mode string.
pub fn product_hex(product: &str) -> (r: &'static str)
    ensures
        r@ == hex_spec(category_spec(product@)),
{
    match product_category(product) {
        ProductCategory::Subway => "#00539F",
        ProductCategory::Suburban => "#00854A",
        ProductCategory::Bus => "#95276E",
        ProductCategory::Tram => "#BE1414",
        ProductCategory::Other => "#00FFFF",
    }
}

/// `s` with every leading `'#'` removed.
pub open spec fn strip_hash(s: Seq<char>) -> Seq<char>
    decreases s.len(),
{
    if s.len() > 0 && s[0] == '#' {
        strip_hash(s.skip(1))
    } else {
        s
    }
}

/// Value of a hexadecimal digit, `-1` for any other character.
pub open spec fn hex_digit_val(c: char) -> int {
    match c {
        '0' => 0,
        '1' => 1,
        '2' => 2,
        '3' => 3,
        '4' => 4,
        '5' => 5,
        '6' => 6,
        '7' => 7,
        '8' => 8,
        '9' => 9,
        'a' | 'A' => 10,
        'b' | 'B' => 11,
        'c' | 'C' => 12,
        'd' | 'D' => 13,
        'e' | 'E' => 14,
        'f' | 'F' => 15,
        _ => -1,
    }
}

/// Value of a two-digit hexadecimal pair; 255 when either character is no
/// hexadecimal digit (the fallback the renderers use for a bad color code).
pub open spec fn hex_pair_val(hi: char, lo: char) -> int {
    if hex_digit_val(hi) >= 0 && hex_digit_val(lo) >= 0 {
        16 * hex_digit_val(hi) + hex_digit_val(lo)
    } else {
        255
    }
}

/// The red, green and blue channels encoded by the first six characters of a
/// color code already stripped of its `'#'`.
pub open spec fn rgb_spec(s: Seq<char>) -> (int, int, int) {
    (hex_pair_val(s[0], s[1]), hex_pair_val(s[2], s[3]), hex_pair_val(s[4], s[5]))
}

fn hex_digit(c: char) -> (r: u8)
    ensures
        hex_digit_val(c) >= 0 ==> r as int == hex_digit_val(c),
        hex_digit_val(c) < 0 ==> r == 255,
{
    match c {
        '0' => 0,
        '1' => 1,
        '2' => 2,
        '3' => 3,
        '4' => 4,
        '5' => 5,
        '6' => 6,
        '7' => 7,
        '8' => 8,
        '9' => 9,
        'a' | 'A' => 10,
        'b' | 'B' => 11,
        'c' | 'C' => 12,
        'd' | 'D' => 13,
        'e' | 'E' => 14,
        'f' | 'F' => 15,
        _ => 255,
    }
}

fn hex_pair(hi: char, lo: char) -> (r: u8)
    ensures
        r as int == hex_pair_val(hi, lo),
{
    let h = hex_digit(hi);
    let l = hex_digit(lo);
    if h <= 15 && l <= 15 {
        16 * h + l
    } else {
        255
    }
}

/// Decode a `#RRGGBB` color code (any number of leading `'#'` is skipped) to
/// its three channels; a malformed pair decodes to 255.
pub fn hex_to_rgb(hex: &str) -> (rgb: (u8, u8, u8))
    requires
        strip_hash(hex@).len() >= 6,
    ensures
        (rgb.0 as int, rgb.1 as int, rgb.2 as int) == rgb_spec(strip_hash(hex@)),
{
    let n = hex.unicode_len();
    let mut i: usize = 0;
    proof {
        assert(hex@.skip(0) =~= hex@);
    }
    while i < n && hex.get_char(i) == '#'
        invariant
            i <= n,
            n == hex@.len(),
            strip_hash(hex@.skip(i as int)) == strip_hash(hex@),
        decreases n - i,
    {
        proof {
            assert(hex@.skip(i as int).skip(1) =~= hex@.skip(i as int + 1));
        }
        i += 1;
    }
    let ghost stripped = strip_hash(hex@);
    proof {
        assert(hex@.skip(i as int) == stripped);
    }
    let r = hex_pair(hex.get_char(i), hex.get_char(i + 1));
    let g = hex_pair(hex.get_char(i + 2), hex.get_char(i + 3));
    let b = hex_pair(hex.get_char(i + 4), hex.get_char(i + 5));
    proof {
        assert(stripped[0] == hex@[i as int]);
    }
    (r, g, b)
}

} // verus!
