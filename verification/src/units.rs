//! Units of the layout: micrometres for lengths, hundredths of a point for
//! font sizes, and how font units become micrometres.

use vstd::prelude::*;

verus! {

/// Fixed physical width of the ticket. Every length of the layout is a
/// whole number of micrometres.
pub const PAGE_WIDTH: i64 = 80000;

/// Left edge of the ticket body, in micrometres.
pub const MARGIN_LEFT: i64 = 5000;

/// Right edge of the ticket body, in micrometres.
pub const MARGIN_RIGHT: i64 = 75000;

/// Indent step of the alignment code, in micrometres.
pub const MARGIN_BASE: i64 = 5000;

/// Largest magnitude of a coordinate handed to the layout, in micrometres.
pub const MAX_COORD: i64 = 0x2000_0000_0000_0000;

/// Largest number of characters in one paragraph.
pub const MAX_TEXT_CHARS: usize = 0xFFFF_FFFF;

/// Largest advance of a line, in font units: more than the characters of a
/// paragraph and one blank can have, at 65535 units each.
pub const MAX_UNITS: u64 = 0x1_0000_0000_0000;

/// Whether `v` is a coordinate the layout accepts.
pub open spec fn coord_ok(v: i64) -> bool {
    -MAX_COORD <= v <= MAX_COORD
}

/// Distance between two baselines of a paragraph set in `font_size`
/// hundredths of a point: four tenths of a millimetre per point.
pub open spec fn line_spacing(font_size: u16) -> int {
    4 * font_size
}

/// Width in micrometres, rounded down, of a run of `units` font units set in
/// `font_size` hundredths of a point with a face of `upem` units per em.
/// One point is 0.352778 mm.
pub open spec fn scaled_width(units: nat, font_size: u16, upem: u16) -> int {
    (units * font_size * 352778) / (upem * 100000)
}

/// Whether a run of `units` font units is no wider than `max_width`
/// micrometres. The comparison is exact: nothing is rounded.
pub open spec fn fits(units: nat, font_size: u16, upem: u16, max_width: i64) -> bool {
    units * font_size * 352778 <= max_width * upem * 100000
}

/// Executable form of `line_spacing`.
pub fn spacing_of(font_size: u16) -> (r: i64)
    ensures
        r == line_spacing(font_size),
        0 <= r <= 262140,
{
    4 * (font_size as i64)
}

/// Executable form of `scaled_width`.
pub fn width_of(units: u64, font_size: u16, upem: u16) -> (r: i64)
    requires
        units <= MAX_UNITS,
        16 <= upem,
    ensures
        r == scaled_width(units as nat, font_size, upem),
        0 <= r <= 0x3FFF_FFFF_FFFF_FFFF,
{
    let u: u128 = units as u128;
    let f: u128 = font_size as u128;
    assert(u * f <= 0x1_0000_0000_0000 * 65535) by (nonlinear_arith)
        requires
            u <= 0x1_0000_0000_0000,
            f <= 65535,
    ;
    let num: u128 = u * f * 352778;
    let den: u128 = (upem as u128) * 100000;
    let q: u128 = num / den;
    assert(q <= 0x3FFF_FFFF_FFFF_FFFF) by (nonlinear_arith)
        requires
            q == num / den,
            den >= 1600000,
            num <= 0x1_0000_0000_0000 * 65535 * 352778,
    ;
    q as i64
}

/// Executable form of `fits`.
pub fn fits_in(units: u64, font_size: u16, upem: u16, max_width: i64) -> (r: bool)
    requires
        units <= MAX_UNITS,
    ensures
        r == fits(units as nat, font_size, upem, max_width),
{
    let u: i128 = units as i128;
    let f: i128 = font_size as i128;
    assert(0 <= u * f <= 0x1_0000_0000_0000 * 65535) by (nonlinear_arith)
        requires
            0 <= u <= 0x1_0000_0000_0000,
            0 <= f <= 65535,
    ;
    let lhs: i128 = u * f * 352778;
    let m: i128 = max_width as i128;
    let p: i128 = upem as i128;
    assert(-0x8000_0000_0000_0000 * 65535 <= m * p <= 0x8000_0000_0000_0000 * 65535)
        by (nonlinear_arith)
        requires
            -0x8000_0000_0000_0000 <= m <= 0x8000_0000_0000_0000,
            0 <= p <= 65535,
    ;
    let rhs: i128 = m * p * 100000;
    lhs <= rhs
}

} // verus!
