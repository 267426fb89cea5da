use crate::raster::Size;
use vstd::prelude::*;

verus! {

/// A `w` by `h` terminal is filled across its whole width when `w` columns are
/// at most `h` rows of glyphs with width-to-height ratio
/// `aspect_num / aspect_den`.
pub open spec fn limited_by_width(w: nat, h: nat, aspect_num: nat, aspect_den: nat) -> bool {
    w * aspect_den <= aspect_num * h
}

/// The raster width for a `w` by `h` terminal: all columns when the width
/// limits, else the columns that `h` rows take at the glyph aspect ratio.
pub open spec fn fitted_width(w: nat, h: nat, aspect_num: nat, aspect_den: nat) -> nat {
    if limited_by_width(w, h, aspect_num, aspect_den) {
        w
    } else {
        h * aspect_num / aspect_den
    }
}

/// The raster height for a `w` by `h` terminal: the rows that `w` columns
/// take at the glyph aspect ratio when the width limits, else all rows.
pub open spec fn fitted_height(w: nat, h: nat, aspect_num: nat, aspect_den: nat) -> nat {
    if limited_by_width(w, h, aspect_num, aspect_den) {
        w * aspect_den / aspect_num
    } else {
        h
    }
}

/// A height made odd: an even height loses one row, an odd one stays.
pub open spec fn odd_height_of(h: nat) -> nat {
    (h - 1 + h % 2) as nat
}

/// The raster size that fits a `w` by `h` terminal whose glyphs have the
/// width-to-height ratio `aspect_num / aspect_den`, as (width, height). One
/// dimension is the terminal's own; the other is scaled by the ratio and
/// rounded down.
pub fn term_transform(w: u16, h: u16, aspect_num: u16, aspect_den: u16) -> (r: (usize, usize))
    requires
        aspect_num > 0,
        aspect_den > 0,
    ensures
        r.0 == fitted_width(w as nat, h as nat, aspect_num as nat, aspect_den as nat),
        r.1 == fitted_height(w as nat, h as nat, aspect_num as nat, aspect_den as nat),
{
    let w64 = w as u64;
    let h64 = h as u64;
    let num = aspect_num as u64;
    let den = aspect_den as u64;
    assert(w64 * den <= 0xffff * 0xffff) by (nonlinear_arith)
        requires
            w64 <= 0xffff,
            den <= 0xffff,
    {
    }
    assert(num * h64 <= 0xffff * 0xffff) by (nonlinear_arith)
        requires
            h64 <= 0xffff,
            num <= 0xffff,
    {
    }
    if w64 * den <= num * h64 {
        let fitted = w64 * den / num;
        (w as usize, fitted as usize)
    } else {
        let fitted = h64 * num / den;
        (fitted as usize, h as usize)
    }
}

/// Makes a positive height odd: `h - 1 + h % 2`.
pub fn odd_height(h: usize) -> (r: usize)
    requires
        h > 0,
    ensures
        r == odd_height_of(h as nat),
        r % 2 == 1,
        r == h || r + 1 == h,
{
    h - 1 + h % 2
}

/// The raster to draw on a `w` by `h` terminal with glyph aspect ratio
/// `aspect_num / aspect_den`: the fitted width and the fitted height made
/// odd. `None` when the fitted raster would have no columns or no rows, or
/// when its pixel count does not fit in a `usize`.
pub fn fit_terminal(w: u16, h: u16, aspect_num: u16, aspect_den: u16) -> (r: Option<Size>)
    requires
        aspect_num > 0,
        aspect_den > 0,
    ensures
        ({
            let fw = fitted_width(w as nat, h as nat, aspect_num as nat, aspect_den as nat);
            let fh = fitted_height(w as nat, h as nat, aspect_num as nat, aspect_den as nat);
            &&& r is Some <==> (fw > 0 && fh > 0 && fw * odd_height_of(fh) <= usize::MAX)
            &&& r matches Some(s) ==> s.spec_width() == fw && s.spec_height() == odd_height_of(fh)
        }),
{
    let (fw, fh) = term_transform(w, h, aspect_num, aspect_den);
    if fw == 0 || fh == 0 {
        return None;
    }
    let oh = odd_height(fh);
    match fw.checked_mul(oh) {
        Some(_) => Some(Size::new(fw, oh)),
        None => None,
    }
}

} // verus!
