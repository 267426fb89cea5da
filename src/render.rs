use crate::raster::Size;
use crate::symbol::{symbol_of, to_symbol};
use itertools::Itertools;
use vstd::prelude::*;

verus! {

/// The text of raster row `row`: the symbols of the iteration counts of its
/// `width` pixels, left to right, then a line break.
pub open spec fn row_text(counts: Seq<usize>, width: nat, row: nat) -> Seq<char> {
    Seq::new(width, |c: int| symbol_of(counts[row * width + c] as int)).push('\n')
}

/// The text of the first `rows` raster rows, top to bottom.
pub open spec fn raster_text(counts: Seq<usize>, width: nat, rows: nat) -> Seq<char>
    decreases rows,
{
    if rows == 0 {
        Seq::empty()
    } else {
        raster_text(counts, width, (rows - 1) as nat) + row_text(counts, width, (rows - 1) as nat)
    }
}

proof fn lemma_raster_text_layout(counts: Seq<usize>, width: nat, height: nat)
    ensures
        raster_text(counts, width, height).len() == height * (width + 1),
        forall|r: int, c: int|
            0 <= r < height && 0 <= c < width ==> #[trigger] raster_text(counts, width, height)[r
                * (width + 1) + c] == symbol_of(counts[r * width + c] as int),
        forall|r: int|
            0 <= r < height ==> #[trigger] raster_text(counts, width, height)[r * (width + 1)
                + width] == '\n',
    decreases height,
{
    if height > 0 {
        let hp = (height - 1) as nat;
        lemma_raster_text_layout(counts, width, hp);
        let prefix = raster_text(counts, width, hp);
        let last = row_text(counts, width, hp);
        let text = raster_text(counts, width, height);
        assert(text == prefix + last);
        assert(text.len() == height * (width + 1)) by (nonlinear_arith)
            requires
                text.len() == prefix.len() + last.len(),
                prefix.len() == hp * (width + 1),
                last.len() == width + 1,
                hp == height - 1,
        {
        }
        assert forall|r: int, c: int| 0 <= r < height && 0 <= c <= width implies #[trigger] text[r
            * (width + 1) + c] == if c == width {
            '\n'
        } else {
            symbol_of(counts[r * width + c] as int)
        } by {
            if r < hp {
                assert(r * (width + 1) + c < hp * (width + 1)) by (nonlinear_arith)
                    requires
                        r < hp,
                        0 <= c <= width,
                {
                }
                if c < width {
                    assert(prefix[r * (width + 1) + c] == symbol_of(counts[r * width + c] as int));
                } else {
                    assert(prefix[r * (width + 1) + width] == '\n');
                }
            } else {
                assert(r * (width + 1) + c == hp * (width + 1) + c);
                assert(text[r * (width + 1) + c] == last[c]);
            }
        }
        assert forall|r: int, c: int|
            0 <= r < height && 0 <= c < width implies #[trigger] text[r * (width + 1) + c]
            == symbol_of(counts[r * width + c] as int) by {
            assert(text[r * (width + 1) + c] == if c == width {
                '\n'
            } else {
                symbol_of(counts[r * width + c] as int)
            });
        }
        assert forall|r: int| 0 <= r < height implies #[trigger] text[r * (width + 1) + width]
            == '\n' by {
            assert(text[r * (width + 1) + width] == if width == width {
                '\n'
            } else {
                symbol_of(counts[r * width + width] as int)
            });
        }
    } else {
        assert(height * (width + 1) == 0) by (nonlinear_arith)
            requires
                height == 0,
        {
        }
    }
}

/// The text of a `width` by `height` raster has `height` lines of `width`
/// characters each: row `r` takes the `width + 1` positions from
/// `r * (width + 1)` on, holding the symbols of its pixels' counts in column
/// order, none of them a line break, and then a line break.
pub proof fn lemma_raster_layout(counts: Seq<usize>, width: nat, height: nat)
    requires
        counts.len() == width * height,
    ensures
        raster_text(counts, width, height).len() == height * (width + 1),
        forall|r: int, c: int|
            0 <= r < height && 0 <= c < width ==> #[trigger] raster_text(counts, width, height)[r
                * (width + 1) + c] == symbol_of(counts[r * width + c] as int) && symbol_of(
                counts[r * width + c] as int,
            ) != '\n',
        forall|r: int|
            0 <= r < height ==> #[trigger] raster_text(counts, width, height)[r * (width + 1)
                + width] == '\n',
{
    lemma_raster_text_layout(counts, width, height);
}

/// Relies on itertools::Itertools::chunks on `0..total`: consecutive groups
/// of `width` indices, in order, the last group shorter when the indices run
/// out; it panics on a zero `width`.
#[verifier::external_body]
fn index_rows(total: usize, width: usize) -> (r: Vec<Vec<usize>>)
    requires
        width > 0,
    ensures
        r@.len() == (total + width - 1) / width as int,
        forall|k: int|
            0 <= k < r@.len() ==> #[trigger] r@[k]@.len() == (if total - k * width < width {
                total - k * width
            } else {
                width as int
            }),
        forall|k: int, j: int|
            0 <= k < r@.len() && 0 <= j < r@[k]@.len() ==> #[trigger] r@[k]@[j] == k * width + j,
{
    let mut rows = Vec::new();
    for chunk in &(0..total).chunks(width) {
        rows.push(chunk.collect());
    }
    rows
}

/// Relies on String::push: appends the character at the end.
#[verifier::external_body]
fn push_char(s: &mut String, c: char)
    ensures
        final(s)@ == old(s)@.push(c),
{
    s.push(c)
}

/// The text of a whole raster: for each row in order, the symbol of each
/// pixel's iteration count from left to right, then a line break. `counts`
/// holds the iteration counts in raster order (row-major).
pub fn render(size: &Size, counts: &Vec<usize>) -> (r: String)
    requires
        counts@.len() == size.spec_width() * size.spec_height(),
    ensures
        r@ == raster_text(counts@, size.spec_width(), size.spec_height()),
{
    let width = size.width();
    let height = size.height();
    let total = size.total();
    let ghost w = width as int;
    let ghost h = height as int;
    proof {
        assert(total + width - 1 == h * w + (w - 1)) by (nonlinear_arith)
            requires
                total == w * h,
                w == width,
        {
        }
        vstd::arithmetic::div_mod::lemma_fundamental_div_mod_converse(
            (total + width - 1) as int,
            w,
            h,
            w - 1,
        );
    }
    let rows = index_rows(total, width);
    let mut out = String::new();
    let mut k: usize = 0;
    while k < rows.len()
        invariant
            rows@.len() == height,
            total == width * height,
            counts@.len() == total,
            width > 0,
            0 <= k <= height,
            forall|i: int|
                0 <= i < rows@.len() ==> #[trigger] rows@[i]@.len() == (if total - i * width
                    < width {
                    total - i * width
                } else {
                    width as int
                }),
            forall|i: int, j: int|
                0 <= i < rows@.len() && 0 <= j < rows@[i]@.len() ==> #[trigger] rows@[i]@[j] == i
                    * width + j,
            out@ == raster_text(counts@, width as nat, k as nat),
        decreases height - k,
    {
        let row = &rows[k];
        assert(total - k * width >= width) by (nonlinear_arith)
            requires
                total == width * height,
                k < height,
        {
        }
        assert(row@.len() == width);
        let mut j: usize = 0;
        while j < row.len()
            invariant
                row@.len() == width,
                rows@.len() == height,
                row@ == rows@[k as int]@,
                k < height,
                total == width * height,
                counts@.len() == total,
                forall|jj: int| 0 <= jj < row@.len() ==> #[trigger] row@[jj] == k * width + jj,
                0 <= j <= width,
                out@ == raster_text(counts@, width as nat, k as nat) + Seq::new(
                    j as nat,
                    |c: int| symbol_of(counts@[k * width + c] as int),
                ),
            decreases width - j,
        {
            let pos = row[j];
            assert(pos < total) by (nonlinear_arith)
                requires
                    pos == k * width + j,
                    j < width,
                    k < height,
                    total == width * height,
            {
            }
            let ch = to_symbol(counts[pos]);
            push_char(&mut out, ch);
            j = j + 1;
            assert(out@ =~= raster_text(counts@, width as nat, k as nat) + Seq::new(
                j as nat,
                |c: int| symbol_of(counts@[k * width + c] as int),
            ));
        }
        push_char(&mut out, '\n');
        k = k + 1;
        assert(out@ =~= raster_text(counts@, width as nat, k as nat));
    }
    out
}

} // verus!
