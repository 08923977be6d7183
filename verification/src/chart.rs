//! Rasterization of a rate series into a character grid: one bar per
//! sample, solid blocks below the bar top, an eighth-block glyph for
//! sub-row resolution, and numeric axis labels on the top, middle and
//! bottom rows only. The result is a pure function of the series and
//! the grid size.

use vstd::prelude::*;

use crate::format::{
    chars_to_string, dec_chars, dec_digits, digit_char, digit_char_exec, pad_left, pad_left_exec,
    spaces,
};
use crate::history::last_window;
use crate::stats::{seq_low, seq_peak};

verus! {

/// The nine block-density glyphs, from blank to a full block.
pub open spec fn block_char(i: int) -> char {
    if i <= 0 {
        ' '
    } else if i == 1 {
        '\u{2581}'
    } else if i == 2 {
        '\u{2582}'
    } else if i == 3 {
        '\u{2583}'
    } else if i == 4 {
        '\u{2584}'
    } else if i == 5 {
        '\u{2585}'
    } else if i == 6 {
        '\u{2586}'
    } else if i == 7 {
        '\u{2587}'
    } else {
        '\u{2588}'
    }
}

/// Every value equals or exceeds the running minimum and equals or
/// falls below the running maximum.
pub proof fn lemma_low_peak_bounds(s: Seq<u64>)
    ensures
        forall|i: int| 0 <= i < s.len() ==> seq_low(s) <= #[trigger] s[i] <= seq_peak(s),
    decreases s.len(),
{
    if s.len() > 0 {
        lemma_low_peak_bounds(s.drop_last());
        assert(forall|i: int| 0 <= i < s.len() - 1 ==> s.drop_last()[i] == s[i]);
    }
}

/// The character of grid cell `(r, c)` for a bar of value `v` on a
/// scale from `lo` over `range`: the bar's top row is the value's
/// normalized position from the top (clamped into the grid, so the
/// minimum value still fills the bottom row); the top row and all rows
/// below it are solid; the row just above carries an eighth-block glyph
/// when the fractional position is visible enough; all else is blank.
pub open spec fn cell_char(v: u64, lo: u64, range: int, height: int, r: int) -> char
    recommends
        range >= 1,
        height >= 1,
        0 <= r < height,
        lo <= v,
        v - lo <= range,
{
    let ynum = height * (range - (v - lo));
    let yint = ynum / range;
    let frac = ynum % range;
    let top = if yint < height {
        yint
    } else {
        height - 1
    };
    if r >= top {
        '\u{2588}'
    } else if yint > 0 && r == yint - 1 && 10 * frac > range {
        block_char(8 * (range - frac) / range)
    } else {
        ' '
    }
}

/// `whole.t`: a quantity with one decimal place.
pub open spec fn one_decimal(whole: int, tenth: int) -> Seq<char> {
    dec_digits(whole) + seq!['.', digit_char(tenth)]
}

/// An axis label: values of a million or more in `M` with one decimal,
/// a thousand or more in `K` with one decimal, anything else plain with
/// one decimal, each right-aligned to seven characters.
pub open spec fn chart_label(v: u64) -> Seq<char> {
    if v >= 1000000 {
        pad_left(one_decimal(v as int / 1000000, (v as int % 1000000) / 100000), 6).push('M')
    } else if v >= 1000 {
        pad_left(one_decimal(v as int / 1000, (v as int % 1000) / 100), 6).push('K')
    } else {
        pad_left(one_decimal(v as int, 0), 7)
    }
}

/// The label column of row `r`: the maximum on the top row, the
/// minimum on the bottom row, the midpoint on the middle row, blank
/// padding of the same width everywhere else.
pub open spec fn row_label(r: int, height: int, lo: u64, hi: u64) -> Seq<char> {
    if r == 0 {
        chart_label(hi)
    } else if r == height - 1 {
        chart_label(lo)
    } else if r == height / 2 {
        chart_label(((lo + hi) / 2) as u64)
    } else {
        spaces(7)
    }
}

/// The bar cells of row `r`: one bar per selected sample, and blank
/// columns out to the full grid width when the series is shorter.
pub open spec fn row_cells(sel: Seq<u64>, lo: u64, range: int, height: int, r: int, width: int) -> Seq<
    char,
> {
    Seq::new(
        width as nat,
        |c: int|
            if c < sel.len() {
                cell_char(sel[c], lo, range, height, r)
            } else {
                ' '
            },
    )
}

/// The scale range of a selection: its value spread, or one for a flat
/// selection, so that normalization never divides by zero.
pub open spec fn chart_range(sel: Seq<u64>) -> int {
    if seq_peak(sel) == seq_low(sel) {
        1
    } else {
        seq_peak(sel) - seq_low(sel)
    }
}

/// Row `r` of the chart of `series` on a `height` by `width` grid: the
/// label column, a space, the axis bar, and the row's cells. The chart
/// plots the last `width` samples of the series, scaled between their
/// minimum and maximum.
pub open spec fn spec_chart_row(series: Seq<u64>, height: int, width: int, r: int) -> Seq<char> {
    let sel = last_window(series, width as nat);
    let lo = seq_low(sel);
    let hi = seq_peak(sel);
    row_label(r, height, lo, hi) + seq![' ', '|'] + row_cells(
        sel,
        lo,
        chart_range(sel),
        height,
        r,
        width,
    )
}

/// Law: the chart is a pure function of the series and the grid size.
/// Any two renderings of the same input are identical, character for
/// character: every row of each equals the one spec row.
pub proof fn lemma_render_deterministic(
    series: Seq<u64>,
    height: int,
    width: int,
    rows1: Seq<Seq<char>>,
    rows2: Seq<Seq<char>>,
)
    requires
        rows1.len() == height,
        rows2.len() == height,
        forall|r: int| 0 <= r < height ==> #[trigger] rows1[r] == spec_chart_row(
            series,
            height,
            width,
            r,
        ),
        forall|r: int| 0 <= r < height ==> #[trigger] rows2[r] == spec_chart_row(
            series,
            height,
            width,
            r,
        ),
    ensures
        rows1 =~= rows2,
{
}

/// The glyph for block-density index `i`.
fn block_char_exec(i: u64) -> (c: char)
    ensures
        c == block_char(i as int),
{
    match i {
        0 => ' ',
        1 => '\u{2581}',
        2 => '\u{2582}',
        3 => '\u{2583}',
        4 => '\u{2584}',
        5 => '\u{2585}',
        6 => '\u{2586}',
        7 => '\u{2587}',
        _ => '\u{2588}',
    }
}

/// The character of grid cell `(r, c)` for a bar of value `v`.
fn cell_char_exec(v: u64, lo: u64, range: u64, height: usize, r: usize) -> (c: char)
    requires
        range >= 1,
        height >= 1,
        r < height,
        lo <= v,
        v - lo <= range,
    ensures
        c == cell_char(v, lo, range as int, height as int, r as int),
{
    let diff: u64 = range - (v - lo);
    proof {
        assert((height as int) * (diff as int) <= u128::MAX) by (nonlinear_arith)
            requires
                0 <= height <= u64::MAX,
                0 <= diff <= u64::MAX,
        ;
    }
    let num: u128 = (height as u128) * (diff as u128);
    let r128: u128 = range as u128;
    proof {
        assert((num as int) / (r128 as int) <= height) by (nonlinear_arith)
            requires
                r128 >= 1,
                num == (height as int) * (diff as int),
                0 <= diff <= r128,
                height >= 0,
        ;
    }
    let yint128: u128 = num / r128;
    let frac: u128 = num % r128;
    let yint: usize = yint128 as usize;
    let top: usize = if yint < height {
        yint
    } else {
        height - 1
    };
    if r >= top {
        '\u{2588}'
    } else if yint > 0 && r == yint - 1 && 10 * frac > r128 {
        proof {
            assert((8 * ((r128 as int) - frac)) / (r128 as int) <= 8) by (nonlinear_arith)
                requires
                    r128 >= 1,
                    0 <= frac <= r128,
            ;
        }
        let gidx: u128 = 8 * (r128 - frac) / r128;
        block_char_exec(gidx as u64)
    } else {
        ' '
    }
}

/// An axis label, right-aligned to seven characters.
fn chart_label_exec(v: u64) -> (l: Vec<char>)
    ensures
        l@ == chart_label(v),
{
    if v >= 1000000 {
        let mut num = dec_chars(v / 1000000);
        num.push('.');
        num.push(digit_char_exec((v % 1000000) / 100000));
        let mut l = pad_left_exec(&num, 6);
        l.push('M');
        proof {
            assert(num@ =~= one_decimal(v as int / 1000000, (v as int % 1000000) / 100000));
        }
        l
    } else if v >= 1000 {
        let mut num = dec_chars(v / 1000);
        num.push('.');
        num.push(digit_char_exec((v % 1000) / 100));
        let mut l = pad_left_exec(&num, 6);
        l.push('K');
        proof {
            assert(num@ =~= one_decimal(v as int / 1000, (v as int % 1000) / 100));
        }
        l
    } else {
        let mut num = dec_chars(v);
        num.push('.');
        num.push('0');
        proof {
            assert(num@ =~= one_decimal(v as int, 0));
        }
        pad_left_exec(&num, 7)
    }
}

/// The last `width` samples of `series`.
fn select_window(series: &Vec<u64>, width: usize) -> (sel: Vec<u64>)
    requires
        width >= 1,
    ensures
        sel@ == last_window(series@, width as nat),
{
    let n = series.len();
    let start = if n > width {
        n - width
    } else {
        0
    };
    let mut sel: Vec<u64> = Vec::new();
    for i in start..n
        invariant
            n == series@.len(),
            start <= i <= n,
            start == if n > width {
                n - width
            } else {
                0int
            },
            sel@ =~= series@.subrange(start as int, i as int),
    {
        sel.push(series[i]);
        assert(sel@ =~= series@.subrange(start as int, i + 1));
    }
    proof {
        assert(sel@ =~= last_window(series@, width as nat));
    }
    sel
}

/// The scale of a selection: its minimum, its maximum, and its range
/// with the flat-selection fallback of one.
fn scale_of(sel: &Vec<u64>) -> (s: (u64, u64, u64))
    requires
        sel@.len() > 0,
    ensures
        s.0 == seq_low(sel@),
        s.1 == seq_peak(sel@),
        s.2 == chart_range(sel@),
{
    let m = sel.len();
    let mut lo: u64 = u64::MAX;
    let mut hi: u64 = 0;
    for i in 0..m
        invariant
            m == sel@.len(),
            lo == seq_low(sel@.take(i as int)),
            hi == seq_peak(sel@.take(i as int)),
    {
        proof {
            assert(sel@.take(i + 1).drop_last() =~= sel@.take(i as int));
        }
        if sel[i] < lo {
            lo = sel[i];
        }
        if sel[i] > hi {
            hi = sel[i];
        }
    }
    proof {
        assert(sel@.take(m as int) =~= sel@);
    }
    let range: u64 = if hi == lo {
        1
    } else {
        proof {
            lemma_low_peak_bounds(sel@);
            assert(sel@[0] >= seq_low(sel@) && sel@[0] <= seq_peak(sel@));
        }
        hi - lo
    };
    (lo, hi, range)
}

/// The bar cells of row `r`, out to the full grid width.
fn row_cells_exec(
    sel: &Vec<u64>,
    lo: u64,
    range: u64,
    height: usize,
    r: usize,
    width: usize,
) -> (v: Vec<char>)
    requires
        range >= 1,
        height >= 1,
        r < height,
        sel@.len() <= width,
        lo == seq_low(sel@),
        seq_peak(sel@) <= lo + range,
    ensures
        v@ == row_cells(sel@, lo, range as int, height as int, r as int, width as int),
{
    let ghost cells = row_cells(sel@, lo, range as int, height as int, r as int, width as int);
    proof {
        lemma_low_peak_bounds(sel@);
    }
    let m = sel.len();
    let mut v: Vec<char> = Vec::new();
    for c in 0..width
        invariant
            m == sel@.len() <= width,
            height >= 1,
            r < height,
            range >= 1,
            lo == seq_low(sel@),
            seq_peak(sel@) <= lo + range,
            cells == row_cells(sel@, lo, range as int, height as int, r as int, width as int),
            forall|i: int| 0 <= i < sel@.len() ==> lo <= #[trigger] sel@[i] <= seq_peak(sel@),
            v@ =~= cells.take(c as int),
    {
        if c < m {
            v.push(cell_char_exec(sel[c], lo, range, height, r));
        } else {
            v.push(' ');
        }
        assert(v@ =~= cells.take(c + 1));
    }
    proof {
        assert(cells.take(width as int) =~= cells);
    }
    v
}

/// Renders `series` as a bar chart of `height` rows, plotting its last
/// `width` samples. An empty series or a degenerate grid yields no
/// rows; otherwise exactly `height` rows come back, each row the label
/// column, a space, the axis bar `|`, and `width` cells.
pub fn render_chart(series: &Vec<u64>, height: usize, width: usize) -> (rows: Vec<String>)
    ensures
        series@.len() == 0 || height == 0 || width == 0 ==> rows@.len() == 0,
        series@.len() > 0 && height > 0 && width > 0 ==> {
            &&& rows@.len() == height
            &&& forall|r: int|
                0 <= r < height ==> (#[trigger] rows@[r])@ == spec_chart_row(
                    series@,
                    height as int,
                    width as int,
                    r,
                )
        },
{
    let mut rows: Vec<String> = Vec::new();
    if series.len() == 0 || height == 0 || width == 0 {
        return rows;
    }
    let sel = select_window(series, width);
    let (lo, hi, range) = scale_of(&sel);

    // One row at a time, top down.
    for r in 0..height
        invariant
            0 < sel@.len() <= width,
            sel@ == last_window(series@, width as nat),
            series@.len() > 0,
            height >= 1,
            width >= 1,
            lo == seq_low(sel@),
            hi == seq_peak(sel@),
            range == chart_range(sel@),
            rows@.len() == r,
            forall|q: int|
                0 <= q < r ==> (#[trigger] rows@[q])@ == spec_chart_row(
                    series@,
                    height as int,
                    width as int,
                    q,
                ),
    {
        let mut line: Vec<char>;
        if r == 0 {
            line = chart_label_exec(hi);
        } else if r == height - 1 {
            line = chart_label_exec(lo);
        } else if r == height / 2 {
            let mid: u64 = (((lo as u128) + (hi as u128)) / 2) as u64;
            line = chart_label_exec(mid);
        } else {
            line = Vec::new();
            for k in 0..7usize
                invariant
                    line@ =~= spaces(7).take(k as int),
            {
                line.push(' ');
                assert(line@ =~= spaces(7).take(k + 1));
            }
            assert(line@ =~= spaces(7));
        }
        proof {
            assert(line@ =~= row_label(r as int, height as int, lo, hi));
        }
        line.push(' ');
        line.push('|');
        let mut cells = row_cells_exec(&sel, lo, range, height, r, width);
        line.append(&mut cells);
        proof {
            assert(line@ =~= spec_chart_row(series@, height as int, width as int, r as int));
        }
        rows.push(chars_to_string(&line));
    }
    rows
}

/// Row `r` of the bare grid: the chart row's cells without the label
/// column.
pub open spec fn spec_grid_row(series: Seq<u64>, height: int, width: int, r: int) -> Seq<char> {
    let sel = last_window(series, width as nat);
    row_cells(sel, seq_low(sel), chart_range(sel), height, r, width)
}

/// Rasterizes `series` into the bare character grid of `height` rows
/// by `width` columns: the labeled chart's cells without the label
/// column. An empty series or a degenerate grid yields no rows.
pub fn render_grid(series: &Vec<u64>, height: usize, width: usize) -> (grid: Vec<Vec<char>>)
    ensures
        series@.len() == 0 || height == 0 || width == 0 ==> grid@.len() == 0,
        series@.len() > 0 && height > 0 && width > 0 ==> {
            &&& grid@.len() == height
            &&& forall|r: int|
                0 <= r < height ==> (#[trigger] grid@[r])@ == spec_grid_row(
                    series@,
                    height as int,
                    width as int,
                    r,
                )
        },
{
    let mut grid: Vec<Vec<char>> = Vec::new();
    if series.len() == 0 || height == 0 || width == 0 {
        return grid;
    }
    let sel = select_window(series, width);
    let (lo, hi, range) = scale_of(&sel);
    for r in 0..height
        invariant
            0 < sel@.len() <= width,
            sel@ == last_window(series@, width as nat),
            series@.len() > 0,
            height >= 1,
            width >= 1,
            lo == seq_low(sel@),
            hi == seq_peak(sel@),
            range == chart_range(sel@),
            grid@.len() == r,
            forall|q: int|
                0 <= q < r ==> (#[trigger] grid@[q])@ == spec_grid_row(
                    series@,
                    height as int,
                    width as int,
                    q,
                ),
    {
        grid.push(row_cells_exec(&sel, lo, range, height, r, width));
    }
    grid
}


} // verus!
