//! The layout engine: a greedy search over column counts that lays the
//! sorted entries out column-major in the widest grid that fits the
//! terminal, falling back to one (possibly overflowing) column.

use vstd::prelude::*;

use crate::file_entry::FileEntry;
use crate::unicode::{display_width_of, str_width};

verus! {

/// The grid one render pass works from: column count, rows, and one width
/// per column. Rebuilt on every render, never persisted.
#[derive(Debug)]
pub struct LayoutGrid {
    /// Number of columns, at most four and at most the entry count.
    pub num_columns: usize,
    /// Number of rows, the ceiling of entries over columns.
    pub num_rows: usize,
    /// The display width of each column: the widest entry placed in it.
    pub column_widths: Vec<usize>,
}

/// One printable cell: icon, name, and the spaces owed after them.
#[derive(Debug)]
pub struct Cell {
    /// The entry's icon.
    pub emoji: String,
    /// The entry's name.
    pub name: String,
    /// Trailing padding: fill to the column width plus the two-space
    /// gutter, and zero after the last occupied column of a row.
    pub pad: usize,
}

/// The display width of one entry: icon width, one separator column, name
/// width.
pub open spec fn spec_entry_width(e: FileEntry) -> int {
    display_width_of(e.emoji@) as int + 1 + display_width_of(e.name@) as int
}

/// Rows needed for `n` entries in `c` columns: the ceiling of `n / c`.
pub open spec fn spec_rows(n: int, c: int) -> int {
    (n + c - 1) / c
}

/// Largest width in `ws[lo..hi)`, `0` when the range is empty.
pub open spec fn range_max(ws: Seq<usize>, lo: int, hi: int) -> int
    decreases hi - lo,
{
    if lo >= hi {
        0
    } else if ws[hi - 1] as int > range_max(ws, lo, hi - 1) {
        ws[hi - 1] as int
    } else {
        range_max(ws, lo, hi - 1)
    }
}

/// First entry position of column `k` under a column-major fill with `rows`
/// entries per column: position `k·rows`, clamped to `n`.
pub open spec fn spec_col_lo(n: int, rows: int, k: int) -> int
    decreases k,
{
    if k <= 0 {
        0
    } else if spec_col_lo(n, rows, k - 1) + rows > n {
        n
    } else {
        spec_col_lo(n, rows, k - 1) + rows
    }
}

/// Width of column `k` in a `c`-column layout: the widest entry among the
/// positions the column holds.
pub open spec fn spec_col_width(ws: Seq<usize>, c: int, k: int) -> int {
    let n = ws.len() as int;
    let rows = spec_rows(n, c);
    range_max(ws, spec_col_lo(n, rows, k), spec_col_lo(n, rows, k + 1))
}

/// Sum of the widths of columns `[0, k)` in a `c`-column layout.
pub open spec fn sum_col_widths(ws: Seq<usize>, c: int, k: int) -> int
    decreases k,
{
    if k <= 0 {
        0
    } else {
        sum_col_widths(ws, c, k - 1) + spec_col_width(ws, c, k - 1)
    }
}

/// Total display width of a `c`-column layout: the column widths plus a
/// two-space gutter between adjacent columns.
pub open spec fn spec_total_width(ws: Seq<usize>, c: int) -> int {
    sum_col_widths(ws, c, c) + 2 * (c - 1)
}

/// Does a `c`-column layout of entries with widths `ws` fit in `w` columns
/// of terminal?
pub open spec fn spec_fits(ws: Seq<usize>, c: int, w: int) -> bool {
    spec_total_width(ws, c) <= w
}

/// The grid `g` is the `c = g.num_columns` column-major layout of entries
/// with widths `ws`: rows are the ceiling of entries over columns, and each
/// column is as wide as the widest entry it holds. Zero entries make the
/// empty grid; otherwise the column count stays between one, and four or
/// the entry count, whichever is smaller.
pub open spec fn grid_matches(g: LayoutGrid, ws: Seq<usize>) -> bool {
    let n = ws.len() as int;
    let c = g.num_columns as int;
    &&& g.column_widths@.len() == c
    &&& (n == 0 ==> c == 0 && g.num_rows == 0)
    &&& (n > 0 ==> {
        &&& 1 <= c <= 4
        &&& c <= n
        &&& g.num_rows as int == spec_rows(n, c)
        &&& forall|k: int|
            0 <= k < c ==> #[trigger] g.column_widths@[k] as int == spec_col_width(ws, c, k)
    })
}

/// No column count above the chosen one (up to four and the entry count)
/// would have fit the terminal.
pub open spec fn grid_greedy(g: LayoutGrid, ws: Seq<usize>, w: int) -> bool {
    let n = ws.len() as int;
    let c = g.num_columns as int;
    &&& forall|c2: int| c < c2 <= 4 && c2 <= n ==> !spec_fits(ws, c2, w)
    &&& (c > 1 ==> spec_fits(ws, c, w))
}

/// Widths never go below zero, so a range maximum never does either.
proof fn lemma_range_max_nonneg(ws: Seq<usize>, lo: int, hi: int)
    ensures
        range_max(ws, lo, hi) >= 0,
    decreases hi - lo,
{
    if lo < hi {
        lemma_range_max_nonneg(ws, lo, hi - 1);
    }
}

/// Every width in the range is bounded by the range maximum.
proof fn lemma_range_max_ge(ws: Seq<usize>, lo: int, hi: int, i: int)
    requires
        lo <= i < hi,
    ensures
        ws[i] as int <= range_max(ws, lo, hi),
    decreases hi - lo,
{
    if i < hi - 1 {
        lemma_range_max_ge(ws, lo, hi - 1, i);
    }
}

/// Partial sums of column widths only grow: each added column width is
/// non-negative.
proof fn lemma_sum_mono(ws: Seq<usize>, c: int, k1: int, k2: int)
    requires
        0 <= k1 <= k2,
    ensures
        sum_col_widths(ws, c, k1) <= sum_col_widths(ws, c, k2),
    decreases k2 - k1,
{
    if k1 < k2 {
        lemma_sum_mono(ws, c, k1, k2 - 1);
        lemma_range_max_nonneg(
            ws,
            spec_col_lo(ws.len() as int, spec_rows(ws.len() as int, c), k2 - 1),
            spec_col_lo(ws.len() as int, spec_rows(ws.len() as int, c), k2),
        );
    }
}

/// `(n - 1) / c + 1` computes the ceiling of `n / c` for positive `n`.
proof fn lemma_ceil_div(n: int, c: int)
    requires
        n >= 1,
        c >= 1,
    ensures
        (n - 1) / c + 1 == spec_rows(n, c),
{
    vstd::arithmetic::div_mod::lemma_hoist_over_denominator(n - 1, 1, c as nat);
    assert(1 * c == c);
}

/// The per-column widths of a `c`-column layout.
fn col_widths(ws: &Vec<usize>, c: usize) -> (r: Vec<usize>)
    requires
        1 <= c <= ws@.len(),
    ensures
        r@.len() == c,
        forall|k: int| 0 <= k < c ==> #[trigger] r@[k] as int == spec_col_width(ws@, c as int, k),
{
    let n = ws.len();
    let rows = (n - 1) / c + 1;
    proof {
        lemma_ceil_div(n as int, c as int);
    }
    let mut r: Vec<usize> = Vec::new();
    let mut start: usize = 0;
    let mut k: usize = 0;
    while k < c
        invariant
            k <= c,
            r@.len() == k,
            n == ws@.len(),
            1 <= c <= n,
            rows as int == spec_rows(n as int, c as int),
            start as int == spec_col_lo(n as int, rows as int, k as int),
            start <= n,
            forall|kk: int|
                0 <= kk < k ==> #[trigger] r@[kk] as int == spec_col_width(ws@, c as int, kk),
        decreases c - k,
    {
        let hi = if rows > n - start {
            n
        } else {
            start + rows
        };
        proof {
            assert(hi as int == spec_col_lo(n as int, rows as int, k + 1));
        }
        let mut m: usize = 0;
        let mut i = start;
        while i < hi
            invariant
                start <= i <= hi,
                hi <= n,
                n == ws@.len(),
                m as int == range_max(ws@, start as int, i as int),
            decreases hi - i,
        {
            if ws[i] > m {
                m = ws[i];
            }
            i = i + 1;
        }
        r.push(m);
        start = hi;
        k = k + 1;
    }
    r
}

/// Tries a `c`-column layout: the per-column widths when they fit the
/// terminal, nothing when they do not.
fn try_columns(ws: &Vec<usize>, c: usize, term_width: usize) -> (r: Option<Vec<usize>>)
    requires
        1 <= c <= ws@.len(),
        c <= 4,
    ensures
        r is Some ==> spec_fits(ws@, c as int, term_width as int) && r.unwrap()@.len() == c
            && (forall|k: int|
            0 <= k < c ==> #[trigger] r.unwrap()@[k] as int == spec_col_width(ws@, c as int, k)),
        r is None ==> !spec_fits(ws@, c as int, term_width as int),
{
    let cw = col_widths(ws, c);
    let mut total: usize = 2 * (c - 1);
    let mut k: usize = 0;
    while k < c
        invariant
            k <= c,
            c <= 4,
            cw@.len() == c,
            ws@.len() >= c,
            forall|kk: int|
                0 <= kk < c ==> #[trigger] cw@[kk] as int == spec_col_width(ws@, c as int, kk),
            total as int == sum_col_widths(ws@, c as int, k as int) + 2 * (c - 1),
        decreases c - k,
    {
        match total.checked_add(cw[k]) {
            Some(t) => {
                total = t;
            },
            None => {
                proof {
                    lemma_sum_mono(ws@, c as int, k + 1, c as int);
                }
                return None;
            },
        }
        k = k + 1;
    }
    if total <= term_width {
        Some(cw)
    } else {
        None
    }
}

/// Chooses the layout for entries whose display widths are `widths`, in a
/// terminal `term_width` columns wide: the largest column count up to four
/// (and up to the entry count) whose column-major layout fits, and failing
/// all, a single column that may overflow. The chosen grid never exceeds
/// the terminal width except in that single-column fallback.
pub fn compute_layout(widths: &Vec<usize>, term_width: usize) -> (g: LayoutGrid)
    ensures
        grid_matches(g, widths@),
        grid_greedy(g, widths@, term_width as int),
{
    let n = widths.len();
    if n == 0 {
        return LayoutGrid { num_columns: 0, num_rows: 0, column_widths: Vec::new() };
    }
    let maxc = if n < 4 {
        n
    } else {
        4
    };
    let mut c = maxc;
    while c > 1
        invariant
            1 <= c <= maxc,
            maxc <= 4,
            n == widths@.len(),
            1 <= n,
            n < 4 ==> maxc == n,
            n >= 4 ==> maxc == 4,
            forall|c2: int| c < c2 <= 4 && c2 <= n ==> !spec_fits(widths@, c2, term_width as int),
        decreases c,
    {
        match try_columns(widths, c, term_width) {
            Some(cw) => {
                let rows = (n - 1) / c + 1;
                proof {
                    lemma_ceil_div(n as int, c as int);
                }
                return LayoutGrid { num_columns: c, num_rows: rows, column_widths: cw };
            },
            None => {
                c = c - 1;
            },
        }
    }
    let cw = col_widths(widths, 1);
    LayoutGrid { num_columns: 1, num_rows: n, column_widths: cw }
}

/// Linear position of the cell at `(row, k)` in a column-major fill:
/// `row + k·rows`.
pub open spec fn spec_cell_index(rows: int, row: int, k: int) -> int
    decreases k,
{
    if k <= 0 {
        row
    } else {
        spec_cell_index(rows, row, k - 1) + rows
    }
}

/// The display widths of the entries, read as machine words: meaningful
/// where every entry's width fits one.
pub open spec fn spec_widths(entries: Seq<FileEntry>) -> Seq<usize> {
    Seq::new(entries.len(), |i: int| spec_entry_width(entries[i]) as usize)
}

/// One row of cells is the row-major reading of the column-major grid:
/// cell `k` shows the entry at position `row + k·rows`, occupied cells form
/// a prefix of the columns, and each cell owes its column's fill plus the
/// gutter — except the last occupied cell of the row, which owes nothing.
pub open spec fn row_cells_match(
    cells: Seq<Cell>,
    entries: Seq<FileEntry>,
    widths: Seq<usize>,
    g: LayoutGrid,
    row: int,
) -> bool {
    let n = entries.len() as int;
    let c = g.num_columns as int;
    let rows = g.num_rows as int;
    &&& cells.len() <= c
    &&& (cells.len() < c ==> spec_cell_index(rows, row, cells.len() as int) >= n)
    &&& (forall|k: int|
        0 <= k < cells.len() ==> cell_ok(
            #[trigger] cells[k],
            entries,
            widths,
            c,
            rows,
            row,
            k,
            k + 1 < cells.len(),
        ))
}

/// One cell shows the entry at its position, with the fill-plus-gutter
/// padding when `padded` and none otherwise.
pub open spec fn cell_ok(
    cell: Cell,
    entries: Seq<FileEntry>,
    widths: Seq<usize>,
    c: int,
    rows: int,
    row: int,
    k: int,
    padded: bool,
) -> bool {
    let idx = spec_cell_index(rows, row, k);
    &&& idx < entries.len()
    &&& cell.emoji == entries[idx].emoji
    &&& cell.name == entries[idx].name
    &&& cell.pad as int == (if padded {
        spec_col_width(widths, c, k) - widths[idx] + 2
    } else {
        0
    })
}

/// For `n` entries in `c` columns there are at least as many rows as one
/// and at most as many as entries.
proof fn lemma_rows_bounds(n: int, c: int)
    requires
        n >= 1,
        c >= 1,
    ensures
        1 <= spec_rows(n, c) <= n,
{
    lemma_ceil_div(n, c);
    vstd::arithmetic::div_mod::lemma_div_is_ordered_by_denominator(n - 1, 1, c);
    vstd::arithmetic::div_mod::lemma_div_pos_is_pos(n - 1, c);
    assert((n - 1) / 1 == n - 1);
}

/// An occupied cell of column `k` sits inside that column's range of
/// positions.
proof fn lemma_cell_in_column(n: int, rows: int, row: int, k: int)
    requires
        0 <= row < rows,
        0 <= k,
        spec_cell_index(rows, row, k) < n,
    ensures
        spec_col_lo(n, rows, k) <= spec_cell_index(rows, row, k) < spec_col_lo(n, rows, k + 1),
    decreases k,
{
    if k == 0 {
        assert(spec_col_lo(n, rows, 0) == 0);
    } else {
        lemma_cell_in_column(n, rows, row, k - 1);
    }
}

/// A column width never exceeds the total width of a layout with a gutter
/// to spare, once a second column exists.
proof fn lemma_col_width_le_total(ws: Seq<usize>, c: int, k: int)
    requires
        0 <= k < c,
        2 <= c,
    ensures
        spec_col_width(ws, c, k) + 2 <= spec_total_width(ws, c),
{
    lemma_sum_mono(ws, c, 0, k);
    lemma_sum_mono(ws, c, k + 1, c);
    lemma_range_max_nonneg(
        ws,
        spec_col_lo(ws.len() as int, spec_rows(ws.len() as int, c), k),
        spec_col_lo(ws.len() as int, spec_rows(ws.len() as int, c), k + 1),
    );
}

/// The display width of one entry: icon width, one separator column, name
/// width. Nothing is owed when the sum cannot be counted in terminal
/// columns at all.
pub fn entry_width(e: &FileEntry) -> (r: Option<usize>)
    ensures
        r is Some ==> r.unwrap() as int == spec_entry_width(*e),
        r is None ==> spec_entry_width(*e) > usize::MAX,
{
    let we = str_width(e.emoji.as_str());
    let wn = str_width(e.name.as_str());
    match we.checked_add(1) {
        Some(t) => t.checked_add(wn),
        None => None,
    }
}

/// The display widths of all entries, or nothing as soon as one cannot be
/// counted.
pub fn entry_widths(entries: &Vec<FileEntry>) -> (r: Option<Vec<usize>>)
    ensures
        r is Some ==> r.unwrap()@ == spec_widths(entries@),
        r is Some <==> (forall|i: int|
            0 <= i < entries@.len() ==> spec_entry_width(#[trigger] entries@[i]) <= usize::MAX),
{
    let mut ws: Vec<usize> = Vec::new();
    let mut i: usize = 0;
    while i < entries.len()
        invariant
            i <= entries@.len(),
            ws@.len() == i,
            forall|j: int| 0 <= j < i ==> #[trigger] ws@[j] as int == spec_entry_width(entries@[j]),
            forall|j: int|
                0 <= j < i ==> spec_entry_width(#[trigger] entries@[j]) <= usize::MAX,
        decreases entries@.len() - i,
    {
        match entry_width(&entries[i]) {
            Some(w) => {
                ws.push(w);
            },
            None => {
                return None;
            },
        }
        i = i + 1;
    }
    proof {
        assert(ws@ =~= spec_widths(entries@));
    }
    Some(ws)
}

/// Reads the grid as printable rows: for each row, the cells of its
/// occupied columns, each entry padded to its column width plus the
/// two-space gutter, with no padding after the last occupied cell.
pub fn render_rows(entries: &Vec<FileEntry>, widths: &Vec<usize>, grid: &LayoutGrid) -> (r: Vec<
    Vec<Cell>,
>)
    requires
        widths@.len() == entries@.len(),
        grid_matches(*grid, widths@),
        grid.num_columns as int > 1 ==> spec_total_width(widths@, grid.num_columns as int)
            <= usize::MAX,
    ensures
        r@.len() == grid.num_rows,
        forall|row: int|
            0 <= row < r@.len() ==> row_cells_match(
                (#[trigger] r@[row])@,
                entries@,
                widths@,
                *grid,
                row,
            ),
{
    let n = entries.len();
    let c = grid.num_columns;
    let rows = grid.num_rows;
    let mut out: Vec<Vec<Cell>> = Vec::new();
    let mut row: usize = 0;
    proof {
        if rows > 0 {
            lemma_rows_bounds(n as int, c as int);
        }
    }
    while row < rows
        invariant
            row <= rows,
            out@.len() == row,
            n == entries@.len(),
            widths@.len() == n,
            c == grid.num_columns,
            rows == grid.num_rows,
            grid_matches(*grid, widths@),
            c as int > 1 ==> spec_total_width(widths@, c as int) <= usize::MAX,
            rows > 0 ==> n > 0 && c >= 1 && rows <= n,
            forall|rr: int|
                0 <= rr < row ==> row_cells_match((#[trigger] out@[rr])@, entries@, widths@, *grid, rr),
        decreases rows - row,
    {
        let mut cells: Vec<Cell> = Vec::new();
        let mut k: usize = 0;
        let mut idx: usize = row;
        let mut done: bool = false;
        while !done
            invariant
                k == cells@.len(),
                k <= c,
                n == entries@.len(),
                widths@.len() == n,
                c == grid.num_columns,
                rows == grid.num_rows,
                grid_matches(*grid, widths@),
                c as int > 1 ==> spec_total_width(widths@, c as int) <= usize::MAX,
                0 <= row < rows,
                rows <= n,
                !done ==> k < c && idx < n && idx as int == spec_cell_index(
                    rows as int,
                    row as int,
                    k as int,
                ),
                done ==> k == c || spec_cell_index(rows as int, row as int, k as int) >= n,
                forall|kk: int|
                    0 <= kk < k ==> cell_ok(
                        #[trigger] cells@[kk],
                        entries@,
                        widths@,
                        c as int,
                        rows as int,
                        row as int,
                        kk,
                        kk + 1 < k || (!done && kk + 1 == k),
                    ),
            decreases c - k,
        {
            let next_exists = k + 1 < c && rows <= n - 1 - idx;
            proof {
                lemma_cell_in_column(n as int, rows as int, row as int, k as int);
                lemma_range_max_ge(
                    widths@,
                    spec_col_lo(n as int, rows as int, k as int),
                    spec_col_lo(n as int, rows as int, k + 1),
                    idx as int,
                );
                if next_exists {
                    lemma_col_width_le_total(widths@, c as int, k as int);
                }
            }
            let pad: usize = if next_exists {
                grid.column_widths[k] - widths[idx] + 2
            } else {
                0
            };
            let ghost prev_cells = cells@;
            let ghost k_prev = k as int;
            cells.push(
                Cell { emoji: entries[idx].emoji.clone(), name: entries[idx].name.clone(), pad },
            );
            k = k + 1;
            if next_exists {
                idx = idx + rows;
            } else {
                done = true;
                proof {
                    if k < c {
                        assert(spec_cell_index(rows as int, row as int, k as int) == idx + rows);
                    }
                }
            }
            proof {
                assert forall|kk: int| 0 <= kk < k implies cell_ok(
                    #[trigger] cells@[kk],
                    entries@,
                    widths@,
                    c as int,
                    rows as int,
                    row as int,
                    kk,
                    kk + 1 < k || (!done && kk + 1 == k),
                ) by {
                    if kk < k_prev {
                        assert(cells@[kk] == prev_cells[kk]);
                        assert(cell_ok(
                            prev_cells[kk],
                            entries@,
                            widths@,
                            c as int,
                            rows as int,
                            row as int,
                            kk,
                            kk + 1 < k_prev || kk + 1 == k_prev,
                        ));
                    } else {
                        assert(cells@[kk] == cells@[k_prev]);
                    }
                }
            }
        }
        out.push(cells);
        row = row + 1;
    }
    out
}

/// Classified, sorted entries in, printable rows out: measures every
/// entry, chooses the greedy layout for the terminal width, and reads the
/// grid row by row. Nothing comes back only when some entry is too wide to
/// measure at all.
pub fn layout_entries(entries: &Vec<FileEntry>, term_width: usize) -> (r: Option<
    (LayoutGrid, Vec<Vec<Cell>>),
>)
    ensures
        r is Some <==> (forall|i: int|
            0 <= i < entries@.len() ==> spec_entry_width(#[trigger] entries@[i]) <= usize::MAX),
        r is Some ==> grid_matches(r.unwrap().0, spec_widths(entries@)) && grid_greedy(
            r.unwrap().0,
            spec_widths(entries@),
            term_width as int,
        ),
        r is Some ==> r.unwrap().1@.len() == r.unwrap().0.num_rows && (forall|row: int|
            0 <= row < r.unwrap().1@.len() ==> row_cells_match(
                (#[trigger] r.unwrap().1@[row])@,
                entries@,
                spec_widths(entries@),
                r.unwrap().0,
                row,
            )),
{
    let ws = match entry_widths(entries) {
        Some(ws) => ws,
        None => {
            return None;
        },
    };
    let grid = compute_layout(&ws, term_width);
    let rows = render_rows(entries, &ws, &grid);
    Some((grid, rows))
}

} // verus!
