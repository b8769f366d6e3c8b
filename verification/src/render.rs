//! The timetable as an aligned, bordered text table.
//!
//! A column is as wide as the longest cell in it, measured in bytes of UTF-8.
//! A cell is followed by spaces until it holds that many characters. The
//! table has as many columns as its longest row.

use crate::grid::GridView;
use vstd::prelude::*;
use vstd::utf8::encode_utf8;

verus! {

/// The length of a cell's text in bytes of UTF-8.
pub open spec fn byte_len(cell: Seq<char>) -> nat {
    encode_utf8(cell).len()
}

/// The byte length of cell `c` of `row`; 0 where the row has no such cell.
pub open spec fn cell_width(row: Seq<Seq<char>>, c: int) -> nat {
    if 0 <= c < row.len() {
        byte_len(row[c])
    } else {
        0
    }
}

/// The greater of two lengths.
pub open spec fn longer(a: nat, b: nat) -> nat {
    if a >= b {
        a
    } else {
        b
    }
}

/// The number of columns of the table: the length of the longest row.
pub open spec fn column_count(grid: GridView) -> nat
    decreases grid.len(),
{
    if grid.len() == 0 {
        0
    } else {
        longer(column_count(grid.drop_last()), grid.last().len())
    }
}

/// The width of column `c`: the greatest byte length of a cell in it.
pub open spec fn column_width(grid: GridView, c: int) -> nat
    decreases grid.len(),
{
    if grid.len() == 0 {
        0
    } else {
        longer(column_width(grid.drop_last(), c), cell_width(grid.last(), c))
    }
}

/// `count` copies of `c`.
pub open spec fn repeated(c: char, count: nat) -> Seq<char> {
    Seq::new(count, |i: int| c)
}

/// A cell's text, followed by spaces until it holds `width` characters.
pub open spec fn padded(cell: Seq<char>, width: nat) -> Seq<char> {
    cell + repeated(
        ' ',
        if cell.len() < width {
            (width - cell.len()) as nat
        } else {
            0
        },
    )
}

/// The dashes over the first `n` columns: for each column its width and
/// three more.
pub open spec fn border_cells(grid: GridView, n: int) -> Seq<char>
    decreases n,
{
    if n <= 0 {
        Seq::empty()
    } else {
        border_cells(grid, n - 1) + repeated('-', column_width(grid, n - 1) + 3)
    }
}

/// A border line: the dashes over all columns, one more dash, a line feed.
pub open spec fn border_line(grid: GridView) -> Seq<char> {
    border_cells(grid, column_count(grid) as int) + seq!['-', '\n']
}

/// The first `n` cells of a row as text: for each a pipe and a space, the
/// cell padded to the width of its column, and a space.
pub open spec fn row_cells(grid: GridView, row: Seq<Seq<char>>, n: int) -> Seq<char>
    decreases n,
{
    if n <= 0 {
        Seq::empty()
    } else {
        row_cells(grid, row, n - 1) + seq!['|', ' '] + padded(
            row[n - 1],
            column_width(grid, n - 1),
        ) + seq![' ']
    }
}

/// The line of a row: its cells, a closing pipe, a line feed.
pub open spec fn row_line(grid: GridView, row: Seq<Seq<char>>) -> Seq<char> {
    row_cells(grid, row, row.len() as int) + seq!['|', '\n']
}

/// The lines of the first `n` rows, with a border line after the header row.
pub open spec fn table_rows(grid: GridView, n: int) -> Seq<char>
    decreases n,
{
    if n <= 0 {
        Seq::empty()
    } else {
        table_rows(grid, n - 1) + row_line(grid, grid[n - 1]) + if n == 1 {
            border_line(grid)
        } else {
            Seq::empty()
        }
    }
}

/// The whole table: a border line, the rows with a border line after the
/// header row, and a border line at the end.
pub open spec fn table_text(grid: GridView) -> Seq<char> {
    border_line(grid) + table_rows(grid, grid.len() as int) + border_line(grid)
}

/// Whether `widths` holds the column widths of `grid`.
pub open spec fn holds_widths(widths: Seq<usize>, grid: GridView) -> bool {
    &&& widths.len() == column_count(grid)
    &&& forall|c: int| 0 <= c < widths.len() ==> #[trigger] widths[c] == column_width(grid, c)
}

/// A column is as wide as its longest cell: no cell in it is longer, and in
/// a grid with a row some cell is that long or the width is zero.
pub proof fn lemma_column_width_is_max(grid: GridView, c: int)
    ensures
        forall|r: int| 0 <= r < grid.len() ==> cell_width(#[trigger] grid[r], c) <= column_width(grid, c),
        column_width(grid, c) == 0 || exists|r: int|
            0 <= r < grid.len() && cell_width(#[trigger] grid[r], c) == column_width(grid, c),
    decreases grid.len(),
{
    if grid.len() > 0 {
        let rest = grid.drop_last();
        lemma_column_width_is_max(rest, c);
        assert forall|r: int| 0 <= r < grid.len() implies cell_width(#[trigger] grid[r], c)
            <= column_width(grid, c) by {
            if r < rest.len() {
                assert(rest[r] == grid[r]);
            }
        }
        if column_width(grid, c) != cell_width(grid.last(), c) {
            let r = choose|r: int|
                0 <= r < rest.len() && cell_width(#[trigger] rest[r], c) == column_width(rest, c);
            assert(grid[r] == rest[r]);
        } else {
            assert(grid[grid.len() - 1] == grid.last());
        }
    }
}

/// No row has more cells than the table has columns.
pub proof fn lemma_row_fits(grid: GridView, r: int)
    requires
        0 <= r < grid.len(),
    ensures
        grid[r].len() <= column_count(grid),
    decreases grid.len(),
{
    if r < grid.len() - 1 {
        lemma_row_fits(grid.drop_last(), r);
    }
}

/// Computes the width of every column: the greatest byte length among its
/// cells.
pub fn column_widths(timetable: &Vec<Vec<String>>) -> (widths: Vec<usize>)
    ensures
        holds_widths(widths@, timetable.deep_view()),
{
    let ghost grid = timetable.deep_view();
    let mut widths: Vec<usize> = Vec::new();
    let mut r: usize = 0;
    while r < timetable.len()
        invariant
            r <= timetable.len(),
            grid == timetable.deep_view(),
            holds_widths(widths@, grid.take(r as int)),
        decreases timetable.len() - r,
    {
        let row = &timetable[r];
        let ghost seen = grid.take(r as int);
        let ghost next = grid.take(r + 1);
        proof {
            lemma_width_beyond_columns(seen);
        }
        let mut c: usize = 0;
        while c < row.len()
            invariant
                c <= row.len(),
                r < grid.len(),
                row.deep_view() == grid[r as int],
                widths.len() == longer(column_count(seen), c as nat),
                forall|k: int|
                    0 <= k < widths.len() && k < c ==> #[trigger] widths[k] == column_width(next, k),
                forall|k: int|
                    c <= k < widths.len() ==> #[trigger] widths[k] == column_width(seen, k),
                next.drop_last() == seen,
                next.last() == grid[r as int],
                next.len() > 0,
                forall|k: int| k >= column_count(seen) ==> #[trigger] column_width(seen, k) == 0,
            decreases row.len() - c,
        {
            let len = row[c].as_str().as_bytes().len();
            if c < widths.len() {
                if len > widths[c] {
                    widths.set(c, len);
                }
            } else {
                widths.push(len);
            }
            c += 1;
        }
        assert(holds_widths(widths@, next));
        r += 1;
    }
    assert(grid.take(r as int) =~= grid);
    widths
}

/// A column beyond the last one has width zero.
proof fn lemma_width_beyond_columns(grid: GridView)
    ensures
        forall|c: int| c >= column_count(grid) ==> #[trigger] column_width(grid, c) == 0,
    decreases grid.len(),
{
    if grid.len() > 0 {
        lemma_width_beyond_columns(grid.drop_last());
        assert forall|c: int| c >= column_count(grid) implies #[trigger] column_width(grid, c)
            == 0 by {
            assert(column_width(grid.drop_last(), c) == 0);
        }
    }
}

/// Appends `count` copies of the one character of `piece`.
fn push_repeated(out: &mut String, piece: &str, count: usize)
    requires
        piece@.len() == 1,
    ensures
        final(out)@ == old(out)@ + repeated(piece@[0], count as nat),
{
    let mut i: usize = 0;
    while i < count
        invariant
            i <= count,
            piece@.len() == 1,
            out@ == old(out)@ + repeated(piece@[0], i as nat),
        decreases count - i,
    {
        out.append(piece);
        i += 1;
    }
}

/// Appends a border line.
fn push_border(out: &mut String, widths: &Vec<usize>, Ghost(grid): Ghost<GridView>)
    requires
        holds_widths(widths@, grid),
    ensures
        final(out)@ == old(out)@ + border_line(grid),
{
    proof {
        reveal_strlit("-");
        reveal_strlit("---");
        reveal_strlit("-\n");
    }
    let mut c: usize = 0;
    while c < widths.len()
        invariant
            c <= widths.len(),
            holds_widths(widths@, grid),
            "-"@.len() == 1 && "-"@[0] == '-',
            "---"@ =~= seq!['-', '-', '-'],
            out@ == old(out)@ + border_cells(grid, c as int),
        decreases widths.len() - c,
    {
        push_repeated(out, "-", widths[c]);
        out.append("---");
        c += 1;
    }
    out.append("-\n");
}

/// Appends the line of one row.
fn push_row(out: &mut String, row: &Vec<String>, widths: &Vec<usize>, Ghost(grid): Ghost<GridView>)
    requires
        holds_widths(widths@, grid),
        row.len() <= widths.len(),
    ensures
        final(out)@ == old(out)@ + row_line(grid, row.deep_view()),
{
    proof {
        reveal_strlit("| ");
        reveal_strlit(" ");
        reveal_strlit("|\n");
    }
    let ghost cells = row.deep_view();
    let mut c: usize = 0;
    while c < row.len()
        invariant
            c <= row.len() <= widths.len(),
            holds_widths(widths@, grid),
            cells == row.deep_view(),
            "| "@ =~= seq!['|', ' '],
            " "@ =~= seq![' '],
            out@ == old(out)@ + row_cells(grid, cells, c as int),
        decreases row.len() - c,
    {
        let cell = row[c].as_str();
        out.append("| ");
        out.append(cell);
        let have = cell.unicode_len();
        if have < widths[c] {
            push_repeated(out, " ", widths[c] - have);
        }
        out.append(" ");
        c += 1;
    }
    out.append("|\n");
}

/// Renders a grid as a text table.
///
/// The table opens with a border line, has one line per row with a border
/// line after the first, and closes with a border line. Each cell stands
/// behind a pipe and a space, padded to the width of its column and followed
/// by a space; a pipe closes the line.
pub fn render_table(timetable: &Vec<Vec<String>>) -> (text: String)
    requires
        timetable.len() > 0,
    ensures
        text@ == table_text(timetable.deep_view()),
{
    let ghost grid = timetable.deep_view();
    let widths = column_widths(timetable);
    let mut text = String::new();
    push_border(&mut text, &widths, Ghost(grid));
    let mut r: usize = 0;
    while r < timetable.len()
        invariant
            r <= timetable.len(),
            grid == timetable.deep_view(),
            holds_widths(widths@, grid),
            text@ == border_line(grid) + table_rows(grid, r as int),
        decreases timetable.len() - r,
    {
        proof {
            lemma_row_fits(grid, r as int);
        }
        push_row(&mut text, &timetable[r], &widths, Ghost(grid));
        if r == 0 {
            push_border(&mut text, &widths, Ghost(grid));
        }
        r += 1;
    }
    push_border(&mut text, &widths, Ghost(grid));
    text
}

} // verus!
