//! The timetable grid and the rules for placing an entry in it.
//!
//! A grid is a `Vec<Vec<String>>`: rows of cells. Row 0 carries the weekday
//! names and column 0 the hour labels; every other cell holds a subject or is
//! empty. Contracts speak of a grid through its deep view, a sequence of rows
//! of character sequences.

use crate::time::{decimal_text, hour_key};
use vstd::prelude::*;

verus! {

/// The view of a grid: rows of cells, each cell the characters of its text.
pub type GridView = Seq<Seq<Seq<char>>>;

/// Number of rows of the weekly grid: the header and the hours 8 to 20.
pub const ROWS: usize = 14;

/// Number of columns of the weekly grid: the hour label and seven weekdays.
pub const COLUMNS: usize = 8;

/// The column that a two-letter day code names, if it names one.
pub open spec fn day_column(day: Seq<char>) -> Option<int> {
    if day == seq!['m', 'a'] {
        Some(1)
    } else if day == seq!['t', 'i'] {
        Some(2)
    } else if day == seq!['k', 'e'] {
        Some(3)
    } else if day == seq!['t', 'o'] {
        Some(4)
    } else if day == seq!['p', 'e'] {
        Some(5)
    } else if day == seq!['l', 'a'] {
        Some(6)
    } else if day == seq!['s', 'u'] {
        Some(7)
    } else {
        None
    }
}

/// Whether `row` carries the time key: it has a first cell, and that cell is
/// `time`.
pub open spec fn carries_key(row: Seq<Seq<char>>, time: Seq<char>) -> bool {
    0 < row.len() && row[0] == time
}

/// Whether `r` is the entry row for `time`: the topmost row of `grid` that
/// carries the time key.
pub open spec fn is_entry_row(grid: GridView, time: Seq<char>, r: int) -> bool {
    &&& 0 <= r < grid.len()
    &&& carries_key(grid[r], time)
    &&& forall|k: int| 0 <= k < r ==> !carries_key(#[trigger] grid[k], time)
}

/// The grid after `subject` is written into `column` of the entry row for
/// `time`. Only that row is ever written: where it is too short to have the
/// column, and where no row carries the time key, the grid stays as it is.
pub open spec fn with_entry(
    grid: GridView,
    column: int,
    time: Seq<char>,
    subject: Seq<char>,
) -> GridView {
    if exists|r: int| is_entry_row(grid, time, r) {
        let r = choose|r: int| is_entry_row(grid, time, r);
        if 0 <= column < grid[r].len() {
            grid.update(r, grid[r].update(column, subject))
        } else {
            grid
        }
    } else {
        grid
    }
}

/// The grid after an entry is set for a day code: the day code picks the
/// column, and an unrecognized one leaves the grid as it is.
pub open spec fn set_entry(
    grid: GridView,
    day: Seq<char>,
    time: Seq<char>,
    subject: Seq<char>,
) -> GridView {
    match day_column(day) {
        Some(column) => with_entry(grid, column, time, subject),
        None => grid,
    }
}

/// The grid after an entry is set for each of `keys` in turn, all for the
/// same day and with the same subject.
pub open spec fn set_entries(
    grid: GridView,
    day: Seq<char>,
    keys: Seq<Seq<char>>,
    subject: Seq<char>,
) -> GridView
    decreases keys.len(),
{
    if keys.len() == 0 {
        grid
    } else {
        set_entry(set_entries(grid, day, keys.drop_last(), subject), day, keys.last(), subject)
    }
}

/// The header row of the blank grid: an empty corner and the weekday names.
pub open spec fn header_row() -> Seq<Seq<char>> {
    seq![
        Seq::<char>::empty(),
        "Maanantai"@,
        "Tiistai"@,
        "Keskiviikko"@,
        "Torstai"@,
        "Perjantai"@,
        "Lauantai"@,
        "Sunnuntai"@,
    ]
}

/// The hour labels of the blank grid, top to bottom.
pub open spec fn time_labels() -> Seq<Seq<char>> {
    seq![
        "8:00"@,
        "9:00"@,
        "10:00"@,
        "11:00"@,
        "12:00"@,
        "13:00"@,
        "14:00"@,
        "15:00"@,
        "16:00"@,
        "17:00"@,
        "18:00"@,
        "19:00"@,
        "20:00"@,
    ]
}

/// The blank grid: the header row, then one row per hour that holds the hour
/// label followed by empty cells.
pub open spec fn blank_grid() -> GridView {
    Seq::new(
        ROWS as nat,
        |r: int|
            if r == 0 {
                header_row()
            } else {
                Seq::new(
                    COLUMNS as nat,
                    |c: int|
                        if c == 0 {
                            time_labels()[r - 1]
                        } else {
                            Seq::<char>::empty()
                        },
                )
            },
    )
}

/// Whether a grid has the shape of the weekly grid.
pub open spec fn is_week_shaped(grid: GridView) -> bool {
    &&& grid.len() == ROWS
    &&& forall|r: int| 0 <= r < grid.len() ==> (#[trigger] grid[r]).len() == COLUMNS
}

/// Setting an entry for a known day and a time key that the grid carries
/// puts the subject into the entry row's cell for the day and changes no
/// other cell: with `r` the entry row, wide enough to have the day's column,
/// the grid keeps its shape, cell `[r][column]` holds the subject, and every
/// other cell is as before.
pub proof fn lemma_entry_lands(
    grid: GridView,
    day: Seq<char>,
    time: Seq<char>,
    subject: Seq<char>,
    r: int,
)
    requires
        day_column(day) is Some,
        is_entry_row(grid, time, r),
        day_column(day)->0 < grid[r].len(),
    ensures
        set_entry(grid, day, time, subject).len() == grid.len(),
        forall|i: int|
            0 <= i < grid.len() ==> (#[trigger] set_entry(grid, day, time, subject)[i]).len()
                == grid[i].len(),
        set_entry(grid, day, time, subject)[r][day_column(day)->0] == subject,
        forall|i: int, j: int|
            0 <= i < grid.len() && 0 <= j < grid[i].len() && (i != r || j != day_column(day)->0)
                ==> (#[trigger] set_entry(grid, day, time, subject)[i][j]) == grid[i][j],
{
    let chosen = choose|r: int| is_entry_row(grid, time, r);
    assert(chosen == r);
}

/// An entry row that is too short to have the day's column takes nothing,
/// and neither does any row below it: the grid stays as it is.
pub proof fn lemma_short_entry_row_ends_it(
    grid: GridView,
    day: Seq<char>,
    time: Seq<char>,
    subject: Seq<char>,
    r: int,
)
    requires
        day_column(day) is Some,
        is_entry_row(grid, time, r),
        grid[r].len() <= day_column(day)->0,
    ensures
        set_entry(grid, day, time, subject) == grid,
{
    let chosen = choose|r: int| is_entry_row(grid, time, r);
    assert(chosen == r);
}

/// In a week-shaped grid the topmost row whose label is the time key is the
/// entry row, and it has the column of every day.
pub proof fn lemma_week_row_takes_entry(grid: GridView, day: Seq<char>, time: Seq<char>, r: int)
    requires
        is_week_shaped(grid),
        day_column(day) is Some,
        0 <= r < grid.len(),
        grid[r][0] == time,
        forall|k: int| 0 <= k < r ==> (#[trigger] grid[k])[0] != time,
    ensures
        is_entry_row(grid, time, r),
        day_column(day)->0 < grid[r].len(),
{
}

/// Setting an entry never touches the labels or the shape: the grid keeps
/// its rows and their lengths, column 0 is as before, and so is every row
/// whose label is not the time key.
pub proof fn lemma_set_entry_keeps_labels(
    grid: GridView,
    day: Seq<char>,
    time: Seq<char>,
    subject: Seq<char>,
)
    ensures
        set_entry(grid, day, time, subject).len() == grid.len(),
        forall|i: int|
            0 <= i < grid.len() ==> (#[trigger] set_entry(grid, day, time, subject)[i]).len()
                == grid[i].len(),
        forall|i: int|
            0 <= i < grid.len() && grid[i].len() > 0 ==> (#[trigger] set_entry(
                grid,
                day,
                time,
                subject,
            )[i])[0] == grid[i][0],
        forall|i: int|
            0 <= i < grid.len() && !carries_key(grid[i], time) ==> (#[trigger] set_entry(
                grid,
                day,
                time,
                subject,
            )[i]) == grid[i],
{
}

/// An unrecognized day code changes nothing, whatever the time keys.
pub proof fn lemma_unknown_day_changes_nothing(
    grid: GridView,
    day: Seq<char>,
    keys: Seq<Seq<char>>,
    subject: Seq<char>,
)
    requires
        day_column(day) is None,
    ensures
        set_entries(grid, day, keys, subject) == grid,
    decreases keys.len(),
{
    if keys.len() > 0 {
        lemma_unknown_day_changes_nothing(grid, day, keys.drop_last(), subject);
    }
}

/// Setting entries for any time keys never touches the labels or the
/// shape: the grid keeps its rows and their lengths, column 0 is as before,
/// and so is every row whose label is none of the keys.
pub proof fn lemma_set_entries_keep_labels(
    grid: GridView,
    day: Seq<char>,
    keys: Seq<Seq<char>>,
    subject: Seq<char>,
)
    ensures
        set_entries(grid, day, keys, subject).len() == grid.len(),
        forall|i: int|
            0 <= i < grid.len() ==> (#[trigger] set_entries(grid, day, keys, subject)[i]).len()
                == grid[i].len(),
        forall|i: int|
            0 <= i < grid.len() && grid[i].len() > 0 ==> (#[trigger] set_entries(
                grid,
                day,
                keys,
                subject,
            )[i])[0] == grid[i][0],
        forall|i: int|
            0 <= i < grid.len() && (forall|k: int|
                0 <= k < keys.len() ==> !carries_key(grid[i], #[trigger] keys[k]))
                ==> (#[trigger] set_entries(grid, day, keys, subject)[i]) == grid[i],
    decreases keys.len(),
{
    if keys.len() > 0 {
        let earlier = keys.drop_last();
        let before = set_entries(grid, day, earlier, subject);
        lemma_set_entries_keep_labels(grid, day, earlier, subject);
        lemma_set_entry_keeps_labels(before, day, keys.last(), subject);
        assert forall|i: int|
            0 <= i < grid.len() && (forall|k: int|
                0 <= k < keys.len() ==> !carries_key(grid[i], #[trigger] keys[k])) implies (
        #[trigger] set_entries(grid, day, keys, subject)[i]) == grid[i] by {
            assert(forall|k: int|
                0 <= k < earlier.len() ==> !carries_key(grid[i], #[trigger] earlier[k]));
        }
    }
}

/// The labels of the hour rows are the time keys of the hours 8 to 20, so
/// an hour given as a bare number finds its row.
pub proof fn lemma_labels_are_hour_keys()
    ensures
        time_labels().len() == ROWS - 1,
        forall|i: int| 0 <= i < ROWS - 1 ==> #[trigger] time_labels()[i] == hour_key(i + 8),
{
    reveal_strlit("8:00");
    reveal_strlit("9:00");
    reveal_strlit("10:00");
    reveal_strlit("11:00");
    reveal_strlit("12:00");
    reveal_strlit("13:00");
    reveal_strlit("14:00");
    reveal_strlit("15:00");
    reveal_strlit("16:00");
    reveal_strlit("17:00");
    reveal_strlit("18:00");
    reveal_strlit("19:00");
    reveal_strlit("20:00");
    reveal_with_fuel(decimal_text, 2);
}

/// Resolves a day code to its column index.
pub fn day_index(day: &str) -> (index: Option<usize>)
    ensures
        match index {
            Some(i) => day_column(day@) == Some(i as int),
            None => day_column(day@) is None,
        },
{
    if day.unicode_len() != 2 {
        return None;
    }
    let a = day.get_char(0);
    let b = day.get_char(1);
    assert(day@ =~= seq![a, b]);
    if a == 'm' && b == 'a' {
        Some(1)
    } else if a == 't' && b == 'i' {
        Some(2)
    } else if a == 'k' && b == 'e' {
        Some(3)
    } else if a == 't' && b == 'o' {
        Some(4)
    } else if a == 'p' && b == 'e' {
        Some(5)
    } else if a == 'l' && b == 'a' {
        Some(6)
    } else if a == 's' && b == 'u' {
        Some(7)
    } else {
        None
    }
}

/// Sets the entry for a day and a time key.
///
/// The day code picks the column. The rows are scanned from the top for the
/// first one whose label equals `time`, and the scan stops there: if that row
/// has the column, the cell is overwritten with `subject`. An unrecognized
/// day code, a time key that no row carries, and a row too short for the
/// column all leave the grid unchanged.
pub fn add_timetable(day: String, time: String, subject: String, timetable: &mut Vec<Vec<String>>)
    ensures
        final(timetable).deep_view() == set_entry(
            old(timetable).deep_view(),
            day@,
            time@,
            subject@,
        ),
        day_column(day@) is None ==> final(timetable).deep_view() == old(timetable).deep_view(),
{
    let day_index = match day_index(day.as_str()) {
        Some(index) => index,
        None => {
            return ;
        },
    };
    let ghost grid = timetable.deep_view();
    let ghost column = day_index as int;
    let mut i: usize = 0;
    while i < timetable.len()
        invariant
            i <= timetable.len(),
            timetable.deep_view() == grid,
            grid == old(timetable).deep_view(),
            column == day_index,
            day_column(day@) == Some(column),
            forall|k: int| 0 <= k < i ==> !carries_key(#[trigger] grid[k], time@),
        decreases timetable.len() - i,
    {
        if timetable[i].len() > 0 && timetable[i][0] == time {
            assert(is_entry_row(grid, time@, i as int));
            if timetable[i].len() > day_index {
                timetable[i][day_index] = subject;
                assert(timetable.deep_view() =~~= grid.update(
                    i as int,
                    grid[i as int].update(column, subject@),
                ));
            }
            return ;
        }
        i += 1;
    }
}

/// The text of a header cell.
fn header_name(column: usize) -> (name: &'static str)
    requires
        column < COLUMNS,
    ensures
        name@ == header_row()[column as int],
{
    proof {
        reveal_strlit("");
    }
    match column {
        0 => "",
        1 => "Maanantai",
        2 => "Tiistai",
        3 => "Keskiviikko",
        4 => "Torstai",
        5 => "Perjantai",
        6 => "Lauantai",
        _ => "Sunnuntai",
    }
}

/// The label of the hour row `row`, counted from the first hour row.
fn time_label(row: usize) -> (label: &'static str)
    requires
        row < ROWS - 1,
    ensures
        label@ == time_labels()[row as int],
{
    match row {
        0 => "8:00",
        1 => "9:00",
        2 => "10:00",
        3 => "11:00",
        4 => "12:00",
        5 => "13:00",
        6 => "14:00",
        7 => "15:00",
        8 => "16:00",
        9 => "17:00",
        10 => "18:00",
        11 => "19:00",
        _ => "20:00",
    }
}

/// Builds the blank weekly grid.
pub fn clear_timetable() -> (timetable: Vec<Vec<String>>)
    ensures
        timetable.deep_view() == blank_grid(),
        is_week_shaped(timetable.deep_view()),
{
    let mut timetable: Vec<Vec<String>> = Vec::new();
    let mut r: usize = 0;
    while r < ROWS
        invariant
            r <= ROWS,
            timetable.len() == r,
            forall|k: int| 0 <= k < r ==> (#[trigger] timetable[k]).deep_view() == blank_grid()[k],
        decreases ROWS - r,
    {
        let mut row: Vec<String> = Vec::new();
        let mut c: usize = 0;
        while c < COLUMNS
            invariant
                c <= COLUMNS,
                r < ROWS,
                row.len() == c,
                forall|j: int| 0 <= j < c ==> (#[trigger] row[j])@ == blank_grid()[r as int][j],
            decreases COLUMNS - c,
        {
            let cell = if r == 0 {
                String::from_str(header_name(c))
            } else if c == 0 {
                String::from_str(time_label(r - 1))
            } else {
                String::new()
            };
            row.push(cell);
            c += 1;
        }
        timetable.push(row);
        r += 1;
    }
    timetable
}

} // verus!
