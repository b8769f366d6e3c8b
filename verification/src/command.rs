//! The three commands and what each of them asks for.
//!
//! A command is carried out on the stored text of the timetable, as the
//! caller read it, and answers with the bytes to store and the text to print.
//! Reading the file, writing it and printing are the caller's part.

use crate::error::TimetableError;
use crate::grid::{
    add_timetable, blank_grid, carries_key, clear_timetable, day_column, header_row,
    lemma_set_entries_keep_labels,
    lemma_unknown_day_changes_nothing, set_entries, time_labels, GridView, ROWS,
};
use crate::render::{render_table, table_text};
use crate::store::{
    ascii_bytes, csv_text, grid_text, is_ascii_grid, is_plain_field, is_plain_grid,
    is_plain_record, is_rectangular, joined_text, lemma_ascii_text, line_text, load_timetable,
    plain_text, save_timetable, stored_grid,
};
use crate::time::{expand_time, lemma_time_keys_hold_colon, time_keys};
use vstd::prelude::*;
use vstd::utf8::is_ascii_chars;

verus! {

/// Enters a subject for a day at a time or over a range of hours.
#[derive(Clone, Debug, PartialEq, Eq)]
pub struct Add {
    /// Day of the week, as a two-letter code.
    pub day: String,
    /// Time of the day: an hour, a time with a colon, or two hours around a
    /// hyphen.
    pub time: String,
    /// The subject name.
    pub subject: String,
}

/// Prints the timetable.
#[derive(Clone, Debug, PartialEq, Eq)]
pub struct Print {}

/// Resets the timetable to the blank grid.
#[derive(Clone, Debug, PartialEq, Eq)]
pub struct Clear {}

/// A command of the timetable manager.
#[derive(Clone, Debug, PartialEq, Eq)]
pub enum SubCommand {
    Add(Add),
    Print(Print),
    Clear(Clear),
}

/// What a command asks of its caller.
#[derive(Clone, Debug, PartialEq, Eq)]
pub struct Outcome {
    /// The bytes to store in place of the timetable's text, if any.
    pub store: Option<Vec<u8>>,
    /// The text to print.
    pub print: String,
}

/// The view of an outcome.
pub struct OutcomeView {
    pub store: Option<Seq<u8>>,
    pub print: Seq<char>,
}

impl View for Outcome {
    type V = OutcomeView;

    open spec fn view(&self) -> OutcomeView {
        OutcomeView {
            store: match self.store {
                Some(data) => Some(data@),
                None => None,
            },
            print: self.print@,
        }
    }
}

/// The line that reports an error: `Error: `, the explanation, a line feed.
pub open spec fn error_line(explanation: Seq<char>) -> Seq<char> {
    "Error: "@ + explanation + seq!['\n']
}

/// What is printed for a timetable as it was loaded: the table of a grid
/// that has a row, the error line of a failure, and nothing for a grid
/// without rows, which cannot be drawn.
pub open spec fn shown(loaded: Result<GridView, Seq<char>>) -> Option<Seq<char>> {
    match loaded {
        Ok(grid) => if grid.len() > 0 {
            Some(table_text(grid))
        } else {
            None
        },
        Err(explanation) => Some(error_line(explanation)),
    }
}

/// What a loaded timetable is to `shown`: its grid, or the explanation of
/// the failure.
pub open spec fn loaded_view(loaded: Result<Vec<Vec<String>>, TimetableError>) -> Result<
    GridView,
    Seq<char>,
> {
    match loaded {
        Ok(timetable) => Ok(timetable.deep_view()),
        Err(error) => Err(error.explanation()),
    }
}

/// Writes the line that reports an error.
fn report(error: &TimetableError) -> (line: String)
    ensures
        line@ == error_line(error.explanation()),
{
    let mut line = String::from_str("Error: ");
    let message = error.message();
    line.append(message.as_str());
    proof {
        reveal_strlit("\n");
    }
    line.append("\n");
    line
}

/// The text for a timetable as it was loaded: the rendered table, or the
/// error line of the failure. A grid without rows gives nothing.
pub fn show_timetable(loaded: &Result<Vec<Vec<String>>, TimetableError>) -> (text: Option<String>)
    ensures
        match text {
            Some(text) => shown(loaded_view(*loaded)) == Some(text@),
            None => shown(loaded_view(*loaded)) is None,
        },
{
    match loaded {
        Ok(timetable) => {
            if timetable.len() > 0 {
                Some(render_table(timetable))
            } else {
                None
            }
        },
        Err(error) => Some(report(error)),
    }
}

/// What is printed for the stored text of the timetable.
///
/// Stored text that could not be read gives the error line of that failure.
/// Text that holds a grid gives the grid's table, or nothing if the grid
/// has no rows. Text that is not a table gives the error line with the
/// reader's words.
pub open spec fn printed(stored: Result<Vec<u8>, TimetableError>) -> Option<Seq<char>> {
    shown(
        match stored {
            Ok(data) => stored_grid(data@),
            Err(error) => Err(error.explanation()),
        },
    )
}

/// The text to print for the stored timetable: loads it and shows the
/// result.
pub fn print_timetable(stored: &Result<Vec<u8>, TimetableError>) -> (text: Option<String>)
    ensures
        text.deep_view() == printed(*stored),
{
    match stored {
        Ok(data) => show_timetable(&load_timetable(data.as_slice())),
        Err(error) => Some(report(error)),
    }
}

impl Add {
    /// The grid after this command: an entry is set for each time key of the
    /// time argument, in order.
    pub open spec fn applied(&self, grid: GridView) -> GridView {
        set_entries(grid, self.day@, time_keys(self.time@), self.subject@)
    }

    /// Enters the subject into a grid, once for each time key that the time
    /// argument stands for.
    pub fn apply(&self, timetable: &mut Vec<Vec<String>>)
        ensures
            final(timetable).deep_view() == self.applied(old(timetable).deep_view()),
            day_column(self.day@) is None ==> final(timetable).deep_view() == old(
                timetable,
            ).deep_view(),
    {
        let keys = expand_time(self.time.as_str());
        let ghost grid = timetable.deep_view();
        let ghost all = keys.deep_view();
        let mut k: usize = 0;
        while k < keys.len()
            invariant
                k <= keys.len(),
                all == keys.deep_view(),
                timetable.deep_view() == set_entries(grid, self.day@, all.take(k as int), self.subject@),
            decreases keys.len() - k,
        {
            assert(all.take(k + 1).drop_last() =~= all.take(k as int));
            add_timetable(self.day.clone(), keys[k].clone(), self.subject.clone(), timetable);
            k += 1;
        }
        proof {
            assert(all.take(k as int) =~= all);
            if day_column(self.day@) is None {
                lemma_unknown_day_changes_nothing(
                    grid,
                    self.day@,
                    time_keys(self.time@),
                    self.subject@,
                );
            }
        }
    }

    /// Carries the command out on the stored text: loads the grid, enters
    /// the subject, and gives the text to store.
    ///
    /// It fails only where the text is not a table, with the reader's words:
    /// a grid that was loaded can always be written again. Where the new
    /// grid is made of plain records, the text is the lines of its rows.
    pub fn run(&self, data: &[u8]) -> (result: Result<Vec<u8>, TimetableError>)
        ensures
            match result {
                Ok(bytes) => {
                    &&& stored_grid(data@) matches Ok(grid)
                    &&& bytes@ == csv_text(self.applied(grid))
                    &&& is_plain_grid(self.applied(grid)) ==> bytes@ == plain_text(
                        self.applied(grid),
                    )
                },
                Err(error) => {
                    &&& error is Parse
                    &&& stored_grid(data@) == Err::<GridView, Seq<char>>(error.explanation())
                },
            },
    {
        let mut timetable = match load_timetable(data) {
            Ok(timetable) => timetable,
            Err(error) => {
                return Err(error);
            },
        };
        proof {
            lemma_add_keeps_labels(*self, timetable.deep_view());
        }
        self.apply(&mut timetable);
        match save_timetable(timetable) {
            Ok(bytes) => Ok(bytes),
            Err(_) => unreached(),
        }
    }

    /// The text that this command asks to store, given the stored text as it
    /// was read: the text of the grid with the new entries, and none where
    /// the stored text could not be read or is not a table.
    pub open spec fn stores(&self, stored: Result<Vec<u8>, TimetableError>) -> Option<Seq<u8>> {
        match stored {
            Ok(data) => match stored_grid(data@) {
                Ok(grid) => Some(csv_text(self.applied(grid))),
                Err(_) => None,
            },
            Err(_) => None,
        }
    }
}

/// An `Add` never touches the labels or the shape: whatever its arguments,
/// the grid keeps its rows and their lengths, column 0 is as before, and so
/// is every row whose label holds no colon, such as the header row of the
/// blank grid.
pub proof fn lemma_add_keeps_labels(add: Add, grid: GridView)
    ensures
        add.applied(grid).len() == grid.len(),
        forall|i: int|
            0 <= i < grid.len() ==> (#[trigger] add.applied(grid)[i]).len() == grid[i].len(),
        forall|i: int|
            0 <= i < grid.len() && grid[i].len() > 0 ==> (#[trigger] add.applied(grid)[i])[0]
                == grid[i][0],
        forall|i: int|
            0 <= i < grid.len() && (grid[i].len() == 0 || !grid[i][0].contains(':')) ==> (
            #[trigger] add.applied(grid)[i]) == grid[i],
        is_rectangular(add.applied(grid)) == is_rectangular(grid),
{
    let keys = time_keys(add.time@);
    let after = add.applied(grid);
    lemma_time_keys_hold_colon(add.time@);
    lemma_set_entries_keep_labels(grid, add.day@, keys, add.subject@);
    assert forall|i: int|
        0 <= i < grid.len() && (grid[i].len() == 0 || !grid[i][0].contains(':')) implies (
    #[trigger] after[i]) == grid[i] by {
        assert(forall|k: int| 0 <= k < keys.len() ==> !carries_key(grid[i], #[trigger] keys[k]));
    }
    if is_rectangular(after) {
        assert forall|r: int| 0 <= r < grid.len() implies (#[trigger] grid[r]).len()
            == grid[0].len() by {
            assert(after[r].len() == after[0].len());
        }
    }
}

/// Every record of the blank grid is plain: no cell holds a semicolon, a
/// quote or a line end, and every row has eight cells.
pub proof fn lemma_blank_grid_is_plain()
    ensures
        is_plain_grid(blank_grid()),
{
    reveal_strlit("Maanantai");
    reveal_strlit("Tiistai");
    reveal_strlit("Keskiviikko");
    reveal_strlit("Torstai");
    reveal_strlit("Perjantai");
    reveal_strlit("Lauantai");
    reveal_strlit("Sunnuntai");
    reveal_strlit("8:00");
    reveal_strlit("9:00");
    reveal_strlit("10:00");
    reveal_strlit("11:00");
    reveal_strlit("12:00");
    reveal_strlit("13:00");
    reveal_strlit("14:00");
    reveal_strlit("15:00");
    reveal_strlit("16:00");
    reveal_strlit("17:00");
    reveal_strlit("18:00");
    reveal_strlit("19:00");
    reveal_strlit("20:00");
    assert forall|r: int| 0 <= r < blank_grid().len() implies is_plain_record(
        #[trigger] blank_grid()[r],
    ) by {
        let row = blank_grid()[r];
        assert forall|k: int| 0 <= k < row.len() implies is_plain_field(#[trigger] row[k]) by {
            if r == 0 {
                assert(row[k] == header_row()[k]);
            } else if k == 0 {
                assert(row[k] == time_labels()[r - 1]);
            }
        }
    }
}

/// The blank grid as text: the header line and one line for each hour.
pub open spec fn blank_text() -> Seq<char> {
    ";Maanantai;Tiistai;Keskiviikko;Torstai;Perjantai;Lauantai;Sunnuntai\n"@ + "8:00;;;;;;;\n"@
        + "9:00;;;;;;;\n"@ + "10:00;;;;;;;\n"@ + "11:00;;;;;;;\n"@ + "12:00;;;;;;;\n"@
        + "13:00;;;;;;;\n"@ + "14:00;;;;;;;\n"@ + "15:00;;;;;;;\n"@ + "16:00;;;;;;;\n"@
        + "17:00;;;;;;;\n"@ + "18:00;;;;;;;\n"@ + "19:00;;;;;;;\n"@ + "20:00;;;;;;;\n"@
}

/// The text of the header row and the first `n` hour rows of the blank grid.
spec fn blank_lines(n: int) -> Seq<char>
    decreases n,
{
    if n <= 0 {
        ";Maanantai;Tiistai;Keskiviikko;Torstai;Perjantai;Lauantai;Sunnuntai\n"@
    } else {
        blank_lines(n - 1) + (time_labels()[n - 1] + ";;;;;;;\n"@)
    }
}

/// The header row and the first `n` hour rows of the blank grid, as text,
/// are `blank_lines(n)`.
proof fn lemma_blank_lines(n: int)
    requires
        0 <= n < ROWS,
    ensures
        grid_text(blank_grid().take(n + 1)) == blank_lines(n),
    decreases n,
{
    let grid = blank_grid();
    assert(grid.take(n + 1).drop_last() =~= grid.take(n));
    reveal_with_fuel(joined_text, 9);
    if n > 0 {
        lemma_blank_lines(n - 1);
        reveal_strlit(";;;;;;;\n");
        assert(line_text(grid[n]) =~= time_labels()[n - 1] + ";;;;;;;\n"@);
    } else {
        reveal_strlit("Maanantai");
        reveal_strlit("Tiistai");
        reveal_strlit("Keskiviikko");
        reveal_strlit("Torstai");
        reveal_strlit("Perjantai");
        reveal_strlit("Lauantai");
        reveal_strlit("Sunnuntai");
        reveal_strlit(";Maanantai;Tiistai;Keskiviikko;Torstai;Perjantai;Lauantai;Sunnuntai\n");
        assert(line_text(grid[0]) =~= blank_lines(0));
        assert(grid_text(grid.take(0)) + line_text(grid[0]) =~= line_text(grid[0]));
    }
}

/// The blank grid holds ASCII only, and as text it is `blank_text`.
pub proof fn lemma_blank_text()
    ensures
        is_ascii_grid(blank_grid()),
        grid_text(blank_grid()) == blank_text(),
{
    reveal_strlit("Maanantai");
    reveal_strlit("Tiistai");
    reveal_strlit("Keskiviikko");
    reveal_strlit("Torstai");
    reveal_strlit("Perjantai");
    reveal_strlit("Lauantai");
    reveal_strlit("Sunnuntai");
    reveal_strlit("8:00");
    reveal_strlit("9:00");
    reveal_strlit("10:00");
    reveal_strlit("11:00");
    reveal_strlit("12:00");
    reveal_strlit("13:00");
    reveal_strlit("14:00");
    reveal_strlit("15:00");
    reveal_strlit("16:00");
    reveal_strlit("17:00");
    reveal_strlit("18:00");
    reveal_strlit("19:00");
    reveal_strlit("20:00");
    let grid = blank_grid();
    assert forall|r: int, k: int| 0 <= r < grid.len() && 0 <= k < grid[r].len() implies is_ascii_chars(
        #[trigger] grid[r][k],
    ) by {
        if r == 0 {
            assert(grid[r][k] == header_row()[k]);
        } else if k == 0 {
            assert(grid[r][k] == time_labels()[r - 1]);
        }
    }
    reveal_strlit(";;;;;;;\n");
    reveal_strlit("8:00;;;;;;;\n");
    reveal_strlit("9:00;;;;;;;\n");
    reveal_strlit("10:00;;;;;;;\n");
    reveal_strlit("11:00;;;;;;;\n");
    reveal_strlit("12:00;;;;;;;\n");
    reveal_strlit("13:00;;;;;;;\n");
    reveal_strlit("14:00;;;;;;;\n");
    reveal_strlit("15:00;;;;;;;\n");
    reveal_strlit("16:00;;;;;;;\n");
    reveal_strlit("17:00;;;;;;;\n");
    reveal_strlit("18:00;;;;;;;\n");
    reveal_strlit("19:00;;;;;;;\n");
    reveal_strlit("20:00;;;;;;;\n");
    let rest = ";;;;;;;\n"@;
    assert("8:00;;;;;;;\n"@ =~= time_labels()[0] + rest);
    assert("9:00;;;;;;;\n"@ =~= time_labels()[1] + rest);
    assert("10:00;;;;;;;\n"@ =~= time_labels()[2] + rest);
    assert("11:00;;;;;;;\n"@ =~= time_labels()[3] + rest);
    assert("12:00;;;;;;;\n"@ =~= time_labels()[4] + rest);
    assert("13:00;;;;;;;\n"@ =~= time_labels()[5] + rest);
    assert("14:00;;;;;;;\n"@ =~= time_labels()[6] + rest);
    assert("15:00;;;;;;;\n"@ =~= time_labels()[7] + rest);
    assert("16:00;;;;;;;\n"@ =~= time_labels()[8] + rest);
    assert("17:00;;;;;;;\n"@ =~= time_labels()[9] + rest);
    assert("18:00;;;;;;;\n"@ =~= time_labels()[10] + rest);
    assert("19:00;;;;;;;\n"@ =~= time_labels()[11] + rest);
    assert("20:00;;;;;;;\n"@ =~= time_labels()[12] + rest);
    reveal_with_fuel(blank_lines, 14);
    assert(blank_text() == blank_lines(13));
    lemma_blank_lines(13);
    assert(grid.take(14) =~= grid);
}

/// The commands of one invocation, in order: the command that was given, if
/// one was, and then always `Print`.
pub fn invocation(command: Option<SubCommand>) -> (commands: Vec<SubCommand>)
    ensures
        commands@ == match command {
            Some(given) => seq![given, SubCommand::Print(Print {})],
            None => seq![SubCommand::Print(Print {})],
        },
{
    let mut commands: Vec<SubCommand> = Vec::new();
    if let Some(given) = command {
        commands.push(given);
    }
    commands.push(SubCommand::Print(Print {}));
    commands
}

impl Print {
    /// The text to print for the stored timetable.
    pub fn run(&self, stored: &Result<Vec<u8>, TimetableError>) -> (text: Option<String>)
        ensures
            text.deep_view() == printed(*stored),
    {
        print_timetable(stored)
    }
}

impl Clear {
    /// Asks to store the blank grid and to confirm it. The blank grid is
    /// made of plain records, so what is stored is `blank_text`, byte for
    /// character.
    pub fn run(&self) -> (outcome: Outcome)
        ensures
            outcome@ == (OutcomeView {
                store: Some(csv_text(blank_grid())),
                print: "Timetable cleared!\n"@,
            }),
            outcome@.store == Some(ascii_bytes(blank_text())),
    {
        proof {
            lemma_blank_grid_is_plain();
            lemma_blank_text();
            lemma_ascii_text(blank_grid());
        }
        let store = match save_timetable(clear_timetable()) {
            Ok(data) => data,
            Err(_) => unreached(),
        };
        Outcome { store: Some(store), print: String::from_str("Timetable cleared!\n") }
    }
}

impl SubCommand {
    /// What this command asks for, given the stored text of the timetable
    /// as it was read or failed to be read.
    ///
    /// `Add` prints nothing; it asks to store the text of the grid with the
    /// new entries, and to store nothing where the stored text could not be
    /// read or is not a table. `Print` stores nothing and prints the table
    /// or an error line; it has no outcome for a grid without rows. `Clear`
    /// stores the blank grid and confirms it.
    pub open spec fn outcome_for(&self, stored: Result<Vec<u8>, TimetableError>) -> Option<
        OutcomeView,
    > {
        match self {
            SubCommand::Add(add) => Some(
                OutcomeView { store: add.stores(stored), print: Seq::<char>::empty() },
            ),
            SubCommand::Print(_) => match printed(stored) {
                Some(text) => Some(OutcomeView { store: None, print: text }),
                None => None,
            },
            SubCommand::Clear(_) => Some(
                OutcomeView {
                    store: Some(ascii_bytes(blank_text())),
                    print: "Timetable cleared!\n"@,
                },
            ),
        }
    }

    /// Whether the command looks at the stored text: `Clear` does not.
    pub open spec fn reads_stored(&self) -> bool {
        !(self is Clear)
    }

    /// Tells whether the stored text has to be read for this command. Where
    /// it need not be, `run` gives the same outcome whatever it is handed.
    pub fn needs_stored(&self) -> (needed: bool)
        ensures
            needed == self.reads_stored(),
            !needed ==> forall|a: Result<Vec<u8>, TimetableError>, b: Result<Vec<u8>, TimetableError>|
                #[trigger] self.outcome_for(a) == #[trigger] self.outcome_for(b),
    {
        match self {
            SubCommand::Clear(_) => false,
            _ => true,
        }
    }

    /// Carries the command out on the stored text of the timetable, as it
    /// was read or failed to be read.
    pub fn run(&self, stored: &Result<Vec<u8>, TimetableError>) -> (outcome: Option<Outcome>)
        ensures
            match outcome {
                Some(outcome) => self.outcome_for(*stored) == Some(outcome@),
                None => self.outcome_for(*stored) is None,
            },
    {
        match self {
            SubCommand::Add(add) => {
                let store = match stored {
                    Ok(data) => match add.run(data.as_slice()) {
                        Ok(bytes) => Some(bytes),
                        Err(_) => None,
                    },
                    Err(_) => None,
                };
                Some(Outcome { store, print: String::new() })
            },
            SubCommand::Print(print) => match print.run(stored) {
                Some(text) => Some(Outcome { store: None, print: text }),
                None => None,
            },
            SubCommand::Clear(clear) => Some(clear.run()),
        }
    }
}

} // verus!
