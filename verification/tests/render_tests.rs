use timetable::{clear_timetable, column_widths, render_table};

fn grid(rows: &[&[&str]]) -> Vec<Vec<String>> {
    rows.iter().map(|row| row.iter().map(|cell| cell.to_string()).collect()).collect()
}

/// The table as plain formatting writes it, for grids whose first row is
/// among the longest.
fn formatted(timetable: &[Vec<String>]) -> String {
    let mut widths = vec![0; timetable[0].len()];
    for row in timetable {
        for (i, cell) in row.iter().enumerate() {
            widths[i] = widths[i].max(cell.len());
        }
    }
    let mut border = String::new();
    for width in &widths {
        border.push('-');
        border.push_str(&"-".repeat(width + 2));
    }
    border.push_str("-\n");
    let mut text = border.clone();
    for (r, row) in timetable.iter().enumerate() {
        for (i, cell) in row.iter().enumerate() {
            text.push_str(&format!("| {:width$} ", cell, width = widths[i]));
        }
        text.push_str("|\n");
        if r == 0 {
            text.push_str(&border);
        }
    }
    text.push_str(&border);
    text
}

#[test]
fn two_by_two_grid_is_sized_to_the_longest_cell() {
    let timetable = grid(&[&["a", "bb"], &["c", "d"]]);
    assert_eq!(column_widths(&timetable), vec![1, 2]);
    let expected = "\
----------
| a | bb |
----------
| c | d  |
----------
";
    assert_eq!(render_table(&timetable), expected);
}

#[test]
fn every_line_of_a_table_is_equally_long() {
    let timetable = grid(&[&["a", "bb"], &["c", "d"], &["eeee", ""]]);
    let text = render_table(&timetable);
    let lengths: Vec<usize> = text.lines().map(|line| line.chars().count()).collect();
    assert_eq!(lengths, vec![13; 6]);
    for line in text.lines() {
        if line.starts_with('|') {
            let pipes: Vec<usize> = line.match_indices('|').map(|(at, _)| at).collect();
            assert_eq!(pipes, vec![0, 7, 12]);
        } else {
            assert_eq!(line, "-------------");
        }
    }
}

#[test]
fn single_row_has_three_border_lines() {
    let timetable = grid(&[&["x"]]);
    assert_eq!(render_table(&timetable), "-----\n| x |\n-----\n-----\n");
}

#[test]
fn row_of_no_cells_has_a_bare_border() {
    let timetable = grid(&[&[]]);
    assert_eq!(render_table(&timetable), "-\n|\n-\n-\n");
}

#[test]
fn empty_cells_are_all_padding() {
    let timetable = grid(&[&["", ""], &["", "abc"]]);
    assert_eq!(column_widths(&timetable), vec![0, 3]);
    let expected = "\
----------
|  |     |
----------
|  | abc |
----------
";
    assert_eq!(render_table(&timetable), expected);
}

#[test]
fn widths_count_bytes_and_padding_counts_characters() {
    let timetable = grid(&[&["ää", "x"], &["abc", "y"]]);
    assert_eq!(column_widths(&timetable), vec![4, 1]);
    let expected = "\
------------
| ää   | x |
------------
| abc  | y |
------------
";
    assert_eq!(render_table(&timetable), expected);
    assert_eq!(render_table(&timetable), formatted(&timetable));
}

#[test]
fn blank_grid_renders_as_plain_formatting_does() {
    let timetable = clear_timetable();
    assert_eq!(column_widths(&timetable), vec![5, 9, 7, 11, 7, 9, 8, 9]);
    let text = render_table(&timetable);
    assert_eq!(text, formatted(&timetable));
    assert_eq!(text.lines().count(), 17);
    assert_eq!(
        text.lines().nth(1).unwrap(),
        "|       | Maanantai | Tiistai | Keskiviikko | Torstai | Perjantai | Lauantai | Sunnuntai |"
    );
    assert_eq!(
        text.lines().nth(3).unwrap(),
        "| 8:00  |           |         |             |         |           |          |           |"
    );
}

#[test]
fn mixed_grids_render_as_plain_formatting_does() {
    let grids = [
        grid(&[&["a"]]),
        grid(&[&["", "", ""], &["1", "22", "333"], &["4444", "", "5"]]),
        grid(&[&["header", "x"], &["short"], &[], &["a", "b"]]),
        grid(&[&["日本語", "ö"], &["a", "€uro"], &["🦀", ""]]),
        grid(&[&["tab\there", "new\nline"], &["semi;colon", "quo\"te"]]),
    ];
    for timetable in grids {
        assert_eq!(render_table(&timetable), formatted(&timetable));
    }
}

#[test]
fn a_longer_later_row_widens_the_table() {
    let timetable = grid(&[&["a"], &["b", "cc"]]);
    assert_eq!(column_widths(&timetable), vec![1, 2]);
    let expected = "\
----------
| a |
----------
| b | cc |
----------
";
    assert_eq!(render_table(&timetable), expected);
}

#[test]
fn widths_of_no_rows_are_none() {
    assert_eq!(column_widths(&Vec::new()), Vec::<usize>::new());
}
