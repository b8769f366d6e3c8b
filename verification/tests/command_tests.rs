use timetable::{
    clear_timetable, invocation, load_timetable, print_timetable, render_table, save_timetable,
    show_timetable, Add, Clear, Outcome, Print, SubCommand, TimetableError,
};

fn add(day: &str, time: &str, subject: &str) -> Add {
    Add { day: day.to_string(), time: time.to_string(), subject: subject.to_string() }
}

fn blank_text() -> Vec<u8> {
    save_timetable(clear_timetable()).unwrap()
}

fn changed_cells(timetable: &[Vec<String>]) -> Vec<(usize, usize, String)> {
    let blank = clear_timetable();
    assert_eq!(timetable.len(), blank.len());
    let mut changed = Vec::new();
    for r in 0..blank.len() {
        assert_eq!(timetable[r].len(), blank[r].len());
        for c in 0..blank[r].len() {
            if timetable[r][c] != blank[r][c] {
                changed.push((r, c, timetable[r][c].clone()));
            }
        }
    }
    changed
}

#[test]
fn add_enters_one_hour() {
    let mut timetable = clear_timetable();
    add("ti", "9", "Math").apply(&mut timetable);
    assert_eq!(changed_cells(&timetable), vec![(2, 2, "Math".to_string())]);
}

#[test]
fn add_enters_a_time_with_colon() {
    let mut timetable = clear_timetable();
    add("su", "20:00", "Rest").apply(&mut timetable);
    assert_eq!(changed_cells(&timetable), vec![(13, 7, "Rest".to_string())]);
}

#[test]
fn add_enters_every_hour_of_a_range() {
    let mut timetable = clear_timetable();
    add("ke", "9-11", "Lab").apply(&mut timetable);
    assert_eq!(
        changed_cells(&timetable),
        vec![(2, 3, "Lab".to_string()), (3, 3, "Lab".to_string()), (4, 3, "Lab".to_string())]
    );
}

#[test]
fn add_enters_the_hours_of_a_range_that_the_grid_has() {
    let mut timetable = clear_timetable();
    add("ma", "19-23", "Late").apply(&mut timetable);
    assert_eq!(
        changed_cells(&timetable),
        vec![(12, 1, "Late".to_string()), (13, 1, "Late".to_string())]
    );
}

#[test]
fn add_skips_what_it_cannot_place() {
    for (day, time) in [
        ("xx", "9"),
        ("xx", "9-11"),
        ("ma", "7"),
        ("ma", "09"),
        ("ma", "09:00"),
        ("ma", "11-9"),
        ("ma", "9-10-11"),
        ("ma", "9:00-10:00"),
        ("ma", "nine"),
        ("ma", ""),
    ] {
        let mut timetable = clear_timetable();
        add(day, time, "Math").apply(&mut timetable);
        assert_eq!(changed_cells(&timetable), vec![], "{:?} {:?}", day, time);
    }
}

#[test]
fn add_runs_from_stored_text_to_stored_text() {
    let stored = add("pe", "8-9", "Art").run(&blank_text()).unwrap();
    let expected = "\
;Maanantai;Tiistai;Keskiviikko;Torstai;Perjantai;Lauantai;Sunnuntai
8:00;;;;;Art;;
9:00;;;;;Art;;
10:00;;;;;;;
11:00;;;;;;;
12:00;;;;;;;
13:00;;;;;;;
14:00;;;;;;;
15:00;;;;;;;
16:00;;;;;;;
17:00;;;;;;;
18:00;;;;;;;
19:00;;;;;;;
20:00;;;;;;;
";
    assert_eq!(String::from_utf8(stored).unwrap(), expected);
}

#[test]
fn add_that_changes_nothing_stores_the_same_text() {
    let stored = add("xx", "9", "Art").run(&blank_text()).unwrap();
    assert_eq!(stored, blank_text());
}

#[test]
fn add_fails_on_text_that_is_no_table() {
    match add("ma", "9", "Art").run(b"a;b\nc\n") {
        Err(TimetableError::Parse(_)) => {}
        _ => panic!("expected a parse error"),
    }
}

#[test]
fn show_renders_a_loaded_grid() {
    let timetable = clear_timetable();
    let expected = render_table(&timetable);
    assert_eq!(show_timetable(&Ok(timetable)), Some(expected));
}

#[test]
fn show_reports_a_failure() {
    let failure = Err(TimetableError::File("No such file or directory (os error 2)".to_string()));
    assert_eq!(
        show_timetable(&failure),
        Some("Error: No such file or directory (os error 2)\n".to_string())
    );
    assert_eq!(
        show_timetable(&Err(TimetableError::Parse(String::new()))),
        Some("Error: \n".to_string())
    );
}

#[test]
fn show_has_nothing_for_a_grid_without_rows() {
    assert_eq!(show_timetable(&Ok(Vec::new())), None);
}

#[test]
fn print_renders_the_stored_table() {
    let text = print_timetable(&Ok(b"a;bb\nc;d\n".to_vec())).unwrap();
    assert_eq!(text, "----------\n| a | bb |\n----------\n| c | d  |\n----------\n");
}

#[test]
fn print_reports_a_file_that_could_not_be_read() {
    let text = print_timetable(&Err(TimetableError::File("denied".to_string()))).unwrap();
    assert_eq!(text, "Error: denied\n");
}

#[test]
fn print_reports_text_that_is_no_table() {
    let text = print_timetable(&Ok(b"a;b\nc\n".to_vec())).unwrap();
    assert!(text.starts_with("Error: CSV error: "), "{}", text);
    assert!(text.ends_with("fields\n"), "{}", text);
    assert_eq!(text.lines().count(), 1);
}

#[test]
fn print_has_nothing_for_an_empty_file() {
    assert_eq!(print_timetable(&Ok(Vec::new())), None);
}

#[test]
fn print_command_prints_and_stores_nothing() {
    let stored = Ok(blank_text());
    let text = Print {}.run(&stored).unwrap();
    assert_eq!(text, render_table(&clear_timetable()));
    let outcome = SubCommand::Print(Print {}).run(&stored).unwrap();
    assert_eq!(outcome, Outcome { store: None, print: text });
}

#[test]
fn print_command_has_no_outcome_for_an_empty_file() {
    assert_eq!(SubCommand::Print(Print {}).run(&Ok(Vec::new())), None);
}

#[test]
fn clear_command_stores_the_blank_grid_and_confirms() {
    let expected = Outcome { store: Some(blank_text()), print: "Timetable cleared!\n".to_string() };
    assert_eq!(Clear {}.run(), expected);
    assert_eq!(SubCommand::Clear(Clear {}).run(&Ok(b"x;y\n".to_vec())), Some(expected.clone()));
    let unreadable = Err(TimetableError::File("gone".to_string()));
    assert_eq!(SubCommand::Clear(Clear {}).run(&unreadable), Some(expected));
}

#[test]
fn clear_then_load_is_the_blank_grid() {
    let outcome = Clear {}.run();
    let loaded = load_timetable(&outcome.store.unwrap()).unwrap();
    assert_eq!(loaded, clear_timetable());
}

#[test]
fn add_command_stores_the_new_text_and_prints_nothing() {
    let command = SubCommand::Add(add("la", "10", "Choir"));
    let outcome = command.run(&Ok(blank_text())).unwrap();
    assert_eq!(outcome.print, "");
    let loaded = load_timetable(&outcome.store.unwrap()).unwrap();
    assert_eq!(changed_cells(&loaded), vec![(3, 6, "Choir".to_string())]);
}

#[test]
fn add_command_stores_nothing_when_loading_fails() {
    let command = SubCommand::Add(add("la", "10", "Choir"));
    let nothing = Some(Outcome { store: None, print: String::new() });
    assert_eq!(command.run(&Err(TimetableError::File("gone".to_string()))), nothing);
    assert_eq!(command.run(&Ok(b"a;b\nc\n".to_vec())), nothing);
    assert_eq!(command.run(&Ok(b"\xff\n".to_vec())), nothing);
}

#[test]
fn add_then_print_shows_the_entry() {
    let command = SubCommand::Add(add("ma", "8", "Math"));
    let stored = command.run(&Ok(blank_text())).unwrap().store.unwrap();
    let text = print_timetable(&Ok(stored)).unwrap();
    assert_eq!(
        text.lines().nth(3).unwrap(),
        "| 8:00  | Math      |         |             |         |           |          |           |"
    );
}

#[test]
fn an_invocation_without_a_command_only_prints() {
    assert_eq!(invocation(None), vec![SubCommand::Print(Print {})]);
}

#[test]
fn an_invocation_ends_with_print() {
    let print = SubCommand::Print(Print {});
    let clear = SubCommand::Clear(Clear {});
    let enter = SubCommand::Add(add("ma", "9", "Math"));
    assert_eq!(invocation(Some(print.clone())), vec![print.clone(), print.clone()]);
    assert_eq!(invocation(Some(clear.clone())), vec![clear, print.clone()]);
    assert_eq!(invocation(Some(enter.clone())), vec![enter, print]);
}

#[test]
fn clear_invocation_prints_the_confirmation_and_the_blank_table() {
    let mut stored: Result<Vec<u8>, TimetableError> = Err(TimetableError::File("gone".to_string()));
    let mut printed = String::new();
    for command in invocation(Some(SubCommand::Clear(Clear {}))) {
        let outcome = command.run(&stored).unwrap();
        if let Some(data) = outcome.store {
            stored = Ok(data);
        }
        printed.push_str(&outcome.print);
    }
    let mut expected = "Timetable cleared!\n".to_string();
    expected.push_str(&render_table(&clear_timetable()));
    assert_eq!(printed, expected);
    assert_eq!(stored, Ok(blank_text()));
}

#[test]
fn clear_does_not_need_the_stored_text() {
    assert!(!SubCommand::Clear(Clear {}).needs_stored());
    assert!(SubCommand::Print(Print {}).needs_stored());
    assert!(SubCommand::Add(add("ma", "9", "Math")).needs_stored());
}

#[test]
fn print_reports_the_exact_words_of_the_reader() {
    let text = print_timetable(&Ok(b"a;b\nc\n".to_vec())).unwrap();
    assert_eq!(
        text,
        "Error: CSV error: record 1 (line: 2, byte: 4): found record with 1 fields, \
         but the previous record has 2 fields\n"
    );
}
