//! A weekly timetable: a grid of hour rows and weekday columns, the rules for
//! entering subjects into it, its text rendering and its delimited file form.

pub mod command;
pub mod error;
pub mod grid;
pub mod render;
pub mod store;
pub mod time;

pub use command::{
    invocation, print_timetable, show_timetable, Add, Clear, Outcome, Print, SubCommand,
};
pub use error::TimetableError;
pub use grid::{add_timetable, clear_timetable, day_index};
pub use render::{column_widths, render_table};
pub use store::{load_timetable, save_timetable};
pub use time::{expand_time, format_hour, parse_hour};
