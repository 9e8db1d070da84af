//! Terminal calendar layout: months, quarters and years as lines of text.
pub mod gregorian;
pub mod days;
pub mod text;
pub mod calendar;
pub mod laws;

pub use calendar::{parse_length, Calendar, CalendarLength};
