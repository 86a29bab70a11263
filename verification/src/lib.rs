//! Attendance reports as page descriptions.
//!
//! The crate turns either a recorded trace of page-description calls or
//! the attendance of a month into an ordered list of drawing instructions
//! and a list of hyperlink annotations, ready to be written as a PDF. It
//! also puts the attendance of a month together from the rows of a
//! database and derives constraint times, summaries and allowance records
//! from it.
//!
//! All numbers are whole: lengths are micrometres, font sizes millipoints,
//! PDF user-space values micropoints, hours and days tenths.

pub mod units;
pub mod coords;
pub mod text;
pub mod coordinate_data;
pub mod tcpdf_compat;
pub mod links;
pub mod timecard_data;
pub mod calendar;
pub mod dates;
pub mod kosoku;
pub mod digitacho;
pub mod attendance;
pub mod rows;
pub mod allowance;
pub mod requests;
pub mod db_config;
pub mod symbols;
pub mod tables;
pub mod layouts;
pub mod content;
