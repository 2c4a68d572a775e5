//! Rules that check files of the project.

pub mod control_stream;
