//! What the command-line tool decides and prints, apart from doing it.

pub mod args;
pub mod board;
pub mod capture;
pub mod devices;
pub mod dump;
pub mod pd;
