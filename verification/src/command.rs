//! Command-level logic: the session commands and their decisions.

pub mod song;
