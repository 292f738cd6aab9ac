//! The logic of the command-line front end.
pub mod args;
pub mod db;
pub mod settings;
pub mod stream_output;
pub mod tui;
