//! Colors for a terminal tab and its background, chosen by the directory
//! one is in.
//!
//! The library finds the color source of a directory, resolves what the
//! source says to a plan of colors, and decides from the state that was
//! applied last whether the terminal has to be painted again. It reads no
//! file and writes to no terminal: its callers hand in what they found and
//! carry out what it decides.
//!
//! - [`resolver`] finds the source on the way from a directory up to the
//!   root, with [`glob`] for the trigger patterns.
//! - [`config`] tells the form of a marker file's content and resolves it,
//!   with [`color`] for color literals and [`seed`] for automatic colors.
//! - [`state`] keeps, writes down and reads back the state that was applied
//!   last, and decides on repainting.
//! - [`iterm`] and [`render`] make the text that is sent to the terminal or
//!   shown to the user.
//! - [`user_config`], [`triggers`], [`init`] and [`paths`] look after the
//!   user's configuration file, the lists of triggers, new marker files and
//!   the places of the program's files; [`upgrade_laws`] states what
//!   bringing a configuration file up to date achieves.
//! - [`text`] holds what all of them need of characters, lines and numbers.

pub mod color;
pub mod config;
pub mod glob;
pub mod init;
pub mod iterm;
pub mod paths;
pub mod render;
pub mod resolver;
pub mod seed;
pub mod state;
pub mod text;
pub mod triggers;
pub mod upgrade_laws;
pub mod user_config;
