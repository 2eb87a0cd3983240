//! Editing modes and the editor configuration.
use vstd::prelude::*;

verus! {

/// The modal state of the vim-style editor.
#[derive(Debug, Clone, Copy, PartialEq, Eq, Structural)]
pub enum Mode {
    Normal,
    Insert,
    Visual,
    Command,
}

impl Mode {
    /// The mode indicator shown in the status bar.
    pub fn display(&self) -> (r: &'static str)
        ensures
            r@ == match *self {
                Mode::Normal => "-- NORMAL --"@,
                Mode::Insert => "-- INSERT --"@,
                Mode::Visual => "-- VISUAL --"@,
                Mode::Command => ""@,
            },
    {
        match self {
            Mode::Normal => "-- NORMAL --",
            Mode::Insert => "-- INSERT --",
            Mode::Visual => "-- VISUAL --",
            Mode::Command => "",
        }
    }
}

/// Which key bindings the editor uses.
#[derive(Debug, Clone, Copy, PartialEq, Eq, Structural)]
pub enum EditStyle {
    Simple,
    Vim,
}

/// Editor configuration chosen on the command line.
#[derive(Debug, Clone, Copy)]
pub struct Config {
    pub edit_style: EditStyle,
}

impl Default for Config {
    fn default() -> (r: Self)
        ensures
            r.edit_style == EditStyle::Simple,
    {
        Config { edit_style: EditStyle::Simple }
    }
}

} // verus!
