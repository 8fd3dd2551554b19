//! Log severities. Coloring and printing are terminal work and live
//! outside this crate; this module only names the severities and their
//! prefix labels.

use vstd::prelude::*;

verus! {

/// The severity of a log message.
#[derive(Debug, PartialEq, Eq, Structural, Clone, Copy)]
pub enum LogMode {
    Info,
    Error,
    Warning,
    Note,
    Debug,
    Todo,
}

impl LogMode {
    /// The prefix label a message of this severity is printed under.
    pub open spec fn spec_prefix(&self) -> Seq<char> {
        match self {
            LogMode::Info => "Info"@,
            LogMode::Error => "Error"@,
            LogMode::Warning => "Warning"@,
            LogMode::Note => "Note"@,
            LogMode::Debug => "Debug"@,
            LogMode::Todo => "TODO"@,
        }
    }

    /// The prefix label a message of this severity is printed under.
    pub fn prefix(&self) -> (r: &str)
        ensures
            r@ == self.spec_prefix(),
    {
        match self {
            LogMode::Info => "Info",
            LogMode::Error => "Error",
            LogMode::Warning => "Warning",
            LogMode::Note => "Note",
            LogMode::Debug => "Debug",
            LogMode::Todo => "TODO",
        }
    }

    /// Whether a message of this severity is shown: debug messages only
    /// when debug output is switched on.
    pub fn shown(&self, debug_enabled: bool) -> (r: bool)
        ensures
            r == (debug_enabled || *self != LogMode::Debug),
    {
        match self {
            LogMode::Debug => debug_enabled,
            _ => true,
        }
    }
}

} // verus!
