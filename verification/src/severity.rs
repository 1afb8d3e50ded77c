//! The severity model: three levels with the fixed order Error > Warning > Info.

use vstd::prelude::*;

verus! {

/// Severity of a lint rule's findings. `Error` is the most severe.
#[derive(Clone, Copy, Debug, PartialEq, Eq, Structural)]
pub enum ErrorLevel {
    Error,
    Warning,
    Info,
}

/// Position of a level in the total order: higher means more severe.
pub open spec fn level_rank(level: ErrorLevel) -> int {
    match level {
        ErrorLevel::Error => 2,
        ErrorLevel::Warning => 1,
        ErrorLevel::Info => 0,
    }
}

/// The level named by a severity literal; the three names must match exactly.
pub open spec fn spec_parse_level(name: Seq<char>) -> Option<ErrorLevel> {
    if name == "Error"@ {
        Some(ErrorLevel::Error)
    } else if name == "Warning"@ {
        Some(ErrorLevel::Warning)
    } else if name == "Info"@ {
        Some(ErrorLevel::Info)
    } else {
        None
    }
}

/// The configuration-file spelling of each level.
pub open spec fn spec_level_name(level: ErrorLevel) -> Seq<char> {
    match level {
        ErrorLevel::Error => "Error"@,
        ErrorLevel::Warning => "Warning"@,
        ErrorLevel::Info => "Info"@,
    }
}

impl ErrorLevel {
    /// Parse a severity name; only the exact literals `Error`, `Warning`
    /// and `Info` are recognized.
    pub fn from_name(name: &String) -> (r: Option<ErrorLevel>)
        ensures
            r == spec_parse_level(name@),
    {
        if *name == "Error".to_owned() {
            Some(ErrorLevel::Error)
        } else if *name == "Warning".to_owned() {
            Some(ErrorLevel::Warning)
        } else if *name == "Info".to_owned() {
            Some(ErrorLevel::Info)
        } else {
            None
        }
    }

    /// True when `self` is at least as severe as `other`.
    pub fn at_least(self, other: ErrorLevel) -> (r: bool)
        ensures
            r == (level_rank(self) >= level_rank(other)),
    {
        let a: u8 = match self {
            ErrorLevel::Error => 2,
            ErrorLevel::Warning => 1,
            ErrorLevel::Info => 0,
        };
        let b: u8 = match other {
            ErrorLevel::Error => 2,
            ErrorLevel::Warning => 1,
            ErrorLevel::Info => 0,
        };
        a >= b
    }

    /// The name of the level, as it is written in a configuration file.
    pub fn name(self) -> (r: String)
        ensures
            r@ == spec_level_name(self),
    {
        match self {
            ErrorLevel::Error => "Error".to_owned(),
            ErrorLevel::Warning => "Warning".to_owned(),
            ErrorLevel::Info => "Info".to_owned(),
        }
    }
}

} // verus!
