//! How much a model is asked to think.

use crate::text::{ascii_lowered, concat3, quoted, quoted_text, same_text, to_ascii_lowercase};
use vstd::prelude::*;

verus! {

/// How much a model is to think.
#[derive(Clone, Copy, Debug, PartialEq, Eq, PartialOrd, Ord, Hash, Structural)]
pub enum ThinkingLevel {
    Off,
    Minimal,
    Low,
    Medium,
    High,
    XHigh,
    Max,
}

/// The name of a level.
pub open spec fn level_name(level: ThinkingLevel) -> Seq<char> {
    match level {
        ThinkingLevel::Off => "off"@,
        ThinkingLevel::Minimal => "minimal"@,
        ThinkingLevel::Low => "low"@,
        ThinkingLevel::Medium => "medium"@,
        ThinkingLevel::High => "high"@,
        ThinkingLevel::XHigh => "xhigh"@,
        ThinkingLevel::Max => "max"@,
    }
}

/// The level that a text names, in whatever ASCII case.
pub open spec fn level_named(value: Seq<char>) -> Option<ThinkingLevel> {
    let name = ascii_lowered(value);
    if name == "off"@ {
        Some(ThinkingLevel::Off)
    } else if name == "minimal"@ {
        Some(ThinkingLevel::Minimal)
    } else if name == "low"@ {
        Some(ThinkingLevel::Low)
    } else if name == "medium"@ {
        Some(ThinkingLevel::Medium)
    } else if name == "high"@ {
        Some(ThinkingLevel::High)
    } else if name == "xhigh"@ {
        Some(ThinkingLevel::XHigh)
    } else if name == "max"@ {
        Some(ThinkingLevel::Max)
    } else {
        None
    }
}

/// Every level is found again under its own name.
pub proof fn lemma_levels_parse_canonically(level: ThinkingLevel)
    ensures
        level_named(level_name(level)) == Some(level),
{
    reveal_strlit("off");
    reveal_strlit("minimal");
    reveal_strlit("low");
    reveal_strlit("medium");
    reveal_strlit("high");
    reveal_strlit("xhigh");
    reveal_strlit("max");
    assert(ascii_lowered(level_name(level)) =~= level_name(level));
    assert("low"@[0] != "max"@[0] && "off"@[0] != "low"@[0] && "off"@[0] != "max"@[0]);
    assert("off"@.len() == 3 && "minimal"@.len() == 7 && "low"@.len() == 3 && "medium"@.len() == 6
        && "high"@.len() == 4 && "xhigh"@.len() == 5 && "max"@.len() == 3);
}

/// What is found under a name has that name, but for its case.
pub proof fn lemma_named_level_has_the_name(value: Seq<char>)
    ensures
        match level_named(value) {
            Some(level) => level_name(level) == ascii_lowered(value),
            None => forall|level: ThinkingLevel| #[trigger]
                level_name(level) != ascii_lowered(value),
        },
{
}

/// A name that no level has.
#[derive(Debug, PartialEq, Eq)]
pub struct ThinkingLevelError {
    pub value: String,
}

impl Clone for ThinkingLevelError {
    fn clone(&self) -> (res: Self)
        ensures
            res == *self,
    {
        ThinkingLevelError { value: self.value.clone() }
    }
}

/// What is said of a text that names no level.
pub open spec fn level_error_text(value: Seq<char>) -> Seq<char> {
    "invalid thinking level "@ + quoted_text(value)
        + "; expected off, minimal, low, medium, high, xhigh, or max"@
}

impl ThinkingLevelError {
    /// The message of the error.
    pub fn to_text(&self) -> (res: String)
        ensures
            res@ == level_error_text(self.value@),
    {
        concat3(
            "invalid thinking level ",
            &quoted(&self.value),
            "; expected off, minimal, low, medium, high, xhigh, or max",
        )
    }
}

impl ThinkingLevel {
    /// All levels, in rising order.
    pub const ALL: [ThinkingLevel; 7] = [
        ThinkingLevel::Off,
        ThinkingLevel::Minimal,
        ThinkingLevel::Low,
        ThinkingLevel::Medium,
        ThinkingLevel::High,
        ThinkingLevel::XHigh,
        ThinkingLevel::Max,
    ];

    /// The name of the level.
    pub fn as_str(self) -> (res: &'static str)
        ensures
            res@ == level_name(self),
    {
        match self {
            ThinkingLevel::Off => "off",
            ThinkingLevel::Minimal => "minimal",
            ThinkingLevel::Low => "low",
            ThinkingLevel::Medium => "medium",
            ThinkingLevel::High => "high",
            ThinkingLevel::XHigh => "xhigh",
            ThinkingLevel::Max => "max",
        }
    }

    /// The level that `value` names.
    pub fn parse(value: &str) -> (res: Result<ThinkingLevel, ThinkingLevelError>)
        ensures
            match res {
                Ok(level) => level_named(value@) == Some(level),
                Err(error) => level_named(value@) is None && error.value@ == value@,
            },
    {
        let name = to_ascii_lowercase(value);
        if same_text(&name, "off") {
            Ok(ThinkingLevel::Off)
        } else if same_text(&name, "minimal") {
            Ok(ThinkingLevel::Minimal)
        } else if same_text(&name, "low") {
            Ok(ThinkingLevel::Low)
        } else if same_text(&name, "medium") {
            Ok(ThinkingLevel::Medium)
        } else if same_text(&name, "high") {
            Ok(ThinkingLevel::High)
        } else if same_text(&name, "xhigh") {
            Ok(ThinkingLevel::XHigh)
        } else if same_text(&name, "max") {
            Ok(ThinkingLevel::Max)
        } else {
            Err(ThinkingLevelError { value: value.to_owned() })
        }
    }
}

impl std::str::FromStr for ThinkingLevel {
    type Err = ThinkingLevelError;

    fn from_str(value: &str) -> Result<Self, ThinkingLevelError> {
        ThinkingLevel::parse(value)
    }
}

} // verus!
