//! The danger ladder and the durations that policy files write.

use crate::text;
use crate::text::{number_in, trimmed};
use vstd::prelude::*;

verus! {

/// How a request is treated, from the loosest to the strictest.
#[derive(Debug, Clone, Copy, PartialEq, Eq, PartialOrd, Ord, Structural)]
pub enum Level {
    /// Proceed silently.
    Allow,
    /// Proceed, and tell the human.
    Notify,
    /// Block until a human approves.
    Approve,
    /// Refuse without asking.
    Deny,
}

/// The level's rung on the ladder.
pub open spec fn rung(l: Level) -> int {
    match l {
        Level::Allow => 0,
        Level::Notify => 1,
        Level::Approve => 2,
        Level::Deny => 3,
    }
}

/// The name that policy files use for a level.
pub open spec fn level_name(l: Level) -> Seq<char> {
    match l {
        Level::Allow => "allow"@,
        Level::Notify => "notify"@,
        Level::Approve => "approve"@,
        Level::Deny => "deny"@,
    }
}

/// The level of that name, if there is one.
pub open spec fn level_named(s: Seq<char>) -> Option<Level> {
    if s == "allow"@ {
        Some(Level::Allow)
    } else if s == "notify"@ {
        Some(Level::Notify)
    } else if s == "approve"@ {
        Some(Level::Approve)
    } else if s == "deny"@ {
        Some(Level::Deny)
    } else {
        None
    }
}

/// The stricter of two levels.
pub open spec fn stricter(a: Level, b: Level) -> Level {
    if rung(a) < rung(b) {
        b
    } else {
        a
    }
}

impl Level {
    pub fn parse(s: &str) -> (r: Option<Level>)
        ensures
            r == level_named(s@),
    {
        if text::same(s, "allow") {
            Some(Level::Allow)
        } else if text::same(s, "notify") {
            Some(Level::Notify)
        } else if text::same(s, "approve") {
            Some(Level::Approve)
        } else if text::same(s, "deny") {
            Some(Level::Deny)
        } else {
            None
        }
    }

    pub fn as_str(self) -> (r: &'static str)
        ensures
            r@ == level_name(self),
    {
        match self {
            Level::Allow => "allow",
            Level::Notify => "notify",
            Level::Approve => "approve",
            Level::Deny => "deny",
        }
    }

    /// The level's rung on the ladder.
    pub fn rank(self) -> (r: u8)
        ensures
            r == rung(self),
    {
        match self {
            Level::Allow => 0,
            Level::Notify => 1,
            Level::Approve => 2,
            Level::Deny => 3,
        }
    }
}

/// A level is read back from its name, and no other text names it.
pub proof fn level_names_read_back(l: Level, s: Seq<char>)
    ensures
        level_named(level_name(l)) == Some(l),
        level_named(s) == Some(l) ==> s == level_name(l),
{
    reveal_strlit("allow");
    reveal_strlit("notify");
    reveal_strlit("approve");
    reveal_strlit("deny");
    assert("allow"@.len() == 5 && "notify"@.len() == 6 && "approve"@.len() == 7 && "deny"@.len()
        == 4);
}

/// The level that an optional name denotes.
pub open spec fn level_of(s: Option<Seq<char>>) -> Option<Level> {
    match s {
        Some(t) => level_named(t),
        None => None,
    }
}

pub(crate) fn level_from(s: &Option<String>) -> (r: Option<Level>)
    ensures
        r == level_of(s.deep_view()),
{
    match s {
        Some(t) => Level::parse(t.as_str()),
        None => None,
    }
}

/// The number before a unit, times the unit's size.
pub open spec fn scaled(s: Seq<char>, unit: nat) -> Option<nat> {
    match number_in(trimmed(s), u64::MAX as nat) {
        Some(v) => Some(v * unit),
        None => None,
    }
}

/// The minutes that a duration denotes: `15m`, `2h` or a bare number of minutes.
pub open spec fn minutes_of(s: Option<Seq<char>>) -> Option<nat> {
    match s {
        None => None,
        Some(t) => {
            let d = trimmed(t);
            if d.len() > 0 && d.last() == 'm' {
                scaled(d.drop_last(), 1)
            } else if d.len() > 0 && d.last() == 'h' {
                scaled(d.drop_last(), 60)
            } else {
                number_in(d, u64::MAX as nat)
            }
        },
    }
}

/// The seconds that a duration denotes: `90s`, `10m` or a bare number of seconds.
pub open spec fn seconds_of(s: Option<Seq<char>>) -> Option<nat> {
    match s {
        None => None,
        Some(t) => {
            let d = trimmed(t);
            if d.len() > 0 && d.last() == 's' {
                scaled(d.drop_last(), 1)
            } else if d.len() > 0 && d.last() == 'm' {
                scaled(d.drop_last(), 60)
            } else {
                number_in(d, u64::MAX as nat)
            }
        },
    }
}

/// A duration that does not exceed the largest count.
pub open spec fn countable(v: Option<nat>) -> bool {
    v matches Some(n) ==> n <= u64::MAX
}

/// The count of a countable duration.
pub open spec fn count(v: Option<nat>) -> Option<u64> {
    match v {
        Some(n) => Some(n as u64),
        None => None,
    }
}

/// Reads a count before a unit of sixty.
fn sixtyfold(s: &str) -> (r: Option<u64>)
    requires
        countable(scaled(s@, 60)),
    ensures
        r == count(scaled(s@, 60)),
{
    match text::parse_u64(text::trim(s)) {
        Some(v) => Some(v * 60),
        None => None,
    }
}

/// Reads a duration in minutes.
pub fn parse_mins(s: Option<&str>) -> (r: Option<u64>)
    requires
        countable(minutes_of(s.deep_view())),
    ensures
        r == count(minutes_of(s.deep_view())),
{
    match s {
        None => None,
        Some(t) => {
            let d: &str = text::trim(t);
            match text::strip_last(d, 'm') {
                Some(n) => text::parse_u64(text::trim(n)),
                None => match text::strip_last(d, 'h') {
                    Some(n) => sixtyfold(n),
                    None => text::parse_u64(d),
                },
            }
        },
    }
}

/// Reads a duration in seconds.
pub fn parse_secs(s: Option<&str>) -> (r: Option<u64>)
    requires
        countable(seconds_of(s.deep_view())),
    ensures
        r == count(seconds_of(s.deep_view())),
{
    match s {
        None => None,
        Some(t) => {
            let d: &str = text::trim(t);
            match text::strip_last(d, 's') {
                Some(n) => text::parse_u64(text::trim(n)),
                None => match text::strip_last(d, 'm') {
                    Some(n) => sixtyfold(n),
                    None => text::parse_u64(d),
                },
            }
        },
    }
}

/// Whether a count before a unit of sixty stays countable.
fn sixtyfold_fits(s: &str) -> (r: bool)
    ensures
        r == countable(scaled(s@, 60)),
{
    match text::parse_u64(text::trim(s)) {
        Some(v) => v <= u64::MAX / 60,
        None => true,
    }
}

/// Whether a duration in minutes is countable.
pub fn mins_fit(s: Option<&str>) -> (r: bool)
    ensures
        r == countable(minutes_of(s.deep_view())),
{
    match s {
        None => true,
        Some(t) => {
            let d: &str = text::trim(t);
            match text::strip_last(d, 'm') {
                Some(n) => true,
                None => match text::strip_last(d, 'h') {
                    Some(n) => sixtyfold_fits(n),
                    None => true,
                },
            }
        },
    }
}

/// Whether a duration in seconds is countable.
pub fn secs_fit(s: Option<&str>) -> (r: bool)
    ensures
        r == countable(seconds_of(s.deep_view())),
{
    match s {
        None => true,
        Some(t) => {
            let d: &str = text::trim(t);
            match text::strip_last(d, 's') {
                Some(n) => true,
                None => match text::strip_last(d, 'm') {
                    Some(n) => sixtyfold_fits(n),
                    None => true,
                },
            }
        },
    }
}

} // verus!
