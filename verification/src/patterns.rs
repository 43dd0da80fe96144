//! The shipped match patterns, and the two things the classifier asks of a pattern: whether it
//! occurs in a text, and the text with its occurrences replaced.

use crate::text::is_space;
use regex::Regex;
use vstd::prelude::*;

verus! {

/// An ANSI control sequence: the introducer, parameters, intermediates and a final byte.
pub const CONTROL_SEQUENCE: &'static str = r"\x1b\[[0-9;?]*[ -/]*[@-~]";

/// A pair of quotes with nothing between them.
pub const EMPTY_LITERAL: &'static str = r#"(?:''|"")"#;

/// A run of white space.
pub const WHITE_SPACE: &'static str = r"\s+";

// A pattern that names a command is anchored at a command position: at the start, or behind `;`,
// `&`, `|`, a backtick or `$(`. Assignments, the wrappers `sudo`, `env` and `nohup` with their
// options, a shell up to the command string that `-c` gives it, and the directory that the command
// is named by are skipped. So every such pattern begins with the same text.

/// The removal of everything.
pub const RM_RF_ROOT: &'static str =
    r"(?:^|[;&|`]|\$\()\s*(?:\w+=\S*\s+)*(?:(?:[^\s=;&|`]*/)?(?:(?:sudo|env|nohup)\s+(?:-(?:[ugpCTrtDhR]\s+\S+|-(?:user|group|prompt|host|chdir|chroot|unset)\s+\S+|[ugpCTrtDhR]\S+|[^\sugpCTrtDhR]\S*)?\s+|\w+=\S*\s+)*|(?:ba|da|a|k|z)?sh\s+(?:[-+]\S+\s+)*-[a-zA-Z]*c\s+\$?[\x22']?\s*(?:\w+=\S*\s+)*))*(?:[^\s=;&|`]*/)?rm\s+(?:-[a-zA-Z]*\s+)*-[a-zA-Z]*[rR][a-zA-Z]*f?[a-zA-Z]*\s+(?:--\s+)?/(?:\s|$)";

/// The making of a file system.
pub const MKFS: &'static str =
    r"(?:^|[;&|`]|\$\()\s*(?:\w+=\S*\s+)*(?:(?:[^\s=;&|`]*/)?(?:(?:sudo|env|nohup)\s+(?:-(?:[ugpCTrtDhR]\s+\S+|-(?:user|group|prompt|host|chdir|chroot|unset)\s+\S+|[ugpCTrtDhR]\S+|[^\sugpCTrtDhR]\S*)?\s+|\w+=\S*\s+)*|(?:ba|da|a|k|z)?sh\s+(?:[-+]\S+\s+)*-[a-zA-Z]*c\s+\$?[\x22']?\s*(?:\w+=\S*\s+)*))*(?:[^\s=;&|`]*/)?mkfs(?:\.\w+)?\s";

/// A raw write to a disk.
pub const DD_TO_DISK: &'static str =
    r"(?:^|[;&|`]|\$\()\s*(?:\w+=\S*\s+)*(?:(?:[^\s=;&|`]*/)?(?:(?:sudo|env|nohup)\s+(?:-(?:[ugpCTrtDhR]\s+\S+|-(?:user|group|prompt|host|chdir|chroot|unset)\s+\S+|[ugpCTrtDhR]\S+|[^\sugpCTrtDhR]\S*)?\s+|\w+=\S*\s+)*|(?:ba|da|a|k|z)?sh\s+(?:[-+]\S+\s+)*-[a-zA-Z]*c\s+\$?[\x22']?\s*(?:\w+=\S*\s+)*))*(?:[^\s=;&|`]*/)?dd\b[^\n]*\bof=/dev/(?:sd|nvme|vd|hd)";

/// A shell function that calls itself twice. It names no command.
pub const FORKBOMB: &'static str = r":\(\)\s*\{\s*:\s*\|\s*:";

/// The end of the machine's run, by the command itself or through `systemctl`.
pub const SHUTDOWN: &'static str =
    r"(?:^|[;&|`]|\$\()\s*(?:\w+=\S*\s+)*(?:(?:[^\s=;&|`]*/)?(?:(?:sudo|env|nohup)\s+(?:-(?:[ugpCTrtDhR]\s+\S+|-(?:user|group|prompt|host|chdir|chroot|unset)\s+\S+|[ugpCTrtDhR]\S+|[^\sugpCTrtDhR]\S*)?\s+|\w+=\S*\s+)*|(?:ba|da|a|k|z)?sh\s+(?:[-+]\S+\s+)*-[a-zA-Z]*c\s+\$?[\x22']?\s*(?:\w+=\S*\s+)*))*(?:[^\s=;&|`]*/)?(?:systemctl\s+(?:-\S+\s+)*)?(?:shutdown|reboot|poweroff|halt|init\s+0)\b";

/// A recursive removal.
pub const RECURSIVE_DELETE: &'static str =
    r"(?:^|[;&|`]|\$\()\s*(?:\w+=\S*\s+)*(?:(?:[^\s=;&|`]*/)?(?:(?:sudo|env|nohup)\s+(?:-(?:[ugpCTrtDhR]\s+\S+|-(?:user|group|prompt|host|chdir|chroot|unset)\s+\S+|[ugpCTrtDhR]\S+|[^\sugpCTrtDhR]\S*)?\s+|\w+=\S*\s+)*|(?:ba|da|a|k|z)?sh\s+(?:[-+]\S+\s+)*-[a-zA-Z]*c\s+\$?[\x22']?\s*(?:\w+=\S*\s+)*))*(?:[^\s=;&|`]*/)?rm\s+(?:-[a-zA-Z]*\s+)*-[a-zA-Z]*[rR]";

/// The sudo wrapper, possibly behind other wrappers.
pub const SUDO_AT_COMMAND: &'static str =
    r"(?:^|[;&|`]|\$\()\s*(?:\w+=\S*\s+)*(?:(?:[^\s=;&|`]*/)?(?:(?:sudo|env|nohup)\s+(?:-(?:[ugpCTrtDhR]\s+\S+|-(?:user|group|prompt|host|chdir|chroot|unset)\s+\S+|[ugpCTrtDhR]\S+|[^\sugpCTrtDhR]\S*)?\s+|\w+=\S*\s+)*|(?:ba|da|a|k|z)?sh\s+(?:[-+]\S+\s+)*-[a-zA-Z]*c\s+\$?[\x22']?\s*(?:\w+=\S*\s+)*))*(?:[^\s=;&|`]*/)?sudo\s";

/// A service that is started or stopped.
pub const SERVICE_RESTART: &'static str =
    r"(?:^|[;&|`]|\$\()\s*(?:\w+=\S*\s+)*(?:(?:[^\s=;&|`]*/)?(?:(?:sudo|env|nohup)\s+(?:-(?:[ugpCTrtDhR]\s+\S+|-(?:user|group|prompt|host|chdir|chroot|unset)\s+\S+|[ugpCTrtDhR]\S+|[^\sugpCTrtDhR]\S*)?\s+|\w+=\S*\s+)*|(?:ba|da|a|k|z)?sh\s+(?:[-+]\S+\s+)*-[a-zA-Z]*c\s+\$?[\x22']?\s*(?:\w+=\S*\s+)*))*(?:[^\s=;&|`]*/)?systemctl\s+(?:restart|stop|start|disable)";

/// A package that comes or goes.
pub const PACKAGE_INSTALL: &'static str =
    r"(?:^|[;&|`]|\$\()\s*(?:\w+=\S*\s+)*(?:(?:[^\s=;&|`]*/)?(?:(?:sudo|env|nohup)\s+(?:-(?:[ugpCTrtDhR]\s+\S+|-(?:user|group|prompt|host|chdir|chroot|unset)\s+\S+|[ugpCTrtDhR]\S+|[^\sugpCTrtDhR]\S*)?\s+|\w+=\S*\s+)*|(?:ba|da|a|k|z)?sh\s+(?:[-+]\S+\s+)*-[a-zA-Z]*c\s+\$?[\x22']?\s*(?:\w+=\S*\s+)*))*(?:[^\s=;&|`]*/)?(?:apt|apt-get|dpkg|yum|dnf|snap)\s+(?:install|remove|purge)";

/// The loss of a table's contents. It names a statement, which stands inside a command.
pub const DATABASE_DROP: &'static str =
    r"(?i)\b(?:drop\s+table|drop\s+database|truncate\s+table|delete\s+from)\b";

/// A download that is run unseen.
pub const PIPE_TO_SHELL: &'static str =
    r"(?:^|[;&|`]|\$\()\s*(?:\w+=\S*\s+)*(?:(?:[^\s=;&|`]*/)?(?:(?:sudo|env|nohup)\s+(?:-(?:[ugpCTrtDhR]\s+\S+|-(?:user|group|prompt|host|chdir|chroot|unset)\s+\S+|[ugpCTrtDhR]\S+|[^\sugpCTrtDhR]\S*)?\s+|\w+=\S*\s+)*|(?:ba|da|a|k|z)?sh\s+(?:[-+]\S+\s+)*-[a-zA-Z]*c\s+\$?[\x22']?\s*(?:\w+=\S*\s+)*))*(?:[^\s=;&|`]*/)?(?:curl|wget)\b[^|]*\|\s*(?:sudo\s+)?(?:ba)?sh";

/// The patterns that are compiled into the library.
pub open spec fn shipped(pattern: Seq<char>) -> bool {
    ||| pattern == CONTROL_SEQUENCE@
    ||| pattern == EMPTY_LITERAL@
    ||| pattern == WHITE_SPACE@
    ||| pattern == RM_RF_ROOT@
    ||| pattern == MKFS@
    ||| pattern == DD_TO_DISK@
    ||| pattern == FORKBOMB@
    ||| pattern == SHUTDOWN@
    ||| pattern == RECURSIVE_DELETE@
    ||| pattern == SUDO_AT_COMMAND@
    ||| pattern == SERVICE_RESTART@
    ||| pattern == PACKAGE_INSTALL@
    ||| pattern == DATABASE_DROP@
    ||| pattern == PIPE_TO_SHELL@
}

/// Whether the `regex` crate accepts a pattern.
pub uninterp spec fn pattern_compiles(pattern: Seq<char>) -> bool;

/// Whether a pattern occurs in a text.
pub uninterp spec fn pattern_found(pattern: Seq<char>, text: Seq<char>) -> bool;

/// A text with each occurrence of a pattern replaced.
pub uninterp spec fn pattern_replaced(
    pattern: Seq<char>,
    text: Seq<char>,
    with: Seq<char>,
) -> Seq<char>;

/// A pattern that can be searched for.
pub open spec fn usable(pattern: Seq<char>) -> bool {
    shipped(pattern) || pattern_compiles(pattern)
}

/// The length of the run of characters of a class at the start of `s`.
pub open spec fn run_len(s: Seq<char>, class: spec_fn(char) -> bool) -> nat
    decreases s.len(),
{
    if s.len() > 0 && class(s[0]) {
        1 + run_len(s.drop_first(), class)
    } else {
        0
    }
}

/// The length of the control sequence at the start of `s`; zero if there is none.
pub open spec fn control_len(s: Seq<char>) -> nat {
    if s.len() >= 2 && s[0] == '\x1b' && s[1] == '[' {
        let params = run_len(s.skip(2), |c: char| '0' <= c <= '9' || c == ';' || c == '?');
        let inter = run_len(s.skip(2 + params as int), |c: char| ' ' <= c <= '/');
        let end = 2 + params + inter;
        if end < s.len() && '@' <= s[end as int] <= '~' {
            end + 1
        } else {
            0
        }
    } else {
        0
    }
}

/// `s` without its control sequences.
pub open spec fn without_controls(s: Seq<char>) -> Seq<char>
    decreases s.len(),
{
    if s.len() == 0 {
        s
    } else if control_len(s) > 0 {
        without_controls(s.skip(control_len(s) as int))
    } else {
        seq![s[0]] + without_controls(s.drop_first())
    }
}

/// `s` without its empty string literals, taken from the left.
pub open spec fn without_empty_literals(s: Seq<char>) -> Seq<char>
    decreases s.len(),
{
    if s.len() == 0 {
        s
    } else if s.len() >= 2 && s[0] == s[1] && (s[0] == '\'' || s[0] == '"') {
        without_empty_literals(s.skip(2))
    } else {
        seq![s[0]] + without_empty_literals(s.drop_first())
    }
}

/// `s` with each run of white space made one blank.
pub open spec fn single_spaced(s: Seq<char>) -> Seq<char>
    decreases s.len(),
{
    if s.len() == 0 {
        s
    } else if !is_space(s.last()) {
        single_spaced(s.drop_last()).push(s.last())
    } else if s.len() >= 2 && is_space(s[s.len() - 2]) {
        single_spaced(s.drop_last())
    } else {
        single_spaced(s.drop_last()).push(' ')
    }
}

/// Calls `regex::Regex::new` and says whether it succeeds. Whether it does depends on the pattern
/// alone; which patterns it accepts is left to the crate.
#[verifier::external_body]
pub(crate) fn compiles(pattern: &str) -> (r: bool)
    ensures
        r == pattern_compiles(pattern@),
{
    Regex::new(pattern).is_ok()
}

/// Calls `regex::Regex::is_match` with a pattern that compiles; the shipped patterns do. Whether
/// there is a match depends on the pattern and the text alone.
#[verifier::external_body]
pub(crate) fn found(pattern: &str, text: &str) -> (r: bool)
    requires
        usable(pattern@),
    ensures
        r == pattern_found(pattern@, text@),
{
    Regex::new(pattern).unwrap().is_match(text)
}

/// Calls `regex::Regex::replace_all` with a pattern that compiles; the shipped patterns do. The
/// result depends on the three arguments alone. Of three shipped patterns the contract says what
/// they match: a control sequence, two equal quotes in a row, and a longest run of characters
/// with the `White_Space` property, each replaced from the left.
#[verifier::external_body]
pub(crate) fn replace_all(pattern: &str, text: &str, with: &str) -> (r: String)
    requires
        usable(pattern@),
    ensures
        r@ == pattern_replaced(pattern@, text@, with@),
        pattern@ == CONTROL_SEQUENCE@ && with@ == ""@ ==> r@ == without_controls(text@),
        pattern@ == EMPTY_LITERAL@ && with@ == ""@ ==> r@ == without_empty_literals(text@),
        pattern@ == WHITE_SPACE@ && with@ == " "@ ==> r@ == single_spaced(text@),
{
    Regex::new(pattern).unwrap().replace_all(text, with).into_owned()
}

} // verus!
