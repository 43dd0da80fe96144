//! Reading the host: logins, the harness behind a process, and the files that policy protects.

use crate::config;
use crate::paths;
use crate::paths::{components, joined_path, lies_in};
use crate::text;
use crate::text::{first_after, has_run, joined, lines_of, number_in, pieces, trimmed};
use vstd::prelude::*;

verus! {

/// The login that a line of the password file gives a user id.
pub open spec fn login_in(line: Seq<char>, uid: u32) -> Option<Seq<char>> {
    let parts = pieces(line, ':');
    if parts.len() >= 3 && number_in(parts[2], u32::MAX as nat) == Some(uid as nat) {
        Some(parts[0])
    } else {
        None
    }
}

/// The login that the first of several lines gives a user id.
pub open spec fn login_among(lines: Seq<Seq<char>>, uid: u32) -> Option<Seq<char>>
    decreases lines.len(),
{
    if lines.len() == 0 {
        None
    } else if login_in(lines[0], uid) is Some {
        login_in(lines[0], uid)
    } else {
        login_among(lines.drop_first(), uid)
    }
}

/// The login of a user id, from the text of the password file.
pub open spec fn login_of(passwd: Seq<char>, uid: u32) -> Option<Seq<char>> {
    login_among(lines_of(passwd), uid)
}

fn login_on(line: &str, uid: u32) -> (r: Option<String>)
    ensures
        r.deep_view() == login_in(line@, uid),
{
    let parts: Vec<String> = text::split(line, ':');
    let ghost all = pieces(line@, ':');
    assert(parts.deep_view().len() == parts.len());
    if parts.len() < 3 {
        return None;
    }
    assert(parts@[0]@ == all[0] && parts@[2]@ == all[2]);
    match text::parse_u32(parts[2].as_str()) {
        Some(found) => if found == uid {
            Some(parts[0].clone())
        } else {
            None
        },
        None => None,
    }
}

/// The login of a user id, from the text of the password file.
pub fn username_for_uid(passwd: &str, uid: u32) -> (r: Option<String>)
    ensures
        r.deep_view() == login_of(passwd@, uid),
{
    let lines: Vec<String> = text::lines(passwd);
    let ghost all = lines_of(passwd@);
    let mut i: usize = 0;
    assert(all.skip(0) == all);
    while i < lines.len()
        invariant
            i <= lines.len(),
            lines.deep_view() == all,
            all == lines_of(passwd@),
            login_among(all.skip(i as int), uid) == login_among(all, uid),
        decreases lines.len() - i,
    {
        assert(lines.deep_view()[i as int] == lines@[i as int]@);
        assert(all.skip(i as int)[0] == all[i as int]);
        assert(all.skip(i as int).drop_first() == all.skip(i + 1));
        if let Some(name) = login_on(lines[i].as_str(), uid) {
            return Some(name);
        }
        i = i + 1;
    }
    assert(lines.deep_view().len() == lines.len());
    None
}

/// The home directory that a line of the password file names.
pub open spec fn home_in(line: Seq<char>) -> Option<Seq<char>> {
    let parts = pieces(line, ':');
    if parts.len() >= 6 {
        Some(parts[5])
    } else {
        None
    }
}

/// The home directory on the first of several lines that is a user id's.
pub open spec fn home_among(lines: Seq<Seq<char>>, uid: u32) -> Option<Seq<char>>
    decreases lines.len(),
{
    if lines.len() == 0 {
        None
    } else if login_in(lines[0], uid) is Some {
        home_in(lines[0])
    } else {
        home_among(lines.drop_first(), uid)
    }
}

/// The home directory of a user id, from the text of the password file.
pub open spec fn home_of(passwd: Seq<char>, uid: u32) -> Option<Seq<char>> {
    home_among(lines_of(passwd), uid)
}

/// The home directory of a user id, from the text of the password file.
pub fn home_for_uid(passwd: &str, uid: u32) -> (r: Option<String>)
    ensures
        r.deep_view() == home_of(passwd@, uid),
{
    let lines: Vec<String> = text::lines(passwd);
    let ghost all = lines_of(passwd@);
    let mut i: usize = 0;
    assert(all.skip(0) == all);
    while i < lines.len()
        invariant
            i <= lines.len(),
            lines.deep_view() == all,
            all == lines_of(passwd@),
            home_among(all.skip(i as int), uid) == home_among(all, uid),
        decreases lines.len() - i,
    {
        assert(lines.deep_view()[i as int] == lines@[i as int]@);
        assert(all.skip(i as int)[0] == all[i as int]);
        assert(all.skip(i as int).drop_first() == all.skip(i + 1));
        if login_on(lines[i].as_str(), uid).is_some() {
            let parts: Vec<String> = text::split(lines[i].as_str(), ':');
            assert(parts.deep_view().len() == parts.len());
            if parts.len() < 6 {
                return None;
            }
            assert(parts.deep_view()[5] == parts@[5]@);
            return Some(parts[5].clone());
        }
        i = i + 1;
    }
    assert(lines.deep_view().len() == lines.len());
    None
}

/// A text in lower case.
pub uninterp spec fn lowercase_of(s: Seq<char>) -> Seq<char>;

/// Calls `str::to_lowercase`. The result depends on the text alone.
#[verifier::external_body]
fn lowercase(s: &str) -> (r: String)
    ensures
        r@ == lowercase_of(s@),
{
    s.to_lowercase()
}

/// The environment marker of one harness; its first six characters are the harness's name.
pub const MARKER: &'static str = "claudecode";

/// The name that the marker begins with.
pub open spec fn marked_name() -> Seq<char> {
    MARKER@.take(6)
}

/// The harness that a lower-case text gives away: by the marker or the name in it, or as `codex` or
/// `hermes`.
pub open spec fn label_of(trace: Seq<char>) -> Option<Seq<char>> {
    if has_run(trace, MARKER@) || has_run(trace, marked_name()) {
        Some(marked_name() + "-code"@)
    } else if has_run(trace, "codex"@) {
        Some("codex"@)
    } else if has_run(trace, "hermes"@) {
        Some("hermes"@)
    } else {
        None
    }
}

/// The harness that a lower-case text gives away.
pub fn label_in(trace: &str) -> (r: Option<String>)
    ensures
        r.deep_view() == label_of(trace@),
{
    proof {
        reveal_strlit("claudecode");
    }
    let marker: &str = MARKER;
    let name: &str = marker.substring_char(0, 6);
    assert(name@ == marked_name());
    if text::contains(trace, marker) || text::contains(trace, name) {
        Some(text::cat2(name, "-code"))
    } else if text::contains(trace, "codex") {
        Some("codex".to_owned())
    } else if text::contains(trace, "hermes") {
        Some("hermes".to_owned())
    } else {
        None
    }
}

/// The parent that a process's status names.
pub open spec fn parent_of(status: Seq<char>) -> Option<u32> {
    match first_after(lines_of(status), "PPid:"@) {
        Some(rest) => match number_in(trimmed(rest), u32::MAX as nat) {
            Some(n) => Some(n as u32),
            None => None,
        },
        None => None,
    }
}

/// The parent that a process's status names.
pub fn parent_in(status: &str) -> (r: Option<u32>)
    ensures
        r == parent_of(status@),
{
    match text::find_after(&text::lines(status), "PPid:") {
        Some(rest) => text::parse_u32(text::trim(rest.as_str())),
        None => None,
    }
}

/// How many processes are looked at on the way up from the requester.
pub const SNIFF_DEPTH: u8 = 12;

/// A process to look at, and how many may still be looked at, this one included.
#[derive(Debug, Clone, Copy, PartialEq, Eq)]
pub struct Look {
    pub pid: u32,
    pub left: u8,
}

/// What a look at a process comes to.
#[derive(Debug, PartialEq, Eq)]
pub enum Sniffed {
    /// The harness is known.
    Label(String),
    /// Its parent is to be looked at.
    Further(Look),
    /// The requester cannot be attributed.
    Nothing,
}

pub enum SniffedView {
    Label(Seq<char>),
    Further(Look),
    Nothing,
}

impl DeepView for Sniffed {
    type V = SniffedView;

    open spec fn deep_view(&self) -> SniffedView {
        match self {
            Sniffed::Label(s) => SniffedView::Label(s@),
            Sniffed::Further(l) => SniffedView::Further(*l),
            Sniffed::Nothing => SniffedView::Nothing,
        }
    }
}

/// What a look at a process comes to, given a lower-case trace of it and its status.
pub open spec fn sniffed(look: Look, trace: Seq<char>, status: Option<Seq<char>>) -> SniffedView {
    match label_of(trace) {
        Some(label) => SniffedView::Label(label),
        None => match status {
            None => SniffedView::Nothing,
            Some(s) => match parent_of(s) {
                None => SniffedView::Nothing,
                Some(parent) => if parent == 0 || parent == look.pid || look.left <= 1 {
                    SniffedView::Nothing
                } else {
                    SniffedView::Further(Look { pid: parent, left: (look.left - 1) as u8 })
                },
            },
        },
    }
}

/// What a look at a process comes to, given a lower-case trace of it and its status.
pub fn sniff_trace(look: Look, trace: &str, status: Option<&str>) -> (r: Sniffed)
    ensures
        r.deep_view() == sniffed(look, trace@, status.deep_view()),
{
    if let Some(label) = label_in(trace) {
        return Sniffed::Label(label);
    }
    let parent: u32 = match status {
        None => {
            return Sniffed::Nothing;
        },
        Some(s) => match parent_in(s) {
            Some(parent) => parent,
            None => {
                return Sniffed::Nothing;
            },
        },
    };
    if parent == 0 || parent == look.pid || look.left <= 1 {
        Sniffed::Nothing
    } else {
        Sniffed::Further(Look { pid: parent, left: look.left - 1 })
    }
}

/// What a look at a process comes to, given its name, its environment and its status. Both texts
/// are searched in lower case.
pub fn sniff_harness(look: Look, comm: &str, environ: &str, status: Option<&str>) -> (r: Sniffed)
    ensures
        r.deep_view() == sniffed(
            look,
            lowercase_of(comm@) + "\n"@ + lowercase_of(environ@),
            status.deep_view(),
        ),
{
    let trace: String = text::cat3(lowercase(comm).as_str(), "\n", lowercase(environ).as_str());
    sniff_trace(look, trace.as_str(), status)
}

/// Looking for the harness ends: each look allows fewer further ones.
pub proof fn sniffing_ends(look: Look, trace: Seq<char>, status: Option<Seq<char>>)
    ensures
        sniffed(look, trace, status) matches SniffedView::Further(next) ==> next.left < look.left,
{
}

/// The command line as one text.
pub open spec fn command_line(argv: Seq<Seq<char>>) -> Seq<char> {
    joined(argv, " "@)
}

/// The command line as one text.
pub fn shell_join(argv: &Vec<String>) -> (r: String)
    ensures
        r@ == command_line(argv.deep_view()),
{
    text::join(argv, " ")
}

/// The configuration of sudo, which names its plugins.
pub const SUDO_CONF: &'static str = "/etc/sudo.conf";

/// The directory that sudo loads its plugins from.
pub const PLUGIN_DIR: &'static str = "/usr/libexec/sudo";

/// The files that policy protects: the workspace's policy, the configuration of sudo, the global
/// policy and the identity. An argument is text, so the last two are left out where the configuration
/// directory is none.
pub open spec fn protected(config_dir: Option<Seq<char>>, workspace: Seq<char>) -> Seq<Seq<char>> {
    let everywhere = seq![joined_path(workspace, "judo.toml"@), SUDO_CONF@];
    match config_dir {
        Some(dir) => everywhere + seq![
            joined_path(dir, "judo.toml"@),
            joined_path(dir, "identity.json"@),
        ],
        None => everywhere,
    }
}

/// Whether an argument mentions a policy file, the configuration of sudo or a file in the directory
/// of its plugins, or is a path to a protected file or into that directory.
pub open spec fn names_policy(
    arg: Seq<char>,
    cwd: Seq<char>,
    workspace: Seq<char>,
    config_dir: Option<Seq<char>>,
) -> bool {
    ||| has_run(arg, "judo.toml"@)
    ||| has_run(arg, SUDO_CONF@)
    ||| has_run(arg, PLUGIN_DIR@ + "/"@)
    ||| lies_in(PLUGIN_DIR@, joined_path(cwd, arg))
    ||| exists|i: int|
        0 <= i < protected(config_dir, workspace).len() && components(
            #[trigger] protected(config_dir, workspace)[i],
        ) == components(joined_path(cwd, arg))
}

/// Whether a command targets a file that policy protects.
pub open spec fn targets_policy(
    argv: Seq<Seq<char>>,
    cwd: Seq<char>,
    workspace: Seq<char>,
    config_dir: Option<Seq<char>>,
) -> bool {
    exists|k: int|
        0 <= k < argv.len() && names_policy(#[trigger] argv[k], cwd, workspace, config_dir)
}

fn arg_names_policy(arg: &str, cwd: &str, workspace: &str, config_dir: Option<&str>) -> (r: bool)
    ensures
        r == names_policy(arg@, cwd@, workspace@, config_dir.deep_view()),
{
    let candidate: String = paths::join(cwd, arg);
    let local: bool = paths::same_path(
        config::workspace_policy_path(workspace).as_str(),
        candidate.as_str(),
    );
    let sudo: bool = paths::same_path(SUDO_CONF, candidate.as_str());
    let loaded: bool = paths::is_in(PLUGIN_DIR, candidate.as_str());
    let own: bool = match config_dir {
        Some(dir) => paths::same_path(paths::join(dir, "judo.toml").as_str(), candidate.as_str())
            || paths::same_path(paths::join(dir, "identity.json").as_str(), candidate.as_str()),
        None => false,
    };
    proof {
        let p = protected(config_dir.deep_view(), workspace@);
        assert(p[0] == joined_path(workspace@, "judo.toml"@));
        assert(p[1] == SUDO_CONF@);
        if let Some(dir) = config_dir {
            assert(p[2] == joined_path(dir@, "judo.toml"@));
            assert(p[3] == joined_path(dir@, "identity.json"@));
        }
    }
    let mentioned: bool = text::contains(arg, "judo.toml") || text::contains(arg, SUDO_CONF)
        || text::contains(arg, text::cat2(PLUGIN_DIR, "/").as_str());
    mentioned || local || sudo || loaded || own
}

/// Whether a command targets a file that policy protects. `config_dir` is the configuration
/// directory, where it is text.
pub fn targets_policy_file(
    argv: &Vec<String>,
    cwd: &str,
    workspace: &str,
    config_dir: Option<&str>,
) -> (r: bool)
    ensures
        r == targets_policy(argv.deep_view(), cwd@, workspace@, config_dir.deep_view()),
{
    let ghost all = argv.deep_view();
    let mut i: usize = 0;
    while i < argv.len()
        invariant
            i <= argv.len(),
            all == argv.deep_view(),
            forall|k: int|
                0 <= k < i ==> !names_policy(
                    #[trigger] all[k],
                    cwd@,
                    workspace@,
                    config_dir.deep_view(),
                ),
        decreases argv.len() - i,
    {
        assert(all[i as int] == argv@[i as int]@);
        if arg_names_policy(argv[i].as_str(), cwd, workspace, config_dir) {
            return true;
        }
        i = i + 1;
    }
    false
}

/// What sudo loads is protected: a command that names the configuration of sudo, or anything in the
/// directory of its plugins, targets policy, wherever it runs.
pub proof fn sudo_itself_is_protected(
    argv: Seq<Seq<char>>,
    k: int,
    cwd: Seq<char>,
    workspace: Seq<char>,
    config_dir: Option<Seq<char>>,
)
    requires
        0 <= k < argv.len(),
        components(joined_path(cwd, argv[k])) == components(SUDO_CONF@) || lies_in(
            PLUGIN_DIR@,
            joined_path(cwd, argv[k]),
        ),
    ensures
        targets_policy(argv, cwd, workspace, config_dir),
{
    assert(protected(config_dir, workspace)[1] == SUDO_CONF@);
    assert(names_policy(argv[k], cwd, workspace, config_dir));
}

} // verus!
