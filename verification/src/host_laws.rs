//! What is read off the host, and which files are protected, said over the lines and paths themselves.

use crate::config::{rp_of, ConfigErrorView, UrlPartsView};
use crate::host::{
    command_line, home_among, home_in, home_of, label_of, login_among, login_of, parent_of, sniffed,
    targets_policy, Look, SniffedView, MARKER,
};
use crate::paths::{components, joined_path, names_something, stepped};
use crate::plugin::{default_identity, default_socket, or_else, uid_of};
use crate::text::{decimal, decimal_reads_back, has_run, joined, number_in, pieces};
use crate::text_laws::{
    absent_values_are_none, all_blank, blanks_around_make_no_difference, lines_are_found_again,
    none_holds, parts_are_found_again, printed_numbers_are_shortest, the_first_value_counts,
};
use vstd::prelude::*;

verus! {

/// A line of the password file is a user id's: its third field is the number.
pub open spec fn is_line_of(line: Seq<char>, uid: u32) -> bool {
    pieces(line, ':').len() >= 3 && number_in(pieces(line, ':')[2], u32::MAX as nat) == Some(
        uid as nat,
    )
}

/// The password file as it is written: each line ended.
pub open spec fn written(lines: Seq<Seq<char>>) -> Seq<char> {
    joined(lines, seq!['\n']) + seq!['\n']
}

/// Lines that can be told apart in a file.
pub open spec fn are_lines(lines: Seq<Seq<char>>) -> bool {
    &&& lines.len() > 0
    &&& none_holds(lines, '\n')
    &&& forall|i: int|
        0 <= i < lines.len() ==> (#[trigger] lines[i]).len() > 0 ==> lines[i].last() != '\r'
}

/// A user's login is the first field of the first line with their number, and their home directory is
/// the sixth.
pub proof fn logins_are_as_listed(
    lines: Seq<Seq<char>>,
    i: int,
    fields: Seq<Seq<char>>,
    uid: u32,
)
    requires
        are_lines(lines),
        0 <= i < lines.len(),
        lines[i] == joined(fields, seq![':']),
        none_holds(fields, ':'),
        fields.len() >= 3,
        fields[2] == decimal(uid as nat),
        forall|j: int| 0 <= j < i ==> !is_line_of(#[trigger] lines[j], uid),
    ensures
        login_of(written(lines), uid) == Some(fields[0]),
        fields.len() >= 6 ==> home_of(written(lines), uid) == Some(fields[5]),
        fields.len() < 6 ==> home_of(written(lines), uid) is None,
{
    lines_are_found_again(lines);
    parts_are_found_again(fields, ':');
    decimal_reads_back(uid as nat, u32::MAX as nat);
    lemma_line_counts(lines, i, uid);
}

proof fn lemma_line_counts(lines: Seq<Seq<char>>, i: int, uid: u32)
    requires
        0 <= i < lines.len(),
        is_line_of(lines[i], uid),
        forall|j: int| 0 <= j < i ==> !is_line_of(#[trigger] lines[j], uid),
    ensures
        login_among(lines, uid) == Some(pieces(lines[i], ':')[0]),
        home_among(lines, uid) == home_in(lines[i]),
    decreases lines.len(),
{
    if i > 0 {
        assert(!is_line_of(lines[0], uid));
        let rest = lines.drop_first();
        assert forall|j: int| 0 <= j < i - 1 implies !is_line_of(#[trigger] rest[j], uid) by {
            assert(rest[j] == lines[j + 1]);
        }
        lemma_line_counts(rest, i - 1, uid);
    }
}

/// A user without a line has no login and no home directory.
pub proof fn unlisted_users_have_no_login(lines: Seq<Seq<char>>, uid: u32)
    requires
        are_lines(lines),
        forall|j: int| 0 <= j < lines.len() ==> !is_line_of(#[trigger] lines[j], uid),
    ensures
        login_of(written(lines), uid) is None,
        home_of(written(lines), uid) is None,
{
    lines_are_found_again(lines);
    lemma_no_line(lines, uid);
}

proof fn lemma_no_line(lines: Seq<Seq<char>>, uid: u32)
    requires
        forall|j: int| 0 <= j < lines.len() ==> !is_line_of(#[trigger] lines[j], uid),
    ensures
        login_among(lines, uid) is None,
        home_among(lines, uid) is None,
    decreases lines.len(),
{
    if lines.len() > 0 {
        assert(!is_line_of(lines[0], uid));
        let rest = lines.drop_first();
        assert forall|j: int| 0 <= j < rest.len() implies !is_line_of(#[trigger] rest[j], uid) by {
            assert(rest[j] == lines[j + 1]);
        }
        lemma_no_line(rest, uid);
    }
}

/// A command line holds its arguments, in their order and with one blank between them; arguments
/// without blanks can be told from it.
pub proof fn command_lines_hold_the_arguments(argv: Seq<Seq<char>>)
    requires
        argv.len() > 0,
        none_holds(argv, ' '),
    ensures
        pieces(command_line(argv), ' ') == argv,
{
    reveal_strlit(" ");
    assert(" "@ =~= seq![' ']);
    parts_are_found_again(argv, ' ');
}

/// A harness is known by its name in the text, the marked one before the others, and nothing else gives
/// one away.
pub proof fn harnesses_are_known_by_name(trace: Seq<char>)
    ensures
        ({
            let name = MARKER@.take(6);
            &&& has_run(trace, name) ==> label_of(trace) == Some(name + "-code"@)
            &&& !has_run(trace, name) && !has_run(trace, MARKER@) && has_run(trace, "codex"@)
                ==> label_of(trace) == Some("codex"@)
            &&& !has_run(trace, name) && !has_run(trace, MARKER@) && !has_run(trace, "codex"@)
                && has_run(trace, "hermes"@) ==> label_of(trace) == Some("hermes"@)
            &&& label_of(trace) is Some ==> has_run(trace, name) || has_run(trace, MARKER@)
                || has_run(trace, "codex"@) || has_run(trace, "hermes"@)
        }),
{
}

/// A process's parent is the number on the line for it.
pub proof fn parents_are_as_listed(lines: Seq<Seq<char>>, i: int, parent: u32)
    requires
        are_lines(lines),
        0 <= i < lines.len(),
        lines[i] == "PPid:"@ + (seq!['\t'] + decimal(parent as nat)),
        forall|j: int| 0 <= j < i ==> !"PPid:"@.is_prefix_of(#[trigger] lines[j]),
    ensures
        parent_of(written(lines)) == Some(parent),
{
    let n = decimal(parent as nat);
    lines_are_found_again(lines);
    the_first_value_counts(lines, "PPid:"@, i, seq!['\t'] + n);
    decimal_reads_back(parent as nat, u32::MAX as nat);
    printed_numbers_are_shortest(parent as nat);
    assert('0' <= n[0] <= '9' && '0' <= n[n.len() - 1] <= '9');
    assert(seq!['\t'] + n + Seq::empty() =~= seq!['\t'] + n);
    assert(all_blank(seq!['\t']));
    blanks_around_make_no_difference(seq!['\t'], n, Seq::empty());
}

/// The search goes to the parent wherever the process itself gives no harness away, unless it has no
/// other parent or nothing more may be looked at.
pub proof fn the_search_goes_up(look: Look, trace: Seq<char>, status: Option<Seq<char>>)
    ensures
        label_of(trace) matches Some(label) ==> sniffed(look, trace, status) == SniffedView::Label(
            label,
        ),
        label_of(trace) is None ==> match status {
            None => sniffed(look, trace, status) is Nothing,
            Some(s) => match parent_of(s) {
                None => sniffed(look, trace, status) is Nothing,
                Some(parent) => {
                    &&& parent != 0 && parent != look.pid && look.left >= 2 ==> (sniffed(
                        look,
                        trace,
                        status,
                    ) matches SniffedView::Further(next) && next.pid == parent && next.left
                        == look.left - 1)
                    &&& parent == 0 || parent == look.pid || look.left < 2 ==> sniffed(
                        look,
                        trace,
                        status,
                    ) is Nothing
                },
            },
        },
{
}

/// An argument leads to a file: from where the command runs, it is a way to it.
pub open spec fn leads_to(arg: Seq<char>, cwd: Seq<char>, file: Seq<char>) -> bool {
    components(joined_path(cwd, arg)) == components(file)
}

/// Policy is protected: an argument that mentions a policy file or sudo's own files, or leads to the
/// workspace's policy, to the global one or to the identity, makes the command target policy.
pub proof fn policy_files_are_protected(
    argv: Seq<Seq<char>>,
    k: int,
    cwd: Seq<char>,
    workspace: Seq<char>,
    config_dir: Option<Seq<char>>,
)
    requires
        0 <= k < argv.len(),
        has_run(argv[k], "judo.toml"@) || has_run(argv[k], "/etc/sudo.conf"@) || has_run(
            argv[k],
            "/usr/libexec/sudo/"@,
        ) || leads_to(argv[k], cwd, joined_path(workspace, "judo.toml"@)) || leads_to(
            argv[k],
            cwd,
            "/etc/sudo.conf"@,
        ) || (config_dir matches Some(dir) && (leads_to(
            argv[k],
            cwd,
            joined_path(dir, "judo.toml"@),
        ) || leads_to(argv[k], cwd, joined_path(dir, "identity.json"@)))),
    ensures
        targets_policy(argv, cwd, workspace, config_dir),
{
    reveal_strlit("/usr/libexec/sudo");
    reveal_strlit("/usr/libexec/sudo/");
    reveal_strlit("/");
    assert("/usr/libexec/sudo"@ + "/"@ =~= "/usr/libexec/sudo/"@);
    let p = crate::host::protected(config_dir, workspace);
    assert(p[0] == joined_path(workspace, "judo.toml"@));
    assert(p[1] == "/etc/sudo.conf"@);
    if let Some(dir) = config_dir {
        assert(p[2] == joined_path(dir, "judo.toml"@));
        assert(p[3] == joined_path(dir, "identity.json"@));
    }
    assert(crate::host::names_policy(argv[k], cwd, workspace, config_dir));
}

/// Nothing else is: a command none of whose arguments mentions or leads to any of these targets no
/// policy.
pub proof fn other_files_are_not(
    argv: Seq<Seq<char>>,
    cwd: Seq<char>,
    workspace: Seq<char>,
    config_dir: Option<Seq<char>>,
)
    requires
        forall|k: int|
            0 <= k < argv.len() ==> {
                &&& !has_run(#[trigger] argv[k], "judo.toml"@)
                &&& !has_run(argv[k], "/etc/sudo.conf"@)
                &&& !has_run(argv[k], "/usr/libexec/sudo/"@)
                &&& !crate::paths::lies_in("/usr/libexec/sudo"@, joined_path(cwd, argv[k]))
                &&& !leads_to(argv[k], cwd, joined_path(workspace, "judo.toml"@))
                &&& !leads_to(argv[k], cwd, "/etc/sudo.conf"@)
                &&& config_dir matches Some(dir) ==> !leads_to(
                    argv[k],
                    cwd,
                    joined_path(dir, "judo.toml"@),
                ) && !leads_to(argv[k], cwd, joined_path(dir, "identity.json"@))
            },
    ensures
        !targets_policy(argv, cwd, workspace, config_dir),
{
    reveal_strlit("/usr/libexec/sudo");
    reveal_strlit("/usr/libexec/sudo/");
    reveal_strlit("/");
    assert("/usr/libexec/sudo"@ + "/"@ =~= "/usr/libexec/sudo/"@);
    let p = crate::host::protected(config_dir, workspace);
    assert(p[0] == joined_path(workspace, "judo.toml"@));
    assert(p[1] == "/etc/sudo.conf"@);
    if let Some(dir) = config_dir {
        assert(p[2] == joined_path(dir, "judo.toml"@));
        assert(p[3] == joined_path(dir, "identity.json"@));
    }
}

/// Names of files and directories, other than the ones that stand for a directory itself or the one
/// above it.
pub open spec fn are_plain_names(names: Seq<Seq<char>>) -> bool {
    &&& names.len() > 0
    &&& none_holds(names, '/')
    &&& forall|i: int|
        0 <= i < names.len() ==> #[trigger] names[i] != ""@ && names[i] != "."@ && names[i] != ".."@
}

/// A path of plain names leads by just those names, from the root or from where it starts.
pub proof fn plain_paths_are_their_names(names: Seq<Seq<char>>)
    requires
        are_plain_names(names),
    ensures
        ({
            let c = components(seq!['/'] + joined(names, seq!['/']));
            c.rooted && !c.dotted && c.names == names
        }),
        ({
            let c = components(joined(names, seq!['/']));
            !c.rooted && !c.dotted && c.names == names
        }),
{
    reveal_strlit("");
    reveal_strlit(".");
    assert(""@ =~= Seq::empty());
    let keep = |piece: Seq<char>| names_something(piece);
    let rel = joined(names, seq!['/']);
    parts_are_found_again(names, '/');
    lemma_plain_names(names, true);
    lemma_plain_names(names, false);
    assert(names[0] != ""@);
    let first = seq![Seq::<char>::empty()];
    let long = first + names;
    assert forall|i: int| 0 <= i < long.len() implies !(#[trigger] long[i]).contains('/') by {
        if i > 0 {
            assert(long[i] == names[i - 1]);
        }
    }
    parts_are_found_again(long, '/');
    lemma_joined_behind(names);
    let p = seq!['/'] + rel;
    assert(joined(long, seq!['/']) == p);
    assert(p[0] == '/');
    Seq::filter_distributes_over_add(first, names, keep);
    assert(first.filter(keep) =~= Seq::empty()) by {
        reveal_with_fuel(Seq::filter, 2);
        assert(!keep(first[0]));
        assert(first.drop_last() =~= Seq::empty());
    }
    assert(long.filter(keep) =~= names);
    assert(long[0] == ""@);
    assert(""@.len() == 0 && "."@.len() == 1);
    if names[0].len() == 0 {
        assert(names[0] =~= ""@);
    }
    lemma_first_of_joined(names);
}

proof fn lemma_joined_behind(names: Seq<Seq<char>>)
    requires
        names.len() > 0,
    ensures
        joined(seq![Seq::<char>::empty()] + names, seq!['/']) == seq!['/'] + joined(
            names,
            seq!['/'],
        ),
    decreases names.len(),
{
    let long = seq![Seq::<char>::empty()] + names;
    let sep = seq!['/'];
    if names.len() == 1 {
        assert(long.drop_last() =~= seq![Seq::<char>::empty()]);
        assert(joined(long.drop_last(), sep) =~= Seq::empty());
        assert(joined(long, sep) == joined(long.drop_last(), sep) + sep + long.last());
        assert(joined(long, sep) =~= sep + names[0]);
    } else {
        let rest = names.drop_last();
        lemma_joined_behind(rest);
        assert(long.drop_last() =~= seq![Seq::<char>::empty()] + rest);
        assert(long.last() == names.last());
        assert(joined(long, sep) =~= sep + joined(names, sep));
    }
}

proof fn lemma_first_of_joined(names: Seq<Seq<char>>)
    requires
        names.len() > 0,
        none_holds(names, '/'),
        names[0].len() > 0,
    ensures
        joined(names, seq!['/']).len() > 0,
        joined(names, seq!['/'])[0] == names[0][0],
        joined(names, seq!['/'])[0] != '/',
    decreases names.len(),
{
    assert(!names[0].contains('/'));
    assert(names[0][0] != '/') by {
        assert(names[0].contains(names[0][0]));
    }
    if names.len() > 1 {
        let rest = names.drop_last();
        assert forall|i: int| 0 <= i < rest.len() implies !(#[trigger] rest[i]).contains('/') by {
            assert(rest[i] == names[i]);
        }
        lemma_first_of_joined(rest);
    }
}

proof fn lemma_plain_names(names: Seq<Seq<char>>, rooted: bool)
    requires
        forall|i: int|
            0 <= i < names.len() ==> #[trigger] names[i] != ""@ && names[i] != "."@ && names[i]
                != ".."@,
    ensures
        names.filter(|piece: Seq<char>| names_something(piece)) == names,
        stepped(names, rooted) == names,
    decreases names.len(),
{
    let keep = |piece: Seq<char>| names_something(piece);
    if names.len() > 0 {
        let rest = names.drop_last();
        assert forall|i: int| 0 <= i < rest.len() implies #[trigger] rest[i] != ""@ && rest[i]
            != "."@ && rest[i] != ".."@ by {
            assert(rest[i] == names[i]);
        }
        lemma_plain_names(rest, rooted);
        assert(keep(names[names.len() - 1]));
        assert(names.filter(keep) =~= names) by {
            reveal(Seq::filter);
        }
        assert(stepped(names, rooted) =~= names);
    } else {
        assert(names.filter(keep) =~= names) by {
            reveal(Seq::filter);
        }
    }
}

/// No way leads above the root, and a way that starts by going up from elsewhere is kept as one.
pub proof fn no_way_leads_above_the_root(names: Seq<Seq<char>>)
    ensures
        stepped(seq![".."@] + names, true) == stepped(names, true),
        stepped(seq![".."@], false) == seq![".."@],
    decreases names.len(),
{
    let up = seq![".."@];
    let long = up + names;
    reveal_with_fuel(stepped, 2);
    assert(up.drop_last() =~= Seq::empty());
    assert(stepped(up, false) =~= up);
    if names.len() == 0 {
        assert(long =~= up);
        assert(names =~= Seq::empty());
    } else {
        no_way_leads_above_the_root(names.drop_last());
        assert(long.drop_last() =~= up + names.drop_last());
        assert(long.last() == names.last());
    }
}

/// A single dot and a doubled slash within a path make no difference.
pub proof fn dots_and_slashes_make_no_difference(
    before: Seq<Seq<char>>,
    idle: Seq<char>,
    after: Seq<Seq<char>>,
)
    requires
        before.len() > 0,
        none_holds(before, '/'),
        none_holds(after, '/'),
        after.len() > 0,
        idle == ""@ || idle == "."@,
        joined(before + seq![idle] + after, seq!['/']).len() > 0,
        joined(before + after, seq!['/']).len() > 0,
        joined(before + seq![idle] + after, seq!['/'])[0] == joined(before + after, seq!['/'])[0],
    ensures
        components(joined(before + seq![idle] + after, seq!['/'])).names == components(
            joined(before + after, seq!['/']),
        ).names,
{
    reveal_strlit("");
    reveal_strlit(".");
    let keep = |piece: Seq<char>| names_something(piece);
    let one = seq![idle];
    let long = before + one + after;
    let short = before + after;
    assert(!idle.contains('/'));
    assert forall|i: int| 0 <= i < long.len() implies !(#[trigger] long[i]).contains('/') by {
        if i < before.len() {
            assert(long[i] == before[i]);
        } else if i > before.len() {
            assert(long[i] == after[i - before.len() - 1]);
        }
    }
    assert forall|i: int| 0 <= i < short.len() implies !(#[trigger] short[i]).contains('/') by {
        if i < before.len() {
            assert(short[i] == before[i]);
        } else {
            assert(short[i] == after[i - before.len()]);
        }
    }
    parts_are_found_again(long, '/');
    parts_are_found_again(short, '/');
    Seq::filter_distributes_over_add(before + one, after, keep);
    Seq::filter_distributes_over_add(before, one, keep);
    Seq::filter_distributes_over_add(before, after, keep);
    assert(one.filter(keep) =~= Seq::empty()) by {
        reveal_with_fuel(Seq::filter, 2);
        assert(!keep(one[0]));
        assert(one.drop_last() =~= Seq::empty());
    }
    assert(long.filter(keep) =~= short.filter(keep));
}

/// A name below a directory stands behind it and one slash; an absolute path stands for itself.
pub proof fn names_go_below(base: Seq<char>, rel: Seq<char>)
    ensures
        rel.len() > 0 && rel[0] == '/' ==> joined_path(base, rel) == rel,
        base.len() > 0 && base.last() != '/' && (rel.len() == 0 || rel[0] != '/') ==> joined_path(
            base,
            rel,
        ) == base + seq!['/'] + rel,
        base.len() > 0 && base.last() == '/' && (rel.len() == 0 || rel[0] != '/') ==> joined_path(
            base,
            rel,
        ) == base + rel,
{
}

/// Sudo is taken at its word on who asks; where it names no number, the process's own user does.
pub proof fn sudo_names_the_user(user_info: Seq<Seq<char>>, i: int, uid: u32, own_uid: u32)
    ensures
        0 <= i < user_info.len() && user_info[i] == "uid="@ + decimal(uid as nat) && (forall|j: int|
            0 <= j < i ==> !"uid="@.is_prefix_of(#[trigger] user_info[j])) ==> uid_of(
            user_info,
            own_uid,
        ) == uid,
        (forall|j: int|
            0 <= j < user_info.len() ==> !"uid="@.is_prefix_of(#[trigger] user_info[j]))
            ==> uid_of(user_info, own_uid) == own_uid,
{
    if 0 <= i < user_info.len() && user_info[i] == "uid="@ + decimal(uid as nat) && (forall|j: int|
        0 <= j < i ==> !"uid="@.is_prefix_of(#[trigger] user_info[j])) {
        the_first_value_counts(user_info, "uid="@, i, decimal(uid as nat));
        decimal_reads_back(uid as nat, u32::MAX as nat);
    }
    if forall|j: int|
        0 <= j < user_info.len() ==> !"uid="@.is_prefix_of(#[trigger] user_info[j]) {
        absent_values_are_none(user_info, "uid="@);
    }
}

/// A value that is given counts, and else the one that stands in for it.
pub proof fn given_values_count(value: Seq<char>, fallback: Seq<char>)
    ensures
        or_else(Some(value), fallback) == value,
        or_else(None, fallback) == fallback,
{
}

/// The plugin looks where the daemon listens and where the superuser's identity lies.
pub proof fn the_plugin_knows_its_places(dir: Seq<char>, home: Option<Seq<char>>)
    requires
        dir.len() > 0,
        dir.last() != '/',
    ensures
        default_socket(Some(dir), home) == dir + "/judo/judo.sock"@,
        default_socket(None, Some(dir)) == dir + "/.local/state/judo/judo.sock"@,
        default_socket(None, None) == "./.local/state/judo/judo.sock"@,
        default_identity(Some(dir)) == dir + "/.config/judo/identity.json"@,
        default_identity(None) == "/root/.config/judo/identity.json"@,
{
    lemma_socket(dir);
    lemma_places(dir);
    lemma_without_home();
    lemma_without_root_home();
}

proof fn lemma_without_home()
    ensures
        default_socket(None, None) == "./.local/state/judo/judo.sock"@,
{
    let here = "."@;
    assert(here.len() == 1 && here.last() == '.') by {
        reveal_strlit(".");
    }
    lemma_places(here);
    assert(here + "/.local/state/judo/judo.sock"@ =~= "./.local/state/judo/judo.sock"@) by {
        reveal_strlit(".");
        reveal_strlit("/.local/state/judo/judo.sock");
        reveal_strlit("./.local/state/judo/judo.sock");
    }
}

proof fn lemma_without_root_home()
    ensures
        default_identity(None) == "/root/.config/judo/identity.json"@,
{
    let root = "/root"@;
    assert(root.len() == 5 && root.last() == 't') by {
        reveal_strlit("/root");
    }
    lemma_places(root);
    assert(root + "/.config/judo/identity.json"@ =~= "/root/.config/judo/identity.json"@) by {
        reveal_strlit("/root");
        reveal_strlit("/.config/judo/identity.json");
        reveal_strlit("/root/.config/judo/identity.json");
    }
}

proof fn lemma_socket(state: Seq<char>)
    requires
        state.len() > 0,
        state.last() != '/',
    ensures
        joined_path(joined_path(state, "judo"@), "judo.sock"@) == state + "/judo/judo.sock"@,
{
    reveal_strlit("judo");
    reveal_strlit("judo.sock");
    reveal_strlit("/judo/judo.sock");
    assert("judo"@[0] == 'j' && "judo"@.last() == 'o' && "judo.sock"@[0] == 'j');
    let a = joined_path(state, "judo"@);
    assert(a == state + seq!['/'] + "judo"@);
    assert(a.last() == 'o');
    assert(a + seq!['/'] + "judo.sock"@ =~= state + "/judo/judo.sock"@);
}

proof fn lemma_places(base: Seq<char>)
    requires
        base.len() > 0,
        base.last() != '/',
    ensures
        default_socket(None, Some(base)) == base + "/.local/state/judo/judo.sock"@,
        default_identity(Some(base)) == base + "/.config/judo/identity.json"@,
{
    reveal_strlit(".local");
    reveal_strlit("state");
    reveal_strlit(".config");
    reveal_strlit("judo");
    reveal_strlit("identity.json");
    reveal_strlit("/judo/judo.sock");
    reveal_strlit("/.local/state/judo/judo.sock");
    reveal_strlit("/.config/judo/identity.json");
    let a = joined_path(base, ".local"@);
    assert(".local"@[0] == '.' && ".local"@.last() == 'l');
    assert(a == base + seq!['/'] + ".local"@ && a.last() == 'l');
    let b = joined_path(a, "state"@);
    assert("state"@[0] == 's' && "state"@.last() == 'e');
    assert(b == a + seq!['/'] + "state"@ && b.last() == 'e');
    lemma_socket(b);
    assert(b + "/judo/judo.sock"@ =~= base + "/.local/state/judo/judo.sock"@);
    let c = joined_path(base, ".config"@);
    assert(".config"@[0] == '.' && ".config"@.last() == 'g');
    assert(c == base + seq!['/'] + ".config"@ && c.last() == 'g');
    let d = joined_path(c, "judo"@);
    assert("judo"@[0] == 'j' && "judo"@.last() == 'o');
    assert(d == c + seq!['/'] + "judo"@ && d.last() == 'o');
    assert("identity.json"@[0] == 'i');
    assert(d + seq!['/'] + "identity.json"@ =~= base + "/.config/judo/identity.json"@);
}

/// The pages stand behind the relay's address: its host is the relying party's id, a secure address
/// gives a secure page, and a port that is not the scheme's own is kept.
pub proof fn pages_stand_behind_the_relay(url: UrlPartsView, host: Seq<char>)
    requires
        url.host == Some(host),
    ensures
        url.scheme == "wss"@ && (url.port is None || url.port == Some(443u16)) ==> rp_of(Ok(url))
            == Ok::<_, ConfigErrorView>((host, "https"@ + "://"@ + host)),
        url.scheme == "wss"@ ==> (url.port matches Some(p) ==> p != 443 ==> rp_of(Ok(url)) == Ok::<
            _,
            ConfigErrorView,
        >((host, "https"@ + "://"@ + host + ":"@ + decimal(p as nat)))),
        url.scheme == "ws"@ && (url.port is None || url.port == Some(80u16)) ==> rp_of(Ok(url))
            == Ok::<_, ConfigErrorView>((host, "http"@ + "://"@ + host)),
        url.scheme == "ws"@ ==> (url.port matches Some(p) ==> p != 80 ==> rp_of(Ok(url)) == Ok::<
            _,
            ConfigErrorView,
        >((host, "http"@ + "://"@ + host + ":"@ + decimal(p as nat)))),
        url.scheme != "ws"@ && url.scheme != "wss"@ ==> rp_of(Ok(url)) is Err,
{
    reveal_strlit("ws");
    reveal_strlit("wss");
    assert("ws"@.len() == 2 && "wss"@.len() == 3);
}

/// An address that cannot be read, that is no WebSocket's, or that names no host gives no page, and
/// each is refused for its own reason.
pub proof fn other_addresses_give_no_page(parts: Result<UrlPartsView, Seq<char>>)
    ensures
        parts matches Err(cause) ==> rp_of(parts) == Err::<(Seq<char>, Seq<char>), _>(
            ConfigErrorView::InvalidUrl { cause },
        ),
        parts matches Ok(url) ==> url.scheme != "ws"@ && url.scheme != "wss"@ ==> rp_of(parts)
            == Err::<(Seq<char>, Seq<char>), _>(
            ConfigErrorView::WrongScheme { scheme: url.scheme },
        ),
        parts matches Ok(url) ==> (url.scheme == "ws"@ || url.scheme == "wss"@) && url.host is None
            ==> rp_of(parts) == Err::<(Seq<char>, Seq<char>), _>(
            ConfigErrorView::NoHost,
        ),
{
}

} // verus!
