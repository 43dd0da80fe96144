//! The normalization pipeline that a command goes through before any rule is matched.

use crate::paths::is_rooted;
use crate::patterns;
use crate::patterns::{single_spaced, without_controls, without_empty_literals};
use crate::text;
use crate::text::{is_space, trimmed};
use unicode_normalization::UnicodeNormalization;
use vstd::prelude::*;

verus! {

/// The Unicode normal form KC of a text.
pub uninterp spec fn nfkc_form(s: Seq<char>) -> Seq<char>;

/// `s` without NUL characters.
pub open spec fn without_nuls(s: Seq<char>) -> Seq<char> {
    s.filter(|c: char| c != '\0')
}

/// `s` without the backslashes that stand before anything but white space.
pub open spec fn unescaped(s: Seq<char>) -> Seq<char>
    decreases s.len(),
{
    if s.len() == 0 {
        s
    } else if s[0] == '\\' && s.len() >= 2 && !is_space(s[1]) {
        unescaped(s.drop_first())
    } else {
        seq![s[0]] + unescaped(s.drop_first())
    }
}

/// A character that can stand in the name of a file or a directory next to others: no shell
/// delimiter and no slash.
pub open spec fn is_name_char(c: char) -> bool {
    ||| 'a' <= c <= 'z'
    ||| 'A' <= c <= 'Z'
    ||| '0' <= c <= '9'
    ||| c == '_' || c == '-' || c == '.' || c == '~'
    ||| c > '\u{7f}'
}

/// A directory's path without the slashes at its end.
pub open spec fn bare_dir(dir: Seq<char>) -> Seq<char>
    decreases dir.len(),
{
    if dir.len() > 0 && dir.last() == '/' {
        bare_dir(dir.drop_last())
    } else {
        dir
    }
}

/// Whether a directory stands in `s` at position `i`, as a path or the start of one: no part of a
/// longer path or name.
pub open spec fn dir_at(s: Seq<char>, i: int, dir: Seq<char>) -> bool {
    &&& dir.len() > 0
    &&& 0 <= i <= s.len() - dir.len()
    &&& s.subrange(i, i + dir.len()) == dir
    &&& i > 0 ==> !is_name_char(s[i - 1]) && s[i - 1] != '/'
    &&& i + dir.len() < s.len() ==> !is_name_char(s[i + dir.len()])
}

/// `s` from position `i` on, with a directory written as `~`.
pub open spec fn folded_from(s: Seq<char>, dir: Seq<char>, i: int) -> Seq<char>
    decreases s.len() - i,
{
    if i < 0 || i >= s.len() {
        Seq::empty()
    } else if dir_at(s, i, dir) {
        seq!['~'] + folded_from(s, dir, i + dir.len())
    } else {
        seq![s[i]] + folded_from(s, dir, i + 1)
    }
}

/// `s` with the home directory written as `~`. A home that is no absolute path below the root folds
/// nothing.
pub open spec fn home_folded(s: Seq<char>, home: Option<Seq<char>>) -> Seq<char> {
    match home {
        Some(h) => if is_rooted(bare_dir(h)) {
            folded_from(s, bare_dir(h), 0)
        } else {
            s
        },
        None => s,
    }
}

/// What is done to the normal form: escapes and empty literals are folded away, the home directory
/// becomes `~`, the ends are trimmed and runs of white space become one blank.
pub open spec fn folded(s: Seq<char>, home: Option<Seq<char>>) -> Seq<char> {
    single_spaced(trimmed(home_folded(without_empty_literals(unescaped(s)), home)))
}

/// The command that the rules see.
pub open spec fn normalized(raw: Seq<char>, home: Option<Seq<char>>) -> Seq<char> {
    folded(nfkc_form(without_nuls(without_controls(raw))), home)
}

/// A command with its line breaks written as `;`, which end a command alike.
pub open spec fn lines_ended(raw: Seq<char>) -> Seq<char> {
    raw.map_values(|c: char| if c == '\n' { ';' } else { c })
}

/// The readings of a command that the compiled-in patterns are sought in: as the rules see it, with
/// the home directory written out, and with its line breaks as separators.
pub open spec fn readings(raw: Seq<char>, home: Option<Seq<char>>) -> Seq<Seq<char>> {
    seq![normalized(raw, home), normalized(raw, None), normalized(lines_ended(raw), None)]
}

/// Calls `UnicodeNormalization::nfkc` and collects the characters. The result depends on the text
/// alone.
#[verifier::external_body]
fn nfkc(s: &str) -> (r: String)
    ensures
        r@ == nfkc_form(s@),
{
    s.nfkc().collect()
}

fn drop_nuls(s: &str) -> (r: String)
    ensures
        r@ == without_nuls(s@),
{
    let cs: Vec<char> = text::chars_of(s);
    let mut out: String = String::new();
    let mut i: usize = 0;
    let ghost keep = |c: char| c != '\0';
    assert(s@.take(0).filter(keep) == Seq::<char>::empty()) by {
        reveal(Seq::filter);
    }
    while i < cs.len()
        invariant
            i <= cs.len(),
            cs@ == s@,
            keep == (|c: char| c != '\0'),
            out@ == s@.take(i as int).filter(keep),
        decreases cs.len() - i,
    {
        let c: char = cs[i];
        assert(s@.take(i + 1).drop_last() == s@.take(i as int));
        assert(s@.take(i + 1).filter(keep) == if keep(c) {
            s@.take(i as int).filter(keep).push(c)
        } else {
            s@.take(i as int).filter(keep)
        }) by {
            reveal(Seq::filter);
        }
        if c != '\0' {
            out.push(c);
        }
        i = i + 1;
    }
    assert(s@.take(s@.len() as int) == s@);
    out
}

fn unescape(s: &str) -> (r: String)
    ensures
        r@ == unescaped(s@),
{
    let cs: Vec<char> = text::chars_of(s);
    let n: usize = cs.len();
    let mut out: String = String::new();
    let mut i: usize = 0;
    assert(s@.skip(0) == s@);
    while i < n
        invariant
            i <= n,
            n == cs.len(),
            cs@ == s@,
            out@ + unescaped(s@.skip(i as int)) == unescaped(s@),
        decreases n - i,
    {
        let c: char = cs[i];
        let ghost rest = s@.skip(i as int);
        assert(rest.drop_first() == s@.skip(i + 1));
        let escapes: bool = c == '\\' && i + 1 < n && !text::space(cs[i + 1]);
        if !escapes {
            let ghost held = out@;
            out.push(c);
            assert(held + (seq![c] + unescaped(s@.skip(i + 1))) == out@ + unescaped(s@.skip(i + 1)));
        }
        i = i + 1;
    }
    assert(s@.skip(n as int) == Seq::<char>::empty());
    assert(out@ + Seq::<char>::empty() == out@);
    out
}

fn name_char(c: char) -> (r: bool)
    ensures
        r == is_name_char(c),
{
    ('a' <= c && c <= 'z') || ('A' <= c && c <= 'Z') || ('0' <= c && c <= '9') || c == '_' || c
        == '-' || c == '.' || c == '~' || c > '\u{7f}'
}

/// The characters of a directory's path without the slashes at its end.
fn bare_chars(dir: &str) -> (r: Vec<char>)
    ensures
        r@ == bare_dir(dir@),
{
    let mut cs: Vec<char> = text::chars_of(dir);
    while cs.len() > 0 && cs[cs.len() - 1] == '/'
        invariant
            bare_dir(cs@) == bare_dir(dir@),
        decreases cs.len(),
    {
        let ghost before = cs@;
        let _ = cs.pop();
        assert(cs@ == before.drop_last());
    }
    cs
}

fn stands_at(cs: &Vec<char>, i: usize, dir: &Vec<char>) -> (r: bool)
    requires
        i < cs.len(),
    ensures
        r == dir_at(cs@, i as int, dir@),
{
    let n: usize = dir.len();
    if n == 0 || n > cs.len() - i {
        return false;
    }
    if !text::run_at(cs, i, dir) {
        return false;
    }
    if i > 0 && (name_char(cs[i - 1]) || cs[i - 1] == '/') {
        return false;
    }
    !(i + n < cs.len() && name_char(cs[i + n]))
}

/// `s` with the home directory written as `~`.
pub fn fold_home(s: &str, home: Option<&str>) -> (r: String)
    ensures
        r@ == home_folded(s@, home.deep_view()),
{
    let dir: Vec<char> = match home {
        Some(h) => bare_chars(h),
        None => {
            return s.to_owned();
        },
    };
    if dir.len() == 0 || dir[0] != '/' {
        return s.to_owned();
    }
    let cs: Vec<char> = text::chars_of(s);
    let mut out: String = String::new();
    let mut i: usize = 0;
    while i < cs.len()
        invariant
            i <= cs.len(),
            cs@ == s@,
            dir.len() > 0,
            out@ + folded_from(s@, dir@, i as int) == folded_from(s@, dir@, 0),
        decreases cs.len() - i,
    {
        let ghost held = out@;
        if stands_at(&cs, i, &dir) {
            out.push('~');
            assert(held + (seq!['~'] + folded_from(s@, dir@, i + dir@.len())) == out@ + folded_from(
                s@,
                dir@,
                i + dir@.len(),
            ));
            i = i + dir.len();
        } else {
            let c: char = cs[i];
            out.push(c);
            assert(held + (seq![c] + folded_from(s@, dir@, i + 1)) == out@ + folded_from(
                s@,
                dir@,
                i + 1,
            ));
            i = i + 1;
        }
    }
    assert(out@ + Seq::<char>::empty() == out@);
    out
}

/// What follows the normal form: `folded`, for a text that is in normal form already.
pub fn fold(s: &str, home: Option<&str>) -> (r: String)
    ensures
        r@ == folded(s@, home.deep_view()),
{
    let plain: String = unescape(s);
    let bare: String = patterns::replace_all(patterns::EMPTY_LITERAL, plain.as_str(), "");
    let housed: String = fold_home(bare.as_str(), home);
    patterns::replace_all(patterns::WHITE_SPACE, text::trim(housed.as_str()), " ")
}

/// Normalizes a command: control sequences and NULs are stripped, compatibility characters become
/// their plain forms, escapes and empty literals are folded, the home directory of who asks becomes
/// `~`, white space is collapsed.
pub fn normalize(raw: &str, home: Option<&str>) -> (r: String)
    ensures
        r@ == normalized(raw@, home.deep_view()),
{
    let printed: String = patterns::replace_all(patterns::CONTROL_SEQUENCE, raw, "");
    let solid: String = drop_nuls(printed.as_str());
    let normal: String = nfkc(solid.as_str());
    fold(normal.as_str(), home)
}

/// A command with its line breaks written as `;`.
fn end_lines(raw: &str) -> (r: String)
    ensures
        r@ == lines_ended(raw@),
{
    let cs: Vec<char> = text::chars_of(raw);
    let mut out: String = String::new();
    let mut i: usize = 0;
    while i < cs.len()
        invariant
            i <= cs.len(),
            cs@ == raw@,
            out@ == lines_ended(raw@).take(i as int),
        decreases cs.len() - i,
    {
        assert(lines_ended(raw@).take(i + 1) == lines_ended(raw@).take(i as int).push(
            lines_ended(raw@)[i as int],
        ));
        if cs[i] == '\n' {
            out.push(';');
        } else {
            out.push(cs[i]);
        }
        i = i + 1;
    }
    assert(lines_ended(raw@).take(raw@.len() as int) == lines_ended(raw@));
    out
}

/// The readings of a command, the one that the rules see first.
pub fn read(raw: &str, home: Option<&str>) -> (r: Vec<String>)
    ensures
        r.deep_view() == readings(raw@, home.deep_view()),
{
    let mut out: Vec<String> = Vec::new();
    out.push(normalize(raw, home));
    out.push(normalize(raw, None));
    out.push(normalize(end_lines(raw).as_str(), None));
    assert(out.deep_view() == readings(raw@, home.deep_view()));
    out
}

/// White space only as single blanks, and none at either end.
pub open spec fn is_spaced_once(s: Seq<char>) -> bool {
    &&& s.len() > 0 ==> !is_space(s[0]) && !is_space(s.last())
    &&& forall|i: int| 0 <= i < s.len() && is_space(#[trigger] s[i]) ==> s[i] == ' '
    &&& forall|i: int|
        0 < i < s.len() && is_space(#[trigger] s[i]) ==> !is_space(s[i - 1])
}

proof fn lemma_single_spaced(s: Seq<char>)
    ensures
        s.len() > 0 <==> single_spaced(s).len() > 0,
        s.len() > 0 ==> is_space(single_spaced(s)[0]) == is_space(s[0]),
        s.len() > 0 ==> is_space(single_spaced(s).last()) == is_space(s.last()),
        forall|i: int|
            0 <= i < single_spaced(s).len() && is_space(#[trigger] single_spaced(s)[i])
                ==> single_spaced(s)[i] == ' ',
        forall|i: int|
            0 < i < single_spaced(s).len() && is_space(#[trigger] single_spaced(s)[i])
                ==> !is_space(single_spaced(s)[i - 1]),
    decreases s.len(),
{
    if s.len() > 0 {
        let head = s.drop_last();
        lemma_single_spaced(head);
        if head.len() > 0 {
            assert(head[0] == s[0]);
            assert(head.last() == s[s.len() - 2]);
        }
    }
}

proof fn lemma_trimmed_ends(s: Seq<char>)
    ensures
        trimmed(s).len() > 0 ==> !is_space(trimmed(s)[0]) && !is_space(trimmed(s).last()),
{
    lemma_trimmed_start(s);
    lemma_trimmed_end(text::trimmed_start(s));
}

proof fn lemma_trimmed_start(s: Seq<char>)
    ensures
        text::trimmed_start(s).len() > 0 ==> !is_space(text::trimmed_start(s)[0]),
    decreases s.len(),
{
    if s.len() > 0 && is_space(s[0]) {
        lemma_trimmed_start(s.drop_first());
    }
}

proof fn lemma_trimmed_end(s: Seq<char>)
    ensures
        text::trimmed_end(s).len() > 0 ==> !is_space(text::trimmed_end(s).last())
            && text::trimmed_end(s)[0] == s[0],
    decreases s.len(),
{
    if s.len() > 0 && is_space(s.last()) {
        lemma_trimmed_end(s.drop_last());
    }
}

/// A normalized command holds white space only as single blanks between other characters,
/// whatever the raw command held.
pub proof fn normalized_is_spaced_once(raw: Seq<char>, home: Option<Seq<char>>)
    ensures
        is_spaced_once(normalized(raw, home)),
{
    let bare = without_empty_literals(
        unescaped(nfkc_form(without_nuls(without_controls(raw)))),
    );
    lemma_trimmed_ends(home_folded(bare, home));
    lemma_single_spaced(trimmed(home_folded(bare, home)));
}

/// An escape before a character that is no white space hides nothing: the command folds as if the
/// backslash were not there.
pub proof fn escapes_hide_nothing(
    before: Seq<char>,
    c: char,
    after: Seq<char>,
    home: Option<Seq<char>>,
)
    requires
        !is_space(c),
    ensures
        folded(before + seq!['\\', c] + after, home) == folded(before + seq![c] + after, home),
{
    lemma_unescape_inside(before, c, after);
}

proof fn lemma_unescape_inside(before: Seq<char>, c: char, after: Seq<char>)
    requires
        !is_space(c),
    ensures
        unescaped(before + seq!['\\', c] + after) == unescaped(before + seq![c] + after),
    decreases before.len(),
{
    let long = before + seq!['\\', c] + after;
    let short = before + seq![c] + after;
    if before.len() == 0 {
        assert(long.drop_first() == short);
    } else {
        let rest = before.drop_first();
        assert(long.drop_first() == rest + seq!['\\', c] + after);
        assert(short.drop_first() == rest + seq![c] + after);
        if rest.len() > 0 {
            assert(rest.last() == before.last());
            assert(long[1] == short[1]);
        }
        lemma_unescape_inside(rest, c, after);
    }
}

proof fn lemma_unescape_parts(a: Seq<char>, b: Seq<char>)
    requires
        a.len() == 0 || a.last() != '\\',
    ensures
        unescaped(a + b) == unescaped(a) + unescaped(b),
        a.len() > 0 ==> unescaped(a).len() > 0 && unescaped(a).last() == a.last(),
    decreases a.len(),
{
    if a.len() == 0 {
        assert(a + b == b);
        assert(unescaped(a) + unescaped(b) == unescaped(b));
    } else {
        let rest = a.drop_first();
        assert((a + b).drop_first() == rest + b);
        if rest.len() > 0 {
            assert(rest.last() == a.last());
            assert((a + b)[1] == a[1]);
        }
        lemma_unescape_parts(rest, b);
        assert(seq![a[0]] + (unescaped(rest) + unescaped(b)) == seq![a[0]] + unescaped(rest)
            + unescaped(b));
        if rest.len() == 0 {
            assert(unescaped(rest) == Seq::<char>::empty());
        }
    }
}

proof fn lemma_literal_parts(a: Seq<char>, b: Seq<char>)
    requires
        a.len() == 0 || (a.last() != '\'' && a.last() != '"'),
    ensures
        without_empty_literals(a + b) == without_empty_literals(a) + without_empty_literals(b),
    decreases a.len(),
{
    if a.len() == 0 {
        assert(a + b == b);
        assert(without_empty_literals(a) + without_empty_literals(b) == without_empty_literals(b));
    } else if a.len() >= 2 && a[0] == a[1] && (a[0] == '\'' || a[0] == '"') {
        let rest = a.skip(2);
        assert(a.len() > 2);
        assert(rest.last() == a.last());
        assert((a + b).skip(2) == rest + b);
        lemma_literal_parts(rest, b);
    } else {
        let rest = a.drop_first();
        assert((a + b).drop_first() == rest + b);
        if rest.len() > 0 {
            assert(rest.last() == a.last());
            assert((a + b)[1] == a[1]);
        }
        lemma_literal_parts(rest, b);
        assert(seq![a[0]] + (without_empty_literals(rest) + without_empty_literals(b))
            == seq![a[0]] + without_empty_literals(rest) + without_empty_literals(b));
    }
}

/// An empty literal hides nothing: behind a character that is neither a quote nor a backslash,
/// the command folds as if the two quotes were not there.
pub proof fn empty_literals_hide_nothing(
    before: Seq<char>,
    q: char,
    after: Seq<char>,
    home: Option<Seq<char>>,
)
    requires
        q == '\'' || q == '"',
        before.len() == 0 || (before.last() != '\\' && before.last() != '\'' && before.last()
            != '"'),
    ensures
        folded(before + seq![q, q] + after, home) == folded(before + after, home),
{
    let pair = seq![q, q];
    let x = unescaped(before);
    let y = unescaped(after);
    lemma_unescape_parts(before, after);
    lemma_unescape_parts(before, pair + after);
    lemma_unescape_parts(pair, after);
    assert(unescaped(pair) == pair) by {
        reveal_with_fuel(unescaped, 3);
        assert(pair.drop_first() == seq![q]);
        assert(pair.drop_first().drop_first() == Seq::<char>::empty());
        assert(seq![q] + (seq![q] + Seq::<char>::empty()) == pair);
    }
    assert(before + pair + after == before + (pair + after));
    if before.len() == 0 {
        assert(x == Seq::<char>::empty());
    }
    lemma_literal_parts(x, y);
    lemma_literal_parts(x, pair + y);
    assert((pair + y).skip(2) == y);
}

/// A home directory without a slash at its end, and without shell delimiters.
pub open spec fn is_plain_home(dir: Seq<char>) -> bool {
    &&& is_rooted(dir)
    &&& dir.last() != '/'
    &&& forall|i: int| 0 <= i < dir.len() ==> is_name_char(#[trigger] dir[i]) || dir[i] == '/'
}

/// A path below the home directory is one to the rules, whether the directory is written out or as
/// `~`, wherever in the command a path can begin.
pub proof fn home_paths_read_alike(before: Seq<char>, dir: Seq<char>, after: Seq<char>)
    requires
        is_plain_home(dir),
        before.len() == 0 || (!is_name_char(before.last()) && before.last() != '/'),
        after.len() == 0 || !is_name_char(after[0]),
    ensures
        home_folded(before + dir + after, Some(dir)) == home_folded(
            before + seq!['~'] + after,
            Some(dir),
        ),
{
    assert(bare_dir(dir) == dir);
    lemma_home_before(before, dir, after, 0);
}

/// What stands behind the home directory folds alike.
proof fn lemma_home_behind(before: Seq<char>, dir: Seq<char>, after: Seq<char>, k: int)
    requires
        is_plain_home(dir),
        0 <= k,
    ensures
        folded_from(before + dir + after, dir, before.len() + dir.len() + k) == folded_from(
            before + seq!['~'] + after,
            dir,
            before.len() + 1 + k,
        ),
    decreases after.len() - k,
{
    let long = before + dir + after;
    let short = before + seq!['~'] + after;
    let p = before.len() + dir.len() + k;
    let q = before.len() + 1 + k;
    if k < after.len() {
        assert(long[p] == after[k] && short[q] == after[k]);
        if k + dir.len() <= after.len() {
            assert(long.subrange(p, p + dir.len()) == after.subrange(k, k + dir.len()));
            assert(short.subrange(q, q + dir.len()) == after.subrange(k, k + dir.len()));
            if k + dir.len() < after.len() {
                assert(long[p + dir.len()] == after[k + dir.len()]);
                assert(short[q + dir.len()] == after[k + dir.len()]);
            }
        }
        if k > 0 {
            assert(long[p - 1] == after[k - 1] && short[q - 1] == after[k - 1]);
        } else {
            assert(long[p - 1] == dir.last() && short[q - 1] == '~');
        }
        assert(dir_at(long, p, dir) == dir_at(short, q, dir));
        if dir_at(long, p, dir) {
            lemma_home_behind(before, dir, after, k + dir.len());
        } else {
            lemma_home_behind(before, dir, after, k + 1);
        }
    }
}

/// What stands ahead of the home directory folds alike, and so does the directory itself.
proof fn lemma_home_before(before: Seq<char>, dir: Seq<char>, after: Seq<char>, i: int)
    requires
        is_plain_home(dir),
        before.len() == 0 || (!is_name_char(before.last()) && before.last() != '/'),
        after.len() == 0 || !is_name_char(after[0]),
        0 <= i <= before.len(),
    ensures
        folded_from(before + dir + after, dir, i) == folded_from(
            before + seq!['~'] + after,
            dir,
            i,
        ),
    decreases before.len() - i,
{
    let long = before + dir + after;
    let short = before + seq!['~'] + after;
    let n = before.len() as int;
    if i == n {
        lemma_home_behind(before, dir, after, 0);
        assert(long.subrange(n, n + dir.len()) == dir);
        if n > 0 {
            assert(long[n - 1] == before.last());
        }
        if after.len() > 0 {
            assert(long[n + dir.len()] == after[0]);
        }
        assert(dir_at(long, n, dir));
        assert(short[n] == '~');
        if dir_at(short, n, dir) {
            assert(short.subrange(n, n + dir.len())[0] == dir[0]);
        }
    } else {
        assert(long[i] == before[i] && short[i] == before[i]);
        if i + dir.len() < n {
            assert(long.subrange(i, i + dir.len()) == before.subrange(i, i + dir.len()));
            assert(short.subrange(i, i + dir.len()) == before.subrange(i, i + dir.len()));
            assert(long[i + dir.len()] == before[i + dir.len()]);
            assert(short[i + dir.len()] == before[i + dir.len()]);
        } else {
            // Here the directory would hold the delimiter that `before` ends with.
            assert(long[n - 1] == before.last() && short[n - 1] == before.last());
            if dir_at(long, i, dir) {
                assert(long.subrange(i, i + dir.len())[n - 1 - i] == dir[n - 1 - i]);
            }
            if dir_at(short, i, dir) {
                assert(short.subrange(i, i + dir.len())[n - 1 - i] == dir[n - 1 - i]);
            }
        }
        if i > 0 {
            assert(long[i - 1] == before[i - 1] && short[i - 1] == before[i - 1]);
        }
        assert(dir_at(long, i, dir) == dir_at(short, i, dir));
        if dir_at(long, i, dir) {
            lemma_home_before(before, dir, after, i + dir.len());
        } else {
            lemma_home_before(before, dir, after, i + 1);
        }
    }
}

} // verus!
