//! What normalization keeps and what it takes away: everything that can be seen stays, and nothing
//! that cannot be seen makes a difference.

use crate::normalize::{
    bare_dir, dir_at, folded_from, home_folded, home_paths_read_alike, lines_ended, nfkc_form,
    normalized, unescaped, without_nuls,
};
use crate::patterns::{
    control_len, run_len, single_spaced, without_controls, without_empty_literals,
};
use crate::text::{is_space, trimmed, trimmed_end, trimmed_start};
use vstd::prelude::*;

verus! {

/// A character that can be seen, or a blank: printable ASCII, or anything beyond it that is no white
/// space.
pub open spec fn is_visible(c: char) -> bool {
    ||| ' ' <= c <= '~'
    ||| c > '\u{a0}' && !is_space(c)
}

/// No backslash stands before anything but a blank.
pub open spec fn escapes_only_blanks(s: Seq<char>) -> bool {
    forall|i: int| 0 <= i < s.len() - 1 && #[trigger] s[i] == '\\' ==> s[i + 1] == ' '
}

/// No two equal quotes stand side by side.
pub open spec fn has_no_empty_literal(s: Seq<char>) -> bool {
    forall|i: int|
        0 <= i < s.len() - 1 && #[trigger] s[i] == s[i + 1] ==> s[i] != '\'' && s[i] != '"'
}

/// Blanks stand singly, and none at either end.
pub open spec fn is_evenly_spaced(s: Seq<char>) -> bool {
    &&& s.len() > 0 ==> s[0] != ' ' && s[s.len() - 1] != ' '
    &&& forall|i: int| 0 <= i < s.len() - 1 && #[trigger] s[i] == ' ' ==> s[i + 1] != ' '
}

/// A command with nothing in it that hides anything.
pub open spec fn is_plain(s: Seq<char>) -> bool {
    &&& forall|i: int| 0 <= i < s.len() ==> is_visible(#[trigger] s[i])
    &&& escapes_only_blanks(s)
    &&& has_no_empty_literal(s)
    &&& is_evenly_spaced(s)
}

/// Nothing visible is lost, moved or changed: a plain command is its own normal form.
pub proof fn plain_commands_stay(raw: Seq<char>)
    requires
        is_plain(raw),
        nfkc_form(raw) == raw,
    ensures
        normalized(raw, None) == raw,
{
    lemma_visible(raw);
    lemma_no_controls(raw);
    lemma_no_nuls(raw);
    lemma_unescaped_stays(raw);
    lemma_literals_stay(raw);
    lemma_trim_stays(raw);
    lemma_spacing_stays(raw);
}

/// Two plain commands that differ are told apart.
pub proof fn plain_commands_are_told_apart(a: Seq<char>, b: Seq<char>)
    requires
        is_plain(a),
        is_plain(b),
        nfkc_form(a) == a,
        nfkc_form(b) == b,
        a != b,
    ensures
        normalized(a, None) != normalized(b, None),
{
    plain_commands_stay(a);
    plain_commands_stay(b);
}

proof fn lemma_visible(s: Seq<char>)
    requires
        forall|i: int| 0 <= i < s.len() ==> is_visible(#[trigger] s[i]),
    ensures
        forall|i: int|
            0 <= i < s.len() ==> #[trigger] s[i] != '\x1b' && s[i] != '\0' && (is_space(s[i])
                <==> s[i] == ' '),
{
    assert forall|i: int| 0 <= i < s.len() implies #[trigger] s[i] != '\x1b' && s[i] != '\0' && (
    is_space(s[i]) <==> s[i] == ' ') by {
        assert(is_visible(s[i]));
    }
}

proof fn lemma_no_controls(s: Seq<char>)
    requires
        forall|i: int| 0 <= i < s.len() ==> #[trigger] s[i] != '\x1b',
    ensures
        without_controls(s) == s,
    decreases s.len(),
{
    if s.len() > 0 {
        assert forall|i: int| 0 <= i < s.drop_first().len() implies #[trigger] s.drop_first()[i]
            != '\x1b' by {
            assert(s.drop_first()[i] == s[i + 1]);
        }
        lemma_no_controls(s.drop_first());
        assert(seq![s[0]] + s.drop_first() == s);
    }
}

proof fn lemma_no_nuls(s: Seq<char>)
    requires
        forall|i: int| 0 <= i < s.len() ==> #[trigger] s[i] != '\0',
    ensures
        without_nuls(s) == s,
    decreases s.len(),
{
    reveal(Seq::filter);
    if s.len() > 0 {
        let head = s.drop_last();
        assert forall|i: int| 0 <= i < head.len() implies #[trigger] head[i] != '\0' by {
            assert(head[i] == s[i]);
        }
        lemma_no_nuls(head);
        assert(s.last() != '\0');
        assert(head.push(s.last()) == s);
    }
    assert(without_nuls(s) =~= s);
}

proof fn lemma_unescaped_stays(s: Seq<char>)
    requires
        escapes_only_blanks(s),
    ensures
        unescaped(s) == s,
    decreases s.len(),
{
    if s.len() > 0 {
        let rest = s.drop_first();
        assert forall|i: int| 0 <= i < rest.len() - 1 && #[trigger] rest[i] == '\\' implies rest[i
            + 1] == ' ' by {
            assert(rest[i] == s[i + 1]);
        }
        lemma_unescaped_stays(rest);
        if s.len() >= 2 && s[0] == '\\' {
            assert(s[1] == ' ');
        }
        assert(seq![s[0]] + rest == s);
    }
}

proof fn lemma_literals_stay(s: Seq<char>)
    requires
        has_no_empty_literal(s),
    ensures
        without_empty_literals(s) == s,
    decreases s.len(),
{
    if s.len() > 0 {
        let rest = s.drop_first();
        assert forall|i: int| 0 <= i < rest.len() - 1 && #[trigger] rest[i] == rest[i + 1] implies rest[i]
            != '\'' && rest[i] != '"' by {
            assert(rest[i] == s[i + 1] && rest[i + 1] == s[i + 2]);
        }
        lemma_literals_stay(rest);
        assert(seq![s[0]] + rest == s);
    }
}

proof fn lemma_trim_stays(s: Seq<char>)
    requires
        s.len() > 0 ==> !is_space(s[0]) && !is_space(s[s.len() - 1]),
    ensures
        trimmed(s) == s,
{
}

proof fn lemma_spacing_stays(s: Seq<char>)
    requires
        forall|i: int| 0 <= i < s.len() && is_space(#[trigger] s[i]) ==> s[i] == ' ',
        forall|i: int|
            0 <= i < s.len() - 1 && is_space(#[trigger] s[i]) ==> !is_space(s[i + 1]),
    ensures
        single_spaced(s) == s,
    decreases s.len(),
{
    if s.len() > 0 {
        let head = s.drop_last();
        assert forall|i: int| 0 <= i < head.len() && is_space(#[trigger] head[i]) implies head[i]
            == ' ' by {
            assert(head[i] == s[i]);
        }
        assert forall|i: int| 0 <= i < head.len() - 1 && is_space(#[trigger] head[i]) implies !is_space(
        head[i + 1]) by {
            assert(head[i] == s[i] && head[i + 1] == s[i + 1]);
        }
        lemma_spacing_stays(head);
        if s.len() >= 2 {
            assert(!(is_space(s[s.len() - 2]) && is_space(s[s.len() - 2 + 1])));
        }
        assert(head.push(s.last()) == s);
    }
}

/// White space of any length, at the ends and between words, makes no difference: a plain command with
/// more of it reads as the plain command.
pub proof fn white_space_makes_no_difference(
    lead: Seq<char>,
    a: Seq<char>,
    gap: Seq<char>,
    b: Seq<char>,
    tail: Seq<char>,
)
    requires
        is_plain(a) && a.len() > 0 && a[a.len() - 1] != '\\',
        is_plain(b) && b.len() > 0,
        gap.len() > 0,
        forall|i: int| 0 <= i < lead.len() ==> is_space(#[trigger] lead[i]),
        forall|i: int| 0 <= i < gap.len() ==> is_space(#[trigger] gap[i]),
        forall|i: int| 0 <= i < tail.len() ==> is_space(#[trigger] tail[i]),
        b[b.len() - 1] != '\\',
        nfkc_form(lead + a + gap + b + tail) == lead + a + gap + b + tail,
    ensures
        normalized(lead + a + gap + b + tail, None) == a + seq![' '] + b,
{
    let raw = lead + a + gap + b + tail;
    lemma_visible(a);
    lemma_visible(b);
    assert(without_nuls(without_controls(raw)) == raw) by {
        lemma_spread_chars(lead, a, gap, b, tail);
        lemma_no_controls(raw);
        lemma_no_nuls(raw);
    }
    lemma_spread_escapes(lead, a, gap, b, tail);
    lemma_spread_literals(lead, a, gap, b, tail);
    lemma_spread_trim(lead, a, gap, b, tail);
    lemma_spread_spacing(a, gap, b);
}

proof fn lemma_spread_chars(
    lead: Seq<char>,
    a: Seq<char>,
    gap: Seq<char>,
    b: Seq<char>,
    tail: Seq<char>,
)
    requires
        forall|i: int| 0 <= i < a.len() ==> #[trigger] a[i] != '\x1b' && a[i] != '\0',
        forall|i: int| 0 <= i < b.len() ==> #[trigger] b[i] != '\x1b' && b[i] != '\0',
        forall|i: int| 0 <= i < lead.len() ==> is_space(#[trigger] lead[i]),
        forall|i: int| 0 <= i < gap.len() ==> is_space(#[trigger] gap[i]),
        forall|i: int| 0 <= i < tail.len() ==> is_space(#[trigger] tail[i]),
    ensures
        ({
            let raw = lead + a + gap + b + tail;
            forall|i: int| 0 <= i < raw.len() ==> #[trigger] raw[i] != '\x1b' && raw[i] != '\0'
        }),
{
    let raw = lead + a + gap + b + tail;
    assert forall|i: int| 0 <= i < raw.len() implies #[trigger] raw[i] != '\x1b' && raw[i] != '\0' by {
        let p = lead.len() as int;
        let q = p + a.len();
        let r = q + gap.len();
        let t = r + b.len();
        if i < p {
            assert(is_space(lead[i]));
        } else if i < q {
            assert(raw[i] == a[i - p]);
        } else if i < r {
            assert(is_space(gap[i - q]));
        } else if i < t {
            assert(raw[i] == b[i - r]);
        } else {
            assert(is_space(tail[i - t]));
        }
    }
}

proof fn lemma_spread_trim(
    lead: Seq<char>,
    a: Seq<char>,
    gap: Seq<char>,
    b: Seq<char>,
    tail: Seq<char>,
)
    requires
        a.len() > 0 && !is_space(a[0]),
        b.len() > 0 && !is_space(b[b.len() - 1]),
        forall|i: int| 0 <= i < lead.len() ==> is_space(#[trigger] lead[i]),
        forall|i: int| 0 <= i < tail.len() ==> is_space(#[trigger] tail[i]),
    ensures
        trimmed(lead + a + gap + b + tail) == a + gap + b,
{
    let raw = lead + a + gap + b + tail;
    let inner = a + gap + b;
    assert((inner + tail)[0] == a[0]);
    assert(lead + (inner + tail) == raw);
    lemma_trim_lead(lead, inner + tail);
    assert(inner.last() == b[b.len() - 1]);
    lemma_trim_tail(inner, tail);
}

proof fn lemma_spread_spacing(a: Seq<char>, gap: Seq<char>, b: Seq<char>)
    requires
        is_evenly_spaced(a) && a.len() > 0,
        is_evenly_spaced(b) && b.len() > 0,
        forall|i: int| 0 <= i < a.len() ==> (is_space(#[trigger] a[i]) <==> a[i] == ' '),
        forall|i: int| 0 <= i < b.len() ==> (is_space(#[trigger] b[i]) <==> b[i] == ' '),
        gap.len() > 0,
        forall|i: int| 0 <= i < gap.len() ==> is_space(#[trigger] gap[i]),
    ensures
        single_spaced(a + gap + b) == a + seq![' '] + b,
{
    lemma_spacing_stays(a);
    lemma_gap(a, gap);
    lemma_append(a + gap, b);
}

proof fn lemma_spread_escapes(
    lead: Seq<char>,
    a: Seq<char>,
    gap: Seq<char>,
    b: Seq<char>,
    tail: Seq<char>,
)
    requires
        escapes_only_blanks(a) && a.len() > 0 && a[a.len() - 1] != '\\',
        escapes_only_blanks(b) && b.len() > 0 && b[b.len() - 1] != '\\',
        forall|i: int| 0 <= i < lead.len() ==> is_space(#[trigger] lead[i]),
        forall|i: int| 0 <= i < gap.len() ==> is_space(#[trigger] gap[i]),
        forall|i: int| 0 <= i < tail.len() ==> is_space(#[trigger] tail[i]),
    ensures
        unescaped(lead + a + gap + b + tail) == lead + a + gap + b + tail,
{
    let raw = lead + a + gap + b + tail;
    let p = lead.len() as int;
    let q = p + a.len();
    let r = q + gap.len();
    let t = r + b.len();
    assert forall|i: int| 0 <= i < raw.len() - 1 && #[trigger] raw[i] == '\\' implies raw[i + 1]
        == ' ' by {
        if i < p {
            assert(is_space(lead[i]));
        } else if i < q {
            assert(raw[i] == a[i - p]);
            assert(i < q - 1);
            assert(raw[i + 1] == a[i - p + 1]);
        } else if i < r {
            assert(is_space(gap[i - q]));
        } else if i < t {
            assert(raw[i] == b[i - r]);
            assert(i < t - 1);
            assert(raw[i + 1] == b[i - r + 1]);
        } else {
            assert(is_space(tail[i - t]));
        }
    }
    lemma_unescaped_stays(raw);
}

proof fn lemma_spread_literals(
    lead: Seq<char>,
    a: Seq<char>,
    gap: Seq<char>,
    b: Seq<char>,
    tail: Seq<char>,
)
    requires
        has_no_empty_literal(a),
        has_no_empty_literal(b),
        gap.len() > 0,
        forall|i: int| 0 <= i < lead.len() ==> is_space(#[trigger] lead[i]),
        forall|i: int| 0 <= i < gap.len() ==> is_space(#[trigger] gap[i]),
        forall|i: int| 0 <= i < tail.len() ==> is_space(#[trigger] tail[i]),
    ensures
        without_empty_literals(lead + a + gap + b + tail) == lead + a + gap + b + tail,
{
    let raw = lead + a + gap + b + tail;
    let p = lead.len() as int;
    let q = p + a.len();
    let r = q + gap.len();
    let t = r + b.len();
    assert forall|i: int| 0 <= i < raw.len() - 1 && #[trigger] raw[i] == raw[i + 1] implies raw[i]
        != '\'' && raw[i] != '"' by {
        if i < p {
            assert(is_space(lead[i]));
        } else if i < q {
            assert(raw[i] == a[i - p]);
            if i < q - 1 {
                assert(raw[i + 1] == a[i - p + 1]);
            } else {
                assert(raw[i + 1] == gap[0]);
                assert(is_space(gap[0]));
            }
        } else if i < r {
            assert(is_space(gap[i - q]));
        } else if i < t {
            assert(raw[i] == b[i - r]);
            if i < t - 1 {
                assert(raw[i + 1] == b[i - r + 1]);
            } else {
                assert(raw[i + 1] == tail[0]);
                assert(is_space(tail[0]));
            }
        } else {
            assert(is_space(tail[i - t]));
        }
    }
    lemma_literals_stay(raw);
}

proof fn lemma_trim_lead(lead: Seq<char>, s: Seq<char>)
    requires
        forall|i: int| 0 <= i < lead.len() ==> is_space(#[trigger] lead[i]),
        s.len() > 0 ==> !is_space(s[0]),
    ensures
        trimmed_start(lead + s) == s,
    decreases lead.len(),
{
    if lead.len() == 0 {
        assert(lead + s == s);
    } else {
        assert(is_space(lead[0]));
        assert((lead + s)[0] == lead[0]);
        let rest = lead.drop_first();
        assert forall|i: int| 0 <= i < rest.len() implies is_space(#[trigger] rest[i]) by {
            assert(rest[i] == lead[i + 1]);
        }
        assert((lead + s).drop_first() == rest + s);
        lemma_trim_lead(rest, s);
    }
}

proof fn lemma_trim_tail(s: Seq<char>, tail: Seq<char>)
    requires
        forall|i: int| 0 <= i < tail.len() ==> is_space(#[trigger] tail[i]),
        s.len() > 0 ==> !is_space(s.last()),
    ensures
        trimmed_end(s + tail) == s,
    decreases tail.len(),
{
    if tail.len() == 0 {
        assert(s + tail == s);
    } else {
        assert(is_space(tail[tail.len() - 1]));
        assert((s + tail).last() == tail.last());
        let rest = tail.drop_last();
        assert forall|i: int| 0 <= i < rest.len() implies is_space(#[trigger] rest[i]) by {
            assert(rest[i] == tail[i]);
        }
        assert((s + tail).drop_last() == s + rest);
        lemma_trim_tail(s, rest);
    }
}

proof fn lemma_gap(a: Seq<char>, gap: Seq<char>)
    requires
        a.len() > 0,
        !is_space(a.last()),
        single_spaced(a) == a,
        gap.len() > 0,
        forall|i: int| 0 <= i < gap.len() ==> is_space(#[trigger] gap[i]),
    ensures
        single_spaced(a + gap) == a + seq![' '],
    decreases gap.len(),
{
    let s = a + gap;
    assert(is_space(gap[gap.len() - 1]));
    assert(s.last() == gap.last());
    if gap.len() == 1 {
        assert(s.drop_last() == a);
        assert(s[s.len() - 2] == a.last());
        assert(a.push(' ') == a + seq![' ']);
    } else {
        let rest = gap.drop_last();
        assert forall|i: int| 0 <= i < rest.len() implies is_space(#[trigger] rest[i]) by {
            assert(rest[i] == gap[i]);
        }
        assert(s.drop_last() == a + rest);
        assert(s[s.len() - 2] == gap[gap.len() - 2]);
        lemma_gap(a, rest);
    }
}

proof fn lemma_append(x: Seq<char>, b: Seq<char>)
    requires
        b.len() > 0,
        !is_space(b[0]),
        forall|i: int| 0 <= i < b.len() && is_space(#[trigger] b[i]) ==> b[i] == ' ',
        forall|i: int|
            0 <= i < b.len() - 1 && is_space(#[trigger] b[i]) ==> !is_space(b[i + 1]),
    ensures
        single_spaced(x + b) == single_spaced(x) + b,
    decreases b.len(),
{
    let s = x + b;
    assert(s.last() == b.last());
    if b.len() == 1 {
        assert(s.drop_last() == x);
        assert(single_spaced(x).push(b[0]) == single_spaced(x) + b);
    } else {
        let head = b.drop_last();
        assert(head[0] == b[0]);
        assert forall|i: int| 0 <= i < head.len() && is_space(#[trigger] head[i]) implies head[i]
            == ' ' by {
            assert(head[i] == b[i]);
        }
        assert forall|i: int| 0 <= i < head.len() - 1 && is_space(#[trigger] head[i]) implies !is_space(
        head[i + 1]) by {
            assert(head[i] == b[i] && head[i + 1] == b[i + 1]);
        }
        lemma_append(x, head);
        assert(s.drop_last() == x + head);
        assert(s[s.len() - 2] == b[b.len() - 2]);
        assert(!(is_space(b[b.len() - 2]) && is_space(b[b.len() - 2 + 1])));
        assert((single_spaced(x) + head).push(b.last()) == single_spaced(x) + b);
    }
}

/// A NUL hides nothing: without escape characters about, a command reads as if it were not there.
pub proof fn nuls_hide_nothing(before: Seq<char>, after: Seq<char>, home: Option<Seq<char>>)
    requires
        forall|i: int| 0 <= i < before.len() ==> #[trigger] before[i] != '\x1b',
        forall|i: int| 0 <= i < after.len() ==> #[trigger] after[i] != '\x1b',
    ensures
        normalized(before + seq!['\0'] + after, home) == normalized(before + after, home),
{
    let long = before + seq!['\0'] + after;
    let short = before + after;
    assert forall|i: int| 0 <= i < long.len() implies #[trigger] long[i] != '\x1b' by {
        if i < before.len() {
            assert(long[i] == before[i]);
        } else if i > before.len() {
            assert(long[i] == after[i - before.len() - 1]);
        }
    }
    assert forall|i: int| 0 <= i < short.len() implies #[trigger] short[i] != '\x1b' by {
        if i < before.len() {
            assert(short[i] == before[i]);
        } else {
            assert(short[i] == after[i - before.len()]);
        }
    }
    lemma_no_controls(long);
    lemma_no_controls(short);
    lemma_nul_inside(before, after);
}

/// Exactly the NULs go: whatever else stands somewhere in a text stays there, once.
pub proof fn all_but_nuls_stay(before: Seq<char>, c: char, after: Seq<char>)
    ensures
        c != '\0' ==> without_nuls(before + seq![c] + after) == without_nuls(before) + seq![c]
            + without_nuls(after),
        without_nuls(before + seq!['\0'] + after) == without_nuls(before + after),
        forall|i: int|
            0 <= i < without_nuls(before).len() ==> #[trigger] without_nuls(before)[i] != '\0',
{
    lemma_nul_inside(before, after);
    lemma_nul_parts(before + seq![c], after);
    lemma_nul_parts(before, seq![c]);
    lemma_nul_alone(c);
    let keep = |c: char| c != '\0';
    broadcast use vstd::seq_lib::group_filter_ensures;

    assert forall|i: int| 0 <= i < without_nuls(before).len() implies #[trigger] without_nuls(
        before,
    )[i] != '\0' by {
        assert(keep(before.filter(keep)[i]));
    }
}

proof fn lemma_nul_parts(a: Seq<char>, b: Seq<char>)
    ensures
        without_nuls(a + b) == without_nuls(a) + without_nuls(b),
    decreases b.len(),
{
    reveal(Seq::filter);
    if b.len() == 0 {
        assert(a + b == a);
    } else {
        assert((a + b).drop_last() == a + b.drop_last());
        assert((a + b).last() == b.last());
        lemma_nul_parts(a, b.drop_last());
    }
    assert(without_nuls(a + b) =~= without_nuls(a) + without_nuls(b));
}

proof fn lemma_nul_inside(before: Seq<char>, after: Seq<char>)
    ensures
        without_nuls(before + seq!['\0'] + after) == without_nuls(before + after),
{
    lemma_nul_parts(before + seq!['\0'], after);
    lemma_nul_parts(before, seq!['\0']);
    lemma_nul_parts(before, after);
    lemma_nul_alone('\0');
}

proof fn lemma_nul_alone(c: char)
    ensures
        without_nuls(seq![c]) == if c != '\0' {
            seq![c]
        } else {
            Seq::<char>::empty()
        },
{
    reveal_with_fuel(Seq::filter, 2);
    assert(seq![c].drop_last() == Seq::<char>::empty());
    assert(Seq::<char>::empty().push(c) == seq![c]);
}

/// A control sequence hides nothing: the sequences that set colours and move the cursor, wherever they
/// stand behind ordinary text, make no difference.
pub proof fn controls_hide_nothing(
    before: Seq<char>,
    params: Seq<char>,
    end: char,
    after: Seq<char>,
    home: Option<Seq<char>>,
)
    requires
        forall|i: int| 0 <= i < before.len() ==> #[trigger] before[i] != '\x1b',
        forall|i: int|
            0 <= i < params.len() ==> '0' <= (#[trigger] params[i]) <= '9' || params[i] == ';'
                || params[i] == '?',
        '@' <= end <= '~',
    ensures
        normalized(before + seq!['\x1b', '['] + params + seq![end] + after, home) == normalized(
            before + after,
            home,
        ),
{
    let code = seq!['\x1b', '['] + params + seq![end];
    lemma_control_code(params, end, after);
    lemma_controls_behind(before, code + after);
    lemma_controls_behind(before, after);
    assert((code + after).skip(code.len() as int) == after);
    assert(before + seq!['\x1b', '['] + params + seq![end] + after == before + (code + after));
}

proof fn lemma_control_code(params: Seq<char>, end: char, after: Seq<char>)
    requires
        forall|i: int|
            0 <= i < params.len() ==> '0' <= (#[trigger] params[i]) <= '9' || params[i] == ';'
                || params[i] == '?',
        '@' <= end <= '~',
    ensures
        control_len(seq!['\x1b', '['] + params + seq![end] + after) == params.len() + 3,
{
    let s = seq!['\x1b', '['] + params + seq![end] + after;
    let digits = |c: char| '0' <= c <= '9' || c == ';' || c == '?';
    let inner = |c: char| ' ' <= c <= '/';
    assert(s.skip(2) == params + (seq![end] + after));
    assert((seq![end] + after)[0] == end);
    lemma_run(params, seq![end] + after, digits);
    assert(s.skip(2 + params.len() as int) == seq![end] + after);
    assert(run_len(seq![end] + after, inner) == 0);
    assert(s[2 + params.len() as int] == end);
}

proof fn lemma_run(a: Seq<char>, b: Seq<char>, class: spec_fn(char) -> bool)
    requires
        forall|i: int| 0 <= i < a.len() ==> class(#[trigger] a[i]),
        b.len() > 0 && !class(b[0]),
    ensures
        run_len(a + b, class) == a.len(),
    decreases a.len(),
{
    if a.len() == 0 {
        assert(a + b == b);
    } else {
        assert(class(a[0]));
        let rest = a.drop_first();
        assert forall|i: int| 0 <= i < rest.len() implies class(#[trigger] rest[i]) by {
            assert(rest[i] == a[i + 1]);
        }
        lemma_run(rest, b, class);
        assert((a + b).drop_first() == rest + b);
    }
}

proof fn lemma_controls_behind(before: Seq<char>, rest: Seq<char>)
    requires
        forall|i: int| 0 <= i < before.len() ==> #[trigger] before[i] != '\x1b',
    ensures
        without_controls(before + rest) == before + without_controls(rest),
    decreases before.len(),
{
    if before.len() == 0 {
        assert(before + rest == rest);
        assert(before + without_controls(rest) == without_controls(rest));
    } else {
        let tail = before.drop_first();
        assert forall|i: int| 0 <= i < tail.len() implies #[trigger] tail[i] != '\x1b' by {
            assert(tail[i] == before[i + 1]);
        }
        lemma_controls_behind(tail, rest);
        assert((before + rest)[0] == before[0]);
        assert((before + rest).drop_first() == tail + rest);
        assert(seq![before[0]] + (tail + without_controls(rest)) == before + without_controls(
            rest,
        ));
    }
}

/// A character that goes on with a name beside it.
pub open spec fn is_part_of_a_name(c: char) -> bool {
    ||| 'a' <= c <= 'z' || 'A' <= c <= 'Z' || '0' <= c <= '9'
    ||| c == '_' || c == '-' || c == '.' || c == '~'
    ||| c > '\u{7f}'
}

/// Nothing but the home directory is folded: where it does not stand in a text, or only as a part of
/// a longer path or name, the text stays.
pub proof fn strange_paths_are_not_folded(s: Seq<char>, dir: Seq<char>)
    requires
        dir.len() > 0 && dir[dir.len() - 1] != '/',
        forall|i: int|
            0 <= i <= s.len() - dir.len() && #[trigger] s.subrange(i, i + dir.len()) == dir ==> {
                ||| i > 0 && (is_part_of_a_name(s[i - 1]) || s[i - 1] == '/')
                ||| i + dir.len() < s.len() && is_part_of_a_name(s[i + dir.len()])
            },
    ensures
        home_folded(s, Some(dir)) == s,
        home_folded(s, None) == s,
{
    assert(bare_dir(dir) == dir);
    lemma_not_folded(s, dir, 0);
    assert(s.skip(0) == s);
}

proof fn lemma_not_folded(s: Seq<char>, dir: Seq<char>, i: int)
    requires
        dir.len() > 0,
        0 <= i <= s.len(),
        forall|i: int|
            0 <= i <= s.len() - dir.len() && #[trigger] s.subrange(i, i + dir.len()) == dir ==> {
                ||| i > 0 && (is_part_of_a_name(s[i - 1]) || s[i - 1] == '/')
                ||| i + dir.len() < s.len() && is_part_of_a_name(s[i + dir.len()])
            },
    ensures
        folded_from(s, dir, i) == s.skip(i),
    decreases s.len() - i,
{
    if i < s.len() {
        lemma_not_folded(s, dir, i + 1);
        assert(!dir_at(s, i, dir)) by {
            if dir_at(s, i, dir) {
                assert(s.subrange(i, i + dir.len()) == dir);
            }
        }
        assert(seq![s[i]] + s.skip(i + 1) == s.skip(i));
    } else {
        assert(s.skip(i) == Seq::<char>::empty());
    }
}

/// The home directory is folded: wherever a path begins with it, in a text that does not hold it
/// elsewhere, it is written as `~`, and the rest stays.
pub proof fn home_paths_are_folded(before: Seq<char>, dir: Seq<char>, after: Seq<char>)
    requires
        dir.len() > 1 && dir[0] == '/' && dir[dir.len() - 1] != '/',
        forall|i: int| 0 <= i < dir.len() ==> is_part_of_a_name(#[trigger] dir[i]) || dir[i] == '/',
        before.len() == 0 || (!is_part_of_a_name(before.last()) && before.last() != '/'),
        after.len() == 0 || !is_part_of_a_name(after[0]),
        forall|i: int|
            0 <= i <= (before + seq!['~'] + after).len() - dir.len() ==> #[trigger] (before + seq![
                '~',
            ] + after).subrange(i, i + dir.len()) != dir,
    ensures
        home_folded(before + dir + after, Some(dir)) == before + seq!['~'] + after,
{
    home_paths_read_alike(before, dir, after);
    strange_paths_are_not_folded(before + seq!['~'] + after, dir);
}

/// Slashes at the end of the home directory make no difference.
pub proof fn trailing_slashes_make_no_difference(s: Seq<char>, dir: Seq<char>)
    ensures
        home_folded(s, Some(dir + seq!['/'])) == home_folded(s, Some(dir)),
{
    assert((dir + seq!['/']).drop_last() == dir);
}

/// A line break reads as `;`, and everything else as it stands.
pub proof fn line_breaks_read_as_separators(raw: Seq<char>)
    ensures
        lines_ended(raw).len() == raw.len(),
        forall|i: int|
            0 <= i < raw.len() ==> #[trigger] lines_ended(raw)[i] == if raw[i] == '\n' {
                ';'
            } else {
                raw[i]
            },
{
}

} // verus!
