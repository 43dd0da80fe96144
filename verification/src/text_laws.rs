//! What the readers of texts make of them: pieces and lines, numbers and durations, what follows a
//! prefix, what is put in place of something, and which text comes first.

use crate::level::{count, countable, minutes_of, seconds_of};
use crate::text::{
    all_digits, decimal, decimal_reads_back, digits_value, first_after, has_run, is_space,
    joined, lemma_pieces_nonempty, lines_of, number_in, pieces, precedes, replaced, trimmed,
    trimmed_end, trimmed_start, unsigned_part, without_cr,
};
use vstd::prelude::*;

verus! {

/// Every character of a text is white space.
pub open spec fn all_blank(s: Seq<char>) -> bool {
    forall|i: int| 0 <= i < s.len() ==> is_space(#[trigger] s[i])
}

/// Blanks, tabs and line breaks are white space; what can be seen is not.
pub proof fn what_can_be_seen_is_no_space(c: char)
    ensures
        is_space(' ') && is_space('\t') && is_space('\n') && is_space('\r'),
        '!' <= c <= '~' ==> !is_space(c),
        c > '~' && is_space(c) ==> c == '\u{85}' || c == '\u{a0}' || c == '\u{1680}' || (
        '\u{2000}' <= c <= '\u{200a}') || c == '\u{2028}' || c == '\u{2029}' || c == '\u{202f}'
            || c == '\u{205f}' || c == '\u{3000}',
{
}

/// Trimming takes white space off both ends, all of it and nothing else.
pub proof fn trimming_takes_only_blanks(s: Seq<char>)
    ensures
        exists|a: Seq<char>, b: Seq<char>|
            all_blank(a) && all_blank(b) && s == #[trigger] (a + trimmed(s) + b),
        trimmed(s).len() > 0 ==> !is_space(trimmed(s)[0]) && !is_space(trimmed(s).last()),
        s.len() > 0 && !is_space(s[0]) && !is_space(s.last()) ==> trimmed(s) == s,
{
    let a = lemma_trimmed_start(s);
    let b = lemma_trimmed_end(trimmed_start(s));
    assert(s =~= a + trimmed(s) + b);
    if trimmed(s).len() > 0 {
        assert(trimmed_start(s)[0] == trimmed(s)[0]);
    }
}

proof fn lemma_trimmed_start(s: Seq<char>) -> (a: Seq<char>)
    ensures
        all_blank(a),
        s == a + trimmed_start(s),
        trimmed_start(s).len() > 0 ==> !is_space(trimmed_start(s)[0]),
    decreases s.len(),
{
    if s.len() > 0 && is_space(s[0]) {
        let a = lemma_trimmed_start(s.drop_first());
        let r = seq![s[0]] + a;
        let t = trimmed_start(s.drop_first());
        assert(trimmed_start(s) == t);
        assert(s =~= seq![s[0]] + s.drop_first());
        assert(r + t =~= seq![s[0]] + (a + t));
        r
    } else {
        assert(s =~= Seq::empty() + s);
        Seq::empty()
    }
}

proof fn lemma_trimmed_end(s: Seq<char>) -> (b: Seq<char>)
    ensures
        all_blank(b),
        s == trimmed_end(s) + b,
        trimmed_end(s).len() > 0 ==> !is_space(trimmed_end(s).last()),
    decreases s.len(),
{
    if s.len() > 0 && is_space(s.last()) {
        let b = lemma_trimmed_end(s.drop_last());
        let r = b.push(s.last());
        let t = trimmed_end(s.drop_last());
        assert(trimmed_end(s) == t);
        assert(s =~= s.drop_last().push(s.last()));
        assert(t + r =~= (t + b).push(s.last()));
        r
    } else {
        assert(s =~= s + Seq::empty());
        Seq::empty()
    }
}

/// White space around a text makes no difference once it is trimmed.
pub proof fn blanks_around_make_no_difference(a: Seq<char>, s: Seq<char>, b: Seq<char>)
    requires
        all_blank(a),
        all_blank(b),
        s.len() > 0,
        !is_space(s[0]),
        !is_space(s.last()),
    ensures
        trimmed(a + s + b) == s,
    decreases a.len() + b.len(),
{
    let whole = a + s + b;
    if a.len() > 0 {
        assert(whole[0] == a[0]);
        assert(whole.drop_first() =~= a.drop_first() + s + b);
        assert(all_blank(a.drop_first()));
        blanks_around_make_no_difference(a.drop_first(), s, b);
    } else {
        assert(whole =~= s + b);
        assert(whole[0] == s[0]);
        lemma_trimmed_off(s, b);
    }
}

proof fn lemma_trimmed_off(s: Seq<char>, b: Seq<char>)
    requires
        all_blank(b),
        s.len() > 0,
        !is_space(s.last()),
    ensures
        trimmed_end(s + b) == s,
    decreases b.len(),
{
    let whole = s + b;
    if b.len() > 0 {
        assert(whole.last() == b.last());
        assert(is_space(b[b.len() - 1]));
        assert(whole.drop_last() =~= s + b.drop_last());
        lemma_trimmed_off(s, b.drop_last());
    } else {
        assert(whole =~= s);
    }
}

/// No part holds the separator.
pub open spec fn none_holds(parts: Seq<Seq<char>>, sep: char) -> bool {
    forall|i: int| 0 <= i < parts.len() ==> !(#[trigger] parts[i]).contains(sep)
}

/// The pieces of a text lie between the separators, and with the separators between them make the
/// text.
pub proof fn pieces_make_the_text(s: Seq<char>, sep: char)
    ensures
        joined(pieces(s, sep), seq![sep]) == s,
        none_holds(pieces(s, sep), sep),
    decreases s.len(),
{
    let all = pieces(s, sep);
    if s.len() > 0 {
        let rest = s.drop_last();
        let before = pieces(rest, sep);
        lemma_pieces_nonempty(rest, sep);
        pieces_make_the_text(rest, sep);
        if s.last() == sep {
            assert(all.drop_last() =~= before);
            assert(joined(all, seq![sep]) =~= rest + seq![sep] + Seq::<char>::empty());
            assert(s =~= rest.push(sep));
        } else {
            let last = before.last().push(s.last());
            assert(all.drop_last() =~= before.drop_last());
            assert(all.last() == last);
            if before.len() > 1 {
                assert(joined(before, seq![sep]) == joined(before.drop_last(), seq![sep])
                    + seq![sep] + before.last());
                assert(joined(all, seq![sep]) =~= rest.push(s.last()));
            } else {
                assert(joined(all, seq![sep]) =~= rest.push(s.last()));
            }
            assert(s =~= rest.push(s.last()));
            assert forall|i: int| 0 <= i < all.len() implies !(#[trigger] all[i]).contains(sep) by {
                if i == all.len() - 1 {
                    assert(!before[i].contains(sep));
                    if last.contains(sep) {
                        let k = choose|k: int| 0 <= k < last.len() && last[k] == sep;
                        if k < before.last().len() {
                            assert(before[i][k] == sep);
                        }
                    }
                } else {
                    assert(all[i] == before[i]);
                }
            }
        }
    }
}

/// A text that was put together with separators falls into the parts that it was made of.
pub proof fn parts_are_found_again(parts: Seq<Seq<char>>, sep: char)
    requires
        parts.len() > 0,
        none_holds(parts, sep),
    ensures
        pieces(joined(parts, seq![sep]), sep) == parts,
    decreases parts.len(),
{
    if parts.len() == 1 {
        assert(!parts[0].contains(sep));
        lemma_whole_piece(parts[0], sep);
        assert(parts =~= seq![parts[0]]);
    } else {
        let rest = parts.drop_last();
        assert forall|i: int| 0 <= i < rest.len() implies !(#[trigger] rest[i]).contains(sep) by {
            assert(rest[i] == parts[i]);
        }
        parts_are_found_again(rest, sep);
        assert(!parts[parts.len() - 1].contains(sep));
        lemma_last_piece(joined(rest, seq![sep]), parts.last(), sep);
        assert(rest.push(parts.last()) =~= parts);
    }
}

proof fn lemma_whole_piece(s: Seq<char>, sep: char)
    requires
        !s.contains(sep),
    ensures
        pieces(s, sep) == seq![s],
    decreases s.len(),
{
    if s.len() > 0 {
        assert(s[s.len() - 1] != sep);
        assert forall|c: char| s.drop_last().contains(c) implies s.contains(c) by {
            let k = choose|k: int| 0 <= k < s.drop_last().len() && s.drop_last()[k] == c;
            assert(s[k] == c);
        }
        lemma_whole_piece(s.drop_last(), sep);
        assert(s.drop_last().push(s.last()) =~= s);
        assert(pieces(s, sep) =~= seq![s]);
    } else {
        assert(s =~= Seq::empty());
    }
}

proof fn lemma_last_piece(a: Seq<char>, b: Seq<char>, sep: char)
    requires
        !b.contains(sep),
    ensures
        pieces(a + seq![sep] + b, sep) == pieces(a, sep).push(b),
    decreases b.len(),
{
    let s = a + seq![sep] + b;
    if b.len() == 0 {
        assert(s.last() == sep);
        assert(s.drop_last() =~= a);
        assert(b =~= Seq::empty());
    } else {
        assert(b[b.len() - 1] != sep);
        assert(s.last() == b.last());
        assert(s.drop_last() =~= a + seq![sep] + b.drop_last());
        assert forall|c: char| b.drop_last().contains(c) implies b.contains(c) by {
            let k = choose|k: int| 0 <= k < b.drop_last().len() && b.drop_last()[k] == c;
            assert(b[k] == c);
        }
        lemma_last_piece(a, b.drop_last(), sep);
        assert(b.drop_last().push(b.last()) =~= b);
        assert(pieces(s, sep) =~= pieces(a, sep).push(b));
    }
}

/// A text of lines falls into them, whether or not the last one is ended.
pub proof fn lines_are_found_again(lines: Seq<Seq<char>>)
    requires
        lines.len() > 0,
        none_holds(lines, '\n'),
        forall|i: int|
            0 <= i < lines.len() ==> (#[trigger] lines[i]).len() > 0 ==> lines[i].last() != '\r',
    ensures
        lines.last().len() > 0 ==> lines_of(joined(lines, seq!['\n'])) == lines,
        lines_of(joined(lines, seq!['\n']) + seq!['\n']) == lines,
{
    parts_are_found_again(lines, '\n');
    let ended = lines.push(Seq::empty());
    assert forall|i: int| 0 <= i < ended.len() implies !(#[trigger] ended[i]).contains('\n') by {
        if i < lines.len() {
            assert(ended[i] == lines[i]);
        }
    }
    parts_are_found_again(ended, '\n');
    assert(ended.drop_last() =~= lines);
    assert(joined(ended, seq!['\n']) =~= joined(lines, seq!['\n']) + seq!['\n']);
    let cut = |l: Seq<char>| without_cr(l);
    assert(lines.map_values(cut) =~= lines);
    assert(lines.drop_last().map_values(cut).push(lines.last()) =~= lines);
}

/// A carriage return before the end of a line belongs to the end.
pub proof fn carriage_returns_end_lines(lines: Seq<Seq<char>>)
    requires
        lines.len() > 0,
        none_holds(lines, '\n'),
    ensures
        lines_of(joined(lines.map_values(|l: Seq<char>| l.push('\r')), seq!['\n']) + seq!['\n'])
            == lines,
{
    let long = lines.map_values(|l: Seq<char>| l.push('\r'));
    let ended = long.push(Seq::empty());
    assert forall|i: int| 0 <= i < ended.len() implies !(#[trigger] ended[i]).contains('\n') by {
        if i < long.len() {
            assert(ended[i] == lines[i].push('\r'));
            assert(!lines[i].contains('\n'));
            if ended[i].contains('\n') {
                let k = choose|k: int| 0 <= k < ended[i].len() && ended[i][k] == '\n';
                assert(lines[i][k] == '\n');
            }
        }
    }
    parts_are_found_again(ended, '\n');
    assert(ended.drop_last() =~= long);
    assert(joined(ended, seq!['\n']) =~= joined(long, seq!['\n']) + seq!['\n']);
    let cut = |l: Seq<char>| without_cr(l);
    assert forall|i: int| 0 <= i < lines.len() implies #[trigger] long.map_values(cut)[i]
        == lines[i] by {
        assert(lines[i].push('\r').drop_last() =~= lines[i]);
    }
    assert(long.map_values(cut) =~= lines);
}

/// A plus before a number makes no difference.
pub proof fn a_plus_makes_no_difference(s: Seq<char>, max: nat)
    requires
        s.len() > 0,
        s[0] != '+',
    ensures
        number_in(seq!['+'] + s, max) == number_in(s, max),
{
    assert((seq!['+'] + s).drop_first() =~= s);
}

/// A number that is written as short as can be is printed as it was written.
pub proof fn numbers_print_back(s: Seq<char>, max: nat)
    requires
        s.len() > 0,
        '0' <= s[0] <= '9',
        s.len() > 1 ==> s[0] != '0',
        number_in(s, max) is Some,
    ensures
        decimal(number_in(s, max)->0) == s,
{
    lemma_prints_back(s);
}

pub(crate) proof fn lemma_prints_back(s: Seq<char>)
    requires
        s.len() > 0,
        all_digits(s),
        s.len() > 1 ==> s[0] != '0',
    ensures
        decimal(digits_value(s)) == s,
        s.len() > 1 ==> digits_value(s) >= 10,
        s[0] != '0' ==> digits_value(s) >= 1,
    decreases s.len(),
{
    let rest = s.drop_last();
    let d = (s.last() as u32 - 48) as nat;
    assert('0' <= s[s.len() - 1] <= '9');
    if s.len() == 1 {
        assert(rest =~= Seq::empty());
        assert(digits_value(rest) == 0);
        assert(digits_value(s) == d);
        assert(decimal(d) =~= s);
    } else {
        assert forall|i: int| 0 <= i < rest.len() implies crate::text::is_digit(
            #[trigger] rest[i],
        ) by {
            assert(rest[i] == s[i]);
        }
        lemma_prints_back(rest);
        let v = digits_value(rest);
        let n = digits_value(s);
        assert(n == 10 * v + d);
        assert(n / 10 == v && n % 10 == d);
        assert(decimal(n) =~= s);
    }
}

/// A number is written in digits, with a plus before them at most, and lies within its bound.
pub proof fn numbers_are_digits(s: Seq<char>, max: nat)
    ensures
        number_in(s, max) matches Some(n) ==> n <= max && s.len() > 0 && forall|i: int|
            0 <= i < s.len() ==> '0' <= #[trigger] s[i] <= '9' || (i == 0 && s[0] == '+' && s.len()
                > 1),
{
    if number_in(s, max) is Some {
        let d = unsigned_part(s);
        assert forall|i: int| 0 <= i < s.len() implies '0' <= #[trigger] s[i] <= '9' || (i == 0
            && s[0] == '+' && s.len() > 1) by {
            if s[0] == '+' {
                if i > 0 {
                    assert(d[i - 1] == s[i]);
                }
            } else {
                assert(d[i] == s[i]);
            }
        }
    }
}

/// A digit is its own value, and one more digit makes a number tenfold and adds its value.
pub proof fn digits_have_place_value(s: Seq<char>, c: char, max: nat)
    requires
        '0' <= c <= '9',
    ensures
        c as u32 - 48 <= max ==> number_in(seq![c], max) == Some((c as u32 - 48) as nat),
        number_in(s, max) matches Some(n) ==> 10 * n + (c as u32 - 48) <= max ==> number_in(
            s.push(c),
            max,
        ) == Some((10 * n + (c as u32 - 48)) as nat),
{
    assert(unsigned_part(seq![c]) == seq![c]);
    assert(seq![c].drop_last() =~= Seq::empty());
    assert(digits_value(Seq::<char>::empty()) == 0);
    assert(digits_value(seq![c]) == c as u32 - 48);
    if number_in(s, max) is Some {
        let d = unsigned_part(s);
        assert(unsigned_part(s.push(c)) =~= d.push(c));
        assert(d.push(c).drop_last() =~= d);
    }
}

/// A number is printed in digits, without a zero before the others.
pub proof fn printed_numbers_are_shortest(n: nat)
    ensures
        decimal(n).len() > 0,
        forall|i: int| 0 <= i < decimal(n).len() ==> '0' <= #[trigger] decimal(n)[i] <= '9',
        n > 0 ==> decimal(n)[0] != '0',
        n == 0 ==> decimal(n).len() == 1,
    decreases n,
{
    if n >= 10 {
        printed_numbers_are_shortest(n / 10);
        assert(decimal(n)[0] == decimal(n / 10)[0]);
    }
}

proof fn lemma_printed(n: nat, unit: char)
    requires
        n <= u64::MAX,
        unit == 'm' || unit == 'h' || unit == 's',
    ensures
        trimmed(decimal(n)) == decimal(n),
        number_in(decimal(n), u64::MAX as nat) == Some(n),
        trimmed(decimal(n).push(unit)) == decimal(n).push(unit),
        decimal(n).last() != 'm' && decimal(n).last() != 'h' && decimal(n).last() != 's',
        number_in(decimal(n).push(unit), u64::MAX as nat) is None,
{
    printed_numbers_are_shortest(n);
    decimal_reads_back(n, u64::MAX as nat);
    let d = decimal(n);
    assert('0' <= d[d.len() - 1] <= '9');
    trimming_takes_only_blanks(d);
    let t = d.push(unit);
    assert(t[0] == d[0] && t.last() == unit);
    trimming_takes_only_blanks(t);
    numbers_are_digits(t, u64::MAX as nat);
    assert(t[t.len() - 1] == unit);
}

/// Durations count: so many minutes, hours of sixty of them, or a bare number of minutes; so many
/// seconds, minutes of sixty of them, or a bare number of seconds. No other unit is understood.
pub proof fn durations_count(n: nat)
    requires
        n <= u64::MAX,
    ensures
        minutes_of(Some(decimal(n).push('m'))) == Some(n),
        minutes_of(Some(decimal(n).push('h'))) == Some(60 * n),
        minutes_of(Some(decimal(n))) == Some(n),
        minutes_of(Some(decimal(n).push('s'))) is None,
        minutes_of(None) is None,
        seconds_of(Some(decimal(n).push('s'))) == Some(n),
        seconds_of(Some(decimal(n).push('m'))) == Some(60 * n),
        seconds_of(Some(decimal(n))) == Some(n),
        seconds_of(Some(decimal(n).push('h'))) is None,
        seconds_of(None) is None,
        count(Some(n)) == Some(n as u64),
        countable(Some(n)),
        60 * n > u64::MAX ==> !countable(Some(60 * n)),
{
    lemma_printed(n, 'm');
    lemma_printed(n, 'h');
    lemma_printed(n, 's');
    assert(decimal(n).push('m').drop_last() =~= decimal(n));
    assert(decimal(n).push('h').drop_last() =~= decimal(n));
    assert(decimal(n).push('s').drop_last() =~= decimal(n));
    assert(n * 60 == 60 * n);
}

/// What follows a prefix is read off the first item that begins with it.
pub proof fn the_first_value_counts(
    list: Seq<Seq<char>>,
    prefix: Seq<char>,
    i: int,
    value: Seq<char>,
)
    requires
        0 <= i < list.len(),
        list[i] == prefix + value,
        forall|j: int| 0 <= j < i ==> !prefix.is_prefix_of(#[trigger] list[j]),
    ensures
        first_after(list, prefix) == Some(value),
    decreases list.len(),
{
    if i == 0 {
        assert(prefix =~= list[0].subrange(0, prefix.len() as int));
        assert(list[0].skip(prefix.len() as int) =~= value);
    } else {
        let rest = list.drop_first();
        assert(!prefix.is_prefix_of(list[0]));
        assert forall|j: int| 0 <= j < i - 1 implies !prefix.is_prefix_of(#[trigger] rest[j]) by {
            assert(rest[j] == list[j + 1]);
        }
        the_first_value_counts(rest, prefix, i - 1, value);
    }
}

/// Where no item begins with a prefix, nothing follows it.
pub proof fn absent_values_are_none(list: Seq<Seq<char>>, prefix: Seq<char>)
    requires
        forall|j: int| 0 <= j < list.len() ==> !prefix.is_prefix_of(#[trigger] list[j]),
    ensures
        first_after(list, prefix) is None,
    decreases list.len(),
{
    if list.len() > 0 {
        let rest = list.drop_first();
        assert(!prefix.is_prefix_of(list[0]));
        assert forall|j: int| 0 <= j < rest.len() implies !prefix.is_prefix_of(#[trigger] rest[j]) by {
            assert(rest[j] == list[j + 1]);
        }
        absent_values_are_none(rest, prefix);
    }
}

/// What stands before the first occurrence stays, the occurrence is replaced, and what follows it is
/// treated alike; without an occurrence nothing changes.
pub proof fn occurrences_are_replaced(
    a: Seq<char>,
    b: Seq<char>,
    pat: Seq<char>,
    with: Seq<char>,
)
    requires
        pat.len() > 0,
        !has_run(a + pat.drop_last(), pat),
    ensures
        replaced(a + pat + b, pat, with) == a + with + replaced(b, pat, with),
    decreases a.len(),
{
    let s = a + pat + b;
    if a.len() == 0 {
        assert(s =~= pat + b);
        assert(pat =~= s.subrange(0, pat.len() as int));
        assert(s.skip(pat.len() as int) =~= b);
        assert(a + with =~= with);
    } else {
        let rest = a.drop_first();
        lemma_no_earlier_run(a, b, pat);
        occurrences_are_replaced(rest, b, pat, with);
        assert(s.drop_first() =~= rest + pat + b);
        assert(s[0] == a[0]);
        let tail = replaced(b, pat, with);
        assert(replaced(s, pat, with) == seq![a[0]] + (rest + with + tail));
        assert(seq![a[0]] + (rest + with + tail) =~= a + with + tail);
    }
}

proof fn lemma_no_earlier_run(a: Seq<char>, b: Seq<char>, pat: Seq<char>)
    requires
        a.len() > 0,
        pat.len() > 0,
        !has_run(a + pat.drop_last(), pat),
    ensures
        !pat.is_prefix_of(a + pat + b),
        !has_run(a.drop_first() + pat.drop_last(), pat),
{
    let s = a + pat + b;
    let short = a + pat.drop_last();
    let n = pat.len() as int;
    if pat.is_prefix_of(s) {
        assert(pat =~= s.subrange(0, n));
        assert(short =~= s.take(short.len() as int));
        assert(short.subrange(0int, 0int + n) =~= pat);
    }
    let r = a.drop_first() + pat.drop_last();
    if has_run(r, pat) {
        let i = choose|i: int|
            0 <= i <= r.len() - pat.len() && #[trigger] r.subrange(i, i + pat.len()) == pat;
        assert(short.drop_first() =~= r);
        assert(short.subrange(i + 1, i + 1 + pat.len()) =~= r.subrange(i, i + pat.len()));
    }
}

/// A text that does not hold what is replaced stays as it is.
pub proof fn other_texts_stay(s: Seq<char>, pat: Seq<char>, with: Seq<char>)
    requires
        pat.len() > 0,
        !has_run(s, pat),
    ensures
        replaced(s, pat, with) == s,
    decreases s.len(),
{
    if s.len() > 0 {
        if pat.is_prefix_of(s) {
            assert(s.subrange(0int, 0int + pat.len()) =~= pat);
        }
        let rest = s.drop_first();
        if has_run(rest, pat) {
            let i = choose|i: int|
                0 <= i <= rest.len() - pat.len() && #[trigger] rest.subrange(i, i + pat.len())
                    == pat;
            assert(s.subrange(i + 1, i + 1 + pat.len()) =~= rest.subrange(i, i + pat.len()));
        }
        other_texts_stay(rest, pat, with);
        assert(seq![s[0]] + rest =~= s);
    }
}

/// Of two texts the one with the lesser character where they first differ comes first, and the
/// beginning of a text comes before the text.
pub proof fn order_goes_by_the_first_difference(
    common: Seq<char>,
    x: char,
    a: Seq<char>,
    y: char,
    b: Seq<char>,
)
    ensures
        x < y ==> precedes(common + seq![x] + a, common + seq![y] + b),
        precedes(common, common + seq![x] + a),
        !precedes(common + seq![x] + a, common),
    decreases common.len(),
{
    let p = common + seq![x] + a;
    let q = common + seq![y] + b;
    if common.len() > 0 {
        let rest = common.drop_first();
        order_goes_by_the_first_difference(rest, x, a, y, b);
        assert(p.drop_first() =~= rest + seq![x] + a);
        assert(q.drop_first() =~= rest + seq![y] + b);
        assert(p[0] == common[0] && q[0] == common[0]);
    } else {
        assert(p[0] == x && q[0] == y);
    }
}

} // verus!
