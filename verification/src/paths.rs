//! Paths as text: joining them, and telling whether two of them name the same place.

use crate::text;
use crate::text::pieces;
use vstd::prelude::*;
use vstd::utf8::encode_utf8;

verus! {

/// The byte of a slash.
pub const SLASH: u8 = 0x2f;

/// Whether a path starts at the root.
pub open spec fn is_rooted(p: Seq<char>) -> bool {
    p.len() > 0 && p[0] == '/'
}

/// `rel` seen from `base`: a rooted path stands for itself, any other is put behind a slash.
pub open spec fn joined_path(base: Seq<char>, rel: Seq<char>) -> Seq<char> {
    if is_rooted(rel) || base.len() == 0 {
        rel
    } else if base.last() == '/' {
        base + rel
    } else {
        base + seq!['/'] + rel
    }
}

/// `rel` seen from `base`, as `joined_path` has it, for a base that is given by its bytes and need not
/// be text.
pub open spec fn joined_bytes(base: Seq<u8>, rel: Seq<u8>) -> Seq<u8> {
    if (rel.len() > 0 && rel[0] == SLASH) || base.len() == 0 {
        rel
    } else if base.last() == SLASH {
        base + rel
    } else {
        base + seq![SLASH] + rel
    }
}

/// A piece of a path that names something: neither empty nor the current directory.
pub open spec fn names_something(piece: Seq<char>) -> bool {
    piece != ""@ && piece != "."@
}

/// The names on a way with the steps up taken out: a step up takes the name before it along, at the
/// root it leads nowhere, and at the start of any other path it stays.
pub open spec fn stepped(names: Seq<Seq<char>>, rooted: bool) -> Seq<Seq<char>>
    decreases names.len(),
{
    if names.len() == 0 {
        names
    } else {
        let before = stepped(names.drop_last(), rooted);
        if names.last() != ".."@ {
            before.push(names.last())
        } else if before.len() > 0 && before.last() != ".."@ {
            before.drop_last()
        } else if rooted {
            before
        } else {
            before.push(names.last())
        }
    }
}

/// What a path consists of: whether it starts at the root, whether it starts with the current
/// directory, and the names on the way.
pub struct Components {
    pub rooted: bool,
    pub dotted: bool,
    pub names: Seq<Seq<char>>,
}

/// The components of a path. Repeated slashes, a slash at the end, and the current directory
/// anywhere but at the start do not count, and steps up are taken by the text.
pub open spec fn components(p: Seq<char>) -> Components {
    Components {
        rooted: is_rooted(p),
        dotted: pieces(p, '/')[0] == "."@,
        names: stepped(
            pieces(p, '/').filter(|piece: Seq<char>| names_something(piece)),
            is_rooted(p),
        ),
    }
}

fn rooted(p: &str) -> (r: bool)
    ensures
        r == is_rooted(p@),
{
    p.unicode_len() > 0 && p.get_char(0) == '/'
}

/// `rel` seen from `base`.
pub fn join(base: &str, rel: &str) -> (r: String)
    ensures
        r@ == joined_path(base@, rel@),
{
    let n: usize = base.unicode_len();
    if rooted(rel) || n == 0 {
        rel.to_owned()
    } else if base.get_char(n - 1) == '/' {
        text::cat2(base, rel)
    } else {
        let mut out: String = base.to_owned();
        out.push('/');
        assert(out@ == base@ + seq!['/']);
        out.append(rel);
        out
    }
}

/// `rel` seen from `base`, for a base that is given by its bytes.
pub fn join_bytes(base: &Vec<u8>, rel: &str) -> (r: Vec<u8>)
    ensures
        r@ == joined_bytes(base@, encode_utf8(rel@)),
{
    let mut tail: Vec<u8> = rel.as_bytes_vec();
    let n: usize = base.len();
    if (tail.len() > 0 && tail[0] == SLASH) || n == 0 {
        return tail;
    }
    let ghost end = tail@;
    let mut out: Vec<u8> = base.clone();
    assert(out@ == base@);
    if base[n - 1] != SLASH {
        out.push(SLASH);
        assert(out@ == base@ + seq![SLASH]);
    }
    out.append(&mut tail);
    assert(out@ == joined_bytes(base@, end));
    out
}

/// The pieces of a path that name something.
fn named(parts: &Vec<String>) -> (r: Vec<String>)
    ensures
        r.deep_view() == parts.deep_view().filter(|piece: Seq<char>| names_something(piece)),
{
    let ghost all = parts.deep_view();
    let ghost keep = |piece: Seq<char>| names_something(piece);
    let mut out: Vec<String> = Vec::new();
    let mut i: usize = 0;
    assert(all.take(0).filter(keep) == Seq::<Seq<char>>::empty()) by {
        reveal(Seq::filter);
    }
    assert(out.deep_view() == Seq::<Seq<char>>::empty());
    while i < parts.len()
        invariant
            i <= parts.len(),
            all == parts.deep_view(),
            keep == (|piece: Seq<char>| names_something(piece)),
            out.deep_view() == all.take(i as int).filter(keep),
        decreases parts.len() - i,
    {
        let ghost before = out.deep_view();
        assert(all[i as int] == parts@[i as int]@);
        assert(all.take(i + 1).drop_last() == all.take(i as int));
        assert(all.take(i + 1).filter(keep) == if keep(all[i as int]) {
            before.push(all[i as int])
        } else {
            before
        }) by {
            reveal(Seq::filter);
        }
        if !text::same(parts[i].as_str(), "") && !text::same(parts[i].as_str(), ".") {
            out.push(parts[i].clone());
            assert(out.deep_view() == before.push(all[i as int]));
        }
        i = i + 1;
    }
    assert(all.take(all.len() as int) == all);
    out
}

/// The names on a way with the steps up taken out.
fn take_steps(list: &Vec<String>, rooted: bool) -> (r: Vec<String>)
    ensures
        r.deep_view() == stepped(list.deep_view(), rooted),
{
    let ghost all = list.deep_view();
    let mut out: Vec<String> = Vec::new();
    let mut i: usize = 0;
    assert(all.take(0) == Seq::<Seq<char>>::empty());
    assert(out.deep_view() == Seq::<Seq<char>>::empty());
    while i < list.len()
        invariant
            i <= list.len(),
            all == list.deep_view(),
            out.deep_view() == stepped(all.take(i as int), rooted),
        decreases list.len() - i,
    {
        let ghost before = out.deep_view();
        assert(before.len() == out.len());
        assert(all[i as int] == list@[i as int]@);
        assert(all.take(i + 1).drop_last() == all.take(i as int));
        assert(all.take(i + 1).last() == all[i as int]);
        if !text::same(list[i].as_str(), "..") {
            out.push(list[i].clone());
            assert(out.deep_view() == before.push(all[i as int]));
        } else {
            let n: usize = out.len();
            assert(n > 0 ==> before.last() == out@[n - 1]@);
            if n > 0 && !text::same(out[n - 1].as_str(), "..") {
                let _ = out.pop();
                assert(out.deep_view() == before.drop_last());
            } else if !rooted {
                out.push(list[i].clone());
                assert(out.deep_view() == before.push(all[i as int]));
            }
        }
        i = i + 1;
    }
    assert(all.take(all.len() as int) == all);
    out
}

/// The names on the way of a path, given its pieces.
fn names(parts: &Vec<String>, rooted: bool) -> (r: Vec<String>)
    ensures
        r.deep_view() == stepped(
            parts.deep_view().filter(|piece: Seq<char>| names_something(piece)),
            rooted,
        ),
{
    take_steps(&named(parts), rooted)
}

/// Whether two lists hold the same texts in the same order.
fn same_texts(a: &Vec<String>, b: &Vec<String>) -> (r: bool)
    ensures
        r == (a.deep_view() == b.deep_view()),
{
    if a.len() != b.len() {
        assert(a.deep_view().len() != b.deep_view().len());
        return false;
    }
    let mut i: usize = 0;
    while i < a.len()
        invariant
            i <= a.len(),
            a.len() == b.len(),
            forall|j: int| 0 <= j < i ==> (#[trigger] a@[j])@ == b@[j]@,
        decreases a.len() - i,
    {
        if !text::same(a[i].as_str(), b[i].as_str()) {
            assert(a.deep_view()[i as int] != b.deep_view()[i as int]);
            return false;
        }
        i = i + 1;
    }
    assert(a.deep_view() == b.deep_view());
    true
}

/// Whether two paths have the same components.
pub fn same_path(a: &str, b: &str) -> (r: bool)
    ensures
        r == (components(a@) == components(b@)),
{
    let x: Vec<String> = text::split(a, '/');
    let y: Vec<String> = text::split(b, '/');
    proof {
        text::lemma_pieces_nonempty(a@, '/');
        text::lemma_pieces_nonempty(b@, '/');
        assert(x.deep_view().len() == x.len() && y.deep_view().len() == y.len());
        assert(x.deep_view()[0] == x@[0]@ && y.deep_view()[0] == y@[0]@);
    }
    let dotted: bool = text::same(x[0].as_str(), ".") == text::same(y[0].as_str(), ".");
    let from: bool = rooted(a);
    dotted && from == rooted(b) && same_texts(&names(&x, from), &names(&y, from))
}

/// Whether a path is a directory or lies below it, by its components.
pub open spec fn lies_in(dir: Seq<char>, p: Seq<char>) -> bool {
    &&& components(dir).rooted == components(p).rooted
    &&& components(dir).dotted == components(p).dotted
    &&& components(dir).names.is_prefix_of(components(p).names)
}

/// Whether a list begins with the texts of another.
fn begins_with(list: &Vec<String>, head: &Vec<String>) -> (r: bool)
    ensures
        r == head.deep_view().is_prefix_of(list.deep_view()),
{
    if list.len() < head.len() {
        assert(list.deep_view().len() < head.deep_view().len());
        return false;
    }
    let mut i: usize = 0;
    while i < head.len()
        invariant
            i <= head.len() <= list.len(),
            forall|j: int| 0 <= j < i ==> (#[trigger] head@[j])@ == list@[j]@,
        decreases head.len() - i,
    {
        if !text::same(head[i].as_str(), list[i].as_str()) {
            assert(head.deep_view()[i as int] != list.deep_view()[i as int]);
            assert(list.deep_view().take(head.len() as int)[i as int] == list.deep_view()[i as int]);
            return false;
        }
        i = i + 1;
    }
    assert(head.deep_view() == list.deep_view().take(head.len() as int));
    true
}

/// Whether a path is a directory or lies below it, by its components.
pub fn is_in(dir: &str, p: &str) -> (r: bool)
    ensures
        r == lies_in(dir@, p@),
{
    let x: Vec<String> = text::split(dir, '/');
    let y: Vec<String> = text::split(p, '/');
    proof {
        text::lemma_pieces_nonempty(dir@, '/');
        text::lemma_pieces_nonempty(p@, '/');
        assert(x.deep_view().len() == x.len() && y.deep_view().len() == y.len());
        assert(x.deep_view()[0] == x@[0]@ && y.deep_view()[0] == y@[0]@);
    }
    let dotted: bool = text::same(x[0].as_str(), ".") == text::same(y[0].as_str(), ".");
    let from: bool = rooted(dir);
    dotted && from == rooted(p) && begins_with(&names(&y, from), &names(&x, from))
}

/// A detour names the same place: a name and the step up behind it change no way.
pub proof fn detours_change_no_way(
    before: Seq<Seq<char>>,
    name: Seq<char>,
    after: Seq<Seq<char>>,
    rooted: bool,
)
    requires
        name != ".."@,
    ensures
        stepped(before + seq![name, ".."@] + after, rooted) == stepped(before + after, rooted),
    decreases after.len(),
{
    let long = before + seq![name, ".."@] + after;
    let short = before + after;
    if after.len() == 0 {
        assert(short == before);
        assert(long.last() == ".."@);
        assert(long.drop_last() == before.push(name));
        assert(before.push(name).drop_last() == before);
        assert(stepped(before.push(name), rooted) == stepped(before, rooted).push(name));
        assert(stepped(before, rooted).push(name).drop_last() == stepped(before, rooted));
    } else {
        detours_change_no_way(before, name, after.drop_last(), rooted);
        assert(long.drop_last() == before + seq![name, ".."@] + after.drop_last());
        assert(short.drop_last() == before + after.drop_last());
    }
}

} // verus!
