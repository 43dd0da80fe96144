//! What holds of every policy: the promises that the layers and the classifier keep together.

use crate::engine::{
    builtin_hits, builtin_table, classified, custom_rules, decided, found_in, hardline_from,
    hardline_table, hit_of, is_hit, occurs, set_at, set_level, set_ttl, with_custom_hits, Asker,
    FindingsView,
};
use crate::level::{rung, Level};
use crate::normalize::{lines_ended, normalized, readings};
use crate::patterns::pattern_found;
use crate::policy::{
    effective_of, empty_policy, offers_ttl, strictest, ttl_offer_of, DecisionView, HitView,
    PolicyView,
};
use vstd::prelude::*;

verus! {

/// The strictest hit wins: no hit is stricter than the effective level, and some hit has it.
pub proof fn strictest_wins(hits: Seq<HitView>)
    requires
        hits.len() > 0,
    ensures
        forall|i: int| 0 <= i < hits.len() ==> rung((#[trigger] hits[i]).level) <= rung(strictest(hits)),
        exists|i: int| 0 <= i < hits.len() && (#[trigger] hits[i]).level == strictest(hits),
    decreases hits.len(),
{
    if hits.len() > 1 {
        let rest = hits.drop_last();
        strictest_wins(rest);
        let k = choose|i: int| 0 <= i < rest.len() && (#[trigger] rest[i]).level == strictest(rest);
        assert(hits[k] == rest[k]);
        assert(hits[hits.len() - 1] == hits.last());
        assert forall|i: int| 0 <= i < hits.len() implies rung((#[trigger] hits[i]).level) <= rung(
            strictest(hits),
        ) by {
            if i < rest.len() {
                assert(rest[i] == hits[i]);
            }
        }
    } else {
        assert(hits[0].level == strictest(hits));
    }
}

/// The order of the hits does not matter.
pub proof fn order_does_not_matter(a: Seq<HitView>, b: Seq<HitView>)
    requires
        a.to_multiset() == b.to_multiset(),
    ensures
        strictest(a) == strictest(b),
{
    broadcast use vstd::seq_lib::group_to_multiset_ensures;

    assert(a.len() == a.to_multiset().len() && b.len() == b.to_multiset().len());
    if a.len() > 0 {
        strictest_wins(a);
        strictest_wins(b);
        let i = choose|i: int| 0 <= i < a.len() && (#[trigger] a[i]).level == strictest(a);
        let j = choose|j: int| 0 <= j < b.len() && (#[trigger] b[j]).level == strictest(b);
        assert(a.contains(a[i]));
        assert(a.to_multiset().count(a[i]) > 0);
        assert(b.contains(a[i]));
        assert(b.contains(b[j]));
        assert(b.to_multiset().count(b[j]) > 0);
        assert(a.contains(b[j]));
    }
}

/// The compiled-in floor: a command that runs into a hardline is denied, whatever the two layers
/// say, whoever asks.
pub proof fn hardlines_are_denied(
    g: PolicyView,
    w: PolicyView,
    raw: Seq<char>,
    asker: Asker,
    policy_write: bool,
    home: Option<Seq<char>>,
)
    requires
        hardline_from(readings(raw, home), 0) is Some,
    ensures
        effective_of(classified(g, w, raw, asker, policy_write, home)) == Level::Deny,
        ttl_offer_of(classified(g, w, raw, asker, policy_write, home)) is None,
{
}

/// Neither a home directory nor a line break hides a hardline: a command that runs into one with every
/// path written out, or behind a line break, is denied, whoever asks from whatever home.
pub proof fn homes_and_lines_hide_no_hardline(
    g: PolicyView,
    w: PolicyView,
    raw: Seq<char>,
    asker: Asker,
    policy_write: bool,
    home: Option<Seq<char>>,
    i: int,
)
    requires
        0 <= i < hardline_table().len(),
        pattern_found(hardline_table()[i].1, normalized(raw, None)) || pattern_found(
            hardline_table()[i].1,
            normalized(lines_ended(raw), None),
        ),
    ensures
        effective_of(classified(g, w, raw, asker, policy_write, home)) == Level::Deny,
{
    let texts = readings(raw, home);
    assert(texts[1] == normalized(raw, None));
    assert(texts[2] == normalized(lines_ended(raw), None));
    assert(occurs(hardline_table()[i].1, texts));
    lemma_hardline_found(texts, 0, i);
}

proof fn lemma_hardline_found(texts: Seq<Seq<char>>, k: int, i: int)
    requires
        0 <= k <= i < hardline_table().len(),
        occurs(hardline_table()[i].1, texts),
    ensures
        hardline_from(texts, k) is Some,
    decreases i - k,
{
    if k < i {
        lemma_hardline_found(texts, k + 1, i);
    }
}

/// A harness label never loosens a category.
pub proof fn harness_never_loosens(
    g: PolicyView,
    w: PolicyView,
    cat: Seq<char>,
    base: Level,
    base_ttl: Option<u64>,
    agent: Seq<char>,
    harness: Option<Seq<char>>,
)
    ensures
        rung(hit_of(g, w, cat, base, base_ttl, agent, None).level) <= rung(
            hit_of(g, w, cat, base, base_ttl, agent, harness).level,
        ),
{
}

/// Hit for hit, `b` names the same categories as `a` and is at least as strict.
spec fn tightened(a: Seq<HitView>, b: Seq<HitView>) -> bool {
    &&& a.len() == b.len()
    &&& forall|i: int|
        0 <= i < a.len() ==> (#[trigger] a[i]).category == b[i].category && rung(a[i].level)
            <= rung(b[i].level)
}

proof fn lemma_tightened_is_stricter(a: Seq<HitView>, b: Seq<HitView>)
    requires
        tightened(a, b),
    ensures
        rung(strictest(a)) <= rung(strictest(b)),
{
    if a.len() > 0 {
        strictest_wins(a);
        strictest_wins(b);
        let i = choose|i: int| 0 <= i < a.len() && (#[trigger] a[i]).level == strictest(a);
        assert(rung(b[i].level) <= rung(strictest(b)));
    }
}

proof fn lemma_builtin_hits_tighten(
    g: PolicyView,
    w: PolicyView,
    flags: Seq<bool>,
    agent: Seq<char>,
    harness: Option<Seq<char>>,
    n: int,
)
    ensures
        tightened(
            builtin_hits(g, w, flags, (Asker { agent, harness: None }), n),
            builtin_hits(g, w, flags, (Asker { agent, harness }), n),
        ),
    decreases n,
{
    if n > 0 {
        lemma_builtin_hits_tighten(g, w, flags, agent, harness, n - 1);
        let b = builtin_table()[n - 1];
        harness_never_loosens(g, w, b.id, b.default, b.ttl_default_mins, agent, harness);
    }
}

proof fn lemma_custom_hits_tighten(
    g: PolicyView,
    w: PolicyView,
    a: Seq<HitView>,
    b: Seq<HitView>,
    flags: Seq<bool>,
    agent: Seq<char>,
    harness: Option<Seq<char>>,
    n: int,
)
    requires
        tightened(a, b),
    ensures
        tightened(
            with_custom_hits(g, w, a, flags, (Asker { agent, harness: None }), n),
            with_custom_hits(g, w, b, flags, (Asker { agent, harness }), n),
        ),
    decreases n,
{
    if n > 0 {
        lemma_custom_hits_tighten(g, w, a, b, flags, agent, harness, n - 1);
        let x = with_custom_hits(g, w, a, flags, (Asker { agent, harness: None }), n - 1);
        let y = with_custom_hits(g, w, b, flags, (Asker { agent, harness }), n - 1);
        let c = custom_rules(g, w)[n - 1];
        harness_never_loosens(g, w, c.id, c.level, c.ttl, agent, harness);
        assert(is_hit(x, c.id) == is_hit(y, c.id)) by {
            if is_hit(x, c.id) {
                let i = choose|i: int| 0 <= i < x.len() && (#[trigger] x[i]).category == c.id;
                assert(y[i].category == c.id);
            }
            if is_hit(y, c.id) {
                let i = choose|i: int| 0 <= i < y.len() && (#[trigger] y[i]).category == c.id;
                assert(x[i].category == c.id);
            }
        }
    }
}

/// Claiming a harness label buys nothing: the decision on a command with a label is at least as
/// strict as the decision on the same command without one.
pub proof fn labels_only_tighten(
    g: PolicyView,
    w: PolicyView,
    raw: Seq<char>,
    agent: Seq<char>,
    harness: Option<Seq<char>>,
    policy_write: bool,
    home: Option<Seq<char>>,
)
    ensures
        rung(
            effective_of(
                classified(g, w, raw, (Asker { agent, harness: None }), policy_write, home),
            ),
        ) <= rung(
            effective_of(classified(g, w, raw, (Asker { agent, harness }), policy_write, home)),
        ),
{
    let f = found_in(g, w, readings(raw, home), policy_write);
    let plain = Asker { agent, harness: None };
    let labelled = Asker { agent, harness };
    let n = builtin_table().len() as int;
    lemma_builtin_hits_tighten(g, w, f.builtin, agent, harness, n);
    let a = builtin_hits(g, w, f.builtin, plain, n);
    let b = builtin_hits(g, w, f.builtin, labelled, n);
    let m = custom_rules(g, w).len() as int;
    lemma_custom_hits_tighten(g, w, a, b, f.custom, agent, harness, m);
    lemma_tightened_is_stricter(
        with_custom_hits(g, w, a, f.custom, plain, m),
        with_custom_hits(g, w, b, f.custom, labelled, m),
    );
}

/// A floor in the global layer holds: whatever the workspace, the agent and the harness say, the
/// category does not drop below it.
pub proof fn floors_hold(
    g: PolicyView,
    w: PolicyView,
    cat: Seq<char>,
    base: Level,
    base_ttl: Option<u64>,
    agent: Seq<char>,
    harness: Option<Seq<char>>,
)
    requires
        g.categories.contains_key(cat),
        g.categories[cat].floor,
        set_level(g, cat) is Some,
    ensures
        rung(set_level(g, cat)->0) <= rung(
            hit_of(g, w, cat, base, base_ttl, agent, harness).level,
        ),
{
}

pub(crate) proof fn lemma_builtin_hit_present(
    g: PolicyView,
    w: PolicyView,
    flags: Seq<bool>,
    asker: Asker,
    k: int,
    n: int,
)
    requires
        0 <= k < n,
        set_at(flags, k),
    ensures
        builtin_hits(g, w, flags, asker, n).contains(
            hit_of(
                g,
                w,
                builtin_table()[k].id,
                builtin_table()[k].default,
                builtin_table()[k].ttl_default_mins,
                asker.agent,
                asker.harness,
            ),
        ),
    decreases n,
{
    let b = builtin_table()[k];
    let h = hit_of(g, w, b.id, b.default, b.ttl_default_mins, asker.agent, asker.harness);
    let before = builtin_hits(g, w, flags, asker, n - 1);
    let after = builtin_hits(g, w, flags, asker, n);
    if k < n - 1 {
        lemma_builtin_hit_present(g, w, flags, asker, k, n - 1);
        let i = choose|i: int| 0 <= i < before.len() && before[i] == h;
        assert(after[i] == h);
    } else {
        assert(after[before.len() as int] == h);
    }
}

pub(crate) proof fn lemma_custom_hits_extend(
    g: PolicyView,
    w: PolicyView,
    hits: Seq<HitView>,
    flags: Seq<bool>,
    asker: Asker,
    n: int,
)
    ensures
        hits.is_prefix_of(with_custom_hits(g, w, hits, flags, asker, n)),
    decreases n,
{
    if n > 0 {
        lemma_custom_hits_extend(g, w, hits, flags, asker, n - 1);
    }
}

/// Policy protects itself: a command that targets a policy file is never let through without an
/// approval, whatever the two layers say.
pub proof fn policy_writes_need_approval(
    g: PolicyView,
    w: PolicyView,
    raw: Seq<char>,
    asker: Asker,
    home: Option<Seq<char>>,
)
    ensures
        rung(effective_of(classified(g, w, raw, asker, true, home))) >= rung(Level::Approve),
{
    let f = found_in(g, w, readings(raw, home), true);
    if f.hardline is None {
        let n = builtin_table().len() as int;
        let b = builtin_table()[6];
        assert(b.id == "policy.write"@);
        assert(set_at(f.builtin, 6));
        lemma_builtin_hit_present(g, w, f.builtin, asker, 6, n);
        let h = hit_of(g, w, b.id, b.default, b.ttl_default_mins, asker.agent, asker.harness);
        let hits = builtin_hits(g, w, f.builtin, asker, n);
        let k = choose|i: int| 0 <= i < hits.len() && hits[i] == h;
        let m = custom_rules(g, w).len() as int;
        lemma_custom_hits_extend(g, w, hits, f.custom, asker, m);
        let all = with_custom_hits(g, w, hits, f.custom, asker, m);
        assert(all[k] == h);
        strictest_wins(all);
    }
}

/// A grant is offered only on a decision that comes to exactly `Approve`, so never on a command
/// that also matches a stricter category, and it is the grant of one of the hits.
pub proof fn grants_are_offered_at_approve(d: DecisionView)
    requires
        ttl_offer_of(d) is Some,
    ensures
        effective_of(d) == Level::Approve,
        forall|i: int| 0 <= i < d.hits.len() ==> rung((#[trigger] d.hits[i]).level) <= rung(Level::Approve),
        exists|i: int|
            0 <= i < d.hits.len() && offers_ttl(#[trigger] d.hits[i]) && ttl_offer_of(d) == Some(
                (d.hits[i].category, d.hits[i].ttl_max_mins->0),
            ),
{
    broadcast use vstd::seq_lib::group_filter_ensures;

    let keep = |h: HitView| offers_ttl(h);
    let offers = d.hits.filter(keep);
    d.hits.lemma_filter_contains_rev(keep, offers[0]);
    assert(keep(offers[0]));
    let i = choose|i: int| 0 <= i < d.hits.len() && d.hits[i] == offers[0];
    assert(offers_ttl(d.hits[i]));
    strictest_wins(d.hits);
}

/// A grant stays within the ceiling that the global layer sets for the category, and within the
/// cap that the workspace sets.
pub proof fn grants_stay_capped(
    g: PolicyView,
    w: PolicyView,
    cat: Seq<char>,
    base: Level,
    base_ttl: Option<u64>,
    agent: Seq<char>,
    harness: Option<Seq<char>>,
)
    ensures
        hit_of(g, w, cat, base, base_ttl, agent, harness).ttl_max_mins matches Some(m) ==> {
            &&& set_ttl(g, cat) matches Some(c) ==> m <= c
            &&& set_ttl(w, cat) matches Some(c) ==> m <= c
        },
{
}

proof fn lemma_shipped_hits(flags: Seq<bool>, asker: Asker, n: int)
    requires
        n <= builtin_table().len(),
    ensures
        forall|i: int|
            0 <= i < builtin_hits(empty_policy(), empty_policy(), flags, asker, n).len()
                ==> (#[trigger] builtin_hits(empty_policy(), empty_policy(), flags, asker, n)[i]).level
                == Level::Approve,
    decreases n,
{
    if n > 0 {
        lemma_shipped_hits(flags, asker, n - 1);
        let b = builtin_table()[n - 1];
        assert(b.default == Level::Approve);
    }
}

/// Where no policy is written, nothing passes unasked: every command needs an approval or is
/// denied by a hardline.
pub proof fn unwritten_policy_asks(
    raw: Seq<char>,
    asker: Asker,
    policy_write: bool,
    home: Option<Seq<char>>,
)
    ensures
        effective_of(classified(empty_policy(), empty_policy(), raw, asker, policy_write, home))
            == if hardline_from(readings(raw, home), 0) is Some {
            Level::Deny
        } else {
            Level::Approve
        },
{
    let e = empty_policy();
    let f = found_in(e, e, readings(raw, home), policy_write);
    if f.hardline is None {
        let n = builtin_table().len() as int;
        lemma_shipped_hits(f.builtin, asker, n);
        let hits = builtin_hits(e, e, f.builtin, asker, n);
        assert(custom_rules(e, e).len() == 0);
        assert(with_custom_hits(e, e, hits, f.custom, asker, 0) == hits);
        if hits.len() > 0 {
            strictest_wins(hits);
        }
    }
}

/// The categories of the hits are pairwise different.
pub open spec fn hit_once(hits: Seq<HitView>) -> bool {
    forall|i: int, j: int|
        0 <= i < j < hits.len() ==> (#[trigger] hits[i]).category != (#[trigger] hits[j]).category
}

proof fn lemma_builtin_ids_differ(i: int, j: int)
    requires
        0 <= i < j < builtin_table().len(),
    ensures
        builtin_table()[i].id != builtin_table()[j].id,
{
    reveal_strlit("fs.recursive-delete");
    reveal_strlit("sudo.exec");
    reveal_strlit("svc.restart");
    reveal_strlit("pkg.install");
    reveal_strlit("db.drop");
    reveal_strlit("net.pipe-to-shell");
    reveal_strlit("policy.write");
    assert("svc.restart"@[0] != "pkg.install"@[0]);
    assert("fs.recursive-delete"@.len() == 19 && "sudo.exec"@.len() == 9 && "svc.restart"@.len()
        == 11 && "pkg.install"@.len() == 11 && "db.drop"@.len() == 7 && "net.pipe-to-shell"@.len()
        == 17 && "policy.write"@.len() == 12);
}

proof fn lemma_builtin_hits_once(
    g: PolicyView,
    w: PolicyView,
    flags: Seq<bool>,
    asker: Asker,
    n: int,
)
    requires
        n <= builtin_table().len(),
    ensures
        hit_once(builtin_hits(g, w, flags, asker, n)),
        forall|i: int|
            0 <= i < builtin_hits(g, w, flags, asker, n).len() ==> exists|k: int|
                0 <= k < n && #[trigger] builtin_table()[k].id == (#[trigger] builtin_hits(
                    g,
                    w,
                    flags,
                    asker,
                    n,
                )[i]).category,
    decreases n,
{
    if n > 0 {
        lemma_builtin_hits_once(g, w, flags, asker, n - 1);
        let before = builtin_hits(g, w, flags, asker, n - 1);
        let after = builtin_hits(g, w, flags, asker, n);
        assert forall|i: int| 0 <= i < before.len() implies (#[trigger] before[i]).category
            != builtin_table()[n - 1].id by {
            let k = choose|k: int|
                0 <= k < n - 1 && #[trigger] builtin_table()[k].id == before[i].category;
            lemma_builtin_ids_differ(k, n - 1);
        }
        assert forall|i: int| 0 <= i < after.len() implies exists|k: int|
            0 <= k < n && #[trigger] builtin_table()[k].id == (#[trigger] after[i]).category by {
            if i < before.len() {
                assert(after[i] == before[i]);
                let k = choose|k: int|
                    0 <= k < n - 1 && #[trigger] builtin_table()[k].id == before[i].category;
                assert(builtin_table()[k].id == after[i].category);
            } else {
                assert(builtin_table()[n - 1].id == after[i].category);
            }
        }
    }
}

proof fn lemma_custom_hits_once(
    g: PolicyView,
    w: PolicyView,
    hits: Seq<HitView>,
    flags: Seq<bool>,
    asker: Asker,
    n: int,
)
    requires
        hit_once(hits),
    ensures
        hit_once(with_custom_hits(g, w, hits, flags, asker, n)),
    decreases n,
{
    if n > 0 {
        lemma_custom_hits_once(g, w, hits, flags, asker, n - 1);
    }
}

/// A decision lists each matched category once.
pub proof fn categories_are_hit_once(
    g: PolicyView,
    w: PolicyView,
    norm: Seq<char>,
    f: FindingsView,
    asker: Asker,
)
    ensures
        hit_once(decided(g, w, norm, f, asker).hits),
{
    let n = builtin_table().len() as int;
    lemma_builtin_hits_once(g, w, f.builtin, asker, n);
    lemma_custom_hits_once(
        g,
        w,
        builtin_hits(g, w, f.builtin, asker, n),
        f.custom,
        asker,
        custom_rules(g, w).len() as int,
    );
}

} // verus!
