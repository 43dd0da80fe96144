//! What a policy means, over the tables that its files hold: which layer a level comes from, how long
//! a grant may be, and which commands a category catches.

use crate::engine::hit_of;
use crate::level::{minutes_of, rung, Level};
use crate::policy::{effective_of, ttl_offer_of, DecisionView, HitView, PolicyView};
use crate::policy_laws::strictest_wins;
use vstd::prelude::*;

verus! {

/// Whether a word in a policy file stands for a level.
pub open spec fn stands_for(word: Seq<char>, l: Level) -> bool {
    match l {
        Level::Allow => word == "allow"@,
        Level::Notify => word == "notify"@,
        Level::Approve => word == "approve"@,
        Level::Deny => word == "deny"@,
    }
}

/// Whether a word in a policy file stands for no level.
pub open spec fn means_nothing(word: Seq<char>) -> bool {
    word != "allow"@ && word != "notify"@ && word != "approve"@ && word != "deny"@
}

/// Whether level `a` lets through no more than level `b`: to refuse is stricter than to ask, to ask
/// stricter than to tell, and to tell stricter than to let pass.
pub open spec fn as_strict_as(a: Level, b: Level) -> bool {
    match b {
        Level::Allow => true,
        Level::Notify => a != Level::Allow,
        Level::Approve => a == Level::Approve || a == Level::Deny,
        Level::Deny => a == Level::Deny,
    }
}

/// Whether a file writes a level for a category.
pub open spec fn writes_level(p: PolicyView, cat: Seq<char>, l: Level) -> bool {
    p.categories.contains_key(cat) && (p.categories[cat].level matches Some(word) && stands_for(
        word,
        l,
    ))
}

/// Whether a file writes no level for a category, or none that is one.
pub open spec fn writes_no_level(p: PolicyView, cat: Seq<char>) -> bool {
    p.categories.contains_key(cat) ==> (p.categories[cat].level matches Some(word) ==> means_nothing(
        word,
    ))
}

/// Whether an override table writes a level for a category.
pub open spec fn overrides(
    tables: Map<Seq<char>, Map<Seq<char>, Seq<char>>>,
    who: Seq<char>,
    cat: Seq<char>,
    l: Level,
) -> bool {
    tables.contains_key(who) && tables[who].contains_key(cat) && stands_for(tables[who][cat], l)
}

/// Whether an override table writes no level for a category, or none that is one.
pub open spec fn overrides_nothing(
    tables: Map<Seq<char>, Map<Seq<char>, Seq<char>>>,
    who: Seq<char>,
    cat: Seq<char>,
) -> bool {
    tables.contains_key(who) && tables[who].contains_key(cat) ==> means_nothing(tables[who][cat])
}

/// Whether the global file flags a category as a floor, at a level.
pub open spec fn is_floor(g: PolicyView, cat: Seq<char>, l: Level) -> bool {
    writes_level(g, cat, l) && g.categories[cat].floor
}

/// Whether a category has no floor.
pub open spec fn has_no_floor(g: PolicyView, cat: Seq<char>) -> bool {
    &&& cat != "policy.write"@
    &&& g.categories.contains_key(cat) && g.categories[cat].floor ==> writes_no_level(g, cat)
}

/// Whether no harness label counts for a category.
pub open spec fn no_label_counts(w: PolicyView, harness: Option<Seq<char>>, cat: Seq<char>) -> bool {
    harness matches Some(h) ==> overrides_nothing(w.harness, h, cat)
}

/// Whether a level is the strictest of what a category's own layer, the harness label and the floor
/// say: as strict as each of them, and one of them.
pub open spec fn is_strictest_of(
    level: Level,
    own: Level,
    g: PolicyView,
    w: PolicyView,
    harness: Option<Seq<char>>,
    cat: Seq<char>,
) -> bool {
    &&& as_strict_as(level, own)
    &&& harness matches Some(h) ==> forall|l: Level| #[trigger]
        overrides(w.harness, h, cat, l) ==> as_strict_as(level, l)
    &&& forall|l: Level| #[trigger] is_floor(g, cat, l) ==> as_strict_as(level, l)
    &&& cat == "policy.write"@ ==> as_strict_as(level, Level::Approve)
    &&& {
        ||| level == own
        ||| harness is Some && overrides(w.harness, harness->0, cat, level)
        ||| is_floor(g, cat, level)
        ||| cat == "policy.write"@ && level == Level::Approve
    }
}

pub(crate) proof fn lemma_words(word: Seq<char>)
    ensures
        forall|l: Level| #[trigger]
            stands_for(word, l) <==> crate::level::level_named(word) == Some(l),
        means_nothing(word) <==> crate::level::level_named(word) is None,
        forall|a: Level, b: Level| #[trigger] as_strict_as(a, b) <==> rung(a) >= rung(b),
{
    reveal_strlit("allow");
    reveal_strlit("notify");
    reveal_strlit("approve");
    reveal_strlit("deny");
    assert("allow"@.len() == 5 && "notify"@.len() == 6 && "approve"@.len() == 7 && "deny"@.len()
        == 4);
}

proof fn lemma_layers(
    g: PolicyView,
    w: PolicyView,
    cat: Seq<char>,
    agent: Seq<char>,
    harness: Option<Seq<char>>,
)
    ensures
        forall|l: Level| #[trigger]
            writes_level(g, cat, l) <==> crate::engine::set_level(g, cat) == Some(l),
        forall|l: Level| #[trigger]
            writes_level(w, cat, l) <==> crate::engine::set_level(w, cat) == Some(l),
        writes_no_level(g, cat) <==> crate::engine::set_level(g, cat) is None,
        writes_no_level(w, cat) <==> crate::engine::set_level(w, cat) is None,
        forall|l: Level| #[trigger]
            overrides(w.agents, agent, cat, l) <==> crate::engine::override_level(
                w.agents,
                agent,
                cat,
            ) == Some(l),
        overrides_nothing(w.agents, agent, cat) <==> crate::engine::override_level(
            w.agents,
            agent,
            cat,
        ) is None,
        harness matches Some(h) ==> {
            &&& forall|l: Level| #[trigger]
                overrides(w.harness, h, cat, l) <==> crate::engine::override_level(
                    w.harness,
                    h,
                    cat,
                ) == Some(l)
            &&& overrides_nothing(w.harness, h, cat) <==> crate::engine::override_level(
                w.harness,
                h,
                cat,
            ) is None
        },
        forall|a: Level, b: Level| #[trigger] as_strict_as(a, b) <==> rung(a) >= rung(b),
{
    lemma_words(w.agents[agent][cat]);
    lemma_words(g.categories[cat].level->0);
    lemma_words(w.categories[cat].level->0);
    if let Some(h) = harness {
        lemma_words(w.harness[h][cat]);
    }
}

/// An agent's override counts, whether it loosens or tightens: without a harness label and a floor it
/// is the level, whatever the files and the shipped default say, and with them the level is the
/// strictest of the three.
pub proof fn agent_overrides_count(
    g: PolicyView,
    w: PolicyView,
    cat: Seq<char>,
    base: Level,
    base_ttl: Option<u64>,
    agent: Seq<char>,
    harness: Option<Seq<char>>,
    own: Level,
)
    requires
        overrides(w.agents, agent, cat, own),
    ensures
        is_strictest_of(
            hit_of(g, w, cat, base, base_ttl, agent, harness).level,
            own,
            g,
            w,
            harness,
            cat,
        ),
        no_label_counts(w, harness, cat) && has_no_floor(g, cat) ==> {
            let h = hit_of(g, w, cat, base, base_ttl, agent, harness);
            &&& h.level == own
            &&& h.source == "agents."@ + agent
        },
{
    lemma_layers(g, w, cat, agent, harness);
}

/// Without an agent's override the workspace's file counts, whether it loosens or tightens.
pub proof fn workspace_files_count(
    g: PolicyView,
    w: PolicyView,
    cat: Seq<char>,
    base: Level,
    base_ttl: Option<u64>,
    agent: Seq<char>,
    harness: Option<Seq<char>>,
    own: Level,
)
    requires
        overrides_nothing(w.agents, agent, cat),
        writes_level(w, cat, own),
    ensures
        is_strictest_of(
            hit_of(g, w, cat, base, base_ttl, agent, harness).level,
            own,
            g,
            w,
            harness,
            cat,
        ),
        no_label_counts(w, harness, cat) && has_no_floor(g, cat) ==> {
            let h = hit_of(g, w, cat, base, base_ttl, agent, harness);
            &&& h.level == own
            &&& h.source == "workspace"@
        },
{
    lemma_layers(g, w, cat, agent, harness);
}

/// Where neither the agent's table nor the workspace's file says anything, the global file counts.
pub proof fn global_files_count(
    g: PolicyView,
    w: PolicyView,
    cat: Seq<char>,
    base: Level,
    base_ttl: Option<u64>,
    agent: Seq<char>,
    harness: Option<Seq<char>>,
    own: Level,
)
    requires
        overrides_nothing(w.agents, agent, cat),
        writes_no_level(w, cat),
        writes_level(g, cat, own),
    ensures
        is_strictest_of(
            hit_of(g, w, cat, base, base_ttl, agent, harness).level,
            own,
            g,
            w,
            harness,
            cat,
        ),
        no_label_counts(w, harness, cat) && has_no_floor(g, cat) ==> {
            let h = hit_of(g, w, cat, base, base_ttl, agent, harness);
            &&& h.level == own
            &&& h.source == "global"@
        },
{
    lemma_layers(g, w, cat, agent, harness);
}

/// Where no layer says anything, the shipped default counts.
pub proof fn shipped_defaults_count(
    g: PolicyView,
    w: PolicyView,
    cat: Seq<char>,
    base: Level,
    base_ttl: Option<u64>,
    agent: Seq<char>,
    harness: Option<Seq<char>>,
)
    requires
        overrides_nothing(w.agents, agent, cat),
        writes_no_level(w, cat),
        writes_no_level(g, cat),
    ensures
        is_strictest_of(
            hit_of(g, w, cat, base, base_ttl, agent, harness).level,
            base,
            g,
            w,
            harness,
            cat,
        ),
        no_label_counts(w, harness, cat) && has_no_floor(g, cat) ==> {
            let h = hit_of(g, w, cat, base, base_ttl, agent, harness);
            &&& h.level == base
            &&& h.source == "builtin-default"@
        },
{
    lemma_layers(g, w, cat, agent, harness);
}

/// A harness label that tightens is named as the source, and a floor that clamps is noted behind the
/// source of what it clamps.
pub proof fn sources_name_the_layer(
    g: PolicyView,
    w: PolicyView,
    cat: Seq<char>,
    base: Level,
    base_ttl: Option<u64>,
    agent: Seq<char>,
    harness: Option<Seq<char>>,
)
    ensures
        ({
            let plain = hit_of(g, w, cat, base, base_ttl, agent, None);
            let labelled = hit_of(g, w, cat, base, base_ttl, agent, harness);
            &&& plain.category == cat && labelled.category == cat
            &&& has_no_floor(g, cat) && labelled.level != plain.level ==> harness is Some
                && labelled.source == "harness."@ + harness->0
            &&& has_no_floor(g, cat) && labelled.level == plain.level ==> labelled.source
                == plain.source
        }),
        forall|own: Level|
            #![trigger overrides(w.agents, agent, cat, own)]
            overrides(w.agents, agent, cat, own) && no_label_counts(w, harness, cat) && hit_of(
                g,
                w,
                cat,
                base,
                base_ttl,
                agent,
                harness,
            ).level != own ==> hit_of(g, w, cat, base, base_ttl, agent, harness).source
                == "agents."@ + agent + " (floor-clamped)"@,
{
    lemma_layers(g, w, cat, agent, harness);
    lemma_layers(g, w, cat, agent, None);
}

/// Whether a file permits grants of so many minutes for a category.
pub open spec fn permits(p: PolicyView, cat: Seq<char>, mins: u64) -> bool {
    p.categories.contains_key(cat) && minutes_of(p.categories[cat].ttl_max) == Some(mins as nat)
}

/// Whether a file says nothing on grants for a category.
pub open spec fn permits_nothing(p: PolicyView, cat: Seq<char>) -> bool {
    p.categories.contains_key(cat) ==> minutes_of(p.categories[cat].ttl_max) is None
}

/// A grant is as long as the files write: the shorter of the two where both do, the written one where
/// one does, and the shipped one where neither does. There is none but at `Approve`.
pub proof fn grants_are_as_written(
    g: PolicyView,
    w: PolicyView,
    cat: Seq<char>,
    base: Level,
    base_ttl: Option<u64>,
    agent: Seq<char>,
    harness: Option<Seq<char>>,
    there: u64,
    here: u64,
)
    ensures
        ({
            let h = hit_of(g, w, cat, base, base_ttl, agent, harness);
            &&& h.level != Level::Approve ==> h.ttl_max_mins is None
            &&& h.level == Level::Approve ==> {
                &&& permits(g, cat, there) && permits(w, cat, here) ==> h.ttl_max_mins == Some(
                    if here <= there {
                        here
                    } else {
                        there
                    },
                )
                &&& permits(g, cat, there) && permits_nothing(w, cat) ==> h.ttl_max_mins == Some(
                    there,
                )
                &&& permits_nothing(g, cat) && permits(w, cat, here) ==> h.ttl_max_mins == Some(here)
                &&& permits_nothing(g, cat) && permits_nothing(w, cat) ==> h.ttl_max_mins
                    == base_ttl
            }
        }),
{
}

/// A decision comes to the strictest of its hits, and to a refusal where it runs into a hardline.
pub proof fn the_strictest_hit_counts(d: DecisionView)
    ensures
        d.hardline is Some ==> effective_of(d) == Level::Deny,
        d.hardline is None ==> {
            &&& d.hits.len() == 0 ==> effective_of(d) == Level::Approve
            &&& forall|i: int|
                0 <= i < d.hits.len() ==> as_strict_as(effective_of(d), (#[trigger] d.hits[i]).level)
            &&& d.hits.len() > 0 ==> exists|i: int|
                0 <= i < d.hits.len() && (#[trigger] d.hits[i]).level == effective_of(d)
        },
{
    lemma_words(Seq::empty());
    if d.hits.len() > 0 {
        strictest_wins(d.hits);
    }
}

/// A grant is offered where exactly one of the hits permits one and the decision comes to `Approve`.
pub proof fn lone_grants_are_offered(d: DecisionView, i: int)
    requires
        d.hardline is None,
        0 <= i < d.hits.len(),
        d.hits[i].level == Level::Approve,
        d.hits[i].ttl_max_mins is Some,
        forall|j: int|
            0 <= j < d.hits.len() ==> as_strict_as(Level::Approve, (#[trigger] d.hits[j]).level),
        forall|j: int|
            0 <= j < d.hits.len() && j != i ==> (#[trigger] d.hits[j]).level != Level::Approve
                || d.hits[j].ttl_max_mins is None,
    ensures
        ttl_offer_of(d) == Some((d.hits[i].category, d.hits[i].ttl_max_mins->0)),
{
    the_strictest_hit_counts(d);
    let k = choose|k: int| 0 <= k < d.hits.len() && (#[trigger] d.hits[k]).level == effective_of(d);
    assert(as_strict_as(effective_of(d), d.hits[i].level));
    assert(as_strict_as(Level::Approve, d.hits[k].level));
    assert(effective_of(d) == Level::Approve);
    lemma_lone_filter(d.hits, i);
}

proof fn lemma_lone_filter(hits: Seq<HitView>, i: int)
    requires
        0 <= i < hits.len(),
        crate::policy::offers_ttl(hits[i]),
        forall|j: int|
            0 <= j < hits.len() && j != i ==> !crate::policy::offers_ttl(#[trigger] hits[j]),
    ensures
        hits.filter(|h: HitView| crate::policy::offers_ttl(h)) == seq![hits[i]],
    decreases hits.len(),
{
    reveal(Seq::filter);
    let keep = |h: HitView| crate::policy::offers_ttl(h);
    let rest = hits.drop_last();
    if i < rest.len() {
        lemma_lone_filter(rest, i);
        assert(!keep(hits.last()));
    } else {
        lemma_none_filter(rest);
        assert(keep(hits.last()));
    }
    assert(hits.filter(keep) =~= seq![hits[i]]);
}

proof fn lemma_none_filter(hits: Seq<HitView>)
    requires
        forall|j: int| 0 <= j < hits.len() ==> !crate::policy::offers_ttl(#[trigger] hits[j]),
    ensures
        hits.filter(|h: HitView| crate::policy::offers_ttl(h)) == Seq::<HitView>::empty(),
    decreases hits.len(),
{
    reveal(Seq::filter);
    if hits.len() > 0 {
        lemma_none_filter(hits.drop_last());
        let keep = |h: HitView| crate::policy::offers_ttl(h);
        assert(!keep(hits.last()));
    }
    assert(hits.filter(|h: HitView| crate::policy::offers_ttl(h)) =~= Seq::<HitView>::empty());
}

/// Where two of the hits permit a grant, none is offered: it would not be clear which it covers.
pub proof fn two_grants_are_not_offered(d: DecisionView, i: int, j: int)
    requires
        0 <= i < j < d.hits.len(),
        d.hits[i].level == Level::Approve && d.hits[i].ttl_max_mins is Some,
        d.hits[j].level == Level::Approve && d.hits[j].ttl_max_mins is Some,
    ensures
        ttl_offer_of(d) is None,
{
    lemma_two_filter(d.hits, i, j);
}

proof fn lemma_two_filter(hits: Seq<HitView>, i: int, j: int)
    requires
        0 <= i < j < hits.len(),
        crate::policy::offers_ttl(hits[i]),
        crate::policy::offers_ttl(hits[j]),
    ensures
        hits.filter(|h: HitView| crate::policy::offers_ttl(h)).len() >= 2,
    decreases hits.len(),
{
    reveal(Seq::filter);
    let keep = |h: HitView| crate::policy::offers_ttl(h);
    let rest = hits.drop_last();
    if j < rest.len() {
        lemma_two_filter(rest, i, j);
    } else {
        assert(keep(hits.last()));
        broadcast use vstd::seq_lib::group_filter_ensures;

        assert(keep(rest[i]));
        assert(rest.filter(keep).contains(rest[i]));
    }
}

} // verus!
