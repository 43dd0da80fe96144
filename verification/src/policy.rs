//! Decisions and policy files: what a layer of policy may say, and what a set of matches comes to.

use crate::level::{stricter, Level};
use crate::table::StrMap;
use vstd::prelude::*;

verus! {

/// A matched category and the level it resolved to after layering.
#[derive(Debug, Clone, PartialEq, Eq)]
pub struct Hit {
    pub category: String,
    pub level: Level,
    pub source: String,
    pub ttl_max_mins: Option<u64>,
}

pub struct HitView {
    pub category: Seq<char>,
    pub level: Level,
    pub source: Seq<char>,
    pub ttl_max_mins: Option<u64>,
}

impl DeepView for Hit {
    type V = HitView;

    open spec fn deep_view(&self) -> HitView {
        HitView {
            category: self.category@,
            level: self.level,
            source: self.source@,
            ttl_max_mins: self.ttl_max_mins,
        }
    }
}

/// What the classifier found of a command.
#[derive(Debug, Clone, PartialEq, Eq)]
pub struct Decision {
    pub normalized: String,
    pub hits: Vec<Hit>,
    pub hardline: Option<String>,
}

pub struct DecisionView {
    pub normalized: Seq<char>,
    pub hits: Seq<HitView>,
    pub hardline: Option<Seq<char>>,
}

impl DeepView for Decision {
    type V = DecisionView;

    open spec fn deep_view(&self) -> DecisionView {
        DecisionView {
            normalized: self.normalized@,
            hits: self.hits.deep_view(),
            hardline: self.hardline.deep_view(),
        }
    }
}

/// The strictest level of the hits; `Approve` where there are none.
pub open spec fn strictest(hits: Seq<HitView>) -> Level
    decreases hits.len(),
{
    if hits.len() == 0 {
        Level::Approve
    } else if hits.len() == 1 {
        hits[0].level
    } else {
        stricter(strictest(hits.drop_last()), hits.last().level)
    }
}

/// The level that a decision comes to: a hardline forces `Deny`, else the strictest hit wins.
pub open spec fn effective_of(d: DecisionView) -> Level {
    if d.hardline is Some {
        Level::Deny
    } else {
        strictest(d.hits)
    }
}

/// A hit at `Approve` whose category permits a grant for a while.
pub open spec fn offers_ttl(h: HitView) -> bool {
    h.level == Level::Approve && h.ttl_max_mins is Some
}

/// The grant that may be offered: only at exactly `Approve`, and only where precisely one matched
/// category permits one.
pub open spec fn ttl_offer_of(d: DecisionView) -> Option<(Seq<char>, u64)> {
    let offers = d.hits.filter(|h: HitView| offers_ttl(h));
    if effective_of(d) == Level::Approve && offers.len() == 1 {
        Some((offers[0].category, offers[0].ttl_max_mins->0))
    } else {
        None
    }
}

/// The matched categories, in the order of the hits.
pub open spec fn categories_of(d: DecisionView) -> Seq<Seq<char>> {
    d.hits.map_values(|h: HitView| h.category)
}

impl Decision {
    /// Strictest wins across all hits; a hardline forces `Deny`.
    pub fn effective(&self) -> (r: Level)
        ensures
            r == effective_of(self.deep_view()),
    {
        if self.hardline.is_some() {
            return Level::Deny;
        }
        let ghost all = self.hits.deep_view();
        if self.hits.len() == 0 {
            return Level::Approve;
        }
        let mut top: Level = self.hits[0].level;
        let mut i: usize = 1;
        assert(all.take(1).len() == 1 && all.take(1)[0] == all[0]);
        while i < self.hits.len()
            invariant
                1 <= i <= self.hits.len(),
                all == self.hits.deep_view(),
                top == strictest(all.take(i as int)),
            decreases self.hits.len() - i,
        {
            assert(all.take(i + 1).drop_last() == all.take(i as int));
            assert(all.take(i + 1).last() == self.hits@[i as int].deep_view());
            let l: Level = self.hits[i].level;
            if top.rank() < l.rank() {
                top = l;
            }
            i = i + 1;
        }
        assert(all.take(all.len() as int) == all);
        top
    }

    /// The single grant that may be offered: category and minutes.
    pub fn ttl_offer(&self) -> (r: Option<(String, u64)>)
        ensures
            r.deep_view() == ttl_offer_of(self.deep_view()),
    {
        if self.effective() != Level::Approve {
            return None;
        }
        let ghost all = self.hits.deep_view();
        let ghost keep = |h: HitView| offers_ttl(h);
        let mut first: Option<usize> = None;
        let mut i: usize = 0;
        assert(all.take(0).filter(keep) == Seq::<HitView>::empty()) by {
            reveal(Seq::filter);
        }
        while i < self.hits.len()
            invariant
                i <= self.hits.len(),
                all == self.hits.deep_view(),
                keep == (|h: HitView| offers_ttl(h)),
                effective_of(self.deep_view()) == Level::Approve,
                match first {
                    None => all.take(i as int).filter(keep).len() == 0,
                    Some(k) => {
                        &&& k < i
                        &&& offers_ttl(all[k as int])
                        &&& all.take(i as int).filter(keep) == seq![all[k as int]]
                    },
                },
            decreases self.hits.len() - i,
        {
            assert(all.take(i + 1).drop_last() == all.take(i as int));
            assert(all.take(i + 1).last() == all[i as int]);
            assert(all[i as int] == self.hits@[i as int].deep_view());
            let ghost had = all.take(i as int).filter(keep);
            assert(all.take(i + 1).filter(keep) == if keep(all[i as int]) {
                had.push(all[i as int])
            } else {
                had
            }) by {
                reveal(Seq::filter);
            }
            if self.hits[i].level == Level::Approve && self.hits[i].ttl_max_mins.is_some() {
                if first.is_some() {
                    proof {
                        lemma_filter_grows(all, keep, i + 1);
                    }
                    return None;
                }
                first = Some(i);
                assert(had.push(all[i as int]) == seq![all[i as int]]);
            }
            i = i + 1;
        }
        assert(all.take(all.len() as int) == all);
        match first {
            None => None,
            Some(k) => match self.hits[k].ttl_max_mins {
                Some(m) => {
                    assert(all[k as int] == self.hits@[k as int].deep_view());
                    Some((self.hits[k].category.clone(), m))
                },
                None => None,
            },
        }
    }

    /// The matched categories.
    pub fn categories(&self) -> (r: Vec<String>)
        ensures
            r.deep_view() == categories_of(self.deep_view()),
    {
        let mut out: Vec<String> = Vec::new();
        let mut i: usize = 0;
        while i < self.hits.len()
            invariant
                i <= self.hits.len(),
                out.len() == i,
                forall|j: int| 0 <= j < i ==> #[trigger] out@[j]@ == self.hits@[j].category@,
            decreases self.hits.len() - i,
        {
            out.push(self.hits[i].category.clone());
            i = i + 1;
        }
        assert(out.deep_view() == categories_of(self.deep_view()));
        out
    }
}

proof fn lemma_filter_grows(s: Seq<HitView>, keep: spec_fn(HitView) -> bool, k: int)
    requires
        0 <= k <= s.len(),
    ensures
        s.take(k).filter(keep).len() <= s.filter(keep).len(),
    decreases s.len() - k,
{
    if k == s.len() {
        assert(s.take(k) == s);
    } else {
        lemma_filter_grows(s, keep, k + 1);
        assert(s.take(k + 1).drop_last() == s.take(k));
        reveal(Seq::filter);
    }
}

/// What a policy file says of one category.
#[derive(Debug, Clone, PartialEq, Eq)]
pub struct CatEntry {
    pub level: Option<String>,
    pub ttl_max: Option<String>,
    /// In the global file: no other layer may go below this entry's level.
    pub floor: bool,
    /// Patterns that match a command into this category.
    pub match_rules: Vec<String>,
}

pub struct CatEntryView {
    pub level: Option<Seq<char>>,
    pub ttl_max: Option<Seq<char>>,
    pub floor: bool,
    pub match_rules: Seq<Seq<char>>,
}

impl DeepView for CatEntry {
    type V = CatEntryView;

    open spec fn deep_view(&self) -> CatEntryView {
        CatEntryView {
            level: self.level.deep_view(),
            ttl_max: self.ttl_max.deep_view(),
            floor: self.floor,
            match_rules: self.match_rules.deep_view(),
        }
    }
}

/// One layer of policy.
pub struct PolicyFile {
    /// The level of commands that nothing matches.
    pub default: Option<String>,
    pub timeout: Option<String>,
    pub deny_cooldown: Option<String>,
    pub categories: StrMap<CatEntry>,
    /// Per Unix user: levels by category, looser or stricter.
    pub agents: StrMap<StrMap<String>>,
    /// Per harness label: levels by category, which only ever tighten.
    pub harness: StrMap<StrMap<String>>,
}

pub struct PolicyView {
    pub default: Option<Seq<char>>,
    pub timeout: Option<Seq<char>>,
    pub deny_cooldown: Option<Seq<char>>,
    pub categories: Map<Seq<char>, CatEntryView>,
    /// The category ids in ascending order.
    pub order: Seq<Seq<char>>,
    pub agents: Map<Seq<char>, Map<Seq<char>, Seq<char>>>,
    pub harness: Map<Seq<char>, Map<Seq<char>, Seq<char>>>,
}

/// The contents of a table of tables of text.
pub open spec fn nested(t: StrMap<StrMap<String>>) -> Map<Seq<char>, Map<Seq<char>, Seq<char>>> {
    t@.map_values(|inner: StrMap<String>| inner@.map_values(|s: String| s@))
}

impl DeepView for PolicyFile {
    type V = PolicyView;

    open spec fn deep_view(&self) -> PolicyView {
        PolicyView {
            default: self.default.deep_view(),
            timeout: self.timeout.deep_view(),
            deny_cooldown: self.deny_cooldown.deep_view(),
            categories: self.categories@.map_values(|e: CatEntry| e.deep_view()),
            order: self.categories.keys(),
            agents: nested(self.agents),
            harness: nested(self.harness),
        }
    }
}

/// The layer that says nothing.
pub open spec fn empty_policy() -> PolicyView {
    PolicyView {
        default: None,
        timeout: None,
        deny_cooldown: None,
        categories: Map::empty(),
        order: Seq::empty(),
        agents: Map::empty(),
        harness: Map::empty(),
    }
}

impl PolicyFile {
    /// The layer that says nothing.
    pub fn new() -> (r: PolicyFile)
        ensures
            r.deep_view() == empty_policy(),
    {
        let r = PolicyFile {
            default: None,
            timeout: None,
            deny_cooldown: None,
            categories: StrMap::new(),
            agents: StrMap::new(),
            harness: StrMap::new(),
        };
        assert(r.deep_view().categories =~= empty_policy().categories);
        assert(r.deep_view().agents =~= empty_policy().agents);
        assert(r.deep_view().harness =~= empty_policy().harness);
        r
    }
}

impl Default for PolicyFile {
    fn default() -> (r: PolicyFile)
        ensures
            r.deep_view() == empty_policy(),
    {
        PolicyFile::new()
    }
}

} // verus!
