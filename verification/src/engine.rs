//! The policy engine: built-in categories, custom rules, layering, and the compiled-in floor.

use crate::level;
use crate::level::{count, countable, level_named, level_of, minutes_of, rung, seconds_of, Level};
use crate::normalize;
use crate::normalize::{normalized, readings};
use crate::patterns;
use crate::patterns::{pattern_compiles, pattern_found, shipped};
use crate::policy::{
    nested, CatEntry, CatEntryView, Decision, DecisionView, Hit, HitView, PolicyFile, PolicyView,
};
use crate::table::StrMap;
use crate::text;
use vstd::prelude::*;

verus! {

/// How a built-in category recognizes a command.
#[derive(Debug, Clone, Copy, PartialEq, Eq)]
pub enum Matcher {
    /// By a pattern over the normalized command.
    Pattern(&'static str),
    /// By the sudo wrapper at a command position.
    Sudo,
    /// By what the command targets: a protected policy file.
    PolicyWrite,
}

/// A category that ships with the library.
#[derive(Debug, Clone, Copy, PartialEq, Eq)]
pub struct BuiltinCat {
    pub id: &'static str,
    pub default: Level,
    pub matcher: Matcher,
    pub ttl_default_mins: Option<u64>,
}

pub enum MatcherView {
    Pattern(Seq<char>),
    Sudo,
    PolicyWrite,
}

pub struct BuiltinCatView {
    pub id: Seq<char>,
    pub default: Level,
    pub matcher: MatcherView,
    pub ttl_default_mins: Option<u64>,
}

impl DeepView for BuiltinCat {
    type V = BuiltinCatView;

    open spec fn deep_view(&self) -> BuiltinCatView {
        BuiltinCatView {
            id: self.id@,
            default: self.default,
            matcher: match self.matcher {
                Matcher::Pattern(p) => MatcherView::Pattern(p@),
                Matcher::Sudo => MatcherView::Sudo,
                Matcher::PolicyWrite => MatcherView::PolicyWrite,
            },
            ttl_default_mins: self.ttl_default_mins,
        }
    }
}

/// The shipped taxonomy.
pub open spec fn builtin_table() -> Seq<BuiltinCatView> {
    seq![
        BuiltinCatView {
            id: "fs.recursive-delete"@,
            default: Level::Approve,
            matcher: MatcherView::Pattern(patterns::RECURSIVE_DELETE@),
            ttl_default_mins: Some(15u64),
        },
        BuiltinCatView {
            id: "sudo.exec"@,
            default: Level::Approve,
            matcher: MatcherView::Sudo,
            ttl_default_mins: Some(15u64),
        },
        BuiltinCatView {
            id: "svc.restart"@,
            default: Level::Approve,
            matcher: MatcherView::Pattern(patterns::SERVICE_RESTART@),
            ttl_default_mins: Some(30u64),
        },
        BuiltinCatView {
            id: "pkg.install"@,
            default: Level::Approve,
            matcher: MatcherView::Pattern(patterns::PACKAGE_INSTALL@),
            ttl_default_mins: Some(30u64),
        },
        BuiltinCatView {
            id: "db.drop"@,
            default: Level::Approve,
            matcher: MatcherView::Pattern(patterns::DATABASE_DROP@),
            ttl_default_mins: None,
        },
        BuiltinCatView {
            id: "net.pipe-to-shell"@,
            default: Level::Approve,
            matcher: MatcherView::Pattern(patterns::PIPE_TO_SHELL@),
            ttl_default_mins: None,
        },
        BuiltinCatView {
            id: "policy.write"@,
            default: Level::Approve,
            matcher: MatcherView::PolicyWrite,
            ttl_default_mins: None,
        },
    ]
}

/// The compiled-in floor: operations with no way back, by id and pattern.
pub open spec fn hardline_table() -> Seq<(Seq<char>, Seq<char>)> {
    seq![
        ("hardline.rm-rf-root"@, patterns::RM_RF_ROOT@),
        ("hardline.mkfs"@, patterns::MKFS@),
        ("hardline.dd-to-disk"@, patterns::DD_TO_DISK@),
        ("hardline.forkbomb"@, patterns::FORKBOMB@),
        ("hardline.shutdown"@, patterns::SHUTDOWN@),
    ]
}

/// The shipped taxonomy.
pub fn builtins() -> (r: Vec<BuiltinCat>)
    ensures
        r.deep_view() == builtin_table(),
        forall|i: int|
            0 <= i < r.len() ==> ((#[trigger] r[i]).matcher matches Matcher::Pattern(p) ==> shipped(
                p@,
            )),
{
    let mut r: Vec<BuiltinCat> = Vec::new();
    r.push(
        BuiltinCat {
            id: "fs.recursive-delete",
            default: Level::Approve,
            matcher: Matcher::Pattern(patterns::RECURSIVE_DELETE),
            ttl_default_mins: Some(15),
        },
    );
    r.push(
        BuiltinCat {
            id: "sudo.exec",
            default: Level::Approve,
            matcher: Matcher::Sudo,
            ttl_default_mins: Some(15),
        },
    );
    r.push(
        BuiltinCat {
            id: "svc.restart",
            default: Level::Approve,
            matcher: Matcher::Pattern(patterns::SERVICE_RESTART),
            ttl_default_mins: Some(30),
        },
    );
    r.push(
        BuiltinCat {
            id: "pkg.install",
            default: Level::Approve,
            matcher: Matcher::Pattern(patterns::PACKAGE_INSTALL),
            ttl_default_mins: Some(30),
        },
    );
    r.push(
        BuiltinCat {
            id: "db.drop",
            default: Level::Approve,
            matcher: Matcher::Pattern(patterns::DATABASE_DROP),
            ttl_default_mins: None,
        },
    );
    r.push(
        BuiltinCat {
            id: "net.pipe-to-shell",
            default: Level::Approve,
            matcher: Matcher::Pattern(patterns::PIPE_TO_SHELL),
            ttl_default_mins: None,
        },
    );
    r.push(
        BuiltinCat {
            id: "policy.write",
            default: Level::Approve,
            matcher: Matcher::PolicyWrite,
            ttl_default_mins: None,
        },
    );
    assert(r.deep_view() == builtin_table());
    r
}

/// Whether a pattern occurs in one of the readings of a command.
pub open spec fn occurs(pattern: Seq<char>, texts: Seq<Seq<char>>) -> bool {
    exists|k: int| 0 <= k < texts.len() && pattern_found(pattern, #[trigger] texts[k])
}

fn found_any(pattern: &str, texts: &Vec<String>) -> (r: bool)
    requires
        shipped(pattern@),
    ensures
        r == occurs(pattern@, texts.deep_view()),
{
    let ghost all = texts.deep_view();
    let mut k: usize = 0;
    while k < texts.len()
        invariant
            k <= texts.len(),
            all == texts.deep_view(),
            shipped(pattern@),
            forall|j: int| 0 <= j < k ==> !pattern_found(pattern@, #[trigger] all[j]),
        decreases texts.len() - k,
    {
        assert(all[k as int] == texts@[k as int]@);
        // A reading that says nothing new is not searched again.
        let seen: bool = k > 0 && text::same(texts[k].as_str(), texts[k - 1].as_str());
        if seen {
            assert(all[k as int] == all[k - 1]);
        } else if patterns::found(pattern, texts[k].as_str()) {
            return true;
        }
        k = k + 1;
    }
    assert(all.len() == texts.len());
    false
}

/// The first hardline at or after entry `i` whose pattern occurs in a reading of the command.
pub open spec fn hardline_from(texts: Seq<Seq<char>>, i: int) -> Option<Seq<char>>
    decreases hardline_table().len() - i,
{
    if i < 0 || i >= hardline_table().len() {
        None
    } else if occurs(hardline_table()[i].1, texts) {
        Some(hardline_table()[i].0)
    } else {
        hardline_from(texts, i + 1)
    }
}

fn hardlines() -> (r: Vec<(&'static str, &'static str)>)
    ensures
        r.deep_view() == hardline_table(),
        forall|i: int| 0 <= i < r.len() ==> shipped((#[trigger] r[i]).1@),
{
    let mut r: Vec<(&'static str, &'static str)> = Vec::new();
    r.push(("hardline.rm-rf-root", patterns::RM_RF_ROOT));
    r.push(("hardline.mkfs", patterns::MKFS));
    r.push(("hardline.dd-to-disk", patterns::DD_TO_DISK));
    r.push(("hardline.forkbomb", patterns::FORKBOMB));
    r.push(("hardline.shutdown", patterns::SHUTDOWN));
    assert(r.deep_view() == hardline_table());
    r
}

/// The hardline that a command runs into in one of its readings, if any.
pub fn hardline_of(texts: &Vec<String>) -> (r: Option<String>)
    ensures
        r.deep_view() == hardline_from(texts.deep_view(), 0),
{
    let table: Vec<(&'static str, &'static str)> = hardlines();
    let mut i: usize = 0;
    while i < table.len()
        invariant
            i <= table.len(),
            table.deep_view() == hardline_table(),
            forall|j: int| 0 <= j < table.len() ==> shipped((#[trigger] table[j]).1@),
            hardline_from(texts.deep_view(), i as int) == hardline_from(texts.deep_view(), 0),
        decreases table.len() - i,
    {
        assert(table.deep_view()[i as int] == hardline_table()[i as int]);
        assert(shipped(table[i as int].1@));
        if found_any(table[i].1, texts) {
            return Some(table[i].0.to_owned());
        }
        i = i + 1;
    }
    assert(table.deep_view().len() == hardline_table().len());
    None
}

/// Whether the sudo wrapper stands at a command position.
pub open spec fn runs_sudo(norm: Seq<char>) -> bool {
    pattern_found(patterns::SUDO_AT_COMMAND@, " "@ + norm) || "sudo "@.is_prefix_of(norm)
}

fn hits_sudo(norm: &str) -> (r: bool)
    ensures
        r == runs_sudo(norm@),
{
    let padded: String = " ".to_owned().concat(norm);
    patterns::found(patterns::SUDO_AT_COMMAND, padded.as_str()) || text::starts_with(norm, "sudo ")
}

fn sudo_any(texts: &Vec<String>) -> (r: bool)
    ensures
        r == exists|k: int| 0 <= k < texts.deep_view().len() && runs_sudo(
            #[trigger] texts.deep_view()[k],
        ),
{
    let ghost all = texts.deep_view();
    let mut k: usize = 0;
    while k < texts.len()
        invariant
            k <= texts.len(),
            all == texts.deep_view(),
            forall|j: int| 0 <= j < k ==> !runs_sudo(#[trigger] all[j]),
        decreases texts.len() - k,
    {
        assert(all[k as int] == texts@[k as int]@);
        if hits_sudo(texts[k].as_str()) {
            return true;
        }
        k = k + 1;
    }
    assert(all.len() == texts.len());
    false
}

/// Whether a built-in category matches a command in one of its readings.
pub open spec fn builtin_matches(
    b: BuiltinCatView,
    texts: Seq<Seq<char>>,
    policy_write: bool,
) -> bool {
    match b.matcher {
        MatcherView::Pattern(p) => occurs(p, texts),
        MatcherView::Sudo => exists|k: int|
            0 <= k < texts.len() && runs_sudo(#[trigger] texts[k]),
        MatcherView::PolicyWrite => policy_write,
    }
}

/// Which built-in categories match, in the order of the table.
pub open spec fn builtin_flags(texts: Seq<Seq<char>>, policy_write: bool) -> Seq<bool> {
    builtin_table().map_values(|b: BuiltinCatView| builtin_matches(b, texts, policy_write))
}

fn match_builtins(texts: &Vec<String>, policy_write: bool) -> (r: Vec<bool>)
    ensures
        r@ == builtin_flags(texts.deep_view(), policy_write),
{
    let table: Vec<BuiltinCat> = builtins();
    let mut out: Vec<bool> = Vec::new();
    let mut i: usize = 0;
    while i < table.len()
        invariant
            i <= table.len(),
            out.len() == i,
            table.deep_view() == builtin_table(),
            forall|j: int|
                0 <= j < table.len() ==> ((#[trigger] table[j]).matcher matches Matcher::Pattern(p)
                    ==> shipped(p@)),
            forall|j: int|
                0 <= j < i ==> #[trigger] out[j] == builtin_flags(texts.deep_view(), policy_write)[j],
        decreases table.len() - i,
    {
        assert(table.deep_view()[i as int] == builtin_table()[i as int]);
        let b: BuiltinCat = table[i];
        let flag: bool = match b.matcher {
            Matcher::Pattern(p) => found_any(p, texts),
            Matcher::Sudo => sudo_any(texts),
            Matcher::PolicyWrite => policy_write,
        };
        out.push(flag);
        i = i + 1;
    }
    assert(table.deep_view().len() == builtin_table().len());
    assert(out@ == builtin_flags(texts.deep_view(), policy_write));
    out
}

/// A match rule that a policy file adds.
#[derive(Debug, Clone, PartialEq, Eq)]
pub struct CustomRule {
    pub id: String,
    pub pattern: String,
    pub level: Level,
    pub ttl: Option<u64>,
}

pub struct CustomRuleView {
    pub id: Seq<char>,
    pub pattern: Seq<char>,
    pub level: Level,
    pub ttl: Option<u64>,
}

impl DeepView for CustomRule {
    type V = CustomRuleView;

    open spec fn deep_view(&self) -> CustomRuleView {
        CustomRuleView {
            id: self.id@,
            pattern: self.pattern@,
            level: self.level,
            ttl: self.ttl,
        }
    }
}

/// The level that an entry gives its own rules.
pub open spec fn entry_level(e: CatEntryView) -> Level {
    match level_of(e.level) {
        Some(l) => l,
        None => Level::Approve,
    }
}

/// The rules of an entry's first `n` patterns; patterns that do not compile are left out.
pub open spec fn entry_rules(id: Seq<char>, e: CatEntryView, n: int) -> Seq<CustomRuleView>
    decreases n,
{
    if n <= 0 {
        Seq::empty()
    } else {
        let before = entry_rules(id, e, n - 1);
        let pattern = e.match_rules[n - 1];
        if pattern_compiles(pattern) {
            before.push(
                CustomRuleView {
                    id,
                    pattern,
                    level: entry_level(e),
                    ttl: count(minutes_of(e.ttl_max)),
                },
            )
        } else {
            before
        }
    }
}

/// The rules of a layer's first `n` categories.
pub open spec fn layer_rules(p: PolicyView, n: int) -> Seq<CustomRuleView>
    decreases n,
{
    if n <= 0 {
        Seq::empty()
    } else {
        let id = p.order[n - 1];
        let e = p.categories[id];
        layer_rules(p, n - 1) + entry_rules(id, e, e.match_rules.len() as int)
    }
}

/// The rules of both layers, the global ones first.
pub open spec fn custom_rules(global: PolicyView, workspace: PolicyView) -> Seq<CustomRuleView> {
    layer_rules(global, global.order.len() as int) + layer_rules(
        workspace,
        workspace.order.len() as int,
    )
}

/// Every grant duration in a layer is countable.
pub open spec fn ttls_countable(p: PolicyView) -> bool {
    forall|id: Seq<char>| #[trigger]
        p.categories.contains_key(id) ==> countable(minutes_of(p.categories[id].ttl_max))
}

/// The level that a layer sets for a category.
pub open spec fn set_level(p: PolicyView, cat: Seq<char>) -> Option<Level> {
    if p.categories.contains_key(cat) {
        level_of(p.categories[cat].level)
    } else {
        None
    }
}

/// The longest grant that a layer permits for a category.
pub open spec fn set_ttl(p: PolicyView, cat: Seq<char>) -> Option<u64> {
    if p.categories.contains_key(cat) {
        count(minutes_of(p.categories[cat].ttl_max))
    } else {
        None
    }
}

/// The level that an override table sets for a category.
pub open spec fn override_level(
    tables: Map<Seq<char>, Map<Seq<char>, Seq<char>>>,
    who: Seq<char>,
    cat: Seq<char>,
) -> Option<Level> {
    if tables.contains_key(who) && tables[who].contains_key(cat) {
        level_named(tables[who][cat])
    } else {
        None
    }
}

/// A level and the layer that it comes from.
pub struct Ruling {
    pub level: Level,
    pub source: Seq<char>,
}

/// What the files say: the workspace over the global layer over the shipped default.
pub open spec fn filed(g: PolicyView, w: PolicyView, cat: Seq<char>, base: Level) -> Ruling {
    match set_level(w, cat) {
        Some(l) => Ruling { level: l, source: "workspace"@ },
        None => match set_level(g, cat) {
            Some(l) => Ruling { level: l, source: "global"@ },
            None => Ruling { level: base, source: "builtin-default"@ },
        },
    }
}

/// The grant that the files permit: the workspace over the shipped default, within the ceiling
/// that the global layer sets.
pub open spec fn filed_ttl(
    g: PolicyView,
    w: PolicyView,
    cat: Seq<char>,
    base_ttl: Option<u64>,
) -> Option<u64> {
    match (set_ttl(g, cat), set_ttl(w, cat)) {
        (Some(ceiling), Some(m)) => Some(
            if m < ceiling {
                m
            } else {
                ceiling
            },
        ),
        (Some(ceiling), None) => Some(ceiling),
        (None, Some(m)) => Some(m),
        (None, None) => base_ttl,
    }
}

/// The agent's override, which may loosen or tighten.
pub open spec fn for_agent(r: Ruling, w: PolicyView, agent: Seq<char>, cat: Seq<char>) -> Ruling {
    match override_level(w.agents, agent, cat) {
        Some(l) => Ruling { level: l, source: "agents."@ + agent },
        None => r,
    }
}

/// The harness's override, which only tightens.
pub open spec fn for_harness(
    r: Ruling,
    w: PolicyView,
    harness: Option<Seq<char>>,
    cat: Seq<char>,
) -> Ruling {
    match harness {
        Some(h) => match override_level(w.harness, h, cat) {
            Some(l) => if rung(l) > rung(r.level) {
                Ruling { level: l, source: "harness."@ + h }
            } else {
                r
            },
            None => r,
        },
        None => r,
    }
}

/// The level below which no layer may put a category: what the global layer flags as a floor, and
/// for writes to policy files at least `Approve`.
pub open spec fn floor_of(g: PolicyView, cat: Seq<char>) -> Level {
    let flagged = if g.categories.contains_key(cat) && g.categories[cat].floor {
        match set_level(g, cat) {
            Some(l) => l,
            None => Level::Allow,
        }
    } else {
        Level::Allow
    };
    if cat == "policy.write"@ {
        crate::level::stricter(flagged, Level::Approve)
    } else {
        flagged
    }
}

/// The floor's clamp.
pub open spec fn clamped(r: Ruling, floor: Level) -> Ruling {
    if rung(r.level) < rung(floor) {
        Ruling { level: floor, source: r.source + " (floor-clamped)"@ }
    } else {
        r
    }
}

/// A category's level after all layers.
pub open spec fn ruled(
    g: PolicyView,
    w: PolicyView,
    cat: Seq<char>,
    base: Level,
    agent: Seq<char>,
    harness: Option<Seq<char>>,
) -> Ruling {
    clamped(
        for_harness(for_agent(filed(g, w, cat, base), w, agent, cat), w, harness, cat),
        floor_of(g, cat),
    )
}

/// The hit that a matched category makes.
pub open spec fn hit_of(
    g: PolicyView,
    w: PolicyView,
    cat: Seq<char>,
    base: Level,
    base_ttl: Option<u64>,
    agent: Seq<char>,
    harness: Option<Seq<char>>,
) -> HitView {
    let r = ruled(g, w, cat, base, agent, harness);
    HitView {
        category: cat,
        level: r.level,
        source: r.source,
        ttl_max_mins: if r.level == Level::Approve {
            filed_ttl(g, w, cat, base_ttl)
        } else {
            None
        },
    }
}

/// Who asks: the Unix user and the harness label.
pub struct Asker {
    pub agent: Seq<char>,
    pub harness: Option<Seq<char>>,
}

/// Whether the flag at a position is set.
pub open spec fn set_at(flags: Seq<bool>, i: int) -> bool {
    0 <= i < flags.len() && flags[i]
}

/// The hits of the first `n` built-in categories.
pub open spec fn builtin_hits(
    g: PolicyView,
    w: PolicyView,
    flags: Seq<bool>,
    asker: Asker,
    n: int,
) -> Seq<HitView>
    decreases n,
{
    if n <= 0 {
        Seq::empty()
    } else {
        let before = builtin_hits(g, w, flags, asker, n - 1);
        let b = builtin_table()[n - 1];
        if set_at(flags, n - 1) {
            before.push(hit_of(g, w, b.id, b.default, b.ttl_default_mins, asker.agent, asker.harness))
        } else {
            before
        }
    }
}

/// Whether a category is among the hits.
pub open spec fn is_hit(hits: Seq<HitView>, cat: Seq<char>) -> bool {
    exists|i: int| 0 <= i < hits.len() && (#[trigger] hits[i]).category == cat
}

/// The hits with those of the first `n` custom rules added; a category is hit at most once.
pub open spec fn with_custom_hits(
    g: PolicyView,
    w: PolicyView,
    hits: Seq<HitView>,
    flags: Seq<bool>,
    asker: Asker,
    n: int,
) -> Seq<HitView>
    decreases n,
{
    if n <= 0 {
        hits
    } else {
        let before = with_custom_hits(g, w, hits, flags, asker, n - 1);
        let c = custom_rules(g, w)[n - 1];
        if set_at(flags, n - 1) && !is_hit(before, c.id) {
            before.push(hit_of(g, w, c.id, c.level, c.ttl, asker.agent, asker.harness))
        } else {
            before
        }
    }
}

/// The level of a command that nothing matches.
pub open spec fn default_of(g: PolicyView, w: PolicyView) -> Level {
    let written = match w.default {
        Some(d) => Some(d),
        None => g.default,
    };
    match level_of(written) {
        Some(l) => l,
        None => Level::Approve,
    }
}

/// What was found of a normalized command, before policy is asked.
pub struct Findings {
    /// The hardline that the command runs into.
    pub hardline: Option<String>,
    /// Which built-in categories match.
    pub builtin: Vec<bool>,
    /// Which custom rules match.
    pub custom: Vec<bool>,
}

pub struct FindingsView {
    pub hardline: Option<Seq<char>>,
    pub builtin: Seq<bool>,
    pub custom: Seq<bool>,
}

impl DeepView for Findings {
    type V = FindingsView;

    open spec fn deep_view(&self) -> FindingsView {
        FindingsView {
            hardline: self.hardline.deep_view(),
            builtin: self.builtin@,
            custom: self.custom@,
        }
    }
}

/// The decision on a command, given what was found of it.
pub open spec fn decided(
    g: PolicyView,
    w: PolicyView,
    norm: Seq<char>,
    f: FindingsView,
    asker: Asker,
) -> DecisionView {
    if f.hardline is Some {
        DecisionView { normalized: norm, hits: Seq::empty(), hardline: f.hardline }
    } else {
        let matched = with_custom_hits(
            g,
            w,
            builtin_hits(g, w, f.builtin, asker, builtin_table().len() as int),
            f.custom,
            asker,
            custom_rules(g, w).len() as int,
        );
        DecisionView {
            normalized: norm,
            hits: if matched.len() == 0 {
                seq![
                    HitView {
                        category: "(unmatched)"@,
                        level: default_of(g, w),
                        source: "default"@,
                        ttl_max_mins: None,
                    },
                ]
            } else {
                matched
            },
            hardline: None,
        }
    }
}

/// What the patterns find of a command, given its readings. The compiled-in patterns are sought in
/// every one of them, the rules of the policy files in the first.
pub open spec fn found_in(
    g: PolicyView,
    w: PolicyView,
    texts: Seq<Seq<char>>,
    policy_write: bool,
) -> FindingsView {
    FindingsView {
        hardline: hardline_from(texts, 0),
        builtin: builtin_flags(texts, policy_write),
        custom: custom_rules(g, w).map_values(
            |c: CustomRuleView| pattern_found(c.pattern, texts[0]),
        ),
    }
}

/// The classification of a raw command.
pub open spec fn classified(
    g: PolicyView,
    w: PolicyView,
    raw: Seq<char>,
    asker: Asker,
    policy_write: bool,
    home: Option<Seq<char>>,
) -> DecisionView {
    decided(
        g,
        w,
        normalized(raw, home),
        found_in(g, w, readings(raw, home), policy_write),
        asker,
    )
}

/// The text inside an option.
fn borrowed(s: &Option<String>) -> (r: Option<&str>)
    ensures
        r.deep_view() == s.deep_view(),
{
    match s {
        Some(t) => Some(t.as_str()),
        None => None,
    }
}

/// Whether every grant duration in a layer is countable.
pub fn ttls_fit(p: &PolicyFile) -> (r: bool)
    ensures
        r == ttls_countable(p.deep_view()),
{
    let ghost v = p.deep_view();
    let n: usize = p.categories.len();
    let mut i: usize = 0;
    while i < n
        invariant
            i <= n,
            n == p.categories.keys().len(),
            p.categories.laid_out(),
            v == p.deep_view(),
            forall|j: int|
                0 <= j < i ==> countable(
                    minutes_of(v.categories[#[trigger] p.categories.keys()[j]].ttl_max),
                ),
        decreases n - i,
    {
        let ghost id = p.categories.keys()[i as int];
        assert(p.categories@.contains_key(id));
        assert(v.categories.contains_key(id));
        if !level::mins_fit(borrowed(&p.categories.value_at(i).ttl_max)) {
            return false;
        }
        i = i + 1;
    }
    assert forall|id: Seq<char>| #[trigger] v.categories.contains_key(id) implies countable(
        minutes_of(v.categories[id].ttl_max),
    ) by {
        assert(p.categories@.contains_key(id));
        let j = choose|j: int|
            0 <= j < p.categories.keys().len() && #[trigger] p.categories.keys()[j] == id;
        assert(p.categories.keys()[j] == id);
    }
    true
}

/// The rules of every layer compile.
proof fn lemma_rules_compile(p: PolicyView, n: int)
    requires
        0 <= n <= p.order.len(),
    ensures
        forall|i: int|
            0 <= i < layer_rules(p, n).len() ==> pattern_compiles(
                (#[trigger] layer_rules(p, n)[i]).pattern,
            ),
    decreases n,
{
    if n > 0 {
        lemma_rules_compile(p, n - 1);
        let id = p.order[n - 1];
        let e = p.categories[id];
        lemma_entry_rules_compile(id, e, e.match_rules.len() as int);
    }
}

proof fn lemma_entry_rules_compile(id: Seq<char>, e: CatEntryView, n: int)
    requires
        0 <= n <= e.match_rules.len(),
    ensures
        forall|i: int|
            0 <= i < entry_rules(id, e, n).len() ==> pattern_compiles(
                (#[trigger] entry_rules(id, e, n)[i]).pattern,
            ),
    decreases n,
{
    if n > 0 {
        lemma_entry_rules_compile(id, e, n - 1);
    }
}

/// Appends the rules that one entry makes.
fn push_entry_rules(rules: &mut Vec<CustomRule>, id: &String, e: &CatEntry)
    requires
        countable(minutes_of(e.deep_view().ttl_max)),
    ensures
        final(rules).deep_view() == old(rules).deep_view() + entry_rules(
            id@,
            e.deep_view(),
            e.deep_view().match_rules.len() as int,
        ),
{
    let ghost view = e.deep_view();
    let level: Level = match level::level_from(&e.level) {
        Some(l) => l,
        None => Level::Approve,
    };
    let ttl: Option<u64> = level::parse_mins(borrowed(&e.ttl_max));
    let mut i: usize = 0;
    let ghost start = rules.deep_view();
    assert(rules.deep_view() == start + entry_rules(id@, view, 0));
    while i < e.match_rules.len()
        invariant
            i <= e.match_rules.len(),
            view == e.deep_view(),
            level == entry_level(view),
            ttl == count(minutes_of(view.ttl_max)),
            rules.deep_view() == start + entry_rules(id@, view, i as int),
        decreases e.match_rules.len() - i,
    {
        let ghost before = rules.deep_view();
        assert(view.match_rules[i as int] == e.match_rules@[i as int]@);
        if patterns::compiles(e.match_rules[i].as_str()) {
            let rule = CustomRule {
                id: id.clone(),
                pattern: e.match_rules[i].clone(),
                level,
                ttl,
            };
            let ghost added = rule.deep_view();
            rules.push(rule);
            assert(rules.deep_view() == before.push(added));
            assert(rules.deep_view() == start + entry_rules(id@, view, i + 1));
        }
        i = i + 1;
    }
}

/// Appends the rules that one layer makes.
fn push_layer_rules(rules: &mut Vec<CustomRule>, p: &PolicyFile)
    requires
        ttls_countable(p.deep_view()),
    ensures
        final(rules).deep_view() == old(rules).deep_view() + layer_rules(
            p.deep_view(),
            p.deep_view().order.len() as int,
        ),
{
    let ghost v = p.deep_view();
    let ghost start = rules.deep_view();
    let n: usize = p.categories.len();
    let mut i: usize = 0;
    assert(rules.deep_view() == start + layer_rules(v, 0));
    while i < n
        invariant
            i <= n,
            n == p.categories.keys().len(),
            p.categories.laid_out(),
            v == p.deep_view(),
            ttls_countable(v),
            rules.deep_view() == start + layer_rules(v, i as int),
        decreases n - i,
    {
        let ghost before = rules.deep_view();
        let ghost id = p.categories.keys()[i as int];
        assert(p.categories@.contains_key(id));
        assert(v.categories.contains_key(id));
        let ghost entry = v.categories[id];
        push_entry_rules(rules, p.categories.key_at(i), p.categories.value_at(i));
        assert(rules.deep_view() == before + entry_rules(id, entry, entry.match_rules.len() as int));
        assert(rules.deep_view() == start + layer_rules(v, i + 1));
        i = i + 1;
    }
}

/// Both layers of policy, with the custom rules that they make.
pub struct Engine {
    global: PolicyFile,
    workspace: PolicyFile,
    rules: Vec<CustomRule>,
}

impl Engine {
    #[verifier::type_invariant]
    spec fn inv(self) -> bool {
        &&& ttls_countable(self.global_view())
        &&& ttls_countable(self.workspace_view())
        &&& self.rules.deep_view() == custom_rules(self.global_view(), self.workspace_view())
    }

    /// The global layer.
    pub closed spec fn global_view(self) -> PolicyView {
        self.global.deep_view()
    }

    /// The workspace layer.
    pub closed spec fn workspace_view(self) -> PolicyView {
        self.workspace.deep_view()
    }

    /// An engine over a global and a workspace layer. Match rules that do not compile are left out.
    pub fn new(global: PolicyFile, workspace: PolicyFile) -> (r: Engine)
        requires
            ttls_countable(global.deep_view()),
            ttls_countable(workspace.deep_view()),
        ensures
            r.global_view() == global.deep_view(),
            r.workspace_view() == workspace.deep_view(),
    {
        let mut rules: Vec<CustomRule> = Vec::new();
        push_layer_rules(&mut rules, &global);
        push_layer_rules(&mut rules, &workspace);
        assert(rules.deep_view() == custom_rules(global.deep_view(), workspace.deep_view()));
        Engine { global, workspace, rules }
    }

    /// The level of a command that nothing matches.
    pub fn default_level(&self) -> (r: Level)
        ensures
            r == default_of(self.global_view(), self.workspace_view()),
    {
        let written: &Option<String> = if self.workspace.default.is_some() {
            &self.workspace.default
        } else {
            &self.global.default
        };
        match level::level_from(written) {
            Some(l) => l,
            None => Level::Approve,
        }
    }

    /// Whether the workspace's timeout is countable.
    pub fn timeout_fits(&self) -> (r: bool)
        ensures
            r == countable(seconds_of(self.workspace_view().timeout)),
    {
        level::secs_fit(borrowed(&self.workspace.timeout))
    }

    /// How long a request waits for its approval.
    pub fn timeout_secs(&self) -> (r: u64)
        requires
            countable(seconds_of(self.workspace_view().timeout)),
        ensures
            r == match count(seconds_of(self.workspace_view().timeout)) {
                Some(n) => n,
                None => 90,
            },
    {
        match level::parse_secs(borrowed(&self.workspace.timeout)) {
            Some(n) => n,
            None => 90,
        }
    }

    /// Whether the workspace's cooldown is countable.
    pub fn cooldown_fits(&self) -> (r: bool)
        ensures
            r == countable(seconds_of(self.workspace_view().deny_cooldown)),
    {
        level::secs_fit(borrowed(&self.workspace.deny_cooldown))
    }

    /// How long identical commands are refused after a denial.
    pub fn cooldown_secs(&self) -> (r: u64)
        requires
            countable(seconds_of(self.workspace_view().deny_cooldown)),
        ensures
            r == match count(seconds_of(self.workspace_view().deny_cooldown)) {
                Some(n) => n,
                None => 600,
            },
    {
        match level::parse_secs(borrowed(&self.workspace.deny_cooldown)) {
            Some(n) => n,
            None => 600,
        }
    }

    /// What a layer says of a category: its level, its grant and whether it is a floor.
    fn entry_in(p: &PolicyFile, cat: &str) -> (r: (Option<Level>, Option<u64>, bool))
        requires
            ttls_countable(p.deep_view()),
        ensures
            r.0 == set_level(p.deep_view(), cat@),
            r.1 == set_ttl(p.deep_view(), cat@),
            r.2 == (p.deep_view().categories.contains_key(cat@)
                && p.deep_view().categories[cat@].floor),
    {
        let ghost v = p.deep_view();
        match p.categories.get(cat) {
            Some(e) => {
                assert(v.categories.contains_key(cat@));
                assert(v.categories[cat@] == e.deep_view());
                (level::level_from(&e.level), level::parse_mins(borrowed(&e.ttl_max)), e.floor)
            },
            None => (None, None, false),
        }
    }

    /// The level that an override table sets for a category.
    fn override_in(tables: &StrMap<StrMap<String>>, who: &str, cat: &str) -> (r: Option<Level>)
        ensures
            r == override_level(nested(*tables), who@, cat@),
    {
        match tables.get(who) {
            Some(inner) => {
                assert(nested(*tables)[who@] == inner@.map_values(|s: String| s@));
                match inner.get(cat) {
                    Some(name) => Level::parse(name.as_str()),
                    None => None,
                }
            },
            None => None,
        }
    }

    /// The hit that a matched category makes after all layers.
    pub fn resolve(
        &self,
        cat: &str,
        base: Level,
        base_ttl: Option<u64>,
        agent_user: &str,
        harness: Option<&str>,
    ) -> (r: Hit)
        ensures
            r.deep_view() == hit_of(
                self.global_view(),
                self.workspace_view(),
                cat@,
                base,
                base_ttl,
                agent_user@,
                harness.deep_view(),
            ),
    {
        proof {
            use_type_invariant(self);
        }
        let (set_globally, ceiling, flagged) = Self::entry_in(&self.global, cat);
        let (set_here, cap, _) = Self::entry_in(&self.workspace, cat);
        let mut level: Level = base;
        let mut source: String = "builtin-default".to_owned();
        if let Some(l) = set_globally {
            level = l;
            source = "global".to_owned();
        }
        if let Some(l) = set_here {
            level = l;
            source = "workspace".to_owned();
        }
        let ttl: Option<u64> = match (ceiling, cap) {
            (Some(c), Some(m)) => Some(
                if m < c {
                    m
                } else {
                    c
                },
            ),
            (Some(c), None) => Some(c),
            (None, Some(m)) => Some(m),
            (None, None) => base_ttl,
        };
        if let Some(l) = Self::override_in(&self.workspace.agents, agent_user, cat) {
            level = l;
            source = "agents.".to_owned().concat(agent_user);
        }
        if let Some(h) = harness {
            if let Some(l) = Self::override_in(&self.workspace.harness, h, cat) {
                if level.rank() < l.rank() {
                    level = l;
                    source = "harness.".to_owned().concat(h);
                }
            }
        }
        let mut floor: Level = Level::Allow;
        if flagged {
            if let Some(l) = set_globally {
                floor = l;
            }
        }
        if text::same(cat, "policy.write") && floor.rank() < Level::Approve.rank() {
            floor = Level::Approve;
        }
        if level.rank() < floor.rank() {
            level = floor;
            source = source.concat(" (floor-clamped)");
        }
        Hit {
            category: cat.to_owned(),
            level,
            source,
            ttl_max_mins: if level == Level::Approve {
                ttl
            } else {
                None
            },
        }
    }

    /// What the patterns find of a command, given its readings. `policy_write` says that the command
    /// targets a protected policy file.
    pub fn find(&self, texts: &Vec<String>, policy_write: bool) -> (r: Findings)
        requires
            texts.len() > 0,
        ensures
            r.deep_view() == found_in(
                self.global_view(),
                self.workspace_view(),
                texts.deep_view(),
                policy_write,
            ),
    {
        proof {
            use_type_invariant(self);
            lemma_rules_compile(self.global_view(), self.global_view().order.len() as int);
            lemma_rules_compile(self.workspace_view(), self.workspace_view().order.len() as int);
        }
        let norm: &str = texts[0].as_str();
        assert(texts.deep_view()[0] == norm@);
        let ghost all = custom_rules(self.global_view(), self.workspace_view());
        let ghost flags = all.map_values(|c: CustomRuleView| pattern_found(c.pattern, norm@));
        let mut custom: Vec<bool> = Vec::new();
        let mut i: usize = 0;
        while i < self.rules.len()
            invariant
                i <= self.rules.len(),
                custom.len() == i,
                self.rules.deep_view() == all,
                flags == all.map_values(|c: CustomRuleView| pattern_found(c.pattern, norm@)),
                forall|j: int| 0 <= j < all.len() ==> pattern_compiles((#[trigger] all[j]).pattern),
                forall|j: int| 0 <= j < i ==> #[trigger] custom[j] == flags[j],
            decreases self.rules.len() - i,
        {
            assert(all[i as int] == self.rules@[i as int].deep_view());
            custom.push(patterns::found(self.rules[i].pattern.as_str(), norm));
            i = i + 1;
        }
        assert(self.rules.deep_view().len() == self.rules.len());
        assert(custom@ == flags);
        Findings {
            hardline: hardline_of(texts),
            builtin: match_builtins(texts, policy_write),
            custom,
        }
    }

    /// Whether a category is among the hits.
    fn hit_among(hits: &Vec<Hit>, cat: &str) -> (r: bool)
        ensures
            r == is_hit(hits.deep_view(), cat@),
    {
        let mut i: usize = 0;
        while i < hits.len()
            invariant
                i <= hits.len(),
                forall|j: int| 0 <= j < i ==> (#[trigger] hits.deep_view()[j]).category != cat@,
            decreases hits.len() - i,
        {
            assert(hits.deep_view()[i as int] == hits@[i as int].deep_view());
            if text::same(hits[i].category.as_str(), cat) {
                return true;
            }
            i = i + 1;
        }
        false
    }

    /// The decision on a normalized command, given what was found of it.
    pub fn decide(
        &self,
        norm: String,
        findings: &Findings,
        agent_user: &str,
        harness: Option<&str>,
    ) -> (r: Decision)
        ensures
            r.deep_view() == decided(
                self.global_view(),
                self.workspace_view(),
                norm@,
                findings.deep_view(),
                (Asker { agent: agent_user@, harness: harness.deep_view() }),
            ),
    {
        proof {
            use_type_invariant(self);
        }
        let ghost g = self.global_view();
        let ghost w = self.workspace_view();
        let ghost asker = Asker { agent: agent_user@, harness: harness.deep_view() };
        let ghost f = findings.deep_view();
        if let Some(id) = &findings.hardline {
            let r = Decision { normalized: norm, hits: Vec::new(), hardline: Some(id.clone()) };
            assert(r.hits.deep_view() == Seq::<HitView>::empty());
            return r;
        }
        let table: Vec<BuiltinCat> = builtins();
        let mut hits: Vec<Hit> = Vec::new();
        let mut i: usize = 0;
        assert(hits.deep_view() == builtin_hits(g, w, f.builtin, asker, 0));
        while i < table.len()
            invariant
                i <= table.len(),
                table.deep_view() == builtin_table(),
                g == self.global_view(),
                w == self.workspace_view(),
                asker == (Asker { agent: agent_user@, harness: harness.deep_view() }),
                f == findings.deep_view(),
                hits.deep_view() == builtin_hits(g, w, f.builtin, asker, i as int),
            decreases table.len() - i,
        {
            let ghost before = hits.deep_view();
            assert(table.deep_view()[i as int] == builtin_table()[i as int]);
            if i < findings.builtin.len() && findings.builtin[i] {
                let b: BuiltinCat = table[i];
                let hit: Hit = self.resolve(
                    b.id,
                    b.default,
                    b.ttl_default_mins,
                    agent_user,
                    harness,
                );
                let ghost added = hit.deep_view();
                hits.push(hit);
                assert(hits.deep_view() == before.push(added));
            }
            i = i + 1;
        }
        assert(table.deep_view().len() == builtin_table().len());
        let ghost matched = hits.deep_view();
        let ghost all = custom_rules(g, w);
        let mut k: usize = 0;
        while k < self.rules.len()
            invariant
                k <= self.rules.len(),
                all == custom_rules(g, w),
                self.rules.deep_view() == all,
                g == self.global_view(),
                w == self.workspace_view(),
                asker == (Asker { agent: agent_user@, harness: harness.deep_view() }),
                f == findings.deep_view(),
                hits.deep_view() == with_custom_hits(g, w, matched, f.custom, asker, k as int),
            decreases self.rules.len() - k,
        {
            let ghost before = hits.deep_view();
            assert(all[k as int] == self.rules@[k as int].deep_view());
            if k < findings.custom.len() && findings.custom[k] && !Self::hit_among(
                &hits,
                self.rules[k].id.as_str(),
            ) {
                let hit: Hit = self.resolve(
                    self.rules[k].id.as_str(),
                    self.rules[k].level,
                    self.rules[k].ttl,
                    agent_user,
                    harness,
                );
                let ghost added = hit.deep_view();
                hits.push(hit);
                assert(hits.deep_view() == before.push(added));
            }
            k = k + 1;
        }
        assert(self.rules.deep_view().len() == self.rules.len());
        if hits.len() == 0 {
            hits.push(
                Hit {
                    category: "(unmatched)".to_owned(),
                    level: self.default_level(),
                    source: "default".to_owned(),
                    ttl_max_mins: None,
                },
            );
            assert(hits.deep_view() == seq![hits@[0].deep_view()]);
        }
        Decision { normalized: norm, hits, hardline: None }
    }

    /// Classifies a raw command. `policy_write` says that it targets a protected policy file, and
    /// `home` is the home directory of who asks.
    pub fn classify(
        &self,
        raw: &str,
        agent_user: &str,
        harness: Option<&str>,
        policy_write: bool,
        home: Option<&str>,
    ) -> (r: Decision)
        ensures
            r.deep_view() == classified(
                self.global_view(),
                self.workspace_view(),
                raw@,
                (Asker { agent: agent_user@, harness: harness.deep_view() }),
                policy_write,
                home.deep_view(),
            ),
    {
        let texts: Vec<String> = normalize::read(raw, home);
        assert(texts.deep_view().len() == texts.len());
        assert(texts.deep_view()[0] == texts@[0]@);
        let findings: Findings = self.find(&texts, policy_write);
        self.decide(texts[0].clone(), &findings, agent_user, harness)
    }
}

} // verus!
