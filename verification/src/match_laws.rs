//! Which commands the classifier catches, and what becomes of the matches: over the raw command, the
//! shipped patterns and the tables of the policy files.

use crate::engine::{
    builtin_flags, builtin_hits, builtin_table, classified, custom_rules, entry_rules, found_in,
    hardline_from, hit_of, is_hit, layer_rules, occurs, runs_sudo, set_at, with_custom_hits, Asker,
};
use crate::layer_laws::{
    agent_overrides_count, global_files_count, grants_are_as_written, is_strictest_of, lemma_words,
    means_nothing, overrides, overrides_nothing, permits_nothing, shipped_defaults_count,
    stands_for, workspace_files_count, writes_level, writes_no_level,
};
use crate::level::Level;
use crate::normalize::{lines_ended, normalized, readings};
use crate::patterns;
use crate::patterns::{pattern_compiles, pattern_found};
use crate::policy::{effective_of, HitView, PolicyView};
use crate::policy_laws::{lemma_builtin_hit_present, lemma_custom_hits_extend};
use vstd::prelude::*;

verus! {

/// Whether a pattern is found in a command: as the rules see it, with the home directory written out,
/// or with its line breaks as separators.
pub open spec fn seen(pattern: Seq<char>, raw: Seq<char>, home: Option<Seq<char>>) -> bool {
    ||| pattern_found(pattern, normalized(raw, home))
    ||| pattern_found(pattern, normalized(raw, None))
    ||| pattern_found(pattern, normalized(lines_ended(raw), None))
}

/// Whether a command runs `sudo`, in a text of it.
pub open spec fn runs_sudo_in(text: Seq<char>) -> bool {
    pattern_found(patterns::SUDO_AT_COMMAND@, " "@ + text) || "sudo "@.is_prefix_of(text)
}

/// Whether a command runs `sudo`.
pub open spec fn sudo_seen(raw: Seq<char>, home: Option<Seq<char>>) -> bool {
    ||| runs_sudo_in(normalized(raw, home))
    ||| runs_sudo_in(normalized(raw, None))
    ||| runs_sudo_in(normalized(lines_ended(raw), None))
}

proof fn lemma_seen(pattern: Seq<char>, raw: Seq<char>, home: Option<Seq<char>>)
    ensures
        occurs(pattern, readings(raw, home)) <==> seen(pattern, raw, home),
{
    let texts = readings(raw, home);
    assert(texts[0] == normalized(raw, home));
    assert(texts[1] == normalized(raw, None));
    assert(texts[2] == normalized(lines_ended(raw), None));
}

/// Whether a command runs into one of the operations that nothing undoes.
pub open spec fn is_irrevocable(raw: Seq<char>, home: Option<Seq<char>>) -> bool {
    ||| seen(patterns::RM_RF_ROOT@, raw, home)
    ||| seen(patterns::MKFS@, raw, home)
    ||| seen(patterns::DD_TO_DISK@, raw, home)
    ||| seen(patterns::FORKBOMB@, raw, home)
    ||| seen(patterns::SHUTDOWN@, raw, home)
}

/// Exactly the operations that nothing undoes are refused by the compiled-in floor, and the decision
/// names the one that was found first.
pub proof fn the_floor_catches(
    g: PolicyView,
    w: PolicyView,
    raw: Seq<char>,
    asker: Asker,
    policy_write: bool,
    home: Option<Seq<char>>,
)
    ensures
        ({
            let d = classified(g, w, raw, asker, policy_write, home);
            &&& d.normalized == normalized(raw, home)
            &&& d.hardline is Some <==> is_irrevocable(raw, home)
            &&& is_irrevocable(raw, home) ==> effective_of(d) == Level::Deny && d.hits.len() == 0
            &&& seen(patterns::RM_RF_ROOT@, raw, home) ==> d.hardline == Some(
                "hardline.rm-rf-root"@,
            )
            &&& d.hardline == Some("hardline.mkfs"@) ==> seen(patterns::MKFS@, raw, home)
            &&& d.hardline == Some("hardline.dd-to-disk"@) ==> seen(
                patterns::DD_TO_DISK@,
                raw,
                home,
            )
            &&& d.hardline == Some("hardline.forkbomb"@) ==> seen(patterns::FORKBOMB@, raw, home)
            &&& d.hardline == Some("hardline.shutdown"@) ==> seen(patterns::SHUTDOWN@, raw, home)
        }),
{
    lemma_seen(patterns::RM_RF_ROOT@, raw, home);
    lemma_seen(patterns::MKFS@, raw, home);
    lemma_seen(patterns::DD_TO_DISK@, raw, home);
    lemma_seen(patterns::FORKBOMB@, raw, home);
    lemma_seen(patterns::SHUTDOWN@, raw, home);
    reveal_with_fuel(hardline_from, 6);
    reveal_strlit("hardline.rm-rf-root");
    reveal_strlit("hardline.mkfs");
    reveal_strlit("hardline.dd-to-disk");
    reveal_strlit("hardline.forkbomb");
    reveal_strlit("hardline.shutdown");
    assert("hardline.rm-rf-root"@.len() == 19 && "hardline.mkfs"@.len() == 13
        && "hardline.dd-to-disk"@.len() == 19 && "hardline.forkbomb"@.len() == 17
        && "hardline.shutdown"@.len() == 17);
    assert("hardline.rm-rf-root"@[9] == 'r' && "hardline.dd-to-disk"@[9] == 'd');
    assert("hardline.forkbomb"@[9] == 'f' && "hardline.shutdown"@[9] == 's');
}

/// Whether a built-in category catches a command: by its pattern, by the `sudo` in it, or as a write
/// to a policy file. `mins` is the grant that the category permits as shipped.
pub open spec fn shipped_match(
    cat: Seq<char>,
    mins: Option<u64>,
    raw: Seq<char>,
    policy_write: bool,
    home: Option<Seq<char>>,
) -> bool {
    ||| cat == "fs.recursive-delete"@ && mins == Some(15u64) && seen(
        patterns::RECURSIVE_DELETE@,
        raw,
        home,
    )
    ||| cat == "sudo.exec"@ && mins == Some(15u64) && sudo_seen(raw, home)
    ||| cat == "svc.restart"@ && mins == Some(30u64) && seen(patterns::SERVICE_RESTART@, raw, home)
    ||| cat == "pkg.install"@ && mins == Some(30u64) && seen(patterns::PACKAGE_INSTALL@, raw, home)
    ||| cat == "db.drop"@ && mins is None && seen(patterns::DATABASE_DROP@, raw, home)
    ||| cat == "net.pipe-to-shell"@ && mins is None && seen(patterns::PIPE_TO_SHELL@, raw, home)
    ||| cat == "policy.write"@ && mins is None && policy_write
}

/// Whether a rule in a policy file catches a command.
pub open spec fn rule_match(
    p: PolicyView,
    cat: Seq<char>,
    pattern: Seq<char>,
    raw: Seq<char>,
    home: Option<Seq<char>>,
) -> bool {
    &&& p.order.contains(cat)
    &&& p.categories[cat].match_rules.contains(pattern)
    &&& pattern_compiles(pattern)
    &&& pattern_found(pattern, normalized(raw, home))
}

proof fn lemma_flags(raw: Seq<char>, policy_write: bool, home: Option<Seq<char>>, k: int)
    requires
        0 <= k < builtin_table().len(),
    ensures
        set_at(builtin_flags(readings(raw, home), policy_write), k) <==> shipped_match(
            builtin_table()[k].id,
            builtin_table()[k].ttl_default_mins,
            raw,
            policy_write,
            home,
        ),
        builtin_table()[k].default == Level::Approve,
{
    lemma_seen(patterns::RECURSIVE_DELETE@, raw, home);
    lemma_seen(patterns::SERVICE_RESTART@, raw, home);
    lemma_seen(patterns::PACKAGE_INSTALL@, raw, home);
    lemma_seen(patterns::DATABASE_DROP@, raw, home);
    lemma_seen(patterns::PIPE_TO_SHELL@, raw, home);
    let texts = readings(raw, home);
    assert(texts[0] == normalized(raw, home));
    assert(texts[1] == normalized(raw, None));
    assert(texts[2] == normalized(lines_ended(raw), None));
    assert((exists|j: int| 0 <= j < texts.len() && runs_sudo(#[trigger] texts[j])) <==> sudo_seen(
        raw,
        home,
    ));
    reveal_strlit("fs.recursive-delete");
    reveal_strlit("sudo.exec");
    reveal_strlit("svc.restart");
    reveal_strlit("pkg.install");
    reveal_strlit("db.drop");
    reveal_strlit("net.pipe-to-shell");
    reveal_strlit("policy.write");
    assert("svc.restart"@[0] != "pkg.install"@[0]);
    assert("fs.recursive-delete"@.len() == 19 && "sudo.exec"@.len() == 9 && "svc.restart"@.len()
        == 11 && "pkg.install"@.len() == 11 && "db.drop"@.len() == 7 && "net.pipe-to-shell"@.len()
        == 17 && "policy.write"@.len() == 12);
}

/// A built-in category that catches a command is among the hits of the decision on it. Where no file
/// writes a grant for it, it permits the shipped one, at `Approve`.
pub proof fn shipped_categories_catch(
    g: PolicyView,
    w: PolicyView,
    raw: Seq<char>,
    asker: Asker,
    policy_write: bool,
    home: Option<Seq<char>>,
    cat: Seq<char>,
    mins: Option<u64>,
)
    requires
        !is_irrevocable(raw, home),
        shipped_match(cat, mins, raw, policy_write, home),
    ensures
        ({
            let d = classified(g, w, raw, asker, policy_write, home);
            exists|i: int|
                0 <= i < d.hits.len() && (#[trigger] d.hits[i]).category == cat && (
                permits_nothing(g, cat) && permits_nothing(w, cat) && d.hits[i].level
                    == Level::Approve ==> d.hits[i].ttl_max_mins == mins)
        }),
{
    the_floor_catches(g, w, raw, asker, policy_write, home);
    let f = found_in(g, w, readings(raw, home), policy_write);
    let n = builtin_table().len() as int;
    let k = lemma_shipped_at(cat, mins, raw, policy_write, home);
    lemma_flags(raw, policy_write, home, k);
    let b = builtin_table()[k];
    lemma_builtin_hit_present(g, w, f.builtin, asker, k, n);
    let h = hit_of(g, w, b.id, b.default, b.ttl_default_mins, asker.agent, asker.harness);
    let hits = builtin_hits(g, w, f.builtin, asker, n);
    let j = choose|j: int| 0 <= j < hits.len() && hits[j] == h;
    let m = custom_rules(g, w).len() as int;
    lemma_custom_hits_extend(g, w, hits, f.custom, asker, m);
    let all = with_custom_hits(g, w, hits, f.custom, asker, m);
    assert(all[j] == h);
    assert(classified(g, w, raw, asker, policy_write, home).hits[j] == h);
    grants_are_as_written(
        g,
        w,
        b.id,
        b.default,
        b.ttl_default_mins,
        asker.agent,
        asker.harness,
        0,
        0,
    );
}

/// Where in the table a built-in category stands that catches a command.
proof fn lemma_shipped_at(
    cat: Seq<char>,
    mins: Option<u64>,
    raw: Seq<char>,
    policy_write: bool,
    home: Option<Seq<char>>,
) -> (k: int)
    requires
        shipped_match(cat, mins, raw, policy_write, home),
    ensures
        0 <= k < builtin_table().len(),
        builtin_table()[k].id == cat,
        builtin_table()[k].ttl_default_mins == mins,
{
    reveal_strlit("fs.recursive-delete");
    reveal_strlit("sudo.exec");
    reveal_strlit("svc.restart");
    reveal_strlit("pkg.install");
    reveal_strlit("db.drop");
    reveal_strlit("net.pipe-to-shell");
    reveal_strlit("policy.write");
    assert("svc.restart"@[0] != "pkg.install"@[0]);
    assert("fs.recursive-delete"@.len() == 19 && "sudo.exec"@.len() == 9 && "svc.restart"@.len()
        == 11 && "pkg.install"@.len() == 11 && "db.drop"@.len() == 7 && "net.pipe-to-shell"@.len()
        == 17 && "policy.write"@.len() == 12);
    if cat == "fs.recursive-delete"@ {
        0
    } else if cat == "sudo.exec"@ {
        1
    } else if cat == "svc.restart"@ {
        2
    } else if cat == "pkg.install"@ {
        3
    } else if cat == "db.drop"@ {
        4
    } else if cat == "net.pipe-to-shell"@ {
        5
    } else {
        6
    }
}

/// A rule of a policy file that catches a command puts its category among the hits of the decision on
/// it.
pub proof fn written_rules_catch(
    g: PolicyView,
    w: PolicyView,
    raw: Seq<char>,
    asker: Asker,
    policy_write: bool,
    home: Option<Seq<char>>,
    cat: Seq<char>,
    pattern: Seq<char>,
)
    requires
        !is_irrevocable(raw, home),
        rule_match(g, cat, pattern, raw, home) || rule_match(w, cat, pattern, raw, home),
    ensures
        ({
            let d = classified(g, w, raw, asker, policy_write, home);
            exists|i: int| 0 <= i < d.hits.len() && (#[trigger] d.hits[i]).category == cat
        }),
{
    the_floor_catches(g, w, raw, asker, policy_write, home);
    let f = found_in(g, w, readings(raw, home), policy_write);
    let rules = custom_rules(g, w);
    let gs = layer_rules(g, g.order.len() as int);
    let ws = layer_rules(w, w.order.len() as int);
    assert(g.order.take(g.order.len() as int) == g.order);
    assert(w.order.take(w.order.len() as int) == w.order);
    let k: int = if rule_match(g, cat, pattern, raw, home) {
        let k = lemma_layer_rule(g, cat, pattern, g.order.len() as int);
        assert(rules[k] == gs[k]);
        k
    } else {
        let k = lemma_layer_rule(w, cat, pattern, w.order.len() as int);
        assert(rules[gs.len() + k] == ws[k]);
        gs.len() + k
    };
    assert(readings(raw, home)[0] == normalized(raw, home));
    assert(set_at(f.custom, k));
    let b = builtin_hits(g, w, f.builtin, asker, builtin_table().len() as int);
    lemma_custom_hit_present(g, w, b, f.custom, asker, k, rules.len() as int);
}

/// Where in a layer's rules one of its patterns stands.
proof fn lemma_layer_rule(p: PolicyView, cat: Seq<char>, pattern: Seq<char>, n: int) -> (k: int)
    requires
        0 <= n <= p.order.len(),
        p.order.take(n).contains(cat),
        p.categories[cat].match_rules.contains(pattern),
        pattern_compiles(pattern),
    ensures
        0 <= k < layer_rules(p, n).len(),
        layer_rules(p, n)[k].id == cat,
        layer_rules(p, n)[k].pattern == pattern,
    decreases n,
{
    let i = choose|i: int| 0 <= i < n && p.order.take(n)[i] == cat;
    let id = p.order[n - 1];
    let e = p.categories[id];
    let before = layer_rules(p, n - 1);
    let own = entry_rules(id, e, e.match_rules.len() as int);
    if i < n - 1 {
        assert(p.order.take(n - 1)[i] == cat);
        let k = lemma_layer_rule(p, cat, pattern, n - 1);
        assert((before + own)[k] == before[k]);
        k
    } else {
        assert(e.match_rules.take(e.match_rules.len() as int) == e.match_rules);
        let k = lemma_entry_rule(p, cat, pattern, e.match_rules.len() as int);
        assert((before + own)[before.len() + k] == own[k]);
        before.len() + k
    }
}

proof fn lemma_entry_rule(p: PolicyView, cat: Seq<char>, pattern: Seq<char>, n: int) -> (k: int)
    requires
        0 <= n <= p.categories[cat].match_rules.len(),
        p.categories[cat].match_rules.take(n).contains(pattern),
        pattern_compiles(pattern),
    ensures
        0 <= k < entry_rules(cat, p.categories[cat], n).len(),
        entry_rules(cat, p.categories[cat], n)[k].id == cat,
        entry_rules(cat, p.categories[cat], n)[k].pattern == pattern,
    decreases n,
{
    let list = p.categories[cat].match_rules;
    let i = choose|i: int| 0 <= i < n && list.take(n)[i] == pattern;
    let before = entry_rules(cat, p.categories[cat], n - 1);
    if i < n - 1 {
        assert(list.take(n - 1)[i] == pattern);
        let k = lemma_entry_rule(p, cat, pattern, n - 1);
        assert(entry_rules(cat, p.categories[cat], n)[k] == before[k]);
        k
    } else {
        before.len() as int
    }
}

proof fn lemma_custom_hit_present(
    g: PolicyView,
    w: PolicyView,
    hits: Seq<HitView>,
    flags: Seq<bool>,
    asker: Asker,
    k: int,
    n: int,
)
    requires
        0 <= k < n,
        set_at(flags, k),
    ensures
        is_hit(with_custom_hits(g, w, hits, flags, asker, n), custom_rules(g, w)[k].id),
    decreases n,
{
    let cat = custom_rules(g, w)[k].id;
    let before = with_custom_hits(g, w, hits, flags, asker, n - 1);
    let after = with_custom_hits(g, w, hits, flags, asker, n);
    if k < n - 1 {
        lemma_custom_hit_present(g, w, hits, flags, asker, k, n - 1);
    }
    if is_hit(before, cat) {
        let i = choose|i: int| 0 <= i < before.len() && (#[trigger] before[i]).category == cat;
        assert(after[i] == before[i]);
    } else {
        assert(after[before.len() as int].category == cat);
    }
}

/// Whether the categories that a layer lists are those that it has entries for, as of every policy
/// file.
pub open spec fn lists_categories(p: PolicyView) -> bool {
    forall|cat: Seq<char>| #[trigger] p.order.contains(cat) ==> p.categories.contains_key(cat)
}

/// Whether a hit comes from a category that catches the command, built in or written.
pub open spec fn is_caught(
    g: PolicyView,
    w: PolicyView,
    raw: Seq<char>,
    policy_write: bool,
    home: Option<Seq<char>>,
    cat: Seq<char>,
) -> bool {
    ||| exists|mins: Option<u64>| #[trigger] shipped_match(cat, mins, raw, policy_write, home)
    ||| exists|pattern: Seq<char>| #[trigger] rule_match(g, cat, pattern, raw, home)
    ||| exists|pattern: Seq<char>| #[trigger] rule_match(w, cat, pattern, raw, home)
}

/// Whether the layer that speaks for a category gives it a level: the agent's table, then the
/// workspace's file, then the global file, and `Approve` where none of them says anything.
pub open spec fn is_own_level(
    g: PolicyView,
    w: PolicyView,
    agent: Seq<char>,
    cat: Seq<char>,
    own: Level,
) -> bool {
    ||| overrides(w.agents, agent, cat, own)
    ||| overrides_nothing(w.agents, agent, cat) && writes_level(w, cat, own)
    ||| overrides_nothing(w.agents, agent, cat) && writes_no_level(w, cat) && writes_level(
        g,
        cat,
        own,
    )
    ||| overrides_nothing(w.agents, agent, cat) && writes_no_level(w, cat) && writes_no_level(g, cat)
        && own == Level::Approve
}

/// The base of a hit, where it is one that the layers start from.
spec fn starts_from(h: HitView, g: PolicyView, w: PolicyView, asker: Asker) -> bool {
    exists|base: Level, ttl: Option<u64>|
        h == #[trigger] hit_of(g, w, h.category, base, ttl, asker.agent, asker.harness) && (
        writes_no_level(w, h.category) && writes_no_level(g, h.category) ==> base == Level::Approve)
}

/// Every hit of a decision is that of a category which catches the command, and its level is the
/// strictest of what the layer that speaks for the category, the harness label and the floor say.
/// Where nothing catches the command, the one hit has the default level.
pub proof fn hits_are_matches(
    g: PolicyView,
    w: PolicyView,
    raw: Seq<char>,
    asker: Asker,
    policy_write: bool,
    home: Option<Seq<char>>,
    i: int,
    own: Level,
)
    requires
        lists_categories(g),
        lists_categories(w),
        0 <= i < classified(g, w, raw, asker, policy_write, home).hits.len(),
        classified(g, w, raw, asker, policy_write, home).hits[i].category != "(unmatched)"@,
    ensures
        ({
            let h = classified(g, w, raw, asker, policy_write, home).hits[i];
            &&& is_caught(g, w, raw, policy_write, home, h.category)
            &&& is_own_level(g, w, asker.agent, h.category, own) ==> is_strictest_of(
                h.level,
                own,
                g,
                w,
                asker.harness,
                h.category,
            )
        }),
{
    let f = found_in(g, w, readings(raw, home), policy_write);
    let n = builtin_table().len() as int;
    let m = custom_rules(g, w).len() as int;
    let b = builtin_hits(g, w, f.builtin, asker, n);
    lemma_builtin_sources(g, w, raw, asker, policy_write, home, n);
    lemma_custom_sources(g, w, raw, asker, policy_write, home, b, m);
    let d = classified(g, w, raw, asker, policy_write, home);
    let h = d.hits[i];
    assert(h == with_custom_hits(g, w, b, f.custom, asker, m)[i]);
    let cat = h.category;
    let (base, ttl) = choose|base: Level, ttl: Option<u64>|
        h == #[trigger] hit_of(g, w, h.category, base, ttl, asker.agent, asker.harness) && (
        writes_no_level(w, h.category) && writes_no_level(g, h.category) ==> base == Level::Approve);
    if overrides(w.agents, asker.agent, cat, own) {
        agent_overrides_count(g, w, cat, base, ttl, asker.agent, asker.harness, own);
    } else if overrides_nothing(w.agents, asker.agent, cat) {
        if writes_level(w, cat, own) {
            workspace_files_count(g, w, cat, base, ttl, asker.agent, asker.harness, own);
        } else if writes_no_level(w, cat) {
            if writes_level(g, cat, own) {
                global_files_count(g, w, cat, base, ttl, asker.agent, asker.harness, own);
            } else if writes_no_level(g, cat) {
                shipped_defaults_count(g, w, cat, base, ttl, asker.agent, asker.harness);
            }
        }
    }
}

proof fn lemma_builtin_sources(
    g: PolicyView,
    w: PolicyView,
    raw: Seq<char>,
    asker: Asker,
    policy_write: bool,
    home: Option<Seq<char>>,
    n: int,
)
    requires
        n <= builtin_table().len(),
    ensures
        ({
            let hits = builtin_hits(
                g,
                w,
                builtin_flags(readings(raw, home), policy_write),
                asker,
                n,
            );
            forall|i: int|
                0 <= i < hits.len() ==> starts_from(#[trigger] hits[i], g, w, asker) && is_caught(
                    g,
                    w,
                    raw,
                    policy_write,
                    home,
                    hits[i].category,
                )
        }),
    decreases n,
{
    if n > 0 {
        lemma_builtin_sources(g, w, raw, asker, policy_write, home, n - 1);
        lemma_flags(raw, policy_write, home, n - 1);
        let flags = builtin_flags(readings(raw, home), policy_write);
        let b = builtin_table()[n - 1];
        let before = builtin_hits(g, w, flags, asker, n - 1);
        let after = builtin_hits(g, w, flags, asker, n);
        let h = hit_of(g, w, b.id, b.default, b.ttl_default_mins, asker.agent, asker.harness);
        assert(h.category == b.id);
        assert forall|i: int| 0 <= i < after.len() implies starts_from(
            #[trigger] after[i],
            g,
            w,
            asker,
        ) && is_caught(g, w, raw, policy_write, home, after[i].category) by {
            if i < before.len() {
                assert(after[i] == before[i]);
            } else {
                assert(after[i] == h);
                assert(shipped_match(b.id, b.ttl_default_mins, raw, policy_write, home));
            }
        }
    }
}

proof fn lemma_rule_origin(p: PolicyView, n: int, k: int) -> (cat: Seq<char>)
    requires
        0 <= n <= p.order.len(),
        0 <= k < layer_rules(p, n).len(),
    ensures
        p.order.contains(cat),
        layer_rules(p, n)[k].id == cat,
        p.categories[cat].match_rules.contains(layer_rules(p, n)[k].pattern),
        pattern_compiles(layer_rules(p, n)[k].pattern),
        layer_rules(p, n)[k].level == crate::engine::entry_level(p.categories[cat]),
    decreases n,
{
    let id = p.order[n - 1];
    let e = p.categories[id];
    let before = layer_rules(p, n - 1);
    let own = entry_rules(id, e, e.match_rules.len() as int);
    if k < before.len() {
        assert((before + own)[k] == before[k]);
        lemma_rule_origin(p, n - 1, k)
    } else {
        assert((before + own)[k] == own[k - before.len()]);
        lemma_entry_origin(id, p, e.match_rules.len() as int, k - before.len());
        assert(p.order.contains(id));
        id
    }
}

proof fn lemma_entry_origin(cat: Seq<char>, p: PolicyView, n: int, k: int)
    requires
        0 <= n <= p.categories[cat].match_rules.len(),
        0 <= k < entry_rules(cat, p.categories[cat], n).len(),
    ensures
        ({
            let rule = entry_rules(cat, p.categories[cat], n)[k];
            &&& rule.id == cat
            &&& p.categories[cat].match_rules.contains(rule.pattern)
            &&& pattern_compiles(rule.pattern)
            &&& rule.level == crate::engine::entry_level(p.categories[cat])
        }),
    decreases n,
{
    let before = entry_rules(cat, p.categories[cat], n - 1);
    if k < before.len() {
        assert(entry_rules(cat, p.categories[cat], n)[k] == before[k]);
        lemma_entry_origin(cat, p, n - 1, k);
    } else {
        assert(p.categories[cat].match_rules[n - 1] == entry_rules(
            cat,
            p.categories[cat],
            n,
        )[k].pattern);
    }
}

proof fn lemma_custom_sources(
    g: PolicyView,
    w: PolicyView,
    raw: Seq<char>,
    asker: Asker,
    policy_write: bool,
    home: Option<Seq<char>>,
    hits: Seq<HitView>,
    n: int,
)
    requires
        0 <= n <= custom_rules(g, w).len(),
        forall|i: int|
            0 <= i < hits.len() ==> starts_from(#[trigger] hits[i], g, w, asker) && is_caught(
                g,
                w,
                raw,
                policy_write,
                home,
                hits[i].category,
            ),
        lists_categories(g),
        lists_categories(w),
    ensures
        ({
            let flags = found_in(g, w, readings(raw, home), policy_write).custom;
            let all = with_custom_hits(g, w, hits, flags, asker, n);
            forall|i: int|
                0 <= i < all.len() ==> starts_from(#[trigger] all[i], g, w, asker) && is_caught(
                    g,
                    w,
                    raw,
                    policy_write,
                    home,
                    all[i].category,
                )
        }),
    decreases n,
{
    if n > 0 {
        lemma_custom_sources(g, w, raw, asker, policy_write, home, hits, n - 1);
        let flags = found_in(g, w, readings(raw, home), policy_write).custom;
        let c = custom_rules(g, w)[n - 1];
        let before = with_custom_hits(g, w, hits, flags, asker, n - 1);
        let after = with_custom_hits(g, w, hits, flags, asker, n);
        if after.len() > before.len() {
            let h = hit_of(g, w, c.id, c.level, c.ttl, asker.agent, asker.harness);
            let gs = layer_rules(g, g.order.len() as int);
            let ws = layer_rules(w, w.order.len() as int);
            assert(readings(raw, home)[0] == normalized(raw, home));
            assert(pattern_found(c.pattern, normalized(raw, home)));
            if n - 1 < gs.len() {
                assert(c == gs[n - 1]);
                let cat = lemma_rule_origin(g, g.order.len() as int, n - 1);
                assert(rule_match(g, cat, c.pattern, raw, home));
                lemma_bare_entry(g, cat);
            } else {
                assert(c == ws[n - 1 - gs.len()]);
                let cat = lemma_rule_origin(w, w.order.len() as int, n - 1 - gs.len());
                assert(rule_match(w, cat, c.pattern, raw, home));
                lemma_bare_entry(w, cat);
            }
            assert(starts_from(h, g, w, asker));
            assert forall|i: int| 0 <= i < after.len() implies starts_from(
                #[trigger] after[i],
                g,
                w,
                asker,
            ) && is_caught(g, w, raw, policy_write, home, after[i].category) by {
                if i < before.len() {
                    assert(after[i] == before[i]);
                } else {
                    assert(after[i] == h);
                }
            }
        }
    }
}

proof fn lemma_bare_entry(p: PolicyView, cat: Seq<char>)
    requires
        p.categories.contains_key(cat),
    ensures
        writes_no_level(p, cat) ==> crate::engine::entry_level(p.categories[cat]) == Level::Approve,
{
    lemma_words(p.categories[cat].level->0);
}

/// Whether a policy puts a command that nothing catches at a level: the workspace's default before the
/// global one, and `Approve` where neither is written or the written one is no level.
pub open spec fn is_default(g: PolicyView, w: PolicyView, l: Level) -> bool {
    match (w.default, g.default) {
        (Some(word), _) => stands_for(word, l) || means_nothing(word) && l == Level::Approve,
        (None, Some(word)) => stands_for(word, l) || means_nothing(word) && l == Level::Approve,
        (None, None) => l == Level::Approve,
    }
}

/// A command that no category catches gets the default level, without a grant.
pub proof fn uncaught_commands_get_the_default(
    g: PolicyView,
    w: PolicyView,
    raw: Seq<char>,
    asker: Asker,
    policy_write: bool,
    home: Option<Seq<char>>,
    l: Level,
)
    requires
        lists_categories(g),
        lists_categories(w),
        !is_irrevocable(raw, home),
        forall|cat: Seq<char>| !#[trigger] is_caught(g, w, raw, policy_write, home, cat),
        is_default(g, w, l),
    ensures
        ({
            let d = classified(g, w, raw, asker, policy_write, home);
            &&& effective_of(d) == l
            &&& d.hits.len() == 1
            &&& d.hits[0].category == "(unmatched)"@
            &&& d.hits[0].source == "default"@
            &&& d.hits[0].ttl_max_mins is None
        }),
{
    the_floor_catches(g, w, raw, asker, policy_write, home);
    let f = found_in(g, w, readings(raw, home), policy_write);
    let n = builtin_table().len() as int;
    let m = custom_rules(g, w).len() as int;
    let b = builtin_hits(g, w, f.builtin, asker, n);
    lemma_builtin_sources(g, w, raw, asker, policy_write, home, n);
    lemma_custom_sources(g, w, raw, asker, policy_write, home, b, m);
    let all = with_custom_hits(g, w, b, f.custom, asker, m);
    if all.len() > 0 {
        assert(is_caught(g, w, raw, policy_write, home, all[0].category));
    }
    if let Some(word) = w.default {
        lemma_words(word);
    }
    if let Some(word) = g.default {
        lemma_words(word);
    }
}

} // verus!
