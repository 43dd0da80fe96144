//! What the daemon promises of each request and each verb, field by field: whose request it is, what
//! the human is shown, what is recorded, and what a decision does to those who wait.

use crate::audit::AuditValueView;
use crate::config::{below, governs, IdentityView};
use crate::crypto::{b64_text, sha256_of};
use crate::daemon::{
    admission, decided_locally, decision_on, layer, peer_refusal, start_effects, started_of, status_of,
    weighed_effects, weighed_next, AdmissionView, NextView, RequestView, RequesterView,
    StartedView,
};
use crate::effects::EffectView;
use crate::envelope_laws::{
    approvals_let_through, denials_refuse, idle_decisions_are_refused,
    others_are_kept, subject_is_kept,
};
use crate::engine::{classified, ttls_countable, Asker, Engine};
use crate::host::{command_line, home_of, login_of, targets_policy};
use crate::keys::CoalesceKeyView;
use crate::level::{minutes_of, Level};
use crate::manager::{
    EnvelopeState, ManagerErrorView, ManagerView, ResolveOutcome, StartResultView, WaitPlanView,
};
use crate::match_laws::{is_irrevocable, shipped_categories_catch, the_floor_catches};
use crate::normalize::normalized;
use crate::plugin::is_declared;
use crate::policy::{effective_of, ttl_offer_of, DecisionView, PolicyFile, PolicyView};
use crate::proto::{DaemonMsgView, LocalRespView};
use crate::text::{decimal, joined};
use vstd::prelude::*;

verus! {

/// An envelope awaits a human.
pub open spec fn awaits_decision(m: ManagerView, id: Seq<char>) -> bool {
    &&& m.envelopes.contains_key(id)
    &&& m.envelopes[id].state == EnvelopeState::Pending || m.envelopes[id].state
        == EnvelopeState::TimedOut
}

/// An effect answers a waiter with a verdict and a message.
pub open spec fn answers_with(
    e: EffectView,
    waiter: u64,
    verdict: Seq<char>,
    message: Seq<char>,
) -> bool {
    e matches EffectView::Deliver(d) && d.waiter == waiter && d.resp == (LocalRespView::Verdict {
        verdict,
        message,
    })
}

/// An effect records an event under two names, and nothing else.
pub open spec fn records_pair(
    e: EffectView,
    event: Seq<char>,
    a: Seq<char>,
    x: Seq<char>,
    b: Seq<char>,
    y: Seq<char>,
) -> bool {
    e matches EffectView::Audit { event: ev, fields } && {
        &&& ev == event
        &&& fields.dom() == set![a, b]
        &&& fields[a] == AuditValueView::Text(x)
        &&& fields[b] == AuditValueView::Text(y)
    }
}

/// What a decision does outside the manager: each waiter is answered, in turn, the decision is
/// recorded with where it came from, and the relay is told.
pub open spec fn is_announced(
    effects: Seq<EffectView>,
    waiters: Seq<u64>,
    verdict: Seq<char>,
    message: Seq<char>,
    id: Seq<char>,
    event: Seq<char>,
    source: Seq<char>,
    word: Seq<char>,
) -> bool {
    let n = waiters.len() as int;
    &&& effects.len() == n + 2
    &&& forall|i: int|
        0 <= i < n ==> answers_with(#[trigger] effects[i], waiters[i], verdict, message)
    &&& records_pair(effects[n], event, "id"@, id, "source"@, source)
    &&& effects[n + 1] == EffectView::Relay(DaemonMsgView::Verdict { id, verdict: word })
}

/// An envelope is approved, and nothing else has changed.
pub open spec fn is_approved(before: ManagerView, after: ManagerView, id: Seq<char>) -> bool {
    &&& after.envelopes.contains_key(id)
    &&& after.envelopes[id].state == EnvelopeState::Approved
    &&& after.envelopes[id].waiters.len() == 0
    &&& subject_is_kept(before.envelopes[id], after.envelopes[id])
    &&& others_are_kept(before, after, id)
    &&& after.cooldowns == before.cooldowns
}

/// An envelope is denied, its key cools down, and nothing else has changed.
pub open spec fn is_denied(
    before: ManagerView,
    after: ManagerView,
    id: Seq<char>,
    cooldown_secs: u64,
    now: u64,
) -> bool {
    let key = before.envelopes[id].key;
    &&& after.envelopes.contains_key(id)
    &&& after.envelopes[id].state == EnvelopeState::Denied
    &&& after.envelopes[id].waiters.len() == 0
    &&& subject_is_kept(before.envelopes[id], after.envelopes[id])
    &&& others_are_kept(before, after, id)
    &&& after.cooldowns.contains_key(key)
    &&& after.cooldowns[key] == now + cooldown_secs * 1_000_000_000
    &&& forall|k: CoalesceKeyView|
        k != key ==> (#[trigger] after.cooldowns.contains_key(k)
            <==> before.cooldowns.contains_key(k)) && (before.cooldowns.contains_key(k)
            ==> after.cooldowns[k] == before.cooldowns[k])
}

pub(crate) proof fn lemma_pair_names()
    ensures
        "id"@ != "source"@,
        "topic"@ != "link"@,
        "id"@ != "expires_unix"@,
{
    reveal_strlit("id");
    reveal_strlit("source");
    reveal_strlit("topic");
    reveal_strlit("link");
    reveal_strlit("expires_unix");
    assert("id"@.len() == 2 && "source"@.len() == 6);
    assert("topic"@.len() == 5 && "link"@.len() == 4);
    assert("expires_unix"@.len() == 12);
}

/// A human's approval at the terminal approves: the envelope is approved, nothing cools down, whoever
/// waited is allowed and told by whom, the approval is recorded, and the relay is told.
pub proof fn local_approvals_let_through(
    m: ManagerView,
    id: Seq<char>,
    approver: Seq<char>,
    cooldown_secs: u64,
    now: u64,
)
    requires
        awaits_decision(m, id),
    ensures
        ({
            let (after, effects, resp) = decided_locally(
                m,
                id,
                ResolveOutcome::Approved,
                approver,
                cooldown_secs,
                now,
            );
            &&& is_approved(m, after, id)
            &&& is_announced(
                effects,
                m.envelopes[id].waiters,
                "allow"@,
                "approved by "@ + approver + "; proceeding"@,
                id,
                "envelope.approved"@,
                "local-cli"@,
                "approved"@,
            )
            &&& resp == (LocalRespView::Done { message: "approved"@ })
        }),
{
    lemma_pair_names();
    approvals_let_through(m, id, approver, cooldown_secs, now);
    let (after, effects, resp) = decided_locally(
        m,
        id,
        ResolveOutcome::Approved,
        approver,
        cooldown_secs,
        now,
    );
    let n = m.envelopes[id].waiters.len() as int;
    assert(effects[n] matches EffectView::Audit { event, fields } && fields.dom() =~= set![
        "id"@,
        "source"@,
    ]);
}

/// A human's denial at the terminal denies: the envelope is denied, its key cools down, whoever waited
/// is refused and told by whom, the denial is recorded, and the relay is told.
pub proof fn local_denials_refuse(
    m: ManagerView,
    id: Seq<char>,
    approver: Seq<char>,
    cooldown_secs: u64,
    now: u64,
)
    requires
        awaits_decision(m, id),
    ensures
        ({
            let (after, effects, resp) = decided_locally(
                m,
                id,
                ResolveOutcome::Denied,
                approver,
                cooldown_secs,
                now,
            );
            &&& is_denied(m, after, id, cooldown_secs, now)
            &&& is_announced(
                effects,
                m.envelopes[id].waiters,
                "deny"@,
                "denied by "@ + approver
                    + " — do not retry; the human explicitly rejected this."@,
                id,
                "envelope.denied"@,
                "local-cli"@,
                "denied"@,
            )
            &&& resp == (LocalRespView::Done { message: "denied"@ })
        }),
{
    lemma_pair_names();
    denials_refuse(m, id, approver, cooldown_secs, now);
    let (after, effects, resp) = decided_locally(
        m,
        id,
        ResolveOutcome::Denied,
        approver,
        cooldown_secs,
        now,
    );
    let n = m.envelopes[id].waiters.len() as int;
    assert(effects[n] matches EffectView::Audit { event, fields } && fields.dom() =~= set![
        "id"@,
        "source"@,
    ]);
}

/// A decision on an envelope that awaits none fails, and nothing comes of it.
pub proof fn idle_local_decisions_do_nothing(
    m: ManagerView,
    id: Seq<char>,
    outcome: ResolveOutcome,
    approver: Seq<char>,
    cooldown_secs: u64,
    now: u64,
)
    requires
        !awaits_decision(m, id),
    ensures
        ({
            let (after, effects, resp) = decided_locally(
                m,
                id,
                outcome,
                approver,
                cooldown_secs,
                now,
            );
            &&& after == m
            &&& effects.len() == 0
            &&& resp is Failed
        }),
{
    idle_decisions_are_refused(m, id, outcome, approver, cooldown_secs, now);
}

/// Whether a peer is one of the declared humans.
pub open spec fn is_declared_human(
    identity: IdentityView,
    passwd: Seq<char>,
    peer_uid: Option<u32>,
) -> bool {
    peer_uid matches Some(uid) && (login_of(passwd, uid) matches Some(user)
        && identity.humans.contains(user))
}

/// The plugin takes a user for a declared human exactly where the daemon does, and nobody for one where
/// no identity can be read.
pub proof fn plugin_and_daemon_agree(identity: IdentityView, passwd: Seq<char>, uid: u32)
    ensures
        is_declared(Some(identity), passwd, uid) <==> is_declared_human(
            identity,
            passwd,
            Some(uid),
        ),
        !is_declared(None, passwd, uid),
{
}

/// The verbs are for the declared humans, and for all of them.
pub proof fn verbs_are_for_declared_humans(
    identity: IdentityView,
    passwd: Seq<char>,
    peer_uid: Option<u32>,
)
    ensures
        peer_refusal(identity, passwd, peer_uid) is None <==> is_declared_human(
            identity,
            passwd,
            peer_uid,
        ),
        peer_uid is None ==> peer_refusal(identity, passwd, peer_uid) == Some(
            "missing SO_PEERCRED uid"@,
        ),
        peer_uid matches Some(uid) ==> match login_of(passwd, uid) {
            None => peer_refusal(identity, passwd, peer_uid) == Some(
                "unknown peer uid "@ + decimal(uid as nat),
            ),
            Some(user) => !identity.humans.contains(user) ==> peer_refusal(
                identity,
                passwd,
                peer_uid,
            ) == Some("local approval verbs require a declared human uid"@),
        },
{
}

/// A declared human's request is let through; any other is the requester's own, under the login and
/// the home directory of the user that asks.
pub proof fn requests_are_their_users(
    identity: IdentityView,
    passwd: Seq<char>,
    uid: u32,
    cwd: Seq<char>,
)
    ensures
        is_declared_human(identity, passwd, Some(uid)) ==> (admission(identity, passwd, uid, cwd)
            matches AdmissionView::Bypass(LocalRespView::Verdict { verdict, message }) && verdict
            == "allow"@ && message == "declared human bypass"@),
        login_of(passwd, uid) matches Some(user) ==> !identity.humans.contains(user) ==> (admission(
            identity,
            passwd,
            uid,
            cwd,
        ) matches AdmissionView::Admitted(who) && who.agent_user == user && who.home == home_of(
            passwd,
            uid,
        )),
        login_of(passwd, uid) is None && !identity.humans.contains("uid-"@ + decimal(uid as nat))
            ==> (admission(identity, passwd, uid, cwd) matches AdmissionView::Admitted(who)
            && who.agent_user == "uid-"@ + decimal(uid as nat) && who.home == home_of(passwd, uid)),
{
}

/// A request that is not let through belongs to the innermost trusted workspace that its directory is
/// in, and that one's policy counts; outside of all of them it belongs to its directory, and no
/// workspace's policy counts.
pub proof fn requests_belong_to_a_workspace(
    identity: IdentityView,
    passwd: Seq<char>,
    uid: u32,
    cwd: Seq<char>,
    dir: Seq<char>,
)
    requires
        admission(identity, passwd, uid, cwd) is Admitted,
    ensures
        ({
            let who = admission(identity, passwd, uid, cwd)->Admitted_0;
            &&& who.policy_dir is None ==> who.workspace == cwd
            &&& who.policy_dir matches Some(d) ==> who.workspace == d && identity.trusted.contains(d)
                && is_in(cwd, d)
            &&& identity.trusted.contains(dir) && is_in(cwd, dir) ==> (who.policy_dir matches Some(d)
                && d.len() >= dir.len())
        }),
{
    crate::daemon::only_trusted_policy_counts(identity, passwd, uid, cwd);
    lemma_governs(dir, cwd);
    let who = admission(identity, passwd, uid, cwd)->Admitted_0;
    if who.policy_dir is Some {
        lemma_governs(who.policy_dir->0, cwd);
    }
    if identity.trusted.contains(dir) && is_in(cwd, dir) {
        let k = choose|k: int| 0 <= k < identity.trusted.len() && identity.trusted[k] == dir;
        assert(governs(identity.trusted[k], cwd));
        crate::daemon::lemma_workspace_exists(identity.trusted, cwd);
    }
}

/// A path is a directory or lies below it.
pub open spec fn is_in(path: Seq<char>, dir: Seq<char>) -> bool {
    ||| path == dir
    ||| exists|rest: Seq<char>| path == #[trigger] (dir + "/"@ + rest)
    ||| dir.len() > 0 && dir.last() == '/' && exists|rest: Seq<char>| path == #[trigger] (dir + rest)
}

proof fn lemma_governs(dir: Seq<char>, cwd: Seq<char>)
    ensures
        governs(dir, cwd) <==> is_in(cwd, dir),
{
    reveal_strlit("/");
    if below(dir).is_prefix_of(cwd) {
        let rest = cwd.skip(below(dir).len() as int);
        assert(cwd =~= below(dir) + rest);
    }
    if exists|rest: Seq<char>| cwd == #[trigger] (dir + "/"@ + rest) {
        let rest = choose|rest: Seq<char>| cwd == #[trigger] (dir + "/"@ + rest);
        assert(below(dir).is_prefix_of(cwd)) by {
            assert(below(dir) =~= cwd.subrange(0, below(dir).len() as int));
        }
    }
    if dir.len() > 0 && dir.last() == '/' && exists|rest: Seq<char>|
        cwd == #[trigger] (dir + rest) {
        let rest = choose|rest: Seq<char>| cwd == #[trigger] (dir + rest);
        assert(below(dir) =~= cwd.subrange(0, below(dir).len() as int));
    }
}

/// A request is judged by its own command, for the user that asks and the harness it came through, with
/// that user's home directory, under the two layers that are loaded, and with whether it targets a
/// protected file from where it would run.
pub proof fn requests_are_judged_as_they_came(
    engine: Engine,
    req: RequestView,
    who: RequesterView,
    config_dir: Option<Seq<char>>,
)
    ensures
        decision_on(engine, req, who, config_dir) == classified(
            engine.global_view(),
            engine.workspace_view(),
            joined(req.argv, " "@),
            (Asker { agent: who.agent_user, harness: req.harness }),
            targets_policy(req.argv, req.cwd, who.workspace, config_dir),
            who.home,
        ),
        decision_on(engine, req, who, config_dir).normalized == normalized(
            joined(req.argv, " "@),
            who.home,
        ),
{
}

/// A protected file is never written unseen: a request with an argument that leads to one hits its
/// category, unless the request is irrevocable and denied.
pub proof fn policy_writes_are_seen(
    engine: Engine,
    req: RequestView,
    who: RequesterView,
    config_dir: Option<Seq<char>>,
)
    requires
        targets_policy(req.argv, req.cwd, who.workspace, config_dir),
    ensures
        ({
            let d = decision_on(engine, req, who, config_dir);
            d.hardline is Some || exists|i: int|
                0 <= i < d.hits.len() && (#[trigger] d.hits[i]).category == "policy.write"@
        }),
{
    let raw = joined(req.argv, " "@);
    let asker = Asker { agent: who.agent_user, harness: req.harness };
    let (g, w) = (engine.global_view(), engine.workspace_view());
    the_floor_catches(g, w, raw, asker, true, who.home);
    if !is_irrevocable(raw, who.home) {
        shipped_categories_catch(g, w, raw, asker, true, who.home, "policy.write"@, None);
    }
}

/// A layer is loaded wherever each grant that it writes can be counted.
pub proof fn countable_layers_are_loaded(p: PolicyView)
    ensures
        (forall|id: Seq<char>| #[trigger]
            p.categories.contains_key(id) ==> (minutes_of(p.categories[id].ttl_max) matches Some(n)
                ==> n <= u64::MAX)) <==> ttls_countable(p),
        ttls_countable(layer(None)),
{
}

/// A layer that is not there says nothing.
pub proof fn absent_layers_say_nothing(p: PolicyFile, cat: Seq<char>, who: Seq<char>)
    ensures
        layer(Some(p)) == p.deep_view(),
        !layer(None).categories.contains_key(cat),
        !layer(None).agents.contains_key(who),
        !layer(None).harness.contains_key(who),
        layer(None).default is None,
        layer(None).timeout is None,
        layer(None).deny_cooldown is None,
        layer(None).order.len() == 0,
{
}

/// The four rungs: what policy allows is allowed, with or without a notice, what it denies is denied,
/// and the rest goes to a human.
pub proof fn the_ladder_is_kept(req: RequestView, who: RequesterView, d: DecisionView)
    ensures
        effective_of(d) == Level::Allow ==> weighed_next(req, who, d) == NextView::Answer(
            LocalRespView::Verdict { verdict: "allow"@, message: "allowed by policy"@ },
        ),
        effective_of(d) == Level::Notify ==> weighed_next(req, who, d) == NextView::Answer(
            LocalRespView::Verdict {
                verdict: "allow"@,
                message: "allowed by policy; notification sent"@,
            },
        ),
        effective_of(d) == Level::Deny ==> weighed_next(req, who, d) == NextView::Answer(
            LocalRespView::Verdict { verdict: "deny"@, message: "denied by policy"@ },
        ),
        effective_of(d) == Level::Approve <==> weighed_next(req, who, d) is Approve,
{
}

/// A human is shown the request as it came in, and the requester as it was found.
pub proof fn humans_see_the_request(req: RequestView, who: RequesterView, d: DecisionView)
    ensures
        weighed_next(req, who, d) matches NextView::Approve { key, body, command } ==> {
            &&& body.argv == req.argv
            &&& body.cwd == req.cwd
            &&& body.runas == req.runas
            &&& body.uid == req.uid
            &&& body.harness == req.harness
            &&& body.agent_user == who.agent_user
            &&& body.workspace == who.workspace
            &&& body.ttl_offer == ttl_offer_of(d)
            &&& body.categories.len() == d.hits.len() && forall|i: int|
                0 <= i < d.hits.len() ==> #[trigger] body.categories[i] == d.hits[i].category
            &&& command == command_line(req.argv)
            &&& body.summary == who.agent_user + " in "@ + req.cwd + " wants `"@ + command_line(
                req.argv,
            ) + "`"@
        },
{
}

/// What a human is shown tells requests apart: two that differ in the command, in where or as whom it
/// would run, or in who asks and through what, are never shown alike.
pub proof fn different_requests_look_different(
    a: RequestView,
    b: RequestView,
    who_a: RequesterView,
    who_b: RequesterView,
    d: DecisionView,
    e: DecisionView,
)
    requires
        weighed_next(a, who_a, d) is Approve,
        weighed_next(b, who_b, e) is Approve,
        weighed_next(a, who_a, d)->body == weighed_next(b, who_b, e)->body,
    ensures
        a.argv == b.argv,
        a.cwd == b.cwd,
        a.runas == b.runas,
        a.uid == b.uid,
        a.harness == b.harness,
        who_a.agent_user == who_b.agent_user,
        who_a.workspace == who_b.workspace,
{
    humans_see_the_request(a, who_a, d);
    humans_see_the_request(b, who_b, e);
}

/// A request shares an envelope with those of the same user, of the same workspace, and of the same
/// command by its digest.
pub proof fn envelopes_are_shared_by_user_and_workspace(
    req: RequestView,
    who: RequesterView,
    d: DecisionView,
)
    ensures
        weighed_next(req, who, d) matches NextView::Approve { key, body, command } ==> {
            &&& key.uid == req.uid
            &&& key.workspace == who.workspace
            &&& key.digest == b64_text(sha256_of(d.normalized))
        },
{
}

proof fn lemma_record_names()
    ensures
        forall|i: int, j: int|
            0 <= i < j < 7 ==> #[trigger] record_names()[i] != #[trigger] record_names()[j],
{
    reveal_strlit("uid");
    reveal_strlit("agent_user");
    reveal_strlit("workspace");
    reveal_strlit("command");
    reveal_strlit("effective");
    reveal_strlit("categories");
    reveal_strlit("workspace_policy_loaded");
    assert("uid"@.len() == 3 && "agent_user"@.len() == 10 && "workspace"@.len() == 9);
    assert("command"@.len() == 7 && "effective"@.len() == 9 && "categories"@.len() == 10);
    assert("workspace_policy_loaded"@.len() == 23);
    assert("agent_user"@[0] == 'a' && "categories"@[0] == 'c');
    assert("workspace"@[0] == 'w' && "effective"@[0] == 'e');
}

spec fn record_names() -> Seq<Seq<char>> {
    seq![
        "uid"@,
        "agent_user"@,
        "workspace"@,
        "command"@,
        "effective"@,
        "categories"@,
        "workspace_policy_loaded"@,
    ]
}

/// Every classified request is recorded first, whatever comes of it: who asked, for what, from where,
/// and what policy made of it.
pub proof fn requests_are_recorded(
    req: RequestView,
    who: RequesterView,
    d: DecisionView,
    policy_loaded: bool,
)
    ensures
        weighed_effects(req, who, d, policy_loaded).len() >= 1,
        weighed_effects(req, who, d, policy_loaded)[0] matches EffectView::Audit { event, fields }
            && {
            &&& event == "request.classified"@
            &&& fields["uid"@] == AuditValueView::Number(req.uid as u64)
            &&& fields["agent_user"@] == AuditValueView::Text(who.agent_user)
            &&& fields["workspace"@] == AuditValueView::Text(who.workspace)
            &&& fields["command"@] == AuditValueView::Text(command_line(req.argv))
            &&& fields["workspace_policy_loaded"@] == AuditValueView::Flag(policy_loaded)
            &&& effective_of(d) == Level::Allow ==> fields["effective"@] == AuditValueView::Text(
                "allow"@,
            )
            &&& effective_of(d) == Level::Notify ==> fields["effective"@] == AuditValueView::Text(
                "notify"@,
            )
            &&& effective_of(d) == Level::Approve ==> fields["effective"@] == AuditValueView::Text(
                "approve"@,
            )
            &&& effective_of(d) == Level::Deny ==> fields["effective"@] == AuditValueView::Text(
                "deny"@,
            )
            &&& d.hardline matches Some(id) ==> fields["categories"@] == AuditValueView::Texts(
                seq![id],
            )
            &&& d.hardline is None ==> (fields["categories"@] matches AuditValueView::Texts(cats)
                && cats.len() == d.hits.len() && forall|i: int|
                0 <= i < d.hits.len() ==> #[trigger] cats[i] == d.hits[i].category)
        },
        effective_of(d) == Level::Notify ==> weighed_effects(req, who, d, policy_loaded).len() == 2
            && weighed_effects(req, who, d, policy_loaded)[1] == EffectView::Print(
            "judo notify: "@ + (who.agent_user + " in "@ + req.cwd + " wants `"@ + command_line(
                req.argv,
            ) + "`"@),
        ),
        effective_of(d) != Level::Notify ==> weighed_effects(req, who, d, policy_loaded).len() == 1,
{
    lemma_record_names();
    let n = record_names();
    assert(n[0] == "uid"@ && n[1] == "agent_user"@ && n[2] == "workspace"@ && n[3] == "command"@);
    assert(n[4] == "effective"@ && n[5] == "categories"@ && n[6] == "workspace_policy_loaded"@);
}

/// A new envelope is recorded, handed to the relay as it was sealed, and its link reaches the human;
/// the requester waits on it.
pub proof fn new_envelopes_reach_relay_and_human(topic: Seq<char>, plan: WaitPlanView)
    ensures
        plan.created matches Some(c) ==> {
            let effects = start_effects(topic, Ok(StartResultView::Wait(plan)));
            &&& effects.len() == 4
            &&& effects[0] matches EffectView::Audit { event, fields } && event
                == "envelope.created"@ && fields["id"@] == AuditValueView::Text(c.id)
                && fields["expires_unix"@] == AuditValueView::Number(c.expires_unix)
            &&& effects[1] == EffectView::Relay(
                DaemonMsgView::CreateEnvelope {
                    id: c.id,
                    ciphertext_b64: c.ciphertext_b64,
                    expires_unix: c.expires_unix,
                },
            )
            &&& effects[2] == EffectView::Print(
                "judo push ["@ + topic + "]: "@ + c.text + "\n"@ + c.link,
            )
            &&& effects[3] matches EffectView::Note { event, fields } && event
                == "notification.sent"@ && fields["topic"@] == AuditValueView::Text(topic)
                && fields["link"@] == AuditValueView::Text(c.link)
        },
        plan.created is None ==> start_effects(topic, Ok(StartResultView::Wait(plan))).len() == 0,
        started_of(Ok(StartResultView::Wait(plan))) == (StartedView::Wait {
            id: plan.id,
            timeout_secs: plan.timeout_secs,
            waiter: plan.waiter,
        }),
{
    lemma_pair_names();
}

/// A request that is answered at once gets that answer, and one that cannot be started fails; nothing
/// is done about either.
pub proof fn answers_at_once_are_passed_on(
    topic: Seq<char>,
    resp: LocalRespView,
    e: ManagerErrorView,
)
    ensures
        started_of(Ok(StartResultView::Immediate(resp))) == StartedView::Answer(resp),
        start_effects(topic, Ok(StartResultView::Immediate(resp))).len() == 0,
        started_of(Err(e)) matches StartedView::Answer(LocalRespView::Failed { .. }),
        start_effects(topic, Err(e)).len() == 0,
{
}

/// The status is what the operator declared, what was found of each trusted workspace, and how much
/// awaits a human.
pub proof fn the_status_is_what_was_found(
    identity: IdentityView,
    relay_connected: bool,
    policy_errors: Seq<Option<Seq<char>>>,
    pending: nat,
)
    requires
        policy_errors.len() == identity.trusted.len(),
        pending <= usize::MAX,
        identity.passkeys.len() <= usize::MAX,
    ensures
        ({
            let s = status_of(identity, relay_connected, policy_errors, pending);
            &&& s.relay_connected == relay_connected
            &&& s.relay_url == identity.relay_url
            &&& s.passkeys == identity.passkeys.len()
            &&& s.humans == identity.humans
            &&& s.pending == pending
            &&& s.workspaces.len() == identity.trusted.len()
            &&& forall|i: int|
                0 <= i < s.workspaces.len() ==> (#[trigger] s.workspaces[i]).dir
                    == identity.trusted[i] && s.workspaces[i].error == policy_errors[i]
                    && s.workspaces[i].ok == (policy_errors[i] is None)
        }),
{
}

} // verus!
