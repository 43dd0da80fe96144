//! What becomes of an envelope, field by field: what a decision changes and whom it answers, what a
//! new envelope holds, and what the lists show.

use crate::keys::CoalesceKeyView;
use crate::manager::{
    attached, awaiting, awaits_human, cancelled, cancels, created, pending_list, replay_list, resolved,
    timed_out, wf, without, AskView, DeliveryView, EnvelopeState, EnvelopeView, ManagerErrorView,
    ManagerView, ResolveOutcome, StartResultView,
};
use crate::proto::{DaemonMsgView, LocalRespView, PendingInfoView};
use vstd::prelude::*;

verus! {

/// Every envelope but one is as it was, and so are the page's address and the next waiter's number.
pub open spec fn others_are_kept(before: ManagerView, after: ManagerView, id: Seq<char>) -> bool {
    &&& forall|other: Seq<char>|
        other != id ==> (#[trigger] after.envelopes.contains_key(other)
            <==> before.envelopes.contains_key(other))
    &&& forall|other: Seq<char>|
        other != id && before.envelopes.contains_key(other) ==> #[trigger] after.envelopes[other]
            == before.envelopes[other]
    &&& after.approval_origin == before.approval_origin
}

/// What an envelope is about stays: only its state, its waiters and its approval may change.
pub open spec fn subject_is_kept(before: EnvelopeView, after: EnvelopeView) -> bool {
    &&& after.id == before.id
    &&& after.key == before.key
    &&& after.body == before.body
    &&& after.command == before.command
    &&& after.ciphertext_b64 == before.ciphertext_b64
    &&& after.created == before.created
    &&& after.expires_unix == before.expires_unix
    &&& after.timeout_secs == before.timeout_secs
}

/// A key has no envelope any longer, and every other key has the one that it had.
pub open spec fn is_freed(before: ManagerView, after: ManagerView, key: CoalesceKeyView) -> bool {
    &&& !after.by_key.contains_key(key)
    &&& forall|k: CoalesceKeyView|
        k != key ==> (#[trigger] after.by_key.contains_key(k) <==> before.by_key.contains_key(k))
            && (before.by_key.contains_key(k) ==> after.by_key[k] == before.by_key[k])
}

/// Each of the waiters is answered, in turn, with a verdict and a message.
pub open spec fn all_answered(
    told: Seq<DeliveryView>,
    waiters: Seq<u64>,
    verdict: Seq<char>,
    message: Seq<char>,
) -> bool {
    &&& told.len() == waiters.len()
    &&& forall|i: int|
        0 <= i < told.len() ==> (#[trigger] told[i]).waiter == waiters[i] && told[i].resp
            == (LocalRespView::Verdict { verdict, message })
}

/// An approval approves: the envelope is approved, everyone who waited is let through and told by
/// whom, and nothing cools down.
pub proof fn approvals_let_through(
    m: ManagerView,
    id: Seq<char>,
    approver: Seq<char>,
    cooldown_secs: u64,
    now: u64,
)
    requires
        m.envelopes.contains_key(id),
        m.envelopes[id].state == EnvelopeState::Pending || m.envelopes[id].state
            == EnvelopeState::TimedOut,
    ensures
        resolved(m, id, ResolveOutcome::Approved, approver, cooldown_secs, now) matches Ok((after, told))
            && {
            &&& after.envelopes.contains_key(id)
            &&& after.envelopes[id].state == EnvelopeState::Approved
            &&& after.envelopes[id].waiters.len() == 0
            &&& after.envelopes[id].approval_available <==> m.envelopes[id].waiters.len() == 0
            &&& subject_is_kept(m.envelopes[id], after.envelopes[id])
            &&& others_are_kept(m, after, id)
            &&& after.cooldowns == m.cooldowns
            &&& after.next_waiter == m.next_waiter
            &&& m.envelopes[id].waiters.len() == 0 ==> after.by_key == m.by_key
            &&& m.envelopes[id].waiters.len() > 0 ==> is_freed(m, after, m.envelopes[id].key)
            &&& all_answered(
                told,
                m.envelopes[id].waiters,
                "allow"@,
                "approved by "@ + approver + "; proceeding"@,
            )
        },
{
}

/// A denial denies: the envelope is denied, everyone who waited is refused and told by whom, and the
/// request's key, and no other, cools down for as long as it should.
pub proof fn denials_refuse(
    m: ManagerView,
    id: Seq<char>,
    approver: Seq<char>,
    cooldown_secs: u64,
    now: u64,
)
    requires
        m.envelopes.contains_key(id),
        m.envelopes[id].state == EnvelopeState::Pending || m.envelopes[id].state
            == EnvelopeState::TimedOut,
    ensures
        resolved(m, id, ResolveOutcome::Denied, approver, cooldown_secs, now) matches Ok((after, told))
            && {
            &&& after.envelopes.contains_key(id)
            &&& after.envelopes[id].state == EnvelopeState::Denied
            &&& after.envelopes[id].waiters.len() == 0
            &&& !after.envelopes[id].approval_available
            &&& subject_is_kept(m.envelopes[id], after.envelopes[id])
            &&& others_are_kept(m, after, id)
            &&& after.cooldowns.contains_key(m.envelopes[id].key)
            &&& after.cooldowns[m.envelopes[id].key] == now + cooldown_secs * 1_000_000_000
            &&& forall|k: CoalesceKeyView|
                k != m.envelopes[id].key ==> (#[trigger] after.cooldowns.contains_key(k)
                    <==> m.cooldowns.contains_key(k)) && (m.cooldowns.contains_key(k)
                    ==> after.cooldowns[k] == m.cooldowns[k])
            &&& after.next_waiter == m.next_waiter
            &&& is_freed(m, after, m.envelopes[id].key)
            &&& all_answered(
                told,
                m.envelopes[id].waiters,
                "deny"@,
                "denied by "@ + approver
                    + " — do not retry; the human explicitly rejected this."@,
            )
        },
{
    let until = now + cooldown_secs * 1_000_000_000;
    assert(0 <= until <= u128::MAX) by (nonlinear_arith)
        requires
            until == now + cooldown_secs * 1_000_000_000,
            now <= u64::MAX,
            cooldown_secs <= u64::MAX,
    ;
}

/// A decision on an envelope that is not there, or that awaits no human, is refused with its id.
pub proof fn idle_decisions_are_refused(
    m: ManagerView,
    id: Seq<char>,
    outcome: ResolveOutcome,
    approver: Seq<char>,
    cooldown_secs: u64,
    now: u64,
)
    requires
        m.envelopes.contains_key(id) ==> m.envelopes[id].state != EnvelopeState::Pending
            && m.envelopes[id].state != EnvelopeState::TimedOut,
    ensures
        resolved(m, id, outcome, approver, cooldown_secs, now) matches Err(e) && if m.envelopes.contains_key(
            id,
        ) {
            e == (ManagerErrorView::ClosedEnvelope { id, state: m.envelopes[id].state })
        } else {
            e == (ManagerErrorView::UnknownEnvelope { id })
        },
{
}

/// A new envelope holds what was asked, waits for a human, and is what the requester waits on. The
/// human's link leads to it and holds the key behind the `#`, and the text shows the summary.
pub proof fn new_envelopes_hold_what_was_asked(
    m: ManagerView,
    ask: AskView,
    id: Seq<char>,
    ciphertext: Seq<char>,
    fragment: Seq<char>,
)
    requires
        !m.envelopes.contains_key(id),
        ask.now_unix + ask.timeout_secs <= u64::MAX,
        m.next_waiter < u64::MAX,
    ensures
        ({
            let (after, start) = created(m, ask, id, ciphertext, fragment);
            let e = after.envelopes[id];
            let link = m.approval_origin + "/a/"@ + id + "#"@ + fragment;
            &&& after.envelopes.contains_key(id)
            &&& e.id == id
            &&& e.key == ask.key
            &&& e.body == ask.body
            &&& e.command == ask.command
            &&& e.ciphertext_b64 == ciphertext
            &&& e.created == ask.now
            &&& e.expires_unix == ask.now_unix + ask.timeout_secs
            &&& e.timeout_secs == ask.timeout_secs
            &&& e.state == EnvelopeState::Pending
            &&& !e.approval_available
            &&& e.waiters == seq![m.next_waiter]
            &&& others_are_kept(m, after, id)
            &&& after.by_key.contains_key(ask.key) && after.by_key[ask.key] == id
            &&& after.cooldowns == m.cooldowns
            &&& after.next_waiter == m.next_waiter + 1
            &&& start matches Ok(StartResultView::Wait(plan)) && {
                &&& plan.id == id
                &&& plan.timeout_secs == ask.timeout_secs
                &&& plan.waiter == m.next_waiter
                &&& plan.created matches Some(c) && {
                    &&& c.id == id
                    &&& c.ciphertext_b64 == ciphertext
                    &&& c.expires_unix == ask.now_unix + ask.timeout_secs
                    &&& c.link == link
                    &&& c.text == "judo approval: "@ + ask.body.summary + "\n"@ + link
                }
            }
        }),
{
}

/// An id is not given twice: a request for one that is taken is refused, and nothing changes.
pub proof fn ids_are_given_once(
    m: ManagerView,
    ask: AskView,
    id: Seq<char>,
    ciphertext: Seq<char>,
    fragment: Seq<char>,
)
    requires
        m.envelopes.contains_key(id),
    ensures
        created(m, ask, id, ciphertext, fragment).0 == m,
        created(m, ask, id, ciphertext, fragment).1 == Err::<StartResultView, _>(
            ManagerErrorView::IdInUse { id },
        ),
{
}

/// Who leaves an envelope that is not there leaves nothing behind.
pub proof fn unknown_envelopes_are_left_alone(m: ManagerView, id: Seq<char>, waiter: u64)
    requires
        !m.envelopes.contains_key(id),
    ensures
        timed_out(m, id, waiter) == m,
        cancelled(m, id, waiter) == m,
        !cancels(m, id, waiter),
{
}

/// A request whose key cools down is refused, and it alone changes nothing but the deadlines that are
/// over.
pub proof fn cooling_requests_are_refused(m: ManagerView, key: CoalesceKeyView, now: u64)
    requires
        m.cooldowns.contains_key(key),
        m.cooldowns[key] > now,
    ensures
        attached(m, key, now) matches Some((after, start)) && {
            &&& start == StartResultView::Immediate(
                LocalRespView::Verdict {
                    verdict: "deny"@,
                    message: "denied by approver — do not retry; the human explicitly rejected this."@,
                },
            )
            &&& after.envelopes == m.envelopes
            &&& after.by_key == m.by_key
            &&& after.next_waiter == m.next_waiter
            &&& after.cooldowns.contains_key(key) && after.cooldowns[key] == m.cooldowns[key]
        },
{
}

/// A request whose key does not cool down is let through by an approval that is left over, which is
/// used up by it; waits on the envelope of its key, where that awaits a human; or needs a new one.
pub proof fn requests_find_their_envelope(m: ManagerView, key: CoalesceKeyView, now: u64)
    requires
        wf(m),
        m.next_waiter < u64::MAX,
        m.cooldowns.contains_key(key) ==> m.cooldowns[key] <= now,
    ensures
        !m.by_key.contains_key(key) ==> attached(m, key, now) is None,
        m.by_key.contains_key(key) ==> (attached(m, key, now) matches Some((after, start)) && {
            let id = m.by_key[key];
            let e = m.envelopes[id];
            &&& others_are_kept(m, after, id)
            &&& subject_is_kept(e, after.envelopes[id])
            &&& after.envelopes[id].state == e.state
            &&& e.state == EnvelopeState::Approved ==> {
                &&& start == StartResultView::Immediate(
                    LocalRespView::Verdict {
                        verdict: "allow"@,
                        message: "approved earlier; proceeding"@,
                    },
                )
                &&& !after.envelopes[id].approval_available
                &&& is_freed(m, after, key)
                &&& after.next_waiter == m.next_waiter
            }
            &&& e.state != EnvelopeState::Approved ==> {
                &&& start matches StartResultView::Wait(plan) && plan.id == id && plan.waiter
                    == m.next_waiter && plan.timeout_secs == e.timeout_secs && plan.created is None
                &&& after.envelopes[id].waiters == e.waiters.push(m.next_waiter)
                &&& after.next_waiter == m.next_waiter + 1
                &&& after.by_key == m.by_key
            }
        }),
{
}

/// A requester that gives up leaves the others waiting, and the envelope for a late approval.
pub proof fn giving_up_leaves_the_rest(m: ManagerView, id: Seq<char>, waiter: u64, other: u64)
    requires
        m.envelopes.contains_key(id),
    ensures
        ({
            let before = m.envelopes[id];
            let after = timed_out(m, id, waiter);
            let e = after.envelopes[id];
            &&& before.state == EnvelopeState::Pending ==> e.state == EnvelopeState::TimedOut
            &&& before.state != EnvelopeState::Pending ==> e.state == before.state
            &&& e.approval_available == before.approval_available
            &&& subject_is_kept(before, e)
            &&& others_are_kept(m, after, id)
            &&& after.by_key == m.by_key && after.cooldowns == m.cooldowns
            &&& after.next_waiter == m.next_waiter
            &&& !e.waiters.contains(waiter)
            &&& other != waiter ==> (e.waiters.contains(other) <==> before.waiters.contains(other))
        }),
        timed_out(m, id, waiter).envelopes.dom() == m.envelopes.dom(),
{
    lemma_without_members(m.envelopes[id].waiters, waiter, other);
    assert(timed_out(m, id, waiter).envelopes.dom() =~= m.envelopes.dom());
}

/// A requester that dies leaves the others waiting; where nobody else waits, a pending envelope is
/// cancelled and its key is free.
pub proof fn dying_leaves_the_rest(m: ManagerView, id: Seq<char>, waiter: u64, other: u64)
    requires
        m.envelopes.contains_key(id),
    ensures
        ({
            let before = m.envelopes[id];
            let after = cancelled(m, id, waiter);
            let e = after.envelopes[id];
            &&& before.state == EnvelopeState::Pending && before.waiters == seq![waiter]
                ==> e.state == EnvelopeState::Cancelled && is_freed(m, after, before.key)
            &&& cancels(m, id, waiter) <==> e.state == EnvelopeState::Cancelled && before.state
                == EnvelopeState::Pending
            &&& before.state != EnvelopeState::Pending || (other != waiter
                && before.waiters.contains(other)) ==> e.state == before.state && after.by_key
                == m.by_key
            &&& e.approval_available == before.approval_available
            &&& subject_is_kept(before, e)
            &&& others_are_kept(m, after, id)
            &&& after.cooldowns == m.cooldowns
            &&& after.next_waiter == m.next_waiter
            &&& !e.waiters.contains(waiter)
            &&& other != waiter ==> (e.waiters.contains(other) <==> before.waiters.contains(other))
        }),
{
    lemma_without_members(m.envelopes[id].waiters, waiter, other);
    let left = without(m.envelopes[id].waiters, waiter);
    if left.len() > 0 {
        lemma_without_members(m.envelopes[id].waiters, waiter, left[0]);
        assert(left.contains(left[0]));
        if m.envelopes[id].waiters == seq![waiter] {
            let i = choose|i: int| 0 <= i < 1 && m.envelopes[id].waiters[i] == left[0];
        }
    }
}

proof fn lemma_without_members(s: Seq<u64>, w: u64, x: u64)
    ensures
        without(s, w).contains(x) <==> s.contains(x) && x != w,
        !without(s, w).contains(w),
{
    broadcast use vstd::seq_lib::group_filter_ensures;

    let keep = crate::manager::other_than(w);
    if without(s, w).contains(x) {
        s.lemma_filter_contains_rev(keep, x);
        let i = choose|i: int| 0 <= i < without(s, w).len() && without(s, w)[i] == x;
        assert(keep(s.filter(keep)[i]));
    }
    if without(s, w).contains(w) {
        let i = choose|i: int| 0 <= i < without(s, w).len() && without(s, w)[i] == w;
        assert(keep(s.filter(keep)[i]));
    }
    if s.contains(x) && x != w {
        let i = choose|i: int| 0 <= i < s.len() && s[i] == x;
        assert(keep(s[i]));
    }
}

/// Whether an entry of the list shows an envelope as it is.
pub open spec fn shows(info: PendingInfoView, e: EnvelopeView, now: u64) -> bool {
    &&& info.id == e.id
    &&& info.agent_user == e.body.agent_user
    &&& info.categories == e.body.categories
    &&& info.command == e.command
    &&& e.state == EnvelopeState::Pending ==> info.state == "pending"@
    &&& e.state == EnvelopeState::TimedOut ==> info.state == "timed_out"@
    &&& now >= e.created ==> info.age_secs * 1_000_000_000 <= now - e.created < (info.age_secs + 1)
        * 1_000_000_000
    &&& now < e.created ==> info.age_secs == 0
}

/// Exactly the envelopes that await a human are listed, each as it is.
pub proof fn the_list_shows_what_awaits(
    ids: Seq<Seq<char>>,
    envelopes: Map<Seq<char>, EnvelopeView>,
    now: u64,
    k: int,
)
    ensures
        0 <= k < pending_list(ids, envelopes, now).len() ==> exists|i: int|
            0 <= i < ids.len() && shows(
                pending_list(ids, envelopes, now)[k],
                envelopes[#[trigger] ids[i]],
                now,
            ) && (envelopes[ids[i]].state == EnvelopeState::Pending || envelopes[ids[i]].state
                == EnvelopeState::TimedOut),
        0 <= k < ids.len() && (envelopes[ids[k]].state == EnvelopeState::Pending
            || envelopes[ids[k]].state == EnvelopeState::TimedOut) ==> exists|i: int|
            0 <= i < pending_list(ids, envelopes, now).len() && shows(
                #[trigger] pending_list(ids, envelopes, now)[i],
                envelopes[ids[k]],
                now,
            ),
{
    broadcast use vstd::seq_lib::group_filter_ensures;

    let keep = |id: Seq<char>| awaits_human(envelopes[id]);
    let left = awaiting(ids, envelopes);
    let list = pending_list(ids, envelopes, now);
    if 0 <= k < list.len() {
        assert(left.contains(left[k]));
        ids.lemma_filter_contains_rev(keep, left[k]);
        assert(keep(ids.filter(keep)[k]));
        let i = choose|i: int| 0 <= i < ids.len() && ids[i] == left[k];
        lemma_age(envelopes[left[k]].created, now);
        assert(shows(list[k], envelopes[ids[i]], now));
    }
    if 0 <= k < ids.len() && awaits_human(envelopes[ids[k]]) {
        assert(keep(ids[k]));
        assert(left.contains(ids[k]));
        let i = choose|i: int| 0 <= i < left.len() && left[i] == ids[k];
        lemma_age(envelopes[left[i]].created, now);
        assert(shows(list[i], envelopes[ids[k]], now));
    }
}

proof fn lemma_age(created: u64, now: u64)
    ensures
        now >= created ==> {
            let age = (now - created) / 1_000_000_000;
            &&& 0 <= age <= u64::MAX
            &&& age * 1_000_000_000 <= now - created < (age + 1) * 1_000_000_000
        },
{
}

/// Exactly the envelopes that await a human are told to the relay again, each with its own ciphertext
/// and expiry.
pub proof fn what_awaits_is_replayed(
    ids: Seq<Seq<char>>,
    envelopes: Map<Seq<char>, EnvelopeView>,
    k: int,
)
    ensures
        0 <= k < replay_list(ids, envelopes).len() ==> exists|i: int|
            0 <= i < ids.len() && replay_list(ids, envelopes)[k] == (
            DaemonMsgView::CreateEnvelope {
                id: envelopes[#[trigger] ids[i]].id,
                ciphertext_b64: envelopes[ids[i]].ciphertext_b64,
                expires_unix: envelopes[ids[i]].expires_unix,
            }) && (envelopes[ids[i]].state == EnvelopeState::Pending || envelopes[ids[i]].state
                == EnvelopeState::TimedOut),
        0 <= k < ids.len() && (envelopes[ids[k]].state == EnvelopeState::Pending
            || envelopes[ids[k]].state == EnvelopeState::TimedOut) ==> exists|i: int|
            0 <= i < replay_list(ids, envelopes).len() && #[trigger] replay_list(ids, envelopes)[i]
                == (DaemonMsgView::CreateEnvelope {
                id: envelopes[ids[k]].id,
                ciphertext_b64: envelopes[ids[k]].ciphertext_b64,
                expires_unix: envelopes[ids[k]].expires_unix,
            }),
{
    broadcast use vstd::seq_lib::group_filter_ensures;

    let keep = |id: Seq<char>| awaits_human(envelopes[id]);
    let left = awaiting(ids, envelopes);
    let list = replay_list(ids, envelopes);
    if 0 <= k < list.len() {
        assert(left.contains(left[k]));
        ids.lemma_filter_contains_rev(keep, left[k]);
        assert(keep(ids.filter(keep)[k]));
        let i = choose|i: int| 0 <= i < ids.len() && ids[i] == left[k];
        assert(list[k] == crate::manager::create_msg(envelopes[ids[i]]));
    }
    if 0 <= k < ids.len() && awaits_human(envelopes[ids[k]]) {
        assert(keep(ids[k]));
        assert(left.contains(ids[k]));
        let i = choose|i: int| 0 <= i < left.len() && left[i] == ids[k];
        assert(list[i] == crate::manager::create_msg(envelopes[ids[k]]));
    }
}

} // verus!
