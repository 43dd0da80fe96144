//! What holds of the approval lifecycle, over the transitions that the manager carries out.

use crate::keys::CoalesceKeyView;
use crate::manager::{
    allowed, approved, approved_text, attached, awaits_human, cancelled, cancels, cooldown_text,
    cooled, denied, denied_text, is_open, lemma_without, refused, resolved, timed_out, wf,
    with_envelope, without, AskView, DeliveryView, EnvelopeState, ManagerErrorView, ManagerView,
    ResolveOutcome, StartResultView, WaitPlanView, SECOND,
};
use vstd::prelude::*;

verus! {

/// A key leads to at most one open envelope.
pub proof fn one_open_envelope_per_key(m: ManagerView, a: Seq<char>, b: Seq<char>)
    requires
        wf(m),
        m.envelopes.contains_key(a),
        m.envelopes.contains_key(b),
        is_open(m.envelopes[a]),
        is_open(m.envelopes[b]),
        m.envelopes[a].key == m.envelopes[b].key,
    ensures
        a == b,
{
}

/// A denial refuses the same request until the cooldown is over, without asking again, and no
/// longer.
pub proof fn denials_cool_down(
    m: ManagerView,
    id: Seq<char>,
    approver: Seq<char>,
    cooldown_secs: u64,
    now: u64,
    later: u64,
)
    requires
        wf(m),
        m.envelopes.contains_key(id),
        awaits_human(m.envelopes[id]),
    ensures
        resolved(m, id, ResolveOutcome::Denied, approver, cooldown_secs, now) matches Ok((after, _))
            && ({
            let again = attached(after, m.envelopes[id].key, later);
            if later < now + cooldown_secs * SECOND {
                again == Some(
                    (cooled(after, later), StartResultView::Immediate(refused(cooldown_text()))),
                )
            } else {
                again is None
            }
        }),
{
    let until = now + cooldown_secs * SECOND;
    assert(until <= u128::MAX) by (nonlinear_arith)
        requires
            until == now + cooldown_secs * SECOND,
            SECOND == 1_000_000_000,
            now <= u64::MAX,
            cooldown_secs <= u64::MAX,
    ;
    assert(until >= 0) by (nonlinear_arith)
        requires
            until == now + cooldown_secs * SECOND,
    ;
    let after = denied(m, id, cooldown_secs, now);
    assert(after.cooldowns[m.envelopes[id].key] == until);
}

/// A requester that gave up leaves the request open: nothing cools down, the envelope still awaits
/// a human, and every key leads where it led.
pub proof fn timeouts_deny_nothing(m: ManagerView, id: Seq<char>, waiter: u64)
    requires
        wf(m),
        m.envelopes.contains_key(id),
        awaits_human(m.envelopes[id]),
    ensures
        timed_out(m, id, waiter).cooldowns == m.cooldowns,
        timed_out(m, id, waiter).by_key == m.by_key,
        awaits_human(timed_out(m, id, waiter).envelopes[id]),
        timed_out(m, id, waiter).envelopes[id].state == EnvelopeState::TimedOut,
{
}

/// An approval that comes when nobody waits any more lets the next identical request through, and
/// only that one: the one after it needs a new envelope.
pub proof fn late_approvals_serve_one_retry(
    m: ManagerView,
    id: Seq<char>,
    approver: Seq<char>,
    cooldown_secs: u64,
    now: u64,
    retry: u64,
    next: u64,
)
    requires
        wf(m),
        m.envelopes.contains_key(id),
        awaits_human(m.envelopes[id]),
        m.envelopes[id].waiters.len() == 0,
        !cooled(m, retry).cooldowns.contains_key(m.envelopes[id].key),
        retry <= next,
    ensures
        resolved(m, id, ResolveOutcome::Approved, approver, cooldown_secs, now) matches Ok((after, told))
            && told.len() == 0 && (attached(after, m.envelopes[id].key, retry) matches Some((used, start))
            && start == StartResultView::Immediate(allowed("approved earlier; proceeding"@)) && attached(
            used,
            m.envelopes[id].key,
            next,
        ) is None),
{
}

/// While an envelope awaits a human, an identical request attaches to it: it waits for the same
/// envelope, no second one is made, and nobody is notified again.
pub proof fn retries_attach(m: ManagerView, id: Seq<char>, now: u64)
    requires
        wf(m),
        m.next_waiter < u64::MAX,
        m.envelopes.contains_key(id),
        awaits_human(m.envelopes[id]),
        !cooled(m, now).cooldowns.contains_key(m.envelopes[id].key),
    ensures
        attached(m, m.envelopes[id].key, now) matches Some((after, start)) && start
            == StartResultView::Wait(
            WaitPlanView {
                id,
                timeout_secs: m.envelopes[id].timeout_secs,
                waiter: m.next_waiter,
                created: None,
            },
        ) && after.envelopes.dom() == m.envelopes.dom() && after.envelopes[id].waiters
            == m.envelopes[id].waiters.push(m.next_waiter),
{
    let (after, _) = attached(m, m.envelopes[id].key, now)->0;
    assert(after.envelopes.dom() =~= m.envelopes.dom());
}

/// A new envelope is one that identical requests attach to from then on.
pub proof fn new_envelopes_coalesce(
    m: ManagerView,
    ask: AskView,
    id: Seq<char>,
    ciphertext: Seq<char>,
    now: u64,
)
    requires
        wf(m),
        m.next_waiter < u64::MAX - 1,
        !m.envelopes.contains_key(id),
        !m.by_key.contains_key(ask.key),
        !cooled(m, now).cooldowns.contains_key(ask.key),
    ensures
        attached(with_envelope(m, ask, id, ciphertext), ask.key, now) matches Some((_, start))
            && (start matches StartResultView::Wait(plan) && plan.id == id && plan.created is None),
{
}

/// No request is let through unapproved: where one is let through at once, its key led to an
/// envelope that a human had approved and whose approval was not used up.
pub proof fn nothing_passes_unapproved(
    m: ManagerView,
    key: CoalesceKeyView,
    now: u64,
    message: Seq<char>,
)
    requires
        wf(m),
        attached(m, key, now) matches Some((_, start)) && start == StartResultView::Immediate(
            allowed(message),
        ),
    ensures
        m.by_key.contains_key(key),
        m.envelopes[m.by_key[key]].key == key,
        m.envelopes[m.by_key[key]].state == EnvelopeState::Approved,
        m.envelopes[m.by_key[key]].approval_available,
{
    reveal_strlit("allow");
    reveal_strlit("deny");
    assert("allow"@.len() != "deny"@.len());
}

/// Envelopes that were approved in `after` were approved in `before`, and no approval was gained.
pub open spec fn no_approval_gained(before: ManagerView, after: ManagerView) -> bool {
    forall|id: Seq<char>| #[trigger]
        after.envelopes.contains_key(id) && after.envelopes[id].state == EnvelopeState::Approved
            ==> {
            &&& before.envelopes.contains_key(id)
            &&& before.envelopes[id].state == EnvelopeState::Approved
            &&& after.envelopes[id].approval_available ==> before.envelopes[id].approval_available
        }
}

/// Only a human's approval approves: no request, no timeout, no death of a requester and no denial
/// makes an envelope approved or an approval available.
pub proof fn only_humans_approve(
    m: ManagerView,
    key: CoalesceKeyView,
    ask: AskView,
    id: Seq<char>,
    ciphertext: Seq<char>,
    waiter: u64,
    cooldown_secs: u64,
    now: u64,
)
    requires
        wf(m),
    ensures
        attached(m, key, now) matches Some((after, _)) ==> no_approval_gained(m, after),
        no_approval_gained(m, cooled(m, now)),
        !m.envelopes.contains_key(id) ==> no_approval_gained(
            m,
            with_envelope(m, ask, id, ciphertext),
        ),
        no_approval_gained(m, timed_out(m, id, waiter)),
        no_approval_gained(m, cancelled(m, id, waiter)),
        m.envelopes.contains_key(id) ==> no_approval_gained(
            m,
            denied(m, id, cooldown_secs, now),
        ),
{
}

/// Every requester that waits is answered exactly once: a decision answers all who waited on the
/// envelope, in turn, and afterwards none of them waits anywhere.
pub proof fn waiters_are_answered_once(
    m: ManagerView,
    id: Seq<char>,
    outcome: ResolveOutcome,
    approver: Seq<char>,
    cooldown_secs: u64,
    now: u64,
)
    requires
        wf(m),
        m.envelopes.contains_key(id),
        awaits_human(m.envelopes[id]),
    ensures
        resolved(m, id, outcome, approver, cooldown_secs, now) matches Ok((after, told)) && {
            &&& told.len() == m.envelopes[id].waiters.len()
            &&& forall|i: int|
                0 <= i < told.len() ==> (#[trigger] told[i]).waiter == m.envelopes[id].waiters[i]
                    && told[i].resp == match outcome {
                    ResolveOutcome::Approved => allowed(approved_text(approver)),
                    ResolveOutcome::Denied => refused(denied_text(approver)),
                }
            &&& forall|i: int, j: int|
                0 <= i < j < told.len() ==> (#[trigger] told[i]).waiter != (#[trigger] told[j]).waiter
            &&& forall|i: int, other: Seq<char>|
                #![trigger told[i], after.envelopes[other]]
                0 <= i < told.len() && after.envelopes.contains_key(other)
                    ==> !after.envelopes[other].waiters.contains(told[i].waiter)
        },
{
    let w = m.envelopes[id].waiters;
    let (after, told) = resolved(m, id, outcome, approver, cooldown_secs, now)->Ok_0;
    assert forall|i: int, j: int| 0 <= i < j < told.len() implies (#[trigger] told[i]).waiter != (
    #[trigger] told[j]).waiter by {
        assert(m.envelopes[id].waiters[i] != m.envelopes[id].waiters[j]);
    }
    assert forall|i: int, other: Seq<char>|
        #![trigger told[i], after.envelopes[other]]
        0 <= i < told.len() && after.envelopes.contains_key(other) implies !after.envelopes[other].waiters.contains(
    told[i].waiter) by {
        if after.envelopes[other].waiters.contains(told[i].waiter) {
            let j = choose|j: int|
                0 <= j < after.envelopes[other].waiters.len() && after.envelopes[other].waiters[j]
                    == told[i].waiter;
            assert(other != id);
            assert(m.envelopes[other].waiters[j] == m.envelopes[id].waiters[i]);
        }
    }
}

/// A requester that gave up or died waits no longer.
pub proof fn who_gave_up_waits_no_longer(m: ManagerView, id: Seq<char>, waiter: u64)
    requires
        wf(m),
        m.envelopes.contains_key(id),
    ensures
        !timed_out(m, id, waiter).envelopes[id].waiters.contains(waiter),
        !cancelled(m, id, waiter).envelopes[id].waiters.contains(waiter),
{
    lemma_without(m.envelopes[id].waiters, waiter);
}

/// Envelopes that were used up in `before` are the same in `after`.
pub open spec fn closed_kept(before: ManagerView, after: ManagerView) -> bool {
    forall|id: Seq<char>| #[trigger]
        before.envelopes.contains_key(id) && !is_open(before.envelopes[id]) ==> {
            &&& after.envelopes.contains_key(id)
            &&& after.envelopes[id] == before.envelopes[id]
        }
}

/// What is decided stays decided: an envelope that is used up never changes again, and a decision
/// on one that awaits no human is refused.
pub proof fn closed_envelopes_stay_closed(
    m: ManagerView,
    key: CoalesceKeyView,
    ask: AskView,
    id: Seq<char>,
    ciphertext: Seq<char>,
    waiter: u64,
    outcome: ResolveOutcome,
    approver: Seq<char>,
    cooldown_secs: u64,
    now: u64,
)
    requires
        wf(m),
    ensures
        attached(m, key, now) matches Some((after, _)) ==> closed_kept(m, after),
        !m.envelopes.contains_key(id) ==> closed_kept(m, with_envelope(m, ask, id, ciphertext)),
        closed_kept(m, timed_out(m, id, waiter)),
        closed_kept(m, cancelled(m, id, waiter)),
        resolved(m, id, outcome, approver, cooldown_secs, now) matches Ok((after, _)) ==> closed_kept(
            m,
            after,
        ),
        m.envelopes.contains_key(id) && !awaits_human(m.envelopes[id]) ==> resolved(
            m,
            id,
            outcome,
            approver,
            cooldown_secs,
            now,
        ) == Err::<(ManagerView, Seq<DeliveryView>), ManagerErrorView>(
            ManagerErrorView::ClosedEnvelope { id, state: m.envelopes[id].state },
        ),
{
    assert(closed_kept(m, timed_out(m, id, waiter))) by {
        if m.envelopes.contains_key(id) && !is_open(m.envelopes[id]) {
            let w = m.envelopes[id].waiters;
            assert(without(w, waiter) =~= w) by {
                reveal(Seq::filter);
            }
            assert(timed_out(m, id, waiter).envelopes[id] == m.envelopes[id]);
        }
    }
    assert(closed_kept(m, cancelled(m, id, waiter))) by {
        if m.envelopes.contains_key(id) && !is_open(m.envelopes[id]) {
            let w = m.envelopes[id].waiters;
            assert(without(w, waiter) =~= w) by {
                reveal(Seq::filter);
            }
            assert(cancelled(m, id, waiter).envelopes[id] == m.envelopes[id]);
        }
    }
}

/// A cancelled envelope cannot be approved late: a decision on it is refused, and the next identical
/// request needs an envelope of its own.
pub proof fn cancelled_envelopes_stay_cancelled(
    m: ManagerView,
    id: Seq<char>,
    waiter: u64,
    outcome: ResolveOutcome,
    approver: Seq<char>,
    cooldown_secs: u64,
    now: u64,
)
    requires
        wf(m),
        cancels(m, id, waiter),
    ensures
        resolved(cancelled(m, id, waiter), id, outcome, approver, cooldown_secs, now) == Err::<
            (ManagerView, Seq<DeliveryView>),
            ManagerErrorView,
        >(ManagerErrorView::ClosedEnvelope { id, state: EnvelopeState::Cancelled }),
        !cooled(m, now).cooldowns.contains_key(m.envelopes[id].key) ==> attached(
            cancelled(m, id, waiter),
            m.envelopes[id].key,
            now,
        ) is None,
{
}

/// An envelope leaves the state it is in only along these ways: a pending one is approved, denied,
/// cancelled or timed out, and a timed-out one is approved or denied.
pub open spec fn may_become(before: EnvelopeState, after: EnvelopeState) -> bool {
    ||| after == before
    ||| before == EnvelopeState::Pending
    ||| before == EnvelopeState::TimedOut && (after == EnvelopeState::Approved || after
        == EnvelopeState::Denied)
}

/// Every envelope of `before` is in `after`, in the same state or one that it may come to.
pub open spec fn states_move_on(before: ManagerView, after: ManagerView) -> bool {
    forall|id: Seq<char>| #[trigger]
        before.envelopes.contains_key(id) ==> after.envelopes.contains_key(id) && may_become(
            before.envelopes[id].state,
            after.envelopes[id].state,
        )
}

/// No operation moves an envelope but along the ways of its state.
pub proof fn states_follow_the_ways(
    m: ManagerView,
    key: CoalesceKeyView,
    ask: AskView,
    id: Seq<char>,
    ciphertext: Seq<char>,
    waiter: u64,
    outcome: ResolveOutcome,
    approver: Seq<char>,
    cooldown_secs: u64,
    now: u64,
)
    requires
        wf(m),
    ensures
        attached(m, key, now) matches Some((after, _)) ==> states_move_on(m, after),
        !m.envelopes.contains_key(id) ==> states_move_on(m, with_envelope(m, ask, id, ciphertext)),
        states_move_on(m, timed_out(m, id, waiter)),
        states_move_on(m, cancelled(m, id, waiter)),
        resolved(m, id, outcome, approver, cooldown_secs, now) matches Ok((after, _))
            ==> states_move_on(m, after),
{
}

/// A request touches no envelope of another key: a different command, user or workspace has an
/// envelope of its own.
pub proof fn other_keys_are_left_alone(
    m: ManagerView,
    key: CoalesceKeyView,
    now: u64,
    other: Seq<char>,
)
    requires
        wf(m),
        m.envelopes.contains_key(other),
        m.envelopes[other].key != key,
    ensures
        attached(m, key, now) matches Some((after, _)) ==> after.envelopes.contains_key(other)
            && after.envelopes[other] == m.envelopes[other],
{
}

/// Deadlines after `now` in `before` stand in `after` as they were.
pub open spec fn cooldowns_kept(before: ManagerView, after: ManagerView, now: u64) -> bool {
    forall|k: CoalesceKeyView| #[trigger]
        before.cooldowns.contains_key(k) && before.cooldowns[k] > now ==> {
            &&& after.cooldowns.contains_key(k)
            &&& after.cooldowns[k] == before.cooldowns[k]
        }
}

/// A cooldown lasts: no request, no timeout and no approval ends it before its time, and a denial
/// moves only the one of its own key.
pub proof fn cooldowns_last(
    m: ManagerView,
    key: CoalesceKeyView,
    ask: AskView,
    id: Seq<char>,
    ciphertext: Seq<char>,
    waiter: u64,
    cooldown_secs: u64,
    now: u64,
)
    requires
        wf(m),
    ensures
        attached(m, key, now) matches Some((after, _)) ==> cooldowns_kept(m, after, now),
        cooldowns_kept(m, cooled(m, now), now),
        cooldowns_kept(m, with_envelope(m, ask, id, ciphertext), now),
        cooldowns_kept(m, timed_out(m, id, waiter), now),
        cooldowns_kept(m, cancelled(m, id, waiter), now),
        m.envelopes.contains_key(id) ==> cooldowns_kept(m, approved(m, id), now),
        m.envelopes.contains_key(id) ==> forall|k: CoalesceKeyView|
            k != m.envelopes[id].key && #[trigger] m.cooldowns.contains_key(k) ==> denied(
                m,
                id,
                cooldown_secs,
                now,
            ).cooldowns.contains_key(k) && denied(m, id, cooldown_secs, now).cooldowns[k]
                == m.cooldowns[k],
{
}

} // verus!
