//! The lifecycle of approval envelopes: coalescing, verdicts, timeouts and the cooldown after a
//! denial. Time is handed in: `now` is a monotonic clock in nanoseconds.

use crate::config;
use crate::config::{rp_of, url_parts, ConfigError};
use crate::crypto;
use crate::crypto::{is_sealing, opened, sealable, CryptoErrorView};
use crate::keys::{deadlines_after, CoalesceKey, CoalesceKeyView, KeyTable};
use crate::proto::{
    DaemonMsg, DaemonMsgView, EnvelopeBody, EnvelopeBodyView, LocalResp, LocalRespView, PendingInfo,
    PendingInfoView,
};
use crate::table::{ascending, StrMap};
use crate::text;
use ulid::Ulid;
use vstd::prelude::*;

verus! {

/// The nanoseconds in a second.
pub const SECOND: u64 = 1_000_000_000;

/// Where an envelope stands.
#[derive(Debug, Clone, Copy, PartialEq, Eq, Structural)]
pub enum EnvelopeState {
    Pending,
    Approved,
    Denied,
    /// The requester gave up waiting; a human may still approve the retry.
    TimedOut,
    /// The requester died; nothing can be approved any more.
    Cancelled,
}

/// The name of a state.
pub open spec fn state_name(s: EnvelopeState) -> Seq<char> {
    match s {
        EnvelopeState::Pending => "pending"@,
        EnvelopeState::Approved => "approved"@,
        EnvelopeState::Denied => "denied"@,
        EnvelopeState::TimedOut => "timed_out"@,
        EnvelopeState::Cancelled => "cancelled"@,
    }
}

impl EnvelopeState {
    pub fn as_str(self) -> (r: &'static str)
        ensures
            r@ == state_name(self),
    {
        match self {
            EnvelopeState::Pending => "pending",
            EnvelopeState::Approved => "approved",
            EnvelopeState::Denied => "denied",
            EnvelopeState::TimedOut => "timed_out",
            EnvelopeState::Cancelled => "cancelled",
        }
    }
}

/// One request for approval, with the requesters that wait on it.
pub struct Envelope {
    pub id: String,
    pub key: CoalesceKey,
    pub body: EnvelopeBody,
    pub command: String,
    pub ciphertext_b64: String,
    /// When it was created, on the monotonic clock.
    pub created: u64,
    pub expires_unix: u64,
    pub timeout_secs: u64,
    pub state: EnvelopeState,
    /// It was approved while nobody waited, and the approval is not used up.
    pub approval_available: bool,
    /// The requesters that wait.
    pub waiters: Vec<u64>,
}

pub struct EnvelopeView {
    pub id: Seq<char>,
    pub key: CoalesceKeyView,
    pub body: EnvelopeBodyView,
    pub command: Seq<char>,
    pub ciphertext_b64: Seq<char>,
    pub created: u64,
    pub expires_unix: u64,
    pub timeout_secs: u64,
    pub state: EnvelopeState,
    pub approval_available: bool,
    pub waiters: Seq<u64>,
}

impl DeepView for Envelope {
    type V = EnvelopeView;

    open spec fn deep_view(&self) -> EnvelopeView {
        EnvelopeView {
            id: self.id@,
            key: self.key.deep_view(),
            body: self.body.deep_view(),
            command: self.command@,
            ciphertext_b64: self.ciphertext_b64@,
            created: self.created,
            expires_unix: self.expires_unix,
            timeout_secs: self.timeout_secs,
            state: self.state,
            approval_available: self.approval_available,
            waiters: self.waiters@,
        }
    }
}

/// An envelope that still awaits a human: pending, or timed out and late-approvable.
pub open spec fn awaits_human(e: EnvelopeView) -> bool {
    e.state == EnvelopeState::Pending || e.state == EnvelopeState::TimedOut
}

/// An envelope that is not used up: it awaits a human, or its approval awaits a retry.
pub open spec fn is_open(e: EnvelopeView) -> bool {
    awaits_human(e) || (e.state == EnvelopeState::Approved && e.approval_available)
}

/// What a manager keeps: all envelopes, which of them a key leads to, and the keys that are cooling
/// down.
struct Book {
    envelopes: StrMap<Envelope>,
    by_key: KeyTable<String>,
    cooldowns: KeyTable<u128>,
    approval_origin: String,
    next_waiter: u64,
}

#[verifier::ext_equal]
pub struct ManagerView {
    pub envelopes: Map<Seq<char>, EnvelopeView>,
    pub by_key: Map<CoalesceKeyView, Seq<char>>,
    /// Until when, on the monotonic clock, a key's requests are refused.
    pub cooldowns: Map<CoalesceKeyView, u128>,
    pub approval_origin: Seq<char>,
    /// The number that the next requester gets.
    pub next_waiter: u64,
}

impl View for Book {
    type V = ManagerView;

    closed spec fn view(&self) -> ManagerView {
        ManagerView {
            envelopes: self.envelopes@.map_values(|e: Envelope| e.deep_view()),
            by_key: self.by_key@.map_values(|s: String| s@),
            cooldowns: self.cooldowns@,
            approval_origin: self.approval_origin@,
            next_waiter: self.next_waiter,
        }
    }
}

/// What every manager keeps: each envelope stands at its id; a key leads to exactly the open
/// envelope of that key; only envelopes that await a human have waiters; and no waiter waits
/// twice.
pub open spec fn wf(m: ManagerView) -> bool {
    &&& forall|id: Seq<char>| #[trigger]
        m.envelopes.contains_key(id) ==> {
            &&& m.envelopes[id].id == id
            &&& is_open(m.envelopes[id]) ==> m.by_key.contains_key(m.envelopes[id].key)
                && m.by_key[m.envelopes[id].key] == id
            &&& !awaits_human(m.envelopes[id]) ==> m.envelopes[id].waiters.len() == 0
        }
    &&& forall|k: CoalesceKeyView| #[trigger]
        m.by_key.contains_key(k) ==> {
            &&& m.envelopes.contains_key(m.by_key[k])
            &&& m.envelopes[m.by_key[k]].key == k
            &&& is_open(m.envelopes[m.by_key[k]])
        }
    &&& waiters_differ(m)
}

/// Every waiter has a number of its own, below the next one.
pub open spec fn waiters_differ(m: ManagerView) -> bool {
    &&& forall|id: Seq<char>, i: int|
        #![trigger m.envelopes[id].waiters[i]]
        m.envelopes.contains_key(id) && 0 <= i < m.envelopes[id].waiters.len()
            ==> m.envelopes[id].waiters[i] < m.next_waiter
    &&& forall|a: Seq<char>, i: int, b: Seq<char>, j: int|
        #![trigger m.envelopes[a].waiters[i], m.envelopes[b].waiters[j]]
        m.envelopes.contains_key(a) && 0 <= i < m.envelopes[a].waiters.len()
            && m.envelopes.contains_key(b) && 0 <= j < m.envelopes[b].waiters.len()
            && m.envelopes[a].waiters[i] == m.envelopes[b].waiters[j] ==> a == b && i == j
}

/// A new envelope, as the relay and the human are told of it.
#[derive(Debug, PartialEq, Eq)]
pub struct CreatedEnvelope {
    pub id: String,
    pub ciphertext_b64: String,
    pub expires_unix: u64,
    pub text: String,
    pub link: String,
}

pub struct CreatedEnvelopeView {
    pub id: Seq<char>,
    pub ciphertext_b64: Seq<char>,
    pub expires_unix: u64,
    pub text: Seq<char>,
    pub link: Seq<char>,
}

impl DeepView for CreatedEnvelope {
    type V = CreatedEnvelopeView;

    open spec fn deep_view(&self) -> CreatedEnvelopeView {
        CreatedEnvelopeView {
            id: self.id@,
            ciphertext_b64: self.ciphertext_b64@,
            expires_unix: self.expires_unix,
            text: self.text@,
            link: self.link@,
        }
    }
}

/// What a requester waits for, and how long.
#[derive(Debug, PartialEq, Eq)]
pub struct WaitPlan {
    pub id: String,
    pub timeout_secs: u64,
    /// The number under which the answer is delivered.
    pub waiter: u64,
    /// The envelope, if the request made a new one.
    pub created: Option<CreatedEnvelope>,
}

pub struct WaitPlanView {
    pub id: Seq<char>,
    pub timeout_secs: u64,
    pub waiter: u64,
    pub created: Option<CreatedEnvelopeView>,
}

impl DeepView for WaitPlan {
    type V = WaitPlanView;

    open spec fn deep_view(&self) -> WaitPlanView {
        WaitPlanView {
            id: self.id@,
            timeout_secs: self.timeout_secs,
            waiter: self.waiter,
            created: self.created.deep_view(),
        }
    }
}

/// How a request for approval starts out.
#[derive(Debug, PartialEq, Eq)]
pub enum StartResult {
    Immediate(LocalResp),
    Wait(WaitPlan),
}

pub enum StartResultView {
    Immediate(LocalRespView),
    Wait(WaitPlanView),
}

impl DeepView for StartResult {
    type V = StartResultView;

    open spec fn deep_view(&self) -> StartResultView {
        match self {
            StartResult::Immediate(resp) => StartResultView::Immediate(resp.deep_view()),
            StartResult::Wait(plan) => StartResultView::Wait(plan.deep_view()),
        }
    }
}

/// What a human decided.
#[derive(Debug, Clone, Copy, PartialEq, Eq, Structural)]
pub enum ResolveOutcome {
    Approved,
    Denied,
}

/// Why the manager refuses.
#[derive(Debug, PartialEq, Eq)]
pub enum ManagerError {
    UnknownEnvelope { id: String },
    /// The envelope has been decided, or cancelled.
    ClosedEnvelope { id: String, state: EnvelopeState },
    /// The id that was drawn belongs to an envelope already.
    IdInUse { id: String },
    /// The body cannot be sealed.
    NotSealed,
    /// No number is left for another requester.
    NoWaiterLeft,
}

pub enum ManagerErrorView {
    UnknownEnvelope { id: Seq<char> },
    ClosedEnvelope { id: Seq<char>, state: EnvelopeState },
    IdInUse { id: Seq<char> },
    NotSealed,
    NoWaiterLeft,
}

impl DeepView for ManagerError {
    type V = ManagerErrorView;

    open spec fn deep_view(&self) -> ManagerErrorView {
        match self {
            ManagerError::UnknownEnvelope { id } => ManagerErrorView::UnknownEnvelope { id: id@ },
            ManagerError::ClosedEnvelope { id, state } => ManagerErrorView::ClosedEnvelope {
                id: id@,
                state: *state,
            },
            ManagerError::IdInUse { id } => ManagerErrorView::IdInUse { id: id@ },
            ManagerError::NotSealed => ManagerErrorView::NotSealed,
            ManagerError::NoWaiterLeft => ManagerErrorView::NoWaiterLeft,
        }
    }
}

/// The text of a refusal.
pub open spec fn manager_error_text(e: ManagerErrorView) -> Seq<char> {
    match e {
        ManagerErrorView::UnknownEnvelope { id } => "unknown envelope "@ + id,
        ManagerErrorView::ClosedEnvelope { id, state } => "envelope "@ + id + " is already "@
            + state_name(state),
        ManagerErrorView::IdInUse { id } => "envelope id "@ + id + " is already in use"@,
        ManagerErrorView::NotSealed => "envelope encryption failed"@,
        ManagerErrorView::NoWaiterLeft => "too many requests"@,
    }
}

impl ManagerError {
    /// The text of the refusal.
    pub fn message(&self) -> (r: String)
        ensures
            r@ == manager_error_text(self.deep_view()),
    {
        match self {
            ManagerError::UnknownEnvelope { id } => text::cat2("unknown envelope ", id.as_str()),
            ManagerError::ClosedEnvelope { id, state } => text::cat4(
                "envelope ",
                id.as_str(),
                " is already ",
                state.as_str(),
            ),
            ManagerError::IdInUse { id } => text::cat3(
                "envelope id ",
                id.as_str(),
                " is already in use",
            ),
            ManagerError::NotSealed => "envelope encryption failed".to_owned(),
            ManagerError::NoWaiterLeft => "too many requests".to_owned(),
        }
    }
}

/// A verdict that lets the command proceed.
pub open spec fn allowed(message: Seq<char>) -> LocalRespView {
    LocalRespView::Verdict { verdict: "allow"@, message }
}

/// A verdict that refuses the command.
pub open spec fn refused(message: Seq<char>) -> LocalRespView {
    LocalRespView::Verdict { verdict: "deny"@, message }
}

pub(crate) fn verdict(word: &str, message: String) -> (r: LocalResp)
    ensures
        r.deep_view() == (LocalRespView::Verdict { verdict: word@, message: message@ }),
{
    LocalResp::Verdict { verdict: word.to_owned(), message }
}

/// What a requester is told while a denial cools down.
pub open spec fn cooldown_text() -> Seq<char> {
    "denied by approver — do not retry; the human explicitly rejected this."@
}

/// What waiting requesters are told of an approval.
pub open spec fn approved_text(approver: Seq<char>) -> Seq<char> {
    "approved by "@ + approver + "; proceeding"@
}

/// What waiting requesters are told of a denial.
pub open spec fn denied_text(approver: Seq<char>) -> Seq<char> {
    "denied by "@ + approver
        + " — do not retry; the human explicitly rejected this."@
}

/// The manager with the cooldowns that are over forgotten.
pub open spec fn cooled(m: ManagerView, now: u64) -> ManagerView {
    ManagerView { cooldowns: deadlines_after(m.cooldowns, now as int), ..m }
}

/// What a request comes to without a new envelope: refused while its key cools down, let through
/// by an earlier approval, or attached to the open envelope of its key. `None` where a new
/// envelope is needed.
pub open spec fn attached(m: ManagerView, key: CoalesceKeyView, now: u64) -> Option<
    (ManagerView, StartResultView),
> {
    let c = cooled(m, now);
    if c.cooldowns.contains_key(key) {
        Some((c, StartResultView::Immediate(refused(cooldown_text()))))
    } else if c.by_key.contains_key(key) {
        let id = c.by_key[key];
        let e = c.envelopes[id];
        if e.state == EnvelopeState::Approved && e.approval_available {
            Some(
                (
                    ManagerView {
                        envelopes: c.envelopes.insert(
                            id,
                            EnvelopeView { approval_available: false, ..e },
                        ),
                        by_key: c.by_key.remove(key),
                        ..c
                    },
                    StartResultView::Immediate(allowed("approved earlier; proceeding"@)),
                ),
            )
        } else {
            Some(
                (
                    ManagerView {
                        envelopes: c.envelopes.insert(
                            id,
                            EnvelopeView { waiters: e.waiters.push(c.next_waiter), ..e },
                        ),
                        next_waiter: (c.next_waiter + 1) as u64,
                        ..c
                    },
                    StartResultView::Wait(
                        WaitPlanView {
                            id,
                            timeout_secs: e.timeout_secs,
                            waiter: c.next_waiter,
                            created: None,
                        },
                    ),
                ),
            )
        }
    } else {
        None
    }
}

/// What a request for approval is about.
pub struct AskView {
    pub key: CoalesceKeyView,
    pub body: EnvelopeBodyView,
    pub command: Seq<char>,
    pub timeout_secs: u64,
    /// The monotonic clock.
    pub now: u64,
    /// The wall clock, in seconds.
    pub now_unix: u64,
}

/// The link to an envelope's approval page; the fragment holds the key that opens it.
pub open spec fn approval_link(origin: Seq<char>, id: Seq<char>, fragment: Seq<char>) -> Seq<char> {
    origin + "/a/"@ + id + "#"@ + fragment
}

/// What the human is told of a new envelope.
pub open spec fn approval_text(summary: Seq<char>, link: Seq<char>) -> Seq<char> {
    "judo approval: "@ + summary + "\n"@ + link
}

/// The envelope of a new request.
pub open spec fn new_envelope(
    m: ManagerView,
    ask: AskView,
    id: Seq<char>,
    ciphertext: Seq<char>,
) -> EnvelopeView {
    EnvelopeView {
        id,
        key: ask.key,
        body: ask.body,
        command: ask.command,
        ciphertext_b64: ciphertext,
        created: ask.now,
        expires_unix: (ask.now_unix + ask.timeout_secs) as u64,
        timeout_secs: ask.timeout_secs,
        state: EnvelopeState::Pending,
        approval_available: false,
        waiters: seq![m.next_waiter],
    }
}

/// The manager with a new envelope.
pub open spec fn with_envelope(
    m: ManagerView,
    ask: AskView,
    id: Seq<char>,
    ciphertext: Seq<char>,
) -> ManagerView {
    ManagerView {
        envelopes: m.envelopes.insert(id, new_envelope(m, ask, id, ciphertext)),
        by_key: m.by_key.insert(ask.key, id),
        next_waiter: (m.next_waiter + 1) as u64,
        ..m
    }
}

/// How a request with a new envelope starts out.
pub open spec fn created_plan(
    m: ManagerView,
    ask: AskView,
    id: Seq<char>,
    ciphertext: Seq<char>,
    fragment: Seq<char>,
) -> StartResultView {
    let link = approval_link(m.approval_origin, id, fragment);
    StartResultView::Wait(
        WaitPlanView {
            id,
            timeout_secs: ask.timeout_secs,
            waiter: m.next_waiter,
            created: Some(
                CreatedEnvelopeView {
                    id,
                    ciphertext_b64: ciphertext,
                    expires_unix: (ask.now_unix + ask.timeout_secs) as u64,
                    text: approval_text(ask.body.summary, link),
                    link,
                },
            ),
        },
    )
}

/// A request whose envelope got this id and was sealed to this ciphertext and fragment.
pub open spec fn created(
    m: ManagerView,
    ask: AskView,
    id: Seq<char>,
    ciphertext: Seq<char>,
    fragment: Seq<char>,
) -> (ManagerView, Result<StartResultView, ManagerErrorView>) {
    if m.envelopes.contains_key(id) {
        (m, Err(ManagerErrorView::IdInUse { id }))
    } else {
        (
            with_envelope(m, ask, id, ciphertext),
            Ok(created_plan(m, ask, id, ciphertext, fragment)),
        )
    }
}

/// The view of how a request starts out.
pub open spec fn start_view(r: Result<StartResult, ManagerError>) -> Result<
    StartResultView,
    ManagerErrorView,
> {
    match r {
        Ok(s) => Ok(s.deep_view()),
        Err(e) => Err(e.deep_view()),
    }
}

/// An answer for one waiting requester.
#[derive(Debug, PartialEq, Eq)]
pub struct Delivery {
    pub waiter: u64,
    pub resp: LocalResp,
}

pub struct DeliveryView {
    pub waiter: u64,
    pub resp: LocalRespView,
}

impl DeepView for Delivery {
    type V = DeliveryView;

    open spec fn deep_view(&self) -> DeliveryView {
        DeliveryView { waiter: self.waiter, resp: self.resp.deep_view() }
    }
}

/// The same answer for each waiter.
pub open spec fn answers(waiters: Seq<u64>, resp: LocalRespView) -> Seq<DeliveryView> {
    waiters.map_values(|w: u64| DeliveryView { waiter: w, resp })
}

/// An approved envelope: its waiters get the approval, or it awaits the retry where nobody waits.
pub open spec fn approved(m: ManagerView, id: Seq<char>) -> ManagerView {
    let e = m.envelopes[id];
    ManagerView {
        envelopes: m.envelopes.insert(
            id,
            EnvelopeView {
                state: EnvelopeState::Approved,
                approval_available: e.waiters.len() == 0,
                waiters: Seq::empty(),
                ..e
            },
        ),
        by_key: if e.waiters.len() == 0 {
            m.by_key
        } else {
            m.by_key.remove(e.key)
        },
        ..m
    }
}

/// A denied envelope: its key cools down.
pub open spec fn denied(m: ManagerView, id: Seq<char>, cooldown_secs: u64, now: u64) -> ManagerView {
    let e = m.envelopes[id];
    ManagerView {
        envelopes: m.envelopes.insert(
            id,
            EnvelopeView {
                state: EnvelopeState::Denied,
                approval_available: false,
                waiters: Seq::empty(),
                ..e
            },
        ),
        by_key: m.by_key.remove(e.key),
        cooldowns: m.cooldowns.insert(e.key, (now + cooldown_secs * SECOND) as u128),
        ..m
    }
}

/// What a human's decision comes to: the manager after it, and who is told what.
pub open spec fn resolved(
    m: ManagerView,
    id: Seq<char>,
    outcome: ResolveOutcome,
    approver: Seq<char>,
    cooldown_secs: u64,
    now: u64,
) -> Result<(ManagerView, Seq<DeliveryView>), ManagerErrorView> {
    if !m.envelopes.contains_key(id) {
        Err(ManagerErrorView::UnknownEnvelope { id })
    } else if !awaits_human(m.envelopes[id]) {
        Err(ManagerErrorView::ClosedEnvelope { id, state: m.envelopes[id].state })
    } else {
        let waiters = m.envelopes[id].waiters;
        match outcome {
            ResolveOutcome::Approved => Ok(
                (approved(m, id), answers(waiters, allowed(approved_text(approver)))),
            ),
            ResolveOutcome::Denied => Ok(
                (
                    denied(m, id, cooldown_secs, now),
                    answers(waiters, refused(denied_text(approver))),
                ),
            ),
        }
    }
}

/// Everything but `w`.
pub open spec fn other_than(w: u64) -> spec_fn(u64) -> bool {
    |x: u64| x != w
}

/// `s` without `w`.
pub open spec fn without(s: Seq<u64>, w: u64) -> Seq<u64> {
    s.filter(other_than(w))
}

/// A requester that gave up: it waits no longer, and a pending envelope becomes late-approvable.
pub open spec fn timed_out(m: ManagerView, id: Seq<char>, waiter: u64) -> ManagerView {
    if m.envelopes.contains_key(id) {
        let e = m.envelopes[id];
        ManagerView {
            envelopes: m.envelopes.insert(
                id,
                EnvelopeView {
                    state: if e.state == EnvelopeState::Pending {
                        EnvelopeState::TimedOut
                    } else {
                        e.state
                    },
                    waiters: without(e.waiters, waiter),
                    ..e
                },
            ),
            ..m
        }
    } else {
        m
    }
}

/// Whether a requester's death leaves nobody to ask for: it was the last one that waited on a
/// pending envelope.
pub open spec fn deserted(e: EnvelopeView, waiter: u64) -> bool {
    e.state == EnvelopeState::Pending && e.waiters.len() > 0 && without(e.waiters, waiter).len()
        == 0
}

/// A requester that died: it waits no longer, and where nobody is left the envelope is cancelled.
pub open spec fn cancelled(m: ManagerView, id: Seq<char>, waiter: u64) -> ManagerView {
    if m.envelopes.contains_key(id) {
        let e = m.envelopes[id];
        ManagerView {
            envelopes: m.envelopes.insert(
                id,
                EnvelopeView {
                    state: if deserted(e, waiter) {
                        EnvelopeState::Cancelled
                    } else {
                        e.state
                    },
                    waiters: without(e.waiters, waiter),
                    ..e
                },
            ),
            by_key: if deserted(e, waiter) {
                m.by_key.remove(e.key)
            } else {
                m.by_key
            },
            ..m
        }
    } else {
        m
    }
}

/// Whether a requester's death cancels an envelope.
pub open spec fn cancels(m: ManagerView, id: Seq<char>, waiter: u64) -> bool {
    m.envelopes.contains_key(id) && deserted(m.envelopes[id], waiter)
}

/// An envelope as the list of pending ones shows it.
pub open spec fn pending_info(e: EnvelopeView, now: u64) -> PendingInfoView {
    PendingInfoView {
        id: e.id,
        age_secs: if now >= e.created {
            ((now - e.created) / SECOND as int) as u64
        } else {
            0
        },
        state: state_name(e.state),
        agent_user: e.body.agent_user,
        categories: e.body.categories,
        command: e.command,
    }
}

/// The ids of the envelopes that await a human.
pub open spec fn awaiting(ids: Seq<Seq<char>>, envelopes: Map<Seq<char>, EnvelopeView>) -> Seq<
    Seq<char>,
> {
    ids.filter(|id: Seq<char>| awaits_human(envelopes[id]))
}

/// The list of envelopes that await a human.
pub open spec fn pending_list(
    ids: Seq<Seq<char>>,
    envelopes: Map<Seq<char>, EnvelopeView>,
    now: u64,
) -> Seq<PendingInfoView> {
    awaiting(ids, envelopes).map_values(|id: Seq<char>| pending_info(envelopes[id], now))
}

/// An envelope as the relay is told of it.
pub open spec fn create_msg(e: EnvelopeView) -> DaemonMsgView {
    DaemonMsgView::CreateEnvelope {
        id: e.id,
        ciphertext_b64: e.ciphertext_b64,
        expires_unix: e.expires_unix,
    }
}

/// What the relay is told after a reconnect.
pub open spec fn replay_list(
    ids: Seq<Seq<char>>,
    envelopes: Map<Seq<char>, EnvelopeView>,
) -> Seq<DaemonMsgView> {
    awaiting(ids, envelopes).map_values(|id: Seq<char>| create_msg(envelopes[id]))
}

/// Calls `ulid::Ulid::new` and writes the id out. What it draws is chance and time; it has
/// twenty-six characters.
#[verifier::external_body]
pub(crate) fn fresh_id() -> (r: String)
    ensures
        r@.len() == 26,
{
    Ulid::new().to_string()
}

proof fn lemma_cooled_wf(m: ManagerView, now: u64)
    requires
        wf(m),
    ensures
        wf(cooled(m, now)),
{
}

proof fn lemma_attached_wf(m: ManagerView, key: CoalesceKeyView, now: u64)
    requires
        wf(m),
        m.next_waiter < u64::MAX,
    ensures
        attached(m, key, now) matches Some((after, _)) ==> wf(after),
{
    if let Some((after, _)) = attached(m, key, now) {
        let c = cooled(m, now);
        assert(wf(c));
        if !c.cooldowns.contains_key(key) {
            let id = c.by_key[key];
            let e = c.envelopes[id];
            assert(c.by_key.contains_key(key));
            assert forall|x: Seq<char>| #[trigger] after.envelopes.contains_key(x) implies {
                &&& after.envelopes[x].id == x
                &&& is_open(after.envelopes[x]) ==> after.by_key.contains_key(
                    after.envelopes[x].key,
                ) && after.by_key[after.envelopes[x].key] == x
                &&& !awaits_human(after.envelopes[x]) ==> after.envelopes[x].waiters.len() == 0
            } by {
                assert(c.envelopes.contains_key(x));
            }
            assert(waiters_differ(after));
        }
    }
}

proof fn lemma_with_envelope_wf(
    m: ManagerView,
    ask: AskView,
    id: Seq<char>,
    ciphertext: Seq<char>,
)
    requires
        wf(m),
        m.next_waiter < u64::MAX,
        !m.envelopes.contains_key(id),
        !m.by_key.contains_key(ask.key),
    ensures
        wf(with_envelope(m, ask, id, ciphertext)),
{
    let after = with_envelope(m, ask, id, ciphertext);
    assert(waiters_differ(after));
}

proof fn lemma_resolved_wf(
    m: ManagerView,
    id: Seq<char>,
    outcome: ResolveOutcome,
    approver: Seq<char>,
    cooldown_secs: u64,
    now: u64,
)
    requires
        wf(m),
    ensures
        resolved(m, id, outcome, approver, cooldown_secs, now) matches Ok((after, _)) ==> wf(after),
{
    if let Ok((after, _)) = resolved(m, id, outcome, approver, cooldown_secs, now) {
        assert(waiters_differ(after));
    }
}

/// What is left of a list without `w` was in it, no more often, and is not `w`.
pub proof fn lemma_without(s: Seq<u64>, w: u64)
    ensures
        forall|i: int| 0 <= i < without(s, w).len() ==> s.contains(#[trigger] without(s, w)[i]),
        s.no_duplicates() ==> without(s, w).no_duplicates(),
        !without(s, w).contains(w),
    decreases s.len(),
{
    reveal(Seq::filter);
    if s.len() > 0 {
        let head = s.drop_last();
        lemma_without(head, w);
        assert forall|i: int| 0 <= i < without(s, w).len() implies s.contains(
            #[trigger] without(s, w)[i],
        ) by {
            if i < without(head, w).len() {
                assert(without(s, w)[i] == without(head, w)[i]);
                let j = choose|j: int| 0 <= j < head.len() && head[j] == without(head, w)[i];
                assert(s[j] == without(s, w)[i]);
            } else {
                assert(s[s.len() - 1] == without(s, w)[i]);
            }
        }
        if s.no_duplicates() {
            assert(head.no_duplicates());
            assert forall|i: int, j: int|
                0 <= i < without(s, w).len() && 0 <= j < without(s, w).len() && i != j implies without(
                s,
                w,
            )[i] != without(s, w)[j] by {
                let n = without(head, w).len();
                if i == n || j == n {
                    let k = if i == n { j } else { i };
                    assert(without(s, w)[k] == without(head, w)[k]);
                    assert(head.contains(without(head, w)[k]));
                    let p = choose|p: int| 0 <= p < head.len() && head[p] == without(head, w)[k];
                    assert(s[p] != s[s.len() - 1]);
                }
            }
        }
    }
}

/// Dropping a waiter of an envelope keeps waiters apart.
proof fn lemma_waiters_differ_without(m: ManagerView, after: ManagerView, id: Seq<char>, waiter: u64)
    requires
        waiters_differ(m),
        m.envelopes.contains_key(id),
        after.next_waiter == m.next_waiter,
        after.envelopes == m.envelopes.insert(id, after.envelopes[id]),
        after.envelopes[id].waiters == without(m.envelopes[id].waiters, waiter),
    ensures
        waiters_differ(after),
{
    let e = m.envelopes[id];
    assert(e.waiters.no_duplicates());
    lemma_without(e.waiters, waiter);
    let kept = without(e.waiters, waiter);
    assert forall|x: Seq<char>, i: int|
        #![trigger after.envelopes[x].waiters[i]]
        after.envelopes.contains_key(x) && 0 <= i < after.envelopes[x].waiters.len() implies exists|
        j: int,
    |
        0 <= j < m.envelopes[x].waiters.len() && after.envelopes[x].waiters[i]
            == #[trigger] m.envelopes[x].waiters[j] by {
        if x == id {
            assert(e.waiters.contains(kept[i]));
            let j = choose|j: int| 0 <= j < e.waiters.len() && e.waiters[j] == kept[i];
            assert(m.envelopes[x].waiters[j] == kept[i]);
        } else {
            assert(m.envelopes[x].waiters[i] == after.envelopes[x].waiters[i]);
        }
    }
    assert forall|a: Seq<char>, i: int, b: Seq<char>, j: int|
        #![trigger after.envelopes[a].waiters[i], after.envelopes[b].waiters[j]]
        after.envelopes.contains_key(a) && 0 <= i < after.envelopes[a].waiters.len()
            && after.envelopes.contains_key(b) && 0 <= j < after.envelopes[b].waiters.len()
            && after.envelopes[a].waiters[i] == after.envelopes[b].waiters[j] implies a == b && i
        == j by {
        let p = choose|p: int|
            0 <= p < m.envelopes[a].waiters.len() && after.envelopes[a].waiters[i]
                == #[trigger] m.envelopes[a].waiters[p];
        let q = choose|q: int|
            0 <= q < m.envelopes[b].waiters.len() && after.envelopes[b].waiters[j]
                == #[trigger] m.envelopes[b].waiters[q];
        assert(m.envelopes[a].waiters[p] == m.envelopes[b].waiters[q]);
        assert(a == b);
        if a == id {
            assert(kept[i] == kept[j]);
        } else {
            assert(m.envelopes[a].waiters[i] == m.envelopes[b].waiters[j]);
        }
    }
}

/// Who does not wait on an empty list still does not.
proof fn lemma_without_of_none(s: Seq<u64>, w: u64)
    requires
        s.len() == 0,
    ensures
        without(s, w).len() == 0,
{
    lemma_without(s, w);
    if without(s, w).len() > 0 {
        assert(s.contains(without(s, w)[0]));
    }
}

proof fn lemma_timed_out_wf(m: ManagerView, id: Seq<char>, waiter: u64)
    requires
        wf(m),
    ensures
        wf(timed_out(m, id, waiter)),
{
    if m.envelopes.contains_key(id) {
        let after = timed_out(m, id, waiter);
        lemma_waiters_differ_without(m, after, id, waiter);
        if !awaits_human(m.envelopes[id]) {
            lemma_without_of_none(m.envelopes[id].waiters, waiter);
        }
    }
}

proof fn lemma_cancelled_wf(m: ManagerView, id: Seq<char>, waiter: u64)
    requires
        wf(m),
    ensures
        wf(cancelled(m, id, waiter)),
{
    if m.envelopes.contains_key(id) {
        let after = cancelled(m, id, waiter);
        lemma_waiters_differ_without(m, after, id, waiter);
        if !awaits_human(m.envelopes[id]) {
            lemma_without_of_none(m.envelopes[id].waiters, waiter);
        }
    }
}

/// The list without a waiter.
fn drop_waiter(waiters: &Vec<u64>, waiter: u64) -> (r: Vec<u64>)
    ensures
        r@ == without(waiters@, waiter),
{
    let mut kept: Vec<u64> = Vec::new();
    let mut i: usize = 0;
    let ghost all = waiters@;
    let ghost keep = other_than(waiter);
    assert(all.take(0).filter(keep) == Seq::<u64>::empty()) by {
        reveal(Seq::filter);
    }
    while i < waiters.len()
        invariant
            i <= waiters.len(),
            waiters@ == all,
            keep == other_than(waiter),
            kept@ == all.take(i as int).filter(keep),
        decreases waiters.len() - i,
    {
        let w: u64 = waiters[i];
        assert(all.take(i + 1).drop_last() == all.take(i as int));
        assert(all.take(i + 1).filter(keep) == if keep(w) {
            kept@.push(w)
        } else {
            kept@
        }) by {
            reveal(Seq::filter);
        }
        if w != waiter {
            kept.push(w);
        }
        i = i + 1;
    }
    assert(all.take(all.len() as int) == all);
    kept
}

/// What a request for approval is about.
pub struct Ask {
    pub key: CoalesceKey,
    pub body: EnvelopeBody,
    pub command: String,
    pub timeout_secs: u64,
    /// The monotonic clock.
    pub now: u64,
    /// The wall clock, in seconds.
    pub now_unix: u64,
}

impl DeepView for Ask {
    type V = AskView;

    open spec fn deep_view(&self) -> AskView {
        AskView {
            key: self.key.deep_view(),
            body: self.body.deep_view(),
            command: self.command@,
            timeout_secs: self.timeout_secs,
            now: self.now,
            now_unix: self.now_unix,
        }
    }
}

/// The same answer for each waiter.
fn answer_all(waiters: &Vec<u64>, word: &str, message: &str) -> (r: Vec<Delivery>)
    ensures
        r.deep_view() == answers(
            waiters@,
            (LocalRespView::Verdict { verdict: word@, message: message@ }),
        ),
{
    let ghost resp = LocalRespView::Verdict { verdict: word@, message: message@ };
    let mut out: Vec<Delivery> = Vec::new();
    let mut i: usize = 0;
    while i < waiters.len()
        invariant
            i <= waiters.len(),
            out.len() == i,
            resp == (LocalRespView::Verdict { verdict: word@, message: message@ }),
            forall|j: int|
                0 <= j < i ==> (#[trigger] out@[j]).deep_view() == answers(waiters@, resp)[j],
        decreases waiters.len() - i,
    {
        let resp: LocalResp = verdict(word, message.to_owned());
        out.push(Delivery { waiter: waiters[i], resp });
        i = i + 1;
    }
    assert(out.deep_view() == answers(waiters@, resp));
    out
}

impl Book {
    /// The ids of all envelopes, in ascending order.
    spec fn ids(self) -> Seq<Seq<char>> {
        self.envelopes.keys()
    }

    /// A book without envelopes.
    fn at_origin(approval_origin: String) -> (r: Book)
        ensures
            wf(r@),
            r@ == (ManagerView {
                envelopes: Map::empty(),
                by_key: Map::empty(),
                cooldowns: Map::empty(),
                approval_origin: approval_origin@,
                next_waiter: 0,
            }),
    {
        let r = Book {
            envelopes: StrMap::new(),
            by_key: KeyTable::new(),
            cooldowns: KeyTable::new(),
            approval_origin,
            next_waiter: 0,
        };
        assert(r@.envelopes =~= Map::empty());
        assert(r@.by_key =~= Map::empty());
        r
    }

    /// Starts a request without a new envelope, where one is not needed.
    fn attach(&mut self, key: &CoalesceKey, now: u64) -> (r: Option<StartResult>)
        requires
            wf(old(self)@),
            old(self)@.next_waiter < u64::MAX,
        ensures
            wf(final(self)@),
            match attached(old(self)@, key.deep_view(), now) {
                Some((after, start)) => final(self)@ == after && r.deep_view() == Some(start),
                None => final(self)@ == cooled(old(self)@, now) && r is None,
            },
    {
        proof {
            lemma_cooled_wf(self@, now);
            lemma_attached_wf(self@, key.deep_view(), now);
        }
        let ghost before = self@;
        self.cooldowns.retain_after(now);
        assert(self@ == cooled(before, now));
        let ghost c = self@;
        if self.cooldowns.get(key).is_some() {
            return Some(
                StartResult::Immediate(
                    verdict(
                        "deny",
                        "denied by approver — do not retry; the human explicitly rejected this.".to_owned(),
                    ),
                ),
            );
        }
        let id: String = match self.by_key.get(key) {
            Some(id) => id.clone(),
            None => {
                return None;
            },
        };
        assert(c.by_key.contains_key(key.deep_view()));
        assert(c.by_key[key.deep_view()] == id@);
        assert(c.envelopes.contains_key(id@));
        let mut env: Envelope = match self.envelopes.remove(id.as_str()) {
            Some(env) => env,
            None => {
                return None;
            },
        };
        let ghost e = c.envelopes[id@];
        assert(env.deep_view() == e);
        if env.state == EnvelopeState::Approved && env.approval_available {
            env.approval_available = false;
            let ghost used = env.deep_view();
            self.envelopes.insert(id, env);
            self.by_key.remove(key);
            assert(self@.envelopes =~= c.envelopes.insert(id@, used));
            assert(self@.by_key =~= c.by_key.remove(key.deep_view()));
            return Some(
                StartResult::Immediate(
                    verdict("allow", "approved earlier; proceeding".to_owned()),
                ),
            );
        }
        let waiter: u64 = self.next_waiter;
        env.waiters.push(waiter);
        let timeout_secs: u64 = env.timeout_secs;
        let ghost joined = env.deep_view();
        self.next_waiter = waiter + 1;
        self.envelopes.insert(id.clone(), env);
        assert(self@.envelopes =~= c.envelopes.insert(id@, joined));
        Some(StartResult::Wait(WaitPlan { id, timeout_secs, waiter, created: None }))
    }

    /// Starts a request with a new envelope, given its id and what its body was sealed to.
    fn create(
        &mut self,
        ask: Ask,
        id: String,
        ciphertext_b64: String,
        fragment: &str,
    ) -> (r: Result<StartResult, ManagerError>)
        requires
            wf(old(self)@),
            old(self)@.next_waiter < u64::MAX,
            !old(self)@.by_key.contains_key(ask.deep_view().key),
            ask.now_unix + ask.timeout_secs <= u64::MAX,
        ensures
            wf(final(self)@),
            (final(self)@, start_view(r)) == created(
                old(self)@,
                ask.deep_view(),
                id@,
                ciphertext_b64@,
                fragment@,
            ),
    {
        let ghost before = self@;
        let ghost asked = ask.deep_view();
        if self.envelopes.contains_key(id.as_str()) {
            return Err(ManagerError::IdInUse { id });
        }
        proof {
            lemma_with_envelope_wf(before, asked, id@, ciphertext_b64@);
        }
        let expires_unix: u64 = ask.now_unix + ask.timeout_secs;
        let link: String = text::cat4(
            self.approval_origin.as_str(),
            "/a/",
            id.as_str(),
            "#",
        ).concat(fragment);
        let note: String = text::cat4(
            "judo approval: ",
            ask.body.summary.as_str(),
            "\n",
            link.as_str(),
        );
        let waiter: u64 = self.next_waiter;
        let mut waiters: Vec<u64> = Vec::new();
        waiters.push(waiter);
        assert(waiters@ == seq![waiter]);
        let timeout_secs: u64 = ask.timeout_secs;
        let env = Envelope {
            id: id.clone(),
            key: ask.key.clone(),
            body: ask.body,
            command: ask.command,
            ciphertext_b64: ciphertext_b64.clone(),
            created: ask.now,
            expires_unix,
            timeout_secs,
            state: EnvelopeState::Pending,
            approval_available: false,
            waiters,
        };
        let ghost made = env.deep_view();
        assert(made == new_envelope(before, asked, id@, ciphertext_b64@));
        self.next_waiter = waiter + 1;
        self.by_key.insert(ask.key, id.clone());
        self.envelopes.insert(id.clone(), env);
        assert(self@.envelopes =~= before.envelopes.insert(id@, made));
        assert(self@.by_key =~= before.by_key.insert(asked.key, id@));
        Ok(
            StartResult::Wait(
                WaitPlan {
                    id: id.clone(),
                    timeout_secs,
                    waiter,
                    created: Some(
                        CreatedEnvelope { id, ciphertext_b64, expires_unix, text: note, link },
                    ),
                },
            ),
        )
    }

    /// Carries out a human's decision: the answers are for the requesters that waited. The cooldown
    /// counts from `now` where the decision is a denial.
    fn resolve(
        &mut self,
        id: &str,
        outcome: ResolveOutcome,
        approver: &str,
        cooldown_secs: u64,
        now: u64,
    ) -> (r: Result<Vec<Delivery>, ManagerError>)
        requires
            wf(old(self)@),
        ensures
            wf(final(self)@),
            match resolved(old(self)@, id@, outcome, approver@, cooldown_secs, now) {
                Ok((after, told)) => final(self)@ == after && (r matches Ok(d) && d.deep_view()
                    == told),
                Err(e) => final(self)@ == old(self)@ && (r matches Err(x) && x.deep_view() == e),
            },
    {
        proof {
            lemma_resolved_wf(self@, id@, outcome, approver@, cooldown_secs, now);
        }
        let ghost m = self@;
        let open: Option<(bool, EnvelopeState)> = match self.envelopes.get(id) {
            Some(env) => Some(
                (
                    env.state == EnvelopeState::Pending || env.state == EnvelopeState::TimedOut,
                    env.state,
                ),
            ),
            None => None,
        };
        match open {
            None => {
                return Err(ManagerError::UnknownEnvelope { id: id.to_owned() });
            },
            Some((open, state)) => {
                if !open {
                    return Err(ManagerError::ClosedEnvelope { id: id.to_owned(), state });
                }
            },
        }
        let mut env: Envelope = match self.envelopes.remove(id) {
            Some(env) => env,
            None => {
                return Err(ManagerError::UnknownEnvelope { id: id.to_owned() });
            },
        };
        let ghost e = m.envelopes[id@];
        assert(env.deep_view() == e);
        let mut waiters: Vec<u64> = Vec::new();
        std::mem::swap(&mut waiters, &mut env.waiters);
        let key: CoalesceKey = env.key.clone();
        match outcome {
            ResolveOutcome::Approved => {
                env.state = EnvelopeState::Approved;
                env.approval_available = waiters.len() == 0;
                let ghost after = env.deep_view();
                if waiters.len() > 0 {
                    self.by_key.remove(&key);
                }
                self.envelopes.insert(id.to_owned(), env);
                assert(self@.envelopes =~= m.envelopes.insert(id@, after));
                assert(self@.by_key =~= approved(m, id@).by_key);
                assert(self@ =~= approved(m, id@));
                Ok(
                    answer_all(
                        &waiters,
                        "allow",
                        text::cat3("approved by ", approver, "; proceeding").as_str(),
                    ),
                )
            },
            ResolveOutcome::Denied => {
                env.state = EnvelopeState::Denied;
                env.approval_available = false;
                let ghost after = env.deep_view();
                self.by_key.remove(&key);
                let until: u128 = now as u128 + cooldown_secs as u128 * SECOND as u128;
                self.cooldowns.insert(key, until);
                self.envelopes.insert(id.to_owned(), env);
                assert(self@.envelopes =~= m.envelopes.insert(id@, after));
                assert(self@.by_key =~= m.by_key.remove(e.key));
                assert(self@ =~= denied(m, id@, cooldown_secs, now));
                Ok(
                    answer_all(
                        &waiters,
                        "deny",
                        text::cat3(
                            "denied by ",
                            approver,
                            " — do not retry; the human explicitly rejected this.",
                        ).as_str(),
                    ),
                )
            },
        }
    }

    /// Notes that a requester gave up waiting.
    fn mark_timed_out(&mut self, id: &str, waiter: u64)
        requires
            wf(old(self)@),
        ensures
            wf(final(self)@),
            final(self)@ == timed_out(old(self)@, id@, waiter),
    {
        proof {
            lemma_timed_out_wf(self@, id@, waiter);
        }
        let ghost m = self@;
        match self.envelopes.remove(id) {
            Some(mut env) => {
                let ghost e = m.envelopes[id@];
                assert(env.deep_view() == e);
                if env.state == EnvelopeState::Pending {
                    env.state = EnvelopeState::TimedOut;
                }
                env.waiters = drop_waiter(&env.waiters, waiter);
                let ghost after = env.deep_view();
                assert(after == timed_out(m, id@, waiter).envelopes[id@]);
                self.envelopes.insert(id.to_owned(), env);
                assert(self@.envelopes =~= m.envelopes.insert(id@, after));
                assert(self@ =~= timed_out(m, id@, waiter));
            },
            None => {
                assert(self@.envelopes =~= m.envelopes);
            },
        }
    }

    /// Notes that a requester died, and says whether its envelope is cancelled.
    fn cancel(&mut self, id: &str, waiter: u64) -> (r: bool)
        requires
            wf(old(self)@),
        ensures
            wf(final(self)@),
            final(self)@ == cancelled(old(self)@, id@, waiter),
            r == cancels(old(self)@, id@, waiter),
    {
        proof {
            lemma_cancelled_wf(self@, id@, waiter);
        }
        let ghost m = self@;
        match self.envelopes.remove(id) {
            Some(mut env) => {
                let ghost e = m.envelopes[id@];
                assert(env.deep_view() == e);
                let kept: Vec<u64> = drop_waiter(&env.waiters, waiter);
                let gone: bool = env.state == EnvelopeState::Pending && env.waiters.len() > 0
                    && kept.len() == 0;
                if gone {
                    env.state = EnvelopeState::Cancelled;
                    self.by_key.remove(&env.key);
                }
                env.waiters = kept;
                let ghost after = env.deep_view();
                self.envelopes.insert(id.to_owned(), env);
                assert(self@.envelopes =~= m.envelopes.insert(id@, after));
                assert(self@.by_key =~= cancelled(m, id@, waiter).by_key);
                assert(self@ =~= cancelled(m, id@, waiter));
                gone
            },
            None => {
                assert(self@.envelopes =~= m.envelopes);
                false
            },
        }
    }

    /// Every envelope's id is listed once, in ascending order.
    spec fn lists_ids(self) -> bool {
        &&& ascending(self.ids())
        &&& forall|id: Seq<char>| #[trigger]
            self.ids().contains(id) <==> self@.envelopes.contains_key(id)
    }

    fn layout(&self) -> (r: usize)
        ensures
            r == self.ids().len(),
            self.lists_ids(),
            self.envelopes.laid_out(),
    {
        let n: usize = self.envelopes.len();
        assert forall|id: Seq<char>| #[trigger]
            self.ids().contains(id) <==> self@.envelopes.contains_key(id) by {
            if self.ids().contains(id) {
                let i = choose|i: int| 0 <= i < self.ids().len() && self.ids()[i] == id;
                assert(self.envelopes@.contains_key(self.envelopes.keys()[i]));
            }
            if self@.envelopes.contains_key(id) {
                assert(self.envelopes@.contains_key(id));
                let i = choose|i: int|
                    0 <= i < self.envelopes.keys().len() && #[trigger] self.envelopes.keys()[i]
                        == id;
                assert(self.ids()[i] == id);
            }
        }
        n
    }

    /// The envelopes that await a human, in the order of their ids.
    fn pending(&self, now: u64) -> (r: Vec<PendingInfo>)
        ensures
            self.lists_ids(),
            r.deep_view() == pending_list(self.ids(), self@.envelopes, now),
    {
        let n: usize = self.layout();
        let ghost ids = self.ids();
        let ghost envs = self@.envelopes;
        let ghost keep = |id: Seq<char>| awaits_human(envs[id]);
        let ghost show = |id: Seq<char>| pending_info(envs[id], now);
        let mut out: Vec<PendingInfo> = Vec::new();
        let mut i: usize = 0;
        assert(ids.take(0).filter(keep) == Seq::<Seq<char>>::empty()) by {
            reveal(Seq::filter);
        }
        assert(out.deep_view() == ids.take(0).filter(keep).map_values(show));
        while i < n
            invariant
                i <= n,
                n == ids.len(),
                ids == self.ids(),
                ids == self.envelopes.keys(),
                envs == self@.envelopes,
                self.envelopes.laid_out(),
                keep == (|id: Seq<char>| awaits_human(envs[id])),
                show == (|id: Seq<char>| pending_info(envs[id], now)),
                out.deep_view() == ids.take(i as int).filter(keep).map_values(show),
            decreases n - i,
        {
            let ghost had = ids.take(i as int).filter(keep);
            let ghost id = ids[i as int];
            assert(ids.take(i + 1).drop_last() == ids.take(i as int));
            assert(ids.take(i + 1).filter(keep) == if keep(id) {
                had.push(id)
            } else {
                had
            }) by {
                reveal(Seq::filter);
            }
            assert(self.envelopes@.contains_key(self.envelopes.keys()[i as int]));
            let e: &Envelope = self.envelopes.value_at(i);
            assert(envs[id] == e.deep_view());
            if e.state == EnvelopeState::Pending || e.state == EnvelopeState::TimedOut {
                let info = PendingInfo {
                    id: e.id.clone(),
                    age_secs: if now >= e.created {
                        (now - e.created) / SECOND
                    } else {
                        0
                    },
                    state: e.state.as_str().to_owned(),
                    agent_user: e.body.agent_user.clone(),
                    categories: text::copy_all(&e.body.categories),
                    command: e.command.clone(),
                };
                let ghost shown = info.deep_view();
                let ghost listed = out.deep_view();
                out.push(info);
                assert(out.deep_view() == listed.push(shown));
                assert(had.push(id).map_values(show) == had.map_values(show).push(show(id)));
            }
            i = i + 1;
        }
        assert(ids.take(ids.len() as int) == ids);
        assert(out.deep_view() == pending_list(ids, envs, now));
        out
    }

    /// What the relay is told after a reconnect: the envelopes that await a human, in the order of
    /// their ids.
    fn replayable(&self) -> (r: Vec<DaemonMsg>)
        ensures
            self.lists_ids(),
            r.deep_view() == replay_list(self.ids(), self@.envelopes),
    {
        let n: usize = self.layout();
        let ghost ids = self.ids();
        let ghost envs = self@.envelopes;
        let ghost keep = |id: Seq<char>| awaits_human(envs[id]);
        let ghost show = |id: Seq<char>| create_msg(envs[id]);
        let mut out: Vec<DaemonMsg> = Vec::new();
        let mut i: usize = 0;
        assert(ids.take(0).filter(keep) == Seq::<Seq<char>>::empty()) by {
            reveal(Seq::filter);
        }
        assert(out.deep_view() == ids.take(0).filter(keep).map_values(show));
        while i < n
            invariant
                i <= n,
                n == ids.len(),
                ids == self.ids(),
                ids == self.envelopes.keys(),
                envs == self@.envelopes,
                self.envelopes.laid_out(),
                keep == (|id: Seq<char>| awaits_human(envs[id])),
                show == (|id: Seq<char>| create_msg(envs[id])),
                out.deep_view() == ids.take(i as int).filter(keep).map_values(show),
            decreases n - i,
        {
            let ghost had = ids.take(i as int).filter(keep);
            let ghost id = ids[i as int];
            assert(ids.take(i + 1).drop_last() == ids.take(i as int));
            assert(ids.take(i + 1).filter(keep) == if keep(id) {
                had.push(id)
            } else {
                had
            }) by {
                reveal(Seq::filter);
            }
            assert(self.envelopes@.contains_key(self.envelopes.keys()[i as int]));
            let e: &Envelope = self.envelopes.value_at(i);
            assert(envs[id] == e.deep_view());
            if e.state == EnvelopeState::Pending || e.state == EnvelopeState::TimedOut {
                let msg = DaemonMsg::CreateEnvelope {
                    id: e.id.clone(),
                    ciphertext_b64: e.ciphertext_b64.clone(),
                    expires_unix: e.expires_unix,
                };
                let ghost shown = msg.deep_view();
                let ghost listed = out.deep_view();
                out.push(msg);
                assert(out.deep_view() == listed.push(shown));
                assert(had.push(id).map_values(show) == had.map_values(show).push(show(id)));
            }
            i = i + 1;
        }
        assert(ids.take(ids.len() as int) == ids);
        assert(out.deep_view() == replay_list(ids, envs));
        out
    }

    /// The workspace of an envelope, if there is such an envelope.
    fn workspace_of(&self, id: &str) -> (r: Option<String>)
        ensures
            r.deep_view() == if self@.envelopes.contains_key(id@) {
                Some(self@.envelopes[id@].key.workspace)
            } else {
                None
            },
    {
        match self.envelopes.get(id) {
            Some(env) => Some(env.key.workspace.clone()),
            None => None,
        }
    }
}

/// All envelopes, which of them a key leads to, and the keys that are cooling down.
pub struct Manager {
    book: Book,
}

impl View for Manager {
    type V = ManagerView;

    closed spec fn view(&self) -> ManagerView {
        self.book@
    }
}

impl Manager {
    #[verifier::type_invariant]
    spec fn inv(self) -> bool {
        wf(self.book@)
    }

    /// The ids of all envelopes, in ascending order.
    pub closed spec fn ids(self) -> Seq<Seq<char>> {
        self.book.ids()
    }

    /// Every envelope's id is listed once, in ascending order.
    pub open spec fn lists_ids(self) -> bool {
        &&& ascending(self.ids())
        &&& forall|id: Seq<char>| #[trigger]
            self.ids().contains(id) <==> self@.envelopes.contains_key(id)
    }

    /// A manager without envelopes, whose approval pages stand on an origin.
    pub fn at_origin(approval_origin: String) -> (r: Manager)
        ensures
            wf(r@),
            r@ == (ManagerView {
                envelopes: Map::empty(),
                by_key: Map::empty(),
                cooldowns: Map::empty(),
                approval_origin: approval_origin@,
                next_waiter: 0,
            }),
    {
        Manager { book: Book::at_origin(approval_origin) }
    }

    /// A manager without envelopes, whose approval pages stand on the relay's origin.
    pub fn new(relay_url: &str) -> (r: Result<Manager, ConfigError>)
        ensures
            match (r, rp_of(url_parts(relay_url@))) {
                (Ok(m), Ok((_, origin))) => wf(m@) && m@ == (ManagerView {
                    envelopes: Map::empty(),
                    by_key: Map::empty(),
                    cooldowns: Map::empty(),
                    approval_origin: origin,
                    next_waiter: 0,
                }),
                (Err(e), Err(expected)) => e.deep_view() == expected,
                _ => false,
            },
    {
        match config::rp_from_relay(relay_url) {
            Ok((_, origin)) => Ok(Manager::at_origin(origin)),
            Err(e) => Err(e),
        }
    }

    /// Takes the book out, to put it back changed.
    fn take_book(&mut self) -> (r: Book)
        ensures
            r@ == old(self)@,
            wf(r@),
    {
        proof {
            use_type_invariant(&*self);
        }
        let mut book: Book = Book::at_origin(String::new());
        std::mem::swap(&mut book, &mut self.book);
        book
    }

    /// Starts a request without a new envelope, where one is not needed.
    pub fn attach(&mut self, key: &CoalesceKey, now: u64) -> (r: Option<StartResult>)
        requires
            old(self)@.next_waiter < u64::MAX,
        ensures
            wf(final(self)@),
            match attached(old(self)@, key.deep_view(), now) {
                Some((after, start)) => final(self)@ == after && r.deep_view() == Some(start),
                None => final(self)@ == cooled(old(self)@, now) && r is None,
            },
    {
        let mut book: Book = self.take_book();
        let r: Option<StartResult> = book.attach(key, now);
        self.book = book;
        r
    }

    /// Starts a request with a new envelope, given its id and what its body was sealed to.
    pub fn create(
        &mut self,
        ask: Ask,
        id: String,
        ciphertext_b64: String,
        fragment: &str,
    ) -> (r: Result<StartResult, ManagerError>)
        requires
            old(self)@.next_waiter < u64::MAX,
            !old(self)@.by_key.contains_key(ask.deep_view().key),
            ask.now_unix + ask.timeout_secs <= u64::MAX,
        ensures
            wf(final(self)@),
            (final(self)@, start_view(r)) == created(
                old(self)@,
                ask.deep_view(),
                id@,
                ciphertext_b64@,
                fragment@,
            ),
    {
        let mut book: Book = self.take_book();
        let r: Result<StartResult, ManagerError> = book.create(ask, id, ciphertext_b64, fragment);
        self.book = book;
        r
    }

    /// Starts a request for approval. Where a new envelope is needed, it gets a fresh id, and its
    /// serialized body is sealed under a fresh key, which only the link carries.
    pub fn begin_approval(&mut self, ask: Ask, body_json: &Vec<u8>) -> (r: Result<
        StartResult,
        ManagerError,
    >)
        requires
            ask.now_unix + ask.timeout_secs <= u64::MAX,
        ensures
            wf(final(self)@),
            old(self)@.next_waiter == u64::MAX ==> final(self)@ == old(self)@ && start_view(r)
                == Err::<StartResultView, _>(ManagerErrorView::NoWaiterLeft),
            old(self)@.next_waiter < u64::MAX ==> match attached(
                old(self)@,
                ask.deep_view().key,
                ask.now,
            ) {
                Some((after, start)) => final(self)@ == after && start_view(r) == Ok::<
                    _,
                    ManagerErrorView,
                >(start),
                None => if !sealable(body_json.len() as int) {
                    final(self)@ == cooled(old(self)@, ask.now) && start_view(r) == Err::<
                        StartResultView,
                        _,
                    >(ManagerErrorView::NotSealed)
                } else {
                    exists|id: Seq<char>, ciphertext: Seq<char>, fragment: Seq<char>|
                        (final(self)@, start_view(r)) == #[trigger] created(
                            cooled(old(self)@, ask.now),
                            ask.deep_view(),
                            id,
                            ciphertext,
                            fragment,
                        ) && id.len() == 26 && is_sealing(body_json@, ciphertext, fragment)
                            && opened(ciphertext, fragment) == Ok::<_, CryptoErrorView>(body_json@)
                },
            },
    {
        if self.book.next_waiter == u64::MAX {
            proof {
                use_type_invariant(&*self);
            }
            return Err(ManagerError::NoWaiterLeft);
        }
        match self.attach(&ask.key, ask.now) {
            Some(start) => Ok(start),
            None => match crypto::seal(body_json) {
                Ok((ciphertext, fragment)) => {
                    let id: String = fresh_id();
                    self.create(ask, id, ciphertext, fragment.as_str())
                },
                Err(_) => Err(ManagerError::NotSealed),
            },
        }
    }

    /// Carries out a human's decision: the answers are for the requesters that waited. The cooldown
    /// counts from `now` where the decision is a denial.
    pub fn resolve(
        &mut self,
        id: &str,
        outcome: ResolveOutcome,
        approver: &str,
        cooldown_secs: u64,
        now: u64,
    ) -> (r: Result<Vec<Delivery>, ManagerError>)
        ensures
            wf(final(self)@),
            match resolved(old(self)@, id@, outcome, approver@, cooldown_secs, now) {
                Ok((after, told)) => final(self)@ == after && (r matches Ok(d) && d.deep_view()
                    == told),
                Err(e) => final(self)@ == old(self)@ && (r matches Err(x) && x.deep_view() == e),
            },
    {
        let mut book: Book = self.take_book();
        let r: Result<Vec<Delivery>, ManagerError> = book.resolve(
            id,
            outcome,
            approver,
            cooldown_secs,
            now,
        );
        self.book = book;
        r
    }

    /// Notes that a requester gave up waiting.
    pub fn mark_timed_out(&mut self, id: &str, waiter: u64)
        ensures
            wf(final(self)@),
            final(self)@ == timed_out(old(self)@, id@, waiter),
    {
        let mut book: Book = self.take_book();
        book.mark_timed_out(id, waiter);
        self.book = book;
    }

    /// Notes that a requester died, and says whether its envelope is cancelled.
    pub fn cancel(&mut self, id: &str, waiter: u64) -> (r: bool)
        ensures
            wf(final(self)@),
            final(self)@ == cancelled(old(self)@, id@, waiter),
            r == cancels(old(self)@, id@, waiter),
    {
        let mut book: Book = self.take_book();
        let r: bool = book.cancel(id, waiter);
        self.book = book;
        r
    }

    /// The envelopes that await a human, in the order of their ids.
    pub fn pending(&self, now: u64) -> (r: Vec<PendingInfo>)
        ensures
            self.lists_ids(),
            r.deep_view() == pending_list(self.ids(), self@.envelopes, now),
    {
        self.book.pending(now)
    }

    /// What the relay is told after a reconnect: the envelopes that await a human, in the order of
    /// their ids.
    pub fn replayable(&self) -> (r: Vec<DaemonMsg>)
        ensures
            self.lists_ids(),
            r.deep_view() == replay_list(self.ids(), self@.envelopes),
    {
        self.book.replayable()
    }

    /// The workspace of an envelope, if there is such an envelope.
    pub fn workspace_of(&self, id: &str) -> (r: Option<String>)
        ensures
            r.deep_view() == if self@.envelopes.contains_key(id@) {
                Some(self@.envelopes[id@].key.workspace)
            } else {
                None
            },
    {
        self.book.workspace_of(id)
    }
}

} // verus!
