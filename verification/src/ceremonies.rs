//! Ceremonies on the approval page: one per envelope and choice, each usable once, and what the
//! relay's messages come to.

use crate::config::{Identity, IdentityView, StoredPasskey, StoredPasskeyView};
use crate::daemon;
use crate::daemon::{is_recorded, names, outcome_record, verdict_msg};
use crate::effects;
use crate::effects::{deliveries, text_field, text_fields, Effect, EffectView};
use crate::manager::{
    manager_error_text, resolved, state_name, Delivery, Manager, ManagerError, ManagerErrorView,
    ManagerView, ResolveOutcome, SECOND,
};
use crate::manager_laws::no_approval_gained;
use crate::proto::{DaemonMsg, DaemonMsgView, EnrollEvent, PageEvent, RelayMsg};
use crate::table::StrMap;
use crate::webauthn::{
    authenticated, authentication_begun, passkeys_of, registered, registration_begun,
    verifier_error_text, VerifierError, VerifierErrorView, WebauthnVerifier, Working,
};
use vstd::prelude::*;
use webauthn_rs::prelude::{Passkey, PasskeyAuthentication, PasskeyRegistration};
use webauthn_rs::Webauthn;

verus! {

/// For how many seconds a ceremony can be ended once it has begun.
pub const CEREMONY_SECS: u64 = 300;

/// Ceremonies that have begun, by envelope and choice, each with the time when it did.
pub struct Ceremonies<T> {
    begun: StrMap<StrMap<(T, u64)>>,
}

/// The ceremony, if it has begun and its time is not over.
pub open spec fn live<T>(begun: Option<(T, u64)>, now: u64) -> Option<T> {
    match begun {
        Some((state, at)) => if now <= at + CEREMONY_SECS * SECOND {
            Some(state)
        } else {
            None
        },
        None => None,
    }
}

impl<T> Ceremonies<T> {
    /// The ceremony of an envelope and a choice and when it began, if one has begun.
    pub closed spec fn at(self, id: Seq<char>, choice: Seq<char>) -> Option<(T, u64)> {
        if self.begun@.contains_key(id) && self.begun@[id]@.contains_key(choice) {
            Some(self.begun@[id]@[choice])
        } else {
            None
        }
    }

    /// No ceremony has begun.
    pub fn new() -> (r: Self)
        ensures
            forall|id: Seq<char>, choice: Seq<char>| #[trigger] r.at(id, choice) is None,
    {
        Ceremonies { begun: StrMap::new() }
    }

    /// Notes that a ceremony has begun, in place of an earlier one for the same choice.
    pub fn begin(&mut self, id: &str, choice: &str, state: T, now: u64)
        ensures
            final(self).at(id@, choice@) == Some((state, now)),
            forall|i: Seq<char>, c: Seq<char>|
                i != id@ || c != choice@ ==> #[trigger] final(self).at(i, c) == old(self).at(i, c),
    {
        let mut choices: StrMap<(T, u64)> = match self.begun.remove(id) {
            Some(choices) => choices,
            None => StrMap::new(),
        };
        choices.insert(choice.to_owned(), (state, now));
        self.begun.insert(id.to_owned(), choices);
    }

    /// Takes a ceremony out, so that it cannot be used again. One whose time is over is gone too.
    pub fn take(&mut self, id: &str, choice: &str, now: u64) -> (r: Option<T>)
        ensures
            r == live(old(self).at(id@, choice@), now),
            final(self).at(id@, choice@) is None,
            forall|i: Seq<char>, c: Seq<char>|
                i != id@ || c != choice@ ==> #[trigger] final(self).at(i, c) == old(self).at(i, c),
    {
        match self.begun.remove(id) {
            Some(mut choices) => {
                let taken: Option<(T, u64)> = choices.remove(choice);
                self.begun.insert(id.to_owned(), choices);
                match taken {
                    Some((state, at)) => if now as u128 <= at as u128 + CEREMONY_SECS as u128
                        * SECOND as u128 {
                        Some(state)
                    } else {
                        None
                    },
                    None => None,
                }
            },
            None => None,
        }
    }
}

/// What the page is told once an authentication was to begin: the options, or why there are none.
pub open spec fn choice_reply(
    id: Seq<char>,
    corr: u64,
    started: Result<Seq<char>, Seq<char>>,
) -> DaemonMsgView {
    match started {
        Ok(options_json) => DaemonMsgView::CeremonyOptions { id, corr, options_json },
        Err(message) => DaemonMsgView::CeremonyResult { id, corr, ok: false, message },
    }
}

/// The outcome of beginning a ceremony, as texts.
pub open spec fn started_view<T>(r: Result<(String, T), VerifierError>) -> Result<
    Seq<char>,
    Seq<char>,
> {
    match r {
        Ok((options_json, _)) => Ok(options_json@),
        Err(e) => Err(verifier_error_text(e.deep_view())),
    }
}

/// Answers a choice once the authentication was to begin: where it did, the ceremony is bound to
/// the envelope and the choice.
pub fn choice_made<T>(
    ceremonies: &mut Ceremonies<T>,
    id: &str,
    corr: u64,
    choice: &str,
    started: Result<(String, T), VerifierError>,
    now: u64,
) -> (r: DaemonMsg)
    ensures
        r.deep_view() == choice_reply(id@, corr, started_view(started)),
        started matches Ok((_, state)) ==> final(ceremonies).at(id@, choice@) == Some((state, now)),
        forall|i: Seq<char>, c: Seq<char>|
            started is Err || i != id@ || c != choice@ ==> #[trigger] final(ceremonies).at(i, c)
                == old(ceremonies).at(i, c),
{
    match started {
        Ok((options_json, state)) => {
            ceremonies.begin(id, choice, state, now);
            DaemonMsg::CeremonyOptions { id: id.to_owned(), corr, options_json }
        },
        Err(e) => DaemonMsg::CeremonyResult {
            id: id.to_owned(),
            corr,
            ok: false,
            message: e.message(),
        },
    }
}

/// What is done about an assertion that comes to nothing: it is recorded, and the page is told why.
pub open spec fn refusal_effects(id: Seq<char>, corr: u64, message: Seq<char>) -> Seq<EffectView> {
    seq![
        EffectView::Audit {
            event: "ceremony.failed"@,
            fields: text_fields("id"@, id, "error"@, message),
        },
        EffectView::Relay(DaemonMsgView::CeremonyResult { id, corr, ok: false, message }),
    ]
}

fn refuse(id: &str, corr: u64, message: String) -> (r: Vec<Effect>)
    ensures
        r.deep_view() == refusal_effects(id@, corr, message@),
{
    let mut effects: Vec<Effect> = Vec::new();
    assert(effects.deep_view() == Seq::<EffectView>::empty());
    effects::then_do(
        &mut effects,
        Effect::Audit {
            event: "ceremony.failed".to_owned(),
            fields: effects::with_texts("id", id, "error", message.as_str()),
        },
    );
    effects::then_do(
        &mut effects,
        Effect::Relay(DaemonMsg::CeremonyResult { id: id.to_owned(), corr, ok: false, message }),
    );
    assert(effects.deep_view() == refusal_effects(id@, corr, message@));
    effects
}

/// What an assertion comes to: where it was accepted, the envelope is approved. The page is told
/// where the envelope is decided already; an unknown one fails the step.
pub open spec fn asserted(
    m: ManagerView,
    id: Seq<char>,
    corr: u64,
    accepted: Result<(), Seq<char>>,
    cooldown_secs: u64,
    now: u64,
) -> Result<(ManagerView, Seq<EffectView>), Seq<char>> {
    match accepted {
        Err(message) => Ok((m, refusal_effects(id, corr, message))),
        Ok(_) => match resolved(
            m,
            id,
            ResolveOutcome::Approved,
            "passkey"@,
            cooldown_secs,
            now,
        ) {
            Err(ManagerErrorView::ClosedEnvelope { id: known, state }) => Ok(
                (
                    m,
                    refusal_effects(
                        id,
                        corr,
                        manager_error_text(ManagerErrorView::ClosedEnvelope { id: known, state }),
                    ),
                ),
            ),
            Err(e) => Err(manager_error_text(e)),
            Ok((after, told)) => Ok(
                (
                    after,
                    deliveries(told).push(
                        outcome_record(id, ResolveOutcome::Approved, "passkey"@),
                    ).push(
                        EffectView::Relay(
                            DaemonMsgView::CeremonyResult {
                                id,
                                corr,
                                ok: true,
                                message: "approved"@,
                            },
                        ),
                    ).push(verdict_msg(id, "approved"@)),
                ),
            ),
        },
    }
}

/// The view of a step that may fail.
pub open spec fn effects_view(r: Result<Vec<Effect>, String>) -> Result<
    Seq<EffectView>,
    Seq<char>,
> {
    match r {
        Ok(effects) => Ok(effects.deep_view()),
        Err(e) => Err(e@),
    }
}

/// What a step that may fail leaves: the manager and what is done, or the manager as it was and why.
pub open spec fn step_is(
    before: ManagerView,
    after: ManagerView,
    r: Result<Vec<Effect>, String>,
    expected: Result<(ManagerView, Seq<EffectView>), Seq<char>>,
) -> bool {
    match expected {
        Ok((m, effects)) => after == m && effects_view(r) == Ok::<_, Seq<char>>(effects),
        Err(why) => after == before && effects_view(r) == Err::<Seq<EffectView>, _>(why),
    }
}

/// The text of an outcome.
pub open spec fn accepted_view(r: Result<(), String>) -> Result<(), Seq<char>> {
    match r {
        Ok(_) => Ok(()),
        Err(e) => Err(e@),
    }
}

/// Carries out what an assertion comes to, given whether it was accepted.
pub fn assertion_made(
    manager: &mut Manager,
    id: &str,
    corr: u64,
    accepted: Result<(), String>,
    cooldown_secs: u64,
    now: u64,
) -> (r: Result<Vec<Effect>, String>)
    ensures
        step_is(
            old(manager)@,
            final(manager)@,
            r,
            asserted(old(manager)@, id@, corr, accepted_view(accepted), cooldown_secs, now),
        ),
{
    match accepted {
        Err(message) => Ok(refuse(id, corr, message)),
        Ok(()) => {
            let told: Vec<Delivery> = match manager.resolve(
                id,
                ResolveOutcome::Approved,
                "passkey",
                cooldown_secs,
                now,
            ) {
                Ok(told) => told,
                Err(e) => {
                    let message: String = e.message();
                    return match e {
                        ManagerError::ClosedEnvelope { .. } => Ok(refuse(id, corr, message)),
                        _ => Err(message),
                    };
                },
            };
            let mut effects: Vec<Effect> = effects::deliver_all(told);
            effects::then_do(
                &mut effects,
                daemon::record_outcome(id, ResolveOutcome::Approved, "passkey"),
            );
            effects::then_do(
                &mut effects,
                Effect::Relay(
                    DaemonMsg::CeremonyResult {
                        id: id.to_owned(),
                        corr,
                        ok: true,
                        message: "approved".to_owned(),
                    },
                ),
            );
            effects::then_do(
                &mut effects,
                Effect::Relay(
                    DaemonMsg::Verdict { id: id.to_owned(), verdict: "approved".to_owned() },
                ),
            );
            Ok(effects)
        },
    }
}

/// What a denial from the page comes to: the link suffices for it. Where the envelope is decided
/// already, the page is shown again how; an unknown one fails the step.
pub open spec fn denied_by_link(
    m: ManagerView,
    id: Seq<char>,
    cooldown_secs: u64,
    now: u64,
) -> Result<(ManagerView, Seq<EffectView>), Seq<char>> {
    match resolved(m, id, ResolveOutcome::Denied, "link"@, cooldown_secs, now) {
        Err(ManagerErrorView::ClosedEnvelope { state, .. }) => Ok(
            (m, seq![verdict_msg(id, state_name(state))]),
        ),
        Err(e) => Err(manager_error_text(e)),
        Ok((after, told)) => Ok(
            (
                after,
                deliveries(told).push(
                    outcome_record(id, ResolveOutcome::Denied, "link"@),
                ).push(verdict_msg(id, "denied"@)),
            ),
        ),
    }
}

fn denial_made(manager: &mut Manager, id: &str, cooldown_secs: u64, now: u64) -> (r: Result<
    Vec<Effect>,
    String,
>)
    ensures
        step_is(
            old(manager)@,
            final(manager)@,
            r,
            denied_by_link(old(manager)@, id@, cooldown_secs, now),
        ),
{
    let told: Vec<Delivery> = match manager.resolve(
        id,
        ResolveOutcome::Denied,
        "link",
        cooldown_secs,
        now,
    ) {
        Ok(told) => told,
        Err(ManagerError::ClosedEnvelope { state, .. }) => {
            let mut effects: Vec<Effect> = Vec::new();
            assert(effects.deep_view() == Seq::<EffectView>::empty());
            effects::then_do(
                &mut effects,
                Effect::Relay(
                    DaemonMsg::Verdict { id: id.to_owned(), verdict: state.as_str().to_owned() },
                ),
            );
            assert(effects.deep_view() == seq![verdict_msg(id@, state_name(state))]);
            return Ok(effects);
        },
        Err(e) => {
            return Err(e.message());
        },
    };
    let mut effects: Vec<Effect> = effects::deliver_all(told);
    effects::then_do(
        &mut effects,
        daemon::record_outcome(id, ResolveOutcome::Denied, "link"),
    );
    effects::then_do(
        &mut effects,
        Effect::Relay(DaemonMsg::Verdict { id: id.to_owned(), verdict: "denied".to_owned() }),
    );
    Ok(effects)
}

/// What an enrollment's end comes to: where the passkey was accepted, the identity keeps it and is
/// saved before the page is told.
pub open spec fn enrolled(
    identity: IdentityView,
    session: Seq<char>,
    corr: u64,
    outcome: Result<StoredPasskeyView, Seq<char>>,
) -> (IdentityView, Seq<EffectView>) {
    match outcome {
        Ok(passkey) => (
            IdentityView { passkeys: identity.passkeys.push(passkey), ..identity },
            seq![
                EffectView::SaveIdentity,
                EffectView::Relay(
                    DaemonMsgView::EnrollResult {
                        session,
                        corr,
                        ok: true,
                        message: "passkey enrolled"@,
                    },
                ),
            ],
        ),
        Err(message) => (
            identity,
            seq![
                EffectView::Relay(
                    DaemonMsgView::EnrollResult { session, corr, ok: false, message },
                ),
            ],
        ),
    }
}

/// The view of an enrollment's outcome.
pub open spec fn outcome_view(r: Result<StoredPasskey, String>) -> Result<
    StoredPasskeyView,
    Seq<char>,
> {
    match r {
        Ok(p) => Ok(p.deep_view()),
        Err(e) => Err(e@),
    }
}

/// Carries out what an enrollment's end comes to.
pub fn enrollment_ended(
    identity: &mut Identity,
    session: &str,
    corr: u64,
    outcome: Result<StoredPasskey, String>,
) -> (r: Vec<Effect>)
    ensures
        (final(identity).deep_view(), r.deep_view()) == enrolled(
            old(identity).deep_view(),
            session@,
            corr,
            outcome_view(outcome),
        ),
{
    let ghost before = identity.deep_view();
    let mut effects: Vec<Effect> = Vec::new();
    assert(effects.deep_view() == Seq::<EffectView>::empty());
    match outcome {
        Ok(passkey) => {
            let ghost added = passkey.deep_view();
            identity.passkeys.push(passkey);
            assert(identity.deep_view().passkeys == before.passkeys.push(added));
            effects::then_do(&mut effects, Effect::SaveIdentity);
            effects::then_do(
                &mut effects,
                Effect::Relay(
                    DaemonMsg::EnrollResult {
                        session: session.to_owned(),
                        corr,
                        ok: true,
                        message: "passkey enrolled".to_owned(),
                    },
                ),
            );
        },
        Err(message) => {
            effects::then_do(
                &mut effects,
                Effect::Relay(
                    DaemonMsg::EnrollResult {
                        session: session.to_owned(),
                        corr,
                        ok: false,
                        message,
                    },
                ),
            );
        },
    }
    assert(effects.deep_view() == enrolled(before, session@, corr, outcome_view(outcome)).1);
    effects
}

/// The user that a passkey is enrolled for.
pub open spec fn enrolling_user(identity: IdentityView) -> Seq<char> {
    if identity.humans.len() > 0 {
        identity.humans[0]
    } else {
        "judo-human"@
    }
}

/// The user that a passkey is enrolled for.
pub fn user_to_enroll(identity: &Identity) -> (r: String)
    ensures
        r@ == enrolling_user(identity.deep_view()),
{
    if identity.humans.len() > 0 {
        assert(identity.deep_view().humans[0] == identity.humans@[0]@);
        identity.humans[0].clone()
    } else {
        "judo-human".to_owned()
    }
}

/// Everything that the relay's messages act on.
pub struct Pages {
    pub verifier: WebauthnVerifier,
    pub authentications: Ceremonies<PasskeyAuthentication>,
    pub enrollments: StrMap<PasskeyRegistration>,
}

/// Whether two sets of ceremonies are the same.
pub open spec fn same_ceremonies<T>(a: Ceremonies<T>, b: Ceremonies<T>) -> bool {
    forall|id: Seq<char>, choice: Seq<char>| #[trigger] a.at(id, choice) == b.at(id, choice)
}

/// Whether two sets of ceremonies are the same but for one envelope and choice.
pub open spec fn same_but_for<T>(
    a: Ceremonies<T>,
    b: Ceremonies<T>,
    id: Seq<char>,
    choice: Seq<char>,
) -> bool {
    forall|i: Seq<char>, c: Seq<char>|
        i != id || c != choice ==> #[trigger] a.at(i, c) == b.at(i, c)
}

/// Why no authentication begins: a stored passkey cannot be read, or there is no verifier.
pub open spec fn choice_fault(identity: IdentityView, verifier: Working) -> Option<Seq<char>> {
    match (passkeys_of(identity), verifier) {
        (Err(cause), _) => Some(verifier_error_text(VerifierErrorView::PasskeyNotJson { cause })),
        (Ok(_), Err(cause)) => Some(verifier_error_text(VerifierErrorView::Unavailable { cause })),
        (Ok(_), Ok(_)) => None,
    }
}

/// Whether an assertion is accepted: the ceremony must have begun, and the verifier must accept the
/// answer to it.
pub open spec fn acceptance(
    begun: Option<PasskeyAuthentication>,
    verifier: Working,
    response_json: Seq<char>,
) -> Result<(), Seq<char>> {
    match begun {
        None => Err("unknown or already-used ceremony"@),
        Some(state) => match authenticated(verifier, response_json, state) {
            Ok(_) => Ok(()),
            Err(e) => Err(verifier_error_text(e)),
        },
    }
}

/// What an enrollment's end makes: the ceremony must have begun, and the verifier must accept the
/// answer to it.
pub open spec fn enrollment(
    begun: Option<PasskeyRegistration>,
    verifier: Working,
    response_json: Seq<char>,
) -> Result<StoredPasskeyView, Seq<char>> {
    match begun {
        None => Err("unknown or already-used enrollment ceremony"@),
        Some(state) => match registered(verifier, response_json, state, "passkey"@) {
            Ok(passkey) => Ok(passkey),
            Err(e) => Err(verifier_error_text(e)),
        },
    }
}

/// Why no registration begins: there is no verifier, or the user has no name.
pub open spec fn enroll_fault(identity: IdentityView, verifier: Working) -> Option<Seq<char>> {
    match verifier {
        Err(cause) => Some(verifier_error_text(VerifierErrorView::Unavailable { cause })),
        Ok(_) => if enrolling_user(identity).len() == 0 {
            Some(
                verifier_error_text(
                    VerifierErrorView::RegistrationNotStarted {
                        cause: "Invalid User Name supplied for registration"@,
                    },
                ),
            )
        } else {
            None
        },
    }
}

/// The registration that was begun with a token.
pub open spec fn begun_with(
    enrollments: Map<Seq<char>, PasskeyRegistration>,
    token: Seq<char>,
) -> Option<PasskeyRegistration> {
    if enrollments.contains_key(token) {
        Some(enrollments[token])
    } else {
        None
    }
}

/// What the page is told once a registration has begun.
pub open spec fn enroll_options(session: Seq<char>, corr: u64, options_json: Seq<char>) -> EffectView {
    EffectView::Relay(DaemonMsgView::EnrollOptions { session, corr, options_json })
}

/// What is done about a choice: it is recorded, and the page is answered.
pub open spec fn choice_effects(
    id: Seq<char>,
    choice: Seq<char>,
    reply: DaemonMsgView,
) -> Seq<EffectView> {
    seq![
        EffectView::Audit {
            event: "page.choice"@,
            fields: text_fields("id"@, id, "choice"@, choice),
        },
        EffectView::Relay(reply),
    ]
}

/// Whether the page is sent the options of the authentication that has begun with a state.
pub open spec fn options_are_sent(
    id: Seq<char>,
    choice: Seq<char>,
    corr: u64,
    passkeys: Seq<Passkey>,
    verifier: Webauthn,
    state: PasskeyAuthentication,
    effects: Result<Seq<EffectView>, Seq<char>>,
) -> bool {
    exists|options_json: Seq<char>| #[trigger]
        authentication_begun(verifier, passkeys, options_json, state) && effects == Ok::<
            _,
            Seq<char>,
        >(choice_effects(id, choice, choice_reply(id, corr, Ok(options_json))))
}

/// What an event of the approval page comes to.
pub open spec fn page_event_is(
    event: PageEvent,
    id: Seq<char>,
    corr: u64,
    identity: IdentityView,
    verifier: Working,
    before: (ManagerView, Ceremonies<PasskeyAuthentication>),
    after: (ManagerView, Ceremonies<PasskeyAuthentication>),
    r: Result<Vec<Effect>, String>,
    cooldown_secs: u64,
    now: u64,
) -> bool {
    match event {
        PageEvent::Opened => {
            &&& after.0 == before.0
            &&& same_ceremonies(after.1, before.1)
            &&& effects_view(r) == Ok::<_, Seq<char>>(
                seq![
                    EffectView::Audit { event: "page.opened"@, fields: text_field("id"@, id) },
                ],
            )
        },
        PageEvent::Choice { choice } => {
            &&& after.0 == before.0
            &&& same_but_for(after.1, before.1, id, choice@)
            &&& match choice_fault(identity, verifier) {
                Some(message) => {
                    &&& after.1.at(id, choice@) == before.1.at(id, choice@)
                    &&& effects_view(r) == Ok::<_, Seq<char>>(
                        choice_effects(id, choice@, choice_reply(id, corr, Err(message))),
                    )
                },
                None => {
                    &&& after.1.at(id, choice@) matches Some((state, at))
                    &&& at == now
                    &&& options_are_sent(
                        id,
                        choice@,
                        corr,
                        passkeys_of(identity)->Ok_0,
                        verifier->Ok_0,
                        state,
                        effects_view(r),
                    )
                },
            }
        },
        PageEvent::Assertion { response_json, choice } => {
            &&& after.1.at(id, choice@) is None
            &&& same_but_for(after.1, before.1, id, choice@)
            &&& step_is(
                before.0,
                after.0,
                r,
                asserted(
                    before.0,
                    id,
                    corr,
                    acceptance(live(before.1.at(id, choice@), now), verifier, response_json@),
                    cooldown_secs,
                    now,
                ),
            )
        },
        PageEvent::Deny => {
            &&& same_ceremonies(after.1, before.1)
            &&& step_is(
                before.0,
                after.0,
                r,
                denied_by_link(before.0, id, cooldown_secs, now),
            )
        },
    }
}

/// What an event of the enrollment page comes to.
pub open spec fn enroll_event_is(
    event: EnrollEvent,
    session: Seq<char>,
    corr: u64,
    verifier: Working,
    identity: IdentityView,
    identity_after: IdentityView,
    begun: Map<Seq<char>, PasskeyRegistration>,
    begun_after: Map<Seq<char>, PasskeyRegistration>,
    r: Result<Vec<Effect>, String>,
) -> bool {
    match event {
        EnrollEvent::Begin { token } => {
            &&& identity_after == identity
            &&& match enroll_fault(identity, verifier) {
                Some(why) => {
                    &&& begun_after == begun
                    &&& effects_view(r) == Err::<Seq<EffectView>, _>(why)
                },
                None => {
                    &&& begun_after.contains_key(token@)
                    &&& begun_after.remove(token@) == begun.remove(token@)
                    &&& exists|options_json: Seq<char>|
                        effects_view(r) == Ok::<_, Seq<char>>(
                            seq![enroll_options(session, corr, options_json)],
                        ) && #[trigger] registration_begun(
                            verifier->Ok_0,
                            enrolling_user(identity),
                            options_json,
                            begun_after[token@],
                        )
                },
            }
        },
        EnrollEvent::Finish { token, response_json } => {
            let outcome = enrollment(begun_with(begun, token@), verifier, response_json@);
            &&& begun_after == begun.remove(token@)
            &&& identity_after == enrolled(identity, session, corr, outcome).0
            &&& effects_view(r) == Ok::<_, Seq<char>>(
                enrolled(identity, session, corr, outcome).1,
            )
        },
    }
}

impl Pages {
    fn authenticate(&mut self, id: &str, choice: &str, response_json: &str, now: u64) -> (r: Result<
        (),
        String,
    >)
        ensures
            final(self).enrollments == old(self).enrollments,
            final(self).verifier == old(self).verifier,
            final(self).authentications.at(id@, choice@) is None,
            same_but_for(
                final(self).authentications,
                old(self).authentications,
                id@,
                choice@,
            ),
            accepted_view(r) == acceptance(
                live(old(self).authentications.at(id@, choice@), now),
                old(self).verifier@,
                response_json@,
            ),
    {
        match self.authentications.take(id, choice, now) {
            None => Err("unknown or already-used ceremony".to_owned()),
            Some(state) => match self.verifier.finish_authentication(response_json, &state) {
                Ok(()) => Ok(()),
                Err(e) => Err(e.message()),
            },
        }
    }

    fn enroll(&mut self, token: &str, response_json: &str) -> (r: Result<StoredPasskey, String>)
        ensures
            final(self).authentications == old(self).authentications,
            final(self).verifier == old(self).verifier,
            final(self).enrollments@ == old(self).enrollments@.remove(token@),
            outcome_view(r) == enrollment(
                begun_with(old(self).enrollments@, token@),
                old(self).verifier@,
                response_json@,
            ),
    {
        match self.enrollments.remove(token) {
            None => Err("unknown or already-used enrollment ceremony".to_owned()),
            Some(state) => match self.verifier.finish_registration(
                response_json,
                &state,
                "passkey",
            ) {
                Ok(p) => Ok(p),
                Err(e) => Err(e.message()),
            },
        }
    }
}

/// Handles an event of the approval page. An assertion counts only for the envelope and the choice
/// that its ceremony was begun for, once, and not too late.
pub fn handle_page_event(
    pages: &mut Pages,
    manager: &mut Manager,
    identity: &Identity,
    id: &str,
    corr: u64,
    event: &PageEvent,
    cooldown_secs: u64,
    now: u64,
) -> (r: Result<Vec<Effect>, String>)
    ensures
        final(pages).enrollments == old(pages).enrollments,
        final(pages).verifier == old(pages).verifier,
        page_event_is(
            *event,
            id@,
            corr,
            identity.deep_view(),
            old(pages).verifier@,
            (old(manager)@, old(pages).authentications),
            (final(manager)@, final(pages).authentications),
            r,
            cooldown_secs,
            now,
        ),
{
    let mut effects: Vec<Effect> = Vec::new();
    assert(effects.deep_view() == Seq::<EffectView>::empty());
    match event {
        PageEvent::Opened => {
            effects::then_do(
                &mut effects,
                Effect::Audit {
                    event: "page.opened".to_owned(),
                    fields: effects::with_text("id", id),
                },
            );
            assert(effects.deep_view() == seq![
                EffectView::Audit { event: "page.opened"@, fields: text_field("id"@, id@) },
            ]);
            Ok(effects)
        },
        PageEvent::Choice { choice } => {
            let started: Result<(String, PasskeyAuthentication), VerifierError> =
                pages.verifier.start_authentication(identity);
            let ghost made = started;
            let ghost view = started_view(started);
            let reply: DaemonMsg = choice_made(
                &mut pages.authentications,
                id,
                corr,
                choice.as_str(),
                started,
                now,
            );
            assert(reply.deep_view() == choice_reply(id@, corr, view));
            effects::then_do(
                &mut effects,
                Effect::Audit {
                    event: "page.choice".to_owned(),
                    fields: effects::with_texts("id", id, "choice", choice.as_str()),
                },
            );
            effects::then_do(&mut effects, Effect::Relay(reply));
            assert(effects.deep_view() == choice_effects(
                id@,
                choice@,
                choice_reply(id@, corr, view),
            ));
            proof {
                if let Ok((options_json, state)) = made {
                    assert(pages.authentications.at(id@, choice@) == Some((state, now)));
                    assert(authentication_begun(
                        pages.verifier@->Ok_0,
                        passkeys_of(identity.deep_view())->Ok_0,
                        options_json@,
                        state,
                    ));
                }
            }
            Ok(effects)
        },
        PageEvent::Assertion { response_json, choice } => {
            let accepted: Result<(), String> = pages.authenticate(
                id,
                choice.as_str(),
                response_json.as_str(),
                now,
            );
            let ghost view = accepted_view(accepted);
            assert(asserted(old(manager)@, id@, corr, view, cooldown_secs, now) == asserted(
                old(manager)@,
                id@,
                corr,
                accepted_view(accepted),
                cooldown_secs,
                now,
            ));
            assertion_made(manager, id, corr, accepted, cooldown_secs, now)
        },
        PageEvent::Deny => denial_made(manager, id, cooldown_secs, now),
    }
}

/// Handles an event of the enrollment page. A token's registration can be ended once.
pub fn handle_enroll_event(
    pages: &mut Pages,
    identity: &mut Identity,
    session: &str,
    corr: u64,
    event: &EnrollEvent,
) -> (r: Result<Vec<Effect>, String>)
    ensures
        final(pages).authentications == old(pages).authentications,
        final(pages).verifier == old(pages).verifier,
        enroll_event_is(
            *event,
            session@,
            corr,
            old(pages).verifier@,
            old(identity).deep_view(),
            final(identity).deep_view(),
            old(pages).enrollments@,
            final(pages).enrollments@,
            r,
        ),
{
    match event {
        EnrollEvent::Begin { token } => {
            let user: String = user_to_enroll(identity);
            match pages.verifier.start_registration(user.as_str()) {
                Err(e) => Err(e.message()),
                Ok((options_json, state)) => {
                    let ghost before = pages.enrollments@;
                    let ghost options = options_json@;
                    pages.enrollments.insert(token.clone(), state);
                    assert(pages.enrollments@.remove(token@) =~= before.remove(token@));
                    let mut effects: Vec<Effect> = Vec::new();
                    assert(effects.deep_view() == Seq::<EffectView>::empty());
                    effects::then_do(
                        &mut effects,
                        Effect::Relay(
                            DaemonMsg::EnrollOptions {
                                session: session.to_owned(),
                                corr,
                                options_json,
                            },
                        ),
                    );
                    assert(effects.deep_view() == seq![enroll_options(session@, corr, options)]);
                    assert(registration_begun(
                        pages.verifier@->Ok_0,
                        user@,
                        options,
                        pages.enrollments@[token@],
                    ));
                    Ok(effects)
                },
            }
        },
        EnrollEvent::Finish { token, response_json } => {
            let outcome: Result<StoredPasskey, String> = pages.enroll(
                token.as_str(),
                response_json.as_str(),
            );
            let ghost view = outcome_view(outcome);
            let effects: Vec<Effect> = enrollment_ended(identity, session, corr, outcome);
            assert(effects.deep_view() == enrolled(
                old(identity).deep_view(),
                session@,
                corr,
                view,
            ).1);
            Ok(effects)
        },
    }
}

/// Handles a message of the relay. An error ends the connection to it.
pub fn handle_relay_msg(
    pages: &mut Pages,
    manager: &mut Manager,
    identity: &mut Identity,
    msg: &RelayMsg,
    cooldown_secs: u64,
    now: u64,
) -> (r: Result<Vec<Effect>, String>)
    ensures
        final(pages).verifier == old(pages).verifier,
        match *msg {
            RelayMsg::PageEvent { id, corr, event } => {
                &&& final(identity).deep_view() == old(identity).deep_view()
                &&& final(pages).enrollments == old(pages).enrollments
                &&& page_event_is(
                    event,
                    id@,
                    corr,
                    old(identity).deep_view(),
                    old(pages).verifier@,
                    (old(manager)@, old(pages).authentications),
                    (final(manager)@, final(pages).authentications),
                    r,
                    cooldown_secs,
                    now,
                )
            },
            RelayMsg::EnrollEvent { session, corr, event } => {
                &&& final(manager)@ == old(manager)@
                &&& final(pages).authentications == old(pages).authentications
                &&& enroll_event_is(
                    event,
                    session@,
                    corr,
                    old(pages).verifier@,
                    old(identity).deep_view(),
                    final(identity).deep_view(),
                    old(pages).enrollments@,
                    final(pages).enrollments@,
                    r,
                )
            },
        },
{
    match msg {
        RelayMsg::PageEvent { id, corr, event } => handle_page_event(
            pages,
            manager,
            identity,
            id.as_str(),
            *corr,
            event,
            cooldown_secs,
            now,
        ),
        RelayMsg::EnrollEvent { session, corr, event } => handle_enroll_event(
            pages,
            identity,
            session.as_str(),
            *corr,
            event,
        ),
    }
}

/// The relay cannot forge an approval: of all that a page can send, only an assertion that the
/// verifier accepts, for an envelope and a choice whose ceremony has begun, can make an envelope
/// approved.
pub proof fn pages_cannot_forge_approvals(
    event: PageEvent,
    id: Seq<char>,
    corr: u64,
    identity: IdentityView,
    verifier: Working,
    before: (ManagerView, Ceremonies<PasskeyAuthentication>),
    after: (ManagerView, Ceremonies<PasskeyAuthentication>),
    r: Result<Vec<Effect>, String>,
    cooldown_secs: u64,
    now: u64,
)
    requires
        page_event_is(event, id, corr, identity, verifier, before, after, r, cooldown_secs, now),
        event matches PageEvent::Assertion { response_json, choice } ==> acceptance(
            live(before.1.at(id, choice@), now),
            verifier,
            response_json@,
        ) is Err,
    ensures
        no_approval_gained(before.0, after.0),
{
}

/// A ceremony serves once: after an assertion for an envelope and a choice, the same assertion
/// changes nothing, until the choice is made anew.
pub proof fn ceremonies_serve_once(
    response_json: String,
    choice: String,
    id: Seq<char>,
    corr: u64,
    identity: IdentityView,
    verifier: Working,
    before: (ManagerView, Ceremonies<PasskeyAuthentication>),
    between: (ManagerView, Ceremonies<PasskeyAuthentication>),
    after: (ManagerView, Ceremonies<PasskeyAuthentication>),
    r1: Result<Vec<Effect>, String>,
    r2: Result<Vec<Effect>, String>,
    cooldown_secs: u64,
    now: u64,
)
    requires
        page_event_is(
            (PageEvent::Assertion { response_json, choice }),
            id,
            corr,
            identity,
            verifier,
            before,
            between,
            r1,
            cooldown_secs,
            now,
        ),
        page_event_is(
            (PageEvent::Assertion { response_json, choice }),
            id,
            corr,
            identity,
            verifier,
            between,
            after,
            r2,
            cooldown_secs,
            now,
        ),
    ensures
        after.0 == between.0,
{
}

/// A ceremony ends by time: an answer that comes too late changes nothing.
pub proof fn late_answers_change_nothing(
    response_json: String,
    choice: String,
    id: Seq<char>,
    corr: u64,
    identity: IdentityView,
    verifier: Working,
    before: (ManagerView, Ceremonies<PasskeyAuthentication>),
    after: (ManagerView, Ceremonies<PasskeyAuthentication>),
    r: Result<Vec<Effect>, String>,
    cooldown_secs: u64,
    now: u64,
)
    requires
        page_event_is(
            (PageEvent::Assertion { response_json, choice }),
            id,
            corr,
            identity,
            verifier,
            before,
            after,
            r,
            cooldown_secs,
            now,
        ),
        before.1.at(id, choice@) matches Some((_, at)) ==> now > at + CEREMONY_SECS * SECOND,
    ensures
        after.0 == before.0,
{
}

/// What a page decides is recorded: an approval and a denial wherever they change anything, and
/// every assertion that is not accepted.
pub proof fn page_decisions_are_recorded(
    m: ManagerView,
    id: Seq<char>,
    corr: u64,
    accepted: Result<(), Seq<char>>,
    cooldown_secs: u64,
    now: u64,
)
    ensures
        asserted(m, id, corr, accepted, cooldown_secs, now) matches Ok((_, effects)) ==> is_recorded(
            effects,
            id,
        ),
        denied_by_link(m, id, cooldown_secs, now) matches Ok((after, effects)) ==> (after != m
            ==> is_recorded(effects, id)),
{
    daemon::lemma_outcome_names(id, ResolveOutcome::Approved, "passkey"@);
    daemon::lemma_outcome_names(id, ResolveOutcome::Denied, "link"@);
    reveal_strlit("id");
    reveal_strlit("error");
    assert("id"@.len() != "error"@.len());
    if let Ok((_, effects)) = asserted(m, id, corr, accepted, cooldown_secs, now) {
        match resolved(m, id, ResolveOutcome::Approved, "passkey"@, cooldown_secs, now) {
            Ok((_, told)) => {
                if accepted is Ok {
                    assert(names(effects[deliveries(told).len() as int], id));
                } else {
                    assert(names(effects[0], id));
                }
            },
            Err(_) => {
                assert(names(effects[0], id));
            },
        }
    }
    if let Ok((_, told)) = resolved(m, id, ResolveOutcome::Denied, "link"@, cooldown_secs, now) {
        if let Ok((_, effects)) = denied_by_link(m, id, cooldown_secs, now) {
            assert(names(effects[deliveries(told).len() as int], id));
        }
    }
}

} // verus!
