//! What the pages' ceremonies come to: whom an accepted assertion lets through, whom a denial refuses,
//! and what an enrollment leaves in the identity.

use crate::audit::AuditValueView;
use crate::ceremonies::{
    choice_fault, effects_view, enroll_event_is, page_event_is, Ceremonies,
};
use crate::config::{IdentityView, StoredPasskeyView};
use crate::daemon_laws::{
    answers_with, awaits_decision, is_announced, is_approved, is_denied, lemma_pair_names,
    records_pair,
};
use crate::effects::{Effect, EffectView};
use crate::envelope_laws::{approvals_let_through, denials_refuse, idle_decisions_are_refused};
use crate::manager::{EnvelopeState, ManagerView, ResolveOutcome};
use crate::proto::{DaemonMsgView, EnrollEvent, PageEvent};
use crate::webauthn::{
    assertion_read, authentication_begun, authentication_fault, passkey_read, passkeys_of,
    passkeys_read, registration_begun, registration_ended, registration_read, Working,
};
use vstd::prelude::*;
use webauthn_rs::prelude::{PasskeyAuthentication, PasskeyRegistration};

verus! {

/// The verifier accepts an answer to an authentication.
pub open spec fn accepts(
    verifier: Working,
    response_json: Seq<char>,
    state: PasskeyAuthentication,
) -> bool {
    verifier matches Ok(v) && (assertion_read(response_json) matches Ok(answer)
        && authentication_fault(v, answer, state) is None)
}

/// A ceremony has begun, not more than five minutes ago.
pub open spec fn is_under_way(
    begun: Option<(PasskeyAuthentication, u64)>,
    state: PasskeyAuthentication,
    now: u64,
) -> bool {
    begun matches Some((s, at)) && s == state && now <= at + 300_000_000_000
}

/// An assertion that the verifier accepts, in time and for the ceremony of its envelope and choice,
/// approves that envelope: whoever waited is allowed, the approval is recorded, and page and relay are
/// told.
pub proof fn accepted_assertions_approve(
    response_json: String,
    choice: String,
    state: PasskeyAuthentication,
    id: Seq<char>,
    corr: u64,
    identity: IdentityView,
    verifier: Working,
    before: (ManagerView, Ceremonies<PasskeyAuthentication>),
    after: (ManagerView, Ceremonies<PasskeyAuthentication>),
    r: Result<Vec<Effect>, String>,
    cooldown_secs: u64,
    now: u64,
)
    requires
        page_event_is(
            (PageEvent::Assertion { response_json, choice }),
            id,
            corr,
            identity,
            verifier,
            before,
            after,
            r,
            cooldown_secs,
            now,
        ),
        awaits_decision(before.0, id),
        is_under_way(before.1.at(id, choice@), state, now),
        accepts(verifier, response_json@, state),
    ensures
        is_approved(before.0, after.0, id),
        after.1.at(id, choice@) is None,
        effects_view(r) matches Ok(effects) && {
            let n = before.0.envelopes[id].waiters.len() as int;
            &&& effects.len() == n + 3
            &&& forall|i: int|
                0 <= i < n ==> answers_with(
                    #[trigger] effects[i],
                    before.0.envelopes[id].waiters[i],
                    "allow"@,
                    "approved by passkey; proceeding"@,
                )
            &&& records_pair(
                effects[n],
                "envelope.approved"@,
                "id"@,
                id,
                "source"@,
                "passkey"@,
            )
            &&& effects[n + 1] == EffectView::Relay(
                DaemonMsgView::CeremonyResult { id, corr, ok: true, message: "approved"@ },
            )
            &&& effects[n + 2] == EffectView::Relay(
                DaemonMsgView::Verdict { id, verdict: "approved"@ },
            )
        },
{
    lemma_pair_names();
    approvals_let_through(before.0, id, "passkey"@, cooldown_secs, now);
    reveal_strlit("approved by ");
    reveal_strlit("passkey");
    reveal_strlit("; proceeding");
    reveal_strlit("approved by passkey; proceeding");
    assert("approved by "@ + "passkey"@ + "; proceeding"@ =~= "approved by passkey; proceeding"@);
    let n = before.0.envelopes[id].waiters.len() as int;
    let effects = effects_view(r)->Ok_0;
    assert(effects[n] matches EffectView::Audit { event, fields } && fields.dom() =~= set![
        "id"@,
        "source"@,
    ]);
}

/// An assertion that the verifier does not accept, or whose ceremony has not begun, or is over, decides
/// nothing: that is recorded, and the page is told that it failed.
pub proof fn refused_assertions_decide_nothing(
    response_json: String,
    choice: String,
    id: Seq<char>,
    corr: u64,
    identity: IdentityView,
    verifier: Working,
    before: (ManagerView, Ceremonies<PasskeyAuthentication>),
    after: (ManagerView, Ceremonies<PasskeyAuthentication>),
    r: Result<Vec<Effect>, String>,
    cooldown_secs: u64,
    now: u64,
)
    requires
        page_event_is(
            (PageEvent::Assertion { response_json, choice }),
            id,
            corr,
            identity,
            verifier,
            before,
            after,
            r,
            cooldown_secs,
            now,
        ),
        forall|state: PasskeyAuthentication| #[trigger]
            is_under_way(before.1.at(id, choice@), state, now) ==> !accepts(
                verifier,
                response_json@,
                state,
            ),
    ensures
        after.0 == before.0,
        after.1.at(id, choice@) is None,
        effects_view(r) matches Ok(effects) && {
            &&& effects.len() == 2
            &&& effects[0] matches EffectView::Audit { event, fields } && event
                == "ceremony.failed"@ && fields["id"@] == AuditValueView::Text(id)
            &&& effects[1] matches EffectView::Relay(
                DaemonMsgView::CeremonyResult { id: i, corr: c, ok, message },
            ) && i == id && c == corr && !ok && {
                let begun = before.1.at(id, choice@);
                let over = begun matches Some((_, at)) && now > at + 300_000_000_000;
                begun is None || over ==> message == "unknown or already-used ceremony"@
            }
        },
{
    reveal_strlit("id");
    reveal_strlit("error");
    assert("id"@.len() != "error"@.len());
    if let Some((state, at)) = before.1.at(id, choice@) {
        assert(is_under_way(before.1.at(id, choice@), state, now) <==> now <= at
            + 300_000_000_000);
    }
}

/// A denial from the page denies: the link suffices. Whoever waited is refused, the denial is recorded,
/// and the relay is told.
pub proof fn page_denials_refuse(
    id: Seq<char>,
    corr: u64,
    identity: IdentityView,
    verifier: Working,
    before: (ManagerView, Ceremonies<PasskeyAuthentication>),
    after: (ManagerView, Ceremonies<PasskeyAuthentication>),
    r: Result<Vec<Effect>, String>,
    cooldown_secs: u64,
    now: u64,
)
    requires
        page_event_is(
            PageEvent::Deny,
            id,
            corr,
            identity,
            verifier,
            before,
            after,
            r,
            cooldown_secs,
            now,
        ),
        awaits_decision(before.0, id),
    ensures
        is_denied(before.0, after.0, id, cooldown_secs, now),
        effects_view(r) matches Ok(effects) && is_announced(
            effects,
            before.0.envelopes[id].waiters,
            "deny"@,
            "denied by "@ + "link"@ + " — do not retry; the human explicitly rejected this."@,
            id,
            "envelope.denied"@,
            "link"@,
            "denied"@,
        ),
{
    lemma_pair_names();
    denials_refuse(before.0, id, "link"@, cooldown_secs, now);
    let n = before.0.envelopes[id].waiters.len() as int;
    let effects = effects_view(r)->Ok_0;
    assert(effects[n] matches EffectView::Audit { event, fields } && fields.dom() =~= set![
        "id"@,
        "source"@,
    ]);
}

/// A denial from the page of an envelope that is decided already changes nothing, and the page is shown
/// again how it was decided.
pub proof fn late_page_denials_show_the_outcome(
    id: Seq<char>,
    corr: u64,
    identity: IdentityView,
    verifier: Working,
    before: (ManagerView, Ceremonies<PasskeyAuthentication>),
    after: (ManagerView, Ceremonies<PasskeyAuthentication>),
    r: Result<Vec<Effect>, String>,
    cooldown_secs: u64,
    now: u64,
)
    requires
        page_event_is(
            PageEvent::Deny,
            id,
            corr,
            identity,
            verifier,
            before,
            after,
            r,
            cooldown_secs,
            now,
        ),
        !awaits_decision(before.0, id),
    ensures
        after.0 == before.0,
        !before.0.envelopes.contains_key(id) ==> effects_view(r) is Err,
        before.0.envelopes.contains_key(id) ==> (effects_view(r) matches Ok(effects) && {
            let state = before.0.envelopes[id].state;
            &&& effects.len() == 1
            &&& effects[0] matches EffectView::Relay(DaemonMsgView::Verdict { id: i, verdict }) && i
                == id && {
                &&& state == EnvelopeState::Approved ==> verdict == "approved"@
                &&& state == EnvelopeState::Denied ==> verdict == "denied"@
                &&& state == EnvelopeState::Cancelled ==> verdict == "cancelled"@
            }
        }),
{
    idle_decisions_are_refused(
        before.0,
        id,
        ResolveOutcome::Denied,
        "link"@,
        cooldown_secs,
        now,
    );
}

/// A choice that can begin a ceremony begins one, now, for its envelope and itself: the page gets the
/// options that belong to it. One that cannot is answered that it failed. Either is recorded.
pub proof fn choices_begin_their_ceremony(
    choice: String,
    id: Seq<char>,
    corr: u64,
    identity: IdentityView,
    verifier: Working,
    before: (ManagerView, Ceremonies<PasskeyAuthentication>),
    after: (ManagerView, Ceremonies<PasskeyAuthentication>),
    r: Result<Vec<Effect>, String>,
    cooldown_secs: u64,
    now: u64,
)
    requires
        page_event_is(
            (PageEvent::Choice { choice }),
            id,
            corr,
            identity,
            verifier,
            before,
            after,
            r,
            cooldown_secs,
            now,
        ),
    ensures
        after.0 == before.0,
        choice_fault(identity, verifier) is None <==> verifier is Ok && passkeys_of(identity) is Ok,
        effects_view(r) matches Ok(effects) && {
            &&& effects.len() == 2
            &&& effects[0] matches EffectView::Audit { event, fields } && event == "page.choice"@
                && fields["id"@] == AuditValueView::Text(id) && fields["choice"@]
                == AuditValueView::Text(choice@)
            &&& verifier is Ok && passkeys_of(identity) is Ok ==> {
                &&& after.1.at(id, choice@) matches Some((state, at)) && at == now && (effects[1]
                    matches EffectView::Relay(
                    DaemonMsgView::CeremonyOptions { id: i, corr: c, options_json },
                ) && i == id && c == corr && authentication_begun(
                    verifier->Ok_0,
                    passkeys_of(identity)->Ok_0,
                    options_json,
                    state,
                ))
            }
            &&& verifier is Err || passkeys_of(identity) is Err ==> {
                &&& after.1.at(id, choice@) == before.1.at(id, choice@)
                &&& effects[1] matches EffectView::Relay(
                    DaemonMsgView::CeremonyResult { id: i, corr: c, ok, message },
                ) && i == id && c == corr && !ok
            }
        },
{
    reveal_strlit("id");
    reveal_strlit("choice");
    assert("id"@.len() != "choice"@.len());
}

/// A ceremony that was begun is under way for five minutes.
pub proof fn ceremonies_last_five_minutes(
    begun: Option<(PasskeyAuthentication, u64)>,
    now: u64,
)
    ensures
        crate::ceremonies::live(begun, now) == match begun {
            Some((state, at)) => if now <= at + 300_000_000_000 {
                Some(state)
            } else {
                None
            },
            None => None,
        },
{
}

/// An enrollment that the verifier accepts adds its passkey to the identity and changes nothing else
/// of it; the identity is saved before the page is told that it is enrolled.
pub proof fn accepted_enrollments_are_kept(
    token: String,
    response_json: String,
    session: Seq<char>,
    corr: u64,
    verifier: Working,
    identity: IdentityView,
    identity_after: IdentityView,
    begun: Map<Seq<char>, PasskeyRegistration>,
    begun_after: Map<Seq<char>, PasskeyRegistration>,
    r: Result<Vec<Effect>, String>,
)
    requires
        enroll_event_is(
            (EnrollEvent::Finish { token, response_json }),
            session,
            corr,
            verifier,
            identity,
            identity_after,
            begun,
            begun_after,
            r,
        ),
        begun.contains_key(token@),
        verifier is Ok,
        registration_read(response_json@) is Ok,
        registration_ended(
            verifier->Ok_0,
            registration_read(response_json@)->Ok_0,
            begun[token@],
        ) is Ok,
    ensures
        identity_after.passkeys == identity.passkeys.push(
            StoredPasskeyView {
                label: "passkey"@,
                passkey_json: registration_ended(
                    verifier->Ok_0,
                    registration_read(response_json@)->Ok_0,
                    begun[token@],
                )->Ok_0,
            },
        ),
        is_otherwise_the_same(identity, identity_after),
        !begun_after.contains_key(token@),
        effects_view(r) matches Ok(effects) && {
            &&& effects.len() == 2
            &&& effects[0] is SaveIdentity
            &&& effects[1] == EffectView::Relay(
                DaemonMsgView::EnrollResult {
                    session,
                    corr,
                    ok: true,
                    message: "passkey enrolled"@,
                },
            )
        },
{
}

/// Two identities differ at most in their passkeys.
pub open spec fn is_otherwise_the_same(a: IdentityView, b: IdentityView) -> bool {
    &&& a.daemon_id == b.daemon_id
    &&& a.ed25519_secret_b64 == b.ed25519_secret_b64
    &&& a.ed25519_public_b64 == b.ed25519_public_b64
    &&& a.relay_url == b.relay_url
    &&& a.humans == b.humans
    &&& a.ntfy_topic == b.ntfy_topic
    &&& a.trusted == b.trusted
}

/// An enrollment that has not begun, or that the verifier does not accept, leaves the identity as it
/// is, and the page is told that it failed.
pub proof fn refused_enrollments_leave_the_identity(
    token: String,
    response_json: String,
    session: Seq<char>,
    corr: u64,
    verifier: Working,
    identity: IdentityView,
    identity_after: IdentityView,
    begun: Map<Seq<char>, PasskeyRegistration>,
    begun_after: Map<Seq<char>, PasskeyRegistration>,
    r: Result<Vec<Effect>, String>,
)
    requires
        enroll_event_is(
            (EnrollEvent::Finish { token, response_json }),
            session,
            corr,
            verifier,
            identity,
            identity_after,
            begun,
            begun_after,
            r,
        ),
        !begun.contains_key(token@) || verifier is Err || registration_read(response_json@) is Err
            || registration_ended(
            verifier->Ok_0,
            registration_read(response_json@)->Ok_0,
            begun[token@],
        ) is Err,
    ensures
        identity_after == identity,
        effects_view(r) matches Ok(effects) && {
            &&& effects.len() == 1
            &&& effects[0] matches EffectView::Relay(
                DaemonMsgView::EnrollResult { session: s, corr: c, ok, message },
            ) && s == session && c == corr && !ok && (!begun.contains_key(token@) ==> message
                == "unknown or already-used enrollment ceremony"@)
        },
{
}

/// An enrollment begins for the first of the declared humans, or for the stand-in where none is
/// declared, and the page gets the options that belong to it.
pub proof fn enrollments_begin_for_the_first_human(
    token: String,
    session: Seq<char>,
    corr: u64,
    verifier: Working,
    identity: IdentityView,
    identity_after: IdentityView,
    begun: Map<Seq<char>, PasskeyRegistration>,
    begun_after: Map<Seq<char>, PasskeyRegistration>,
    r: Result<Vec<Effect>, String>,
    user: Seq<char>,
)
    requires
        enroll_event_is(
            (EnrollEvent::Begin { token }),
            session,
            corr,
            verifier,
            identity,
            identity_after,
            begun,
            begun_after,
            r,
        ),
        identity.humans.len() > 0 ==> user == identity.humans[0],
        identity.humans.len() == 0 ==> user == "judo-human"@,
    ensures
        identity_after == identity,
        verifier is Ok && user.len() > 0 ==> {
            &&& begun_after.contains_key(token@)
            &&& effects_view(r) matches Ok(effects) && effects.len() == 1 && (effects[0]
                matches EffectView::Relay(
                DaemonMsgView::EnrollOptions { session: s, corr: c, options_json },
            ) && s == session && c == corr && registration_begun(
                verifier->Ok_0,
                user,
                options_json,
                begun_after[token@],
            ))
        },
        verifier is Err || user.len() == 0 ==> begun_after == begun && effects_view(r) is Err,
{
}

/// All stored passkeys count, each as it was stored; where one cannot be read, none does.
pub proof fn every_stored_passkey_counts(identity: IdentityView)
    ensures
        passkeys_of(identity) matches Ok(list) ==> list.len() == identity.passkeys.len()
            && forall|i: int|
            0 <= i < list.len() ==> passkey_read(
                (#[trigger] identity.passkeys[i]).passkey_json,
            ) == Ok::<_, Seq<char>>(list[i]),
        passkeys_of(identity) is Err ==> exists|i: int|
            0 <= i < identity.passkeys.len() && passkey_read(
                (#[trigger] identity.passkeys[i]).passkey_json,
            ) is Err,
{
    let jsons = identity.passkeys.map_values(|p: StoredPasskeyView| p.passkey_json);
    lemma_passkeys_read(jsons, jsons.len() as int);
    if passkeys_of(identity) is Err {
        let i = choose|i: int| 0 <= i < jsons.len() && passkey_read(#[trigger] jsons[i]) is Err;
        assert(jsons[i] == identity.passkeys[i].passkey_json);
    }
    if let Ok(list) = passkeys_of(identity) {
        assert forall|i: int| 0 <= i < list.len() implies passkey_read(
            (#[trigger] identity.passkeys[i]).passkey_json,
        ) == Ok::<_, Seq<char>>(list[i]) by {
            assert(jsons[i] == identity.passkeys[i].passkey_json);
        }
    }
}

proof fn lemma_passkeys_read(jsons: Seq<Seq<char>>, n: int)
    requires
        0 <= n <= jsons.len(),
    ensures
        passkeys_read(jsons, n) matches Ok(list) ==> list.len() == n && forall|i: int|
            0 <= i < n ==> passkey_read(#[trigger] jsons[i]) == Ok::<_, Seq<char>>(list[i]),
        passkeys_read(jsons, n) is Err ==> exists|i: int|
            0 <= i < n && passkey_read(#[trigger] jsons[i]) is Err,
    decreases n,
{
    if n > 0 {
        lemma_passkeys_read(jsons, n - 1);
        if passkeys_read(jsons, n) is Err && passkeys_read(jsons, n - 1) is Ok {
            assert(passkey_read(jsons[n - 1]) is Err);
        }
    }
}

} // verus!
