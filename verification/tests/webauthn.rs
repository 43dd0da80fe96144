use judo::ceremonies::{
    assertion_made, choice_made, enrollment_ended, handle_relay_msg, user_to_enroll, Ceremonies,
    Pages, CEREMONY_SECS,
};
use judo::config::{ConfigError, Identity, StoredPasskey};
use judo::effects::Effect;
use judo::keys::CoalesceKey;
use judo::manager::{Ask, Delivery, Manager, SECOND};
use judo::proto::{
    DaemonMsg, EnrollEvent, EnvelopeBody, LocalResp, PageEvent, RelayMsg,
};
use judo::table::StrMap;
use judo::webauthn::{VerifierError, WebauthnVerifier};
use serde_json::Value;

fn identity() -> Identity {
    Identity {
        daemon_id: "d".to_string(),
        ed25519_secret_b64: "s".to_string(),
        ed25519_public_b64: "p".to_string(),
        relay_url: "wss://judo.stillard.com/daemon".to_string(),
        humans: vec!["alice".to_string()],
        ntfy_topic: "log".to_string(),
        passkeys: vec![],
        trusted: vec![],
    }
}

fn pages(relay: &str) -> Pages {
    Pages {
        verifier: WebauthnVerifier::new(relay, None).unwrap(),
        authentications: Ceremonies::new(),
        enrollments: StrMap::new(),
    }
}

fn manager_with(id: &str) -> Manager {
    let mut m = Manager::at_origin("https://judo.dev".to_string());
    let ask = Ask {
        key: CoalesceKey {
            digest: "d".to_string(),
            uid: 1,
            workspace: "/w".to_string(),
        },
        body: EnvelopeBody {
            argv: vec![],
            cwd: "/w".to_string(),
            runas: "root".to_string(),
            uid: 1,
            agent_user: "agent".to_string(),
            harness: None,
            workspace: "/w".to_string(),
            summary: "s".to_string(),
            categories: vec![],
            ttl_offer: None,
        },
        command: "ls".to_string(),
        timeout_secs: 30,
        now: 0,
        now_unix: 0,
    };
    m.create(ask, id.to_string(), "ct".to_string(), "key").unwrap();
    m
}

fn page(event: PageEvent) -> RelayMsg {
    RelayMsg::PageEvent { id: "E1".to_string(), corr: 4, event }
}

fn enroll(event: EnrollEvent) -> RelayMsg {
    RelayMsg::EnrollEvent { session: "t".to_string(), corr: 5, event }
}

fn audited(effect: &Effect) -> (&str, Vec<String>) {
    match effect {
        Effect::Audit { event, fields } => (
            event,
            (0..fields.len()).map(|i| format!("{}={:?}", fields.key_at(i), fields.value_at(i))).collect(),
        ),
        other => panic!("{:?}", other),
    }
}

#[test]
fn new_derives_rp_id_from_relay_url() {
    let verifier =
        WebauthnVerifier::new("wss://judo.stillard.com/daemon", None).expect("build verifier");
    let (options_json, _) = verifier
        .start_registration("alice")
        .expect("start registration");
    let options = serde_json::from_str::<Value>(&options_json).expect("registration JSON");

    assert_eq!(options["publicKey"]["rp"]["id"], "judo.stillard.com");
}

#[test]
fn new_accepts_ws_ip_relay_for_headless_dev() {
    WebauthnVerifier::new("ws://127.0.0.1:8787/daemon", None).expect("build verifier");
}

#[test]
fn headless_verifiers_answer_no_ceremony() {
    let verifier = WebauthnVerifier::new("ws://127.0.0.1:8787/daemon", None).unwrap();
    let error = verifier.start_registration("alice").err().unwrap();
    assert_eq!(
        error.message(),
        "WebAuthn ceremonies are unavailable: invalid WebAuthn RP configuration: The configuration was invalid"
    );
}

#[test]
fn verifiers_are_refused_where_the_address_is_none() {
    let error = WebauthnVerifier::new("http://judo.dev", None).err().unwrap();
    assert_eq!(
        error,
        VerifierError::Relay(ConfigError::WrongScheme { scheme: "http".to_string() })
    );
    let error = WebauthnVerifier::new("wss://10.0.0.1/daemon", None).err().unwrap();
    assert_eq!(
        error.message(),
        "invalid WebAuthn RP configuration: The configuration was invalid"
    );
    let error = WebauthnVerifier::new("wss://judo.dev/daemon", Some("nowhere")).err().unwrap();
    assert_eq!(error.message(), "relative URL without a base");
    assert!(WebauthnVerifier::new("ws://010.0.0.1.5/daemon", None).is_err());
}

#[test]
fn answers_that_are_none_are_refused() {
    let verifier = WebauthnVerifier::new("wss://judo.dev/daemon", None).unwrap();
    let (_, state) = verifier.start_registration("alice").unwrap();
    let error = verifier.finish_registration("{}", &state, "passkey").unwrap_err();
    assert!(error.message().starts_with("registration response is not valid WebAuthn JSON: missing field"));
    let mut broken = identity();
    broken.passkeys.push(StoredPasskey {
        label: "x".to_string(),
        passkey_json: "nonsense".to_string(),
    });
    let error = verifier.start_authentication(&broken).err().unwrap();
    assert!(error.message().starts_with("stored passkey JSON is invalid: "));
}

#[test]
fn ceremonies_are_bound_to_envelope_and_choice() {
    let mut c: Ceremonies<u8> = Ceremonies::new();
    c.begin("E1", "once", 1, 0);
    c.begin("E1", "ttl:x:5", 2, 0);
    c.begin("E2", "once", 3, 0);
    assert_eq!(c.take("E1", "ttl", 0), None);
    assert_eq!(c.take("E1", "once", 0), Some(1));
    assert_eq!(c.take("E1", "once", 0), None);
    assert_eq!(c.take("E1", "ttl:x:5", 0), Some(2));
    assert_eq!(c.take("E2", "once", 0), Some(3));
    assert_eq!(c.take("E3", "once", 0), None);
}

#[test]
fn ceremonies_run_out() {
    let mut c: Ceremonies<u8> = Ceremonies::new();
    let end = 7 + CEREMONY_SECS * SECOND;
    c.begin("E1", "once", 1, 7);
    c.begin("E2", "once", 2, 7);
    assert_eq!(c.take("E1", "once", end), Some(1));
    assert_eq!(c.take("E2", "once", end + 1), None);
    assert_eq!(c.take("E2", "once", 7), None);
}

#[test]
fn choices_are_answered_with_options_or_an_error() {
    let mut c: Ceremonies<u8> = Ceremonies::new();
    let reply = choice_made(&mut c, "E1", 4, "once", Ok(("{}".to_string(), 9)), 0);
    assert_eq!(
        reply,
        DaemonMsg::CeremonyOptions {
            id: "E1".to_string(),
            corr: 4,
            options_json: "{}".to_string(),
        }
    );
    let failed = Err(VerifierError::AuthenticationNotStarted { cause: "no".to_string() });
    assert_eq!(
        choice_made(&mut c, "E2", 4, "once", failed, 0),
        DaemonMsg::CeremonyResult {
            id: "E2".to_string(),
            corr: 4,
            ok: false,
            message: "failed to start passkey authentication: no".to_string(),
        }
    );
    assert_eq!((c.take("E1", "once", 0), c.take("E2", "once", 0)), (Some(9), None));
}

#[test]
fn accepted_assertions_approve() {
    let mut m = manager_with("E1");
    let effects = assertion_made(&mut m, "E1", 4, Ok(()), 600, 1).unwrap();
    assert_eq!(effects.len(), 4);
    assert_eq!(
        effects[0],
        Effect::Deliver(Delivery {
            waiter: 0,
            resp: LocalResp::Verdict {
                verdict: "allow".to_string(),
                message: "approved by passkey; proceeding".to_string(),
            },
        })
    );
    assert_eq!(
        audited(&effects[1]),
        (
            "envelope.approved",
            vec!["id=Text(\"E1\")".to_string(), "source=Text(\"passkey\")".to_string()]
        )
    );
    assert_eq!(
        effects[2],
        Effect::Relay(DaemonMsg::CeremonyResult {
            id: "E1".to_string(),
            corr: 4,
            ok: true,
            message: "approved".to_string(),
        })
    );
    assert_eq!(
        effects[3],
        Effect::Relay(DaemonMsg::Verdict {
            id: "E1".to_string(),
            verdict: "approved".to_string(),
        })
    );
    let again = assertion_made(&mut m, "E1", 4, Ok(()), 600, 2).unwrap();
    assert_eq!(again.len(), 2);
    assert_eq!(
        audited(&again[0]),
        (
            "ceremony.failed",
            vec![
                "error=Text(\"envelope E1 is already approved\")".to_string(),
                "id=Text(\"E1\")".to_string()
            ]
        )
    );
    assert_eq!(
        again[1],
        Effect::Relay(DaemonMsg::CeremonyResult {
            id: "E1".to_string(),
            corr: 4,
            ok: false,
            message: "envelope E1 is already approved".to_string(),
        })
    );
    assert_eq!(
        assertion_made(&mut m, "E9", 4, Ok(()), 600, 2),
        Err("unknown envelope E9".to_string())
    );
}

#[test]
fn relay_cannot_forge_an_approval() {
    let mut p = pages("wss://judo.stillard.com/daemon");
    let mut m = manager_with("E1");
    let mut id = identity();
    let forged = page(PageEvent::Assertion {
        response_json: "{}".to_string(),
        choice: "once".to_string(),
    });
    let effects = handle_relay_msg(&mut p, &mut m, &mut id, &forged, 600, 1).unwrap();
    assert_eq!(effects.len(), 2);
    assert_eq!(audited(&effects[0]).0, "ceremony.failed");
    assert_eq!(
        effects[1],
        Effect::Relay(DaemonMsg::CeremonyResult {
            id: "E1".to_string(),
            corr: 4,
            ok: false,
            message: "unknown or already-used ceremony".to_string(),
        })
    );
    assert_eq!(m.pending(0).len(), 1);
}

#[test]
fn links_suffice_to_deny() {
    let mut p = pages("ws://localhost/daemon");
    let mut m = manager_with("E1");
    let mut id = identity();
    let opened = handle_relay_msg(&mut p, &mut m, &mut id, &page(PageEvent::Opened), 600, 1);
    assert_eq!(audited(&opened.unwrap()[0]), ("page.opened", vec!["id=Text(\"E1\")".to_string()]));
    let denied = handle_relay_msg(&mut p, &mut m, &mut id, &page(PageEvent::Deny), 600, 1).unwrap();
    assert_eq!(
        audited(&denied[1]),
        (
            "envelope.denied",
            vec!["id=Text(\"E1\")".to_string(), "source=Text(\"link\")".to_string()]
        )
    );
    assert_eq!(
        denied[2],
        Effect::Relay(DaemonMsg::Verdict {
            id: "E1".to_string(),
            verdict: "denied".to_string(),
        })
    );
    let again = handle_relay_msg(&mut p, &mut m, &mut id, &page(PageEvent::Deny), 600, 1);
    assert_eq!(
        again,
        Ok(vec![Effect::Relay(DaemonMsg::Verdict {
            id: "E1".to_string(),
            verdict: "denied".to_string(),
        })])
    );
}

#[test]
fn enrollments_end_once() {
    let mut p = pages("wss://judo.stillard.com/daemon");
    let mut m = manager_with("E1");
    let mut id = identity();
    let begin = enroll(EnrollEvent::Begin { token: "t".to_string() });
    let finish = enroll(EnrollEvent::Finish {
        token: "t".to_string(),
        response_json: "{}".to_string(),
    });
    let effects = handle_relay_msg(&mut p, &mut m, &mut id, &begin, 600, 1).unwrap();
    assert!(matches!(
        &effects[0],
        Effect::Relay(DaemonMsg::EnrollOptions { session, corr: 5, .. }) if session == "t"
    ));
    let message = |p: &mut Pages, m: &mut Manager, id: &mut Identity| {
        let effects = handle_relay_msg(p, m, id, &finish, 600, 1).unwrap();
        match &effects[0] {
            Effect::Relay(DaemonMsg::EnrollResult { ok: false, message, .. }) => message.clone(),
            other => panic!("{:?}", other),
        }
    };
    assert!(message(&mut p, &mut m, &mut id).starts_with("registration response is not valid"));
    assert_eq!(
        message(&mut p, &mut m, &mut id),
        "unknown or already-used enrollment ceremony"
    );
    let mut dev = pages("ws://127.0.0.1/daemon");
    assert!(handle_relay_msg(&mut dev, &mut m, &mut id, &begin, 600, 1)
        .unwrap_err()
        .starts_with("WebAuthn ceremonies are unavailable: "));
}

#[test]
fn enrolled_passkeys_are_kept() {
    let mut id = identity();
    let passkey = StoredPasskey {
        label: "passkey".to_string(),
        passkey_json: "{}".to_string(),
    };
    let effects = enrollment_ended(&mut id, "s", 5, Ok(passkey.clone()));
    assert_eq!(id.passkeys, vec![passkey]);
    assert_eq!(
        effects,
        vec![
            Effect::SaveIdentity,
            Effect::Relay(DaemonMsg::EnrollResult {
                session: "s".to_string(),
                corr: 5,
                ok: true,
                message: "passkey enrolled".to_string(),
            }),
        ]
    );
    assert_eq!(user_to_enroll(&id), "alice");
    id.humans.clear();
    assert_eq!(user_to_enroll(&id), "judo-human");
}

#[test]
fn choices_without_passkeys_are_answered() {
    let mut p = pages("ws://127.0.0.1/daemon");
    let mut m = manager_with("E1");
    let mut id = identity();
    let choice = page(PageEvent::Choice { choice: "once".to_string() });
    let effects = handle_relay_msg(&mut p, &mut m, &mut id, &choice, 600, 1).unwrap();
    assert_eq!(
        audited(&effects[0]),
        ("page.choice", vec!["choice=Text(\"once\")".to_string(), "id=Text(\"E1\")".to_string()])
    );
    assert!(matches!(
        &effects[1],
        Effect::Relay(DaemonMsg::CeremonyResult { corr: 4, ok: false, message, .. })
            if message.starts_with("WebAuthn ceremonies are unavailable: ")
    ));
}
