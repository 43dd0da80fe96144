use base64::engine::general_purpose::URL_SAFE_NO_PAD;
use base64::Engine;
use judo::ceremonies::{handle_relay_msg, Ceremonies, Pages, CEREMONY_SECS};
use judo::config::Identity;
use judo::effects::Effect;
use judo::keys::CoalesceKey;
use judo::manager::{Ask, Manager, SECOND};
use judo::proto::{DaemonMsg, EnrollEvent, EnvelopeBody, PageEvent, RelayMsg};
use judo::table::StrMap;
use judo::webauthn::WebauthnVerifier;
use serde_json::Value;
use sha2::{Digest, Sha256};

// An authenticator whose P-256 key is the number one: its public key is the curve's generator, and
// with one as the nonce too a signature is the generator's abscissa and the digest plus it.

const ORDER: &str = "ffffffff00000000ffffffffffffffffbce6faada7179e84f3b9cac2fc632551";
const GX: &str = "6b17d1f2e12c4247f8bce6e563a440f277037d812deb33a0f4a13945d898c296";
const GY: &str = "4fe342e2fe1a7f9b8ee7eb4a7c0f9e162bce33576b315ececbb6406837bf51f5";

fn bytes(hex: &str) -> Vec<u8> {
    (0..hex.len() / 2)
        .map(|i| u8::from_str_radix(&hex[2 * i..2 * i + 2], 16).unwrap())
        .collect()
}

/// The sum of two numbers modulo the order of the curve.
fn sum(a: &[u8], b: &[u8]) -> Vec<u8> {
    let order = bytes(ORDER);
    let mut total = vec![0u8; 33];
    let mut carry = 0u16;
    for i in (0..32).rev() {
        let digit = a[i] as u16 + b[i] as u16 + carry;
        total[i + 1] = digit as u8;
        carry = digit >> 8;
    }
    total[0] = carry as u8;
    while total[0] > 0 || total[1..] >= order[..] {
        let mut borrow = 0i16;
        for i in (0..32).rev() {
            let digit = total[i + 1] as i16 - order[i] as i16 - borrow;
            total[i + 1] = digit.rem_euclid(256) as u8;
            borrow = if digit < 0 { 1 } else { 0 };
        }
        total[0] -= borrow as u8;
    }
    total[1..].to_vec()
}

fn der(n: &[u8]) -> Vec<u8> {
    let digits: Vec<u8> = n.iter().copied().skip_while(|d| *d == 0).collect();
    let pad = digits.first().map_or(true, |d| *d >= 128);
    let mut out = vec![2, (digits.len() + pad as usize) as u8];
    if pad {
        out.push(0);
    }
    out.extend(digits);
    out
}

fn signature(message: &[u8]) -> Vec<u8> {
    let r = bytes(GX);
    let s = sum(&Sha256::digest(message), &r);
    let mut both = der(&r);
    both.extend(der(&s));
    let mut out = vec![0x30, both.len() as u8];
    out.extend(both);
    out
}

fn authenticator_data(flags: u8) -> Vec<u8> {
    let mut out = Sha256::digest(b"judo.dev").to_vec();
    out.push(flags);
    out.extend([0, 0, 0, 0]);
    out
}

fn client_data(kind: &str, challenge: &str) -> String {
    format!(
        "{{\"type\":\"{kind}\",\"challenge\":\"{challenge}\",\"origin\":\"https://judo.dev\",\"crossOrigin\":false}}"
    )
}

fn challenge_of(options_json: &str) -> String {
    let options: Value = serde_json::from_str(options_json).unwrap();
    options["publicKey"]["challenge"].as_str().unwrap().to_string()
}

const CREDENTIAL: [u8; 16] = [7; 16];

fn registration(options_json: &str) -> String {
    let mut data = authenticator_data(0x45);
    data.extend([0u8; 16]);
    data.extend([0, 16]);
    data.extend(CREDENTIAL);
    data.extend([0xa5, 1, 2, 3, 0x26, 0x20, 1, 0x21, 0x58, 32]);
    data.extend(bytes(GX));
    data.extend([0x22, 0x58, 32]);
    data.extend(bytes(GY));
    let mut object = vec![0xa3];
    object.extend(b"\x63fmt\x64none\x67attStmt\xa0\x68authData\x58");
    object.push(data.len() as u8);
    object.extend(data);
    let id = URL_SAFE_NO_PAD.encode(CREDENTIAL);
    format!(
        "{{\"id\":\"{id}\",\"rawId\":\"{id}\",\"type\":\"public-key\",\"response\":{{\"attestationObject\":\"{}\",\"clientDataJSON\":\"{}\"}}}}",
        URL_SAFE_NO_PAD.encode(object),
        URL_SAFE_NO_PAD.encode(client_data("webauthn.create", &challenge_of(options_json))),
    )
}

fn assertion(options_json: &str) -> String {
    let data = authenticator_data(0x05);
    let client = client_data("webauthn.get", &challenge_of(options_json));
    let mut signed = data.clone();
    signed.extend(Sha256::digest(client.as_bytes()));
    let id = URL_SAFE_NO_PAD.encode(CREDENTIAL);
    format!(
        "{{\"id\":\"{id}\",\"rawId\":\"{id}\",\"type\":\"public-key\",\"response\":{{\"authenticatorData\":\"{}\",\"clientDataJSON\":\"{}\",\"signature\":\"{}\"}}}}",
        URL_SAFE_NO_PAD.encode(&data),
        URL_SAFE_NO_PAD.encode(&client),
        URL_SAFE_NO_PAD.encode(signature(&signed)),
    )
}

fn identity() -> Identity {
    Identity {
        daemon_id: "d".to_string(),
        ed25519_secret_b64: "s".to_string(),
        ed25519_public_b64: "p".to_string(),
        relay_url: "wss://judo.dev/daemon".to_string(),
        humans: vec!["alice".to_string()],
        ntfy_topic: "log".to_string(),
        passkeys: vec![],
        trusted: vec![],
    }
}

fn pages() -> Pages {
    Pages {
        verifier: WebauthnVerifier::new("wss://judo.dev/daemon", None).unwrap(),
        authentications: Ceremonies::new(),
        enrollments: StrMap::new(),
    }
}

fn manager() -> Manager {
    let mut m = Manager::at_origin("https://judo.dev".to_string());
    for id in ["E1", "E2"] {
        let ask = Ask {
            key: CoalesceKey {
                digest: id.to_string(),
                uid: 1,
                workspace: "/w".to_string(),
            },
            body: EnvelopeBody {
                argv: vec![],
                cwd: "/w".to_string(),
                runas: "root".to_string(),
                uid: 1,
                agent_user: "agent".to_string(),
                harness: None,
                workspace: "/w".to_string(),
                summary: "s".to_string(),
                categories: vec![],
                ttl_offer: None,
            },
            command: "ls".to_string(),
            timeout_secs: 30,
            now: 0,
            now_unix: 0,
        };
        m.create(ask, id.to_string(), "ct".to_string(), "key").unwrap();
    }
    m
}

struct World {
    pages: Pages,
    manager: Manager,
    identity: Identity,
    now: u64,
}

impl World {
    fn hear(&mut self, msg: RelayMsg) -> Vec<Effect> {
        let World { pages, manager, identity, now } = self;
        handle_relay_msg(pages, manager, identity, &msg, 600, *now).unwrap()
    }

    fn page(&mut self, id: &str, event: PageEvent) -> Vec<Effect> {
        self.hear(RelayMsg::PageEvent { id: id.to_string(), corr: 4, event })
    }

    fn pick(&mut self, id: &str, choice: &str) -> String {
        let event = PageEvent::Choice { choice: choice.to_string() };
        match self.page(id, event).remove(1) {
            Effect::Relay(DaemonMsg::CeremonyOptions { options_json, .. }) => options_json,
            other => panic!("{:?}", other),
        }
    }

    fn assert_with(&mut self, id: &str, choice: &str, response_json: String) -> (bool, String) {
        let event = PageEvent::Assertion {
            response_json,
            choice: choice.to_string(),
        };
        for effect in self.page(id, event) {
            if let Effect::Relay(DaemonMsg::CeremonyResult { ok, message, .. }) = effect {
                return (ok, message);
            }
        }
        panic!("no result")
    }
}

fn enrolled() -> World {
    let mut world = World {
        pages: pages(),
        manager: manager(),
        identity: identity(),
        now: 1,
    };
    let begin = RelayMsg::EnrollEvent {
        session: "t".to_string(),
        corr: 5,
        event: EnrollEvent::Begin { token: "t".to_string() },
    };
    let options_json = match world.hear(begin).remove(0) {
        Effect::Relay(DaemonMsg::EnrollOptions { options_json, .. }) => options_json,
        other => panic!("{:?}", other),
    };
    let finish = RelayMsg::EnrollEvent {
        session: "t".to_string(),
        corr: 5,
        event: EnrollEvent::Finish {
            token: "t".to_string(),
            response_json: registration(&options_json),
        },
    };
    let effects = world.hear(finish);
    assert_eq!(
        effects,
        vec![
            Effect::SaveIdentity,
            Effect::Relay(DaemonMsg::EnrollResult {
                session: "t".to_string(),
                corr: 5,
                ok: true,
                message: "passkey enrolled".to_string(),
            }),
        ]
    );
    world
}

#[test]
fn passkeys_are_enrolled_and_approve() {
    let mut world = enrolled();
    assert_eq!(world.identity.passkeys.len(), 1);
    assert_eq!(world.identity.passkeys[0].label, "passkey");
    let options_json = world.pick("E1", "once");
    let options: Value = serde_json::from_str(&options_json).unwrap();
    assert_eq!(
        options["publicKey"]["allowCredentials"][0]["id"],
        URL_SAFE_NO_PAD.encode(CREDENTIAL)
    );
    let answer = assertion(&options_json);
    assert_eq!(
        world.assert_with("E1", "once", answer.clone()),
        (true, "approved".to_string())
    );
    let waiting: Vec<String> = world.manager.pending(1).into_iter().map(|e| e.id).collect();
    assert_eq!(waiting, vec!["E2".to_string()]);
    assert_eq!(
        world.assert_with("E2", "once", answer),
        (false, "unknown or already-used ceremony".to_string())
    );
}

#[test]
fn choices_are_different_ceremonies() {
    let mut world = enrolled();
    let once = world.pick("E1", "once");
    let for_a_while = world.pick("E1", "ttl");
    assert_eq!(
        world.assert_with("E1", "ttl", assertion(&once)),
        (
            false,
            "passkey authentication failed: The client response challenge differs from the latest challenge issued to the userId".to_string()
        )
    );
    assert_eq!(world.manager.pending(1).len(), 2);
    assert_eq!(
        world.assert_with("E1", "ttl", assertion(&for_a_while)),
        (false, "unknown or already-used ceremony".to_string())
    );
    assert_eq!(
        world.assert_with("E1", "once", assertion(&once)),
        (true, "approved".to_string())
    );
}

#[test]
fn late_assertions_are_refused() {
    let mut world = enrolled();
    let options_json = world.pick("E1", "once");
    world.now += CEREMONY_SECS * SECOND + 1;
    assert_eq!(
        world.assert_with("E1", "once", assertion(&options_json)),
        (false, "unknown or already-used ceremony".to_string())
    );
    assert_eq!(world.manager.pending(1).len(), 2);
}

#[test]
fn wrong_signatures_are_refused() {
    let mut world = enrolled();
    let first = world.pick("E1", "once");
    let mut answer: Value = serde_json::from_str(&assertion(&first)).unwrap();
    answer["response"]["signature"] = Value::from(URL_SAFE_NO_PAD.encode(signature(b"other")));
    let (ok, message) = world.assert_with("E1", "once", answer.to_string());
    assert_eq!(
        (ok, message.as_str()),
        (false, "passkey authentication failed: Authentication has failed")
    );
    assert_eq!(world.manager.pending(1).len(), 2);
}

#[test]
fn users_without_a_name_enroll_no_passkey() {
    let verifier = WebauthnVerifier::new("wss://judo.dev/daemon", None).unwrap();
    assert_eq!(
        verifier.start_registration("").err().unwrap().message(),
        "failed to start passkey registration: Invalid User Name supplied for registration"
    );
}

#[test]
fn registrations_for_other_challenges_fail() {
    let verifier = WebauthnVerifier::new("wss://judo.dev/daemon", None).unwrap();
    let (_, state) = verifier.start_registration("alice").unwrap();
    let (other, _) = verifier.start_registration("alice").unwrap();
    let error = verifier.finish_registration(&registration(&other), &state, "passkey").unwrap_err();
    assert!(error.message().starts_with("passkey registration failed: "));
}
