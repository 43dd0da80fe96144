use judo::crypto;
use judo::keys::CoalesceKey;
use judo::manager::{
    Ask, CreatedEnvelope, Delivery, EnvelopeState, Manager, ManagerError, ResolveOutcome,
    StartResult, WaitPlan, SECOND,
};
use judo::proto::{DaemonMsg, EnvelopeBody, LocalResp};

fn coalesce_key() -> CoalesceKey {
    CoalesceKey {
        digest: "digest".to_string(),
        uid: 1001,
        workspace: "/tmp".to_string(),
    }
}

fn envelope_body() -> EnvelopeBody {
    EnvelopeBody {
        argv: vec!["echo".to_string(), "hi".to_string()],
        cwd: "/tmp".to_string(),
        runas: "root".to_string(),
        uid: 1001,
        agent_user: "agent".to_string(),
        harness: None,
        workspace: "/tmp".to_string(),
        summary: "agent wants echo hi".to_string(),
        categories: vec!["sudo.exec".to_string()],
        ttl_offer: None,
    }
}

fn ask_at(now: u64) -> Ask {
    Ask {
        key: coalesce_key(),
        body: envelope_body(),
        command: "echo hi".to_string(),
        timeout_secs: 30,
        now,
        now_unix: 1_000,
    }
}

fn manager() -> Manager {
    Manager::at_origin("https://judo.dev".to_string())
}

fn created(m: &mut Manager, id: &str, now: u64) -> WaitPlan {
    match m.create(ask_at(now), id.to_string(), "ct".to_string(), "key") {
        Ok(StartResult::Wait(plan)) => plan,
        other => panic!("{:?}", other),
    }
}

fn verdict(verdict: &str, message: &str) -> LocalResp {
    LocalResp::Verdict {
        verdict: verdict.to_string(),
        message: message.to_string(),
    }
}

#[test]
fn approval_link_uses_origin_from_relay_url() {
    let mut manager = Manager::new("wss://judo.stillard.com/daemon").unwrap();
    let ask = Ask {
        key: coalesce_key(),
        body: envelope_body(),
        command: "echo hi".to_string(),
        timeout_secs: 30,
        now: 0,
        now_unix: 0,
    };
    let result = manager
        .begin_approval(ask, &b"{}".to_vec())
        .expect("begin approval");
    let StartResult::Wait(plan) = result else {
        panic!("expected wait plan");
    };
    let created = plan.created.expect("created envelope");

    assert!(created.link.starts_with("https://judo.stillard.com/a/"));
}

#[test]
fn links_carry_the_key_that_opens_the_envelope() {
    let mut m = manager();
    let Ok(StartResult::Wait(plan)) = m.begin_approval(ask_at(0), &b"body".to_vec()) else {
        panic!("expected wait plan");
    };
    let c = plan.created.unwrap();
    assert_eq!(c.id.len(), 26);
    assert_eq!(c.expires_unix, 1_030);
    let (page, key) = c.link.split_once('#').unwrap();
    assert_eq!(page, format!("https://judo.dev/a/{}", c.id));
    assert_eq!(crypto::open(&c.ciphertext_b64, key).unwrap(), b"body");
    assert_eq!(c.text, format!("judo approval: agent wants echo hi\n{}", c.link));
}

#[test]
fn bad_relay_addresses_make_no_manager() {
    let error = Manager::new("http://judo.dev").err().unwrap();
    assert_eq!(error.message(), "relay URL must use ws or wss, got http");
}

#[test]
fn new_envelopes_are_as_asked() {
    let mut m = manager();
    assert_eq!(m.attach(&coalesce_key(), 0), None);
    assert_eq!(
        created(&mut m, "E1", 0),
        WaitPlan {
            id: "E1".to_string(),
            timeout_secs: 30,
            waiter: 0,
            created: Some(CreatedEnvelope {
                id: "E1".to_string(),
                ciphertext_b64: "ct".to_string(),
                expires_unix: 1_030,
                text: "judo approval: agent wants echo hi\nhttps://judo.dev/a/E1#key".to_string(),
                link: "https://judo.dev/a/E1#key".to_string(),
            }),
        }
    );
    assert_eq!(m.workspace_of("E1"), Some("/tmp".to_string()));
    assert_eq!(m.workspace_of("E2"), None);
}

#[test]
fn identical_requests_share_an_envelope() {
    let mut m = manager();
    created(&mut m, "E1", 0);
    assert_eq!(
        m.attach(&coalesce_key(), 1),
        Some(StartResult::Wait(WaitPlan {
            id: "E1".to_string(),
            timeout_secs: 30,
            waiter: 1,
            created: None,
        }))
    );
    let other = CoalesceKey { uid: 7, ..coalesce_key() };
    assert_eq!(m.attach(&other, 1), None);
    assert_eq!(
        m.resolve("E1", ResolveOutcome::Approved, "alice", 600, 2),
        Ok(vec![
            Delivery { waiter: 0, resp: verdict("allow", "approved by alice; proceeding") },
            Delivery { waiter: 1, resp: verdict("allow", "approved by alice; proceeding") },
        ])
    );
    assert_eq!(m.attach(&coalesce_key(), 3), None);
}

#[test]
fn denials_cool_down() {
    let mut m = manager();
    created(&mut m, "E1", 0);
    let told = m.resolve("E1", ResolveOutcome::Denied, "alice", 10, 5).unwrap();
    assert_eq!(
        told,
        vec![Delivery {
            waiter: 0,
            resp: verdict(
                "deny",
                "denied by alice — do not retry; the human explicitly rejected this."
            ),
        }]
    );
    let refused = Some(StartResult::Immediate(verdict(
        "deny",
        "denied by approver — do not retry; the human explicitly rejected this.",
    )));
    assert_eq!(m.attach(&coalesce_key(), 6), refused);
    assert_eq!(m.attach(&coalesce_key(), 10 * SECOND + 4), refused);
    assert_eq!(m.attach(&coalesce_key(), 10 * SECOND + 5), None);
}

#[test]
fn late_approvals_serve_one_retry() {
    let mut m = manager();
    created(&mut m, "E1", 0);
    m.mark_timed_out("E1", 0);
    assert_eq!(m.pending(0)[0].state, "timed_out");
    assert_eq!(m.resolve("E1", ResolveOutcome::Approved, "passkey", 600, 1), Ok(vec![]));
    assert_eq!(
        m.attach(&coalesce_key(), 2),
        Some(StartResult::Immediate(verdict("allow", "approved earlier; proceeding")))
    );
    assert_eq!(m.attach(&coalesce_key(), 3), None);
}

#[test]
fn unused_approvals_stand() {
    let mut m = manager();
    created(&mut m, "E1", 0);
    m.mark_timed_out("E1", 0);
    m.resolve("E1", ResolveOutcome::Approved, "passkey", 600, 1).unwrap();
    assert_eq!(
        m.resolve("E1", ResolveOutcome::Denied, "alice", 600, 2),
        Err(ManagerError::ClosedEnvelope {
            id: "E1".to_string(),
            state: EnvelopeState::Approved,
        })
    );
    assert_eq!(
        m.attach(&coalesce_key(), 3),
        Some(StartResult::Immediate(verdict("allow", "approved earlier; proceeding")))
    );
}

#[test]
fn dead_requesters_cancel_their_envelope() {
    let mut m = manager();
    created(&mut m, "E1", 0);
    m.attach(&coalesce_key(), 1);
    assert!(!m.cancel("E1", 0));
    assert_eq!(m.pending(1).len(), 1);
    assert!(!m.cancel("E1", 0));
    assert!(!m.cancel("E9", 1));
    assert!(m.cancel("E1", 1));
    assert!(m.pending(1).is_empty());
    assert_eq!(
        m.resolve("E1", ResolveOutcome::Approved, "alice", 600, 2),
        Err(ManagerError::ClosedEnvelope {
            id: "E1".to_string(),
            state: EnvelopeState::Cancelled,
        })
    );
    assert_eq!(m.attach(&coalesce_key(), 3), None);
}

#[test]
fn timed_out_envelopes_outlive_their_requester() {
    let mut m = manager();
    created(&mut m, "E1", 0);
    m.mark_timed_out("E1", 0);
    assert!(!m.cancel("E1", 0));
    assert_eq!(m.resolve("E1", ResolveOutcome::Approved, "passkey", 600, 1), Ok(vec![]));
}

#[test]
fn timeouts_leave_the_request_open() {
    let mut m = manager();
    created(&mut m, "E1", 0);
    m.attach(&coalesce_key(), 1);
    m.mark_timed_out("E1", 0);
    assert!(matches!(m.attach(&coalesce_key(), 2), Some(StartResult::Wait(_))));
    let told = m.resolve("E1", ResolveOutcome::Approved, "alice", 600, 3).unwrap();
    assert_eq!(told.iter().map(|d| d.waiter).collect::<Vec<_>>(), vec![1, 2]);
    m.mark_timed_out("unknown", 0);
}

#[test]
fn decided_envelopes_stay_decided() {
    let mut m = manager();
    let unknown = m.resolve("E1", ResolveOutcome::Approved, "a", 1, 0).unwrap_err();
    assert_eq!(unknown.message(), "unknown envelope E1");
    created(&mut m, "E1", 0);
    m.resolve("E1", ResolveOutcome::Denied, "alice", 1, 0).unwrap();
    let closed = m.resolve("E1", ResolveOutcome::Approved, "alice", 1, 0).unwrap_err();
    assert_eq!(
        closed,
        ManagerError::ClosedEnvelope { id: "E1".to_string(), state: EnvelopeState::Denied }
    );
    assert_eq!(closed.message(), "envelope E1 is already denied");
    m.mark_timed_out("E1", 0);
    assert!(m.pending(0).is_empty());
}

#[test]
fn ids_are_used_once() {
    let mut m = manager();
    created(&mut m, "E1", 0);
    m.resolve("E1", ResolveOutcome::Approved, "alice", 1, 0).unwrap();
    let error = m
        .create(ask_at(0), "E1".to_string(), "ct".to_string(), "key")
        .unwrap_err();
    assert_eq!(error.message(), "envelope id E1 is already in use");
}

#[test]
fn pending_envelopes_are_listed_in_order() {
    let mut m = manager();
    let mut second = ask_at(SECOND);
    second.key.uid = 2;
    m.create(second, "E2".to_string(), "c2".to_string(), "k").unwrap();
    created(&mut m, "E1", 3 * SECOND);
    let pending = m.pending(4 * SECOND + SECOND / 2);
    assert_eq!(pending.iter().map(|p| p.id.as_str()).collect::<Vec<_>>(), vec!["E1", "E2"]);
    assert_eq!((pending[0].age_secs, pending[1].age_secs), (1, 3));
    assert_eq!(pending[0].state, "pending");
    assert_eq!(pending[0].command, "echo hi");
    assert_eq!(m.pending(0)[0].age_secs, 0);
    assert_eq!(
        m.replayable()[1],
        DaemonMsg::CreateEnvelope {
            id: "E2".to_string(),
            ciphertext_b64: "c2".to_string(),
            expires_unix: 1_030,
        }
    );
    m.resolve("E2", ResolveOutcome::Denied, "a", 1, 0).unwrap();
    assert_eq!(m.replayable().len(), 1);
}

#[test]
fn states_have_names() {
    let names = [
        (EnvelopeState::Pending, "pending"),
        (EnvelopeState::Approved, "approved"),
        (EnvelopeState::Denied, "denied"),
        (EnvelopeState::TimedOut, "timed_out"),
        (EnvelopeState::Cancelled, "cancelled"),
    ];
    for (state, name) in names {
        assert_eq!(state.as_str(), name);
    }
    assert_eq!(ManagerError::NotSealed.message(), "envelope encryption failed");
    assert_eq!(ManagerError::NoWaiterLeft.message(), "too many requests");
}
