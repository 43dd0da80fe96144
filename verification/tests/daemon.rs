use judo::audit::{audit, put, AuditValue, Fields};
use judo::config::Identity;
use judo::daemon::{
    decision_dir, engine_for, handle_local_req, layer_loaded, policy_read, receive, require_human_peer,
    started, waited, weigh, weigh_decision, Admission, Next, Request, Requester, Started, Surroundings,
    WaitEnd,
};
use judo::effects::Effect;
use judo::keys::CoalesceKey;
use judo::level::Level;
use judo::manager::{
    Ask, CreatedEnvelope, Manager, ManagerError, StartResult, WaitPlan,
};
use judo::policy::{CatEntry, Decision, Hit, PolicyFile};
use judo::proto::{DaemonMsg, EnvelopeBody, LocalReq, LocalResp, StatusInfo, WorkspaceInfo};
use judo::table::StrMap;

const PASSWD: &str = "root:x:0:0::\nalice:x:1000:\nagent:x:1001:1001::/home/agent:/bin/sh\n";

fn texts(list: &[&str]) -> Vec<String> {
    list.iter().map(|s| s.to_string()).collect()
}

fn identity() -> Identity {
    Identity {
        daemon_id: "d".to_string(),
        ed25519_secret_b64: "s".to_string(),
        ed25519_public_b64: "p".to_string(),
        relay_url: "wss://judo.dev/daemon".to_string(),
        humans: texts(&["alice"]),
        ntfy_topic: "topic".to_string(),
        passkeys: vec![],
        trusted: texts(&["/w"]),
    }
}

fn requester() -> Requester {
    Requester {
        agent_user: "agent".to_string(),
        workspace: "/w".to_string(),
        policy_dir: Some("/w".to_string()),
        home: Some("/home/agent".to_string()),
    }
}

fn request(argv: &[&str]) -> Request {
    Request {
        uid: 1001,
        cwd: "/w/sub".to_string(),
        runas: "root".to_string(),
        argv: texts(argv),
        harness: Some("codex".to_string()),
    }
}

fn verdict(verdict: &str, message: &str) -> LocalResp {
    LocalResp::Verdict {
        verdict: verdict.to_string(),
        message: message.to_string(),
    }
}

fn failed(message: &str) -> LocalResp {
    LocalResp::Failed {
        message: message.to_string(),
    }
}

fn decision(level: Level) -> Decision {
    Decision {
        normalized: "x y".to_string(),
        hits: vec![Hit {
            category: "c".to_string(),
            level,
            source: "s".to_string(),
            ttl_max_mins: Some(5),
        }],
        hardline: None,
    }
}

fn fields(table: &StrMap<AuditValue>) -> Vec<String> {
    (0..table.len())
        .map(|i| format!("{}={:?}", table.key_at(i), table.value_at(i)))
        .collect()
}

fn manager() -> Manager {
    let mut m = Manager::at_origin("https://judo.dev".to_string());
    let ask = Ask {
        key: CoalesceKey {
            digest: "d".to_string(),
            uid: 1001,
            workspace: "/w".to_string(),
        },
        body: EnvelopeBody {
            argv: vec![],
            cwd: "/w".to_string(),
            runas: "root".to_string(),
            uid: 1001,
            agent_user: "agent".to_string(),
            harness: None,
            workspace: "/w".to_string(),
            summary: "s".to_string(),
            categories: vec![],
            ttl_offer: None,
        },
        command: "ls".to_string(),
        timeout_secs: 30,
        now: 0,
        now_unix: 0,
    };
    m.create(ask, "E1".to_string(), "ct".to_string(), "key").unwrap();
    m
}

fn around() -> Surroundings {
    Surroundings {
        relay_connected: true,
        policy_errors: vec![Some("bad toml".to_string())],
    }
}

#[test]
fn humans_bypass_the_broker() {
    assert_eq!(
        receive(&identity(), PASSWD, 1000, "/w"),
        Admission::Bypass(verdict("allow", "declared human bypass"))
    );
}

#[test]
fn only_trusted_workspaces_lend_their_policy() {
    assert_eq!(receive(&identity(), PASSWD, 1001, "/w/sub"), Admission::Admitted(requester()));
    assert_eq!(
        receive(&identity(), PASSWD, 77, "/tmp"),
        Admission::Admitted(Requester {
            agent_user: "uid-77".to_string(),
            workspace: "/tmp".to_string(),
            policy_dir: None,
            home: None,
        })
    );
}

#[test]
fn policy_files_may_be_absent_or_broken() {
    let absent = policy_read("/w/judo.toml", None).unwrap();
    assert_eq!((absent.default, absent.categories.len()), (None, 0));
    let mut strict = PolicyFile::new();
    strict.default = Some("deny".to_string());
    let read = policy_read("/w/judo.toml", Some(Ok(strict))).unwrap();
    assert_eq!(read.default, Some("deny".to_string()));
    assert_eq!(
        policy_read("/w/judo.toml", Some(Err("bad toml".to_string()))).err(),
        Some("/w/judo.toml: bad toml".to_string())
    );
}

#[test]
fn broken_layers_are_dropped_aloud() {
    let mut strict = PolicyFile::new();
    strict.default = Some("deny".to_string());
    let (layer, effects) = layer_loaded("/w/judo.toml", Ok(strict));
    assert_eq!(layer.unwrap().default, Some("deny".to_string()));
    assert_eq!(effects, vec![]);
    let (layer, effects) = layer_loaded("/w/judo.toml", Err("bad toml".to_string()));
    assert!(layer.is_none());
    let Effect::Note { event, fields: table } = &effects[0] else {
        panic!("{:?}", effects)
    };
    assert_eq!(event, "policy.layer_dropped");
    assert_eq!(fields(table), texts(&["error=Text(\"bad toml\")", "path=Text(\"/w/judo.toml\")"]));
    assert_eq!(
        effects[1],
        Effect::Print("judo notify: policy layer /w/judo.toml dropped: bad toml".to_string())
    );
    assert_eq!(effects.len(), 2);
}

#[test]
fn requests_are_weighed_with_their_home() {
    let mut global = PolicyFile::new();
    let dotfiles = CatEntry {
        level: Some("deny".to_string()),
        ttl_max: None,
        floor: false,
        match_rules: texts(&[r"~/\.bashrc"]),
    };
    global.categories.insert("dotfiles".to_string(), dotfiles);
    let (_, engine) = engine_for(Some(global), None);
    let ask = request(&["tee", "/home/agent/.bashrc"]);
    let step = weigh(&engine, &ask, &requester(), Some("/c/judo"), true);
    assert_eq!(step.next, Next::Answer(verdict("deny", "denied by policy")));
    let homeless = Requester { home: None, ..requester() };
    assert!(matches!(weigh(&engine, &ask, &homeless, Some("/c/judo"), true).next, Next::Approve { .. }));
}

#[test]
fn dropped_layers_are_empty() {
    let (loaded, engine) = engine_for(None, None);
    assert!(!loaded);
    assert_eq!(engine.default_level(), Level::Approve);
    let mut ws = PolicyFile::new();
    ws.default = Some("deny".to_string());
    let (loaded, engine) = engine_for(None, Some(ws));
    assert!(loaded);
    assert_eq!(engine.default_level(), Level::Deny);
}

#[test]
fn decisions_go_by_the_envelopes_workspace() {
    let m = manager();
    assert_eq!(decision_dir(&m, &identity(), "E1"), Some("/w".to_string()));
    assert_eq!(decision_dir(&m, &identity(), "E2"), None);
    let mut other = identity();
    other.trusted.clear();
    assert_eq!(decision_dir(&m, &other, "E1"), None);
}

#[test]
fn ladder_has_four_rungs() {
    let next = |level| weigh_decision(&request(&["x", "y"]), &requester(), &decision(level), true);
    let answer = |word, message| Next::Answer(verdict(word, message));
    assert_eq!(next(Level::Allow).next, answer("allow", "allowed by policy"));
    assert_eq!(next(Level::Deny).next, answer("deny", "denied by policy"));
    let notified = next(Level::Notify);
    assert_eq!(notified.next, answer("allow", "allowed by policy; notification sent"));
    assert_eq!(
        notified.effects[1],
        Effect::Print("judo notify: agent in /w/sub wants `x y`".to_string())
    );
    let Next::Approve { key, body, command } = next(Level::Approve).next else {
        panic!("expected an approval");
    };
    assert_eq!((key.uid, key.workspace.as_str()), (1001, "/w"));
    assert_eq!(key.digest, judo::crypto::digest_command("x y"));
    assert_eq!(command, "x y");
    assert_eq!(body.summary, "agent in /w/sub wants `x y`");
    assert_eq!(body.ttl_offer, Some(("c".to_string(), 5)));
    assert_eq!(body.harness, Some("codex".to_string()));
}

#[test]
fn classified_requests_are_recorded() {
    let step = weigh_decision(&request(&["x"]), &requester(), &decision(Level::Allow), true);
    let Effect::Audit { event, fields: table } = &step.effects[0] else {
        panic!("expected a record");
    };
    assert_eq!(event, "request.classified");
    assert_eq!(
        fields(table),
        texts(&[
            "agent_user=Text(\"agent\")",
            "categories=Texts([\"c\"])",
            "command=Text(\"x\")",
            "effective=Text(\"allow\")",
            "uid=Number(1001)",
            "workspace=Text(\"/w\")",
            "workspace_policy_loaded=Flag(true)",
        ])
    );
}

#[test]
fn requests_are_classified_as_a_whole() {
    let (loaded, engine) = engine_for(None, None);
    let next = |argv: &[&str]| {
        weigh(&engine, &request(argv), &requester(), Some("/c/judo"), loaded).next
    };
    assert_eq!(next(&["rm", "-rf", "/"]), Next::Answer(verdict("deny", "denied by policy")));
    let Next::Approve { body, .. } = next(&["tee", "judo.toml"]) else {
        panic!("expected an approval");
    };
    assert_eq!(body.categories, texts(&["policy.write"]));
    let Next::Approve { body, .. } = next(&["echo", "hi"]) else {
        panic!("expected an approval");
    };
    assert_eq!(body.categories, texts(&["(unmatched)"]));
}

#[test]
fn new_envelopes_are_told_of() {
    let plan = WaitPlan {
        id: "E1".to_string(),
        timeout_secs: 30,
        waiter: 3,
        created: Some(CreatedEnvelope {
            id: "E1".to_string(),
            ciphertext_b64: "ct".to_string(),
            expires_unix: 9,
            text: "text".to_string(),
            link: "link".to_string(),
        }),
    };
    let (effects, next) = started(&identity(), Ok(StartResult::Wait(plan)));
    assert_eq!(
        next,
        Started::Wait {
            id: "E1".to_string(),
            timeout_secs: 30,
            waiter: 3,
        }
    );
    let Effect::Audit { event, fields: created } = &effects[0] else {
        panic!("expected a record");
    };
    assert_eq!((event.as_str(), fields(created)), (
        "envelope.created",
        texts(&["expires_unix=Number(9)", "id=Text(\"E1\")"])
    ));
    assert!(matches!(&effects[1], Effect::Relay(DaemonMsg::CreateEnvelope { expires_unix: 9, .. })));
    assert_eq!(effects[2], Effect::Print("judo push [topic]: text\nlink".to_string()));
    let Effect::Note { event, fields: sent } = &effects[3] else {
        panic!("expected a record");
    };
    assert_eq!((event.as_str(), fields(sent)), (
        "notification.sent",
        texts(&["link=Text(\"link\")", "topic=Text(\"topic\")"])
    ));
}

#[test]
fn starts_without_an_envelope_tell_nobody() {
    let plan = WaitPlan {
        id: "E1".to_string(),
        timeout_secs: 30,
        waiter: 3,
        created: None,
    };
    assert_eq!(started(&identity(), Ok(StartResult::Wait(plan))).0, vec![]);
    let now = verdict("allow", "m");
    assert_eq!(
        started(&identity(), Ok(StartResult::Immediate(now.clone()))),
        (vec![], Started::Answer(now))
    );
    assert_eq!(
        started(&identity(), Err(ManagerError::NotSealed)),
        (vec![], Started::Answer(failed("envelope encryption failed")))
    );
}

#[test]
fn waits_end_in_three_ways() {
    let mut m = manager();
    let answer = verdict("allow", "m");
    assert_eq!(waited(&mut m, "E1", 0, WaitEnd::Answered(answer.clone())), (vec![], answer));
    assert_eq!(
        waited(&mut m, "E1", 0, WaitEnd::Dropped),
        (vec![], failed("approval waiter was dropped"))
    );
    let (effects, resp) = waited(&mut m, "E1", 0, WaitEnd::Elapsed);
    assert_eq!(
        resp,
        verdict(
            "timeout",
            "approval timed out — the human was unavailable; the request remains visible in `judo pending`; you may retry later."
        )
    );
    assert!(matches!(&effects[0], Effect::Audit { event, .. } if event == "envelope.timed_out"));
    assert_eq!(
        effects[1],
        Effect::Relay(DaemonMsg::Verdict {
            id: "E1".to_string(),
            verdict: "timed_out".to_string(),
        })
    );
    assert_eq!(m.pending(0)[0].state, "timed_out");
}

#[test]
fn dead_requesters_withdraw_their_request() {
    let mut m = manager();
    let (effects, resp) = waited(&mut m, "E1", 5, WaitEnd::Died);
    assert_eq!((effects, resp), (vec![], failed("requester died")));
    let (effects, resp) = waited(&mut m, "E1", 0, WaitEnd::Died);
    assert_eq!(resp, failed("requester died"));
    assert_eq!(effects.len(), 2);
    let Effect::Audit { event, fields: table } = &effects[0] else {
        panic!("{:?}", effects)
    };
    assert_eq!((event.as_str(), fields(table)), ("envelope.cancelled", texts(&["id=Text(\"E1\")"])));
    assert_eq!(
        effects[1],
        Effect::Relay(DaemonMsg::CancelEnvelope { id: "E1".to_string() })
    );
    assert!(m.pending(0).is_empty());
}

#[test]
fn verbs_are_for_declared_humans() {
    let refusal = |peer| require_human_peer(&identity(), PASSWD, peer).unwrap_err();
    assert_eq!(refusal(None), "missing SO_PEERCRED uid");
    assert_eq!(refusal(Some(7)), "unknown peer uid 7");
    assert_eq!(refusal(Some(1001)), "local approval verbs require a declared human uid");
    assert_eq!(require_human_peer(&identity(), PASSWD, Some(1000)), Ok("alice".to_string()));
    let mut m = manager();
    let approve = LocalReq::Approve { id: "E1".to_string() };
    let (effects, resp) =
        handle_local_req(&mut m, &identity(), PASSWD, Some(1001), &approve, &around(), 600, 0);
    assert_eq!(effects, vec![]);
    assert_eq!(resp, failed("local approval verbs require a declared human uid"));
    assert_eq!(m.pending(0).len(), 1);
}

#[test]
fn verbs_do_what_they_say() {
    let mut m = manager();
    let pending =
        handle_local_req(&mut m, &identity(), PASSWD, Some(1000), &LocalReq::Pending, &around(), 600, 0);
    assert!(matches!(pending.1, LocalResp::Pending { envelopes } if envelopes.len() == 1));
    let status =
        handle_local_req(&mut m, &identity(), PASSWD, Some(1000), &LocalReq::Status, &around(), 600, 0);
    assert_eq!(
        status.1,
        LocalResp::Status {
            info: StatusInfo {
                relay_connected: true,
                relay_url: "wss://judo.dev/daemon".to_string(),
                passkeys: 0,
                humans: texts(&["alice"]),
                workspaces: vec![WorkspaceInfo {
                    dir: "/w".to_string(),
                    ok: false,
                    error: Some("bad toml".to_string()),
                }],
                pending: 1,
            }
        }
    );
    let deny = LocalReq::Deny { id: "E1".to_string() };
    let (effects, resp) =
        handle_local_req(&mut m, &identity(), PASSWD, Some(1000), &deny, &around(), 600, 0);
    assert_eq!(resp, LocalResp::Done { message: "denied".to_string() });
    assert!(matches!(&effects[0], Effect::Deliver(_)));
    let Effect::Audit { event, fields: table } = &effects[1] else {
        panic!("expected a record");
    };
    assert_eq!((event.as_str(), fields(table)), (
        "envelope.denied",
        texts(&["id=Text(\"E1\")", "source=Text(\"local-cli\")"])
    ));
    assert!(matches!(&effects[2], Effect::Relay(DaemonMsg::Verdict { verdict, .. }) if verdict == "denied"));
    let approve = LocalReq::Approve { id: "E9".to_string() };
    let (_, resp) =
        handle_local_req(&mut m, &identity(), PASSWD, Some(1000), &approve, &around(), 600, 0);
    assert_eq!(resp, failed("unknown envelope E9"));
}

#[test]
fn records_hold_their_fields() {
    let mut table = StrMap::new();
    put(&mut table, "id", AuditValue::Text("E1".to_string()));
    put(&mut table, "event", AuditValue::Flag(true));
    assert_eq!(
        fields(&audit(7, "page.opened", &Fields::Object(table))),
        texts(&["event=Flag(true)", "id=Text(\"E1\")", "unix=Number(7)"])
    );
    assert_eq!(
        fields(&audit(7, "e", &Fields::Other(AuditValue::Number(3)))),
        texts(&["event=Text(\"e\")", "fields=Number(3)", "unix=Number(7)"])
    );
}

#[test]
fn relay_is_told_no_key() {
    let told = |key: &str| {
        let plan = StartResult::Wait(WaitPlan {
            id: "E2".to_string(),
            timeout_secs: 30,
            waiter: 1,
            created: Some(CreatedEnvelope {
                id: "E2".to_string(),
                ciphertext_b64: "ct".to_string(),
                expires_unix: 30,
                text: format!("t#{key}"),
                link: format!("l#{key}"),
            }),
        });
        let (effects, _) = started(&identity(), Ok(plan));
        let relayed: Vec<Effect> = effects
            .into_iter()
            .filter(|e| matches!(e, Effect::Relay(_)))
            .collect();
        relayed
    };
    assert_eq!(told("k1"), told("k2"));
    assert_eq!(told("k1").len(), 1);
}
