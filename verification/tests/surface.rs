use judo::cli::{
    approval_lines, brokered_run, classify_lines, confirmed, init, init_with, parse_humans,
    pending_lines, prompt_answer, prompt_line, simple_message, sort_texts, status_lines, trust,
    trust_refusal, untrust, Answers, Drawn, RunNext, SetupError,
};
use judo::engine::Engine;
use judo::plugin;
use judo::plugin::{
    check, conclude, declared_human, default_identity_path, default_socket_path, ruling, OpenCtx,
    Ruling,
};
use judo::policy::PolicyFile;
use judo::proto::{
    DaemonMsg, EnrollEvent, LocalReq, LocalResp, PageEvent, PendingInfo, RelayMsg, StatusInfo,
    WorkspaceInfo,
};
use judo::relay;
use judo::relay::{
    approval_page, denial, json_checked, json_text, listen_address, numbered, Body, Question, Relay,
    Reply,
};

fn texts(list: &[&str]) -> Vec<String> {
    list.iter().map(|s| s.to_string()).collect()
}

fn failure(status: u16, error: &str) -> Reply {
    Reply {
        status,
        body: Body::Failure { error: error.to_string() },
    }
}

fn outcome(status: u16, ok: bool, message: &str) -> Reply {
    Reply {
        status,
        body: Body::Outcome {
            ok,
            message: message.to_string(),
        },
    }
}

fn created(id: &str) -> DaemonMsg {
    DaemonMsg::CreateEnvelope {
        id: id.to_string(),
        ciphertext_b64: "ct".to_string(),
        expires_unix: 9,
    }
}

fn ceremony(ok: bool) -> DaemonMsg {
    DaemonMsg::CeremonyResult {
        id: "E1".to_string(),
        corr: 1,
        ok,
        message: "m".to_string(),
    }
}

fn answers() -> Answers {
    Answers {
        humans: " alice, ,bob ".to_string(),
        relay_url: "wss://judo.dev/daemon".to_string(),
        ntfy_topic: "log".to_string(),
    }
}

#[test]
fn stored_ciphertext_is_read_back() {
    let mut r = Relay::new();
    assert_eq!(r.ciphertext("E1"), failure(404, "unknown envelope"));
    assert_eq!(r.handle_daemon_msg(&created("E1")), None);
    let reply = |verdict: Option<&str>| Reply {
        status: 200,
        body: Body::Envelope {
            ciphertext_b64: "ct".to_string(),
            expires_unix: 9,
            verdict: verdict.map(|v| v.to_string()),
        },
    };
    assert_eq!(r.ciphertext("E1"), reply(None));
    let approved = DaemonMsg::Verdict {
        id: "E1".to_string(),
        verdict: "approved".to_string(),
    };
    r.handle_daemon_msg(&approved);
    assert_eq!(r.ciphertext("E1"), reply(Some("approved")));
    r.handle_daemon_msg(&DaemonMsg::CancelEnvelope { id: "E1".to_string() });
    assert_eq!(r.ciphertext("E1"), reply(Some("cancelled")));
    r.handle_daemon_msg(&DaemonMsg::CancelEnvelope { id: "E2".to_string() });
    assert_eq!(r.ciphertext("E2"), failure(404, "unknown envelope"));
    r.handle_daemon_msg(&created("E0"));
    assert_eq!(r.known(), 2);
    assert_eq!((r.id_at(0).as_str(), r.id_at(1).as_str()), ("E0", "E1"));
}

#[test]
fn answers_reach_their_question_once() {
    let mut r = Relay::new();
    assert_eq!(r.ask_daemon(), Err("no daemon connected".to_string()));
    assert_eq!(r.send_daemon(), Err("no daemon connected".to_string()));
    r.set_connected(true);
    assert_eq!(r.send_daemon(), Ok(()));
    assert_eq!(r.ask_daemon(), Ok(2));
    let answer = DaemonMsg::EnrollResult {
        session: "t".to_string(),
        corr: 2,
        ok: true,
        message: "m".to_string(),
    };
    assert_eq!(r.handle_daemon_msg(&ceremony(true)), None);
    assert_eq!(r.handle_daemon_msg(&answer), Some(2));
    assert_eq!(r.handle_daemon_msg(&answer), None);
    assert_eq!(r.ask_daemon(), Ok(3));
    r.drop_question(3);
    let late = DaemonMsg::CeremonyOptions {
        id: "E1".to_string(),
        corr: 3,
        options_json: "{}".to_string(),
    };
    assert_eq!(r.handle_daemon_msg(&late), None);
    let hello = DaemonMsg::Hello {
        daemon_id: "d".to_string(),
        pubkey_b64: "p".to_string(),
    };
    assert_eq!(r.handle_daemon_msg(&hello), None);
}

#[test]
fn pages_get_the_daemons_answers() {
    let options = |json: &str| DaemonMsg::CeremonyOptions {
        id: "E1".to_string(),
        corr: 1,
        options_json: json.to_string(),
    };
    let lost = || Err("daemon response timed out".to_string());
    assert_eq!(
        relay::choice(Ok(options("{\"a\":1}"))),
        Reply { status: 200, body: Body::Json("{\"a\":1}".to_string()) }
    );
    assert_eq!(
        relay::choice(Ok(options("{"))),
        failure(502, "bad daemon json: EOF while parsing an object at line 1 column 1")
    );
    assert_eq!(relay::choice(Ok(ceremony(false))), outcome(400, false, "m"));
    assert_eq!(relay::choice(Ok(ceremony(true))), outcome(200, true, "m"));
    assert_eq!(relay::choice(Ok(created("E1"))), failure(502, "unexpected daemon response"));
    assert_eq!(relay::choice(lost()), failure(503, "daemon response timed out"));
    assert_eq!(relay::assertion(Ok(ceremony(false))), outcome(200, false, "m"));
    assert_eq!(relay::assertion(Ok(options("{}"))), failure(502, "unexpected daemon response"));
    assert_eq!(relay::assertion(lost()), failure(503, "daemon response timed out"));
    assert_eq!(relay::deny(Ok(())), Reply { status: 200, body: Body::Done });
    assert_eq!(relay::deny(Err("x".to_string())), failure(503, "x"));
}

#[test]
fn enrollment_pages_get_the_daemons_answers() {
    let ended = || DaemonMsg::EnrollResult {
        session: "t".to_string(),
        corr: 1,
        ok: false,
        message: "m".to_string(),
    };
    let options = || DaemonMsg::EnrollOptions {
        session: "t".to_string(),
        corr: 1,
        options_json: "[]".to_string(),
    };
    assert_eq!(
        relay::enroll_begin(Ok(options())),
        Reply { status: 200, body: Body::Json("[]".to_string()) }
    );
    assert_eq!(relay::enroll_begin(Ok(ended())), outcome(200, false, "m"));
    assert_eq!(relay::enroll_finish(Ok(ended())), outcome(200, false, "m"));
    assert_eq!(relay::enroll_finish(Ok(options())), failure(502, "unexpected daemon response"));
    assert_eq!(relay::enroll_begin(Ok(ceremony(true))), failure(502, "unexpected daemon response"));
    assert_eq!(relay::enroll_finish(Err("x".to_string())), failure(503, "x"));
    assert_eq!(json_text("nope").status, 502);
    assert_eq!(json_checked("x", Some("y".to_string())), failure(502, "bad daemon json: y"));
}

#[test]
fn questions_carry_their_number() {
    let id = || "E1".to_string();
    assert_eq!(
        numbered(Question::Choice { id: id(), choice: "once".to_string() }, 7),
        RelayMsg::PageEvent {
            id: id(),
            corr: 7,
            event: PageEvent::Choice { choice: "once".to_string() },
        }
    );
    assert_eq!(
        numbered(
            Question::EnrollFinish { token: "t".to_string(), response_json: "{}".to_string() },
            8
        ),
        RelayMsg::EnrollEvent {
            session: "t".to_string(),
            corr: 8,
            event: EnrollEvent::Finish { token: "t".to_string(), response_json: "{}".to_string() },
        }
    );
    assert_eq!(
        denial(id()),
        RelayMsg::PageEvent { id: id(), corr: 0, event: PageEvent::Deny }
    );
}

#[test]
fn pages_are_filled_in() {
    assert_eq!(approval_page("a __ID__ b __ID__", "E1"), "a E1 b E1");
    assert_eq!(approval_page("___ID__", "x"), "_x");
}

#[test]
fn relay_listens_where_it_is_told() {
    let listen = |args: &[&str]| listen_address(&texts(args));
    assert_eq!(listen(&[]), Ok("127.0.0.1:8787".to_string()));
    assert_eq!(listen(&["x", "--listen", "a", "--listen", "b"]), Ok("b".to_string()));
    assert_eq!(listen(&["--listen"]), Err("--listen requires an address".to_string()));
    assert_eq!(listen(&["--listen", "--listen"]), Ok("--listen".to_string()));
}

#[test]
fn plugin_keeps_what_sudo_says() {
    let ctx = plugin::open(
        &texts(&["user=agent", "uid=1001", "cwd=/w"]),
        &texts(&["SocketPath=/run/judo.sock", "IdentityPath=/etc/judo.json"]),
        7,
        "/default",
        "/default.json",
    );
    assert_eq!(
        ctx,
        OpenCtx {
            uid: 1001,
            cwd: "/w".to_string(),
            runas: "root".to_string(),
            socket_path: "/run/judo.sock".to_string(),
            identity_path: "/etc/judo.json".to_string(),
        }
    );
    let bare = plugin::open(&texts(&["uid=x", "uid=3"]), &vec![], 7, "/default", "/default.json");
    assert_eq!(bare.identity_path, "/default.json");
    assert_eq!((bare.uid, bare.cwd.as_str(), bare.socket_path.as_str()), (7, "/", "/default"));
    let ask = check(&Some(ctx), &texts(&["runas_user=www"]), texts(&["ls"])).unwrap();
    assert_eq!(
        ask,
        LocalReq::Request {
            uid: 1001,
            cwd: "/w".to_string(),
            runas: "www".to_string(),
            argv: texts(&["ls"]),
        }
    );
    assert_eq!(check(&None, &vec![], vec![]), Err("judo plugin was not opened".to_string()));
}

#[test]
fn plugin_lets_only_allowed_commands_run() {
    let resp = |verdict: &str| LocalResp::Verdict {
        verdict: verdict.to_string(),
        message: "m".to_string(),
    };
    let ruled = |allow| Ruling::Verdict { allow, message: "m".to_string() };
    assert_eq!(ruling(&resp("allow")), ruled(true));
    assert_eq!(ruling(&resp("timeout")), ruled(false));
    assert_eq!(
        ruling(&LocalResp::Failed { message: "f".to_string() }),
        Ruling::Failed { message: "f".to_string() }
    );
    assert_eq!(ruling(&LocalResp::Pending { envelopes: vec![] }), Ruling::Unexpected);
    let allowed = conclude(Ok((true, "m".to_string())), false);
    assert_eq!((allowed.code, allowed.is_error), (1, false));
    assert_eq!(conclude(Ok((false, "m".to_string())), false).code, 0);
    let lost = conclude(Err("connect x".to_string()), false);
    assert_eq!(
        (lost.code, lost.message.as_str(), lost.is_error),
        (0, "judo approval failed: connect x", true)
    );
}

#[test]
fn plugin_never_locks_humans_out() {
    let lost = conclude(Err("connect x".to_string()), true);
    assert_eq!(
        (lost.code, lost.message.as_str(), lost.is_error),
        (1, "judo approval failed: connect x", false)
    );
    assert_eq!(conclude(Ok((false, "m".to_string())), true).code, 0);
    let passwd = "root:x:0:0:r:/root:/bin/sh\nalice:x:1000:1000::/home/alice:/bin/sh\nbot:x:1001:";
    let identity = init(&answers()).unwrap().identity;
    assert!(declared_human(Some(&identity), passwd, 1000));
    assert!(!declared_human(Some(&identity), passwd, 1001));
    assert!(!declared_human(Some(&identity), passwd, 7));
    assert!(!declared_human(None, passwd, 1000));
}

#[test]
fn plugin_finds_the_socket() {
    assert_eq!(default_socket_path(Some("/s"), Some("/h")), "/s/judo/judo.sock");
    assert_eq!(default_socket_path(None, Some("/h")), "/h/.local/state/judo/judo.sock");
    assert_eq!(default_socket_path(None, None), "./.local/state/judo/judo.sock");
    assert_eq!(default_identity_path(Some("/r")), "/r/.config/judo/identity.json");
    assert_eq!(default_identity_path(None), "/root/.config/judo/identity.json");
}

#[test]
fn setup_makes_an_identity() {
    let setup = init(&answers()).unwrap();
    assert_eq!(setup.identity.humans, texts(&["alice", "bob"]));
    assert_eq!(setup.identity.daemon_id.len(), 26);
    assert_eq!(setup.identity.ed25519_secret_b64.len(), 44);
    assert_ne!(setup.identity.ed25519_secret_b64, setup.identity.ed25519_public_b64);
    assert!(setup.enroll_url.starts_with("https://judo.dev/enroll#"));
    assert!(setup.qr.contains('█'));
    assert_ne!(init(&answers()).unwrap().enroll_url, setup.enroll_url);
}

#[test]
fn setup_is_fixed_by_what_is_drawn() {
    let drawn = Drawn {
        daemon_id: "D".to_string(),
        secret: vec![0; 32],
        public: vec![0; 32],
        enroll_key: vec![0; 32],
    };
    let setup = init_with(&answers(), &drawn).unwrap();
    assert_eq!(
        setup.enroll_url,
        "https://judo.dev/enroll#AAAAAAAAAAAAAAAAAAAAAAAAAAAAAAAAAAAAAAAAAAA="
    );
    assert_eq!(setup.identity.ed25519_public_b64, "AAAAAAAAAAAAAAAAAAAAAAAAAAAAAAAAAAAAAAAAAAA=");
    let bad = Answers { relay_url: "x".to_string(), ..answers() };
    assert!(matches!(init_with(&bad, &drawn), Err(SetupError::Relay(_))));
    let long = Answers { relay_url: format!("wss://{}/", "a.".repeat(2_000)), ..answers() };
    let error = init_with(&long, &drawn).unwrap_err();
    assert_eq!(error.message(), "data too long");
}

#[test]
fn prompts_have_defaults() {
    assert_eq!(prompt_line("Relay", "x"), "Relay [x]: ");
    assert_eq!(prompt_answer(" \n", "x"), "x");
    assert_eq!(prompt_answer(" y \n", "x"), "y");
    assert_eq!(parse_humans(",, a ,"), texts(&["a"]));
}

#[test]
fn workspaces_are_trusted_in_order() {
    let mut id = init(&answers()).unwrap().identity;
    assert!(trust(&mut id, "/b"));
    assert!(trust(&mut id, "/a"));
    assert!(!trust(&mut id, "/a"));
    assert_eq!(id.trusted, texts(&["/a", "/b"]));
    untrust(&mut id, "/a");
    untrust(&mut id, "/c");
    assert_eq!(id.trusted, texts(&["/b"]));
    assert_eq!(sort_texts(texts(&["b", "a", "", "b"])), texts(&["", "a", "b", "b"]));
    assert_eq!(trust_refusal("x"), "refusing to trust malformed policy: x");
}

#[test]
fn health_is_printed_line_by_line() {
    let workspace = |dir: &str, error: Option<&str>, ok| WorkspaceInfo {
        dir: dir.to_string(),
        ok,
        error: error.map(|e| e.to_string()),
    };
    let info = StatusInfo {
        relay_connected: false,
        relay_url: "wss://x".to_string(),
        passkeys: 2,
        humans: texts(&["a", "b"]),
        workspaces: vec![
            workspace("/a", None, true),
            workspace("/b", Some("bad"), false),
            workspace("/c", None, false),
        ],
        pending: 1,
    };
    assert_eq!(
        status_lines(&info),
        texts(&[
            "relay: wss://x (disconnected)",
            "humans: a, b",
            "passkeys: 2",
            "pending: 1",
            "workspace: /a ok",
            "workspace: /b dropped: bad",
            "workspace: /c dropped: unknown error",
        ])
    );
}

#[test]
fn pending_envelopes_are_printed() {
    let info = PendingInfo {
        id: "E1".to_string(),
        age_secs: 12,
        state: "pending".to_string(),
        agent_user: "agent".to_string(),
        categories: vec![],
        command: "ls -l".to_string(),
    };
    assert_eq!(pending_lines(&vec![info]), texts(&["E1 [pending] 12s agent ls -l"]));
}

#[test]
fn approvals_at_the_terminal_are_confirmed() {
    let info = |id: &str, command: &str| PendingInfo {
        id: id.to_string(),
        age_secs: 41,
        state: "pending".to_string(),
        agent_user: "agent".to_string(),
        categories: vec![],
        command: command.to_string(),
    };
    let listed = vec![info("E1", "ls"), info("E2", "psql -c 'DROP TABLE x'")];
    assert_eq!(
        approval_lines("leigh", &listed, "E2"),
        Some(texts(&[
            "You are approving as declared human 'leigh' (kernel-verified login).",
            "  psql -c 'DROP TABLE x'",
        ]))
    );
    assert_eq!(approval_lines("leigh", &listed, "E3"), None);
    assert!(confirmed("y\n") && confirmed(" Y "));
    assert!(!confirmed("\n") && !confirmed("yes") && !confirmed("n"));
}

#[test]
fn dry_runs_are_printed() {
    let engine = Engine::new(PolicyFile::default(), PolicyFile::default());
    let lines = |cmd: &str| classify_lines(&engine.classify(cmd, "bot", None, false, None));
    assert_eq!(
        lines("apt  install jq"),
        texts(&[
            "normalized: apt install jq",
            "match: pkg.install approve builtin-default",
            "effective: approve",
            "approver: passkey required; ttl offered pkg.install 30m",
        ])
    );
    assert_eq!(
        lines("reboot"),
        texts(&[
            "normalized: reboot",
            "match: hardline.shutdown deny builtin-hardline",
            "effective: deny",
            "approver: none",
        ])
    );
    assert_eq!(
        lines("echo hi"),
        texts(&[
            "normalized: echo hi",
            "match: (unmatched) approve default",
            "effective: approve",
            "approver: passkey required; approve-once only",
        ])
    );
}

#[test]
fn brokered_runs_need_an_allowing_verdict() {
    let resp = |verdict: &str| LocalResp::Verdict {
        verdict: verdict.to_string(),
        message: "m".to_string(),
    };
    let m = || "m".to_string();
    assert_eq!(brokered_run(&resp("allow")), RunNext::Exec { message: m() });
    assert_eq!(brokered_run(&resp("deny")), RunNext::Refused { message: m() });
    assert_eq!(
        brokered_run(&LocalResp::Failed { message: m() }),
        RunNext::Refused { message: m() }
    );
    assert_eq!(brokered_run(&LocalResp::Done { message: m() }), RunNext::Unexpected);
    assert_eq!(simple_message(&LocalResp::Done { message: m() }), Some(m()));
    assert_eq!(simple_message(&resp("deny")), Some(m()));
    assert_eq!(simple_message(&LocalResp::Pending { envelopes: vec![] }), None);
}

#[test]
fn replayed_envelopes_are_stored_once() {
    let mut r = Relay::new();
    assert_eq!(r.handle_daemon_msg(&created("E1")), None);
    let stored = r.ciphertext("E1");
    assert_eq!(r.handle_daemon_msg(&created("E1")), None);
    assert_eq!(r.ciphertext("E1"), stored);
    assert_eq!(r.known(), 1);
}
