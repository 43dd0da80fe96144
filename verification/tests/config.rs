use judo::config::{
    audit_path, audit_path_in, config_dir, config_dir_in, global_policy_path, global_policy_path_in,
    identity_path_in, rp_from_parts, rp_from_relay, socket_path, socket_path_in, state_dir,
    state_dir_in, workspace_for, workspace_policy_path, ConfigError, Identity, UrlParts,
};
use judo::host::{
    home_for_uid, label_in, parent_in, shell_join, sniff_harness, sniff_trace,
    targets_policy_file, username_for_uid, Look, Sniffed, MARKER, SNIFF_DEPTH,
};
use judo::paths::{is_in, join, join_bytes, same_path};
use judo::text::{
    contains, decimal_text, find_after, lines, parse_u32, parse_u64, replace, split, strip_prefix,
    trim,
};

fn texts(list: &[&str]) -> Vec<String> {
    list.iter().map(|s| s.to_string()).collect()
}

fn identity() -> Identity {
    Identity {
        daemon_id: "d".to_string(),
        ed25519_secret_b64: "s".to_string(),
        ed25519_public_b64: "p".to_string(),
        relay_url: "ws://localhost/daemon".to_string(),
        humans: texts(&["alice", "bob"]),
        ntfy_topic: "log".to_string(),
        passkeys: vec![],
        trusted: vec![],
    }
}

#[test]
fn rp_from_relay_derives_origin_for_wss_without_port() {
    let (rp_id, origin) = rp_from_relay("wss://judo.stillard.com/daemon").unwrap();

    assert_eq!(rp_id, "judo.stillard.com");
    assert_eq!(origin, "https://judo.stillard.com");
}

#[test]
fn rp_from_relay_keeps_explicit_wss_port() {
    let (rp_id, origin) = rp_from_relay("wss://judo.stillard.com:8443/daemon").unwrap();

    assert_eq!(rp_id, "judo.stillard.com");
    assert_eq!(origin, "https://judo.stillard.com:8443");
}

#[test]
fn rp_from_relay_supports_ws_localhost() {
    let (rp_id, origin) = rp_from_relay("ws://127.0.0.1:8787/daemon").unwrap();

    assert_eq!(rp_id, "127.0.0.1");
    assert_eq!(origin, "http://127.0.0.1:8787");
}

#[test]
fn rp_from_relay_refuses_other_addresses() {
    let error = rp_from_relay("https://judo.dev/daemon").unwrap_err();
    assert_eq!(error, ConfigError::WrongScheme { scheme: "https".to_string() });
    assert_eq!(error.message(), "relay URL must use ws or wss, got https");
    let error = rp_from_relay("judo").unwrap_err();
    assert!(matches!(error, ConfigError::InvalidUrl { .. }));
    assert_eq!(error.message(), "invalid relay WebSocket URL: relative URL without a base");
    assert_eq!(
        rp_from_relay("wss://judo.dev:443/daemon").unwrap(),
        ("judo.dev".to_string(), "https://judo.dev".to_string())
    );
}

#[test]
fn rp_from_parts_leaves_out_the_schemes_own_port() {
    let parts = |scheme: &str, host: Option<&str>, port: Option<u16>| {
        rp_from_parts(Ok(UrlParts {
            scheme: scheme.to_string(),
            host: host.map(|h| h.to_string()),
            domain: None,
            port,
        }))
    };
    assert_eq!(parts("ws", Some("h"), Some(80)).unwrap().1, "http://h");
    assert_eq!(parts("ws", Some("h"), Some(443)).unwrap().1, "http://h:443");
    assert_eq!(parts("wss", Some("h"), Some(443)).unwrap().1, "https://h");
    assert_eq!(parts("ws", None, None), Err(ConfigError::NoHost));
    assert_eq!(ConfigError::NoHost.message(), "relay URL must include a host");
}

fn bytes(s: &str) -> Vec<u8> {
    s.as_bytes().to_vec()
}

#[test]
fn directories_fall_back_to_the_current_one() {
    let dir = |s: &str| Some(bytes(s));
    assert_eq!(config_dir_in(dir("/home/a/.config")), bytes("/home/a/.config/judo"));
    assert_eq!(config_dir_in(None), bytes("./judo"));
    assert_eq!(state_dir_in(None, dir("/d")), bytes("/d/judo"));
    assert_eq!(state_dir_in(dir("/s/"), dir("/d")), bytes("/s/judo"));
    assert_eq!(state_dir_in(None, None), bytes("./judo"));
    assert_eq!(socket_path_in(&bytes("/s/judo")), bytes("/s/judo/judo.sock"));
    assert_eq!(audit_path_in(&bytes("/s/judo")), bytes("/s/judo/audit.jsonl"));
    assert_eq!(global_policy_path_in(&bytes("/c/judo")), bytes("/c/judo/judo.toml"));
    assert_eq!(identity_path_in(&bytes("/c/judo")), bytes("/c/judo/identity.json"));
    assert_eq!(workspace_policy_path("/w"), "/w/judo.toml");
}

#[test]
fn directories_need_not_be_text() {
    let odd = vec![b'/', 0xff, 0xfe];
    let mut own = odd.clone();
    own.extend(b"/judo");
    assert_eq!(config_dir_in(Some(odd.clone())), own);
    assert_eq!(state_dir_in(Some(odd), None), own);
    let mut identity = own.clone();
    identity.extend(b"/identity.json");
    assert_eq!(identity_path_in(&own), identity);
    assert_eq!(join_bytes(&own, "/x"), bytes("/x"));
    assert_eq!(join_bytes(&vec![], "x"), bytes("x"));
}

#[test]
fn own_files_stand_in_own_directories() {
    assert!(config_dir().ends_with(b"judo"));
    assert!(state_dir().ends_with(b"judo"));
    let below = |mut dir: Vec<u8>, name: &str| {
        dir.extend(name.as_bytes());
        dir
    };
    assert_eq!(socket_path(), below(state_dir(), "/judo.sock"));
    assert_eq!(audit_path(), below(state_dir(), "/audit.jsonl"));
    assert_eq!(global_policy_path(), below(config_dir(), "/judo.toml"));
    assert_eq!(Identity::path(), below(config_dir(), "/identity.json"));
}

#[test]
fn humans_are_those_declared() {
    assert!(identity().is_human("bob"));
    assert!(!identity().is_human("bo"));
}

#[test]
fn longest_trusted_directory_governs() {
    let trusted = texts(&["/w", "/w/deep", "/other"]);
    assert_eq!(workspace_for(&trusted, "/w/deep/er"), Some(&"/w/deep".to_string()));
    assert_eq!(workspace_for(&trusted, "/w"), Some(&"/w".to_string()));
    assert_eq!(workspace_for(&trusted, "/wide"), None);
    assert_eq!(workspace_for(&[], "/w"), None);
    assert_eq!(workspace_for(&texts(&["/"]), "/srv/app"), Some(&"/".to_string()));
    assert_eq!(workspace_for(&texts(&["/", "/srv/"]), "/srv/app"), Some(&"/srv/".to_string()));
    assert_eq!(workspace_for(&texts(&["/srv/"]), "/srvx"), None);
}

#[test]
fn paths_are_joined_and_held_together() {
    assert_eq!(join("/a", "b"), "/a/b");
    assert_eq!(join("/a/", "b"), "/a/b");
    assert_eq!(join("/a", "/b"), "/b");
    assert_eq!(join("", "b"), "b");
    assert!(same_path("/a//b/./c/", "/a/b/c"));
    assert!(!same_path("/a/b", "a/b"));
    assert!(!same_path("./a", "a"));
    assert!(same_path("/a/../b", "/b"));
    assert!(same_path("/../../b", "/b"));
    assert!(same_path("a/../../b", "../b"));
    assert!(!same_path("../a", "a"));
    assert!(!is_in("/a/b", "/a/b/../c"));
    assert!(is_in("/a/b", "/a/x/../b/c"));
    assert!(is_in("/a/b/", "/a//b"));
    assert!(is_in("/a/b", "/a/b/c"));
    assert!(!is_in("/a/b", "/a/bc"));
    assert!(!is_in("/a/b", "/a"));
    assert!(!is_in("/a/b", "a/b/c"));
}

#[test]
fn logins_are_found_by_user_id() {
    let passwd = "root:x:0:0\nbroken\nx:y:z\nalice:x:1000:1000:A:/home/a:/bin/sh\nalias:x:1000:\n";
    assert_eq!(username_for_uid(passwd, 1000), Some("alice".to_string()));
    assert_eq!(username_for_uid(passwd, 0), Some("root".to_string()));
    assert_eq!(username_for_uid(passwd, 7), None);
    assert_eq!(username_for_uid("", 0), None);
    assert_eq!(home_for_uid(passwd, 1000), Some("/home/a".to_string()));
    assert_eq!(home_for_uid(passwd, 0), None);
    assert_eq!(home_for_uid(passwd, 7), None);
}

#[test]
fn harnesses_are_known_by_their_traces() {
    let look = Look { pid: 10, left: SNIFF_DEPTH };
    let status = "Name:\tsh\nPPid:\t7\n";
    assert_eq!(
        sniff_harness(look, "node\n", "CLAUDECODE=1\0", None),
        Sniffed::Label(format!("{}-code", &MARKER[..6]))
    );
    assert_eq!(sniff_harness(look, "Codex", "", None), Sniffed::Label("codex".to_string()));
    assert_eq!(
        sniff_harness(look, "sh", "", Some(status)),
        Sniffed::Further(Look { pid: 7, left: 11 })
    );
    assert_eq!(sniff_harness(look, "sh", "", None), Sniffed::Nothing);
    assert_eq!(sniff_trace(look, "sh", Some("PPid:\t0\n")), Sniffed::Nothing);
    assert_eq!(sniff_trace(look, "sh", Some("PPid:\t10\n")), Sniffed::Nothing);
    assert_eq!(sniff_trace(Look { pid: 10, left: 1 }, "sh", Some(status)), Sniffed::Nothing);
    assert_eq!(label_in("hermes"), Some("hermes".to_string()));
    assert_eq!(label_in("bash"), None);
    assert_eq!(parent_in("PPid:\tx\n"), None);
}

#[test]
fn policy_files_are_protected_by_any_path() {
    let targets = |arg: &str| targets_policy_file(&texts(&["cat", arg]), "/w/sub", "/w", Some("/c/judo"));
    assert!(targets("/x/judo.toml"));
    assert!(targets("/c/judo//identity.json"));
    assert!(targets("../../c/judo/identity.json"));
    assert!(!targets("../c/judo/identity.json"));
    assert!(!targets("identity.json"));
    assert!(targets_policy_file(&texts(&["identity.json"]), "/c/judo/", "/w", Some("/c/judo")));
    assert!(!targets_policy_file(&[].to_vec(), "/", "/", Some("/")));
    assert!(targets("/etc/sudo.conf"));
    assert!(targets("/etc//sudo.conf"));
    assert!(!targets("/etc/sudoers"));
    assert!(targets("/usr/libexec/sudo"));
    assert!(targets("/usr/libexec/sudo/judo.so"));
    assert!(!targets("/usr/libexec/sudoers"));
    assert!(targets("of=/etc/sudo.conf"));
    assert!(targets_policy_file(&texts(&["x/../sudo.conf"]), "/etc", "/w", None));
    assert!(targets_policy_file(&texts(&["../../usr/lib/../libexec/sudo"]), "/w/sub", "/w", None));
    assert!(!targets_policy_file(&texts(&["/c/judo/identity.json"]), "/", "/w", None));
    assert!(targets("tee /usr/libexec/sudo/x.so"));
    assert!(targets_policy_file(&texts(&["sudo.conf"]), "/etc", "/w", Some("/c/judo")));
    assert!(targets_policy_file(&texts(&["sudo/x.so"]), "/usr/libexec", "/w", Some("/c/judo")));
}

#[test]
fn command_lines_are_joined_by_blanks() {
    assert_eq!(shell_join(&texts(&["sudo", "ls", "-l"])), "sudo ls -l");
    assert_eq!(shell_join(&vec![]), "");
}

#[test]
fn text_primitives_follow_the_standard_library() {
    for s in ["", " a b ", "\u{2003}x\u{a0}", "\t\n", "a\r\nb\n\nc", "\n", "a\n", "äöü:ß:"] {
        assert_eq!(trim(s), s.trim());
        assert_eq!(lines(s), s.lines().map(|l| l.to_string()).collect::<Vec<_>>());
        assert_eq!(split(s, ':'), s.split(':').map(|l| l.to_string()).collect::<Vec<_>>());
        assert_eq!(contains(s, "b"), s.contains("b"));
        assert_eq!(strip_prefix(s, "a"), s.strip_prefix("a"));
        assert_eq!(replace(s, "\n", "__"), s.replace("\n", "__"));
    }
    for s in ["", "+", "+7", "-7", "007", "4294967295", "4294967296", "18446744073709551616", "1x"] {
        assert_eq!(parse_u32(s), s.parse().ok());
        assert_eq!(parse_u64(s), s.parse().ok());
    }
    for n in [0, 9, 10, 305, u64::MAX] {
        assert_eq!(decimal_text(n), n.to_string());
    }
    assert_eq!(find_after(&texts(&["a=1", "b=2", "b=3"]), "b="), Some("2".to_string()));
}
