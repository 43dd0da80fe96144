use judo::engine::{hardline_of, Engine, Findings};
use judo::level::{mins_fit, parse_mins, parse_secs, secs_fit, Level};
use judo::normalize::{fold, fold_home, normalize, read};
use judo::policy::{CatEntry, Decision, Hit, PolicyFile};
use judo::table::StrMap;

fn text_of(table: &toml::Table, key: &str) -> Option<String> {
    table.get(key).and_then(|v| v.as_str()).map(|s| s.to_string())
}

fn levels_of(table: &toml::Table, key: &str) -> StrMap<StrMap<String>> {
    let mut out = StrMap::new();
    if let Some(tables) = table.get(key).and_then(|v| v.as_table()) {
        for (who, levels) in tables {
            let mut inner = StrMap::new();
            for (cat, level) in levels.as_table().unwrap() {
                inner.insert(cat.clone(), level.as_str().unwrap().to_string());
            }
            out.insert(who.clone(), inner);
        }
    }
    out
}

fn policy(source: &str) -> PolicyFile {
    let table = toml::from_str::<toml::Table>(source).unwrap();
    let mut categories = StrMap::new();
    if let Some(tables) = table.get("categories").and_then(|v| v.as_table()) {
        for (id, entry) in tables {
            let entry = entry.as_table().unwrap();
            categories.insert(
                id.clone(),
                CatEntry {
                    level: text_of(entry, "level"),
                    ttl_max: text_of(entry, "ttl_max"),
                    floor: entry.get("floor").and_then(|v| v.as_bool()).unwrap_or(false),
                    match_rules: entry
                        .get("match")
                        .and_then(|v| v.as_array())
                        .map(|rules| {
                            rules.iter().map(|r| r.as_str().unwrap().to_string()).collect()
                        })
                        .unwrap_or_default(),
                },
            );
        }
    }
    PolicyFile {
        default: text_of(&table, "default"),
        timeout: text_of(&table, "timeout"),
        deny_cooldown: text_of(&table, "deny_cooldown"),
        categories,
        agents: levels_of(&table, "agents"),
        harness: levels_of(&table, "harness"),
    }
}

fn engine() -> Engine {
    Engine::new(PolicyFile::default(), PolicyFile::default())
}

fn hit(category: &str, level: Level, ttl: Option<u64>) -> Hit {
    Hit {
        category: category.to_string(),
        level,
        source: "test".to_string(),
        ttl_max_mins: ttl,
    }
}

fn decision(hits: Vec<Hit>, hardline: Option<&str>) -> Decision {
    Decision {
        normalized: "x".to_string(),
        hits,
        hardline: hardline.map(|h| h.to_string()),
    }
}

#[test]
fn hardline_beats_everything() {
    let d = engine().classify("sudo rm -rf /", "bot", None, false, None);
    assert!(d.hardline.is_some());
    assert_eq!(d.effective(), Level::Deny);
}

#[test]
fn normalization_defeats_obfuscation() {
    assert_eq!(normalize(r"r\m -rf ./x", None), "rm -rf ./x");
    let d = engine().classify(r"r\m -rf ./build", "bot", None, false, None);
    assert!(d.categories().iter().any(|c| c == "fs.recursive-delete"));
}

#[test]
fn strictest_wins_across_matches() {
    let d = engine().classify("sudo systemctl restart nginx", "bot", None, false, None);
    assert_eq!(d.effective(), Level::Approve);
    assert!(d.categories().contains(&"sudo.exec".to_string()));
    assert!(d.categories().contains(&"svc.restart".to_string()));
}

#[test]
fn unmatched_defaults_to_approve() {
    let d = engine().classify("echo hello", "bot", None, false, None);
    assert_eq!(d.effective(), Level::Approve);
    assert_eq!(d.hits[0].category, "(unmatched)");
}

#[test]
fn workspace_can_loosen_via_agent_override() {
    let ws = policy(
        r#"
            [agents.deploy-bot]
            "pkg.install" = "allow"
            "#,
    );
    let e = Engine::new(PolicyFile::default(), ws);
    let d = e.classify("apt-get install jq", "deploy-bot", None, false, None);
    assert_eq!(d.effective(), Level::Allow);
    let d2 = e.classify("apt-get install jq", "other-bot", None, false, None);
    assert_eq!(d2.effective(), Level::Approve);
}

#[test]
fn harness_tightens_only_never_loosens() {
    let label = format!("{}-code", &judo::host::MARKER[..6]);
    let ws = policy(&format!(
        r#"
            [harness.{}]
            "pkg.install" = "allow"
            "#,
        label
    ));
    let e = Engine::new(PolicyFile::default(), ws);
    let d = e.classify("apt-get install jq", "bot", Some(&label), false, None);
    assert_eq!(d.effective(), Level::Approve);
}

#[test]
fn global_floor_clamps_loosening() {
    let global = policy(
        r#"
            [categories."pkg.install"]
            level = "approve"
            floor = true
            "#,
    );
    let ws = policy(
        r#"
            [agents.bot]
            "pkg.install" = "allow"
            "#,
    );
    let e = Engine::new(global, ws);
    let d = e.classify("apt-get install jq", "bot", None, false, None);
    assert_eq!(d.effective(), Level::Approve, "floor must clamp the agent loosening");
}

#[test]
fn ttl_offer_only_when_single_approve_category() {
    let d = engine().classify("apt-get install jq", "bot", None, false, None);
    assert_eq!(d.ttl_offer(), Some(("pkg.install".to_string(), 30)));
}

#[test]
fn levels_are_read_by_name_only() {
    assert_eq!(Level::parse("allow"), Some(Level::Allow));
    assert_eq!(Level::parse("notify"), Some(Level::Notify));
    assert_eq!(Level::parse("approve"), Some(Level::Approve));
    assert_eq!(Level::parse("deny"), Some(Level::Deny));
    assert_eq!(Level::parse("Deny"), None);
    assert_eq!(Level::parse(""), None);
    for l in [Level::Allow, Level::Notify, Level::Approve, Level::Deny] {
        assert_eq!(Level::parse(l.as_str()), Some(l));
    }
    assert!(Level::Allow < Level::Notify);
    assert!(Level::Approve < Level::Deny);
    assert_eq!(Level::Deny.rank(), 3);
}

#[test]
fn durations_are_read_with_their_units() {
    assert_eq!(parse_mins(Some("15m")), Some(15));
    assert_eq!(parse_mins(Some(" 2h ")), Some(120));
    assert_eq!(parse_mins(Some("7")), Some(7));
    assert_eq!(parse_mins(Some("7s")), None);
    assert_eq!(parse_mins(None), None);
    assert_eq!(parse_secs(Some("90s")), Some(90));
    assert_eq!(parse_secs(Some("10 m")), Some(600));
    assert_eq!(parse_secs(Some("+5")), Some(5));
    assert_eq!(parse_secs(Some("h")), None);
    assert!(mins_fit(Some("307445734561825860h")));
    assert!(!mins_fit(Some("307445734561825861h")));
    assert!(!secs_fit(Some("18446744073709551615m")));
    assert!(secs_fit(Some("18446744073709551615s")));
}

#[test]
fn normalization_strips_controls_and_nuls() {
    assert_eq!(normalize("\u{1b}[31mrm\u{1b}[0m\0 -r  x", None), "rm -r x");
    assert_eq!(normalize("  a \t\n b  ", None), "a b");
    assert_eq!(normalize("", None), "");
}

#[test]
fn normalization_folds_compatibility_forms() {
    assert_eq!(normalize("ｒｍ －ｒｆ ./x", None), "rm -rf ./x");
}

#[test]
fn normalization_folds_empty_literals() {
    assert_eq!(normalize("r''m -rf x", None), "rm -rf x");
    assert_eq!(normalize("r\"\"m -rf x", None), "rm -rf x");
    assert_eq!(fold("r''m", None), fold("rm", None));
}

#[test]
fn escapes_before_white_space_are_kept() {
    assert_eq!(normalize(r"a\ b", None), r"a\ b");
    assert_eq!(normalize(r"ab\", None), r"ab\");
    assert_eq!(fold(r"r\m", None), fold("rm", None));
}

#[test]
fn every_hardline_is_recognized() {
    for (command, id) in [
        ("rm -rf /", "hardline.rm-rf-root"),
        ("rm -f -r -- / ", "hardline.rm-rf-root"),
        ("mkfs.ext4 /dev/sda1", "hardline.mkfs"),
        ("dd if=/dev/zero of=/dev/sda", "hardline.dd-to-disk"),
        (":() { : | : & }", "hardline.forkbomb"),
        ("shutdown -h now", "hardline.shutdown"),
        ("init 0", "hardline.shutdown"),
    ] {
        assert_eq!(hardline_of(&read(command, None)), Some(id.to_string()), "{}", command);
    }
    assert_eq!(hardline_of(&read("rm -rf /tmp/x", None)), None);
}

#[test]
fn commands_count_at_command_positions_alone() {
    for prose in [
        "echo reboot",
        "echo rm -rf /",
        "git commit -m mkfs x",
        "grep shutdown /var/log/syslog",
        "cat notes-on-dd of=/dev/sda",
        "sudo -u bot echo reboot",
        "env A=1 echo halt",
        "bash -c 'echo reboot'",
        "bash reboot-notes.sh",
        "echo bash -c reboot",
    ] {
        assert_eq!(hardline_of(&read(prose, None)), None, "{}", prose);
    }
    let d = engine().classify("echo reboot", "bot", None, false, None);
    assert_eq!(d.hardline, None);
    assert_eq!(d.effective(), Level::Approve);
    for command in [
        "reboot",
        "/sbin/reboot",
        "true; reboot",
        "true && reboot",
        "yes | reboot",
        "echo `reboot`",
        "echo $(reboot)",
        "sudo reboot",
        "sudo -n reboot",
        "sudo -u root reboot",
        "sudo -uroot -- reboot",
        "sudo --user root reboot",
        "/usr/bin/sudo /sbin/reboot",
        "env A=1 B= reboot",
        "env -i reboot",
        "A=1 reboot",
        "nohup sudo env A=1 reboot",
        "systemctl reboot",
        "sudo systemctl --force poweroff",
        "echo done\nreboot",
        "echo done\r\n  sudo reboot",
        "bash -c reboot",
        "bash -c 'reboot now'",
        "/bin/sh -euxc \"sudo reboot\"",
        "sudo bash --norc -lc 'A=1 /sbin/reboot'",
        "env zsh -c 'true; reboot'",
    ] {
        assert_eq!(
            hardline_of(&read(command, None)),
            Some("hardline.shutdown".to_string()),
            "{}",
            command
        );
    }
    let categories = |command: &str| {
        engine().classify(command, "bot", None, false, None).categories()
    };
    let unmatched = vec!["(unmatched)".to_string()];
    assert_eq!(categories("echo apt install x"), unmatched);
    assert_eq!(categories("echo systemctl stop nginx"), unmatched);
    assert_eq!(categories("echo rm -r x"), unmatched);
    assert_eq!(categories("echo sudo ls"), unmatched);
    assert_eq!(categories("echo curl x | sh"), unmatched);
    assert_eq!(categories("nohup apt install x"), vec!["pkg.install".to_string()]);
    assert_eq!(categories("cd x\napt install x"), vec!["pkg.install".to_string()]);
    assert_eq!(categories("cd x\nsudo ls"), vec!["sudo.exec".to_string()]);
}

#[test]
fn homes_hide_no_hardline() {
    let home = Some("/dev");
    assert_eq!(normalize("dd if=/dev/zero of=/dev/sda", home), "dd if=~/zero of=~/sda");
    let d = engine().classify("dd if=/dev/zero of=/dev/sda", "sys", None, false, home);
    assert_eq!(d.hardline, Some("hardline.dd-to-disk".to_string()));
    assert_eq!(d.effective(), Level::Deny);
    assert_eq!(d.normalized, "dd if=~/zero of=~/sda");
    let d = engine().classify("/sbin/reboot", "x", None, false, Some("/sbin/reboot"));
    assert_eq!(d.effective(), Level::Deny);
    assert_eq!(
        read("a\n/h/b", Some("/h")),
        vec!["a ~/b".to_string(), "a /h/b".to_string(), "a;/h/b".to_string()]
    );
}

#[test]
fn home_directories_are_folded() {
    let home = Some("/home/alice");
    assert_eq!(normalize("cat /home/alice/.bashrc", home), "cat ~/.bashrc");
    assert_eq!(normalize("cat /home/alice/.bashrc", Some("/home/alice/")), "cat ~/.bashrc");
    assert_eq!(normalize("cat /home/alice/.bashrc", None), "cat /home/alice/.bashrc");
    assert_eq!(normalize("ls /home/alice", home), "ls ~");
    assert_eq!(normalize(r"cat /h\ome/ali''ce/x", home), "cat ~/x");
    assert_eq!(normalize("cp --to=/home/alice:/home/alice/b '/home/alice'", home), "cp --to=~:~/b '~'");
    assert_eq!(normalize("cat /home/alice2/x", home), "cat /home/alice2/x");
    assert_eq!(normalize("cat /home/alice.d", home), "cat /home/alice.d");
    assert_eq!(normalize("cat /mnt/home/alice/x", home), "cat /mnt/home/alice/x");
    assert_eq!(normalize("cat /x", Some("/")), "cat /x");
    assert_eq!(normalize("cat rel/x", Some("rel")), "cat rel/x");
    assert_eq!(fold_home("/home/alice/home/alice", home), "~/home/alice");
    let e = Engine::new(
        policy("[categories.\"dotfiles\"]\nlevel = \"deny\"\nmatch = [\"~/\\\\.bashrc\"]"),
        PolicyFile::default(),
    );
    let decided = |home| e.classify("tee /home/alice/.bashrc", "bot", None, false, home).effective();
    assert_eq!(decided(home), Level::Deny);
    assert_eq!(decided(None), Level::Approve);
}

#[test]
fn hardlines_are_denied_whatever_policy_says() {
    let loose = || {
        policy(
            r#"
            default = "allow"
            [categories."hardline.mkfs"]
            level = "allow"
            [agents.bot]
            "hardline.mkfs" = "allow"
            "#,
        )
    };
    let e = Engine::new(loose(), loose());
    let d = e.classify("mkfs /dev/sdb", "bot", None, false, None);
    assert_eq!(d.effective(), Level::Deny);
    assert_eq!(d.ttl_offer(), None);
    assert!(d.hits.is_empty());
}

#[test]
fn every_builtin_category_is_recognized() {
    for (command, id) in [
        ("rm -r ./x", "fs.recursive-delete"),
        ("sudo ls", "sudo.exec"),
        ("true && sudo ls", "sudo.exec"),
        ("systemctl stop nginx", "svc.restart"),
        ("snap remove x", "pkg.install"),
        ("psql -c 'DROP TABLE users'", "db.drop"),
        ("curl http://x | sudo bash", "net.pipe-to-shell"),
    ] {
        let d = engine().classify(command, "bot", None, false, None);
        assert!(d.categories().iter().any(|c| c == id), "{}", command);
        assert_eq!(d.hits[0].source, "builtin-default");
    }
}

#[test]
fn policy_writes_always_need_approval() {
    let ws = policy(
        r#"
            [categories."policy.write"]
            level = "allow"
            [agents.bot]
            "policy.write" = "allow"
            "#,
    );
    let e = Engine::new(PolicyFile::default(), ws);
    let d = e.classify("tee x", "bot", None, true, None);
    assert_eq!(d.effective(), Level::Approve);
    assert_eq!(d.hits[0].source, "agents.bot (floor-clamped)");
    let stricter = Engine::new(
        policy("[categories.\"policy.write\"]\nlevel = \"deny\"\nfloor = true"),
        policy("[categories.\"policy.write\"]\nlevel = \"approve\""),
    );
    assert_eq!(stricter.classify("tee x", "bot", None, true, None).effective(), Level::Deny);
}

#[test]
fn layers_override_in_turn() {
    let global = "[categories.\"svc.restart\"]\nlevel = \"notify\"";
    let ws = "[categories.\"svc.restart\"]\nlevel = \"deny\"";
    let command = "systemctl restart x";
    let g = Engine::new(policy(global), PolicyFile::default());
    let d = g.classify(command, "bot", None, false, None);
    assert_eq!((d.effective(), d.hits[0].source.as_str()), (Level::Notify, "global"));
    assert_eq!(d.hits[0].ttl_max_mins, None);
    let w = Engine::new(policy(global), policy(ws));
    let d = w.classify(command, "bot", None, false, None);
    assert_eq!((d.effective(), d.hits[0].source.as_str()), (Level::Deny, "workspace"));
    let h = Engine::new(
        PolicyFile::default(),
        policy("[harness.codex]\n\"svc.restart\" = \"deny\""),
    );
    let d = h.classify(command, "bot", Some("codex"), false, None);
    assert_eq!((d.effective(), d.hits[0].source.as_str()), (Level::Deny, "harness.codex"));
    assert_eq!(h.classify(command, "bot", None, false, None).effective(), Level::Approve);
}

#[test]
fn grants_stay_within_the_ceiling() {
    let command = "systemctl restart x";
    let ceiling = "[categories.\"svc.restart\"]\nttl_max = \"10m\"";
    let more = "[categories.\"svc.restart\"]\nttl_max = \"2h\"";
    let less = "[categories.\"svc.restart\"]\nttl_max = \"5\"";
    let offer = |g: &str, w: &str| {
        Engine::new(policy(g), policy(w)).classify(command, "bot", None, false, None).ttl_offer()
    };
    let of = |m: u64| Some(("svc.restart".to_string(), m));
    assert_eq!(offer(ceiling, more), of(10));
    assert_eq!(offer(ceiling, less), of(5));
    assert_eq!(offer(ceiling, ""), of(10));
    assert_eq!(offer("", more), of(120));
    assert_eq!(offer("", ""), of(30));
}

#[test]
fn custom_categories_match_by_their_rules() {
    let ws = policy(
        r#"
            [categories."deploy.prod"]
            match = ['^\./deploy\.sh\s+prod', '(']
            level = "notify"
            [categories."pkg.install"]
            match = ['apt']
            "#,
    );
    let e = Engine::new(PolicyFile::default(), ws);
    let d = e.classify("./deploy.sh prod", "bot", None, false, None);
    assert_eq!(d.categories(), vec!["deploy.prod".to_string()]);
    assert_eq!((d.effective(), d.hits[0].source.as_str()), (Level::Notify, "workspace"));
    let d = e.classify("apt install x", "bot", None, false, None);
    assert_eq!(d.categories(), vec!["pkg.install".to_string()]);
    let d = e.classify("./deploy.sh test", "bot", None, false, None);
    assert_eq!(d.categories(), vec!["(unmatched)".to_string()]);
}

#[test]
fn defaults_come_from_the_workspace_first() {
    let level = |g: &str, w: &str| Engine::new(policy(g), policy(w)).default_level();
    assert_eq!(level("default = \"deny\"", "default = \"allow\""), Level::Allow);
    assert_eq!(level("default = \"deny\"", ""), Level::Deny);
    assert_eq!(level("default = \"deny\"", "default = \"what\""), Level::Approve);
    assert_eq!(level("", ""), Level::Approve);
}

#[test]
fn timeouts_and_cooldowns_have_defaults() {
    let e = engine();
    assert_eq!((e.timeout_secs(), e.cooldown_secs()), (90, 600));
    let e = Engine::new(
        PolicyFile::default(),
        policy("timeout = \"5m\"\ndeny_cooldown = \"30s\""),
    );
    assert_eq!((e.timeout_secs(), e.cooldown_secs()), (300, 30));
    assert!(e.timeout_fits() && e.cooldown_fits());
    let e = Engine::new(PolicyFile::default(), policy("timeout = \"18446744073709551615m\""));
    assert!(!e.timeout_fits());
}

#[test]
fn strictest_hit_wins_in_any_order() {
    let mut hits = vec![
        hit("a", Level::Notify, None),
        hit("b", Level::Deny, None),
        hit("c", Level::Allow, None),
    ];
    assert_eq!(decision(hits.clone(), None).effective(), Level::Deny);
    hits.reverse();
    assert_eq!(decision(hits, None).effective(), Level::Deny);
    assert_eq!(decision(vec![], None).effective(), Level::Approve);
    assert_eq!(decision(vec![hit("a", Level::Allow, None)], Some("h")).effective(), Level::Deny);
}

#[test]
fn grants_are_offered_only_where_they_are_clear() {
    let a = || hit("a", Level::Approve, Some(5));
    let b = || hit("b", Level::Approve, Some(7));
    let offer = |hits: Vec<Hit>| decision(hits, None).ttl_offer();
    assert_eq!(offer(vec![a()]), Some(("a".to_string(), 5)));
    assert_eq!(offer(vec![hit("c", Level::Approve, None), a()]), Some(("a".to_string(), 5)));
    assert_eq!(offer(vec![a(), b()]), None);
    assert_eq!(offer(vec![a(), hit("d", Level::Deny, None)]), None);
    assert_eq!(offer(vec![]), None);
}

#[test]
fn decisions_follow_from_the_findings() {
    let e = engine();
    let findings = Findings {
        hardline: None,
        builtin: vec![false, true],
        custom: vec![],
    };
    let d = e.decide("x".to_string(), &findings, "bot", None);
    assert_eq!(d.categories(), vec!["sudo.exec".to_string()]);
    assert_eq!(d.ttl_offer(), Some(("sudo.exec".to_string(), 15)));
    let stopped = Findings {
        hardline: Some("hardline.mkfs".to_string()),
        builtin: vec![true],
        custom: vec![],
    };
    assert_eq!(e.decide("x".to_string(), &stopped, "bot", None).effective(), Level::Deny);
    let found = e.find(&read("sudo ls", None), true);
    assert_eq!(found.builtin, vec![false, true, false, false, false, false, true]);
}
