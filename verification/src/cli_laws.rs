//! What the command line shows and what it sets up, said of each line and each field; and what a record
//! of an event holds.

use crate::audit::{audit_record, field_map, AuditValue, AuditValueView, Fields};
use crate::cli::{
    answered, approval_text, classify_text, command_listed, in_order, logins, pending_line,
    setup_of, status_text, Answers,
};
use crate::config::{rp_of, url_parts};
use crate::crypto::b64_text;
use crate::level::Level;
use crate::policy::{effective_of, ttl_offer_of, DecisionView, HitView};
use crate::proto::{PendingInfoView, StatusInfoView, WorkspaceInfoView};
use crate::table::StrMap;
use crate::text::{decimal, is_space, joined, pieces, precedes, trimmed};
use crate::text_laws::{none_holds, parts_are_found_again};
use vstd::prelude::*;

verus! {

/// An empty answer takes the default, and any other counts as it was typed, without the white space
/// around it.
pub proof fn answers_count(line: Seq<char>, default: Seq<char>)
    ensures
        answered(Seq::empty(), default) == default,
        line.len() > 0 && !is_space(line[0]) && !is_space(line.last()) ==> answered(line, default)
            == line,
{
    if line.len() > 0 && !is_space(line[0]) && !is_space(line.last()) {
        crate::text_laws::trimming_takes_only_blanks(line);
    }
}

/// The logins between the commas are declared, each of them and in their order, and nothing else is.
pub proof fn listed_humans_are_declared(parts: Seq<Seq<char>>)
    requires
        parts.len() > 0,
        none_holds(parts, ','),
        forall|i: int|
            0 <= i < parts.len() ==> (#[trigger] parts[i]).len() > 0 && !is_space(parts[i][0])
                && !is_space(parts[i].last()),
    ensures
        logins(pieces(joined(parts, seq![',']), ',')) == parts,
{
    parts_are_found_again(parts, ',');
    lemma_logins_kept(parts);
}

proof fn lemma_logins_kept(parts: Seq<Seq<char>>)
    requires
        forall|i: int|
            0 <= i < parts.len() ==> (#[trigger] parts[i]).len() > 0 && !is_space(parts[i][0])
                && !is_space(parts[i].last()),
    ensures
        logins(parts) == parts,
    decreases parts.len(),
{
    if parts.len() > 0 {
        let rest = parts.drop_last();
        assert forall|i: int| 0 <= i < rest.len() implies (#[trigger] rest[i]).len() > 0
            && !is_space(rest[i][0]) && !is_space(rest[i].last()) by {
            assert(rest[i] == parts[i]);
        }
        lemma_logins_kept(rest);
        let last = parts[parts.len() - 1];
        assert(last == parts.last());
        crate::text_laws::trimming_takes_only_blanks(last);
        assert(rest.push(parts.last()) =~= parts);
    } else {
        assert(logins(parts) =~= parts);
    }
}

/// White space around a login in the list makes no difference, and an empty place in it declares
/// nobody.
pub proof fn every_login_is_trimmed(parts: Seq<Seq<char>>, login: Seq<char>)
    ensures
        logins(parts).contains(login) <==> login.len() > 0 && exists|i: int|
            0 <= i < parts.len() && trimmed(#[trigger] parts[i]) == login,
    decreases parts.len(),
{
    if parts.len() > 0 {
        let rest = parts.drop_last();
        let before = logins(rest);
        let last = trimmed(parts.last());
        every_login_is_trimmed(rest, login);
        assert(parts[parts.len() - 1] == parts.last());
        if before.contains(login) {
            let k = choose|k: int| 0 <= k < before.len() && before[k] == login;
            assert(logins(parts)[k] == login);
            let i = choose|i: int| 0 <= i < rest.len() && trimmed(#[trigger] rest[i]) == login;
            assert(parts[i] == rest[i]);
        }
        if last == login && last.len() > 0 {
            assert(logins(parts)[before.len() as int] == login);
        }
        if login.len() > 0 && exists|i: int|
            0 <= i < parts.len() && trimmed(#[trigger] parts[i]) == login {
            let i = choose|i: int| 0 <= i < parts.len() && trimmed(#[trigger] parts[i]) == login;
            if i < rest.len() {
                assert(rest[i] == parts[i]);
            }
        }
        if logins(parts).contains(login) {
            let k = choose|k: int| 0 <= k < logins(parts).len() && logins(parts)[k] == login;
            if k < before.len() {
                assert(before[k] == login);
            }
        }
    }
}

/// A new identity holds what was answered and what was drawn, and neither a passkey nor a trusted
/// workspace; its first passkey is enrolled on the relay's page, with a key that only the link holds.
pub proof fn setups_hold_what_was_answered(
    answers: Answers,
    daemon_id: Seq<char>,
    secret: Seq<u8>,
    public: Seq<u8>,
    enroll_key: Seq<u8>,
)
    ensures
        setup_of(answers, daemon_id, secret, public, enroll_key) matches Ok(s) ==> {
            &&& s.identity.daemon_id == daemon_id
            &&& s.identity.ed25519_secret_b64 == b64_text(secret)
            &&& s.identity.ed25519_public_b64 == b64_text(public)
            &&& s.identity.relay_url == answers.relay_url@
            &&& s.identity.ntfy_topic == answers.ntfy_topic@
            &&& s.identity.humans == logins(pieces(answers.humans@, ','))
            &&& s.identity.passkeys.len() == 0
            &&& s.identity.trusted.len() == 0
            &&& rp_of(url_parts(answers.relay_url@)) matches Ok((host, origin)) && s.enroll_url
                == origin + "/enroll#"@ + b64_text(enroll_key)
            &&& crate::cli::qr_drawing(s.enroll_url) == Ok::<_, Seq<char>>(s.qr)
        },
        rp_of(url_parts(answers.relay_url@)) is Err ==> setup_of(
            answers,
            daemon_id,
            secret,
            public,
            enroll_key,
        ) is Err,
{
}

/// The lines on the daemon's health say each thing that was found.
pub proof fn the_status_is_shown(info: StatusInfoView)
    ensures
        ({
            let lines = status_text(info);
            &&& lines.len() == 4 + info.workspaces.len()
            &&& info.relay_connected ==> lines[0] == "relay: "@ + info.relay_url + " (connected)"@
            &&& !info.relay_connected ==> lines[0] == "relay: "@ + info.relay_url
                + " (disconnected)"@
            &&& lines[1] == "humans: "@ + joined(info.humans, ", "@)
            &&& lines[2] == "passkeys: "@ + decimal(info.passkeys as nat)
            &&& lines[3] == "pending: "@ + decimal(info.pending as nat)
            &&& forall|i: int|
                0 <= i < info.workspaces.len() ==> is_shown(
                    #[trigger] info.workspaces[i],
                    lines[4 + i],
                )
        }),
{
}

/// A workspace is shown by its directory, and by what is wrong with its policy file if anything is.
pub open spec fn is_shown(w: WorkspaceInfoView, line: Seq<char>) -> bool {
    &&& w.ok ==> line == "workspace: "@ + w.dir + " ok"@
    &&& !w.ok ==> (w.error matches Some(e) ==> line == "workspace: "@ + w.dir + " dropped: "@ + e)
    &&& !w.ok && w.error is None ==> line == "workspace: "@ + w.dir + " dropped: "@
        + "unknown error"@
}

/// The line on an envelope says which it is, how it stands, for how long, whose it is and for what.
pub proof fn envelopes_are_shown(e: PendingInfoView)
    ensures
        pending_line(e) == e.id + " ["@ + e.state + "] "@ + decimal(e.age_secs as nat) + "s "@
            + e.agent_user + " "@ + e.command,
{
}

/// Before an approval at the terminal, the human is shown the command of the envelope that the id
/// names, and as whom they approve.
pub proof fn the_right_command_is_shown(
    envelopes: Seq<PendingInfoView>,
    id: Seq<char>,
    i: int,
    user: Seq<char>,
    command: Seq<char>,
)
    ensures
        0 <= i < envelopes.len() && envelopes[i].id == id && (forall|j: int|
            0 <= j < i ==> (#[trigger] envelopes[j]).id != id) ==> command_listed(envelopes, id)
            == Some(envelopes[i].command),
        (forall|j: int| 0 <= j < envelopes.len() ==> (#[trigger] envelopes[j]).id != id)
            ==> command_listed(envelopes, id) is None,
        approval_text(user, command).len() == 2,
        approval_text(user, command)[0] == "You are approving as declared human '"@ + user
            + "' (kernel-verified login)."@,
        approval_text(user, command)[1] == "  "@ + command,
{
    lemma_command_listed(envelopes, id, i);
}

proof fn lemma_command_listed(envelopes: Seq<PendingInfoView>, id: Seq<char>, i: int)
    ensures
        0 <= i < envelopes.len() && envelopes[i].id == id && (forall|j: int|
            0 <= j < i ==> (#[trigger] envelopes[j]).id != id) ==> command_listed(envelopes, id)
            == Some(envelopes[i].command),
        (forall|j: int| 0 <= j < envelopes.len() ==> (#[trigger] envelopes[j]).id != id)
            ==> command_listed(envelopes, id) is None,
    decreases envelopes.len(),
{
    if envelopes.len() > 0 {
        let rest = envelopes.drop_first();
        lemma_command_listed(rest, id, i - 1);
        assert(forall|j: int| 0 <= j < rest.len() ==> #[trigger] rest[j] == envelopes[j + 1]);
        if i > 0 && i < envelopes.len() {
            assert(rest[i - 1] == envelopes[i]);
        }
    }
}

/// A level's word, as it is shown.
pub open spec fn shows_level(word: Seq<char>, l: Level) -> bool {
    match l {
        Level::Allow => word == "allow"@,
        Level::Notify => word == "notify"@,
        Level::Approve => word == "approve"@,
        Level::Deny => word == "deny"@,
    }
}

/// A match is shown by its category, its level and where the level was written.
pub open spec fn shows_hit(line: Seq<char>, h: HitView) -> bool {
    exists|word: Seq<char>|
        shows_level(word, h.level) && line == #[trigger] ("match: "@ + h.category + " "@ + word
            + " "@ + h.source)
}

/// A dry run shows what was matched against, each match in turn, what it comes to, and who has to
/// approve.
pub proof fn dry_runs_are_shown(d: DecisionView)
    ensures
        ({
            let lines = classify_text(d);
            let n: int = if d.hardline is Some {
                2
            } else {
                1
            };
            &&& lines.len() == n + d.hits.len() + 2
            &&& lines[0] == "normalized: "@ + d.normalized
            &&& d.hardline matches Some(id) ==> lines[1] == "match: "@ + id
                + " deny builtin-hardline"@
            &&& forall|i: int|
                0 <= i < d.hits.len() ==> shows_hit(lines[n + i], #[trigger] d.hits[i])
            &&& exists|word: Seq<char>|
                shows_level(word, effective_of(d)) && lines[n + d.hits.len()] == #[trigger] (
                "effective: "@ + word)
            &&& ttl_offer_of(d) matches Some((category, mins)) ==> lines.last()
                == "approver: passkey required; ttl offered "@ + category + " "@ + decimal(
                mins as nat,
            ) + "m"@
            &&& ttl_offer_of(d) is None && effective_of(d) == Level::Approve ==> lines.last()
                == "approver: passkey required; approve-once only"@
            &&& effective_of(d) != Level::Approve ==> lines.last() == "approver: none"@
        }),
{
    let lines = classify_text(d);
    let n: int = if d.hardline is Some {
        2
    } else {
        1
    };
    assert forall|i: int| 0 <= i < d.hits.len() implies shows_hit(
        lines[n + i],
        #[trigger] d.hits[i],
    ) by {
        let h = d.hits[i];
        let word = crate::level::level_name(h.level);
        assert(lines[n + i] == crate::cli::hit_line(h));
        assert(lines[n + i] == "match: "@ + h.category + " "@ + word + " "@ + h.source);
    }
    let word = crate::level::level_name(effective_of(d));
    assert(shows_level(word, effective_of(d)));
    assert(lines[n + d.hits.len()] == "effective: "@ + word);
}

/// A list in order ascends, by the first character in which its items differ.
pub proof fn ordered_lists_ascend(list: Seq<Seq<char>>, i: int, j: int)
    requires
        in_order(list),
        0 <= i < j < list.len(),
    ensures
        list[i] == list[j] || precedes(list[i], list[j]),
{
    crate::text::order_is_total(list[i], list[j]);
}

/// A record holds all that is known of its event, each under its own name, beside the time and the
/// event's name, and nothing else.
pub proof fn records_hold_their_fields(
    unix: u64,
    event: Seq<char>,
    fields: StrMap<AuditValue>,
    name: Seq<char>,
)
    ensures
        ({
            let r = audit_record(unix, event, Fields::Object(fields));
            &&& field_map(fields).contains_key(name) ==> r.contains_key(name) && r[name]
                == field_map(fields)[name]
            &&& !field_map(fields).contains_key("unix"@) ==> r["unix"@] == AuditValueView::Number(
                unix,
            )
            &&& !field_map(fields).contains_key("event"@) ==> r["event"@] == AuditValueView::Text(
                event,
            )
            &&& r.contains_key(name) <==> field_map(fields).contains_key(name) || name == "unix"@
                || name == "event"@
        }),
{
    reveal_strlit("unix");
    reveal_strlit("event");
    assert("unix"@.len() == 4 && "event"@.len() == 5);
}

/// A lone value stands under one name beside the time and the event's name.
pub proof fn lone_values_are_kept(unix: u64, event: Seq<char>, value: AuditValue)
    ensures
        ({
            let r = audit_record(unix, event, Fields::Other(value));
            &&& r["unix"@] == AuditValueView::Number(unix)
            &&& r["event"@] == AuditValueView::Text(event)
            &&& r["fields"@] == value.deep_view()
            &&& r.dom() == set!["unix"@, "event"@, "fields"@]
        }),
{
    reveal_strlit("unix");
    reveal_strlit("event");
    reveal_strlit("fields");
    assert("unix"@.len() == 4 && "event"@.len() == 5 && "fields"@.len() == 6);
    assert(audit_record(unix, event, Fields::Other(value)).dom() =~= set![
        "unix"@,
        "event"@,
        "fields"@,
    ]);
}

} // verus!
