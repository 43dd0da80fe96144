//! The command line's decisions: setting up an identity, trusting workspaces, and the lines that
//! its verbs print.

use crate::config;
use crate::config::{
    rp_of, url_parts, ConfigError, ConfigErrorView, Identity, IdentityView, StoredPasskey,
    StoredPasskeyView,
};
use crate::crypto;
use crate::crypto::b64_text;
use crate::level::{level_name, Level};
use crate::manager;
use crate::policy::{effective_of, ttl_offer_of, Decision, DecisionView, Hit, HitView};
use crate::proto::{
    LocalResp, PendingInfo, PendingInfoView, StatusInfo, StatusInfoView, WorkspaceInfoView,
};
use crate::text;
use crate::text::{decimal, joined, pieces, precedes, trimmed};
use crate::webauthn::{verifier_built, verifier_for};
use ed25519_dalek::SigningKey;
use qrcode::render::unicode::Dense1x2;
use qrcode::QrCode;
use rand::rngs::OsRng;
use vstd::prelude::*;

verus! {

/// The public key of an ed25519 secret key.
pub uninterp spec fn public_of(secret: Seq<u8>) -> Seq<u8>;

/// Calls `ed25519_dalek::SigningKey::generate` with `rand::rngs::OsRng`, and reads off the secret
/// key and, by `verifying_key`, the public one, each of 32 bytes. The secret key is chance; the
/// public key depends on it alone. Where the system hands out no randomness the call does not
/// return.
#[verifier::external_body]
fn keypair() -> (r: (Vec<u8>, Vec<u8>))
    ensures
        r.0.len() == 32,
        r.1.len() == 32,
        r.1@ == public_of(r.0@),
{
    let signing = SigningKey::generate(&mut OsRng);
    (signing.to_bytes().to_vec(), signing.verifying_key().to_bytes().to_vec())
}

/// The QR code of a text, drawn in half blocks, or why there is none.
pub uninterp spec fn qr_drawing(text: Seq<char>) -> Result<Seq<char>, Seq<char>>;

/// Calls `qrcode::QrCode::new` on a text's UTF-8 bytes and renders the code with
/// `qrcode::render::unicode::Dense1x2`; an error is turned into its text. Both depend on the text
/// alone.
#[verifier::external_body]
fn draw_qr(text: &str) -> (r: Result<String, String>)
    ensures
        match r {
            Ok(drawing) => qr_drawing(text@) == Ok::<_, Seq<char>>(drawing@),
            Err(cause) => qr_drawing(text@) == Err::<Seq<char>, _>(cause@),
        },
{
    let code = QrCode::new(text.as_bytes()).map_err(|e| e.to_string())?;
    Ok(code.render::<Dense1x2>().build())
}

/// What was answered to a prompt: the line without white space around it, or the default.
pub open spec fn answered(line: Seq<char>, default: Seq<char>) -> Seq<char> {
    if trimmed(line).len() == 0 {
        default
    } else {
        trimmed(line)
    }
}

/// What was answered to a prompt.
pub fn prompt_answer(line: &str, default: &str) -> (r: String)
    ensures
        r@ == answered(line@, default@),
{
    let t: &str = text::trim(line);
    if t.unicode_len() == 0 {
        default.to_owned()
    } else {
        t.to_owned()
    }
}

/// The text of a prompt.
pub fn prompt_line(label: &str, default: &str) -> (r: String)
    ensures
        r@ == label@ + " ["@ + default@ + "]: "@,
{
    text::cat4(label, " [", default, "]: ")
}

/// The logins in a list with commas: without white space around them, and none that is empty.
pub open spec fn logins(pieces: Seq<Seq<char>>) -> Seq<Seq<char>>
    decreases pieces.len(),
{
    if pieces.len() == 0 {
        Seq::empty()
    } else {
        let before = logins(pieces.drop_last());
        let last = trimmed(pieces.last());
        if last.len() == 0 {
            before
        } else {
            before.push(last)
        }
    }
}

/// The logins in a list with commas.
pub fn parse_humans(list: &str) -> (r: Vec<String>)
    ensures
        r.deep_view() == logins(pieces(list@, ',')),
{
    let parts: Vec<String> = text::split(list, ',');
    let ghost all = pieces(list@, ',');
    let mut out: Vec<String> = Vec::new();
    let mut i: usize = 0;
    assert(out.deep_view() == logins(all.take(0)));
    while i < parts.len()
        invariant
            i <= parts.len(),
            parts.deep_view() == all,
            out.deep_view() == logins(all.take(i as int)),
        decreases parts.len() - i,
    {
        let ghost before = out.deep_view();
        assert(parts.deep_view()[i as int] == parts@[i as int]@);
        assert(all.take(i + 1).drop_last() == all.take(i as int));
        assert(all.take(i + 1).last() == all[i as int]);
        let login: &str = text::trim(parts[i].as_str());
        if login.unicode_len() > 0 {
            out.push(login.to_owned());
            assert(out.deep_view() == before.push(login@));
        }
        i = i + 1;
    }
    assert(parts.deep_view().len() == parts.len());
    assert(all.take(all.len() as int) == all);
    out
}

/// A new identity, and how its first passkey is enrolled.
#[derive(Debug, PartialEq, Eq)]
pub struct Setup {
    pub identity: Identity,
    pub enroll_url: String,
    pub qr: String,
}

/// Why there is no new identity.
#[derive(Debug, PartialEq, Eq)]
pub enum SetupError {
    Relay(ConfigError),
    Qr { cause: String },
}

/// The identity that given keys and answers make.
pub open spec fn identity_of(
    daemon_id: Seq<char>,
    secret: Seq<u8>,
    public: Seq<u8>,
    relay_url: Seq<char>,
    humans: Seq<char>,
    topic: Seq<char>,
) -> IdentityView {
    IdentityView {
        daemon_id,
        ed25519_secret_b64: b64_text(secret),
        ed25519_public_b64: b64_text(public),
        relay_url,
        humans: logins(pieces(humans, ',')),
        ntfy_topic: topic,
        passkeys: Seq::empty(),
        trusted: Seq::empty(),
    }
}

/// Where a passkey is enrolled; the fragment holds a fresh key.
pub open spec fn enroll_link(origin: Seq<char>, key: Seq<u8>) -> Seq<char> {
    origin + "/enroll#"@ + b64_text(key)
}

pub struct SetupView {
    pub identity: IdentityView,
    pub enroll_url: Seq<char>,
    pub qr: Seq<char>,
}

pub enum SetupErrorView {
    Relay(ConfigErrorView),
    Qr { cause: Seq<char> },
}

/// The view of an outcome of the setup.
pub open spec fn setup_view(r: Result<Setup, SetupError>) -> Result<SetupView, SetupErrorView> {
    match r {
        Ok(s) => Ok(
            SetupView {
                identity: s.identity.deep_view(),
                enroll_url: s.enroll_url@,
                qr: s.qr@,
            },
        ),
        Err(SetupError::Relay(e)) => Err(SetupErrorView::Relay(e.deep_view())),
        Err(SetupError::Qr { cause }) => Err(SetupErrorView::Qr { cause: cause@ }),
    }
}

impl SetupError {
    /// The text of the failure.
    pub fn message(&self) -> (r: String)
        ensures
            r@ == match *self {
                SetupError::Relay(e) => config::config_error_text(e.deep_view()),
                SetupError::Qr { cause } => cause@,
            },
    {
        match self {
            SetupError::Relay(e) => e.message(),
            SetupError::Qr { cause } => cause.clone(),
        }
    }
}

/// The answers to the prompts.
pub struct Answers {
    pub humans: String,
    pub relay_url: String,
    pub ntfy_topic: String,
}

/// What was drawn for a new identity.
pub struct Drawn {
    pub daemon_id: String,
    pub secret: Vec<u8>,
    pub public: Vec<u8>,
    pub enroll_key: Vec<u8>,
}

/// What the setup comes to.
pub open spec fn setup_of(
    answers: Answers,
    daemon_id: Seq<char>,
    secret: Seq<u8>,
    public: Seq<u8>,
    enroll_key: Seq<u8>,
) -> Result<SetupView, SetupErrorView> {
    match rp_of(url_parts(answers.relay_url@)) {
        Err(e) => Err(SetupErrorView::Relay(e)),
        Ok((_, origin)) => match qr_drawing(enroll_link(origin, enroll_key)) {
            Err(cause) => Err(SetupErrorView::Qr { cause }),
            Ok(qr) => Ok(
                SetupView {
                    identity: identity_of(
                        daemon_id,
                        secret,
                        public,
                        answers.relay_url@,
                        answers.humans@,
                        answers.ntfy_topic@,
                    ),
                    enroll_url: enroll_link(origin, enroll_key),
                    qr,
                },
            ),
        },
    }
}

/// Makes an identity from the answers to the prompts and what was drawn for it.
pub fn init_with(answers: &Answers, drawn: &Drawn) -> (r: Result<Setup, SetupError>)
    requires
        drawn.secret.len() == 32,
        drawn.public.len() == 32,
        drawn.enroll_key.len() == 32,
    ensures
        setup_view(r) == setup_of(
            *answers,
            drawn.daemon_id@,
            drawn.secret@,
            drawn.public@,
            drawn.enroll_key@,
        ),
        r matches Ok(s) ==> {
            &&& rp_of(url_parts(answers.relay_url@)) matches Ok((_, origin)) && s.enroll_url@
                == origin + "/enroll#"@ + b64_text(drawn.enroll_key@)
            &&& qr_drawing(s.enroll_url@) == Ok::<_, Seq<char>>(s.qr@)
            &&& s.identity.daemon_id@ == drawn.daemon_id@
            &&& s.identity.ed25519_secret_b64@ == b64_text(drawn.secret@)
            &&& s.identity.ed25519_public_b64@ == b64_text(drawn.public@)
            &&& s.identity.relay_url@ == answers.relay_url@
            &&& s.identity.ntfy_topic@ == answers.ntfy_topic@
        },
{
    let origin: String = match config::rp_from_relay(answers.relay_url.as_str()) {
        Ok((_, origin)) => origin,
        Err(e) => {
            return Err(SetupError::Relay(e));
        },
    };
    let enroll_url: String = text::cat3(
        origin.as_str(),
        "/enroll#",
        crypto::encode(&drawn.enroll_key).as_str(),
    );
    let passkeys: Vec<StoredPasskey> = Vec::new();
    let trusted: Vec<String> = Vec::new();
    assert(passkeys.deep_view() == Seq::<StoredPasskeyView>::empty());
    assert(trusted.deep_view() == Seq::<Seq<char>>::empty());
    let identity = Identity {
        daemon_id: drawn.daemon_id.clone(),
        ed25519_secret_b64: crypto::encode(&drawn.secret),
        ed25519_public_b64: crypto::encode(&drawn.public),
        relay_url: answers.relay_url.clone(),
        humans: parse_humans(answers.humans.as_str()),
        ntfy_topic: answers.ntfy_topic.clone(),
        passkeys,
        trusted,
    };
    match draw_qr(enroll_url.as_str()) {
        Ok(qr) => Ok(Setup { identity, enroll_url, qr }),
        Err(cause) => Err(SetupError::Qr { cause }),
    }
}

/// Makes an identity from the answers to the prompts: its id, its key pair and the key for the first
/// enrollment are drawn afresh.
pub fn init(answers: &Answers) -> (r: Result<Setup, SetupError>)
    ensures
        exists|daemon_id: Seq<char>, secret: Seq<u8>, enroll_key: Seq<u8>|
            setup_view(r) == #[trigger] setup_of(
                *answers,
                daemon_id,
                secret,
                public_of(secret),
                enroll_key,
            ) && daemon_id.len() == 26 && secret.len() == 32 && enroll_key.len() == 32,
{
    let (secret, public): (Vec<u8>, Vec<u8>) = keypair();
    let drawn = Drawn {
        daemon_id: manager::fresh_id(),
        secret,
        public,
        enroll_key: crypto::random_bytes(32),
    };
    init_with(answers, &drawn)
}

/// Nothing in the list comes before what stands ahead of it.
pub open spec fn in_order(list: Seq<Seq<char>>) -> bool {
    forall|i: int, j: int|
        0 <= i < j < list.len() ==> !precedes(#[trigger] list[j], #[trigger] list[i])
}

/// Puts `item` behind everything in an ordered list that does not come after it.
fn insert_in_order(list: &mut Vec<String>, item: String)
    requires
        in_order(old(list).deep_view()),
    ensures
        in_order(final(list).deep_view()),
        final(list).deep_view().to_multiset() == old(list).deep_view().to_multiset().insert(item@),
{
    let ghost before = list.deep_view();
    let mut at: usize = 0;
    while at < list.len() && !text::before(item.as_str(), list[at].as_str())
        invariant
            at <= list.len(),
            before == list.deep_view(),
            forall|i: int| 0 <= i < at ==> !precedes(item@, #[trigger] before[i]),
        decreases list.len() - at,
    {
        assert(before[at as int] == list@[at as int]@);
        at = at + 1;
    }
    let ghost here = item@;
    proof {
        if at < before.len() {
            assert(before[at as int] == list@[at as int]@);
        }
    }
    list.insert(at, item);
    let ghost after = list.deep_view();
    proof {
        assert(after == before.insert(at as int, here));
        vstd::seq_lib::to_multiset_insert(before, at as int, here);
        assert forall|i: int, j: int| 0 <= i < j < after.len() implies !precedes(
            #[trigger] after[j],
            #[trigger] after[i],
        ) by {
            if i == at {
                // Everything behind the item comes after it.
                let q = before[at as int];
                let x = before[j - 1];
                text::order_is_strict(here, q);
                if j - 1 > at {
                    if precedes(x, here) {
                        text::order_is_transitive(x, here, q);
                        assert(!precedes(before[j - 1], before[at as int]));
                    }
                }
            } else {
                let a = if i < at { i } else { i - 1 };
                let b = if j < at { j } else { j - 1 };
                if j != at {
                    assert(!precedes(before[b], before[a]));
                }
            }
        }
    }
}

/// Sorts a list of texts.
pub fn sort_texts(list: Vec<String>) -> (r: Vec<String>)
    ensures
        in_order(r.deep_view()),
        r.deep_view().to_multiset() == list.deep_view().to_multiset(),
{
    let ghost all = list.deep_view();
    let mut out: Vec<String> = Vec::new();
    let mut i: usize = 0;
    assert(out.deep_view() == all.take(0));
    while i < list.len()
        invariant
            i <= list.len(),
            all == list.deep_view(),
            in_order(out.deep_view()),
            out.deep_view().to_multiset() == all.take(i as int).to_multiset(),
        decreases list.len() - i,
    {
        assert(all[i as int] == list@[i as int]@);
        assert(all.take(i + 1) == all.take(i as int).push(all[i as int]));
        proof {
            all.take(i as int).to_multiset_ensures();
        }
        insert_in_order(&mut out, list[i].clone());
        i = i + 1;
    }
    assert(all.take(all.len() as int) == all);
    out
}

/// Trusts a workspace: it joins the list, which is put in order, unless it is there already. The
/// result says whether anything changed.
pub fn trust(identity: &mut Identity, dir: &str) -> (r: bool)
    ensures
        r == !old(identity).deep_view().trusted.contains(dir@),
        !r ==> final(identity).deep_view() == old(identity).deep_view(),
        r ==> in_order(final(identity).deep_view().trusted),
        r ==> final(identity).deep_view().trusted.to_multiset() == old(
            identity,
        ).deep_view().trusted.to_multiset().insert(dir@),
        final(identity).deep_view() == (IdentityView {
            trusted: final(identity).deep_view().trusted,
            ..old(identity).deep_view()
        }),
{
    let ghost before = identity.deep_view();
    if config::holds(&identity.trusted, dir) {
        return false;
    }
    let mut list: Vec<String> = text::copy_all(&identity.trusted);
    list.push(dir.to_owned());
    assert(list.deep_view() == before.trusted.push(dir@));
    proof {
        before.trusted.to_multiset_ensures();
    }
    identity.trusted = sort_texts(list);
    true
}

/// Everything but `s`.
pub open spec fn other_text(s: Seq<char>) -> spec_fn(Seq<char>) -> bool {
    |x: Seq<char>| x != s
}

/// Trusts a workspace no longer.
pub fn untrust(identity: &mut Identity, dir: &str)
    ensures
        final(identity).deep_view() == (IdentityView {
            trusted: old(identity).deep_view().trusted.filter(other_text(dir@)),
            ..old(identity).deep_view()
        }),
{
    let ghost all = identity.deep_view().trusted;
    let ghost keep = other_text(dir@);
    let mut out: Vec<String> = Vec::new();
    let mut i: usize = 0;
    assert(all.take(0).filter(keep) == Seq::<Seq<char>>::empty()) by {
        reveal(Seq::filter);
    }
    assert(out.deep_view() == Seq::<Seq<char>>::empty());
    while i < identity.trusted.len()
        invariant
            i <= identity.trusted.len(),
            all == identity.trusted.deep_view(),
            keep == other_text(dir@),
            out.deep_view() == all.take(i as int).filter(keep),
        decreases identity.trusted.len() - i,
    {
        let ghost before = out.deep_view();
        assert(all[i as int] == identity.trusted@[i as int]@);
        assert(all.take(i + 1).drop_last() == all.take(i as int));
        assert(all.take(i + 1).filter(keep) == if keep(all[i as int]) {
            before.push(all[i as int])
        } else {
            before
        }) by {
            reveal(Seq::filter);
        }
        if !text::same(identity.trusted[i].as_str(), dir) {
            out.push(identity.trusted[i].clone());
            assert(out.deep_view() == before.push(all[i as int]));
        }
        i = i + 1;
    }
    assert(all.take(all.len() as int) == all);
    identity.trusted = out;
}

/// The refusal to trust a workspace whose policy file cannot be read.
pub fn trust_refusal(error: &str) -> (r: String)
    ensures
        r@ == "refusing to trust malformed policy: "@ + error@,
{
    text::cat2("refusing to trust malformed policy: ", error)
}

/// The line on a trusted workspace.
pub open spec fn workspace_line(w: WorkspaceInfoView) -> Seq<char> {
    if w.ok {
        "workspace: "@ + w.dir + " ok"@
    } else {
        "workspace: "@ + w.dir + " dropped: "@ + match w.error {
            Some(e) => e,
            None => "unknown error"@,
        }
    }
}

/// The lines on the daemon's health.
pub open spec fn status_text(info: StatusInfoView) -> Seq<Seq<char>> {
    seq![
        "relay: "@ + info.relay_url + if info.relay_connected {
            " (connected)"@
        } else {
            " (disconnected)"@
        },
        "humans: "@ + joined(info.humans, ", "@),
        "passkeys: "@ + decimal(info.passkeys as nat),
        "pending: "@ + decimal(info.pending as nat),
    ] + info.workspaces.map_values(|w: WorkspaceInfoView| workspace_line(w))
}

/// Appends a line.
fn line(out: &mut Vec<String>, s: String)
    ensures
        final(out).deep_view() == old(out).deep_view().push(s@),
{
    let ghost before = out.deep_view();
    out.push(s);
    assert(out.deep_view() == before.push(s@));
}

/// The lines on the daemon's health.
pub fn status_lines(info: &StatusInfo) -> (r: Vec<String>)
    ensures
        r.deep_view() == status_text(info.deep_view()),
{
    let ghost v = info.deep_view();
    let mut out: Vec<String> = Vec::new();
    assert(out.deep_view() == Seq::<Seq<char>>::empty());
    line(
        &mut out,
        text::cat3(
            "relay: ",
            info.relay_url.as_str(),
            if info.relay_connected {
                " (connected)"
            } else {
                " (disconnected)"
            },
        ),
    );
    line(&mut out, text::cat2("humans: ", text::join(&info.humans, ", ").as_str()));
    line(
        &mut out,
        text::cat2("passkeys: ", text::decimal_text(info.passkeys as u64).as_str()),
    );
    line(&mut out, text::cat2("pending: ", text::decimal_text(info.pending as u64).as_str()));
    let ghost head = out.deep_view();
    let ghost show = |w: WorkspaceInfoView| workspace_line(w);
    assert(head == status_text(v).take(4));
    let mut i: usize = 0;
    assert(out.deep_view() == head + v.workspaces.take(0).map_values(show));
    while i < info.workspaces.len()
        invariant
            i <= info.workspaces.len(),
            v == info.deep_view(),
            show == (|w: WorkspaceInfoView| workspace_line(w)),
            out.deep_view() == head + v.workspaces.take(i as int).map_values(show),
        decreases info.workspaces.len() - i,
    {
        let ghost before = out.deep_view();
        let ghost w = v.workspaces[i as int];
        assert(w == info.workspaces@[i as int].deep_view());
        let shown: String = if info.workspaces[i].ok {
            text::cat3("workspace: ", info.workspaces[i].dir.as_str(), " ok")
        } else {
            let why: &str = match &info.workspaces[i].error {
                Some(e) => e.as_str(),
                None => "unknown error",
            };
            text::cat4("workspace: ", info.workspaces[i].dir.as_str(), " dropped: ", why)
        };
        assert(shown@ == workspace_line(w));
        line(&mut out, shown);
        assert(v.workspaces.take(i + 1).map_values(show) == v.workspaces.take(
            i as int,
        ).map_values(show).push(workspace_line(w)));
        i = i + 1;
    }
    assert(v.workspaces.take(v.workspaces.len() as int) == v.workspaces);
    assert(out.deep_view() == status_text(v));
    out
}

/// The line on a pending envelope.
pub open spec fn pending_line(e: PendingInfoView) -> Seq<char> {
    e.id + " ["@ + e.state + "] "@ + decimal(e.age_secs as nat) + "s "@ + e.agent_user + " "@
        + e.command
}

/// The lines on the pending envelopes.
pub fn pending_lines(envelopes: &Vec<PendingInfo>) -> (r: Vec<String>)
    ensures
        r.deep_view() == envelopes.deep_view().map_values(|e: PendingInfoView| pending_line(e)),
{
    let ghost v = envelopes.deep_view();
    let mut out: Vec<String> = Vec::new();
    let mut i: usize = 0;
    while i < envelopes.len()
        invariant
            i <= envelopes.len(),
            v == envelopes.deep_view(),
            out.len() == i,
            forall|j: int| 0 <= j < i ==> (#[trigger] out@[j])@ == pending_line(v[j]),
        decreases envelopes.len() - i,
    {
        let e: &PendingInfo = &envelopes[i];
        assert(v[i as int] == e.deep_view());
        let head: String = text::cat4(e.id.as_str(), " [", e.state.as_str(), "] ");
        let shown: String = head.concat(text::decimal_text(e.age_secs).as_str()).concat(
            "s ",
        ).concat(e.agent_user.as_str()).concat(" ").concat(e.command.as_str());
        out.push(shown);
        i = i + 1;
    }
    assert(out.deep_view() == v.map_values(|e: PendingInfoView| pending_line(e)));
    out
}

/// The command of the first listed envelope with an id.
pub open spec fn command_listed(envelopes: Seq<PendingInfoView>, id: Seq<char>) -> Option<Seq<char>>
    decreases envelopes.len(),
{
    if envelopes.len() == 0 {
        None
    } else if envelopes[0].id == id {
        Some(envelopes[0].command)
    } else {
        command_listed(envelopes.drop_first(), id)
    }
}

/// What a human is shown before an approval at the terminal: as whom they approve, and the exact
/// command.
pub open spec fn approval_text(user: Seq<char>, command: Seq<char>) -> Seq<Seq<char>> {
    seq![
        "You are approving as declared human '"@ + user + "' (kernel-verified login)."@,
        "  "@ + command,
    ]
}

/// What a human is shown before they approve a listed envelope at the terminal. One that is not
/// listed cannot be shown.
pub fn approval_lines(user: &str, envelopes: &Vec<PendingInfo>, id: &str) -> (r: Option<
    Vec<String>,
>)
    ensures
        r.deep_view() == match command_listed(envelopes.deep_view(), id@) {
            Some(command) => Some(approval_text(user@, command)),
            None => None,
        },
{
    let ghost all = envelopes.deep_view();
    let mut i: usize = 0;
    assert(all.skip(0) == all);
    while i < envelopes.len()
        invariant
            i <= envelopes.len(),
            all == envelopes.deep_view(),
            command_listed(all.skip(i as int), id@) == command_listed(all, id@),
        decreases envelopes.len() - i,
    {
        let e: &PendingInfo = &envelopes[i];
        assert(all[i as int] == e.deep_view());
        assert(all.skip(i as int)[0] == all[i as int]);
        assert(all.skip(i as int).drop_first() == all.skip(i + 1));
        if text::same(e.id.as_str(), id) {
            let mut out: Vec<String> = Vec::new();
            out.push(
                text::cat3(
                    "You are approving as declared human '",
                    user,
                    "' (kernel-verified login).",
                ),
            );
            out.push(text::cat2("  ", e.command.as_str()));
            assert(out.deep_view() == approval_text(user@, e.command@));
            return Some(out);
        }
        i = i + 1;
    }
    assert(all.len() == envelopes.len());
    None
}

/// Whether an answer confirms an approval. Anything but a yes does not.
pub fn confirmed(answer: &str) -> (r: bool)
    ensures
        r == (trimmed(answer@) == "y"@ || trimmed(answer@) == "Y"@),
{
    let t: &str = text::trim(answer);
    text::same(t, "y") || text::same(t, "Y")
}

/// The line on a matched category.
pub open spec fn hit_line(h: HitView) -> Seq<char> {
    "match: "@ + h.category + " "@ + level_name(h.level) + " "@ + h.source
}

/// The line on who has to approve.
pub open spec fn approver_line(d: DecisionView) -> Seq<char> {
    match ttl_offer_of(d) {
        Some((category, mins)) => "approver: passkey required; ttl offered "@ + category + " "@
            + decimal(mins as nat) + "m"@,
        None => if effective_of(d) == Level::Approve {
            "approver: passkey required; approve-once only"@
        } else {
            "approver: none"@
        },
    }
}

/// The lines on a dry run of the classifier.
pub open spec fn classify_text(d: DecisionView) -> Seq<Seq<char>> {
    let head = seq!["normalized: "@ + d.normalized];
    let hardline = match d.hardline {
        Some(id) => head.push("match: "@ + id + " deny builtin-hardline"@),
        None => head,
    };
    (hardline + d.hits.map_values(|h: HitView| hit_line(h))).push(
        "effective: "@ + level_name(effective_of(d)),
    ).push(approver_line(d))
}

/// The lines on a dry run of the classifier.
pub fn classify_lines(d: &Decision) -> (r: Vec<String>)
    ensures
        r.deep_view() == classify_text(d.deep_view()),
{
    let ghost v = d.deep_view();
    let mut out: Vec<String> = Vec::new();
    assert(out.deep_view() == Seq::<Seq<char>>::empty());
    line(&mut out, text::cat2("normalized: ", d.normalized.as_str()));
    assert(out.deep_view() == seq!["normalized: "@ + v.normalized]);
    if let Some(id) = &d.hardline {
        line(&mut out, text::cat3("match: ", id.as_str(), " deny builtin-hardline"));
    }
    let ghost head = out.deep_view();
    let ghost show = |h: HitView| hit_line(h);
    let mut i: usize = 0;
    assert(out.deep_view() == head + v.hits.take(0).map_values(show));
    while i < d.hits.len()
        invariant
            i <= d.hits.len(),
            v == d.deep_view(),
            show == (|h: HitView| hit_line(h)),
            out.deep_view() == head + v.hits.take(i as int).map_values(show),
        decreases d.hits.len() - i,
    {
        let ghost h = v.hits[i as int];
        let hit: &Hit = &d.hits[i];
        assert(h == hit.deep_view());
        let shown: String = text::cat4(
            "match: ",
            hit.category.as_str(),
            " ",
            hit.level.as_str(),
        ).concat(" ").concat(hit.source.as_str());
        line(&mut out, shown);
        assert(v.hits.take(i + 1).map_values(show) == v.hits.take(i as int).map_values(show).push(
            hit_line(h),
        ));
        i = i + 1;
    }
    assert(v.hits.take(v.hits.len() as int) == v.hits);
    let effective: Level = d.effective();
    line(&mut out, text::cat2("effective: ", effective.as_str()));
    let approver: String = match d.ttl_offer() {
        Some((category, mins)) => text::cat4(
            "approver: passkey required; ttl offered ",
            category.as_str(),
            " ",
            text::decimal_text(mins).as_str(),
        ).concat("m"),
        None => if effective == Level::Approve {
            "approver: passkey required; approve-once only".to_owned()
        } else {
            "approver: none".to_owned()
        },
    };
    line(&mut out, approver);
    assert(out.deep_view() == classify_text(v));
    out
}

/// What is made of the daemon's answer to a brokered run.
#[derive(Debug, PartialEq, Eq)]
pub enum RunNext {
    /// The command may run; the message is for the user.
    Exec { message: String },
    Refused { message: String },
    /// The daemon answered something else.
    Unexpected,
}

/// What is made of the daemon's answer to a brokered run. Only the verdict `allow` runs the command.
pub fn brokered_run(resp: &LocalResp) -> (r: RunNext)
    ensures
        match *resp {
            LocalResp::Verdict { verdict, message } => if verdict@ == "allow"@ {
                r matches RunNext::Exec { message: m } && m@ == message@
            } else {
                r matches RunNext::Refused { message: m } && m@ == message@
            },
            LocalResp::Failed { message } => r matches RunNext::Refused { message: m } && m@
                == message@,
            _ => r == RunNext::Unexpected,
        },
{
    match resp {
        LocalResp::Verdict { verdict, message } => if text::same(verdict.as_str(), "allow") {
            RunNext::Exec { message: message.clone() }
        } else {
            RunNext::Refused { message: message.clone() }
        },
        LocalResp::Failed { message } => RunNext::Refused { message: message.clone() },
        _ => RunNext::Unexpected,
    }
}

/// The message of an answer, where it is one.
pub fn simple_message(resp: &LocalResp) -> (r: Option<String>)
    ensures
        r.deep_view() == match *resp {
            LocalResp::Done { message } => Some(message@),
            LocalResp::Failed { message } => Some(message@),
            LocalResp::Verdict { message, .. } => Some(message@),
            _ => None,
        },
{
    match resp {
        LocalResp::Done { message } => Some(message.clone()),
        LocalResp::Failed { message } => Some(message.clone()),
        LocalResp::Verdict { message, .. } => Some(message.clone()),
        _ => None,
    }
}

/// What is trusted no longer is not in the list, and everything else still is.
pub proof fn untrusted_is_gone(trusted: Seq<Seq<char>>, dir: Seq<char>, other: Seq<char>)
    ensures
        !trusted.filter(other_text(dir)).contains(dir),
        other != dir ==> (trusted.filter(other_text(dir)).contains(other) <==> trusted.contains(
            other,
        )),
{
    broadcast use vstd::seq_lib::group_filter_ensures;

    let keep = other_text(dir);
    if trusted.filter(keep).contains(dir) {
        let i = choose|i: int| 0 <= i < trusted.filter(keep).len() && trusted.filter(keep)[i] == dir;
        assert(keep(trusted.filter(keep)[i]));
    }
    if trusted.filter(keep).contains(other) {
        trusted.lemma_filter_contains_rev(keep, other);
    }
    if other != dir && trusted.contains(other) {
        let i = choose|i: int| 0 <= i < trusted.len() && trusted[i] == other;
        assert(keep(trusted[i]));
    }
}

/// One address drives everything: the host of the relay's address is the relying party's id, and
/// the page for enrollment and the verifier stand on the origin that the address gives.
pub proof fn one_address_gives_all(
    answers: Answers,
    host: Seq<char>,
    origin: Seq<char>,
    daemon_id: Seq<char>,
    secret: Seq<u8>,
    public: Seq<u8>,
    enroll_key: Seq<u8>,
)
    requires
        rp_of(url_parts(answers.relay_url@)) == Ok::<_, ConfigErrorView>((host, origin)),
    ensures
        url_parts(answers.relay_url@)->Ok_0.host == Some(host),
        setup_of(answers, daemon_id, secret, public, enroll_key) matches Ok(s) ==> s.enroll_url
            == enroll_link(origin, enroll_key) && s.identity.relay_url == answers.relay_url@,
        verifier_for(answers.relay_url@, None) matches Ok(Ok(v)) ==> v == verifier_built(
            host,
            origin,
            origin,
            "judo"@,
            true,
        ),
{
}

} // verus!
