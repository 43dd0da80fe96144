//! The daemon's decisions: who is asked, what a request comes to, and what the verbs on the local
//! socket do. Each step takes what was read from outside and says what is to be done.

use crate::audit;
use crate::audit::{field_map, AuditValue, AuditValueView};
use crate::config;
use crate::config::{workspace_in, Identity, IdentityView};
use crate::crypto;
use crate::crypto::command_digest;
use crate::daemon_laws::{
    awaits_decision, is_announced, is_approved, is_declared_human, is_denied,
    local_approvals_let_through, local_denials_refuse,
};
use crate::effects;
use crate::effects::{deliveries, text_field, text_fields, Effect, EffectView};
use crate::engine::{classified, ttls_countable, Asker, Engine};
use crate::host;
use crate::host::{command_line, home_of, login_of, targets_policy};
use crate::keys::{CoalesceKey, CoalesceKeyView};
use crate::level::{level_name, Level};
use crate::manager;
use crate::manager::{
    allowed, cancelled, cancels, manager_error_text, pending_list, refused, resolved, timed_out,
    Manager, ManagerView, ResolveOutcome, StartResult, StartResultView,
};
use crate::policy::{
    categories_of, effective_of, empty_policy, ttl_offer_of, Decision, DecisionView, PolicyFile,
    PolicyView,
};
use crate::proto::{
    DaemonMsg, DaemonMsgView, EnvelopeBody, EnvelopeBodyView, LocalReq, LocalResp, LocalRespView,
    StatusInfo, StatusInfoView, WorkspaceInfo, WorkspaceInfoView,
};
use crate::table::StrMap;
use crate::text;
use crate::text::decimal;
use vstd::prelude::*;

verus! {

/// Who asks, and whose policy governs the request.
#[derive(Debug, PartialEq, Eq)]
pub struct Requester {
    pub agent_user: String,
    /// The trusted workspace of the request, or the directory it comes from.
    pub workspace: String,
    /// The trusted workspace whose policy file counts. An untrusted one's has no effect.
    pub policy_dir: Option<String>,
    /// The home directory of the user that asks, as far as it is known.
    pub home: Option<String>,
}

pub struct RequesterView {
    pub agent_user: Seq<char>,
    pub workspace: Seq<char>,
    pub policy_dir: Option<Seq<char>>,
    pub home: Option<Seq<char>>,
}

impl DeepView for Requester {
    type V = RequesterView;

    open spec fn deep_view(&self) -> RequesterView {
        RequesterView {
            agent_user: self.agent_user@,
            workspace: self.workspace@,
            policy_dir: self.policy_dir.deep_view(),
            home: self.home.deep_view(),
        }
    }
}

/// Whether a request enters the broker at all.
#[derive(Debug, PartialEq, Eq)]
pub enum Admission {
    /// A declared human's request is let through.
    Bypass(LocalResp),
    Admitted(Requester),
}

pub enum AdmissionView {
    Bypass(LocalRespView),
    Admitted(RequesterView),
}

impl DeepView for Admission {
    type V = AdmissionView;

    open spec fn deep_view(&self) -> AdmissionView {
        match self {
            Admission::Bypass(resp) => AdmissionView::Bypass(resp.deep_view()),
            Admission::Admitted(who) => AdmissionView::Admitted(who.deep_view()),
        }
    }
}

/// The name that a user id goes by.
pub open spec fn agent_name(passwd: Seq<char>, uid: u32) -> Seq<char> {
    match login_of(passwd, uid) {
        Some(name) => name,
        None => "uid-"@ + decimal(uid as nat),
    }
}

/// Whether a request enters the broker, and as whose.
pub open spec fn admission(
    identity: IdentityView,
    passwd: Seq<char>,
    uid: u32,
    cwd: Seq<char>,
) -> AdmissionView {
    let agent_user = agent_name(passwd, uid);
    if identity.humans.contains(agent_user) {
        AdmissionView::Bypass(allowed("declared human bypass"@))
    } else {
        let dir = workspace_in(identity.trusted, cwd);
        AdmissionView::Admitted(
            RequesterView {
                agent_user,
                workspace: match dir {
                    Some(d) => d,
                    None => cwd,
                },
                policy_dir: dir,
                home: home_of(passwd, uid),
            },
        )
    }
}

/// Whether a request enters the broker, and as whose. `passwd` is the text of the password file.
pub fn receive(identity: &Identity, passwd: &str, uid: u32, cwd: &str) -> (r: Admission)
    ensures
        r.deep_view() == admission(identity.deep_view(), passwd@, uid, cwd@),
{
    let agent_user: String = match host::username_for_uid(passwd, uid) {
        Some(name) => name,
        None => text::cat2("uid-", text::decimal_text(uid as u64).as_str()),
    };
    if identity.is_human(agent_user.as_str()) {
        return Admission::Bypass(
            manager::verdict("allow", "declared human bypass".to_owned()),
        );
    }
    let home: Option<String> = host::home_for_uid(passwd, uid);
    match config::workspace_for(identity.trusted.as_slice(), cwd) {
        Some(dir) => Admission::Admitted(
            Requester {
                agent_user,
                workspace: dir.clone(),
                policy_dir: Some(dir.clone()),
                home,
            },
        ),
        None => Admission::Admitted(
            Requester { agent_user, workspace: cwd.to_owned(), policy_dir: None, home },
        ),
    }
}

/// The layer that an optional policy file stands for.
pub open spec fn layer(p: Option<PolicyFile>) -> PolicyView {
    match p {
        Some(p) => p.deep_view(),
        None => empty_policy(),
    }
}

/// What the human is told of a layer that is dropped.
pub open spec fn dropped_alert(path: Seq<char>, error: Seq<char>) -> Seq<char> {
    "judo notify: policy layer "@ + path + " dropped: "@ + error
}

/// The policy in a file, given what came of reading it: an absent file is an empty layer, and an error
/// names the file.
pub fn policy_read(path: &str, read: Option<Result<PolicyFile, String>>) -> (r: Result<
    PolicyFile,
    String,
>)
    ensures
        match read {
            None => r matches Ok(p) && p.deep_view() == empty_policy(),
            Some(Ok(p)) => r == Ok::<PolicyFile, String>(p),
            Some(Err(e)) => r matches Err(m) && m@ == path@ + ": "@ + e@,
        },
{
    match read {
        None => Ok(PolicyFile::new()),
        Some(Ok(policy)) => Ok(policy),
        Some(Err(error)) => Err(text::cat3(path, ": ", error.as_str())),
    }
}

/// The layer that a policy file makes, given what came of reading it, and what is done about it. A
/// file that could not be read is dropped whole: that is recorded, and the human is told which.
pub fn layer_loaded(path: &str, read: Result<PolicyFile, String>) -> (r: (
    Option<PolicyFile>,
    Vec<Effect>,
))
    ensures
        match read {
            Ok(policy) => r.0 == Some(policy) && r.1.deep_view() == Seq::<EffectView>::empty(),
            Err(error) => r.0 is None && r.1.deep_view() == seq![
                EffectView::Note {
                    event: "policy.layer_dropped"@,
                    fields: text_fields("path"@, path@, "error"@, error@),
                },
                EffectView::Print(dropped_alert(path@, error@)),
            ],
        },
{
    let mut effects: Vec<Effect> = Vec::new();
    assert(effects.deep_view() == Seq::<EffectView>::empty());
    match read {
        Ok(policy) => (Some(policy), effects),
        Err(error) => {
            effects::then_do(
                &mut effects,
                Effect::Note {
                    event: "policy.layer_dropped".to_owned(),
                    fields: effects::with_texts("path", path, "error", error.as_str()),
                },
            );
            effects::then_do(
                &mut effects,
                Effect::Print(
                    text::cat4("judo notify: policy layer ", path, " dropped: ", error.as_str()),
                ),
            );
            (None, effects)
        },
    }
}

/// The engine over the layers that could be loaded, and whether the workspace's is among them. A
/// layer that could not be loaded is dropped whole.
pub fn engine_for(global: Option<PolicyFile>, workspace: Option<PolicyFile>) -> (r: (bool, Engine))
    requires
        ttls_countable(layer(global)),
        ttls_countable(layer(workspace)),
    ensures
        r.0 == workspace is Some,
        r.1.global_view() == layer(global),
        r.1.workspace_view() == layer(workspace),
{
    let loaded: bool = workspace.is_some();
    let global: PolicyFile = match global {
        Some(p) => p,
        None => PolicyFile::new(),
    };
    let workspace: PolicyFile = match workspace {
        Some(p) => p,
        None => PolicyFile::new(),
    };
    (loaded, Engine::new(global, workspace))
}

/// The directory whose policy governs decisions on an envelope: the trusted workspace of the
/// request that made it, if it is trusted still.
pub fn decision_dir(manager: &Manager, identity: &Identity, id: &str) -> (r: Option<String>)
    ensures
        r.deep_view() == if manager@.envelopes.contains_key(id@) {
            workspace_in(
                identity.deep_view().trusted,
                manager@.envelopes[id@].key.workspace,
            )
        } else {
            None
        },
{
    match manager.workspace_of(id) {
        Some(workspace) => match config::workspace_for(
            identity.trusted.as_slice(),
            workspace.as_str(),
        ) {
            Some(dir) => Some(dir.clone()),
            None => None,
        },
        None => None,
    }
}

/// A request as it came in.
#[derive(Debug, PartialEq, Eq)]
pub struct Request {
    pub uid: u32,
    pub cwd: String,
    pub runas: String,
    pub argv: Vec<String>,
    pub harness: Option<String>,
}

pub struct RequestView {
    pub uid: u32,
    pub cwd: Seq<char>,
    pub runas: Seq<char>,
    pub argv: Seq<Seq<char>>,
    pub harness: Option<Seq<char>>,
}

impl DeepView for Request {
    type V = RequestView;

    open spec fn deep_view(&self) -> RequestView {
        RequestView {
            uid: self.uid,
            cwd: self.cwd@,
            runas: self.runas@,
            argv: self.argv.deep_view(),
            harness: self.harness.deep_view(),
        }
    }
}

/// The line that tells a human what is wanted.
pub open spec fn summary_of(agent_user: Seq<char>, cwd: Seq<char>, command: Seq<char>) -> Seq<
    char,
> {
    agent_user + " in "@ + cwd + " wants `"@ + command + "`"@
}

/// The categories that a decision names.
pub open spec fn named_categories(d: DecisionView) -> Seq<Seq<char>> {
    match d.hardline {
        Some(id) => seq![id],
        None => categories_of(d),
    }
}

/// What the human is shown of a request.
pub open spec fn body_of(req: RequestView, who: RequesterView, d: DecisionView) -> EnvelopeBodyView {
    EnvelopeBodyView {
        argv: req.argv,
        cwd: req.cwd,
        runas: req.runas,
        uid: req.uid,
        agent_user: who.agent_user,
        harness: req.harness,
        workspace: who.workspace,
        summary: summary_of(who.agent_user, req.cwd, command_line(req.argv)),
        categories: named_categories(d),
        ttl_offer: ttl_offer_of(d),
    }
}

/// The record of a classified request.
pub open spec fn classified_fields(
    req: RequestView,
    who: RequesterView,
    d: DecisionView,
    policy_loaded: bool,
) -> Map<Seq<char>, AuditValueView> {
    Map::empty().insert("uid"@, AuditValueView::Number(req.uid as u64)).insert(
        "agent_user"@,
        AuditValueView::Text(who.agent_user),
    ).insert("workspace"@, AuditValueView::Text(who.workspace)).insert(
        "command"@,
        AuditValueView::Text(command_line(req.argv)),
    ).insert("effective"@, AuditValueView::Text(level_name(effective_of(d)))).insert(
        "categories"@,
        AuditValueView::Texts(named_categories(d)),
    ).insert("workspace_policy_loaded"@, AuditValueView::Flag(policy_loaded))
}

/// What comes after classification.
#[derive(Debug, PartialEq, Eq)]
pub enum Next {
    /// The request is answered.
    Answer(LocalResp),
    /// A human has to approve.
    Approve { key: CoalesceKey, body: EnvelopeBody, command: String },
}

pub enum NextView {
    Answer(LocalRespView),
    Approve { key: CoalesceKeyView, body: EnvelopeBodyView, command: Seq<char> },
}

impl DeepView for Next {
    type V = NextView;

    open spec fn deep_view(&self) -> NextView {
        match self {
            Next::Answer(resp) => NextView::Answer(resp.deep_view()),
            Next::Approve { key, body, command } => NextView::Approve {
                key: key.deep_view(),
                body: body.deep_view(),
                command: command@,
            },
        }
    }
}

/// What is to be done, and what comes after it.
pub struct Step {
    pub effects: Vec<Effect>,
    pub next: Next,
}

/// What is done about a classified request, in order.
pub open spec fn weighed_effects(
    req: RequestView,
    who: RequesterView,
    d: DecisionView,
    policy_loaded: bool,
) -> Seq<EffectView> {
    let record = EffectView::Audit {
        event: "request.classified"@,
        fields: classified_fields(req, who, d, policy_loaded),
    };
    if effective_of(d) == Level::Notify {
        seq![
            record,
            EffectView::Print(
                "judo notify: "@ + summary_of(who.agent_user, req.cwd, command_line(req.argv)),
            ),
        ]
    } else {
        seq![record]
    }
}

/// What a classified request comes to: the ladder's four rungs.
pub open spec fn weighed_next(req: RequestView, who: RequesterView, d: DecisionView) -> NextView {
    match effective_of(d) {
        Level::Allow => NextView::Answer(allowed("allowed by policy"@)),
        Level::Notify => NextView::Answer(allowed("allowed by policy; notification sent"@)),
        Level::Deny => NextView::Answer(refused("denied by policy"@)),
        Level::Approve => NextView::Approve {
            key: CoalesceKeyView {
                digest: command_digest(d.normalized),
                uid: req.uid,
                workspace: who.workspace,
            },
            body: body_of(req, who, d),
            command: command_line(req.argv),
        },
    }
}

/// A copy of an optional text.
fn copy_text(s: &Option<String>) -> (r: Option<String>)
    ensures
        r.deep_view() == s.deep_view(),
{
    match s {
        Some(t) => Some(t.clone()),
        None => None,
    }
}

/// What a request comes to, given the classifier's decision on it.
pub fn weigh_decision(
    req: &Request,
    who: &Requester,
    decision: &Decision,
    policy_loaded: bool,
) -> (r: Step)
    ensures
        r.effects.deep_view() == weighed_effects(
            req.deep_view(),
            who.deep_view(),
            decision.deep_view(),
            policy_loaded,
        ),
        r.next.deep_view() == weighed_next(
            req.deep_view(),
            who.deep_view(),
            decision.deep_view(),
        ),
        r.next matches Next::Approve { key, body, command } ==> {
            &&& body.argv.deep_view() == req.argv.deep_view()
            &&& body.cwd@ == req.cwd@
            &&& body.runas@ == req.runas@
            &&& body.uid == req.uid
            &&& body.harness.deep_view() == req.harness.deep_view()
            &&& body.agent_user@ == who.agent_user@
            &&& body.workspace@ == who.workspace@
            &&& key.uid == req.uid
            &&& key.workspace@ == who.workspace@
            &&& command@ == command_line(req.argv.deep_view())
        },
{
    let ghost d = decision.deep_view();
    let command: String = host::shell_join(&req.argv);
    let summary: String = text::cat4(
        who.agent_user.as_str(),
        " in ",
        req.cwd.as_str(),
        " wants `",
    ).concat(command.as_str()).concat("`");
    let effective: Level = decision.effective();
    let categories: Vec<String> = match &decision.hardline {
        Some(id) => {
            let mut one: Vec<String> = Vec::new();
            one.push(id.clone());
            assert(one.deep_view() == seq![id@]);
            one
        },
        None => decision.categories(),
    };
    let mut fields: StrMap<AuditValue> = StrMap::new();
    assert(field_map(fields) =~= Map::empty());
    audit::put(&mut fields, "uid", AuditValue::Number(req.uid as u64));
    audit::put(&mut fields, "agent_user", AuditValue::Text(who.agent_user.clone()));
    audit::put(&mut fields, "workspace", AuditValue::Text(who.workspace.clone()));
    audit::put(&mut fields, "command", AuditValue::Text(command.clone()));
    audit::put(&mut fields, "effective", AuditValue::Text(effective.as_str().to_owned()));
    audit::put(&mut fields, "categories", AuditValue::Texts(text::copy_all(&categories)));
    audit::put(&mut fields, "workspace_policy_loaded", AuditValue::Flag(policy_loaded));
    let mut effects: Vec<Effect> = Vec::new();
    assert(effects.deep_view() == Seq::<EffectView>::empty());
    effects::then_do(
        &mut effects,
        Effect::Audit { event: "request.classified".to_owned(), fields },
    );
    let next: Next = match effective {
        Level::Allow => Next::Answer(manager::verdict("allow", "allowed by policy".to_owned())),
        Level::Notify => {
            effects::then_do(
                &mut effects,
                Effect::Print(text::cat2("judo notify: ", summary.as_str())),
            );
            Next::Answer(
                manager::verdict("allow", "allowed by policy; notification sent".to_owned()),
            )
        },
        Level::Deny => Next::Answer(manager::verdict("deny", "denied by policy".to_owned())),
        Level::Approve => Next::Approve {
            key: CoalesceKey {
                digest: crypto::digest_command(decision.normalized.as_str()),
                uid: req.uid,
                workspace: who.workspace.clone(),
            },
            body: EnvelopeBody {
                argv: text::copy_all(&req.argv),
                cwd: req.cwd.clone(),
                runas: req.runas.clone(),
                uid: req.uid,
                agent_user: who.agent_user.clone(),
                harness: copy_text(&req.harness),
                workspace: who.workspace.clone(),
                summary,
                categories,
                ttl_offer: decision.ttl_offer(),
            },
            command,
        },
    };
    assert(effects.deep_view() == weighed_effects(
        req.deep_view(),
        who.deep_view(),
        d,
        policy_loaded,
    ));
    Step { effects, next }
}

/// The classifier's decision on a request.
pub open spec fn decision_on(
    engine: Engine,
    req: RequestView,
    who: RequesterView,
    config_dir: Option<Seq<char>>,
) -> DecisionView {
    classified(
        engine.global_view(),
        engine.workspace_view(),
        command_line(req.argv),
        Asker { agent: who.agent_user, harness: req.harness },
        targets_policy(req.argv, req.cwd, who.workspace, config_dir),
        who.home,
    )
}

/// Classifies a request, and says what it comes to. `config_dir` is the configuration directory,
/// where it is text.
pub fn weigh(
    engine: &Engine,
    req: &Request,
    who: &Requester,
    config_dir: Option<&str>,
    policy_loaded: bool,
) -> (r: Step)
    ensures
        r.effects.deep_view() == weighed_effects(
            req.deep_view(),
            who.deep_view(),
            decision_on(*engine, req.deep_view(), who.deep_view(), config_dir.deep_view()),
            policy_loaded,
        ),
        r.next.deep_view() == weighed_next(
            req.deep_view(),
            who.deep_view(),
            decision_on(*engine, req.deep_view(), who.deep_view(), config_dir.deep_view()),
        ),
        r.next.deep_view() == weighed_next(
            req.deep_view(),
            who.deep_view(),
            classified(
                engine.global_view(),
                engine.workspace_view(),
                command_line(req.argv.deep_view()),
                (Asker { agent: who.agent_user@, harness: req.harness.deep_view() }),
                targets_policy(
                    req.argv.deep_view(),
                    req.cwd@,
                    who.workspace@,
                    config_dir.deep_view(),
                ),
                who.home.deep_view(),
            ),
        ),
        r.next matches Next::Approve { key, body, command } ==> {
            &&& body.argv.deep_view() == req.argv.deep_view()
            &&& body.cwd@ == req.cwd@
            &&& body.runas@ == req.runas@
            &&& body.uid == req.uid
            &&& body.harness.deep_view() == req.harness.deep_view()
            &&& body.agent_user@ == who.agent_user@
            &&& body.workspace@ == who.workspace@
            &&& key.uid == req.uid
            &&& key.workspace@ == who.workspace@
            &&& command@ == command_line(req.argv.deep_view())
        },
{
    let command: String = host::shell_join(&req.argv);
    let policy_write: bool = host::targets_policy_file(
        &req.argv,
        req.cwd.as_str(),
        who.workspace.as_str(),
        config_dir,
    );
    let harness: Option<&str> = match &req.harness {
        Some(h) => Some(h.as_str()),
        None => None,
    };
    let home: Option<&str> = match &who.home {
        Some(dir) => Some(dir.as_str()),
        None => None,
    };
    let decision: Decision = engine.classify(
        command.as_str(),
        who.agent_user.as_str(),
        harness,
        policy_write,
        home,
    );
    weigh_decision(req, who, &decision, policy_loaded)
}

/// How a request goes on once its approval was asked for.
#[derive(Debug, PartialEq, Eq)]
pub enum Started {
    Answer(LocalResp),
    /// The requester waits for its answer, at most so long.
    Wait { id: String, timeout_secs: u64, waiter: u64 },
}

pub enum StartedView {
    Answer(LocalRespView),
    Wait { id: Seq<char>, timeout_secs: u64, waiter: u64 },
}

impl DeepView for Started {
    type V = StartedView;

    open spec fn deep_view(&self) -> StartedView {
        match self {
            Started::Answer(resp) => StartedView::Answer(resp.deep_view()),
            Started::Wait { id, timeout_secs, waiter } => StartedView::Wait {
                id: id@,
                timeout_secs: *timeout_secs,
                waiter: *waiter,
            },
        }
    }
}

/// What is done about a new envelope: it is recorded, the relay stores it, and the human is
/// notified.
pub open spec fn creation_effects(topic: Seq<char>, c: manager::CreatedEnvelopeView) -> Seq<
    EffectView,
> {
    seq![
        EffectView::Audit {
            event: "envelope.created"@,
            fields: text_field("id"@, c.id).insert(
                "expires_unix"@,
                AuditValueView::Number(c.expires_unix),
            ),
        },
        EffectView::Relay(
            DaemonMsgView::CreateEnvelope {
                id: c.id,
                ciphertext_b64: c.ciphertext_b64,
                expires_unix: c.expires_unix,
            },
        ),
        EffectView::Print("judo push ["@ + topic + "]: "@ + c.text + "\n"@ + c.link),
        EffectView::Note {
            event: "notification.sent"@,
            fields: text_fields("topic"@, topic, "link"@, c.link),
        },
    ]
}

/// What is done once an approval was asked for.
pub open spec fn start_effects(
    topic: Seq<char>,
    start: Result<StartResultView, manager::ManagerErrorView>,
) -> Seq<EffectView> {
    match start {
        Ok(StartResultView::Wait(plan)) => match plan.created {
            Some(c) => creation_effects(topic, c),
            None => Seq::empty(),
        },
        _ => Seq::empty(),
    }
}

/// How a request goes on once its approval was asked for.
pub open spec fn started_of(start: Result<StartResultView, manager::ManagerErrorView>) -> StartedView {
    match start {
        Ok(StartResultView::Immediate(resp)) => StartedView::Answer(resp),
        Ok(StartResultView::Wait(plan)) => StartedView::Wait {
            id: plan.id,
            timeout_secs: plan.timeout_secs,
            waiter: plan.waiter,
        },
        Err(e) => StartedView::Answer(LocalRespView::Failed { message: manager_error_text(e) }),
    }
}

/// What is done once an approval was asked for, and how the request goes on.
pub fn started(identity: &Identity, start: Result<StartResult, manager::ManagerError>) -> (r: (
    Vec<Effect>,
    Started,
))
    ensures
        r.0.deep_view() == start_effects(
            identity.deep_view().ntfy_topic,
            manager::start_view(start),
        ),
        r.1.deep_view() == started_of(manager::start_view(start)),
{
    let mut effects: Vec<Effect> = Vec::new();
    assert(effects.deep_view() == Seq::<EffectView>::empty());
    match start {
        Err(e) => (effects, Started::Answer(LocalResp::Failed { message: e.message() })),
        Ok(StartResult::Immediate(resp)) => (effects, Started::Answer(resp)),
        Ok(StartResult::Wait(plan)) => {
            if let Some(c) = plan.created {
                let ghost view = c.deep_view();
                let topic: &str = identity.ntfy_topic.as_str();
                let mut fields: StrMap<AuditValue> = effects::with_text("id", c.id.as_str());
                audit::put(&mut fields, "expires_unix", AuditValue::Number(c.expires_unix));
                let line: String = text::cat4(
                    "judo push [",
                    topic,
                    "]: ",
                    c.text.as_str(),
                ).concat("\n").concat(c.link.as_str());
                let told: StrMap<AuditValue> = effects::with_texts(
                    "topic",
                    topic,
                    "link",
                    c.link.as_str(),
                );
                effects::then_do(
                    &mut effects,
                    Effect::Audit { event: "envelope.created".to_owned(), fields },
                );
                effects::then_do(
                    &mut effects,
                    Effect::Relay(
                        DaemonMsg::CreateEnvelope {
                            id: c.id,
                            ciphertext_b64: c.ciphertext_b64,
                            expires_unix: c.expires_unix,
                        },
                    ),
                );
                effects::then_do(&mut effects, Effect::Print(line));
                effects::then_do(
                    &mut effects,
                    Effect::Note { event: "notification.sent".to_owned(), fields: told },
                );
                assert(effects.deep_view() == creation_effects(topic@, view));
            }
            (
                effects,
                Started::Wait {
                    id: plan.id,
                    timeout_secs: plan.timeout_secs,
                    waiter: plan.waiter,
                },
            )
        },
    }
}

/// How a requester's wait ended.
#[derive(Debug, PartialEq, Eq)]
pub enum WaitEnd {
    Answered(LocalResp),
    /// Nobody is left to answer.
    Dropped,
    /// The time was up.
    Elapsed,
    /// The requester died.
    Died,
}

/// What the requester is told when the time was up.
pub open spec fn timeout_text() -> Seq<char> {
    "approval timed out — the human was unavailable; the request remains visible in `judo pending`; you may retry later."@
}

/// What the relay is told of an envelope's outcome.
pub open spec fn verdict_msg(id: Seq<char>, verdict: Seq<char>) -> EffectView {
    EffectView::Relay(DaemonMsgView::Verdict { id, verdict })
}

/// Ends a requester's wait: what is done, and what the requester is told.
pub fn waited(manager: &mut Manager, id: &str, waiter: u64, end: WaitEnd) -> (r: (
    Vec<Effect>,
    LocalResp,
))
    ensures
        match end {
            WaitEnd::Answered(resp) => final(manager)@ == old(manager)@ && r.0.deep_view()
                == Seq::<EffectView>::empty() && r.1 == resp,
            WaitEnd::Dropped => final(manager)@ == old(manager)@ && r.0.deep_view() == Seq::<
                EffectView,
            >::empty() && r.1.deep_view() == (LocalRespView::Failed {
                message: "approval waiter was dropped"@,
            }),
            WaitEnd::Elapsed => {
                &&& final(manager)@ == timed_out(old(manager)@, id@, waiter)
                &&& r.0.deep_view() == seq![
                    EffectView::Audit {
                        event: "envelope.timed_out"@,
                        fields: text_field("id"@, id@),
                    },
                    verdict_msg(id@, "timed_out"@),
                ]
                &&& r.1.deep_view() == (LocalRespView::Verdict {
                    verdict: "timeout"@,
                    message: timeout_text(),
                })
            },
            WaitEnd::Died => {
                &&& final(manager)@ == cancelled(old(manager)@, id@, waiter)
                &&& r.0.deep_view() == if cancels(old(manager)@, id@, waiter) {
                    seq![
                        EffectView::Audit {
                            event: "envelope.cancelled"@,
                            fields: text_field("id"@, id@),
                        },
                        EffectView::Relay(DaemonMsgView::CancelEnvelope { id: id@ }),
                    ]
                } else {
                    Seq::<EffectView>::empty()
                }
                &&& r.1.deep_view() == (LocalRespView::Failed { message: "requester died"@ })
            },
        },
        end is Elapsed ==> (r.1 matches LocalResp::Verdict { verdict, message } && verdict@
            == "timeout"@ && message@
            == "approval timed out — the human was unavailable; the request remains visible in `judo pending`; you may retry later."@),
{
    let mut effects: Vec<Effect> = Vec::new();
    assert(effects.deep_view() == Seq::<EffectView>::empty());
    match end {
        WaitEnd::Died => {
            if manager.cancel(id, waiter) {
                effects::then_do(
                    &mut effects,
                    Effect::Audit {
                        event: "envelope.cancelled".to_owned(),
                        fields: effects::with_text("id", id),
                    },
                );
                effects::then_do(
                    &mut effects,
                    Effect::Relay(DaemonMsg::CancelEnvelope { id: id.to_owned() }),
                );
            }
            (effects, LocalResp::Failed { message: "requester died".to_owned() })
        },
        WaitEnd::Answered(resp) => (effects, resp),
        WaitEnd::Dropped => (
            effects,
            LocalResp::Failed { message: "approval waiter was dropped".to_owned() },
        ),
        WaitEnd::Elapsed => {
            manager.mark_timed_out(id, waiter);
            effects::then_do(
                &mut effects,
                Effect::Audit {
                    event: "envelope.timed_out".to_owned(),
                    fields: effects::with_text("id", id),
                },
            );
            effects::then_do(
                &mut effects,
                Effect::Relay(
                    DaemonMsg::Verdict { id: id.to_owned(), verdict: "timed_out".to_owned() },
                ),
            );
            (
                effects,
                manager::verdict(
                    "timeout",
                    "approval timed out — the human was unavailable; the request remains visible in `judo pending`; you may retry later.".to_owned(),
                ),
            )
        },
    }
}

/// Why a peer may not use the verbs that are for humans.
pub open spec fn peer_refusal(
    identity: IdentityView,
    passwd: Seq<char>,
    peer_uid: Option<u32>,
) -> Option<Seq<char>> {
    match peer_uid {
        None => Some("missing SO_PEERCRED uid"@),
        Some(uid) => match login_of(passwd, uid) {
            None => Some("unknown peer uid "@ + decimal(uid as nat)),
            Some(user) => if identity.humans.contains(user) {
                None
            } else {
                Some("local approval verbs require a declared human uid"@)
            },
        },
    }
}

/// The login of a peer that is a declared human, or why it is none.
pub fn require_human_peer(identity: &Identity, passwd: &str, peer_uid: Option<u32>) -> (r: Result<
    String,
    String,
>)
    ensures
        match peer_refusal(identity.deep_view(), passwd@, peer_uid) {
            Some(why) => r matches Err(e) && e@ == why,
            None => r matches Ok(user) && Some(user@) == login_of(passwd@, peer_uid->0),
        },
{
    let uid: u32 = match peer_uid {
        Some(uid) => uid,
        None => {
            return Err("missing SO_PEERCRED uid".to_owned());
        },
    };
    match host::username_for_uid(passwd, uid) {
        None => Err(text::cat2("unknown peer uid ", text::decimal_text(uid as u64).as_str())),
        Some(user) => if identity.is_human(user.as_str()) {
            Ok(user)
        } else {
            Err("local approval verbs require a declared human uid".to_owned())
        },
    }
}

/// The name of an outcome.
pub open spec fn outcome_name(outcome: ResolveOutcome) -> Seq<char> {
    match outcome {
        ResolveOutcome::Approved => "approved"@,
        ResolveOutcome::Denied => "denied"@,
    }
}

/// The event that records an outcome.
pub open spec fn outcome_event(outcome: ResolveOutcome) -> Seq<char> {
    match outcome {
        ResolveOutcome::Approved => "envelope.approved"@,
        ResolveOutcome::Denied => "envelope.denied"@,
    }
}

/// The record of a decision and where it came from.
pub open spec fn outcome_record(
    id: Seq<char>,
    outcome: ResolveOutcome,
    source: Seq<char>,
) -> EffectView {
    EffectView::Audit {
        event: outcome_event(outcome),
        fields: text_fields("id"@, id, "source"@, source),
    }
}

pub(crate) fn outcome_word(outcome: ResolveOutcome) -> (r: &'static str)
    ensures
        r@ == outcome_name(outcome),
{
    match outcome {
        ResolveOutcome::Approved => "approved",
        ResolveOutcome::Denied => "denied",
    }
}

pub(crate) fn record_outcome(id: &str, outcome: ResolveOutcome, source: &str) -> (r: Effect)
    ensures
        r.deep_view() == outcome_record(id@, outcome, source@),
{
    let event: &str = match outcome {
        ResolveOutcome::Approved => "envelope.approved",
        ResolveOutcome::Denied => "envelope.denied",
    };
    Effect::Audit {
        event: event.to_owned(),
        fields: effects::with_texts("id", id, "source", source),
    }
}

/// What a decision of a human at the local terminal does.
pub open spec fn decided_locally(
    m: ManagerView,
    id: Seq<char>,
    outcome: ResolveOutcome,
    approver: Seq<char>,
    cooldown_secs: u64,
    now: u64,
) -> (ManagerView, Seq<EffectView>, LocalRespView) {
    match resolved(m, id, outcome, approver, cooldown_secs, now) {
        Err(e) => (m, Seq::empty(), LocalRespView::Failed { message: manager_error_text(e) }),
        Ok((after, told)) => (
            after,
            deliveries(told).push(outcome_record(id, outcome, "local-cli"@)).push(
                verdict_msg(id, outcome_name(outcome)),
            ),
            LocalRespView::Done { message: outcome_name(outcome) },
        ),
    }
}

fn decide_locally(
    manager: &mut Manager,
    id: &str,
    outcome: ResolveOutcome,
    approver: &str,
    cooldown_secs: u64,
    now: u64,
) -> (r: (Vec<Effect>, LocalResp))
    ensures
        (final(manager)@, r.0.deep_view(), r.1.deep_view()) == decided_locally(
            old(manager)@,
            id@,
            outcome,
            approver@,
            cooldown_secs,
            now,
        ),
{
    match manager.resolve(id, outcome, approver, cooldown_secs, now) {
        Err(e) => {
            let none: Vec<Effect> = Vec::new();
            assert(none.deep_view() == Seq::<EffectView>::empty());
            (none, LocalResp::Failed { message: e.message() })
        },
        Ok(told) => {
            let mut effects: Vec<Effect> = effects::deliver_all(told);
            effects::then_do(&mut effects, record_outcome(id, outcome, "local-cli"));
            effects::then_do(
                &mut effects,
                Effect::Relay(
                    DaemonMsg::Verdict {
                        id: id.to_owned(),
                        verdict: outcome_word(outcome).to_owned(),
                    },
                ),
            );
            (effects, LocalResp::Done { message: outcome_word(outcome).to_owned() })
        },
    }
}

/// What was found of the daemon's surroundings: whether the relay is connected, and for each trusted
/// workspace what is wrong with its policy file.
pub struct Surroundings {
    pub relay_connected: bool,
    pub policy_errors: Vec<Option<String>>,
}

/// A trusted workspace, and what is wrong with its policy file.
pub open spec fn workspace_info(dir: Seq<char>, error: Option<Seq<char>>) -> WorkspaceInfoView {
    WorkspaceInfoView { dir, ok: error is None, error }
}

/// The daemon's health.
pub open spec fn status_of(
    identity: IdentityView,
    relay_connected: bool,
    policy_errors: Seq<Option<Seq<char>>>,
    pending: nat,
) -> StatusInfoView {
    StatusInfoView {
        relay_connected,
        relay_url: identity.relay_url,
        passkeys: identity.passkeys.len() as usize,
        humans: identity.humans,
        workspaces: Seq::new(
            identity.trusted.len(),
            |i: int| workspace_info(identity.trusted[i], policy_errors[i]),
        ),
        pending: pending as usize,
    }
}

/// The daemon's health.
pub fn status(identity: &Identity, around: &Surroundings, pending: usize) -> (r: StatusInfo)
    requires
        around.policy_errors.len() == identity.trusted.len(),
    ensures
        r.deep_view() == status_of(
            identity.deep_view(),
            around.relay_connected,
            around.policy_errors.deep_view(),
            pending as nat,
        ),
{
    let ghost v = identity.deep_view();
    let ghost errors = around.policy_errors.deep_view();
    let mut workspaces: Vec<WorkspaceInfo> = Vec::new();
    let mut i: usize = 0;
    while i < identity.trusted.len()
        invariant
            i <= identity.trusted.len(),
            around.policy_errors.len() == identity.trusted.len(),
            v == identity.deep_view(),
            errors == around.policy_errors.deep_view(),
            workspaces.len() == i,
            forall|j: int|
                0 <= j < i ==> (#[trigger] workspaces@[j]).deep_view() == workspace_info(
                    v.trusted[j],
                    errors[j],
                ),
        decreases identity.trusted.len() - i,
    {
        assert(v.trusted[i as int] == identity.trusted@[i as int]@);
        assert(errors[i as int] == around.policy_errors@[i as int].deep_view());
        workspaces.push(
            WorkspaceInfo {
                dir: identity.trusted[i].clone(),
                ok: around.policy_errors[i].is_none(),
                error: copy_text(&around.policy_errors[i]),
            },
        );
        i = i + 1;
    }
    let r = StatusInfo {
        relay_connected: around.relay_connected,
        relay_url: identity.relay_url.clone(),
        passkeys: identity.passkeys.len(),
        humans: text::copy_all(&identity.humans),
        workspaces,
        pending,
    };
    assert(v.trusted.len() == identity.trusted.len());
    assert(r.workspaces.deep_view() == status_of(
        v,
        around.relay_connected,
        errors,
        pending as nat,
    ).workspaces);
    r
}

/// Carries out a verb on the local socket: what is done, and what is answered. All of them are for
/// declared humans alone. `cooldown_secs` is how long a denied request is refused.
pub fn handle_local_req(
    manager: &mut Manager,
    identity: &Identity,
    passwd: &str,
    peer_uid: Option<u32>,
    req: &LocalReq,
    around: &Surroundings,
    cooldown_secs: u64,
    now: u64,
) -> (r: (Vec<Effect>, LocalResp))
    requires
        !(req is Request),
        around.policy_errors.len() == identity.trusted.len(),
    ensures
        match peer_refusal(identity.deep_view(), passwd@, peer_uid) {
            Some(why) => {
                &&& final(manager)@ == old(manager)@
                &&& r.0.deep_view() == Seq::<EffectView>::empty()
                &&& r.1.deep_view() == (LocalRespView::Failed { message: why })
            },
            None => {
                let approver = login_of(passwd@, peer_uid->0)->0;
                match *req {
                    LocalReq::Pending => {
                        &&& final(manager)@ == old(manager)@
                        &&& r.0.deep_view() == Seq::<EffectView>::empty()
                        &&& r.1.deep_view() == (LocalRespView::Pending {
                            envelopes: pending_list(old(manager).ids(), old(manager)@.envelopes, now),
                        })
                    },
                    LocalReq::Approve { id } => (
                        final(manager)@,
                        r.0.deep_view(),
                        r.1.deep_view(),
                    ) == decided_locally(
                        old(manager)@,
                        id@,
                        ResolveOutcome::Approved,
                        approver,
                        cooldown_secs,
                        now,
                    ),
                    LocalReq::Deny { id } => (
                        final(manager)@,
                        r.0.deep_view(),
                        r.1.deep_view(),
                    ) == decided_locally(
                        old(manager)@,
                        id@,
                        ResolveOutcome::Denied,
                        approver,
                        cooldown_secs,
                        now,
                    ),
                    LocalReq::Status => {
                        &&& final(manager)@ == old(manager)@
                        &&& r.0.deep_view() == Seq::<EffectView>::empty()
                        &&& r.1.deep_view() == (LocalRespView::Status {
                            info: status_of(
                                identity.deep_view(),
                                around.relay_connected,
                                around.policy_errors.deep_view(),
                                pending_list(
                                    old(manager).ids(),
                                    old(manager)@.envelopes,
                                    now,
                                ).len(),
                            ),
                        })
                    },
                    LocalReq::Request { .. } => false,
                }
            },
        },
        *req matches LocalReq::Approve { id } ==> is_declared_human(
            identity.deep_view(),
            passwd@,
            peer_uid,
        ) && awaits_decision(old(manager)@, id@) ==> {
            &&& is_approved(old(manager)@, final(manager)@, id@)
            &&& is_announced(
                r.0.deep_view(),
                old(manager)@.envelopes[id@].waiters,
                "allow"@,
                "approved by "@ + login_of(passwd@, peer_uid->0)->0 + "; proceeding"@,
                id@,
                "envelope.approved"@,
                "local-cli"@,
                "approved"@,
            )
        },
        *req matches LocalReq::Deny { id } ==> is_declared_human(
            identity.deep_view(),
            passwd@,
            peer_uid,
        ) && awaits_decision(old(manager)@, id@) ==> {
            &&& is_denied(old(manager)@, final(manager)@, id@, cooldown_secs, now)
            &&& is_announced(
                r.0.deep_view(),
                old(manager)@.envelopes[id@].waiters,
                "deny"@,
                "denied by "@ + login_of(passwd@, peer_uid->0)->0
                    + " — do not retry; the human explicitly rejected this."@,
                id@,
                "envelope.denied"@,
                "local-cli"@,
                "denied"@,
            )
        },
        !is_declared_human(identity.deep_view(), passwd@, peer_uid) ==> {
            &&& final(manager)@ == old(manager)@
            &&& r.0.len() == 0
            &&& r.1 is Failed
        },
{
    proof {
        if let LocalReq::Approve { id } = req {
            if awaits_decision(manager@, id@) && is_declared_human(
                identity.deep_view(),
                passwd@,
                peer_uid,
            ) {
                let user = login_of(passwd@, peer_uid->0)->0;
                local_approvals_let_through(manager@, id@, user, cooldown_secs, now);
            }
        }
        if let LocalReq::Deny { id } = req {
            if awaits_decision(manager@, id@) && is_declared_human(
                identity.deep_view(),
                passwd@,
                peer_uid,
            ) {
                let user = login_of(passwd@, peer_uid->0)->0;
                local_denials_refuse(manager@, id@, user, cooldown_secs, now);
            }
        }
    }
    let none: Vec<Effect> = Vec::new();
    assert(none.deep_view() == Seq::<EffectView>::empty());
    let approver: String = match require_human_peer(identity, passwd, peer_uid) {
        Ok(user) => user,
        Err(message) => {
            return (none, LocalResp::Failed { message });
        },
    };
    match req {
        LocalReq::Pending => (none, LocalResp::Pending { envelopes: manager.pending(now) }),
        LocalReq::Approve { id } => decide_locally(
            manager,
            id.as_str(),
            ResolveOutcome::Approved,
            approver.as_str(),
            cooldown_secs,
            now,
        ),
        LocalReq::Deny { id } => decide_locally(
            manager,
            id.as_str(),
            ResolveOutcome::Denied,
            approver.as_str(),
            cooldown_secs,
            now,
        ),
        LocalReq::Status => {
            let pending: usize = manager.pending(now).len();
            (none, LocalResp::Status { info: status(identity, around, pending) })
        },
        LocalReq::Request { .. } => (none, LocalResp::Done { message: String::new() }),
    }
}

/// A workspace's policy file counts only if the workspace is trusted and governs the directory that
/// the request comes from.
pub proof fn only_trusted_policy_counts(
    identity: IdentityView,
    passwd: Seq<char>,
    uid: u32,
    cwd: Seq<char>,
)
    ensures
        admission(identity, passwd, uid, cwd) matches AdmissionView::Admitted(who)
            ==> (who.policy_dir matches Some(dir) ==> identity.trusted.contains(dir)
            && config::governs(dir, cwd)),
{
    if config::is_trusted(identity.trusted, cwd) {
        lemma_workspace_exists(identity.trusted, cwd);
    }
}

pub(crate) proof fn lemma_workspace_exists(trusted: Seq<Seq<char>>, cwd: Seq<char>)
    requires
        config::is_trusted(trusted, cwd),
    ensures
        exists|t: Seq<char>| #[trigger] config::is_workspace(trusted, cwd, t),
    decreases trusted.len(),
{
    let rest = trusted.drop_last();
    let last = trusted.last();
    if config::is_trusted(rest, cwd) {
        lemma_workspace_exists(rest, cwd);
        let t = choose|t: Seq<char>| #[trigger] config::is_workspace(rest, cwd, t);
        let k = choose|k: int| 0 <= k < rest.len() && rest[k] == t;
        assert(trusted[k] == t);
        assert(trusted[trusted.len() - 1] == last);
        let best = if config::governs(last, cwd) && last.len() > t.len() {
            last
        } else {
            t
        };
        assert forall|i: int|
            0 <= i < trusted.len() && config::governs(#[trigger] trusted[i], cwd) implies trusted[i].len()
            <= best.len() by {
            if i < rest.len() {
                assert(rest[i] == trusted[i]);
            }
        }
        assert(config::is_workspace(trusted, cwd, best));
    } else {
        let i = choose|i: int| 0 <= i < trusted.len() && config::governs(#[trigger] trusted[i], cwd);
        if i < rest.len() {
            assert(config::governs(rest[i], cwd));
        }
        assert forall|j: int|
            0 <= j < trusted.len() && config::governs(#[trigger] trusted[j], cwd) implies trusted[j].len()
            <= last.len() by {
            if j < rest.len() {
                assert(rest[j] == trusted[j]);
                assert(config::governs(rest[j], cwd));
            }
        }
        assert(trusted[trusted.len() - 1] == last);
        assert(config::is_workspace(trusted, cwd, last));
    }
}

/// Exactly the declared humans bypass the broker.
pub proof fn only_humans_bypass(
    identity: IdentityView,
    passwd: Seq<char>,
    uid: u32,
    cwd: Seq<char>,
)
    ensures
        admission(identity, passwd, uid, cwd) is Bypass <==> identity.humans.contains(
            agent_name(passwd, uid),
        ),
{
}

/// A request that runs into a hardline is refused without asking, whatever the policy and whoever
/// asks.
pub proof fn hardlines_are_refused(
    engine: Engine,
    req: RequestView,
    who: RequesterView,
    config_dir: Option<Seq<char>>,
)
    requires
        crate::engine::hardline_from(
            crate::normalize::readings(command_line(req.argv), who.home),
            0,
        ) is Some,
    ensures
        weighed_next(req, who, decision_on(engine, req, who, config_dir)) == NextView::Answer(
            refused("denied by policy"@),
        ),
{
}

/// A request that targets a protected policy file is let through by no policy: it is refused, or a
/// human has to approve it.
pub proof fn policy_writes_are_asked(
    engine: Engine,
    req: RequestView,
    who: RequesterView,
    config_dir: Option<Seq<char>>,
)
    requires
        targets_policy(req.argv, req.cwd, who.workspace, config_dir),
    ensures
        ({
            let next = weighed_next(req, who, decision_on(engine, req, who, config_dir));
            next is Approve || next == NextView::Answer(refused("denied by policy"@))
        }),
{
    crate::policy_laws::policy_writes_need_approval(
        engine.global_view(),
        engine.workspace_view(),
        command_line(req.argv),
        Asker { agent: who.agent_user, harness: req.harness },
        who.home,
    );
}

/// The relay learns no key: whatever key an envelope was sealed under, the relay is told the same of
/// it.
pub proof fn the_relay_learns_no_key(
    m: ManagerView,
    ask: manager::AskView,
    id: Seq<char>,
    ciphertext: Seq<char>,
    key: Seq<char>,
    other: Seq<char>,
    topic: Seq<char>,
    i: int,
)
    ensures
        ({
            let told = start_effects(
                topic,
                Ok(manager::created_plan(m, ask, id, ciphertext, key)),
            );
            let told_otherwise = start_effects(
                topic,
                Ok(manager::created_plan(m, ask, id, ciphertext, other)),
            );
            0 <= i < told.len() && told[i] is Relay ==> i < told_otherwise.len()
                && told_otherwise[i] == told[i]
        }),
{
}

/// Whether the effects hold a record that names an envelope.
pub open spec fn is_recorded(effects: Seq<EffectView>, id: Seq<char>) -> bool {
    exists|i: int| 0 <= i < effects.len() && names(#[trigger] effects[i], id)
}

/// Whether an effect is a record that names an envelope.
pub open spec fn names(effect: EffectView, id: Seq<char>) -> bool {
    match effect {
        EffectView::Audit { fields, .. } => fields.contains_key("id"@) && fields["id"@]
            == AuditValueView::Text(id),
        _ => false,
    }
}

/// A new envelope is recorded.
pub proof fn envelopes_are_recorded(
    m: ManagerView,
    ask: manager::AskView,
    id: Seq<char>,
    ciphertext: Seq<char>,
    fragment: Seq<char>,
    topic: Seq<char>,
)
    ensures
        is_recorded(
            start_effects(
                topic,
                Ok(manager::created_plan(m, ask, id, ciphertext, fragment)),
            ),
            id,
        ),
{
    let effects = start_effects(
        topic,
        Ok(manager::created_plan(m, ask, id, ciphertext, fragment)),
    );
    reveal_strlit("id");
    reveal_strlit("expires_unix");
    assert("id"@.len() != "expires_unix"@.len());
    assert(names(effects[0], id));
}

/// A decision at the local terminal is recorded wherever it changes anything.
pub proof fn local_decisions_are_recorded(
    m: ManagerView,
    id: Seq<char>,
    outcome: ResolveOutcome,
    approver: Seq<char>,
    cooldown_secs: u64,
    now: u64,
)
    ensures
        ({
            let (after, effects, _) = decided_locally(m, id, outcome, approver, cooldown_secs, now);
            after != m ==> is_recorded(effects, id)
        }),
{
    if let Ok((_, told)) = resolved(m, id, outcome, approver, cooldown_secs, now) {
        let effects = decided_locally(m, id, outcome, approver, cooldown_secs, now).1;
        lemma_outcome_names(id, outcome, "local-cli"@);
        assert(names(effects[deliveries(told).len() as int], id));
    }
}

/// The record of a decision names the envelope.
pub(crate) proof fn lemma_outcome_names(id: Seq<char>, outcome: ResolveOutcome, source: Seq<char>)
    ensures
        names(outcome_record(id, outcome, source), id),
{
    reveal_strlit("id");
    reveal_strlit("source");
    assert("id"@.len() != "source"@.len());
}

} // verus!
