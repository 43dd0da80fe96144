//! Message shapes: daemon and relay on one side, plugin or command line and daemon on the other.
//! Each message has a view, in which text is a sequence of characters.

use vstd::prelude::*;

verus! {

/// What the daemon tells the relay.
#[derive(Debug, Clone, PartialEq, Eq)]
pub enum DaemonMsg {
    /// First frame after connecting.
    Hello { daemon_id: String, pubkey_b64: String },
    CreateEnvelope { id: String, ciphertext_b64: String, expires_unix: u64 },
    CancelEnvelope { id: String },
    Verdict { id: String, verdict: String },
    /// Reply to a choice: the request options for the page's ceremony.
    CeremonyOptions { id: String, corr: u64, options_json: String },
    /// Reply to an assertion.
    CeremonyResult { id: String, corr: u64, ok: bool, message: String },
    /// Reply to the begin of an enrollment.
    EnrollOptions { session: String, corr: u64, options_json: String },
    /// Reply to the end of an enrollment.
    EnrollResult { session: String, corr: u64, ok: bool, message: String },
}

pub enum DaemonMsgView {
    Hello { daemon_id: Seq<char>, pubkey_b64: Seq<char> },
    CreateEnvelope { id: Seq<char>, ciphertext_b64: Seq<char>, expires_unix: u64 },
    CancelEnvelope { id: Seq<char> },
    Verdict { id: Seq<char>, verdict: Seq<char> },
    CeremonyOptions { id: Seq<char>, corr: u64, options_json: Seq<char> },
    CeremonyResult { id: Seq<char>, corr: u64, ok: bool, message: Seq<char> },
    EnrollOptions { session: Seq<char>, corr: u64, options_json: Seq<char> },
    EnrollResult { session: Seq<char>, corr: u64, ok: bool, message: Seq<char> },
}

impl DeepView for DaemonMsg {
    type V = DaemonMsgView;

    open spec fn deep_view(&self) -> DaemonMsgView {
        match self {
            DaemonMsg::Hello { daemon_id, pubkey_b64 } => DaemonMsgView::Hello {
                daemon_id: daemon_id@,
                pubkey_b64: pubkey_b64@,
            },
            DaemonMsg::CreateEnvelope {
                id,
                ciphertext_b64,
                expires_unix,
            } => DaemonMsgView::CreateEnvelope {
                id: id@,
                ciphertext_b64: ciphertext_b64@,
                expires_unix: *expires_unix,
            },
            DaemonMsg::CancelEnvelope { id } => DaemonMsgView::CancelEnvelope { id: id@ },
            DaemonMsg::Verdict { id, verdict } => DaemonMsgView::Verdict {
                id: id@,
                verdict: verdict@,
            },
            DaemonMsg::CeremonyOptions {
                id,
                corr,
                options_json,
            } => DaemonMsgView::CeremonyOptions {
                id: id@,
                corr: *corr,
                options_json: options_json@,
            },
            DaemonMsg::CeremonyResult { id, corr, ok, message } => DaemonMsgView::CeremonyResult {
                id: id@,
                corr: *corr,
                ok: *ok,
                message: message@,
            },
            DaemonMsg::EnrollOptions {
                session,
                corr,
                options_json,
            } => DaemonMsgView::EnrollOptions {
                session: session@,
                corr: *corr,
                options_json: options_json@,
            },
            DaemonMsg::EnrollResult { session, corr, ok, message } => DaemonMsgView::EnrollResult {
                session: session@,
                corr: *corr,
                ok: *ok,
                message: message@,
            },
        }
    }
}

/// What the relay tells the daemon.
#[derive(Debug, Clone, PartialEq, Eq)]
pub enum RelayMsg {
    PageEvent { id: String, corr: u64, event: PageEvent },
    EnrollEvent { session: String, corr: u64, event: EnrollEvent },
}

pub enum RelayMsgView {
    PageEvent { id: Seq<char>, corr: u64, event: PageEventView },
    EnrollEvent { session: Seq<char>, corr: u64, event: EnrollEventView },
}

impl DeepView for RelayMsg {
    type V = RelayMsgView;

    open spec fn deep_view(&self) -> RelayMsgView {
        match self {
            RelayMsg::PageEvent { id, corr, event } => RelayMsgView::PageEvent {
                id: id@,
                corr: *corr,
                event: event.deep_view(),
            },
            RelayMsg::EnrollEvent { session, corr, event } => RelayMsgView::EnrollEvent {
                session: session@,
                corr: *corr,
                event: event.deep_view(),
            },
        }
    }
}

/// What happens on the approval page.
#[derive(Debug, Clone, PartialEq, Eq)]
pub enum PageEvent {
    Opened,
    /// The grant that the human tapped.
    Choice { choice: String },
    Assertion { response_json: String, choice: String },
    Deny,
}

pub enum PageEventView {
    Opened,
    Choice { choice: Seq<char> },
    Assertion { response_json: Seq<char>, choice: Seq<char> },
    Deny,
}

impl DeepView for PageEvent {
    type V = PageEventView;

    open spec fn deep_view(&self) -> PageEventView {
        match self {
            PageEvent::Opened => PageEventView::Opened,
            PageEvent::Choice { choice } => PageEventView::Choice { choice: choice@ },
            PageEvent::Assertion { response_json, choice } => PageEventView::Assertion {
                response_json: response_json@,
                choice: choice@,
            },
            PageEvent::Deny => PageEventView::Deny,
        }
    }
}

/// What happens on the enrollment page.
#[derive(Debug, Clone, PartialEq, Eq)]
pub enum EnrollEvent {
    Begin { token: String },
    Finish { token: String, response_json: String },
}

pub enum EnrollEventView {
    Begin { token: Seq<char> },
    Finish { token: Seq<char>, response_json: Seq<char> },
}

impl DeepView for EnrollEvent {
    type V = EnrollEventView;

    open spec fn deep_view(&self) -> EnrollEventView {
        match self {
            EnrollEvent::Begin { token } => EnrollEventView::Begin { token: token@ },
            EnrollEvent::Finish { token, response_json } => EnrollEventView::Finish {
                token: token@,
                response_json: response_json@,
            },
        }
    }
}

/// What the approval page shows once it has decrypted an envelope.
#[derive(Debug, Clone, PartialEq, Eq)]
pub struct EnvelopeBody {
    pub argv: Vec<String>,
    pub cwd: String,
    pub runas: String,
    pub uid: u32,
    pub agent_user: String,
    pub harness: Option<String>,
    pub workspace: String,
    pub summary: String,
    pub categories: Vec<String>,
    /// A grant for a while: category and minutes. Without it only "approve once" is offered.
    pub ttl_offer: Option<(String, u64)>,
}

pub struct EnvelopeBodyView {
    pub argv: Seq<Seq<char>>,
    pub cwd: Seq<char>,
    pub runas: Seq<char>,
    pub uid: u32,
    pub agent_user: Seq<char>,
    pub harness: Option<Seq<char>>,
    pub workspace: Seq<char>,
    pub summary: Seq<char>,
    pub categories: Seq<Seq<char>>,
    pub ttl_offer: Option<(Seq<char>, u64)>,
}

impl DeepView for EnvelopeBody {
    type V = EnvelopeBodyView;

    open spec fn deep_view(&self) -> EnvelopeBodyView {
        EnvelopeBodyView {
            argv: self.argv.deep_view(),
            cwd: self.cwd@,
            runas: self.runas@,
            uid: self.uid,
            agent_user: self.agent_user@,
            harness: self.harness.deep_view(),
            workspace: self.workspace@,
            summary: self.summary@,
            categories: self.categories.deep_view(),
            ttl_offer: self.ttl_offer.deep_view(),
        }
    }
}

/// A request on the local socket, one per connection.
#[derive(Debug, Clone, PartialEq, Eq)]
pub enum LocalReq {
    /// From the sudo plugin; answered with a verdict.
    Request { uid: u32, cwd: String, runas: String, argv: Vec<String> },
    Pending,
    Approve { id: String },
    Deny { id: String },
    Status,
}

pub enum LocalReqView {
    Request { uid: u32, cwd: Seq<char>, runas: Seq<char>, argv: Seq<Seq<char>> },
    Pending,
    Approve { id: Seq<char> },
    Deny { id: Seq<char> },
    Status,
}

impl DeepView for LocalReq {
    type V = LocalReqView;

    open spec fn deep_view(&self) -> LocalReqView {
        match self {
            LocalReq::Request { uid, cwd, runas, argv } => LocalReqView::Request {
                uid: *uid,
                cwd: cwd@,
                runas: runas@,
                argv: argv.deep_view(),
            },
            LocalReq::Pending => LocalReqView::Pending,
            LocalReq::Approve { id } => LocalReqView::Approve { id: id@ },
            LocalReq::Deny { id } => LocalReqView::Deny { id: id@ },
            LocalReq::Status => LocalReqView::Status,
        }
    }
}

/// The answer on the local socket.
#[derive(Debug, Clone, PartialEq, Eq)]
pub enum LocalResp {
    Verdict { verdict: String, message: String },
    Pending { envelopes: Vec<PendingInfo> },
    /// The verb was carried out.
    Done { message: String },
    /// The request failed.
    Failed { message: String },
    Status { info: StatusInfo },
}

pub enum LocalRespView {
    Verdict { verdict: Seq<char>, message: Seq<char> },
    Pending { envelopes: Seq<PendingInfoView> },
    Done { message: Seq<char> },
    Failed { message: Seq<char> },
    Status { info: StatusInfoView },
}

impl DeepView for LocalResp {
    type V = LocalRespView;

    open spec fn deep_view(&self) -> LocalRespView {
        match self {
            LocalResp::Verdict { verdict, message } => LocalRespView::Verdict {
                verdict: verdict@,
                message: message@,
            },
            LocalResp::Pending { envelopes } => LocalRespView::Pending {
                envelopes: envelopes.deep_view(),
            },
            LocalResp::Done { message } => LocalRespView::Done { message: message@ },
            LocalResp::Failed { message } => LocalRespView::Failed { message: message@ },
            LocalResp::Status { info } => LocalRespView::Status { info: info.deep_view() },
        }
    }
}

/// One line of the list of envelopes that await a human.
#[derive(Debug, Clone, PartialEq, Eq)]
pub struct PendingInfo {
    pub id: String,
    pub age_secs: u64,
    pub state: String,
    pub agent_user: String,
    pub categories: Vec<String>,
    pub command: String,
}

pub struct PendingInfoView {
    pub id: Seq<char>,
    pub age_secs: u64,
    pub state: Seq<char>,
    pub agent_user: Seq<char>,
    pub categories: Seq<Seq<char>>,
    pub command: Seq<char>,
}

impl DeepView for PendingInfo {
    type V = PendingInfoView;

    open spec fn deep_view(&self) -> PendingInfoView {
        PendingInfoView {
            id: self.id@,
            age_secs: self.age_secs,
            state: self.state@,
            agent_user: self.agent_user@,
            categories: self.categories.deep_view(),
            command: self.command@,
        }
    }
}

/// The daemon's health.
#[derive(Debug, Clone, PartialEq, Eq)]
pub struct StatusInfo {
    pub relay_connected: bool,
    pub relay_url: String,
    pub passkeys: usize,
    pub humans: Vec<String>,
    pub workspaces: Vec<WorkspaceInfo>,
    pub pending: usize,
}

pub struct StatusInfoView {
    pub relay_connected: bool,
    pub relay_url: Seq<char>,
    pub passkeys: usize,
    pub humans: Seq<Seq<char>>,
    pub workspaces: Seq<WorkspaceInfoView>,
    pub pending: usize,
}

impl DeepView for StatusInfo {
    type V = StatusInfoView;

    open spec fn deep_view(&self) -> StatusInfoView {
        StatusInfoView {
            relay_connected: self.relay_connected,
            relay_url: self.relay_url@,
            passkeys: self.passkeys,
            humans: self.humans.deep_view(),
            workspaces: self.workspaces.deep_view(),
            pending: self.pending,
        }
    }
}

/// A trusted workspace, and whether its policy file could be read.
#[derive(Debug, Clone, PartialEq, Eq)]
pub struct WorkspaceInfo {
    pub dir: String,
    pub ok: bool,
    pub error: Option<String>,
}

pub struct WorkspaceInfoView {
    pub dir: Seq<char>,
    pub ok: bool,
    pub error: Option<Seq<char>>,
}

impl DeepView for WorkspaceInfo {
    type V = WorkspaceInfoView;

    open spec fn deep_view(&self) -> WorkspaceInfoView {
        WorkspaceInfoView { dir: self.dir@, ok: self.ok, error: self.error.deep_view() }
    }
}

} // verus!
