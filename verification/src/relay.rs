//! The relay: it stores ciphertext it cannot read, and carries questions from the pages to the
//! daemon and the answers back.

use crate::proto::{DaemonMsg, DaemonMsgView, EnrollEvent, PageEvent, RelayMsg, RelayMsgView};
use crate::proto::{EnrollEventView, PageEventView};
use crate::table::StrMap;
use crate::text;
use crate::text::replaced;
use std::collections::HashSet;
use vstd::prelude::*;

verus! {

broadcast use vstd::std_specs::hash::group_hash_axioms;

/// What the relay knows of an envelope.
#[derive(Debug, PartialEq, Eq)]
pub struct EnvelopeRecord {
    pub ciphertext_b64: String,
    pub expires_unix: u64,
    pub verdict: Option<String>,
}

pub struct EnvelopeRecordView {
    pub ciphertext_b64: Seq<char>,
    pub expires_unix: u64,
    pub verdict: Option<Seq<char>>,
}

impl DeepView for EnvelopeRecord {
    type V = EnvelopeRecordView;

    open spec fn deep_view(&self) -> EnvelopeRecordView {
        EnvelopeRecordView {
            ciphertext_b64: self.ciphertext_b64@,
            expires_unix: self.expires_unix,
            verdict: self.verdict.deep_view(),
        }
    }
}

/// The relay's state.
pub struct Relay {
    envelopes: StrMap<EnvelopeRecord>,
    /// The questions that await an answer.
    asked: HashSet<u64>,
    /// The number of the next question.
    corr: u64,
    connected: bool,
}

#[verifier::ext_equal]
pub struct RelayView {
    pub envelopes: Map<Seq<char>, EnvelopeRecordView>,
    pub asked: Set<u64>,
    pub corr: u64,
    pub connected: bool,
}

impl View for Relay {
    type V = RelayView;

    closed spec fn view(&self) -> RelayView {
        RelayView {
            envelopes: self.envelopes@.map_values(|e: EnvelopeRecord| e.deep_view()),
            asked: self.asked@,
            corr: self.corr,
            connected: self.connected,
        }
    }
}

/// The relay with a verdict on an envelope that it knows.
pub open spec fn with_verdict(s: RelayView, id: Seq<char>, verdict: Seq<char>) -> RelayView {
    if s.envelopes.contains_key(id) {
        RelayView {
            envelopes: s.envelopes.insert(
                id,
                EnvelopeRecordView { verdict: Some(verdict), ..s.envelopes[id] },
            ),
            ..s
        }
    } else {
        s
    }
}

/// The question that a message of the daemon answers.
pub open spec fn answers(msg: DaemonMsgView) -> Option<u64> {
    match msg {
        DaemonMsgView::CeremonyOptions { corr, .. } => Some(corr),
        DaemonMsgView::CeremonyResult { corr, .. } => Some(corr),
        DaemonMsgView::EnrollOptions { corr, .. } => Some(corr),
        DaemonMsgView::EnrollResult { corr, .. } => Some(corr),
        _ => None,
    }
}

/// What a message of the daemon does: the relay after it, and the question that it is handed to.
pub open spec fn received(s: RelayView, msg: DaemonMsgView) -> (RelayView, Option<u64>) {
    match msg {
        DaemonMsgView::Hello { .. } => (s, None),
        DaemonMsgView::CreateEnvelope { id, ciphertext_b64, expires_unix } => (
            RelayView {
                envelopes: s.envelopes.insert(
                    id,
                    EnvelopeRecordView { ciphertext_b64, expires_unix, verdict: None },
                ),
                ..s
            },
            None,
        ),
        DaemonMsgView::CancelEnvelope { id } => (with_verdict(s, id, "cancelled"@), None),
        DaemonMsgView::Verdict { id, verdict } => (with_verdict(s, id, verdict), None),
        _ => match answers(msg) {
            Some(corr) => (
                RelayView { asked: s.asked.remove(corr), ..s },
                if s.asked.contains(corr) {
                    Some(corr)
                } else {
                    None
                },
            ),
            None => (s, None),
        },
    }
}

impl Relay {
    /// A relay that knows nothing and to which no daemon is connected.
    pub fn new() -> (r: Relay)
        ensures
            r@ == (RelayView {
                envelopes: Map::empty(),
                asked: Set::empty(),
                corr: 1,
                connected: false,
            }),
    {
        let r = Relay {
            envelopes: StrMap::new(),
            asked: HashSet::new(),
            corr: 1,
            connected: false,
        };
        assert(r@.envelopes =~= Map::empty());
        assert(r@.asked =~= Set::empty());
        r
    }

    /// Notes that a daemon has introduced itself, or that its connection has ended.
    pub fn set_connected(&mut self, connected: bool)
        ensures
            final(self)@ == (RelayView { connected, ..old(self)@ }),
    {
        self.connected = connected;
    }

    fn set_verdict(&mut self, id: &str, verdict: &str)
        ensures
            final(self)@ == with_verdict(old(self)@, id@, verdict@),
    {
        let ghost s = self@;
        match self.envelopes.remove(id) {
            Some(mut record) => {
                assert(record.deep_view() == s.envelopes[id@]);
                record.verdict = Some(verdict.to_owned());
                let ghost after = record.deep_view();
                self.envelopes.insert(id.to_owned(), record);
                assert(self@.envelopes =~= s.envelopes.insert(id@, after));
                assert(self@ =~= with_verdict(s, id@, verdict@));
            },
            None => {
                assert(self@.envelopes =~= s.envelopes);
                assert(self@ =~= s);
            },
        }
    }

    fn answer(&mut self, corr: u64) -> (r: Option<u64>)
        ensures
            final(self)@ == (RelayView { asked: old(self)@.asked.remove(corr), ..old(self)@ }),
            r == if old(self)@.asked.contains(corr) {
                Some(corr)
            } else {
                None
            },
    {
        if self.asked.remove(&corr) {
            Some(corr)
        } else {
            None
        }
    }

    /// Takes in a message of the daemon. The result is the question that the message is handed to.
    pub fn handle_daemon_msg(&mut self, msg: &DaemonMsg) -> (r: Option<u64>)
        ensures
            (final(self)@, r) == received(old(self)@, msg.deep_view()),
    {
        let ghost s = self@;
        match msg {
            DaemonMsg::Hello { .. } => None,
            DaemonMsg::CreateEnvelope { id, ciphertext_b64, expires_unix } => {
                let record = EnvelopeRecord {
                    ciphertext_b64: ciphertext_b64.clone(),
                    expires_unix: *expires_unix,
                    verdict: None,
                };
                let ghost view = record.deep_view();
                self.envelopes.insert(id.clone(), record);
                assert(self@.envelopes =~= s.envelopes.insert(id@, view));
                assert(self@ =~= received(s, msg.deep_view()).0);
                None
            },
            DaemonMsg::CancelEnvelope { id } => {
                self.set_verdict(id.as_str(), "cancelled");
                None
            },
            DaemonMsg::Verdict { id, verdict } => {
                self.set_verdict(id.as_str(), verdict.as_str());
                None
            },
            DaemonMsg::CeremonyOptions { corr, .. } => self.answer(*corr),
            DaemonMsg::CeremonyResult { corr, .. } => self.answer(*corr),
            DaemonMsg::EnrollOptions { corr, .. } => self.answer(*corr),
            DaemonMsg::EnrollResult { corr, .. } => self.answer(*corr),
        }
    }

    /// Numbers a question for the daemon, and notes that it awaits an answer. Without a daemon the
    /// number is spent all the same.
    pub fn ask_daemon(&mut self) -> (r: Result<u64, String>)
        ensures
            match r {
                Ok(corr) => old(self)@.connected && corr == old(self)@.corr && final(self)@ == (
                RelayView {
                    asked: old(self)@.asked.insert(corr),
                    corr: next_corr(corr),
                    ..old(self)@
                }),
                Err(e) => !old(self)@.connected && e@ == "no daemon connected"@ && final(self)@ == (
                RelayView { corr: next_corr(old(self)@.corr), ..old(self)@ }),
            },
    {
        let corr: u64 = self.corr;
        self.corr = corr.wrapping_add(1);
        if self.connected {
            self.asked.insert(corr);
            Ok(corr)
        } else {
            Err("no daemon connected".to_owned())
        }
    }

    /// Forgets a question that could not be put.
    pub fn drop_question(&mut self, corr: u64)
        ensures
            final(self)@ == (RelayView { asked: old(self)@.asked.remove(corr), ..old(self)@ }),
    {
        let _ = self.asked.remove(&corr);
    }

    /// Whether a message that awaits no answer can be sent.
    pub fn send_daemon(&self) -> (r: Result<(), String>)
        ensures
            match r {
                Ok(_) => self@.connected,
                Err(e) => !self@.connected && e@ == "no daemon connected"@,
            },
    {
        if self.connected {
            Ok(())
        } else {
            Err("no daemon connected".to_owned())
        }
    }

    /// What the page is told of an envelope.
    pub fn ciphertext(&self, id: &str) -> (r: Reply)
        ensures
            r.deep_view() == ciphertext_reply(self@, id@),
    {
        match self.envelopes.get(id) {
            Some(record) => Reply {
                status: 200,
                body: Body::Envelope {
                    ciphertext_b64: record.ciphertext_b64.clone(),
                    expires_unix: record.expires_unix,
                    verdict: match &record.verdict {
                        Some(v) => Some(v.clone()),
                        None => None,
                    },
                },
            },
            None => failure(404, "unknown envelope"),
        }
    }

    /// The number of envelopes that the relay knows.
    pub fn known(&self) -> (r: usize)
        ensures
            r == self.ids().len(),
            crate::table::ascending(self.ids()),
            forall|id: Seq<char>| #[trigger]
                self.ids().contains(id) <==> self@.envelopes.contains_key(id),
    {
        let n: usize = self.envelopes.len();
        assert forall|id: Seq<char>| #[trigger]
            self.ids().contains(id) <==> self@.envelopes.contains_key(id) by {
            if self.ids().contains(id) {
                let i = choose|i: int| 0 <= i < self.ids().len() && self.ids()[i] == id;
                assert(self.envelopes@.contains_key(self.envelopes.keys()[i]));
            }
            if self@.envelopes.contains_key(id) {
                assert(self.envelopes@.contains_key(id));
                let i = choose|i: int|
                    0 <= i < self.envelopes.keys().len() && #[trigger] self.envelopes.keys()[i]
                        == id;
                assert(self.ids()[i] == id);
            }
        }
        n
    }

    /// The ids of the envelopes that the relay knows, in ascending order.
    pub closed spec fn ids(self) -> Seq<Seq<char>> {
        self.envelopes.keys()
    }

    /// An envelope's id, by its position.
    pub fn id_at(&self, i: usize) -> (r: &String)
        requires
            i < self.ids().len(),
        ensures
            r@ == self.ids()[i as int],
    {
        self.envelopes.key_at(i)
    }
}

/// The number after a question's; it starts over after the largest.
pub open spec fn next_corr(corr: u64) -> u64 {
    if corr == u64::MAX {
        0
    } else {
        (corr + 1) as u64
    }
}

/// What a page gets: a status and a body.
#[derive(Debug, PartialEq, Eq)]
pub struct Reply {
    pub status: u16,
    pub body: Body,
}

/// The body of a reply, each to be written as JSON.
#[derive(Debug, PartialEq, Eq)]
pub enum Body {
    /// JSON that came from the daemon.
    Json(String),
    /// How a ceremony ended.
    Outcome { ok: bool, message: String },
    /// It was done.
    Done,
    Failure { error: String },
    Envelope { ciphertext_b64: String, expires_unix: u64, verdict: Option<String> },
}

pub struct ReplyView {
    pub status: u16,
    pub body: BodyView,
}

pub enum BodyView {
    Json(Seq<char>),
    Outcome { ok: bool, message: Seq<char> },
    Done,
    Failure { error: Seq<char> },
    Envelope { ciphertext_b64: Seq<char>, expires_unix: u64, verdict: Option<Seq<char>> },
}

impl DeepView for Reply {
    type V = ReplyView;

    open spec fn deep_view(&self) -> ReplyView {
        ReplyView { status: self.status, body: self.body.deep_view() }
    }
}

impl DeepView for Body {
    type V = BodyView;

    open spec fn deep_view(&self) -> BodyView {
        match self {
            Body::Json(s) => BodyView::Json(s@),
            Body::Outcome { ok, message } => BodyView::Outcome { ok: *ok, message: message@ },
            Body::Done => BodyView::Done,
            Body::Failure { error } => BodyView::Failure { error: error@ },
            Body::Envelope { ciphertext_b64, expires_unix, verdict } => BodyView::Envelope {
                ciphertext_b64: ciphertext_b64@,
                expires_unix: *expires_unix,
                verdict: verdict.deep_view(),
            },
        }
    }
}

/// What the page is told of an envelope.
pub open spec fn ciphertext_reply(s: RelayView, id: Seq<char>) -> ReplyView {
    if s.envelopes.contains_key(id) {
        ReplyView {
            status: 200,
            body: BodyView::Envelope {
                ciphertext_b64: s.envelopes[id].ciphertext_b64,
                expires_unix: s.envelopes[id].expires_unix,
                verdict: s.envelopes[id].verdict,
            },
        }
    } else {
        failed(404, "unknown envelope"@)
    }
}

/// A reply that names an error.
pub open spec fn failed(status: u16, error: Seq<char>) -> ReplyView {
    ReplyView { status, body: BodyView::Failure { error } }
}

fn failure(status: u16, error: &str) -> (r: Reply)
    ensures
        r.deep_view() == failed(status, error@),
{
    Reply { status, body: Body::Failure { error: error.to_owned() } }
}

/// What keeps a text from being JSON.
pub uninterp spec fn json_fault(text: Seq<char>) -> Option<Seq<char>>;

/// Calls `serde_json::from_str` for a `serde_json::Value` and keeps only the text of an error.
/// Whether there is one, and its text, depend on the text alone.
#[verifier::external_body]
fn fault_of_json(s: &str) -> (r: Option<String>)
    ensures
        r.deep_view() == json_fault(s@),
{
    serde_json::from_str::<serde_json::Value>(s).err().map(|e| e.to_string())
}

/// The daemon's JSON, if it is JSON.
pub open spec fn json_reply(text: Seq<char>, fault: Option<Seq<char>>) -> ReplyView {
    match fault {
        None => ReplyView { status: 200, body: BodyView::Json(text) },
        Some(cause) => failed(502, "bad daemon json: "@ + cause),
    }
}

/// The daemon's JSON, given what is wrong with it.
pub fn json_checked(s: &str, fault: Option<String>) -> (r: Reply)
    ensures
        r.deep_view() == json_reply(s@, fault.deep_view()),
{
    match fault {
        None => Reply { status: 200, body: Body::Json(s.to_owned()) },
        Some(cause) => failure(502, text::cat2("bad daemon json: ", cause.as_str()).as_str()),
    }
}

/// The daemon's JSON, if it is JSON.
pub fn json_text(s: &str) -> (r: Reply)
    ensures
        r.deep_view() == json_reply(s@, json_fault(s@)),
{
    json_checked(s, fault_of_json(s))
}

/// The view of what a question came to.
pub open spec fn answer_view(r: Result<DaemonMsg, String>) -> Result<DaemonMsgView, Seq<char>> {
    match r {
        Ok(m) => Ok(m.deep_view()),
        Err(e) => Err(e@),
    }
}

/// Any other message of the daemon.
pub open spec fn unexpected() -> ReplyView {
    failed(502, "unexpected daemon response"@)
}

/// How a ceremony ended.
pub open spec fn ended(status: u16, ok: bool, message: Seq<char>) -> ReplyView {
    ReplyView { status, body: BodyView::Outcome { ok, message } }
}

/// What the page gets for a choice.
pub open spec fn choice_reply(answer: Result<DaemonMsgView, Seq<char>>) -> ReplyView {
    match answer {
        Ok(DaemonMsgView::CeremonyOptions { options_json, .. }) => json_reply(
            options_json,
            json_fault(options_json),
        ),
        Ok(DaemonMsgView::CeremonyResult { ok, message, .. }) => ended(
            if ok {
                200
            } else {
                400
            },
            ok,
            message,
        ),
        Ok(_) => unexpected(),
        Err(e) => failed(503, e),
    }
}

/// What the page gets for an assertion.
pub open spec fn assertion_reply(answer: Result<DaemonMsgView, Seq<char>>) -> ReplyView {
    match answer {
        Ok(DaemonMsgView::CeremonyResult { ok, message, .. }) => ended(200, ok, message),
        Ok(_) => unexpected(),
        Err(e) => failed(503, e),
    }
}

/// What the page gets for the begin of an enrollment.
pub open spec fn enroll_begin_reply(answer: Result<DaemonMsgView, Seq<char>>) -> ReplyView {
    match answer {
        Ok(DaemonMsgView::EnrollOptions { options_json, .. }) => json_reply(
            options_json,
            json_fault(options_json),
        ),
        Ok(DaemonMsgView::EnrollResult { ok, message, .. }) => ended(200, ok, message),
        Ok(_) => unexpected(),
        Err(e) => failed(503, e),
    }
}

/// What the page gets for the end of an enrollment.
pub open spec fn enroll_finish_reply(answer: Result<DaemonMsgView, Seq<char>>) -> ReplyView {
    match answer {
        Ok(DaemonMsgView::EnrollResult { ok, message, .. }) => ended(200, ok, message),
        Ok(_) => unexpected(),
        Err(e) => failed(503, e),
    }
}

fn outcome(status: u16, ok: bool, message: String) -> (r: Reply)
    ensures
        r.deep_view() == ended(status, ok, message@),
{
    Reply { status, body: Body::Outcome { ok, message } }
}

/// What the page gets for a choice.
pub fn choice(answer: Result<DaemonMsg, String>) -> (r: Reply)
    ensures
        r.deep_view() == choice_reply(answer_view(answer)),
        answer matches Err(e) ==> r.status == 503 && (r.body matches Body::Failure { error } && error@
            == e@),
        answer matches Ok(DaemonMsg::CeremonyResult { ok, message, .. }) ==> (r.body matches Body::Outcome {
            ok: o,
            message: m,
        } && o == ok && m@ == message@),
{
    match answer {
        Ok(DaemonMsg::CeremonyOptions { options_json, .. }) => json_text(options_json.as_str()),
        Ok(DaemonMsg::CeremonyResult { ok, message, .. }) => outcome(
            if ok {
                200
            } else {
                400
            },
            ok,
            message,
        ),
        Ok(_) => failure(502, "unexpected daemon response"),
        Err(e) => failure(503, e.as_str()),
    }
}

/// What the page gets for an assertion.
pub fn assertion(answer: Result<DaemonMsg, String>) -> (r: Reply)
    ensures
        r.deep_view() == assertion_reply(answer_view(answer)),
        answer matches Err(e) ==> r.status == 503 && (r.body matches Body::Failure { error } && error@
            == e@),
        answer matches Ok(DaemonMsg::CeremonyResult { ok, message, .. }) ==> (r.body matches Body::Outcome {
            ok: o,
            message: m,
        } && o == ok && m@ == message@),
{
    match answer {
        Ok(DaemonMsg::CeremonyResult { ok, message, .. }) => outcome(200, ok, message),
        Ok(_) => failure(502, "unexpected daemon response"),
        Err(e) => failure(503, e.as_str()),
    }
}

/// What the page gets for a denial.
pub fn deny(sent: Result<(), String>) -> (r: Reply)
    ensures
        match sent {
            Ok(_) => r.deep_view() == (ReplyView { status: 200, body: BodyView::Done }),
            Err(e) => r.deep_view() == failed(503, e@),
        },
{
    match sent {
        Ok(()) => Reply { status: 200, body: Body::Done },
        Err(e) => failure(503, e.as_str()),
    }
}

/// What the page gets for the begin of an enrollment.
pub fn enroll_begin(answer: Result<DaemonMsg, String>) -> (r: Reply)
    ensures
        r.deep_view() == enroll_begin_reply(answer_view(answer)),
        answer matches Err(e) ==> r.status == 503 && (r.body matches Body::Failure { error } && error@
            == e@),
        answer matches Ok(DaemonMsg::EnrollResult { ok, message, .. }) ==> (r.body matches Body::Outcome {
            ok: o,
            message: m,
        } && o == ok && m@ == message@),
{
    match answer {
        Ok(DaemonMsg::EnrollOptions { options_json, .. }) => json_text(options_json.as_str()),
        Ok(DaemonMsg::EnrollResult { ok, message, .. }) => outcome(200, ok, message),
        Ok(_) => failure(502, "unexpected daemon response"),
        Err(e) => failure(503, e.as_str()),
    }
}

/// What the page gets for the end of an enrollment.
pub fn enroll_finish(answer: Result<DaemonMsg, String>) -> (r: Reply)
    ensures
        r.deep_view() == enroll_finish_reply(answer_view(answer)),
        answer matches Err(e) ==> r.status == 503 && (r.body matches Body::Failure { error } && error@
            == e@),
        answer matches Ok(DaemonMsg::EnrollResult { ok, message, .. }) ==> (r.body matches Body::Outcome {
            ok: o,
            message: m,
        } && o == ok && m@ == message@),
{
    match answer {
        Ok(DaemonMsg::EnrollResult { ok, message, .. }) => outcome(200, ok, message),
        Ok(_) => failure(502, "unexpected daemon response"),
        Err(e) => failure(503, e.as_str()),
    }
}

/// A page's question, before it is numbered.
#[derive(Debug, PartialEq, Eq)]
pub enum Question {
    Choice { id: String, choice: String },
    Assertion { id: String, response_json: String, choice: String },
    EnrollBegin { token: String },
    EnrollFinish { token: String, response_json: String },
}

/// A question as the daemon gets it. An enrollment's session is its token.
pub open spec fn question_msg(q: Question, corr: u64) -> RelayMsgView {
    match q {
        Question::Choice { id, choice } => RelayMsgView::PageEvent {
            id: id@,
            corr,
            event: PageEventView::Choice { choice: choice@ },
        },
        Question::Assertion { id, response_json, choice } => RelayMsgView::PageEvent {
            id: id@,
            corr,
            event: PageEventView::Assertion { response_json: response_json@, choice: choice@ },
        },
        Question::EnrollBegin { token } => RelayMsgView::EnrollEvent {
            session: token@,
            corr,
            event: EnrollEventView::Begin { token: token@ },
        },
        Question::EnrollFinish { token, response_json } => RelayMsgView::EnrollEvent {
            session: token@,
            corr,
            event: EnrollEventView::Finish { token: token@, response_json: response_json@ },
        },
    }
}

/// A question as the daemon gets it.
pub fn numbered(q: Question, corr: u64) -> (r: RelayMsg)
    ensures
        r.deep_view() == question_msg(q, corr),
        q matches Question::Choice { id, choice } ==> (r matches RelayMsg::PageEvent {
            id: i,
            corr: n,
            event: PageEvent::Choice { choice: c },
        } && i@ == id@ && n == corr && c@ == choice@),
        q matches Question::Assertion { id, response_json, choice } ==> (
        r matches RelayMsg::PageEvent {
            id: i,
            corr: n,
            event: PageEvent::Assertion { response_json: j, choice: c },
        } && i@ == id@ && n == corr && j@ == response_json@ && c@ == choice@),
        q matches Question::EnrollBegin { token } ==> (r matches RelayMsg::EnrollEvent {
            session,
            corr: n,
            event: EnrollEvent::Begin { token: t },
        } && session@ == token@ && n == corr && t@ == token@),
        q matches Question::EnrollFinish { token, response_json } ==> (
        r matches RelayMsg::EnrollEvent {
            session,
            corr: n,
            event: EnrollEvent::Finish { token: t, response_json: j },
        } && session@ == token@ && n == corr && t@ == token@ && j@ == response_json@),
{
    match q {
        Question::Choice { id, choice } => RelayMsg::PageEvent {
            id,
            corr,
            event: PageEvent::Choice { choice },
        },
        Question::Assertion { id, response_json, choice } => RelayMsg::PageEvent {
            id,
            corr,
            event: PageEvent::Assertion { response_json, choice },
        },
        Question::EnrollBegin { token } => RelayMsg::EnrollEvent {
            session: token.clone(),
            corr,
            event: EnrollEvent::Begin { token },
        },
        Question::EnrollFinish { token, response_json } => RelayMsg::EnrollEvent {
            session: token.clone(),
            corr,
            event: EnrollEvent::Finish { token, response_json },
        },
    }
}

/// A denial as the daemon gets it; no answer is awaited.
pub fn denial(id: String) -> (r: RelayMsg)
    ensures
        r.deep_view() == (RelayMsgView::PageEvent { id: id@, corr: 0, event: PageEventView::Deny }),
{
    RelayMsg::PageEvent { id, corr: 0, event: PageEvent::Deny }
}

/// The approval page of an envelope: its id stands in for each placeholder of the template.
pub fn approval_page(template: &str, id: &str) -> (r: String)
    ensures
        r@ == replaced(template@, "__ID__"@, id@),
{
    proof {
        reveal_strlit("__ID__");
    }
    text::replace(template, "__ID__", id)
}

/// The address to listen on: what follows the last `--listen`. The arguments come without the
/// program's name.
pub open spec fn listen_in(args: Seq<Seq<char>>, listen: Seq<char>) -> Option<Seq<char>>
    decreases args.len(),
{
    if args.len() == 0 {
        Some(listen)
    } else if args[0] != "--listen"@ {
        listen_in(args.drop_first(), listen)
    } else if args.len() == 1 {
        None
    } else {
        listen_in(args.skip(2), args[1])
    }
}

/// The address to listen on.
pub fn listen_address(args: &Vec<String>) -> (r: Result<String, String>)
    ensures
        match listen_in(args.deep_view(), "127.0.0.1:8787"@) {
            Some(listen) => r matches Ok(l) && l@ == listen,
            None => r matches Err(e) && e@ == "--listen requires an address"@,
        },
{
    let ghost all = args.deep_view();
    let mut listen: String = "127.0.0.1:8787".to_owned();
    let mut i: usize = 0;
    assert(all.skip(0) == all);
    while i < args.len()
        invariant
            i <= args.len(),
            all == args.deep_view(),
            listen_in(all.skip(i as int), listen@) == listen_in(all, "127.0.0.1:8787"@),
        decreases args.len() - i,
    {
        let ghost rest = all.skip(i as int);
        assert(rest[0] == args@[i as int]@);
        assert(rest.drop_first() == all.skip(i + 1));
        if text::same(args[i].as_str(), "--listen") {
            if args.len() - i == 1 {
                return Err("--listen requires an address".to_owned());
            }
            assert(rest[1] == args@[i + 1]@);
            assert(rest.skip(2) == all.skip(i + 2));
            listen = args[i + 1].clone();
            i = i + 2;
        } else {
            i = i + 1;
        }
    }
    Ok(listen)
}

/// What the daemon stored is what the page reads, until the daemon stores it anew: the ciphertext
/// unchanged, and the latest verdict with it.
pub proof fn stored_is_read(
    s: RelayView,
    id: Seq<char>,
    ciphertext_b64: Seq<char>,
    expires_unix: u64,
    verdict: Seq<char>,
)
    ensures
        ({
            let (stored, _) = received(
                s,
                DaemonMsgView::CreateEnvelope { id, ciphertext_b64, expires_unix },
            );
            let (judged, _) = received(stored, DaemonMsgView::Verdict { id, verdict });
            &&& ciphertext_reply(stored, id) == (ReplyView {
                status: 200,
                body: BodyView::Envelope { ciphertext_b64, expires_unix, verdict: None },
            })
            &&& ciphertext_reply(judged, id) == (ReplyView {
                status: 200,
                body: BodyView::Envelope { ciphertext_b64, expires_unix, verdict: Some(verdict) },
            })
        }),
{
}

/// No message of the daemon changes the ciphertext of an envelope other than the one it names.
pub proof fn others_are_untouched(s: RelayView, msg: DaemonMsgView, other: Seq<char>)
    requires
        match msg {
            DaemonMsgView::CreateEnvelope { id, .. } => id != other,
            DaemonMsgView::CancelEnvelope { id } => id != other,
            DaemonMsgView::Verdict { id, .. } => id != other,
            _ => true,
        },
    ensures
        ciphertext_reply(received(s, msg).0, other) == ciphertext_reply(s, other),
{
}

/// An answer reaches its question once: the same message again reaches nobody.
pub proof fn answers_arrive_once(s: RelayView, msg: DaemonMsgView)
    requires
        answers(msg) is Some,
    ensures
        received(s, msg).1 == if s.asked.contains(answers(msg)->0) {
            answers(msg)
        } else {
            None
        },
        received(received(s, msg).0, msg).1 is None,
{
}

/// An envelope can be replayed: told of it again, the relay is as if told once.
pub proof fn replays_change_nothing(s: RelayView, msg: DaemonMsgView)
    requires
        msg is CreateEnvelope,
    ensures
        received(received(s, msg).0, msg).0 == received(s, msg).0,
{
    assert(received(received(s, msg).0, msg).0.envelopes =~= received(s, msg).0.envelopes);
}

} // verus!
