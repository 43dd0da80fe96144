//! What the relay carries, it carries unchanged: a page's question to the daemon, the daemon's answer
//! to that page, and each envelope to whoever opens its link.

use crate::proto::{DaemonMsgView, EnrollEventView, PageEventView, RelayMsgView};
use crate::relay::{
    assertion_reply, choice_reply, ciphertext_reply, enroll_begin_reply, enroll_finish_reply,
    json_fault, listen_in, next_corr, question_msg, received, BodyView, Question, RelayView,
    ReplyView,
};
use vstd::prelude::*;

verus! {

/// What a page sends is what the daemon gets: each kind of question arrives as that kind, under its
/// number, with each of its texts in its own place.
pub proof fn questions_arrive_as_put(q: Question, corr: u64)
    ensures
        q matches Question::Choice { id, choice } ==> (question_msg(q, corr)
            matches RelayMsgView::PageEvent { id: i, corr: n, event } && i == id@ && n == corr && (
        event matches PageEventView::Choice { choice: c } && c == choice@)),
        q matches Question::Assertion { id, response_json, choice } ==> (question_msg(q, corr)
            matches RelayMsgView::PageEvent { id: i, corr: n, event } && i == id@ && n == corr && (
        event matches PageEventView::Assertion { response_json: r, choice: c } && r
            == response_json@ && c == choice@)),
        q matches Question::EnrollBegin { token } ==> (question_msg(q, corr)
            matches RelayMsgView::EnrollEvent { session, corr: n, event } && session == token@ && n
            == corr && (event matches EnrollEventView::Begin { token: t } && t == token@)),
        q matches Question::EnrollFinish { token, response_json } ==> (question_msg(q, corr)
            matches RelayMsgView::EnrollEvent { session, corr: n, event } && session == token@ && n
            == corr && (event matches EnrollEventView::Finish { token: t, response_json: r } && t
            == token@ && r == response_json@)),
{
}

/// The envelope and the choice by which the daemon finds a ceremony, in a message of a page.
pub open spec fn ceremony_key(msg: RelayMsgView) -> Option<(Seq<char>, Seq<char>)> {
    match msg {
        RelayMsgView::PageEvent { id, event: PageEventView::Choice { choice }, .. } => Some(
            (id, choice),
        ),
        RelayMsgView::PageEvent { id, event: PageEventView::Assertion { choice, .. }, .. } => Some(
            (id, choice),
        ),
        _ => None,
    }
}

/// A choice and the assertion that follows it name the same ceremony, and only where they name the
/// same envelope and the same choice.
pub proof fn assertions_find_their_choice(q: Question, a: Question, m: u64, n: u64)
    requires
        q is Choice,
        a is Assertion,
    ensures
        ceremony_key(question_msg(q, m)) == Some((q->Choice_id@, q->Choice_choice@)),
        ceremony_key(question_msg(a, n)) == Some((a->Assertion_id@, a->Assertion_choice@)),
        ceremony_key(question_msg(q, m)) == ceremony_key(question_msg(a, n)) <==> q->Choice_id@
            == a->Assertion_id@ && q->Choice_choice@ == a->Assertion_choice@,
{
}

/// Questions that differ in number, kind or text arrive as different messages.
pub proof fn different_questions_arrive_different(q: Question, r: Question, m: u64, n: u64)
    requires
        question_msg(q, m) == question_msg(r, n),
    ensures
        m == n,
        q matches Question::Choice { id, choice } ==> (r matches Question::Choice {
            id: i,
            choice: c,
        } && i@ == id@ && c@ == choice@),
        q matches Question::Assertion { id, response_json, choice } ==> (
        r matches Question::Assertion { id: i, response_json: j, choice: c } && i@ == id@ && j@
            == response_json@ && c@ == choice@),
        q matches Question::EnrollBegin { token } ==> (r matches Question::EnrollBegin { token: t }
            && t@ == token@),
        q matches Question::EnrollFinish { token, response_json } ==> (
        r matches Question::EnrollFinish { token: t, response_json: j } && t@ == token@ && j@
            == response_json@),
{
}

/// The relay tells a page of an envelope what the daemon said last: its ciphertext and expiry, and the
/// verdict, which after a cancellation is that it was cancelled.
pub proof fn pages_see_the_latest_verdict(s: RelayView, id: Seq<char>, verdict: Seq<char>)
    ensures
        s.envelopes.contains_key(id) ==> {
            &&& ciphertext_reply(received(s, DaemonMsgView::Verdict { id, verdict }).0, id) == (
            ReplyView {
                status: 200,
                body: BodyView::Envelope {
                    ciphertext_b64: s.envelopes[id].ciphertext_b64,
                    expires_unix: s.envelopes[id].expires_unix,
                    verdict: Some(verdict),
                },
            })
            &&& ciphertext_reply(received(s, DaemonMsgView::CancelEnvelope { id }).0, id) == (
            ReplyView {
                status: 200,
                body: BodyView::Envelope {
                    ciphertext_b64: s.envelopes[id].ciphertext_b64,
                    expires_unix: s.envelopes[id].expires_unix,
                    verdict: Some("cancelled"@),
                },
            })
        },
        !s.envelopes.contains_key(id) ==> {
            &&& received(s, DaemonMsgView::Verdict { id, verdict }).0 == s
            &&& received(s, DaemonMsgView::CancelEnvelope { id }).0 == s
            &&& ciphertext_reply(s, id) == (ReplyView {
                status: 404,
                body: BodyView::Failure { error: "unknown envelope"@ },
            })
        },
{
}

/// Word of an envelope leaves the questions as they are, and an answer leaves the envelopes and every
/// other question; no message changes the next number or the connection.
pub proof fn messages_touch_one_thing(s: RelayView, msg: DaemonMsgView, other: u64)
    ensures
        ({
            let (after, handed) = received(s, msg);
            &&& after.corr == s.corr && after.connected == s.connected
            &&& msg is Hello ==> after == s && handed is None
            &&& msg is CreateEnvelope || msg is CancelEnvelope || msg is Verdict ==> after.asked
                == s.asked && handed is None
            &&& msg matches DaemonMsgView::CeremonyOptions { corr, .. } ==> is_answered(
                s,
                after,
                handed,
                corr,
                other,
            )
            &&& msg matches DaemonMsgView::CeremonyResult { corr, .. } ==> is_answered(
                s,
                after,
                handed,
                corr,
                other,
            )
            &&& msg matches DaemonMsgView::EnrollOptions { corr, .. } ==> is_answered(
                s,
                after,
                handed,
                corr,
                other,
            )
            &&& msg matches DaemonMsgView::EnrollResult { corr, .. } ==> is_answered(
                s,
                after,
                handed,
                corr,
                other,
            )
        }),
{
}

/// A question that awaited its answer gets it and awaits it no longer; every other waits on.
pub open spec fn is_answered(
    s: RelayView,
    after: RelayView,
    handed: Option<u64>,
    corr: u64,
    other: u64,
) -> bool {
    &&& s.asked.contains(corr) ==> handed == Some(corr)
    &&& !s.asked.contains(corr) ==> handed is None
    &&& !after.asked.contains(corr)
    &&& other != corr ==> (after.asked.contains(other) <==> s.asked.contains(other))
    &&& after.envelopes == s.envelopes
}

/// A question's number is not the next one's.
pub proof fn numbers_move_on(corr: u64)
    ensures
        next_corr(corr) != corr,
        corr < u64::MAX ==> next_corr(corr) == corr + 1,
{
}

/// A page gets the daemon's options as they are, where they are JSON.
pub proof fn options_reach_the_page(id: Seq<char>, corr: u64, options_json: Seq<char>)
    ensures
        ({
            let page = choice_reply(
                Ok(DaemonMsgView::CeremonyOptions { id, corr, options_json }),
            );
            let enroll = enroll_begin_reply(
                Ok(DaemonMsgView::EnrollOptions { session: id, corr, options_json }),
            );
            &&& json_fault(options_json) is None ==> page == (ReplyView {
                status: 200,
                body: BodyView::Json(options_json),
            }) && enroll == page
            &&& json_fault(options_json) matches Some(cause) ==> page == (ReplyView {
                status: 502,
                body: BodyView::Failure { error: "bad daemon json: "@ + cause },
            }) && enroll == page
        }),
{
}

/// A page gets the daemon's outcome as it is. A refused choice is an error of the page; the outcome of
/// an assertion or an enrollment is told, whatever it is.
pub proof fn outcomes_reach_the_page(id: Seq<char>, corr: u64, ok: bool, message: Seq<char>)
    ensures
        ({
            let told = BodyView::Outcome { ok, message };
            let ceremony = Ok(DaemonMsgView::CeremonyResult { id, corr, ok, message });
            let enrolled = Ok(DaemonMsgView::EnrollResult { session: id, corr, ok, message });
            &&& choice_reply(ceremony).body == told
            &&& choice_reply(ceremony).status == if ok {
                200u16
            } else {
                400u16
            }
            &&& assertion_reply(ceremony) == (ReplyView { status: 200, body: told })
            &&& enroll_begin_reply(enrolled) == (ReplyView { status: 200, body: told })
            &&& enroll_finish_reply(enrolled) == (ReplyView { status: 200, body: told })
        }),
{
}

/// A page whose question was not answered is told why, and one whose question got an answer of another
/// kind that the daemon is at fault.
pub proof fn failures_reach_the_page(e: Seq<char>, msg: DaemonMsgView)
    ensures
        ({
            let told = ReplyView { status: 503, body: BodyView::Failure { error: e } };
            &&& choice_reply(Err(e)) == told
            &&& assertion_reply(Err(e)) == told
            &&& enroll_begin_reply(Err(e)) == told
            &&& enroll_finish_reply(Err(e)) == told
        }),
        ({
            let told = ReplyView {
                status: 502,
                body: BodyView::Failure { error: "unexpected daemon response"@ },
            };
            &&& !(msg is CeremonyOptions || msg is CeremonyResult) ==> choice_reply(Ok(msg)) == told
            &&& !(msg is CeremonyResult) ==> assertion_reply(Ok(msg)) == told
            &&& !(msg is EnrollOptions || msg is EnrollResult) ==> enroll_begin_reply(Ok(msg))
                == told
            &&& !(msg is EnrollResult) ==> enroll_finish_reply(Ok(msg)) == told
        }),
{
}

/// What follows the last `--listen` is listened on: one more of them, with its address, counts; one
/// without an address is refused; any other argument makes no difference.
pub proof fn the_last_address_counts(
    args: Seq<Seq<char>>,
    listen: Seq<char>,
    address: Seq<char>,
    other: Seq<char>,
)
    requires
        listen_in(args, listen) is Some,
    ensures
        listen_in(Seq::empty(), listen) == Some(listen),
        listen_in(args.push("--listen"@).push(address), listen) == Some(address),
        listen_in(args.push("--listen"@), listen) is None,
        other != "--listen"@ ==> listen_in(args.push(other), listen) == listen_in(args, listen),
    decreases args.len(),
{
    let flag = "--listen"@;
    let more = args.push(flag).push(address);
    if args.len() == 0 {
        assert(more.skip(2) =~= Seq::empty());
        assert(args.push(other).drop_first() =~= Seq::empty());
        assert(listen_in(more, listen) == listen_in(more.skip(2), more[1]));
        assert(listen_in(Seq::<Seq<char>>::empty(), address) == Some(address));
        assert(listen_in(Seq::<Seq<char>>::empty(), listen) == Some(listen));
        assert(args.push(other)[0] == other);
        assert(args =~= Seq::empty());
    } else if args[0] != flag {
        let rest = args.drop_first();
        the_last_address_counts(rest, listen, address, other);
        assert(more.drop_first() =~= rest.push(flag).push(address));
        assert(args.push(flag).drop_first() =~= rest.push(flag));
        assert(args.push(other).drop_first() =~= rest.push(other));
    } else {
        let rest = args.skip(2);
        the_last_address_counts(rest, args[1], address, other);
        assert(more.skip(2) =~= rest.push(flag).push(address));
        assert(args.push(flag).skip(2) =~= rest.push(flag));
        assert(args.push(other).skip(2) =~= rest.push(other));
    }
}

} // verus!
