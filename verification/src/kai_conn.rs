//! The decisions of one connection to KAI: which lines are updates to
//! broadcast, which answer the evaluation in flight, and when the connection
//! is over.  `R` is whatever the caller uses to answer the browser that asked.

use vstd::prelude::*;
use vstd::string::*;

use crate::protocol::{FrameView, ServerFrame};
use crate::sup::{spec_sup_frame, sup_frame_at};
use crate::text::{trim, trim_str};

pub use crate::sup::parse_sup;

verus! {

/// An evaluation request: the source text and where its answer goes.
pub struct PendingEval<R> {
    pub src: String,
    pub reply: R,
}

/// What happened on the connection, or on the queue of evaluation requests.
pub enum KaiEvent<R> {
    /// KAI sent a line.
    Line(String),
    /// KAI closed the connection.
    Eof,
    /// Reading from KAI failed; the text describes the error.
    ReadFailed(String),
    /// A browser asked for an evaluation.
    Eval(PendingEval<R>),
    /// The command line of the evaluation in flight was written to KAI.
    WriteDone,
    /// Writing the command line failed; the text describes the error.
    WriteFailed(String),
    /// No browser handler can send evaluation requests any more.
    EvalsClosed,
}

/// Why the connection is over.
pub enum EndReason {
    KaiClosed,
    ReadFailed(String),
    EvalsClosed,
    /// Writing a command failed with no evaluation in flight.
    WriteFailed(String),
}

/// What the connection has to do next.
pub enum KaiAction<R> {
    /// Nothing (a blank line, or a command written).
    Nothing,
    /// Send this update to every browser.
    Broadcast(ServerFrame),
    /// Answer the browser behind `R` with this frame.
    Deliver(R, ServerFrame),
    /// A line that answers nothing; it is only logged.
    Unsolicited(String),
    /// Write this command line to KAI, then report `WriteDone` or `WriteFailed`.
    Write(String),
    /// Answer the browser behind `R` with this error frame, then end the connection.
    Fail(R, ServerFrame),
    /// End the connection.
    End(EndReason),
}

/// The view of an [`EndReason`].
pub enum EndReasonView {
    KaiClosed,
    ReadFailed(Seq<char>),
    EvalsClosed,
    WriteFailed(Seq<char>),
}

/// The view of a [`KaiAction`].
pub enum KaiActionView<R> {
    Nothing,
    Broadcast(FrameView),
    Deliver(R, FrameView),
    Unsolicited(Seq<char>),
    Write(Seq<char>),
    Fail(R, FrameView),
    End(EndReasonView),
}

impl View for EndReason {
    type V = EndReasonView;

    open spec fn view(&self) -> EndReasonView {
        match self {
            EndReason::KaiClosed => EndReasonView::KaiClosed,
            EndReason::ReadFailed(e) => EndReasonView::ReadFailed(e@),
            EndReason::EvalsClosed => EndReasonView::EvalsClosed,
            EndReason::WriteFailed(e) => EndReasonView::WriteFailed(e@),
        }
    }
}

impl<R> View for KaiAction<R> {
    type V = KaiActionView<R>;

    open spec fn view(&self) -> KaiActionView<R> {
        match self {
            KaiAction::Nothing => KaiActionView::Nothing,
            KaiAction::Broadcast(f) => KaiActionView::Broadcast(f@),
            KaiAction::Deliver(r, f) => KaiActionView::Deliver(*r, f@),
            KaiAction::Unsolicited(l) => KaiActionView::Unsolicited(l@),
            KaiAction::Write(c) => KaiActionView::Write(c@),
            KaiAction::Fail(r, f) => KaiActionView::Fail(*r, f@),
            KaiAction::End(e) => KaiActionView::End(e@),
        }
    }
}

/// The view of an evaluation request: its source text and its answer channel.
pub open spec fn eval_view<R>(p: PendingEval<R>) -> (Seq<char>, R) {
    (p.src@, p.reply)
}

/// The view of an optional evaluation request.
pub open spec fn opt_eval_view<R>(p: Option<PendingEval<R>>) -> Option<(Seq<char>, R)> {
    match p {
        Some(p) => Some(eval_view(p)),
        None => None,
    }
}

/// The view of a [`KaiEvent`].
pub enum KaiEventView<R> {
    Line(Seq<char>),
    Eof,
    ReadFailed(Seq<char>),
    Eval(Seq<char>, R),
    WriteDone,
    WriteFailed(Seq<char>),
    EvalsClosed,
}

impl<R> View for KaiEvent<R> {
    type V = KaiEventView<R>;

    open spec fn view(&self) -> KaiEventView<R> {
        match self {
            KaiEvent::Line(l) => KaiEventView::Line(l@),
            KaiEvent::Eof => KaiEventView::Eof,
            KaiEvent::ReadFailed(e) => KaiEventView::ReadFailed(e@),
            KaiEvent::Eval(p) => KaiEventView::Eval(p.src@, p.reply),
            KaiEvent::WriteDone => KaiEventView::WriteDone,
            KaiEvent::WriteFailed(e) => KaiEventView::WriteFailed(e@),
            KaiEvent::EvalsClosed => KaiEventView::EvalsClosed,
        }
    }
}

/// The state of a connection: the evaluation whose command is being written,
/// and the evaluation whose answer KAI owes (one at a time: KAI answers each
/// command in turn).
pub struct KaiSession<R> {
    pub writing: Option<PendingEval<R>>,
    pub pending: Option<PendingEval<R>>,
}

/// The view of a [`KaiSession`].
pub struct KaiSessionView<R> {
    pub writing: Option<(Seq<char>, R)>,
    pub pending: Option<(Seq<char>, R)>,
}

impl<R> View for KaiSession<R> {
    type V = KaiSessionView<R>;

    open spec fn view(&self) -> KaiSessionView<R> {
        KaiSessionView { writing: opt_eval_view(self.writing), pending: opt_eval_view(self.pending) }
    }
}

/// The text of the error frame sent when a command cannot be written.
pub open spec fn write_error_msg(err: Seq<char>) -> Seq<char> {
    "KAI write error: "@ + err
}

/// The line written to KAI for an evaluation: its source and a newline.
pub open spec fn command_of(src: Seq<char>) -> Seq<char> {
    src.push('\n')
}

/// What a line from KAI does, given the evaluation owed and the time `ts`:
/// blank lines do nothing; update lines are broadcast and leave the owed
/// evaluation alone; any other line answers the owed evaluation, or, with
/// none owed, is unsolicited.  Lines are taken with surrounding whitespace
/// removed.
pub open spec fn spec_on_line<R>(
    s: KaiSessionView<R>,
    line: Seq<char>,
    ts: u64,
) -> (KaiSessionView<R>, KaiActionView<R>) {
    let t = trim(line);
    if t.len() == 0 {
        (s, KaiActionView::Nothing)
    } else {
        match spec_sup_frame(t, ts) {
            Some(f) => (s, KaiActionView::Broadcast(f)),
            None => match s.pending {
                Some((src, reply)) => (
                    KaiSessionView { writing: s.writing, pending: None },
                    KaiActionView::Deliver(reply, FrameView::Result { src, output: t, ts }),
                ),
                None => (s, KaiActionView::Unsolicited(t)),
            },
        }
    }
}

/// The next state and action of a connection for an event at time `ts`.
pub open spec fn spec_kai_step<R>(
    s: KaiSessionView<R>,
    e: KaiEventView<R>,
    ts: u64,
) -> (KaiSessionView<R>, KaiActionView<R>) {
    match e {
        KaiEventView::Line(line) => spec_on_line(s, line, ts),
        KaiEventView::Eof => (s, KaiActionView::End(EndReasonView::KaiClosed)),
        KaiEventView::ReadFailed(err) => (s, KaiActionView::End(EndReasonView::ReadFailed(err))),
        KaiEventView::Eval(src, reply) => (
            KaiSessionView { writing: Some((src, reply)), pending: s.pending },
            KaiActionView::Write(command_of(src)),
        ),
        KaiEventView::WriteDone => match s.writing {
            Some(w) => (KaiSessionView { writing: None, pending: Some(w) }, KaiActionView::Nothing),
            None => (s, KaiActionView::Nothing),
        },
        KaiEventView::WriteFailed(err) => match s.writing {
            Some((_src, reply)) => (
                KaiSessionView { writing: None, pending: s.pending },
                KaiActionView::Fail(reply, FrameView::Error { msg: write_error_msg(err), ts }),
            ),
            None => (s, KaiActionView::End(EndReasonView::WriteFailed(err))),
        },
        KaiEventView::EvalsClosed => (s, KaiActionView::End(EndReasonView::EvalsClosed)),
    }
}

/// The command line for an evaluation of `src`.
pub fn command_line(src: &str) -> (cmd: String)
    ensures
        cmd@ == command_of(src@),
        cmd@.len() == src@.len() + 1,
        cmd@.take(src@.len() as int) == src@,
        cmd@.last() == '\n',
{
    let cmd = String::from_str(src).concat("\n");
    proof {
        reveal_strlit("\n");
        assert(cmd@ =~= command_of(src@));
        assert(cmd@.take(src@.len() as int) =~= src@);
    }
    cmd
}

impl<R> KaiSession<R> {
    /// A fresh connection: nothing written, nothing owed.
    pub fn new() -> (s: KaiSession<R>)
        ensures
            s@.writing is None,
            s@.pending is None,
    {
        KaiSession { writing: None, pending: None }
    }

    fn on_line(&mut self, line: &str, ts: u64) -> (action: KaiAction<R>)
        ensures
            (final(self)@, action@) == spec_on_line(old(self)@, line@, ts),
    {
        let t = trim_str(line);
        if t.is_empty() {
            return KaiAction::Nothing;
        }
        assert(t@.len() != 0);
        match sup_frame_at(t, ts) {
            Some(f) => KaiAction::Broadcast(f),
            None => match self.pending.take() {
                Some(p) => {
                    let output = t.to_owned();
                    KaiAction::Deliver(p.reply, ServerFrame::Result { src: p.src, output, ts })
                },
                None => KaiAction::Unsolicited(t.to_owned()),
            },
        }
    }

    /// Applies an event at time `ts` (see [`spec_kai_step`]).
    pub fn step(&mut self, event: KaiEvent<R>, ts: u64) -> (action: KaiAction<R>)
        ensures
            (final(self)@, action@) == spec_kai_step(old(self)@, event@, ts),
    {
        match event {
            KaiEvent::Line(line) => self.on_line(line.as_str(), ts),
            KaiEvent::Eof => KaiAction::End(EndReason::KaiClosed),
            KaiEvent::ReadFailed(err) => KaiAction::End(EndReason::ReadFailed(err)),
            KaiEvent::Eval(p) => {
                let cmd = command_line(p.src.as_str());
                self.writing = Some(p);
                KaiAction::Write(cmd)
            },
            KaiEvent::WriteDone => {
                match self.writing.take() {
                    Some(w) => {
                        self.pending = Some(w);
                    },
                    None => {},
                }
                KaiAction::Nothing
            },
            KaiEvent::WriteFailed(err) => match self.writing.take() {
                Some(w) => {
                    let msg = String::from_str("KAI write error: ").concat(err.as_str());
                    proof {
                        reveal_strlit("KAI write error: ");
                    }
                    KaiAction::Fail(w.reply, ServerFrame::Error { msg, ts })
                },
                None => KaiAction::End(EndReason::WriteFailed(err)),
            },
            KaiEvent::EvalsClosed => KaiAction::End(EndReason::EvalsClosed),
        }
    }
}


/// An update line is broadcast, whatever is in flight or owed, and leaves the
/// connection's state as it was: it never answers an evaluation.
pub proof fn lemma_update_lines_are_broadcast<R>(s: KaiSessionView<R>, line: Seq<char>, ts: u64)
    requires
        spec_sup_frame(trim(line), ts) is Some,
    ensures
        spec_kai_step(s, KaiEventView::Line(line), ts) == (
            s,
            KaiActionView::<R>::Broadcast(spec_sup_frame(trim(line), ts).unwrap()),
        ),
{
    let t = trim(line);
    assert(t.len() >= 4);
}

/// A blank line changes nothing and asks for nothing.
pub proof fn lemma_blank_lines_are_ignored<R>(s: KaiSessionView<R>, line: Seq<char>, ts: u64)
    requires
        trim(line).len() == 0,
    ensures
        spec_kai_step(s, KaiEventView::Line(line), ts) == (s, KaiActionView::<R>::Nothing),
{
}

/// The answer to an evaluation reaches the browser that asked for it: once
/// its command is written, the next line that is neither blank nor an update
/// is delivered to that browser, as a result frame carrying the evaluation's
/// source and the line, and nothing is owed any more.
pub proof fn lemma_answer_reaches_requester<R>(
    s: KaiSessionView<R>,
    src: Seq<char>,
    reply: R,
    line: Seq<char>,
    t1: u64,
    t2: u64,
    t3: u64,
)
    requires
        trim(line).len() != 0,
        spec_sup_frame(trim(line), t3) is None,
    ensures
        ({
            let s1 = spec_kai_step(s, KaiEventView::Eval(src, reply), t1).0;
            let s2 = spec_kai_step(s1, KaiEventView::WriteDone, t2).0;
            let (s3, a) = spec_kai_step(s2, KaiEventView::Line(line), t3);
            &&& spec_kai_step(s, KaiEventView::Eval(src, reply), t1).1 == KaiActionView::<R>::Write(command_of(src))
            &&& a == KaiActionView::Deliver(
                reply,
                FrameView::Result { src, output: trim(line), ts: t3 },
            )
            &&& s3.pending is None
            &&& s3.writing is None
        }),
{
}


/// Evaluations asked one after the other are answered each to its own
/// browser: the first answer line goes to the first requester, the second to
/// the second.
pub proof fn lemma_sequential_answers<R>(
    s: KaiSessionView<R>,
    src1: Seq<char>,
    reply1: R,
    line1: Seq<char>,
    src2: Seq<char>,
    reply2: R,
    line2: Seq<char>,
    ts: u64,
)
    requires
        trim(line1).len() != 0,
        spec_sup_frame(trim(line1), ts) is None,
        trim(line2).len() != 0,
        spec_sup_frame(trim(line2), ts) is None,
    ensures
        ({
            let s1 = spec_kai_step(s, KaiEventView::Eval(src1, reply1), ts).0;
            let s2 = spec_kai_step(s1, KaiEventView::WriteDone, ts).0;
            let (s3, a1) = spec_kai_step(s2, KaiEventView::Line(line1), ts);
            let s4 = spec_kai_step(s3, KaiEventView::Eval(src2, reply2), ts).0;
            let s5 = spec_kai_step(s4, KaiEventView::WriteDone, ts).0;
            let (s6, a2) = spec_kai_step(s5, KaiEventView::Line(line2), ts);
            &&& a1 == KaiActionView::Deliver(
                reply1,
                FrameView::Result { src: src1, output: trim(line1), ts },
            )
            &&& a2 == KaiActionView::Deliver(
                reply2,
                FrameView::Result { src: src2, output: trim(line2), ts },
            )
            &&& s6.pending is None
        }),
{
    lemma_answer_reaches_requester(s, src1, reply1, line1, ts, ts, ts);
    let s1 = spec_kai_step(s, KaiEventView::Eval(src1, reply1), ts).0;
    let s2 = spec_kai_step(s1, KaiEventView::WriteDone, ts).0;
    let s3 = spec_kai_step(s2, KaiEventView::Line(line1), ts).0;
    lemma_answer_reaches_requester(s3, src2, reply2, line2, ts, ts, ts);
}

/// A command that cannot be written is answered, to the browser that asked,
/// with an error frame naming the failure, and the connection ends.
pub proof fn lemma_write_failure_answers_requester<R>(
    s: KaiSessionView<R>,
    src: Seq<char>,
    reply: R,
    err: Seq<char>,
    t1: u64,
    t2: u64,
)
    ensures
        ({
            let s1 = spec_kai_step(s, KaiEventView::Eval(src, reply), t1).0;
            spec_kai_step(s1, KaiEventView::WriteFailed(err), t2).1 == KaiActionView::Fail(
                reply,
                FrameView::Error { msg: write_error_msg(err), ts: t2 },
            )
        }),
{
}

/// With no evaluation owed, a line that is neither blank nor an update is
/// delivered to nobody and changes nothing.
pub proof fn lemma_unsolicited_lines_reach_nobody<R>(s: KaiSessionView<R>, line: Seq<char>, ts: u64)
    requires
        s.pending is None,
        trim(line).len() != 0,
        spec_sup_frame(trim(line), ts) is None,
    ensures
        spec_kai_step(s, KaiEventView::Line(line), ts) == (s, KaiActionView::<R>::Unsolicited(trim(line))),
{
}


/// The state and the actions of a connection after a run of events, the
/// event at position `i` arriving at time `ts[i]`.
pub open spec fn kai_run<R>(
    s: KaiSessionView<R>,
    events: Seq<KaiEventView<R>>,
    ts: Seq<u64>,
) -> (KaiSessionView<R>, Seq<KaiActionView<R>>)
    decreases events.len(),
{
    if events.len() == 0 {
        (s, Seq::empty())
    } else {
        let (s1, acts) = kai_run(s, events.drop_last(), ts);
        let (s2, a) = spec_kai_step(s1, events.last(), ts[events.len() - 1]);
        (s2, acts.push(a))
    }
}

/// The browser an action answers, if it answers one.
pub open spec fn addressee<R>(a: KaiActionView<R>) -> Option<R> {
    match a {
        KaiActionView::Deliver(r, _) => Some(r),
        KaiActionView::Fail(r, _) => Some(r),
        _ => None,
    }
}

/// The answer channel of an evaluation request event.
pub open spec fn requester<R>(e: KaiEventView<R>) -> Option<R> {
    match e {
        KaiEventView::Eval(_, r) => Some(r),
        _ => None,
    }
}

/// Evaluation requests in `events` come with answer channels that differ.
pub open spec fn distinct_requesters<R>(events: Seq<KaiEventView<R>>) -> bool {
    forall|i: int, j: int|
        0 <= i < j < events.len() && #[trigger] requester(events[i]) is Some
            && #[trigger] requester(events[j]) is Some ==> requester(events[i]) != requester(
            events[j],
        )
}

/// What an action owes its addressee: a result for an evaluation asked
/// earlier in the run, with that evaluation's source, or the error frame for
/// the write failure that the action answers.
pub open spec fn answer_is_sound<R>(
    events: Seq<KaiEventView<R>>,
    ts: Seq<u64>,
    acts: Seq<KaiActionView<R>>,
    i: int,
) -> bool {
    match acts[i] {
        KaiActionView::Deliver(r, f) => exists|k: int|
            0 <= k <= i && #[trigger] events[k] == KaiEventView::Eval(f->Result_src, r)
                && f is Result,
        KaiActionView::Fail(r, f) => {
            &&& exists|k: int|
                0 <= k < i && #[trigger] events[k] == KaiEventView::Eval(k_src(events[k]), r)
            &&& events[i] matches KaiEventView::WriteFailed(err)
            &&& f == (FrameView::Error { msg: write_error_msg(events[i]->WriteFailed_0), ts: ts[i] })
        },
        _ => true,
    }
}

/// The source text of an evaluation request event.
pub open spec fn k_src<R>(e: KaiEventView<R>) -> Seq<char> {
    match e {
        KaiEventView::Eval(src, _) => src,
        _ => Seq::empty(),
    }
}

proof fn lemma_kai_run_invariant<R>(s: KaiSessionView<R>, events: Seq<KaiEventView<R>>, ts: Seq<u64>)
    requires
        s.writing is None,
        s.pending is None,
        ts.len() >= events.len(),
        distinct_requesters(events),
    ensures
        ({
            let (fin, acts) = kai_run(s, events, ts);
            &&& acts.len() == events.len()
            &&& fin.writing matches Some(w) ==> exists|k: int|
                0 <= k < events.len() && #[trigger] events[k] == KaiEventView::Eval(w.0, w.1)
            &&& fin.pending matches Some(p) ==> exists|k: int|
                0 <= k < events.len() && #[trigger] events[k] == KaiEventView::Eval(p.0, p.1)
            &&& (fin.writing is Some && fin.pending is Some) ==> fin.writing.unwrap().1
                != fin.pending.unwrap().1
            &&& forall|i: int|
                0 <= i < acts.len() && #[trigger] addressee(acts[i]) is Some ==> {
                    &&& (fin.writing matches Some(w) ==> addressee(acts[i]) != Some(w.1))
                    &&& (fin.pending matches Some(p) ==> addressee(acts[i]) != Some(p.1))
                }
            &&& forall|i: int, j: int|
                0 <= i < j < acts.len() && #[trigger] addressee(acts[i]) is Some
                    ==> addressee(acts[i]) != #[trigger] addressee(acts[j])
            &&& forall|i: int| 0 <= i < acts.len() ==> #[trigger] answer_is_sound(events, ts, acts, i)
        }),
    decreases events.len(),
{
    if events.len() > 0 {
        let n = events.len() - 1;
        let prefix = events.drop_last();
        assert forall|i: int, j: int|
            0 <= i < j < prefix.len() && #[trigger] requester(prefix[i]) is Some
                && #[trigger] requester(prefix[j]) is Some implies requester(prefix[i]) != requester(
            prefix[j],
        ) by {
            assert(prefix[i] == events[i] && prefix[j] == events[j]);
        }
        lemma_kai_run_invariant(s, prefix, ts);
        let (s1, acts1) = kai_run(s, prefix, ts);
        let e = events[n];
        let t = ts[n];
        let (s2, a) = spec_kai_step(s1, e, t);
        let acts = acts1.push(a);
        assert(kai_run(s, events, ts) == (s2, acts));
        assert forall|k: int| 0 <= k < n implies #[trigger] events[k] == prefix[k] by {}
        // Every channel the old state holds comes from an earlier request, so
        // it differs from the channel of the new event, if it is a request.
        if let Some(w) = s1.writing {
            let k = choose|k: int| 0 <= k < prefix.len() && #[trigger] prefix[k] == KaiEventView::Eval(w.0, w.1);
            assert(events[k] == prefix[k]);
            assert(requester(events[k]) == Some(w.1));
            if requester(e) is Some {
                assert(requester(events[k]) != requester(events[n]));
            }
        }
        if let Some(p) = s1.pending {
            let k = choose|k: int| 0 <= k < prefix.len() && #[trigger] prefix[k] == KaiEventView::Eval(p.0, p.1);
            assert(events[k] == prefix[k]);
            assert(requester(events[k]) == Some(p.1));
            if requester(e) is Some {
                assert(requester(events[k]) != requester(events[n]));
            }
        }
        // Every channel answered earlier comes from an earlier request too.
        assert forall|i: int| 0 <= i < acts1.len() && #[trigger] addressee(acts1[i]) is Some && requester(e) is Some
            implies addressee(acts1[i]) != requester(e) by {
            assert(answer_is_sound(prefix, ts, acts1, i));
            match acts1[i] {
                KaiActionView::Deliver(r, f) => {
                    let k = choose|k: int| 0 <= k <= i && #[trigger] prefix[k] == KaiEventView::Eval(f->Result_src, r) && f is Result;
                    assert(events[k] == prefix[k]);
                    assert(requester(events[k]) != requester(events[n]));
                },
                KaiActionView::Fail(r, f) => {
                    let k = choose|k: int| 0 <= k < i && #[trigger] prefix[k] == KaiEventView::Eval(k_src(prefix[k]), r);
                    assert(events[k] == prefix[k]);
                    assert(requester(events[k]) != requester(events[n]));
                },
                _ => {},
            }
        }
        assert forall|i: int| 0 <= i < acts.len() implies #[trigger] answer_is_sound(events, ts, acts, i) by {
            if i < n {
                assert(acts[i] == acts1[i]);
                assert(answer_is_sound(prefix, ts, acts1, i));
                match acts1[i] {
                    KaiActionView::Deliver(r, f) => {
                        let k = choose|k: int| 0 <= k <= i && #[trigger] prefix[k] == KaiEventView::Eval(f->Result_src, r) && f is Result;
                        assert(events[k] == prefix[k]);
                    },
                    KaiActionView::Fail(r, f) => {
                        let k = choose|k: int| 0 <= k < i && #[trigger] prefix[k] == KaiEventView::Eval(k_src(prefix[k]), r);
                        assert(events[k] == prefix[k]);
                        assert(events[i] == prefix[i]);
                    },
                    _ => {},
                }
            } else {
                assert(acts[i] == a);
                match a {
                    KaiActionView::Deliver(r, f) => {
                        let p = s1.pending.unwrap();
                        let k = choose|k: int| 0 <= k < prefix.len() && #[trigger] prefix[k] == KaiEventView::Eval(p.0, p.1);
                        assert(events[k] == prefix[k]);
                    },
                    KaiActionView::Fail(r, f) => {
                        let w = s1.writing.unwrap();
                        let k = choose|k: int| 0 <= k < prefix.len() && #[trigger] prefix[k] == KaiEventView::Eval(w.0, w.1);
                        assert(events[k] == prefix[k]);
                        assert(k_src(events[k]) == w.0);
                    },
                    _ => {},
                }
            }
        }
        assert forall|i: int, j: int|
            0 <= i < j < acts.len() && #[trigger] addressee(acts[i]) is Some
                implies addressee(acts[i]) != #[trigger] addressee(acts[j]) by {
            assert(acts[i] == acts1[i]);
            if j < n {
                assert(acts[j] == acts1[j]);
            }
        }
        assert forall|i: int|
            0 <= i < acts.len() && #[trigger] addressee(acts[i]) is Some implies {
                &&& (s2.writing matches Some(w) ==> addressee(acts[i]) != Some(w.1))
                &&& (s2.pending matches Some(p) ==> addressee(acts[i]) != Some(p.1))
            } by {
            if i < n {
                assert(acts[i] == acts1[i]);
            }
        }
        if let Some(w) = s2.writing {
            if e is Eval {
                assert(events[n] == KaiEventView::Eval(w.0, w.1));
            } else {
                let k = choose|k: int| 0 <= k < prefix.len() && #[trigger] prefix[k] == KaiEventView::Eval(w.0, w.1);
                assert(events[k] == prefix[k]);
            }
        }
        if let Some(p) = s2.pending {
            let k = choose|k: int| 0 <= k < prefix.len() && #[trigger] prefix[k] == KaiEventView::Eval(p.0, p.1);
            assert(events[k] == prefix[k]);
        }
    }
}

/// Over any run of a fresh connection in which each evaluation request comes
/// with its own answer channel, every channel is answered at most once; an
/// answer is either a result frame carrying the source of an evaluation that
/// the channel's browser asked for earlier, or the error frame for the
/// failure to write that evaluation's command.  No answer channel ever gets
/// an update or a tree frame.
pub proof fn lemma_each_request_answered_at_most_once<R>(
    s: KaiSessionView<R>,
    events: Seq<KaiEventView<R>>,
    ts: Seq<u64>,
)
    requires
        s.writing is None,
        s.pending is None,
        ts.len() == events.len(),
        distinct_requesters(events),
    ensures
        ({
            let acts = kai_run(s, events, ts).1;
            &&& acts.len() == events.len()
            &&& forall|i: int, j: int|
                0 <= i < j < acts.len() && #[trigger] addressee(acts[i]) is Some
                    ==> addressee(acts[i]) != #[trigger] addressee(acts[j])
            &&& forall|i: int| 0 <= i < acts.len() ==> #[trigger] answer_is_sound(events, ts, acts, i)
        }),
{
    lemma_kai_run_invariant(s, events, ts);
}


/// The end of KAI's stream ends the connection, whatever is in flight or
/// owed: closing gives `End(KaiClosed)` and a failed read `End(ReadFailed)`
/// with its error text, and neither changes the state; likewise when no
/// browser handler can send requests any more.
pub proof fn lemma_stream_end_ends_connection<R>(s: KaiSessionView<R>, err: Seq<char>, ts: u64)
    ensures
        spec_kai_step(s, KaiEventView::Eof, ts) == (s, KaiActionView::<R>::End(EndReasonView::KaiClosed)),
        spec_kai_step(s, KaiEventView::ReadFailed(err), ts) == (
            s,
            KaiActionView::<R>::End(EndReasonView::ReadFailed(err)),
        ),
        spec_kai_step(s, KaiEventView::EvalsClosed, ts) == (
            s,
            KaiActionView::<R>::End(EndReasonView::EvalsClosed),
        ),
{
}

/// A request is forwarded to KAI as exactly its source followed by one
/// newline, in every state, and becomes the request in flight; what is owed
/// stays owed.
pub proof fn lemma_request_written_whole<R>(s: KaiSessionView<R>, src: Seq<char>, reply: R, ts: u64)
    ensures
        ({
            let (s1, a) = spec_kai_step(s, KaiEventView::Eval(src, reply), ts);
            &&& a is Write
            &&& a->Write_0.len() == src.len() + 1
            &&& a->Write_0.take(src.len() as int) == src
            &&& a->Write_0[src.len() as int] == '\n'
            &&& s1.writing == Some((src, reply))
            &&& s1.pending == s.pending
        }),
{
    let c = command_of(src);
    assert(c.take(src.len() as int) =~= src);
}

/// Once its command is written, the request in flight becomes the one owed,
/// in every state.
pub proof fn lemma_write_done_makes_request_owed<R>(s: KaiSessionView<R>, src: Seq<char>, reply: R, ts: u64)
    requires
        s.writing == Some((src, reply)),
    ensures
        spec_kai_step(s, KaiEventView::WriteDone, ts) == (
            KaiSessionView { writing: None, pending: Some((src, reply)) },
            KaiActionView::<R>::Nothing,
        ),
{
}

/// The error frame for a failed write reads `"KAI write error: "` followed by
/// the error text.
pub proof fn lemma_write_error_text(err: Seq<char>)
    ensures
        write_error_msg(err).len() == 17 + err.len(),
        write_error_msg(err).take(17) == "KAI write error: "@,
        write_error_msg(err).skip(17) == err,
{
    reveal_strlit("KAI write error: ");
    assert(write_error_msg(err).take(17) =~= "KAI write error: "@);
    assert(write_error_msg(err).skip(17) =~= err);
}

} // verus!
