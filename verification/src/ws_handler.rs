//! The decisions of one browser connection: what each message from the
//! browser, each answer to one of its evaluations and each broadcast update
//! turns into.

use vstd::prelude::*;
use vstd::string::*;

use crate::protocol::{BrowserFrame, BrowserFrameView, FrameView, Lang, ServerFrame};

verus! {

/// Why a broadcast update was not received.
pub enum UpdateLoss {
    /// This connection fell behind and this many updates were dropped.
    Lagged(u64),
    /// The update channel is closed.
    Closed,
}

/// What happened on a browser connection.
pub enum ClientEvent {
    /// A text message, decoded into a frame, or the decoder's error text.
    Text(Result<BrowserFrame, String>),
    /// The browser closed the connection, or the stream ended.
    Closed,
    /// A ping, pong or binary message.
    Other,
    /// Reading from the browser failed; the text describes the error.
    StreamError(String),
    /// The answer channel of this connection yielded (or had nothing).
    Reply(Option<ServerFrame>),
    /// The update channel yielded.
    Update(Result<ServerFrame, UpdateLoss>),
}

/// What the connection has to do next.
pub enum ClientAction {
    /// Send this frame to the browser.
    Send(ServerFrame),
    /// Ask KAI to evaluate this source, answering on this connection.
    Submit(String),
    /// Nothing.
    Nothing,
    /// Note that this many updates were dropped, and go on.
    Lagged(u64),
    /// End the connection.
    Disconnect,
}

/// The view of an [`UpdateLoss`].
pub enum UpdateLossView {
    Lagged(u64),
    Closed,
}

/// The view of a [`ClientEvent`].
pub enum ClientEventView {
    Text(Result<BrowserFrameView, Seq<char>>),
    Closed,
    Other,
    StreamError(Seq<char>),
    Reply(Option<FrameView>),
    Update(Result<FrameView, UpdateLossView>),
}

/// The view of a [`ClientAction`].
pub enum ClientActionView {
    Send(FrameView),
    Submit(Seq<char>),
    Nothing,
    Lagged(u64),
    Disconnect,
}

impl View for UpdateLoss {
    type V = UpdateLossView;

    open spec fn view(&self) -> UpdateLossView {
        match self {
            UpdateLoss::Lagged(n) => UpdateLossView::Lagged(*n),
            UpdateLoss::Closed => UpdateLossView::Closed,
        }
    }
}

impl View for ClientEvent {
    type V = ClientEventView;

    open spec fn view(&self) -> ClientEventView {
        match self {
            ClientEvent::Text(Ok(f)) => ClientEventView::Text(Ok(f@)),
            ClientEvent::Text(Err(e)) => ClientEventView::Text(Err(e@)),
            ClientEvent::Closed => ClientEventView::Closed,
            ClientEvent::Other => ClientEventView::Other,
            ClientEvent::StreamError(e) => ClientEventView::StreamError(e@),
            ClientEvent::Reply(Some(f)) => ClientEventView::Reply(Some(f@)),
            ClientEvent::Reply(None) => ClientEventView::Reply(None),
            ClientEvent::Update(Ok(f)) => ClientEventView::Update(Ok(f@)),
            ClientEvent::Update(Err(l)) => ClientEventView::Update(Err(l@)),
        }
    }
}

impl View for ClientAction {
    type V = ClientActionView;

    open spec fn view(&self) -> ClientActionView {
        match self {
            ClientAction::Send(f) => ClientActionView::Send(f@),
            ClientAction::Submit(s) => ClientActionView::Submit(s@),
            ClientAction::Nothing => ClientActionView::Nothing,
            ClientAction::Lagged(n) => ClientActionView::Lagged(*n),
            ClientAction::Disconnect => ClientActionView::Disconnect,
        }
    }
}

/// The text of the error frame that answers a frame that does not decode.
pub open spec fn bad_frame_msg(err: Seq<char>) -> Seq<char> {
    "Bad frame: "@ + err
}

/// What an event on a browser connection at time `ts` turns into: an
/// evaluation request is submitted with its source (its language is not
/// used); an undecodable frame is answered with an error frame; answers and
/// updates are forwarded as they are; a lag is noted; the connection ends
/// when the browser closes it, when reading fails, or when the update channel
/// closes.
pub open spec fn spec_client_step(e: ClientEventView, ts: u64) -> ClientActionView {
    match e {
        ClientEventView::Text(Ok(BrowserFrameView::Eval { src, lang: _ })) => ClientActionView::Submit(src),
        ClientEventView::Text(Err(err)) => ClientActionView::Send(
            FrameView::Error { msg: bad_frame_msg(err), ts },
        ),
        ClientEventView::Closed => ClientActionView::Disconnect,
        ClientEventView::Other => ClientActionView::Nothing,
        ClientEventView::StreamError(_) => ClientActionView::Disconnect,
        ClientEventView::Reply(Some(f)) => ClientActionView::Send(f),
        ClientEventView::Reply(None) => ClientActionView::Nothing,
        ClientEventView::Update(Ok(f)) => ClientActionView::Send(f),
        ClientEventView::Update(Err(UpdateLossView::Lagged(n))) => ClientActionView::Lagged(n),
        ClientEventView::Update(Err(UpdateLossView::Closed)) => ClientActionView::Disconnect,
    }
}

/// The action for an event on a browser connection at time `ts` (see
/// [`spec_client_step`]).
pub fn client_step(event: ClientEvent, ts: u64) -> (action: ClientAction)
    ensures
        action@ == spec_client_step(event@, ts),
{
    match event {
        ClientEvent::Text(Ok(BrowserFrame::Eval { src, lang: _ })) => ClientAction::Submit(src),
        ClientEvent::Text(Err(err)) => {
            let msg = String::from_str("Bad frame: ").concat(err.as_str());
            proof {
                reveal_strlit("Bad frame: ");
            }
            ClientAction::Send(ServerFrame::Error { msg, ts })
        },
        ClientEvent::Closed => ClientAction::Disconnect,
        ClientEvent::Other => ClientAction::Nothing,
        ClientEvent::StreamError(_) => ClientAction::Disconnect,
        ClientEvent::Reply(Some(f)) => ClientAction::Send(f),
        ClientEvent::Reply(None) => ClientAction::Nothing,
        ClientEvent::Update(Ok(f)) => ClientAction::Send(f),
        ClientEvent::Update(Err(UpdateLoss::Lagged(n))) => ClientAction::Lagged(n),
        ClientEvent::Update(Err(UpdateLoss::Closed)) => ClientAction::Disconnect,
    }
}

/// A browser connection ends on exactly three events: the browser closes it,
/// reading from it fails, or the update channel closes.  In particular a
/// frame that does not decode never ends it: it is answered with an error
/// frame.
pub proof fn lemma_client_ends_only_on_close(e: ClientEventView, ts: u64)
    ensures
        (spec_client_step(e, ts) is Disconnect) <==> (e is Closed || e is StreamError || e
            == ClientEventView::Update(Err(UpdateLossView::Closed))),
        e matches ClientEventView::Text(Err(err)) ==> spec_client_step(e, ts) == ClientActionView::Send(
            FrameView::Error { msg: bad_frame_msg(err), ts },
        ),
{
}

/// Every decoded evaluation frame is submitted with its source unchanged,
/// whatever its language, including none.
pub proof fn lemma_eval_frames_are_submitted(src: Seq<char>, lang: Option<Lang>, ts: u64)
    ensures
        spec_client_step(
            ClientEventView::Text(Ok(BrowserFrameView::Eval { src, lang })),
            ts,
        ) == ClientActionView::Submit(src),
{
}

/// Answers and updates are forwarded to the browser as they came, a lag is
/// noted with its count, and other messages (ping, pong, binary) and an empty
/// answer channel do nothing.
pub proof fn lemma_client_forwards(f: FrameView, n: u64, ts: u64)
    ensures
        spec_client_step(ClientEventView::Reply(Some(f)), ts) == ClientActionView::Send(f),
        spec_client_step(ClientEventView::Update(Ok(f)), ts) == ClientActionView::Send(f),
        spec_client_step(ClientEventView::Update(Err(UpdateLossView::Lagged(n))), ts)
            == ClientActionView::Lagged(n),
        spec_client_step(ClientEventView::Other, ts) == ClientActionView::Nothing,
        spec_client_step(ClientEventView::Reply(None), ts) == ClientActionView::Nothing,
{
}

/// An undecodable frame is answered with an error frame stamped `ts` whose
/// text is `"Bad frame: "` followed by the decoder's error text.
pub proof fn lemma_bad_frame_answer(err: Seq<char>, ts: u64)
    ensures
        spec_client_step(ClientEventView::Text(Err(err)), ts) matches ClientActionView::Send(
            FrameView::Error { msg, ts: t },
        ) && t == ts && msg.len() == 11 + err.len() && msg.take(11) == "Bad frame: "@ && msg.skip(11)
            == err,
{
    reveal_strlit("Bad frame: ");
    assert(bad_frame_msg(err).take(11) =~= "Bad frame: "@);
    assert(bad_frame_msg(err).skip(11) =~= err);
}

/// The frames an action sends to the browser.
pub open spec fn frames_sent(a: ClientActionView) -> Seq<FrameView> {
    match a {
        ClientActionView::Send(f) => seq![f],
        _ => Seq::empty(),
    }
}

/// Whether a browser connection has ended, and the frames it has sent in
/// order, after a run of events, the event at position `i` arriving at time
/// `ts[i]`: the empty tree first, then what each event sends, until an event
/// ends the connection.
pub open spec fn client_run(events: Seq<ClientEventView>, ts: Seq<u64>) -> (bool, Seq<FrameView>)
    decreases events.len(),
{
    if events.len() == 0 {
        (false, seq![FrameView::Tree { domains: Seq::empty() }])
    } else {
        let (ended, sent) = client_run(events.drop_last(), ts);
        if ended {
            (true, sent)
        } else {
            let a = spec_client_step(events.last(), ts[events.len() - 1]);
            (a is Disconnect, sent + frames_sent(a))
        }
    }
}

/// The frame an event may lead a connection to send: the answer or update it
/// carries, or the error frame for a frame that does not decode.
pub open spec fn frame_of_event(e: ClientEventView, ts: u64) -> Option<FrameView> {
    match e {
        ClientEventView::Reply(Some(f)) => Some(f),
        ClientEventView::Update(Ok(f)) => Some(f),
        ClientEventView::Text(Err(err)) => Some(FrameView::Error { msg: bad_frame_msg(err), ts }),
        _ => None,
    }
}

/// Over any run, a browser connection sends the empty tree first, and every
/// later frame is an answer or an update that some event of the run carried,
/// or the error frame for a frame of the run that did not decode; at most one
/// frame per event follows the tree.
pub proof fn lemma_client_session_frames(events: Seq<ClientEventView>, ts: Seq<u64>)
    requires
        ts.len() == events.len(),
    ensures
        1 <= client_run(events, ts).1.len() <= events.len() + 1,
        client_run(events, ts).1[0] == (FrameView::Tree { domains: Seq::empty() }),
        forall|k: int|
            1 <= k < client_run(events, ts).1.len() ==> exists|i: int|
                0 <= i < events.len() && frame_of_event(events[i], ts[i]) == Some(
                    #[trigger] client_run(events, ts).1[k],
                ),
    decreases events.len(),
{
    if events.len() > 0 {
        let n = events.len() - 1;
        let prefix = events.drop_last();
        lemma_client_session_frames(prefix, ts.drop_last());
        lemma_client_run_ts(prefix, ts);
        let (ended, sent1) = client_run(prefix, ts);
        let sent = client_run(events, ts).1;
        assert forall|k: int| 1 <= k < sent.len() implies exists|i: int|
            0 <= i < events.len() && frame_of_event(events[i], ts[i]) == Some(#[trigger] sent[k]) by {
            if k < sent1.len() {
                assert(sent[k] == sent1[k]);
                let i = choose|i: int|
                    0 <= i < prefix.len() && frame_of_event(prefix[i], ts.drop_last()[i]) == Some(
                        sent1[k],
                    );
                assert(prefix[i] == events[i] && ts.drop_last()[i] == ts[i]);
            } else {
                assert(frame_of_event(events[n], ts[n]) == Some(sent[k]));
            }
        }
    }
}

/// A run depends only on the times of its own events.
proof fn lemma_client_run_ts(events: Seq<ClientEventView>, ts: Seq<u64>)
    requires
        ts.len() == events.len() + 1,
    ensures
        client_run(events, ts) == client_run(events, ts.drop_last()),
    decreases events.len(),
{
    if events.len() > 0 {
        let t2 = ts.drop_last();
        lemma_client_run_ts_prefix(events.drop_last(), ts, t2);
    }
}

/// Two time sequences that agree on the positions of a run give the same run.
proof fn lemma_client_run_ts_prefix(events: Seq<ClientEventView>, t1: Seq<u64>, t2: Seq<u64>)
    requires
        t1.len() >= events.len(),
        t2.len() >= events.len(),
        forall|i: int| 0 <= i < events.len() ==> t1[i] == t2[i],
    ensures
        client_run(events, t1) == client_run(events, t2),
    decreases events.len(),
{
    if events.len() > 0 {
        lemma_client_run_ts_prefix(events.drop_last(), t1, t2);
    }
}

} // verus!
