use kai_bridge::backoff::{Backoff, INITIAL_BACKOFF_SECS, MAX_BACKOFF_SECS};
use kai_bridge::kai_conn::{command_line, EndReason, KaiAction, KaiEvent, KaiSession, PendingEval};
use kai_bridge::protocol::{epoch_ms, initial_tree, now_ms, BrowserFrame, Lang, ServerFrame};
use kai_bridge::text::{char_is_whitespace, chars_of, trim_str};
use kai_bridge::ws_handler::{client_step, ClientAction, ClientEvent, UpdateLoss};

fn eval(src: &str, reply: u32) -> KaiEvent<u32> {
    KaiEvent::Eval(PendingEval { src: src.to_string(), reply })
}

fn line(text: &str) -> KaiEvent<u32> {
    KaiEvent::Line(text.to_string())
}

fn expect_delivery(action: KaiAction<u32>) -> (u32, String, String, u64) {
    match action {
        KaiAction::Deliver(reply, ServerFrame::Result { src, output, ts }) => (reply, src, output, ts),
        _ => panic!("expected a delivered result"),
    }
}

#[test]
fn eval_writes_command_line() {
    let mut s: KaiSession<u32> = KaiSession::new();
    match s.step(eval("1 2 +", 7), 5) {
        KaiAction::Write(cmd) => assert_eq!(cmd, "1 2 +\n"),
        _ => panic!("expected a write"),
    }
    assert!(s.pending.is_none());
    assert_eq!(s.writing.as_ref().unwrap().reply, 7);
}

#[test]
fn answer_line_goes_to_requester() {
    let mut s: KaiSession<u32> = KaiSession::new();
    s.step(eval("1 2 +", 7), 1);
    assert!(matches!(s.step(KaiEvent::WriteDone, 2), KaiAction::Nothing));
    let (reply, src, output, ts) = expect_delivery(s.step(line("  RESULT 3 \r"), 3));
    assert_eq!(reply, 7);
    assert_eq!(src, "1 2 +");
    assert_eq!(output, "RESULT 3");
    assert_eq!(ts, 3);
    assert!(s.pending.is_none());
}

#[test]
fn update_line_is_broadcast_and_keeps_owed_answer() {
    let mut s: KaiSession<u32> = KaiSession::new();
    s.step(eval("1 2 +", 9), 1);
    s.step(KaiEvent::WriteDone, 1);
    match s.step(line("SUP 1:0:42 {\"x\":1}\n"), 4) {
        KaiAction::Broadcast(ServerFrame::Sup { addr, ts, .. }) => {
            assert_eq!(addr, "1:0:42");
            assert_eq!(ts, 4);
        }
        _ => panic!("expected a broadcast"),
    }
    assert_eq!(s.pending.as_ref().unwrap().reply, 9);
    let (reply, _, output, _) = expect_delivery(s.step(line("RESULT 3"), 5));
    assert_eq!(reply, 9);
    assert_eq!(output, "RESULT 3");
}

#[test]
fn sequential_evals_answer_their_own_requesters() {
    let mut s: KaiSession<u32> = KaiSession::new();
    s.step(eval("first", 1), 0);
    s.step(KaiEvent::WriteDone, 0);
    let (r1, src1, _, _) = expect_delivery(s.step(line("RESULT first"), 0));
    s.step(eval("second", 2), 0);
    s.step(KaiEvent::WriteDone, 0);
    let (r2, src2, _, _) = expect_delivery(s.step(line("RESULT second"), 0));
    assert_eq!((r1, src1.as_str()), (1, "first"));
    assert_eq!((r2, src2.as_str()), (2, "second"));
}

#[test]
fn blank_and_unsolicited_lines() {
    let mut s: KaiSession<u32> = KaiSession::new();
    assert!(matches!(s.step(line(" \t "), 0), KaiAction::Nothing));
    match s.step(line(" READY kai "), 0) {
        KaiAction::Unsolicited(l) => assert_eq!(l, "READY kai"),
        _ => panic!("expected an unsolicited line"),
    }
    assert!(s.pending.is_none() && s.writing.is_none());
}

#[test]
fn malformed_sup_line_answers_owed_eval() {
    let mut s: KaiSession<u32> = KaiSession::new();
    s.step(eval("x", 3), 0);
    s.step(KaiEvent::WriteDone, 0);
    let (reply, _, output, _) = expect_delivery(s.step(line("SUP 1:0:42 {not json}"), 0));
    assert_eq!(reply, 3);
    assert_eq!(output, "SUP 1:0:42 {not json}");
}

#[test]
fn write_failure_answers_with_error() {
    let mut s: KaiSession<u32> = KaiSession::new();
    s.step(eval("1 2 +", 4), 0);
    match s.step(KaiEvent::WriteFailed("broken pipe".to_string()), 8) {
        KaiAction::Fail(reply, ServerFrame::Error { msg, ts }) => {
            assert_eq!(reply, 4);
            assert_eq!(msg, "KAI write error: broken pipe");
            assert_eq!(ts, 8);
        }
        _ => panic!("expected a failure"),
    }
    assert!(matches!(
        s.step(KaiEvent::WriteFailed("again".to_string()), 8),
        KaiAction::End(EndReason::WriteFailed(_))
    ));
}

#[test]
fn connection_end_events() {
    let mut s: KaiSession<u32> = KaiSession::new();
    assert!(matches!(s.step(KaiEvent::Eof, 0), KaiAction::End(EndReason::KaiClosed)));
    match s.step(KaiEvent::ReadFailed("reset".to_string()), 0) {
        KaiAction::End(EndReason::ReadFailed(e)) => assert_eq!(e, "reset"),
        _ => panic!("expected the end"),
    }
    assert!(matches!(s.step(KaiEvent::EvalsClosed, 0), KaiAction::End(EndReason::EvalsClosed)));
}

#[test]
fn command_line_appends_newline() {
    assert_eq!(command_line(""), "\n");
    assert_eq!(command_line("x := 42"), "x := 42\n");
}

#[test]
fn client_eval_frame_is_submitted() {
    let frame = BrowserFrame::Eval { src: "1 2 +".to_string(), lang: Some(Lang::Pi) };
    match client_step(ClientEvent::Text(Ok(frame)), 0) {
        ClientAction::Submit(src) => assert_eq!(src, "1 2 +"),
        _ => panic!("expected a submission"),
    }
}

#[test]
fn client_bad_frame_gets_error_frame() {
    match client_step(ClientEvent::Text(Err("expected value at line 1 column 1".to_string())), 12) {
        ClientAction::Send(ServerFrame::Error { msg, ts }) => {
            assert_eq!(msg, "Bad frame: expected value at line 1 column 1");
            assert_eq!(ts, 12);
        }
        _ => panic!("expected an error frame"),
    }
}

#[test]
fn client_forwards_replies_and_updates() {
    let reply = ServerFrame::Result { src: "a".to_string(), output: "b".to_string(), ts: 1 };
    match client_step(ClientEvent::Reply(Some(reply)), 0) {
        ClientAction::Send(ServerFrame::Result { src, output, ts }) => {
            assert_eq!((src.as_str(), output.as_str(), ts), ("a", "b", 1));
        }
        _ => panic!("expected forwarding"),
    }
    let update = ServerFrame::Sup { addr: "1:0:5".to_string(), state: serde_json::Value::from(42), ts: 999 };
    match client_step(ClientEvent::Update(Ok(update)), 0) {
        ClientAction::Send(ServerFrame::Sup { addr, state, ts }) => {
            assert_eq!(addr, "1:0:5");
            assert_eq!(state, serde_json::Value::from(42));
            assert_eq!(ts, 999);
        }
        _ => panic!("expected forwarding"),
    }
    assert!(matches!(client_step(ClientEvent::Reply(None), 0), ClientAction::Nothing));
}

#[test]
fn client_disconnect_events() {
    assert!(matches!(client_step(ClientEvent::Closed, 0), ClientAction::Disconnect));
    assert!(matches!(client_step(ClientEvent::StreamError("x".to_string()), 0), ClientAction::Disconnect));
    assert!(matches!(client_step(ClientEvent::Update(Err(UpdateLoss::Closed)), 0), ClientAction::Disconnect));
    assert!(matches!(client_step(ClientEvent::Update(Err(UpdateLoss::Lagged(3))), 0), ClientAction::Lagged(3)));
    assert!(matches!(client_step(ClientEvent::Other, 0), ClientAction::Nothing));
}

#[test]
fn initial_tree_is_empty() {
    match initial_tree() {
        ServerFrame::Tree { domains } => assert!(domains.is_empty()),
        _ => panic!("expected a tree"),
    }
}

#[test]
fn lang_defaults_to_rho() {
    assert_eq!(Lang::default(), Lang::Rho);
}

#[test]
fn backoff_doubles_up_to_cap_and_resets() {
    let mut b = Backoff::new();
    let mut seen = Vec::new();
    for _ in 0..7 {
        seen.push(b.secs());
        b.grow();
    }
    assert_eq!(seen, vec![1, 2, 4, 8, 16, 30, 30]);
    b.reset();
    assert_eq!(b.secs(), INITIAL_BACKOFF_SECS);
    assert_eq!(MAX_BACKOFF_SECS, 30);
}

#[test]
fn epoch_ms_truncates_and_defaults() {
    assert_eq!(epoch_ms(None), 0);
    assert_eq!(epoch_ms(Some(1234)), 1234);
    assert_eq!(epoch_ms(Some((1u128 << 64) + 5)), 5);
}

#[test]
fn now_ms_is_after_2020() {
    assert!(now_ms() > 1_577_836_800_000);
}

#[test]
fn trim_removes_unicode_whitespace() {
    assert_eq!(trim_str("\u{3000}\t a b \u{a0}\n"), "a b");
    assert_eq!(trim_str("   "), "");
    assert_eq!(trim_str(""), "");
    assert_eq!(trim_str("x"), "x");
}

#[test]
fn whitespace_matches_std() {
    for c in (0u32..0x110000).filter_map(char::from_u32) {
        assert_eq!(char_is_whitespace(c), c.is_whitespace(), "{:?}", c);
    }
    assert_eq!(chars_of("héllo"), vec!['h', 'é', 'l', 'l', 'o']);
}

#[test]
fn delays_follow_connect_outcomes() {
    let mut b = Backoff::new();
    let outcomes = [false, false, true, false, false, false, false, false, false, true];
    let delays: Vec<u64> = outcomes.iter().map(|&c| b.next_delay(c)).collect();
    assert_eq!(delays, vec![1, 2, 1, 2, 4, 8, 16, 30, 30, 1]);
}

#[test]
fn answer_channel_is_answered_once() {
    let mut s: KaiSession<u32> = KaiSession::new();
    s.step(eval("a", 1), 0);
    s.step(KaiEvent::WriteDone, 0);
    let (r, _, _, _) = expect_delivery(s.step(line("RESULT a"), 0));
    assert_eq!(r, 1);
    match s.step(line("RESULT late"), 0) {
        KaiAction::Unsolicited(l) => assert_eq!(l, "RESULT late"),
        _ => panic!("a second answer must not be delivered"),
    }
}
