use ai_server::session::{Frame, Session, SessionState, Step};

#[test]
fn two_chunks_then_sentinel_reply_joined() {
    let mut s = Session::new();
    let step = s.on_frame(Frame::Binary(vec![1u8, 2, 3]));
    assert!(matches!(step, Step::Submit(_)));
    s.on_reply_line("hello\n");
    let step = s.on_frame(Frame::Binary(vec![4u8]));
    assert!(matches!(step, Step::Submit(_)));
    s.on_reply_line("world\n");
    match s.on_frame(Frame::Binary(vec![])) {
        Step::Reply(text) => assert_eq!(text, "hello\nworld"),
        other => panic!("expected the transcript reply, got {:?}", other),
    }
    assert!(s.is_terminal());
    assert_eq!(s.state(), SessionState::Flushed);
}

#[test]
fn single_chunk_reply_is_that_line() {
    let mut s = Session::new();
    let step = s.on_frame(Frame::Binary(vec![9u8]));
    assert!(matches!(step, Step::Submit(_)));
    s.on_reply_line("only line\n");
    match s.on_frame(Frame::Binary(vec![])) {
        Step::Reply(text) => assert_eq!(text, "only line"),
        other => panic!("expected the transcript reply, got {:?}", other),
    }
}

#[test]
fn empty_stream_replies_empty_text() {
    let mut s = Session::new();
    match s.on_frame(Frame::Binary(vec![])) {
        Step::Reply(text) => assert_eq!(text, ""),
        other => panic!("expected the transcript reply, got {:?}", other),
    }
    assert_eq!(s.state(), SessionState::Flushed);
}

#[test]
fn submit_hands_back_the_chunk_payload() {
    let mut s = Session::new();
    match s.on_frame(Frame::Binary(vec![7u8, 8, 9])) {
        Step::Submit(payload) => assert_eq!(payload, vec![7u8, 8, 9]),
        other => panic!("expected a submission, got {:?}", other),
    }
    assert_eq!(s.state(), SessionState::Awaiting);
}

#[test]
fn ping_on_idle_connection_yields_pong_and_changes_nothing() {
    let mut s = Session::new();
    let step = s.on_frame(Frame::Ping);
    assert_eq!(step, Step::Pong);
    assert_eq!(s.state(), SessionState::Open);
    assert!(s.transcript().is_empty());

    let step = s.on_frame(Frame::Binary(vec![1u8]));
    assert!(matches!(step, Step::Submit(_)));
    s.on_reply_line("kept\n");
    let step = s.on_frame(Frame::Ping);
    assert_eq!(step, Step::Pong);
    assert_eq!(s.state(), SessionState::Active);
    assert_eq!(s.transcript(), &vec!["kept".to_string()]);
    match s.on_frame(Frame::Binary(vec![])) {
        Step::Reply(text) => assert_eq!(text, "kept"),
        other => panic!("expected the transcript reply, got {:?}", other),
    }
}

#[test]
fn close_mid_stream_discards_transcript_without_reply() {
    let mut s = Session::new();
    let step = s.on_frame(Frame::Binary(vec![1u8]));
    assert!(matches!(step, Step::Submit(_)));
    s.on_reply_line("lost\n");
    let step = s.on_frame(Frame::Close);
    assert_eq!(step, Step::Ignore);
    assert!(s.is_terminal());
    assert_eq!(s.state(), SessionState::Closed);
    // nothing is ever sent afterwards, whatever arrives
    assert_eq!(s.on_frame(Frame::Binary(vec![])), Step::Ignore);
    assert_eq!(s.on_frame(Frame::Ping), Step::Ignore);
    assert_eq!(s.state(), SessionState::Closed);
}

#[test]
fn other_frames_are_ignored() {
    let mut s = Session::new();
    let step = s.on_frame(Frame::Other);
    assert_eq!(step, Step::Ignore);
    assert_eq!(s.state(), SessionState::Open);
}

#[test]
fn failure_ends_the_session_without_reply() {
    let mut s = Session::new();
    let step = s.on_frame(Frame::Binary(vec![1u8]));
    assert!(matches!(step, Step::Submit(_)));
    s.on_failure();
    assert_eq!(s.state(), SessionState::Closed);
    assert_eq!(s.on_frame(Frame::Binary(vec![])), Step::Ignore);
}

#[test]
fn failure_after_flush_keeps_the_session_flushed() {
    let mut s = Session::new();
    match s.on_frame(Frame::Binary(vec![])) {
        Step::Reply(_) => {}
        other => panic!("expected the transcript reply, got {:?}", other),
    }
    s.on_failure();
    assert_eq!(s.state(), SessionState::Flushed);
}

#[test]
fn frames_after_flush_are_ignored() {
    let mut s = Session::new();
    match s.on_frame(Frame::Binary(vec![])) {
        Step::Reply(_) => {}
        other => panic!("expected the transcript reply, got {:?}", other),
    }
    assert_eq!(s.on_frame(Frame::Binary(vec![5u8])), Step::Ignore);
    assert_eq!(s.on_frame(Frame::Ping), Step::Ignore);
    assert_eq!(s.state(), SessionState::Flushed);
}

#[test]
fn reply_line_while_no_chunk_outstanding_changes_nothing() {
    let mut s = Session::new();
    s.on_reply_line("stray\n");
    assert_eq!(s.state(), SessionState::Open);
    assert!(s.transcript().is_empty());
}

#[test]
fn interleaved_connections_collect_their_own_replies_in_order() {
    // an engine that echoes an incrementing counter, one line per request,
    // shared by two connections whose submissions alternate
    let mut a = Session::new();
    let mut b = Session::new();
    let mut counter = 0u32;
    let mut next_line = |c: &mut u32| {
        let line = format!("{}\n", *c);
        *c += 1;
        line
    };
    for round in 0..3u8 {
        let step = a.on_frame(Frame::Binary(vec![round + 1]));
        assert!(matches!(step, Step::Submit(_)));
        let line = next_line(&mut counter);
        a.on_reply_line(&line);
        let step = b.on_frame(Frame::Binary(vec![round + 1]));
        assert!(matches!(step, Step::Submit(_)));
        let line = next_line(&mut counter);
        b.on_reply_line(&line);
    }
    match a.on_frame(Frame::Binary(vec![])) {
        Step::Reply(text) => assert_eq!(text, "0\n2\n4"),
        other => panic!("expected the transcript reply, got {:?}", other),
    }
    match b.on_frame(Frame::Binary(vec![])) {
        Step::Reply(text) => assert_eq!(text, "1\n3\n5"),
        other => panic!("expected the transcript reply, got {:?}", other),
    }
}
