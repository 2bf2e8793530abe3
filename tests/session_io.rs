use bun_pty::boundary::read_code;
use bun_pty::session::{Msg, Poll, Session, WriteStep};
use bun_pty::{CHILD_EXITED, ERROR, SETTLE_WINDOW_MS, SUCCESS};

fn bytes(p: &Poll) -> Vec<u8> {
    match p {
        Poll::Bytes(b) => b.clone(),
        _ => panic!("expected bytes"),
    }
}

fn data(s: &str) -> Msg {
    Msg::Data(s.as_bytes().to_vec())
}

#[test]
fn quiet_poll_returns_no_bytes() {
    let mut s = Session::new(42, SETTLE_WINDOW_MS);
    let p = s.poll(16, Vec::new());
    assert_eq!(bytes(&p), Vec::<u8>::new());
    assert_eq!(read_code(&p), 0);
    assert!(!s.is_exited());
    assert_eq!(s.pid(), 42);
    assert_eq!(s.exit_code(), -1);
}

#[test]
fn drained_chunks_are_joined_in_order() {
    let mut s = Session::new(1, SETTLE_WINDOW_MS);
    let p = s.poll(64, vec![data("ab"), data("cd"), data("e")]);
    assert_eq!(bytes(&p), b"abcde".to_vec());
    assert_eq!(read_code(&p), 5);
}

#[test]
fn small_reads_split_a_chunk_and_join_back() {
    let mut s = Session::new(1, SETTLE_WINDOW_MS);
    let chunk = b"0123456789".to_vec();
    let mut pieces = vec![bytes(&s.poll(3, vec![Msg::Data(chunk.clone())]))];
    loop {
        let b = bytes(&s.poll(3, Vec::new()));
        if b.is_empty() {
            break;
        }
        pieces.push(b);
    }
    assert_eq!(pieces.len(), 4);
    assert_eq!(pieces[0], b"012".to_vec());
    assert_eq!(pieces[3], b"9".to_vec());
    assert_eq!(pieces.concat(), chunk);
}

#[test]
fn pending_bytes_come_before_newer_output() {
    let mut s = Session::new(1, SETTLE_WINDOW_MS);
    assert_eq!(bytes(&s.poll(2, vec![data("abcd")])), b"ab".to_vec());
    assert!(s.has_pending());
    assert_eq!(bytes(&s.poll(10, vec![data("ef")])), b"cd".to_vec());
    assert_eq!(bytes(&s.poll(10, Vec::new())), b"ef".to_vec());
    assert!(!s.has_pending());
}

#[test]
fn output_before_end_is_read_before_exit() {
    let mut s = Session::new(7, SETTLE_WINDOW_MS);
    let p = s.poll(4, vec![data("hello\r\n"), Msg::End]);
    assert_eq!(bytes(&p), b"hell".to_vec());
    assert!(!s.is_exited());
    assert_eq!(bytes(&s.poll(4, Vec::new())), b"o\r\n".to_vec());
    assert!(matches!(s.poll(4, Vec::new()), Poll::Settle));
    let last = s.settle(4, Vec::new());
    assert!(matches!(last, Poll::Exited));
    assert_eq!(read_code(&last), CHILD_EXITED);
    assert!(s.is_exited());
}

#[test]
fn late_output_during_settle_is_not_lost() {
    let mut s = Session::new(7, SETTLE_WINDOW_MS);
    assert!(matches!(s.poll(8, vec![Msg::End]), Poll::Settle));
    let p = s.settle(8, vec![data("late"), Msg::End]);
    assert_eq!(bytes(&p), b"late".to_vec());
    assert!(!s.is_exited());
    assert!(matches!(s.poll(8, Vec::new()), Poll::Settle));
    assert!(matches!(s.settle(8, Vec::new()), Poll::Exited));
}

#[test]
fn echo_hello_scenario() {
    let mut s = Session::new(100, SETTLE_WINDOW_MS);
    let mut stream = Vec::new();
    let mut feed = vec![vec![data("hel")], vec![data("lo\r\n"), Msg::End]];
    feed.reverse();
    loop {
        let msgs = feed.pop().unwrap_or_default();
        let mut p = s.poll(1024, msgs);
        if let Poll::Settle = p {
            p = s.settle(1024, Vec::new());
        }
        match p {
            Poll::Bytes(b) => stream.extend(b),
            Poll::Exited => break,
            Poll::Settle => unreachable!(),
        }
    }
    assert_eq!(stream, b"hello\r\n".to_vec());
}

#[test]
fn everything_after_exit_reports_child_exited() {
    let mut s = Session::new(3, SETTLE_WINDOW_MS);
    assert!(matches!(s.poll(8, vec![Msg::End]), Poll::Settle));
    assert!(matches!(s.settle(8, Vec::new()), Poll::Exited));
    assert!(s.is_finished());
    let w = s.write(b"x".to_vec());
    assert!(matches!(w, WriteStep::Exited));
    assert_eq!(s.finish_write(w, false), CHILD_EXITED);
    assert_eq!(s.live_status(), CHILD_EXITED);
    let p = s.poll(8, vec![data("ignored")]);
    assert_eq!(read_code(&p), CHILD_EXITED);
}

#[test]
fn writes_are_submitted_whole_and_in_order() {
    let mut s = Session::new(3, SETTLE_WINDOW_MS);
    let mut sent = Vec::new();
    for w in [b"pi".to_vec(), b"ng".to_vec(), b"\n".to_vec()] {
        let step = s.write(w);
        match &step {
            WriteStep::Submit(b) => sent.extend(b.iter().copied()),
            WriteStep::Exited => panic!("session is live"),
        }
        assert_eq!(s.finish_write(step, true), SUCCESS);
    }
    assert_eq!(sent, b"ping\n".to_vec());
}

#[test]
fn echoed_ping_is_read_back() {
    let mut s = Session::new(3, SETTLE_WINDOW_MS);
    let step = s.write(b"ping".to_vec());
    let submitted = match &step {
        WriteStep::Submit(b) => b.clone(),
        WriteStep::Exited => panic!("session is live"),
    };
    assert_eq!(s.finish_write(step, true), SUCCESS);
    let p = s.poll(64, vec![Msg::Data(submitted)]);
    assert_eq!(bytes(&p), b"ping".to_vec());
}

#[test]
fn failed_send_is_an_error_and_the_session_stays_live() {
    let mut s = Session::new(3, SETTLE_WINDOW_MS);
    let step = s.write(vec![1]);
    assert!(matches!(step, WriteStep::Submit(_)));
    assert_eq!(s.finish_write(step, false), ERROR);
    assert!(!s.is_exited());
    assert!(matches!(s.write(vec![2]), WriteStep::Submit(_)));
}

#[test]
fn kill_twice_succeeds_both_times() {
    let mut s = Session::new(9, SETTLE_WINDOW_MS);
    assert!(s.needs_signal());
    assert_eq!(s.record_kill(true), SUCCESS);
    assert!(s.is_exited());
    assert!(!s.needs_signal());
    assert_eq!(s.record_kill(false), SUCCESS);
    assert!(matches!(s.poll(4, Vec::new()), Poll::Settle));
    assert!(matches!(s.settle(4, Vec::new()), Poll::Exited));
    assert_eq!(s.record_kill(true), SUCCESS);
}

#[test]
fn output_is_still_read_after_a_kill() {
    let mut s = Session::new(9, SETTLE_WINDOW_MS);
    assert_eq!(bytes(&s.poll(3, vec![data("abcdef")])), b"abc".to_vec());
    assert_eq!(s.record_kill(true), SUCCESS);
    assert_eq!(s.live_status(), CHILD_EXITED);
    assert!(matches!(s.write(b"x".to_vec()), WriteStep::Exited));
    assert_eq!(bytes(&s.poll(3, Vec::new())), b"def".to_vec());
    assert_eq!(bytes(&s.poll(3, vec![data("gh"), Msg::End])), b"gh".to_vec());
    assert!(matches!(s.poll(3, Vec::new()), Poll::Settle));
    assert_eq!(bytes(&s.settle(3, vec![data("i")])), b"i".to_vec());
    assert!(matches!(s.poll(3, Vec::new()), Poll::Settle));
    assert!(matches!(s.settle(3, Vec::new()), Poll::Exited));
    assert!(s.is_finished());
}

#[test]
fn settle_window_is_kept() {
    let s = Session::new(9, 75);
    assert_eq!(s.settle_window_ms(), 75);
}

#[test]
fn failed_signal_is_an_error_and_keeps_the_session() {
    let mut s = Session::new(9, SETTLE_WINDOW_MS);
    assert_eq!(s.record_kill(false), ERROR);
    assert!(!s.is_exited());
    assert_eq!(s.live_status(), SUCCESS);
}

#[test]
fn exit_code_is_recorded() {
    let mut s = Session::new(9, SETTLE_WINDOW_MS);
    s.record_exit_code(3);
    assert_eq!(s.exit_code(), 3);
    assert!(!s.is_exited());
}
