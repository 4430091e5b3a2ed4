use ws_shell::line_pump::LinePump;
use ws_shell::session::{Action, Inbound, Phase, Session, SessionError};

fn text(s: &str) -> Inbound {
    Inbound::Text(s.to_string())
}

fn is_spawn(a: &Action, cmd: &str) -> bool {
    matches!(a, Action::Spawn(c) if c == cmd)
}

fn is_write(a: &Action, t: &str) -> bool {
    matches!(a, Action::Write(c) if c == t)
}

#[test]
fn new_session_is_idle_without_process() {
    let s = Session::new();
    assert_eq!(s.phase(), Phase::Idle);
    assert_eq!(s.process(), None);
    assert!(!s.is_writing());
    assert_eq!(s.waiting_input(), 0);
}

#[test]
fn ping_is_answered_with_pong() {
    let mut s = Session::new();
    let r = s.on_frame(Inbound::Ping(vec![1, 2, 3]));
    assert_eq!(r.len(), 1);
    assert!(matches!(&r[0], Action::Pong(p) if p == &vec![1u8, 2, 3]));
    assert_eq!(s.phase(), Phase::Idle);
}

#[test]
fn binary_is_echoed() {
    let mut s = Session::new();
    let r = s.on_frame(Inbound::Binary(vec![0, 255]));
    assert_eq!(r.len(), 1);
    assert!(matches!(&r[0], Action::Binary(b) if b == &vec![0u8, 255]));
    assert_eq!(s.phase(), Phase::Idle);
}

#[test]
fn echo_then_hello_yields_hello() {
    let mut s = Session::new();
    let r = s.on_frame(text("echo"));
    assert_eq!(r.len(), 1);
    assert!(is_spawn(&r[0], "echo"));
    assert_eq!(s.phase(), Phase::Launching);

    let r = s.on_spawned(Ok(7));
    assert_eq!(r.len(), 1);
    assert!(matches!(r[0], Action::StartPump(7)));
    assert_eq!(s.phase(), Phase::Running);
    assert_eq!(s.process(), Some(7));

    let r = s.on_frame(text("hello\n"));
    assert_eq!(r.len(), 1);
    assert!(is_write(&r[0], "hello\n"));

    let mut pump = LinePump::new();
    let mut out = Vec::new();
    for ev in pump.feed(b"hello\n") {
        out.extend(s.on_output(ev));
    }
    assert_eq!(out.len(), 1);
    assert!(matches!(&out[0], Action::Text(t) if t == "hello"));
}

#[test]
fn failed_spawn_reports_error_and_accepts_next_command() {
    let mut s = Session::new();
    let r = s.on_frame(text("no-such-program-here"));
    assert!(is_spawn(&r[0], "no-such-program-here"));
    let r = s.on_spawned(Err("No such file or directory".to_string()));
    assert_eq!(r.len(), 1);
    match &r[0] {
        Action::Error(e) => {
            assert!(matches!(e, SessionError::Spawn(m) if m == "No such file or directory"));
            assert_eq!(e.wire_text(), "[spawn error] No such file or directory");
        }
        _ => panic!("expected an error frame"),
    }
    assert_eq!(s.phase(), Phase::Idle);
    assert_eq!(s.process(), None);

    let r = s.on_frame(text("cat"));
    assert_eq!(r.len(), 1);
    assert!(is_spawn(&r[0], "cat"));
    let r = s.on_spawned(Ok(11));
    assert!(matches!(r[0], Action::StartPump(11)));
    assert_eq!(s.process(), Some(11));
}

#[test]
fn input_held_during_launch_is_written_after_it() {
    let mut s = Session::new();
    s.on_frame(text("cat"));
    assert!(s.on_frame(text("a")).is_empty());
    assert!(s.on_frame(text("b")).is_empty());
    assert_eq!(s.waiting_input(), 2);
    let r = s.on_spawned(Ok(3));
    assert_eq!(r.len(), 2);
    assert!(matches!(r[0], Action::StartPump(3)));
    assert!(is_write(&r[1], "a"));
    let r = s.on_write_done(Ok(()));
    assert_eq!(r.len(), 1);
    assert!(is_write(&r[0], "b"));
    assert!(s.on_write_done(Ok(())).is_empty());
    assert!(!s.is_writing());
}

#[test]
fn input_held_for_failed_launch_is_reported_stale() {
    let mut s = Session::new();
    s.on_frame(text("missing"));
    s.on_frame(text("input"));
    let r = s.on_spawned(Err("not found".to_string()));
    assert_eq!(r.len(), 2);
    assert!(matches!(&r[0], Action::Error(SessionError::Spawn(_))));
    assert!(matches!(&r[1], Action::Error(SessionError::StaleProcess)));
    assert_eq!(s.waiting_input(), 0);
    assert_eq!(s.phase(), Phase::Idle);
}

#[test]
fn burst_of_frames_keeps_one_process() {
    let mut s = Session::new();
    s.on_frame(text("cat"));
    s.on_spawned(Ok(1));
    for i in 0..20 {
        let r = s.on_frame(text(&format!("line {}", i)));
        assert!(r.iter().all(|a| !matches!(a, Action::Spawn(_))));
    }
    assert_eq!(s.process(), Some(1));
    let r = s.on_spawned(Ok(2));
    assert_eq!(r.len(), 1);
    assert!(matches!(r[0], Action::Terminate(2)));
    assert_eq!(s.process(), Some(1));
    assert_eq!(s.phase(), Phase::Running);
}

#[test]
fn writes_go_out_one_at_a_time_in_order() {
    let mut s = Session::new();
    s.on_frame(text("cat"));
    s.on_spawned(Ok(5));
    let r = s.on_frame(text("one"));
    assert!(is_write(&r[0], "one"));
    assert!(s.on_frame(text("two")).is_empty());
    assert!(s.on_frame(text("three")).is_empty());
    let mut written = String::from("one");
    loop {
        let r = s.on_write_done(Ok(()));
        if r.is_empty() {
            break;
        }
        assert_eq!(r.len(), 1);
        match &r[0] {
            Action::Write(t) => written.push_str(t),
            _ => panic!("expected a write"),
        }
    }
    assert_eq!(written, "onetwothree");
}

#[test]
fn failed_write_is_reported_and_next_write_follows() {
    let mut s = Session::new();
    s.on_frame(text("cat"));
    s.on_spawned(Ok(5));
    s.on_frame(text("x"));
    s.on_frame(text("y"));
    let r = s.on_write_done(Err("Broken pipe".to_string()));
    assert_eq!(r.len(), 2);
    match &r[0] {
        Action::Error(e) => assert_eq!(e.wire_text(), "[write error] Broken pipe"),
        _ => panic!("expected an error frame"),
    }
    assert!(is_write(&r[1], "y"));
    assert_eq!(s.phase(), Phase::Running);
}

#[test]
fn invalid_output_line_reports_decode_error_then_next_line() {
    let mut s = Session::new();
    s.on_frame(text("prog"));
    s.on_spawned(Ok(9));
    let mut pump = LinePump::new();
    let mut out = Vec::new();
    for ev in pump.feed(&[0xff, 0xfe, b'\n', b'o', b'k', b'\n']) {
        out.extend(s.on_output(ev));
    }
    assert_eq!(out.len(), 2);
    match &out[0] {
        Action::Error(e) => {
            assert!(matches!(e, SessionError::Decode));
            assert_eq!(e.wire_text(), "[decode error] output line is not valid UTF-8");
        }
        _ => panic!("expected a decode error"),
    }
    assert!(matches!(&out[1], Action::Text(t) if t == "ok"));
}

#[test]
fn input_after_output_ended_is_stale() {
    let mut s = Session::new();
    s.on_frame(text("true"));
    s.on_spawned(Ok(4));
    assert!(s.on_output_end().is_empty());
    assert_eq!(s.phase(), Phase::Ended);
    let r = s.on_frame(text("more"));
    assert_eq!(r.len(), 1);
    match &r[0] {
        Action::Error(e) => {
            assert!(matches!(e, SessionError::StaleProcess));
            assert_eq!(e.wire_text(), "[stale process error] the process is not running");
        }
        _ => panic!("expected a stale process error"),
    }
    assert_eq!(s.phase(), Phase::Ended);
}

#[test]
fn disconnect_terminates_live_process() {
    let mut s = Session::new();
    s.on_frame(text("cat"));
    s.on_spawned(Ok(42));
    let r = s.on_disconnect();
    assert_eq!(r.len(), 1);
    assert!(matches!(r[0], Action::Terminate(42)));
    assert_eq!(s.phase(), Phase::Closed);
    assert!(s.on_frame(text("late")).is_empty());
    assert!(s.on_output(ws_shell::line_pump::LineEvent::Line("x".to_string())).is_empty());
    assert!(s.on_disconnect().is_empty());
}

#[test]
fn close_frame_terminates_and_closes() {
    let mut s = Session::new();
    s.on_frame(text("cat"));
    s.on_spawned(Ok(8));
    let r = s.on_frame(Inbound::Close);
    assert_eq!(r.len(), 2);
    assert!(matches!(r[0], Action::Terminate(8)));
    assert!(matches!(r[1], Action::Close));
    assert_eq!(s.phase(), Phase::Closed);
}

#[test]
fn disconnect_without_process_terminates_nothing() {
    let mut s = Session::new();
    assert!(s.on_disconnect().is_empty());
    assert_eq!(s.phase(), Phase::Closed);
}

#[test]
fn launch_finishing_after_close_is_stopped() {
    let mut s = Session::new();
    s.on_frame(text("cat"));
    s.on_disconnect();
    let r = s.on_spawned(Ok(6));
    assert_eq!(r.len(), 1);
    assert!(matches!(r[0], Action::Terminate(6)));
    assert_eq!(s.process(), None);
}
