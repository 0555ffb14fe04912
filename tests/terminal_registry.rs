use teemux_core::terminal_manager::{DESTROY_GRACE_MS, READ_CHUNK};
use teemux_core::{AppError, LoopbackStream, TerminalEvent, TerminalManager, TerminalStream};

fn registry() -> TerminalManager<LoopbackStream> {
    TerminalManager::new()
}

fn texts(events: &[TerminalEvent]) -> Vec<(String, String, String)> {
    events
        .iter()
        .map(|e| match e {
            TerminalEvent::Created { terminal_id, session_id } => {
                (e.channel().to_string(), terminal_id.clone(), session_id.clone())
            }
            TerminalEvent::Data { terminal_id, data } => {
                (e.channel().to_string(), terminal_id.clone(), data.clone())
            }
            TerminalEvent::Error { terminal_id, error } => {
                (e.channel().to_string(), terminal_id.clone(), error.clone())
            }
            TerminalEvent::Destroyed { terminal_id } => {
                (e.channel().to_string(), terminal_id.clone(), String::new())
            }
            TerminalEvent::StreamClosed { terminal_id } => {
                (e.channel().to_string(), terminal_id.clone(), String::new())
            }
        })
        .collect()
}

#[test]
fn create_terminal_names_session_and_notifies() {
    let mut reg = registry();
    let id = reg.create_terminal("session-7");
    assert!(id.starts_with("terminal-"));
    assert!(id.ends_with("-session-7"));
    // "terminal-" + 36 characters of uuid + "-" + session id
    assert_eq!(id.len(), 9 + 36 + 1 + "session-7".len());
    assert!(reg.has_terminal(&id));
    let events = texts(&reg.take_events());
    assert_eq!(
        events,
        vec![("terminal:created".to_string(), id.clone(), "session-7".to_string())]
    );
    assert!(reg.take_events().is_empty());
}

#[test]
fn create_terminal_at_builds_exact_id() {
    let mut reg = registry();
    let id = reg.create_terminal_at("s1", "abc", 5);
    assert_eq!(id, "terminal-abc-s1");
    assert!(reg.has_terminal("terminal-abc-s1"));
    assert!(!reg.has_terminal("terminal-abc-s2"));
}

#[test]
fn two_terminals_get_distinct_ids() {
    let mut reg = registry();
    let a = reg.create_terminal("s");
    let b = reg.create_terminal("s");
    assert_ne!(a, b);
    assert!(reg.has_terminal(&a) && reg.has_terminal(&b));
}

#[test]
fn attach_succeeds_once_then_refuses() {
    let mut reg = registry();
    let id = reg.create_terminal("s1");
    assert_eq!(reg.attach_stream(&id, LoopbackStream::new()), Ok(()));
    assert_eq!(
        reg.attach_stream(&id, LoopbackStream::new()),
        Err(AppError::TerminalError(format!("Stream already attached to terminal: {}", id)))
    );
}

#[test]
fn attach_to_unknown_terminal_is_not_found() {
    let mut reg = registry();
    assert_eq!(
        reg.attach_stream("nope", LoopbackStream::new()),
        Err(AppError::NotFoundError("Terminal not found with ID: nope".to_string()))
    );
}

#[test]
fn send_without_stream_fails_not_initialized() {
    let mut reg = registry();
    let id = reg.create_terminal("s1");
    reg.take_events();
    assert_eq!(
        reg.send_data(&id, "ls\n"),
        Err(AppError::NotFoundError(format!(
            "Terminal stream not initialized for terminal ID: {}",
            id
        )))
    );
    assert_eq!(
        texts(&reg.take_events()),
        vec![(
            "terminal:error".to_string(),
            id.clone(),
            "Terminal stream not initialized".to_string()
        )]
    );
    assert!(reg.has_terminal(&id));
}

#[test]
fn send_to_unknown_terminal_fails_not_found() {
    let mut reg = registry();
    assert_eq!(
        reg.send_data("t-x", "a"),
        Err(AppError::NotFoundError("Terminal not found with ID: t-x".to_string()))
    );
    assert_eq!(
        texts(&reg.take_events()),
        vec![(
            "terminal:error".to_string(),
            "t-x".to_string(),
            "Terminal not found with ID: t-x".to_string()
        )]
    );
}

#[test]
fn send_echoes_data_notice() {
    let mut reg = registry();
    let id = reg.create_terminal("s1");
    reg.attach_stream(&id, LoopbackStream::new()).unwrap();
    reg.take_events();
    assert_eq!(reg.send_data(&id, "whoami\n"), Ok(()));
    assert_eq!(
        texts(&reg.take_events()),
        vec![("terminal:send:data".to_string(), id.clone(), "whoami\n".to_string())]
    );
}

#[test]
fn record_write_reports_failure() {
    let mut reg = registry();
    let r = reg.record_write("t1", "x", Err("broken pipe".to_string()));
    assert_eq!(r, Err(AppError::IOError("broken pipe".to_string())));
    assert_eq!(
        texts(&reg.take_events()),
        vec![(
            "terminal:error".to_string(),
            "t1".to_string(),
            "Error writing to stream: broken pipe".to_string()
        )]
    );
    assert_eq!(reg.record_write("t1", "y", Ok(())), Ok(()));
    assert_eq!(
        texts(&reg.take_events()),
        vec![("terminal:send:data".to_string(), "t1".to_string(), "y".to_string())]
    );
}

#[test]
fn resize_rules() {
    let mut reg = registry();
    assert_eq!(
        reg.resize_terminal("missing", 24, 80),
        Err(AppError::NotFoundError("Terminal not found".to_string()))
    );
    let id = reg.create_terminal("s1");
    assert_eq!(reg.resize_terminal(&id, 40, 120), Ok(()));
    reg.attach_stream(&id, LoopbackStream::new()).unwrap();
    assert_eq!(reg.resize_terminal(&id, 40, 120), Ok(()));
    assert_eq!(reg.stream_of(&id).unwrap().window_size(), (40, 120));
}

#[test]
fn read_for_a_terminal_that_is_gone_ends_the_pump() {
    let mut reg = registry();
    assert!(!reg.record_read("gone", Ok(b"late".to_vec())));
    assert_eq!(
        texts(&reg.take_events()),
        vec![("terminal:stream:closed".to_string(), "gone".to_string(), String::new())]
    );
}

#[test]
fn destroy_within_grace_period_is_deferred() {
    let mut reg = registry();
    let id = reg.create_terminal_at("s1", "u1", 10_000);
    reg.take_events();
    assert!(!reg.destroy_terminal_at(&id, 10_000 + DESTROY_GRACE_MS - 1));
    assert!(reg.has_terminal(&id));
    assert!(reg.take_events().is_empty());
    assert!(reg.destroy_terminal_at(&id, 10_000 + DESTROY_GRACE_MS));
    assert!(!reg.has_terminal(&id));
    assert_eq!(
        texts(&reg.take_events()),
        vec![("terminal:destroyed".to_string(), id.clone(), String::new())]
    );
}

#[test]
fn destroy_right_after_create_returns_false() {
    let mut reg = registry();
    let id = reg.create_terminal("s1");
    assert!(!reg.destroy_terminal(&id));
    assert!(reg.has_terminal(&id));
}

#[test]
fn destroy_unknown_terminal_returns_false() {
    let mut reg = registry();
    assert!(!reg.destroy_terminal_at("ghost", u64::MAX));
}

#[test]
fn destroyed_terminal_is_gone_for_send_and_resize() {
    let mut reg = registry();
    let id = reg.create_terminal_at("s1", "u1", 0);
    reg.attach_stream(&id, LoopbackStream::new()).unwrap();
    assert!(reg.destroy_terminal_at(&id, 5_000));
    assert!(matches!(reg.send_data(&id, "x"), Err(AppError::NotFoundError(_))));
    assert!(matches!(reg.resize_terminal(&id, 1, 1), Err(AppError::NotFoundError(_))));
    assert!(matches!(
        reg.attach_stream(&id, LoopbackStream::new()),
        Err(AppError::NotFoundError(_))
    ));
}

#[test]
fn loopback_round_trip_through_pump() {
    let mut reg = registry();
    let id = reg.create_terminal("s1");
    reg.attach_stream(&id, LoopbackStream::new()).unwrap();
    let text = "echo héllo wörld ✓\n";
    reg.send_data(&id, text).unwrap();
    reg.take_events();
    assert!(reg.pump_once(&id));
    assert_eq!(
        texts(&reg.take_events()),
        vec![("terminal:send:data".to_string(), id.clone(), text.to_string())]
    );
    // nothing left: the loopback stream reports its end
    assert!(!reg.pump_once(&id));
    assert_eq!(
        texts(&reg.take_events()),
        vec![("terminal:stream:closed".to_string(), id.clone(), String::new())]
    );
}

#[test]
fn pump_reads_in_chunks() {
    let mut reg = registry();
    let id = reg.create_terminal("s1");
    reg.attach_stream(&id, LoopbackStream::new()).unwrap();
    let long = "a".repeat(READ_CHUNK + 10);
    reg.send_data(&id, &long).unwrap();
    reg.take_events();
    assert!(reg.pump_once(&id));
    assert!(reg.pump_once(&id));
    let events = texts(&reg.take_events());
    assert_eq!(events.len(), 2);
    assert_eq!(events[0].2.len(), READ_CHUNK);
    assert_eq!(events[1].2.len(), 10);
}

#[test]
fn invalid_utf8_is_replaced_and_pump_goes_on() {
    let mut reg = registry();
    reg.create_terminal_at("s", "u", 0);
    reg.take_events();
    assert!(reg.record_read("terminal-u-s", Ok(vec![b'o', b'k', 0xff, b'!'])));
    assert_eq!(
        texts(&reg.take_events()),
        vec![(
            "terminal:send:data".to_string(),
            "terminal-u-s".to_string(),
            "ok\u{FFFD}!".to_string()
        )]
    );
}

#[test]
fn empty_read_closes_stream() {
    let mut reg = registry();
    reg.create_terminal_at("s", "u", 0);
    reg.take_events();
    assert!(!reg.record_read("terminal-u-s", Ok(Vec::new())));
    assert_eq!(
        texts(&reg.take_events()),
        vec![("terminal:stream:closed".to_string(), "terminal-u-s".to_string(), String::new())]
    );
}

#[test]
fn read_error_reports_then_closes() {
    let mut reg = registry();
    reg.create_terminal_at("s", "u", 0);
    reg.take_events();
    assert!(!reg.record_read("terminal-u-s", Err("connection reset".to_string())));
    assert_eq!(
        texts(&reg.take_events()),
        vec![
            (
                "terminal:error".to_string(),
                "terminal-u-s".to_string(),
                "Error reading from stream: connection reset".to_string()
            ),
            ("terminal:stream:closed".to_string(), "terminal-u-s".to_string(), String::new()),
        ]
    );
}

#[test]
fn pump_on_unattached_or_missing_terminal_stops() {
    let mut reg = registry();
    assert!(!reg.pump_once("missing"));
    let id = reg.create_terminal("s1");
    reg.take_events();
    assert!(!reg.pump_once(&id));
    assert_eq!(
        texts(&reg.take_events()),
        vec![("terminal:stream:closed".to_string(), id.clone(), String::new())]
    );
}

#[test]
fn loopback_stream_contract() {
    let mut s = LoopbackStream::new();
    assert_eq!(s.window_size(), (24, 80));
    s.write_all(b"abcdef").unwrap();
    s.flush().unwrap();
    assert_eq!(s.read_chunk(4), Ok(b"abcd".to_vec()));
    assert_eq!(s.read_chunk(4), Ok(b"ef".to_vec()));
    assert_eq!(s.read_chunk(4), Ok(Vec::new()));
    s.set_window_size(50, 132).unwrap();
    assert_eq!(s.window_size(), (50, 132));
}

#[test]
fn other_terminals_are_untouched_by_a_failing_one() {
    let mut reg = registry();
    let a = reg.create_terminal("a");
    let b = reg.create_terminal("b");
    reg.attach_stream(&b, LoopbackStream::new()).unwrap();
    assert!(reg.send_data(&a, "x").is_err());
    assert_eq!(reg.send_data(&b, "y"), Ok(()));
    assert!(reg.pump_once(&b));
}
