use tf2_bot_kicker::logwatcher::{FileStat, LogWatcher, OpenError};

#[test]
fn two_lines_in_one_write_come_out_together() {
    let mut w = LogWatcher::register(FileStat { id: 1, len: 0 });
    assert_eq!(w.observe(Some(FileStat { id: 1, len: 28 })), Some(0));
    let lines = w.poll(b"status line A\nstatus line B\n");
    assert_eq!(lines, vec!["status line A".to_string(), "status line B".to_string()]);
    assert_eq!(w.observe(Some(FileStat { id: 1, len: 28 })), Some(28));
}

#[test]
fn a_partial_line_waits_for_its_line_feed() {
    let mut w = LogWatcher::register(FileStat { id: 1, len: 0 });
    assert_eq!(w.poll(b"partial"), Vec::<String>::new());
    assert_eq!(w.poll(b""), Vec::<String>::new());
    assert_eq!(w.poll(b" line"), Vec::<String>::new());
    assert_eq!(w.poll(b"\nnext"), vec!["partial line".to_string()]);
    assert_eq!(w.poll(b"\n\n"), vec!["next".to_string(), String::new()]);
}

#[test]
fn a_new_watcher_starts_at_the_end_of_the_file() {
    let mut w = LogWatcher::register(FileStat { id: 9, len: 1000 });
    assert!(w.is_active());
    assert_eq!(w.observe(Some(FileStat { id: 9, len: 1000 })), Some(1000));
    assert_eq!(w.poll(b"abc\n"), vec!["abc".to_string()]);
    assert_eq!(w.observe(Some(FileStat { id: 9, len: 1004 })), Some(1004));
}

#[test]
fn a_shorter_or_replaced_file_is_read_from_its_start() {
    let mut w = LogWatcher::register(FileStat { id: 1, len: 10 });
    assert_eq!(w.poll(b"held back"), Vec::<String>::new());
    assert_eq!(w.observe(Some(FileStat { id: 1, len: 5 })), Some(0));
    assert_eq!(w.poll(b"new\n"), vec!["new".to_string()]);
    assert_eq!(w.observe(Some(FileStat { id: 1, len: 4 })), Some(4));
    assert_eq!(w.poll(b"tail"), Vec::<String>::new());
    assert_eq!(w.observe(Some(FileStat { id: 2, len: 100 })), Some(0));
    assert_eq!(w.poll(b"fresh\n"), vec!["fresh".to_string()]);
}

#[test]
fn a_missing_file_makes_the_watcher_inactive() {
    let mut w = LogWatcher::register(FileStat { id: 1, len: 0 });
    assert_eq!(w.poll(b"half"), Vec::<String>::new());
    assert_eq!(w.observe(None), None);
    assert!(!w.is_active());
    assert_eq!(w.observe(None), None);
    assert_eq!(w.observe(Some(FileStat { id: 1, len: 9 })), Some(4));
    assert!(w.is_active());
    assert_eq!(w.poll(b" line\n"), vec!["half line".to_string()]);
}

#[test]
fn carriage_returns_before_line_feeds_are_dropped() {
    let mut w = LogWatcher::register(FileStat { id: 1, len: 0 });
    assert_eq!(
        w.poll(b"one\r\ntwo\r\r\n\r\nthree\rfour\n"),
        vec!["one".to_string(), "two\r".to_string(), String::new(), "three\rfour".to_string()]
    );
    assert_eq!(w.poll(b"five\r"), Vec::<String>::new());
    assert_eq!(w.poll(b"\n"), vec!["five".to_string()]);
}

#[test]
fn bytes_that_are_no_text_are_replaced() {
    let mut w = LogWatcher::register(FileStat { id: 1, len: 0 });
    assert_eq!(w.poll(b"a\xffb\n"), vec!["a\u{fffd}b".to_string()]);
    assert_eq!(w.poll("Zoë".as_bytes()), Vec::<String>::new());
    assert_eq!(w.poll(b"\n"), vec!["Zoë".to_string()]);
    let bytes = "é\n".as_bytes();
    assert_eq!(w.poll(&bytes[..1]), Vec::<String>::new());
    assert_eq!(w.poll(&bytes[1..]), vec!["é".to_string()]);
}

#[test]
fn the_cursor_stops_at_the_largest_number() {
    let mut w = LogWatcher::register(FileStat { id: 1, len: u64::MAX - 2 });
    w.poll(b"abcdef\n");
    assert_eq!(w.observe(Some(FileStat { id: 1, len: u64::MAX })), Some(u64::MAX));
}

#[test]
fn opening_gives_a_watcher_or_the_reason_why_not() {
    let mut w = LogWatcher::open(Ok(FileStat { id: 4, len: 12 })).ok().unwrap();
    assert!(w.is_active());
    assert_eq!(w.observe(Some(FileStat { id: 4, len: 12 })), Some(12));
    assert!(matches!(LogWatcher::open(Err(OpenError::NotFound)), Err(OpenError::NotFound)));
    assert!(matches!(
        LogWatcher::open(Err(OpenError::PermissionDenied)),
        Err(OpenError::PermissionDenied)
    ));
}
