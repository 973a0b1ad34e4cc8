use regex::Regex;
use tf2_bot_kicker::player::Team;
use tf2_bot_kicker::regexes::{
    fn_lobby, fn_status, LineEvent, LineKind, LogMatcher, REGEX_LOBBY, REGEX_STATUS,
};

fn read_status(line: &str) -> Option<LineEvent> {
    LogMatcher::new(Regex::new(REGEX_STATUS).unwrap(), LineKind::Status).read(line)
}

fn read_lobby(line: &str) -> Option<LineEvent> {
    LogMatcher::new(Regex::new(REGEX_LOBBY).unwrap(), LineKind::Lobby).read(line)
}

fn status(line: &str) -> (u32, String, String, u32) {
    match read_status(line) {
        Some(LineEvent::Status { userid, steamid32, name, time }) => (userid, steamid32, name, time),
        other => panic!("no status line: {:?}", other),
    }
}

fn lobby(line: &str) -> (u32, Team) {
    match read_lobby(line) {
        Some(LineEvent::Lobby { userid, team, .. }) => (userid, team),
        other => panic!("no lobby line: {:?}", other),
    }
}

fn groups(texts: &[Option<&str>]) -> Vec<Option<String>> {
    texts.iter().map(|t| t.map(|s| s.to_string())).collect()
}

#[test]
fn status_line_gives_id_account_name_and_time() {
    let line = "#      3 \"Alice\"             [U:1:111]     02:05       60    0 active";
    assert_eq!(status(line), (3, "U:1:111".to_string(), "Alice".to_string(), 125));
    assert!(read_lobby(line).is_none());
}

#[test]
fn status_line_with_hours() {
    let line = "# 12 \"Bob\" [U:1:22] 1:02:03 5 0 spawning";
    assert_eq!(status(line), (12, "U:1:22".to_string(), "Bob".to_string(), 3723));
}

#[test]
fn status_line_without_space_after_hash() {
    let line = "#7 \"x\" [U:0:1] 00:00 0 0 a";
    assert_eq!(status(line), (7, "U:0:1".to_string(), "x".to_string(), 0));
}

#[test]
fn status_line_keeps_quotes_inside_the_name() {
    let line = "#  4 \"a \"quoted\" name\" [U:1:5] 00:10 50 0 active";
    assert_eq!(status(line), (4, "U:1:5".to_string(), "a \"quoted\" name".to_string(), 10));
}

#[test]
fn status_line_name_ends_at_the_last_quote_that_fits() {
    let line = "# 5 \"evil\" [U:1:999] 00:01 1 1 spawning\" [U:1:6] 1:00:00 70 0 active";
    assert_eq!(
        status(line),
        (5, "U:1:6".to_string(), "evil\" [U:1:999] 00:01 1 1 spawning".to_string(), 3600)
    );
}

#[test]
fn status_line_ignores_what_follows_the_state() {
    let line = "# 9 \"Zed\" [U:1:77] 10:00 33 1 active 192.168.0.1:27005 \"x\"\r";
    assert_eq!(status(line), (9, "U:1:77".to_string(), "Zed".to_string(), 600));
}

#[test]
fn status_line_with_empty_and_unicode_names() {
    assert_eq!(
        status("# 1 \"\" [U:1:1] 00:01 1 0 active"),
        (1, "U:1:1".to_string(), String::new(), 1)
    );
    assert_eq!(
        status("# 2 \"Zoë ✓\" [U:1:2] 00:02 1 0 active"),
        (2, "U:1:2".to_string(), "Zoë ✓".to_string(), 2)
    );
}

#[test]
fn status_line_with_too_large_numbers_is_malformed() {
    assert!(matches!(
        read_status("# 4294967296 \"Big\" [U:1:5] 00:10 50 0 active"),
        Some(LineEvent::Malformed)
    ));
    assert!(matches!(
        read_status("# 4 \"Big\" [U:1:5] 99999999:00:00 50 0 active"),
        Some(LineEvent::Malformed)
    ));
    assert_eq!(
        status("# 4294967295 \"Big\" [U:1:5] 71582788:15 50 0 active"),
        (4294967295, "U:1:5".to_string(), "Big".to_string(), 4294967295)
    );
}

#[test]
fn status_line_with_digits_of_another_script_is_malformed() {
    assert!(matches!(
        read_status("# ٣ \"Alice\" [U:1:111] 02:05 60 0 active"),
        Some(LineEvent::Malformed)
    ));
}

#[test]
fn lines_that_are_no_status_lines() {
    for line in [
        "",
        "hello",
        "# userid name                uniqueid            connected ping loss state",
        "# 3 Alice [U:1:111] 02:05 60 0 active",
        "# 3 \"Alice\" [U:1:111] 0205 60 0 active",
        "# 3 \"Alice\" [U:1:111] 2:05 60 0 active",
        "# 3 \"Alice\" [U:1:] 02:05 60 0 active",
        "# 3 \"Alice\" [U:12:5] 02:05 60 0 active",
        "# 3 \"Alice\"[U:1:111] 02:05 60 0 active",
        "# \"Alice\" [U:1:111] 02:05 60 0 active",
        " # 3 \"Alice\" [U:1:111] 02:05 60 0 active",
        "# 3 \"Alice\" [U:1:111] 02:05",
        "  Member[3] [U:1:111]  team = TF_GC_TEAM_DEFENDERS  type = MATCH_PLAYER",
    ] {
        assert!(read_status(line).is_none(), "{:?}", line);
    }
}

#[test]
fn lobby_line_gives_id_and_team() {
    assert_eq!(
        lobby("  Member[3] [U:1:111]  team = TF_GC_TEAM_DEFENDERS  type = MATCH_PLAYER"),
        (3, Team::Defenders)
    );
    assert_eq!(
        lobby("  Pending[7] [U:1:42]  team = TF_GC_TEAM_INVADERS  type = MATCH_PLAYER\r"),
        (7, Team::Invaders)
    );
    assert_eq!(
        lobby("  Member[0] [U:1:9]  team = TF_GC_TEAM_NOTEAM  type = MATCH_PLAYER   "),
        (0, Team::Unassigned)
    );
    assert_eq!(
        lobby("  Member[1] [U:1:9]  team = TF_GC_TEAM_invaders  type = MATCH_PLAYER"),
        (1, Team::Unassigned)
    );
}

#[test]
fn lobby_line_gives_the_account() {
    match read_lobby("  Member[3] [U:1:111]  team = TF_GC_TEAM_DEFENDERS  type = MATCH_PLAYER") {
        Some(LineEvent::Lobby { userid, steamid32, team }) => {
            assert_eq!((userid, steamid32.as_str(), team), (3, "U:1:111", Team::Defenders));
        }
        other => panic!("{:?}", other),
    }
}

#[test]
fn lobby_line_with_too_large_id_is_malformed() {
    assert!(matches!(
        read_lobby("  Member[4294967296] [U:1:9]  team = TF_GC_TEAM_INVADERS  type = MATCH_PLAYER"),
        Some(LineEvent::Malformed)
    ));
}

#[test]
fn lines_that_are_no_lobby_lines() {
    for line in [
        "",
        "  Member[3] [U:1:111]  team = TF_GC_TEAM_DEFENDERS  type = MATCH_PLAYER x",
        "  Member[3] [U:1:111]  team = TF_GC_TEAM_DEFENDERS  type = MATCH",
        "  Member[] [U:1:111]  team = TF_GC_TEAM_DEFENDERS  type = MATCH_PLAYER",
        "  Member[3][U:1:111]  team = TF_GC_TEAM_DEFENDERS  type = MATCH_PLAYER",
        "  Member[3] [U:1:111]  team = TF_GC_TEAM_  type = MATCH_PLAYER",
        "  Members[3] [U:1:111]  team = TF_GC_TEAM_DEFENDERS  type = MATCH_PLAYER",
        "  member[3] [U:1:111]  team = TF_GC_TEAM_DEFENDERS  type = MATCH_PLAYER",
        "Member[3] [U:1:111]  team = TF_GC_TEAM_DEFENDERS  type = MATCH_PLAYER",
        "  Member[3] [U:1:111] team = TF_GC_TEAM_DEFENDERS type = MATCH_PLAYER",
        "CTFLobbyShared: ID:00021f0e7f2f8a52  14 member(s), 0 pending",
        "#      3 \"Alice\"             [U:1:111]     02:05       60    0 active",
    ] {
        assert!(read_lobby(line).is_none(), "{:?}", line);
    }
}

#[test]
fn status_captures_are_read_group_by_group() {
    let caps = groups(&[Some("all"), Some("3"), Some("Alice"), Some("U:1:111"), Some("02:05"), Some("active")]);
    match fn_status(&caps) {
        LineEvent::Status { userid, steamid32, name, time } => {
            assert_eq!((userid, steamid32.as_str(), name.as_str(), time), (3, "U:1:111", "Alice", 125));
        }
        other => panic!("{:?}", other),
    }
    let time = |t: &str| match fn_status(&groups(&[None, Some("1"), Some("n"), Some("s"), Some(t)])) {
        LineEvent::Status { time, .. } => Some(time),
        _ => None,
    };
    assert_eq!(time("02:05"), Some(125));
    assert_eq!(time("2:5"), Some(125));
    assert_eq!(time("1:02:05"), Some(3725));
    assert_eq!(time("1:2:3:4"), Some(223384));
    assert_eq!(time("90"), Some(90));
    assert_eq!(time("71582788:15"), Some(4294967295));
    assert_eq!(time("71582788:16"), None);
    assert_eq!(time("1193046:28:15"), Some(4294967295));
    assert_eq!(time("4294967296"), None);
    assert_eq!(time(""), None);
    assert_eq!(time(":02:05"), None);
    assert_eq!(time("02:05:"), None);
    assert_eq!(time("02::05"), None);
    assert_eq!(time("02:0x"), None);
    assert_eq!(time(" 02:05"), None);
}

#[test]
fn captures_with_missing_groups_are_malformed() {
    assert!(matches!(fn_status(&groups(&[])), LineEvent::Malformed));
    assert!(matches!(
        fn_status(&groups(&[Some("all"), Some("3"), Some("Alice"), Some("U:1:111")])),
        LineEvent::Malformed
    ));
    assert!(matches!(
        fn_status(&groups(&[Some("all"), Some("3"), None, Some("U:1:111"), Some("02:05")])),
        LineEvent::Malformed
    ));
    assert!(matches!(
        fn_status(&groups(&[Some("all"), Some(""), Some("A"), Some("U:1:111"), Some("02:05")])),
        LineEvent::Malformed
    ));
    assert!(matches!(
        fn_status(&groups(&[Some("all"), Some("-3"), Some("A"), Some("U:1:111"), Some("02:05")])),
        LineEvent::Malformed
    ));
    assert!(matches!(fn_lobby(&groups(&[Some("all"), Some("3"), Some("U:1:1")])), LineEvent::Malformed));
    assert!(matches!(
        fn_lobby(&groups(&[Some("all"), None, Some("U:1:1"), Some("INVADERS")])),
        LineEvent::Malformed
    ));
    assert!(matches!(
        fn_lobby(&groups(&[Some("all"), Some("x"), Some("U:1:1"), Some("INVADERS")])),
        LineEvent::Malformed
    ));
    assert!(matches!(
        fn_lobby(&groups(&[None, Some("007"), None, Some("DEFENDERS")])),
        LineEvent::Malformed
    ));
    match fn_lobby(&groups(&[None, Some("007"), Some("U:1:7"), Some("DEFENDERS")])) {
        LineEvent::Lobby { userid, steamid32, team } => {
            assert_eq!((userid, steamid32.as_str(), team), (7, "U:1:7", Team::Defenders));
        }
        other => panic!("{:?}", other),
    }
}

#[test]
fn a_matcher_reads_as_its_kind_says() {
    let m = LogMatcher::new(Regex::new("^(\\d+) (\\w+) (\\S+) (\\S+)$").unwrap(), LineKind::Status);
    match m.read("5 Ann U:1:5 01:01") {
        Some(LineEvent::Status { userid, steamid32, name, time }) => {
            assert_eq!((userid, steamid32.as_str(), name.as_str(), time), (5, "U:1:5", "Ann", 61));
        }
        other => panic!("{:?}", other),
    }
    assert!(m.read("5 Ann U:1:5").is_none());
    let m = LogMatcher::new(Regex::new("^(\\d+) (\\w+) (\\w+) (\\S+)$").unwrap(), LineKind::Lobby);
    match m.read("5 Ann INVADERS 01:01") {
        Some(LineEvent::Lobby { userid, steamid32, team }) => {
            assert_eq!((userid, steamid32.as_str(), team), (5, "Ann", Team::Invaders));
        }
        other => panic!("{:?}", other),
    }
    let m = LogMatcher::new(Regex::new("(a)|(b)").unwrap(), LineKind::Lobby);
    assert!(matches!(m.read("b"), Some(LineEvent::Malformed)));
    assert!(m.read("c").is_none());
}
