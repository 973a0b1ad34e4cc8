use tf2_bot_kicker::command_manager::{
    CommandManager, CommandOutcome, ConnectOutcome, ConnectionState,
};
use tf2_bot_kicker::logwatcher::{FileStat, LogWatcher};
use tf2_bot_kicker::player::{PlayerRecord, PlayerType, Team};
use tf2_bot_kicker::player_checker::{ImportError, PlayerChecker};
use regex::Regex;
use tf2_bot_kicker::regexes::{LineEvent, REGEX_LOBBY, REGEX_STATUS};
use tf2_bot_kicker::settings::Settings;
use tf2_bot_kicker::state::{Due, RefreshAction, RefreshEvent, RefreshPhase, State, NAME_STEALER_NOTE};

const ALICE: &str = "#      3 \"Alice\"             [U:1:111]     02:05       60    0 active";
const ALICE_LOBBY: &str = "  Member[3] [U:1:111]  team = TF_GC_TEAM_DEFENDERS  type = MATCH_PLAYER";

fn state(
    demo_mode: bool,
    settings: Settings,
    checker: PlayerChecker,
    log: Option<LogWatcher>,
    now: u64,
) -> State {
    State::new(demo_mode, settings, checker, log, now).unwrap()
}

fn fresh() -> State {
    state(false, Settings::new(), PlayerChecker::new(), None, 0)
}

fn ready() -> CommandManager {
    let mut cmd = CommandManager::new();
    cmd.start_connect("tf2bk");
    cmd.finish_connect("tf2bk", ConnectOutcome::Accepted).unwrap();
    cmd
}

fn ids(s: &State) -> Vec<u32> {
    s.server.get_players().iter().map(|p| p.userid).collect()
}

fn snapshot(s: &State) -> Vec<String> {
    s.server.get_players().iter().map(|p| format!("{:?}", p)).collect()
}

fn sent(a: RefreshAction) -> String {
    match a {
        RefreshAction::Send(c) => c,
        other => panic!("nothing sent: {:?}", other),
    }
}

#[test]
fn a_status_line_shows_one_player() {
    let mut s = fresh();
    s.ingest_line(ALICE);
    assert_eq!(s.server.get_players().len(), 1);
    let p = s.server.get_player(3).unwrap();
    assert_eq!((p.userid, p.steamid32.as_str(), p.name.as_str()), (3, "U:1:111", "Alice"));
    assert_eq!((p.team, p.time, p.player_type), (Team::Unassigned, 125, PlayerType::Player));
    assert_eq!(tf2_bot_kicker::gui::format_time(p.time), "2:05");
}

#[test]
fn a_lobby_line_after_the_status_line_sets_the_team() {
    let mut s = fresh();
    s.ingest_line(ALICE);
    s.ingest_line(ALICE_LOBBY);
    assert_eq!(s.server.get_players().len(), 1);
    let p = s.server.get_player(3).unwrap();
    assert_eq!((p.team, p.name.as_str(), p.time), (Team::Defenders, "Alice", 125));
}

#[test]
fn a_new_state_holds_the_two_patterns() {
    let s = fresh();
    assert_eq!(s.regx_status.r.as_str(), REGEX_STATUS);
    assert_eq!(s.regx_lobby.r.as_str(), REGEX_LOBBY);
    assert_eq!(s.phase(), RefreshPhase::Idle);
    assert!(s.outbox.is_empty() && s.log.is_none());
}

#[test]
fn a_state_needs_both_patterns_compiled() {
    let make = |status: &str, lobby: &str| {
        State::with_compiled(
            false,
            Settings::new(),
            PlayerChecker::new(),
            None,
            Regex::new(status),
            Regex::new(lobby),
            5,
        )
    };
    let s = make("a(b)", "c").ok().unwrap();
    assert_eq!((s.regx_status.r.as_str(), s.regx_lobby.r.as_str()), ("a(b)", "c"));
    assert_eq!(s.refresh_timer.last, 5);
    assert!(matches!(make("a(b", "c"), Err(ImportError::BadPattern)));
    assert!(matches!(make("a", "[z-a]"), Err(ImportError::BadPattern)));
    assert!(matches!(make("(", ")"), Err(ImportError::BadPattern)));
}

#[test]
fn a_line_is_tried_by_both_matchers() {
    let both = Regex::new("^(\\d+) (\\w+) (\\w+) (\\S+)$").unwrap();
    let mut s = State::with_matchers(
        false,
        Settings::new(),
        PlayerChecker::new(),
        None,
        both.clone(),
        both,
        0,
    );
    s.ingest_line("5 Ann INVADERS 01:01");
    let p = s.server.get_player(5).unwrap();
    assert_eq!((p.name.as_str(), p.steamid32.as_str(), p.team, p.time), ("", "Ann", Team::Invaders, 0));
    assert_eq!(s.server.get_players().len(), 1);
    let once = snapshot(&s);
    s.ingest_line("5 Ann INVADERS 01:01");
    assert_eq!(snapshot(&s), once);
}

#[test]
fn a_lobby_line_for_an_unknown_player_creates_it_without_a_name() {
    let mut checker = PlayerChecker::new();
    checker.add_regex("^Al", PlayerType::Suspicious).unwrap();
    checker.update_player_record(PlayerRecord {
        steamid: "U:1:4".to_string(),
        player_type: PlayerType::Cheater,
        notes: "known".to_string(),
    });
    let mut s = state(false, Settings::new(), checker, None, 0);
    s.ingest_line(ALICE_LOBBY);
    s.ingest_line("  Member[4] [U:1:4]  team = TF_GC_TEAM_INVADERS  type = MATCH_PLAYER");
    assert_eq!(ids(&s), vec![3, 4]);
    let p = s.server.get_player(3).unwrap();
    assert_eq!((p.steamid32.as_str(), p.name.as_str(), p.team, p.time), ("U:1:111", "", Team::Defenders, 0));
    assert_eq!((p.player_type, p.common_name, p.accounted), (PlayerType::Player, false, true));
    let p = s.server.get_player(4).unwrap();
    assert_eq!((p.player_type, p.notes.as_str()), (PlayerType::Cheater, "known"));
    s.ingest_line(ALICE);
    assert_eq!(ids(&s), vec![3, 4]);
    let p = s.server.get_player(3).unwrap();
    assert_eq!((p.name.as_str(), p.team, p.time), ("Alice", Team::Defenders, 125));
    assert_eq!((p.player_type, p.common_name), (PlayerType::Suspicious, true));
    assert!(p.previous_names.is_empty() && !p.stolen_name);
    assert!(s.outbox.is_empty());
}

#[test]
fn feeding_a_line_twice_is_feeding_it_once() {
    let mut checker = PlayerChecker::new();
    checker.add_regex("^Al", PlayerType::Bot).unwrap();
    let mut s = state(false, Settings::new(), checker, None, 0);
    s.ingest_line("# 2 \"Bob\" [U:1:2] 00:10 60 0 active");
    for line in [ALICE, ALICE_LOBBY, "# 2 \"Alice\" [U:1:2] 00:20 60 0 active", "noise"] {
        s.ingest_line(line);
        let once = snapshot(&s);
        let records = s.player_checker.get_records().len();
        s.ingest_line(line);
        assert_eq!(snapshot(&s), once, "{}", line);
        assert_eq!(s.player_checker.get_records().len(), records);
    }
    assert_eq!(s.server.get_players().len(), 2);
}

#[test]
fn new_players_are_labelled_by_the_rules() {
    let mut checker = PlayerChecker::new();
    checker.add_regex("^Al", PlayerType::Suspicious).unwrap();
    checker.update_player_record(PlayerRecord {
        steamid: "U:1:111".to_string(),
        player_type: PlayerType::Cheater,
        notes: "known".to_string(),
    });
    let mut s = state(false, Settings::new(), checker, None, 0);
    s.ingest_line(ALICE);
    s.ingest_line("# 4 \"Alfred\" [U:1:4] 00:10 60 0 active");
    s.ingest_line("# 5 \"Bob\" [U:1:5] 00:10 60 0 active");
    let p = s.server.get_player(3).unwrap();
    assert_eq!((p.player_type, p.notes.as_str(), p.common_name), (PlayerType::Cheater, "known", true));
    let p = s.server.get_player(4).unwrap();
    assert_eq!((p.player_type, p.notes.as_str(), p.common_name), (PlayerType::Suspicious, "", true));
    let p = s.server.get_player(5).unwrap();
    assert_eq!((p.player_type, p.notes.as_str(), p.common_name), (PlayerType::Player, "", false));
}

#[test]
fn a_stolen_name_marks_the_account_and_is_announced() {
    let mut s = fresh();
    s.ingest_line(ALICE);
    s.ingest_line("# 8 \"xX\" [U:1:8] 00:10 60 0 active");
    assert!(s.outbox.is_empty());
    s.ingest_line("# 8 \"Alice\" [U:1:8] 00:20 60 0 active");
    let p = s.server.get_player(8).unwrap();
    assert_eq!(p.player_type, PlayerType::Bot);
    assert_eq!(p.notes, NAME_STEALER_NOTE);
    assert_eq!(p.notes, "Automatically marked as name-stealing bot.");
    assert!(p.stolen_name);
    assert_eq!(p.previous_names, vec!["xX".to_string()]);
    assert_eq!(s.server.get_player(3).unwrap().player_type, PlayerType::Player);
    assert_eq!(s.outbox, vec!["A bot has stolen Alice's name.".to_string()]);
    let saved = s.player_checker.check_player_steamid("U:1:8").unwrap();
    assert_eq!((saved.player_type, saved.notes.as_str()), (PlayerType::Bot, NAME_STEALER_NOTE));
}

#[test]
fn a_stolen_name_is_handled_as_the_settings_say() {
    let mut set = Settings::new();
    set.mark_name_stealers = false;
    set.announce_namesteal = false;
    let mut s = state(false, set, PlayerChecker::new(), None, 0);
    s.ingest_line(ALICE);
    s.ingest_line("# 8 \"xX\" [U:1:8] 00:10 60 0 active");
    s.ingest_line("# 8 \"Alice\" [U:1:8] 00:20 60 0 active");
    let p = s.server.get_player(8).unwrap();
    assert_eq!((p.player_type, p.stolen_name), (PlayerType::Player, true));
    assert!(s.outbox.is_empty());
    assert!(s.player_checker.get_records().is_empty());

    let mut checker = PlayerChecker::new();
    checker.update_player_record(PlayerRecord {
        steamid: "U:1:8".to_string(),
        player_type: PlayerType::Player,
        notes: "friend".to_string(),
    });
    let mut set = Settings::new();
    set.paused = true;
    let mut s = state(false, set, checker, None, 0);
    s.ingest_line(ALICE);
    s.ingest_line("# 8 \"xX\" [U:1:8] 00:10 60 0 active");
    s.ingest_line("# 8 \"Alice\" [U:1:8] 00:20 60 0 active");
    let p = s.server.get_player(8).unwrap();
    assert_eq!((p.player_type, p.notes.as_str()), (PlayerType::Player, "friend"));
    assert!(s.outbox.is_empty());
}

#[test]
fn events_can_be_applied_without_a_line() {
    let mut s = fresh();
    s.apply_event(&LineEvent::Status {
        userid: 1,
        steamid32: "U:1:1".to_string(),
        name: "Ann".to_string(),
        time: 61,
    });
    s.apply_event(&LineEvent::Lobby {
        userid: 1,
        steamid32: "U:1:1".to_string(),
        team: Team::Invaders,
    });
    s.apply_event(&LineEvent::Malformed);
    let p = s.server.get_player(1).unwrap();
    assert_eq!((p.name.as_str(), p.team, p.time), ("Ann", Team::Invaders, 61));
    assert_eq!(s.server.get_players().len(), 1);
}

#[test]
fn a_refresh_prunes_and_takes_in_both_responses() {
    let mut s = fresh();
    let mut cmd = ready();
    s.ingest_line(ALICE);
    s.ingest_line("# 4 \"Bob\" [U:1:4] 00:10 60 0 active");
    assert_eq!(sent(s.refresh(&mut cmd, RefreshEvent::Tick)), "status");
    assert_eq!(s.phase(), RefreshPhase::AwaitStatus);
    assert_eq!(ids(&s), vec![3, 4]);
    let status = format!("hostname: x\n{}\n# 5 \"Eve\" [U:1:5] 00:01 60 0 spawning\n", ALICE);
    let a = s.refresh(&mut cmd, RefreshEvent::Answered(CommandOutcome::Response(status)));
    assert_eq!(sent(a), "tf_lobby_debug");
    assert_eq!(s.phase(), RefreshPhase::AwaitLobby);
    assert_eq!(ids(&s), vec![3, 4]);
    assert!(s.server.get_players().iter().all(|p| p.accounted));
    let lobby = format!("CTFLobbyShared: 2 member(s)\n{}\n  Member[4] [U:1:4]  team = TF_GC_TEAM_INVADERS  type = MATCH_PLAYER\n", ALICE_LOBBY);
    let a = s.refresh(&mut cmd, RefreshEvent::Answered(CommandOutcome::Response(lobby)));
    assert!(matches!(a, RefreshAction::Nothing));
    assert_eq!(s.phase(), RefreshPhase::Idle);
    assert_eq!(ids(&s), vec![3, 4, 5]);
    assert_eq!(s.server.get_player(3).unwrap().team, Team::Defenders);
    assert_eq!(s.server.get_player(4).unwrap().team, Team::Invaders);

    assert_eq!(sent(s.refresh(&mut cmd, RefreshEvent::Tick)), "status");
    assert_eq!(ids(&s), vec![3, 4, 5]);
    let a = s.refresh(&mut cmd, RefreshEvent::Answered(CommandOutcome::Response(ALICE.to_string())));
    assert_eq!(sent(a), "tf_lobby_debug");
    assert_eq!(ids(&s), vec![3, 4, 5]);
    let a = s.refresh(&mut cmd, RefreshEvent::Answered(CommandOutcome::Response(String::new())));
    assert!(matches!(a, RefreshAction::Nothing));
    assert_eq!(ids(&s), vec![3]);
    assert_eq!(s.server.get_player(3).unwrap().team, Team::Defenders);
    assert_eq!(sent(s.refresh(&mut cmd, RefreshEvent::Tick)), "status");
    assert_eq!(ids(&s), vec![3]);
}

#[test]
fn a_tick_whose_command_fails_changes_no_player() {
    let mut s = fresh();
    s.ingest_line(ALICE);
    s.ingest_line("# 4 \"Bob\" [U:1:4] 00:10 60 0 active");
    s.server.prune();
    s.ingest_line(ALICE);
    let before = snapshot(&s);
    for failure in [0, 1, 2] {
        let mut cmd = ready();
        assert_eq!(sent(s.refresh(&mut cmd, RefreshEvent::Tick)), "status");
        assert_eq!(snapshot(&s), before);
        let a = match failure {
            0 => s.refresh(&mut cmd, RefreshEvent::Answered(CommandOutcome::TransportFailed)),
            1 => s.refresh(&mut cmd, RefreshEvent::Answered(CommandOutcome::ProtocolFailed)),
            _ => {
                let a = s.refresh(
                    &mut cmd,
                    RefreshEvent::Answered(CommandOutcome::Response("# 9 \"Zed\" [U:1:9] 00:01 1 0 active".to_string())),
                );
                assert_eq!(sent(a), "tf_lobby_debug");
                assert_eq!(snapshot(&s), before);
                s.refresh(&mut cmd, RefreshEvent::Answered(CommandOutcome::TransportFailed))
            }
        };
        assert!(matches!(a, RefreshAction::Nothing));
        assert_eq!(s.phase(), RefreshPhase::Idle);
        assert_eq!(snapshot(&s), before);
    }
    let mut cmd = ready();
    assert_eq!(sent(s.refresh(&mut cmd, RefreshEvent::Tick)), "status");
    assert_eq!(snapshot(&s), before);
    assert_eq!(ids(&s), vec![3, 4]);
    assert!(s.server.get_player(3).unwrap().accounted);
    assert!(!s.server.get_player(4).unwrap().accounted);

    let mut off = CommandManager::new();
    assert!(matches!(s.refresh(&mut off, RefreshEvent::Tick), RefreshAction::Connect));
    let a = s.refresh(&mut off, RefreshEvent::Connected(ConnectOutcome::Unreachable));
    assert!(matches!(a, RefreshAction::Nothing));
    assert_eq!(snapshot(&s), before);
}

#[test]
fn a_refresh_connects_first_where_no_session_is_ready() {
    let mut s = fresh();
    let mut cmd = CommandManager::new();
    s.ingest_line(ALICE);
    assert!(matches!(s.refresh(&mut cmd, RefreshEvent::Tick), RefreshAction::Connect));
    assert_eq!(s.phase(), RefreshPhase::Connecting);
    assert_eq!(cmd.state(), ConnectionState::Connecting);
    let a = s.refresh(&mut cmd, RefreshEvent::Connected(ConnectOutcome::WrongPassword));
    assert!(matches!(a, RefreshAction::Nothing));
    assert_eq!(s.phase(), RefreshPhase::Idle);
    assert_eq!(cmd.state(), ConnectionState::AuthFailed);
    assert!(matches!(s.refresh(&mut cmd, RefreshEvent::Tick), RefreshAction::Nothing));
    assert_eq!(ids(&s), vec![3]);
    assert!(s.server.get_player(3).unwrap().accounted);
    s.settings.rcon_password = "better".to_string();
    assert!(matches!(s.refresh(&mut cmd, RefreshEvent::Tick), RefreshAction::Connect));
    let a = s.refresh(&mut cmd, RefreshEvent::Connected(ConnectOutcome::Accepted));
    assert_eq!(sent(a), "status");
    assert_eq!(cmd.state(), ConnectionState::Ready);
    assert!(s.server.get_player(3).unwrap().accounted);
    assert_eq!(ids(&s), vec![3]);
}

#[test]
fn a_refresh_ends_where_a_command_brings_nothing() {
    let mut s = fresh();
    let mut cmd = ready();
    assert_eq!(sent(s.refresh(&mut cmd, RefreshEvent::Tick)), "status");
    let a = s.refresh(&mut cmd, RefreshEvent::Answered(CommandOutcome::TransportFailed));
    assert!(matches!(a, RefreshAction::Nothing));
    assert_eq!(s.phase(), RefreshPhase::Idle);
    assert_eq!(cmd.state(), ConnectionState::ConnectionLost);
    let a = s.refresh(&mut cmd, RefreshEvent::Answered(CommandOutcome::Response(ALICE.to_string())));
    assert!(matches!(a, RefreshAction::Nothing));
    assert!(s.server.get_players().is_empty());
    let a = s.refresh(&mut cmd, RefreshEvent::Connected(ConnectOutcome::Accepted));
    assert!(matches!(a, RefreshAction::Nothing));
    assert_eq!(cmd.state(), ConnectionState::ConnectionLost);
}

#[test]
fn a_failed_lobby_command_leaves_the_status_lines_out() {
    let mut s = fresh();
    let mut cmd = ready();
    s.ingest_line(ALICE);
    assert_eq!(sent(s.refresh(&mut cmd, RefreshEvent::Tick)), "status");
    let before = snapshot(&s);
    let status = "# 5 \"Eve\" [U:1:5] 00:01 60 0 spawning\n# 3 \"Alicia\" [U:1:111] 02:10 60 0 active\n";
    let a = s.refresh(&mut cmd, RefreshEvent::Answered(CommandOutcome::Response(status.to_string())));
    assert_eq!(sent(a), "tf_lobby_debug");
    assert_eq!(snapshot(&s), before);
    let a = s.refresh(&mut cmd, RefreshEvent::Answered(CommandOutcome::TransportFailed));
    assert!(matches!(a, RefreshAction::Nothing));
    assert_eq!(s.phase(), RefreshPhase::Idle);
    assert_eq!(snapshot(&s), before);
    assert_eq!(ids(&s), vec![3]);
    assert_eq!(s.server.get_player(3).unwrap().name, "Alice");

    let mut cmd = ready();
    assert_eq!(sent(s.refresh(&mut cmd, RefreshEvent::Tick)), "status");
    let a = s.refresh(&mut cmd, RefreshEvent::Answered(CommandOutcome::Response(ALICE.to_string())));
    assert_eq!(sent(a), "tf_lobby_debug");
    let a = s.refresh(&mut cmd, RefreshEvent::Answered(CommandOutcome::Response(ALICE_LOBBY.to_string())));
    assert!(matches!(a, RefreshAction::Nothing));
    assert_eq!(ids(&s), vec![3]);
    let p = s.server.get_player(3).unwrap();
    assert_eq!((p.name.as_str(), p.team, p.accounted), ("Alice", Team::Defenders, true));
}

#[test]
fn the_parts_of_a_state_can_be_read() {
    let mut checker = PlayerChecker::new();
    checker.update_player_record(PlayerRecord {
        steamid: "U:1:111".to_string(),
        player_type: PlayerType::Cheater,
        notes: "late".to_string(),
    });
    let mut s = fresh();
    s.ingest_line(ALICE);
    s.ingest_line("# 8 \"xX\" [U:1:8] 00:10 60 0 active");
    s.ingest_line("# 8 \"Alice\" [U:1:8] 00:20 60 0 active");
    assert_eq!(s.get_server().get_players().len(), 2);
    assert_eq!(s.get_settings().rcon_password, "tf2bk");
    assert_eq!(s.get_player_checker().get_records().len(), 1);
    assert!(s.get_log().is_none());
    assert_eq!(s.get_outbox(), &vec!["A bot has stolen Alice's name.".to_string()]);
    assert_eq!(s.take_outbox(), vec!["A bot has stolen Alice's name.".to_string()]);
    assert!(s.get_outbox().is_empty());
    assert!(s.take_outbox().is_empty());
    s.player_checker = checker;
    assert_eq!(s.server.get_player(3).unwrap().player_type, PlayerType::Player);
    s.apply_saved_records();
    let p = s.server.get_player(3).unwrap();
    assert_eq!((p.player_type, p.notes.as_str(), p.name.as_str()), (PlayerType::Cheater, "late", "Alice"));
    assert_eq!(s.server.get_player(8).unwrap().player_type, PlayerType::Bot);
}

#[test]
fn demo_mode_shows_made_up_players_and_never_refreshes() {
    let mut checker = PlayerChecker::new();
    checker.update_player_record(PlayerRecord {
        steamid: "U:1:1314494843".to_string(),
        player_type: PlayerType::Bot,
        notes: "demo".to_string(),
    });
    let mut s = state(true, Settings::new(), checker, None, 7);
    assert!(s.is_demo());
    assert!(!fresh().is_demo());
    assert_eq!(ids(&s), vec![1, 2, 3, 4, 5, 6]);
    let names: Vec<&str> = s.server.get_players().iter().map(|p| p.name.as_str()).collect();
    assert_eq!(names, vec!["Bash09", "Baan", "Random bot", "SmooveB", "Some cunt", "ASS"]);
    let teams: Vec<Team> = s.server.get_players().iter().map(|p| p.team).collect();
    assert_eq!(
        teams,
        vec![
            Team::Invaders,
            Team::Defenders,
            Team::Defenders,
            Team::Invaders,
            Team::Invaders,
            Team::Defenders
        ]
    );
    let p = s.server.get_player(3).unwrap();
    assert_eq!((p.steamid32.as_str(), p.player_type, p.notes.as_str()), ("U:1:1314494843", PlayerType::Bot, "demo"));
    assert_eq!(s.server.get_player(1).unwrap().player_type, PlayerType::Player);
    let mut cmd = ready();
    assert!(matches!(s.refresh(&mut cmd, RefreshEvent::Tick), RefreshAction::Nothing));
    assert_eq!(s.phase(), RefreshPhase::Idle);
    assert_eq!(ids(&s).len(), 6);
    assert!(fresh().server.get_players().is_empty());
}

#[test]
fn timers_say_what_is_due() {
    let mut s = state(false, Settings::new(), PlayerChecker::new(), None, 1_000);
    assert_eq!(s.tick(1_000), Due { refresh: false, kick: false, alert: false });
    assert_eq!(s.tick(10_999), Due { refresh: false, kick: false, alert: false });
    assert_eq!(s.tick(11_000), Due { refresh: true, kick: true, alert: false });
    assert_eq!((s.refresh_timer.last, s.kick_timer.last, s.alert_timer.last), (11_000, 11_000, 1_000));
    s.settings.announce_cheaters = true;
    s.settings.kick_bots = false;
    assert_eq!(s.tick(21_000), Due { refresh: true, kick: false, alert: true });
    assert_eq!((s.refresh_timer.last, s.kick_timer.last, s.alert_timer.last), (21_000, 21_000, 21_000));
    s.settings.kick_cheaters = true;
    s.settings.paused = true;
    assert_eq!(s.tick(50_000), Due { refresh: true, kick: false, alert: false });
    s.settings.paused = false;
    s.settings.refresh_period = 500;
    assert_eq!(s.tick(50_500), Due { refresh: true, kick: false, alert: false });
    assert_eq!(s.tick(60_000), Due { refresh: true, kick: true, alert: false });
}

#[test]
fn votes_and_announcements_wait_while_paused() {
    let mut checker = PlayerChecker::new();
    checker.add_regex("^Al", PlayerType::Bot).unwrap();
    let mut set = Settings::new();
    set.announce_bots = true;
    set.dont_announce_common_names = false;
    let mut s = state(false, set, checker, None, 0);
    s.ingest_line(ALICE);
    s.ingest_line("# 4 \"Bob\" [U:1:4] 00:10 60 0 active");
    assert!(s.kick_commands(&CommandManager::new()).is_empty());
    assert_eq!(s.kick_commands(&ready()), vec!["callvote kick \"3 cheating\""]);
    s.settings.paused = true;
    assert!(s.kick_commands(&ready()).is_empty());
    assert_eq!(s.announce(), None);
    assert!(!s.server.get_player(3).unwrap().announced);
    s.settings.paused = false;
    assert_eq!(s.announce(), Some("Alert! Bot Alice".to_string()));
    assert_eq!(s.announce(), None);
}

#[test]
fn the_users_verdict_is_applied_and_saved() {
    let mut s = fresh();
    s.ingest_line(ALICE);
    s.update_player(PlayerRecord {
        steamid: "U:1:111".to_string(),
        player_type: PlayerType::Cheater,
        notes: "aimbot".to_string(),
    });
    let p = s.server.get_player(3).unwrap();
    assert_eq!((p.player_type, p.notes.as_str(), p.name.as_str(), p.time), (PlayerType::Cheater, "aimbot", "Alice", 125));
    assert_eq!(s.player_checker.classify("U:1:111", "whoever"), PlayerType::Cheater);
    s.server.prune();
    s.server.sweep();
    assert!(s.server.get_players().is_empty());
    s.ingest_line(ALICE);
    assert_eq!(s.server.get_player(3).unwrap().player_type, PlayerType::Cheater);
}

#[test]
fn log_bytes_are_taken_in_line_by_line() {
    let log = LogWatcher::register(FileStat { id: 1, len: 0 });
    let mut s = state(false, Settings::new(), PlayerChecker::new(), Some(log), 0);
    let text = format!("{}\r\n{}\r\n# 4 \"Bo", ALICE, ALICE_LOBBY);
    s.read_log(text.as_bytes());
    assert_eq!(ids(&s), vec![3]);
    assert_eq!(s.server.get_player(3).unwrap().team, Team::Defenders);
    s.read_log(b"b\" [U:1:4] 00:10 60 0 active\n");
    assert_eq!(ids(&s), vec![3, 4]);
    assert_eq!(s.server.get_player(4).unwrap().name, "Bob");
    let mut none = fresh();
    none.read_log(text.as_bytes());
    assert!(none.server.get_players().is_empty());
}
