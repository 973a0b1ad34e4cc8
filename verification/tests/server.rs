use tf2_bot_kicker::gui::format_time;
use tf2_bot_kicker::player::{Player, PlayerRecord, PlayerType, Team};
use tf2_bot_kicker::server::{Server, Sighted};
use tf2_bot_kicker::settings::Settings;

fn snapshot(s: &Server) -> Vec<(u32, String, String, Team, u32, bool, PlayerType)> {
    s.get_players()
        .iter()
        .map(|p| {
            (p.userid, p.steamid32.clone(), p.name.clone(), p.team, p.time, p.accounted, p.player_type)
        })
        .collect()
}

#[test]
fn status_sighting_creates_one_player_without_team() {
    let mut s = Server::new();
    assert_eq!(s.update_or_insert(3, "U:1:111", "Alice", None, Some(125)), Sighted::Joined);
    assert_eq!(s.get_players().len(), 1);
    let p = s.get_player(3).unwrap();
    assert_eq!(p.userid, 3);
    assert_eq!(p.steamid32, "U:1:111");
    assert_eq!(p.name, "Alice");
    assert_eq!(p.team, Team::Unassigned);
    assert_eq!(p.time, 125);
    assert_eq!(format_time(p.time), "2:05");
    assert_eq!(p.player_type, PlayerType::Player);
    assert!(p.accounted && !p.stolen_name && !p.common_name && !p.announced);
    assert!(p.previous_names.is_empty() && p.notes.is_empty());
}

#[test]
fn lobby_assignment_changes_only_the_team() {
    let mut s = Server::new();
    s.update_or_insert(3, "U:1:111", "Alice", None, Some(125));
    assert_eq!(s.update_or_insert(3, "U:1:111", "", Some(Team::Defenders), None), Sighted::Seen);
    let p = s.get_player(3).unwrap();
    assert_eq!((p.team, p.name.as_str(), p.time), (Team::Defenders, "Alice", 125));
    assert!(p.previous_names.is_empty());
    assert_eq!(s.get_players().len(), 1);
}

#[test]
fn a_sighting_without_name_creates_a_player_that_is_named_later() {
    let mut s = Server::new();
    s.update_or_insert(1, "U:1:1", "Alice", None, Some(9));
    assert_eq!(s.update_or_insert(4, "U:1:4", "", Some(Team::Invaders), None), Sighted::Joined);
    let p = s.get_player(4).unwrap();
    assert_eq!((p.steamid32.as_str(), p.name.as_str(), p.team, p.time), ("U:1:4", "", Team::Invaders, 0));
    assert!(p.accounted);
    assert_eq!(s.update_or_insert(4, "U:1:4", "", Some(Team::Defenders), None), Sighted::Seen);
    assert_eq!(s.update_or_insert(4, "U:1:4", "Alice", None, Some(30)), Sighted::Joined);
    let p = s.get_player(4).unwrap();
    assert_eq!((p.name.as_str(), p.team, p.time), ("Alice", Team::Defenders, 30));
    assert!(p.previous_names.is_empty() && !p.stolen_name);
    assert_eq!(s.update_or_insert(4, "U:1:4", "", None, Some(31)), Sighted::Seen);
    assert_eq!(s.get_player(4).unwrap().name, "Alice");
    assert_eq!(s.get_players().len(), 2);
}

#[test]
fn a_sighting_without_team_keeps_the_team() {
    let mut s = Server::new();
    s.update_or_insert(3, "U:1:111", "Alice", Some(Team::Invaders), None);
    assert_eq!(s.get_player(3).unwrap().time, 0);
    assert_eq!(s.update_or_insert(3, "U:1:111", "Alice", None, Some(130)), Sighted::Seen);
    let p = s.get_player(3).unwrap();
    assert_eq!((p.team, p.time), (Team::Invaders, 130));
    assert_eq!(s.update_or_insert(3, "U:1:111", "Alice", Some(Team::Defenders), None), Sighted::Seen);
    let p = s.get_player(3).unwrap();
    assert_eq!((p.team, p.time), (Team::Defenders, 130));
}

#[test]
fn seeing_the_same_line_twice_changes_nothing_more() {
    let mut s = Server::new();
    s.update_or_insert(1, "U:1:1", "Bob", None, Some(5));
    s.update_or_insert(3, "U:1:111", "Alice", None, Some(125));
    let once = snapshot(&s);
    assert_eq!(s.update_or_insert(3, "U:1:111", "Alice", None, Some(125)), Sighted::Seen);
    assert_eq!(snapshot(&s), once);
    s.update_or_insert(3, "U:1:111", "", Some(Team::Defenders), None);
    let once = snapshot(&s);
    s.update_or_insert(3, "U:1:111", "", Some(Team::Defenders), None);
    assert_eq!(snapshot(&s), once);
}

#[test]
fn a_new_name_is_kept_with_the_earlier_names() {
    let mut s = Server::new();
    s.update_or_insert(1, "U:1:1", "Bob", None, Some(5));
    s.update_or_insert(2, "U:1:2", "Carl", None, Some(6));
    assert_eq!(
        s.update_or_insert(2, "U:1:2", "Carlo", None, Some(7)),
        Sighted::Renamed { stolen: false }
    );
    assert_eq!(
        s.update_or_insert(2, "U:1:2", "Bob", None, Some(8)),
        Sighted::Renamed { stolen: true }
    );
    let p = s.get_player(2).unwrap();
    assert_eq!(p.name, "Bob");
    assert_eq!(p.previous_names, vec!["Carl".to_string(), "Carlo".to_string()]);
    assert!(p.stolen_name);
    assert!(!s.get_player(1).unwrap().stolen_name);
    assert_eq!(
        s.update_or_insert(2, "U:1:2", "Dave", None, Some(9)),
        Sighted::Renamed { stolen: false }
    );
    assert!(s.get_player(2).unwrap().stolen_name);
}

#[test]
fn another_account_on_a_connection_id_replaces_the_player() {
    let mut s = Server::new();
    s.update_or_insert(1, "U:1:1", "Bob", Some(Team::Invaders), Some(50));
    s.update_or_insert(2, "U:1:2", "Carl", None, Some(6));
    s.update_player_from_record(PlayerRecord {
        steamid: "U:1:1".to_string(),
        player_type: PlayerType::Cheater,
        notes: "seen".to_string(),
    });
    assert_eq!(s.update_or_insert(1, "U:1:9", "Bob", None, Some(1)), Sighted::Joined);
    assert_eq!(s.get_players().len(), 2);
    let p = &s.get_players()[0];
    assert_eq!((p.userid, p.steamid32.as_str(), p.team, p.time), (1, "U:1:9", Team::Unassigned, 1));
    assert_eq!(p.player_type, PlayerType::Player);
    assert!(p.notes.is_empty());
}

#[test]
fn a_cycle_keeps_the_players_seen_since_the_pruning() {
    let mut s = Server::new();
    s.update_or_insert(1, "U:1:1", "Bob", None, Some(5));
    s.update_or_insert(2, "U:1:2", "Carl", None, Some(6));
    s.update_or_insert(3, "U:1:3", "Dora", None, Some(7));
    s.prune();
    assert_eq!(s.get_players().len(), 3);
    assert!(s.get_players().iter().all(|p| !p.accounted));
    let names: Vec<&str> = s.get_players().iter().map(|p| p.name.as_str()).collect();
    assert_eq!(names, vec!["Bob", "Carl", "Dora"]);
    s.prune();
    assert_eq!(s.get_players().len(), 3);
    s.update_or_insert(1, "U:1:1", "Bob", None, Some(15));
    s.update_or_insert(3, "U:1:3", "", Some(Team::Invaders), None);
    s.sweep();
    let ids: Vec<u32> = s.get_players().iter().map(|p| p.userid).collect();
    assert_eq!(ids, vec![1, 3]);
    assert!(s.get_player(2).is_none());
    assert!(s.get_players().iter().all(|p| p.accounted));
    assert_eq!(s.get_player(1).unwrap().time, 15);
    s.sweep();
    assert_eq!(s.get_players().len(), 2);
    s.prune();
    s.sweep();
    assert!(s.get_players().is_empty());
    s.sweep();
    assert!(s.get_players().is_empty());
}

#[test]
fn a_record_changes_label_and_notes_of_its_account_only() {
    let mut s = Server::new();
    s.update_or_insert(1, "U:1:1", "Bob", Some(Team::Invaders), Some(5));
    s.update_or_insert(2, "U:1:2", "Carl", None, Some(6));
    s.update_or_insert(3, "U:1:1", "Bob again", None, Some(7));
    s.update_player_from_record(PlayerRecord {
        steamid: "U:1:1".to_string(),
        player_type: PlayerType::Suspicious,
        notes: "twice".to_string(),
    });
    let labels: Vec<(PlayerType, String)> =
        s.get_players().iter().map(|p| (p.player_type, p.notes.clone())).collect();
    assert_eq!(
        labels,
        vec![
            (PlayerType::Suspicious, "twice".to_string()),
            (PlayerType::Player, String::new()),
            (PlayerType::Suspicious, "twice".to_string()),
        ]
    );
    let p = s.get_player(1).unwrap();
    assert_eq!((p.name.as_str(), p.team, p.time, p.accounted), ("Bob", Team::Invaders, 5, true));
    s.update_player_from_record(PlayerRecord {
        steamid: "U:1:404".to_string(),
        player_type: PlayerType::Bot,
        notes: String::new(),
    });
    assert_eq!(s.get_player(2).unwrap().player_type, PlayerType::Player);
}

#[test]
fn storing_a_player_replaces_or_adds() {
    let mut s = Server::new();
    s.store(Player::new(5, "U:1:5", "Eve"));
    let mut p = Player::new(5, "U:1:5", "Eve");
    p.player_type = PlayerType::Bot;
    p.time = 9;
    s.store(p.clone());
    s.store(Player::new(6, "U:1:6", "Fay"));
    assert_eq!(s.get_players().len(), 2);
    assert_eq!(s.get_player(5).unwrap().player_type, PlayerType::Bot);
    assert_eq!(p.get_record().steamid, "U:1:5");
    assert_eq!(p.get_record().player_type, PlayerType::Bot);
}

fn labelled(s: &mut Server, userid: u32, name: &str, t: PlayerType, common: bool) {
    let mut p = Player::new(userid, &format!("U:1:{}", userid), name);
    p.player_type = t;
    p.common_name = common;
    s.store(p);
}

#[test]
fn votes_are_called_for_bots_and_cheaters_as_chosen() {
    let mut s = Server::new();
    labelled(&mut s, 1, "a", PlayerType::Bot, false);
    labelled(&mut s, 2, "b", PlayerType::Player, false);
    labelled(&mut s, 3, "c", PlayerType::Cheater, false);
    labelled(&mut s, 4, "d", PlayerType::Suspicious, false);
    labelled(&mut s, 50, "e", PlayerType::Bot, true);
    let mut set = Settings::new();
    assert_eq!(
        s.kick_commands(&set),
        vec!["callvote kick \"1 cheating\"", "callvote kick \"50 cheating\""]
    );
    set.kick_cheaters = true;
    assert_eq!(
        s.kick_commands(&set),
        vec![
            "callvote kick \"1 cheating\"",
            "callvote kick \"3 cheating\"",
            "callvote kick \"50 cheating\""
        ]
    );
    set.kick_bots = false;
    assert_eq!(s.kick_commands(&set), vec!["callvote kick \"3 cheating\""]);
    set.kick_cheaters = false;
    assert!(s.kick_commands(&set).is_empty());
}

#[test]
fn flagged_players_are_announced_once() {
    let mut s = Server::new();
    labelled(&mut s, 1, "Botty", PlayerType::Bot, false);
    labelled(&mut s, 2, "Nice", PlayerType::Player, false);
    labelled(&mut s, 3, "Hax", PlayerType::Cheater, false);
    labelled(&mut s, 4, "m4gic", PlayerType::Bot, true);
    let mut set = Settings::new();
    assert_eq!(s.announce(&set), None);
    set.announce_bots = true;
    assert_eq!(s.announce(&set), Some("Alert! Bot Botty".to_string()));
    assert!(s.get_player(1).unwrap().announced);
    assert!(!s.get_player(4).unwrap().announced);
    assert_eq!(s.announce(&set), None);
    set.announce_cheaters = true;
    set.dont_announce_common_names = false;
    assert_eq!(s.announce(&set), Some("Alert! Cheater Hax, Bot m4gic".to_string()));
    assert_eq!(s.announce(&set), None);
    labelled(&mut s, 7, "x", PlayerType::Bot, false);
    labelled(&mut s, 8, "y", PlayerType::Bot, false);
    labelled(&mut s, 9, "z", PlayerType::Cheater, false);
    assert_eq!(s.announce(&set), Some("Alert! Bot x, Bot y, Cheater z".to_string()));
    assert!(!s.get_player(2).unwrap().announced);
}
