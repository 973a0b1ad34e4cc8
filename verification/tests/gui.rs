use tf2_bot_kicker::gui::{format_time, truncate, TRUNC_LEN};

#[test]
fn format_time_writes_minutes_and_two_digits_of_seconds() {
    assert_eq!(format_time(125), "2:05");
    assert_eq!(format_time(0), "0:00");
    assert_eq!(format_time(9), "0:09");
    assert_eq!(format_time(59), "0:59");
    assert_eq!(format_time(60), "1:00");
    assert_eq!(format_time(599), "9:59");
    assert_eq!(format_time(600), "10:00");
    assert_eq!(format_time(3725), "62:05");
    assert_eq!(format_time(60000), "1000:00");
    assert_eq!(format_time(u32::MAX), "71582788:15");
    for time in [0u32, 1, 59, 60, 61, 125, 599, 600, 86_399, 4_000_000_000] {
        assert_eq!(format_time(time), format!("{}:{:02}", time / 60, time % 60));
    }
}

#[test]
fn truncate_keeps_short_strings() {
    assert_eq!(truncate("Alice", TRUNC_LEN), "Alice");
    assert_eq!(truncate("", 0), "");
    assert_eq!(truncate("abc", 3), "abc");
}

#[test]
fn truncate_cuts_by_characters() {
    assert_eq!(truncate("abcdef", 2), "ab");
    assert_eq!(truncate("héllo wörld", 2), "hé");
    assert_eq!(truncate("日本語のなまえ", 3), "日本語");
    assert_eq!(truncate("abc", 0), "");
}

use tf2_bot_kicker::command_manager::ConnectionError;
use tf2_bot_kicker::gui::{arrange_players, main_view, MainView};
use tf2_bot_kicker::player::{Player, Team};

#[test]
fn the_main_panel_follows_the_session() {
    let auth = Err(ConnectionError::Auth);
    let lost = Err(ConnectionError::Connection);
    assert_eq!(main_view(true, false, lost, 0), MainView::Players);
    assert_eq!(main_view(true, true, auth, 6), MainView::Players);
    assert_eq!(main_view(false, false, Ok(()), 3), MainView::NoDirectory);
    assert_eq!(main_view(false, true, Ok(()), 0), MainView::NotOnServer);
    assert_eq!(main_view(false, true, Ok(()), 1), MainView::Players);
    assert_eq!(main_view(false, true, auth, 1), MainView::WrongPassword);
    assert_eq!(main_view(false, true, lost, 1), MainView::CannotConnect);
}

#[test]
fn players_are_listed_by_team_longest_connected_first() {
    let mut players = Vec::new();
    for (i, (team, time)) in [
        (Team::Invaders, 10),
        (Team::Defenders, 50),
        (Team::Unassigned, 5),
        (Team::Invaders, 30),
        (Team::Invaders, 10),
        (Team::Defenders, 50),
        (Team::Invaders, 99),
        (Team::Defenders, 7),
    ]
    .into_iter()
    .enumerate()
    {
        let mut p = Player::new(i as u32, "U:1:1", "p");
        p.team = team;
        p.time = time;
        players.push(p);
    }
    let c = arrange_players(&players);
    assert_eq!(c.invaders, vec![6, 3, 0, 4]);
    assert_eq!(c.defenders, vec![1, 5, 7]);
    assert_eq!(c.unassigned, vec![2]);
    let none = arrange_players(&Vec::new());
    assert!(none.invaders.is_empty() && none.defenders.is_empty() && none.unassigned.is_empty());
}
