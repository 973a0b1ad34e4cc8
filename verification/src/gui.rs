//! Helpers for presenting the session state.

use crate::command_manager::ConnectionError;
use crate::player::{Player, PlayerView, Team};
use crate::server::views;
use crate::text::{decimal_digits, digit_char, digit_str, push_decimal};
use vstd::prelude::*;
use vstd::string::*;

verus! {

/// Longest player name, in characters, that is shown in full.
pub const TRUNC_LEN: usize = 40;

/// The first `max_chars` characters of `s`, or all of `s` where it is shorter.
pub open spec fn truncated(s: Seq<char>, max_chars: nat) -> Seq<char> {
    if s.len() <= max_chars {
        s
    } else {
        s.take(max_chars as int)
    }
}

/// Cuts a string down to at most `max_chars` characters.
pub fn truncate(s: &str, max_chars: usize) -> (r: &str)
    ensures
        r@ == truncated(s@, max_chars as nat),
{
    let n: usize = s.unicode_len();
    if n <= max_chars {
        s
    } else {
        s.substring_char(0, max_chars)
    }
}

/// A duration in seconds written as minutes and seconds: the whole minutes
/// in decimal, a colon, and the seconds in two digits.
pub open spec fn formatted_time(time: nat) -> Seq<char> {
    decimal_digits(time / 60) + seq![':', digit_char((time % 60) / 10), digit_char((time % 60) % 10)]
}

/// Formats a number of seconds as minutes and seconds.
pub fn format_time(time: u32) -> (r: String)
    ensures
        r@ == formatted_time(time as nat),
{
    let minutes: u32 = time / 60;
    let seconds: u32 = time % 60;
    let mut out = String::new();
    proof {
        reveal_strlit(":");
    }
    push_decimal(&mut out, minutes);
    out.append(":");
    out.append(digit_str(seconds / 10));
    out.append(digit_str(seconds % 10));
    assert(out@ =~= formatted_time(time as nat));
    out
}

/// What the main panel shows.
#[derive(Clone, Copy, Debug, PartialEq, Eq, Structural)]
pub enum MainView {
    /// The players, by team.
    Players,
    /// How to set the game directory: no log file is watched.
    NoDirectory,
    /// That no server is joined: the session is ready and no player is known.
    NotOnServer,
    /// That the password is wrong, and how to set it in the game.
    WrongPassword,
    /// That the game cannot be reached, and what to check.
    CannotConnect,
}

/// What the main panel shows: in demo mode the players; without a log
/// watcher the instructions; else what the session allows.
pub open spec fn main_view_of(
    demo_mode: bool,
    watching: bool,
    connection: Result<(), ConnectionError>,
    players: nat,
) -> MainView {
    if demo_mode {
        MainView::Players
    } else if !watching {
        MainView::NoDirectory
    } else {
        match connection {
            Ok(_) => if players == 0 {
                MainView::NotOnServer
            } else {
                MainView::Players
            },
            Err(ConnectionError::Auth) => MainView::WrongPassword,
            Err(ConnectionError::Connection) => MainView::CannotConnect,
        }
    }
}

/// Decides what the main panel shows.
pub fn main_view(
    demo_mode: bool,
    watching: bool,
    connection: Result<(), ConnectionError>,
    players: usize,
) -> (v: MainView)
    ensures
        v == main_view_of(demo_mode, watching, connection, players as nat),
{
    if demo_mode {
        MainView::Players
    } else if !watching {
        MainView::NoDirectory
    } else {
        match connection {
            Ok(_) => if players == 0 {
                MainView::NotOnServer
            } else {
                MainView::Players
            },
            Err(ConnectionError::Auth) => MainView::WrongPassword,
            Err(ConnectionError::Connection) => MainView::CannotConnect,
        }
    }
}

/// The order in which players are listed: the one connected longer first,
/// and of two connected equally long the one that stands first.
pub open spec fn listed_before(ps: Seq<PlayerView>, i: int, j: int) -> bool {
    ps[i].time > ps[j].time || (ps[i].time == ps[j].time && i < j)
}

/// `column` lists the positions below `upto` of the players of `team`, each
/// once, in the order in which players are listed.
pub open spec fn is_column(ps: Seq<PlayerView>, team: Team, upto: int, column: Seq<usize>) -> bool {
    &&& forall|k: int|
        0 <= k < column.len() ==> (#[trigger] column[k]) < upto && ps[column[k] as int].team == team
    &&& forall|i: int|
        0 <= i < upto && (#[trigger] ps[i]).team == team ==> column.contains(i as usize)
    &&& forall|a: int, b: int|
        0 <= a < b < column.len() ==> listed_before(
            ps,
            #[trigger] column[a] as int,
            #[trigger] column[b] as int,
        )
}

/// The players' positions in the list, by team.
#[derive(Debug)]
pub struct Columns {
    pub invaders: Vec<usize>,
    pub defenders: Vec<usize>,
    pub unassigned: Vec<usize>,
}

/// Puts position `i` into a column of the positions below it.
fn insert_listed(players: &Vec<Player>, column: &mut Vec<usize>, i: usize)
    requires
        i < players.len(),
        is_column(views(players@), players@[i as int].team, i as int, old(column)@),
    ensures
        is_column(views(players@), players@[i as int].team, i + 1, final(column)@),
{
    let ghost ps = views(players@);
    let ghost team = players@[i as int].team;
    let time = players[i].time;
    let mut k: usize = 0;
    while k < column.len() && players[column[k]].time >= time
        invariant
            k <= column.len(),
            i < players.len(),
            column@ == old(column)@,
            ps == views(players@),
            is_column(ps, team, i as int, column@),
            forall|a: int| 0 <= a < k ==> ps[(#[trigger] column@[a]) as int].time >= time,
        decreases column.len() - k,
    {
        k += 1;
    }
    let ghost before = column@;
    column.insert(k, i);
    proof {
        let after = column@;
        assert(ps[i as int].time == time);
        assert forall|a: int, b: int| 0 <= a < b < after.len() implies listed_before(
            ps,
            #[trigger] after[a] as int,
            #[trigger] after[b] as int,
        ) by {
            if b < k {
                assert(after[a] == before[a] && after[b] == before[b]);
            } else if b == k {
                assert(after[a] == before[a]);
            } else if a < k {
                assert(after[a] == before[a] && after[b] == before[b - 1]);
            } else if a == k {
                assert(after[b] == before[b - 1]);
                if b - 1 > k {
                    assert(listed_before(ps, before[k as int] as int, before[b - 1] as int));
                }
            } else {
                assert(after[a] == before[a - 1] && after[b] == before[b - 1]);
            }
        }
        assert forall|j: int| 0 <= j < i + 1 && (#[trigger] ps[j]).team == team implies after.contains(
            j as usize,
        ) by {
            if j == i {
                assert(after[k as int] == i);
            } else {
                assert(before.contains(j as usize));
                let at = choose|at: int| 0 <= at < before.len() && before[at] == j as usize;
                if at < k {
                    assert(after[at] == j as usize);
                } else {
                    assert(after[at + 1] == j as usize);
                }
            }
        }
        assert forall|a: int| 0 <= a < after.len() implies (#[trigger] after[a]) < i + 1 && ps[after[a] as int].team
            == team by {
            if a < k {
                assert(after[a] == before[a]);
            } else if a > k {
                assert(after[a] == before[a - 1]);
            }
        }
    }
}

/// Arranges the players for the list: one column for each team and one for
/// the players without a team, each with the player connected longest first.
pub fn arrange_players(players: &Vec<Player>) -> (c: Columns)
    ensures
        is_column(views(players@), Team::Invaders, players.len() as int, c.invaders@),
        is_column(views(players@), Team::Defenders, players.len() as int, c.defenders@),
        is_column(views(players@), Team::Unassigned, players.len() as int, c.unassigned@),
{
    let mut c = Columns { invaders: Vec::new(), defenders: Vec::new(), unassigned: Vec::new() };
    let ghost ps = views(players@);
    let mut i: usize = 0;
    while i < players.len()
        invariant
            i <= players.len(),
            ps == views(players@),
            is_column(ps, Team::Invaders, i as int, c.invaders@),
            is_column(ps, Team::Defenders, i as int, c.defenders@),
            is_column(ps, Team::Unassigned, i as int, c.unassigned@),
        decreases players.len() - i,
    {
        assert(ps[i as int].team == players@[i as int].team);
        match players[i].team {
            Team::Invaders => {
                insert_listed(players, &mut c.invaders, i);
            },
            Team::Defenders => {
                insert_listed(players, &mut c.defenders, i);
            },
            Team::Unassigned => {
                insert_listed(players, &mut c.unassigned, i);
            },
        }
        i += 1;
    }
    c
}

/// Two columns for the same players and team are the same column.
pub proof fn lemma_column_unique(
    ps: Seq<PlayerView>,
    team: Team,
    upto: int,
    x: Seq<usize>,
    y: Seq<usize>,
)
    requires
        is_column(ps, team, upto, x),
        is_column(ps, team, upto, y),
        upto <= ps.len() <= usize::MAX,
    ensures
        x == y,
    decreases x.len(),
{
    if x.len() == 0 {
        if y.len() > 0 {
            assert(ps[y[0] as int].team == team);
            assert(x.contains(y[0]));
        }
        assert(x =~= y);
    } else if y.len() == 0 {
        assert(ps[x[0] as int].team == team);
        assert(y.contains(x[0]));
    } else {
        // The first of each column is listed before every other member, so
        // the two firsts are the same position.
        let a = x[0];
        let b = y[0];
        assert(ps[a as int].team == team && ps[b as int].team == team);
        assert(y.contains(a));
        assert(x.contains(b));
        let ia = choose|k: int| 0 <= k < y.len() && y[k] == a;
        let ib = choose|k: int| 0 <= k < x.len() && x[k] == b;
        if ia > 0 {
            assert(listed_before(ps, y[0] as int, y[ia] as int));
        }
        if ib > 0 {
            assert(listed_before(ps, x[0] as int, x[ib] as int));
        }
        assert(a == b);
        // Without the first, both are columns of the other members.
        let rest = Seq::new(ps.len(), |i: int| if i == a as int {
            PlayerView { team: other_team(team), ..ps[i] }
        } else {
            ps[i]
        });
        let xs = x.drop_first();
        let ys = y.drop_first();
        lemma_rest_column(ps, rest, team, upto, x);
        lemma_rest_column(ps, rest, team, upto, y);
        lemma_column_unique(rest, team, upto, xs, ys);
        assert(x =~= seq![a] + xs);
        assert(y =~= seq![b] + ys);
    }
}

/// A team other than the given one.
pub open spec fn other_team(team: Team) -> Team {
    if team == Team::Invaders {
        Team::Defenders
    } else {
        Team::Invaders
    }
}

/// A column without its first member is a column of the players with that
/// member moved to another team.
proof fn lemma_rest_column(
    ps: Seq<PlayerView>,
    rest: Seq<PlayerView>,
    team: Team,
    upto: int,
    x: Seq<usize>,
)
    requires
        is_column(ps, team, upto, x),
        x.len() > 0,
        rest.len() == ps.len(),
        forall|i: int|
            0 <= i < ps.len() ==> (#[trigger] rest[i]) == (if i == x[0] as int {
                PlayerView { team: other_team(team), ..ps[i] }
            } else {
                ps[i]
            }),
        upto <= ps.len() <= usize::MAX,
    ensures
        is_column(rest, team, upto, x.drop_first()),
{
    let xs = x.drop_first();
    assert forall|k: int| 0 <= k < xs.len() implies (#[trigger] xs[k]) < upto && rest[xs[k] as int].team
        == team by {
        assert(xs[k] == x[k + 1]);
        assert(listed_before(ps, x[0] as int, x[k + 1] as int));
    }
    assert forall|i: int| 0 <= i < upto && (#[trigger] rest[i]).team == team implies xs.contains(
        i as usize,
    ) by {
        assert(i != x[0] as int);
        assert(ps[i].team == team);
        assert(x.contains(i as usize));
        let at = choose|at: int| 0 <= at < x.len() && x[at] == i as usize;
        assert(xs[at - 1] == i as usize);
    }
    assert forall|a: int, b: int| 0 <= a < b < xs.len() implies listed_before(
        rest,
        #[trigger] xs[a] as int,
        #[trigger] xs[b] as int,
    ) by {
        assert(xs[a] == x[a + 1] && xs[b] == x[b + 1]);
        assert(listed_before(ps, x[a + 1] as int, x[b + 1] as int));
        assert(listed_before(ps, x[0] as int, x[a + 1] as int));
        assert(listed_before(ps, x[0] as int, x[b + 1] as int));
    }
}

} // verus!
