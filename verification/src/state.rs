//! The session as a whole: the registry, the rules, the settings and the
//! timers, and what happens to them on each line and each refresh.

use crate::command_manager::{
    after_command, after_connect, response_of, should_connect, CommandManager, CommandOutcome,
    CommandOutcomeView, ConnectOutcome, ConnectionState, SessionView, CMD_STATUS,
    CMD_TF_LOBBY_DEBUG,
};
use crate::logwatcher::{
    advanced, complete_lines, decoded, lemma_partial_line_completed, lemma_two_lines_written,
    one_line, unfinished, LogWatcher, WatcherView, LINE_FEED,
};
use crate::player::{texts, Player, PlayerRecord, PlayerRecordView, PlayerType, PlayerView, Team};
use crate::player_checker::{
    distinct_accounts, distinct_patterns, name_verdict, record_merged, record_of, ImportError,
    PlayerChecker, RulesView,
};
use crate::regexes::{
    matcher_event, LineEvent, LineEventView, LineKind, LogMatcher, MatcherView, REGEX_LOBBY,
    REGEX_STATUS,
};
use crate::server::{
    alert_count, alert_text, alerted, confirmed, distinct_ids, first_seen, has_user, kick_votes,
    lemma_pruned_lookup, lemma_sighted_stores, lemma_stored, lemma_stored_same,
    lemma_swept_distinct, lemma_swept_lookup, merged, player_of, pruned, record_applied, sighted,
    swept,
    sighted_player, sighting_outcome, stored, user_index, Server, Sighted,
};
use crate::settings::{Settings, SettingsView};
use crate::text::{lines_of, split_lines};
use crate::timer::{elapsed, Timer};
use crate::trusted::{plainly_compiled, regex_source};
use regex::Regex;
use vstd::prelude::*;
use vstd::string::*;
use vstd::utf8::encode_utf8;

verus! {

/// The note that an account gets when it is marked for taking a name.
pub const NAME_STEALER_NOTE: &'static str = "Automatically marked as name-stealing bot.";

/// What the lines of a session act on: the players, the rules, and the
/// chat messages that wait to be sent.
pub ghost struct Digest {
    pub players: Seq<PlayerView>,
    pub rules: RulesView,
    pub outbox: Seq<Seq<char>>,
}

/// A player with the label that the rules give. A saved record gives its
/// label and notes, whatever the name; without one, the first name pattern
/// that matches gives its label; without either the label stays. The player
/// is flagged where the name matches a pattern.
pub open spec fn labelled(p: PlayerView, rules: RulesView) -> PlayerView {
    let by_name = name_verdict(rules.patterns, p.name);
    let q = match record_of(rules.records, p.steamid32) {
        Some(r) => p.with_record(r),
        None => match by_name {
            Some(t) => PlayerView { player_type: t, ..p },
            None => p,
        },
    };
    PlayerView { common_name: by_name is Some, ..q }
}

/// A player marked as a bot for taking another player's name.
pub open spec fn marked_stealer(p: PlayerView) -> PlayerView {
    PlayerView { player_type: PlayerType::Bot, notes: p.notes + NAME_STEALER_NOTE@, ..p }
}

/// The chat message about a name that was taken.
pub open spec fn steal_message(name: Seq<char>) -> Seq<char> {
    "A bot has stolen "@ + name + "'s name."@
}

/// Whether a player who took a name is marked as a bot: where the user has
/// chosen so, and the account has no saved record and no other label.
pub open spec fn marks_stealer(p: PlayerView, rules: RulesView, settings: SettingsView) -> bool {
    settings.mark_name_stealers && record_of(rules.records, p.steamid32) is None && labelled(
        p,
        rules,
    ).player_type == PlayerType::Player
}

/// What a line says of a player: the connection id and the account, and as
/// far as the line holds them the name, the team and the connected time. An
/// empty name is no name.
pub ghost struct Sighting {
    pub userid: u32,
    pub steamid32: Seq<char>,
    pub name: Seq<char>,
    pub team: Option<Team>,
    pub time: Option<u32>,
}

/// What an event says of a player: a status line gives name and time, a
/// lobby line gives the team; a malformed line says nothing.
pub open spec fn event_sighting(ev: LineEventView) -> Option<Sighting> {
    match ev {
        LineEventView::Status { userid, steamid32, name, time } => Some(
            Sighting { userid, steamid32, name, team: None, time: Some(time) },
        ),
        LineEventView::Lobby { userid, steamid32, team } => Some(
            Sighting { userid, steamid32, name: Seq::empty(), team: Some(team), time: None },
        ),
        LineEventView::Malformed => None,
    }
}

/// What seeing a player does. The registry takes the sighting; a player
/// that is new, that took over the connection id, or that has a name for
/// the first time is labelled by the rules; one under a new name is
/// labelled again, and where another player was using the name, the account
/// is marked as a bot and saved as one, and a chat message is queued, each
/// as far as the user has chosen so.
pub open spec fn sighting_applied(d: Digest, settings: SettingsView, s: Sighting) -> Digest {
    let seen = sighted(d.players, s.userid, s.steamid32, s.name, s.team, s.time);
    let p = sighted_player(d.players, s.userid, s.steamid32, s.name, s.team, s.time);
    match sighting_outcome(d.players, s.userid, s.steamid32, s.name) {
        Sighted::Seen => Digest { players: seen, ..d },
        Sighted::Joined => Digest { players: stored(seen, labelled(p, d.rules)), ..d },
        Sighted::Renamed { stolen } => {
            let steal = stolen && marks_stealer(p, d.rules, settings);
            let q = if steal {
                marked_stealer(labelled(p, d.rules))
            } else {
                labelled(p, d.rules)
            };
            Digest {
                players: stored(seen, q),
                rules: if steal {
                    RulesView {
                        records: record_merged(d.rules.records, q.record()),
                        ..d.rules
                    }
                } else {
                    d.rules
                },
                outbox: if stolen && settings.announce_namesteal && !settings.paused {
                    d.outbox.push(steal_message(s.name))
                } else {
                    d.outbox
                },
            }
        },
    }
}

/// What a console line's event does: a status line and a lobby line are a
/// sighting of their player, and a malformed line does nothing.
pub open spec fn event_applied(d: Digest, settings: SettingsView, ev: LineEventView) -> Digest {
    match event_sighting(ev) {
        Some(s) => sighting_applied(d, settings, s),
        None => d,
    }
}

/// What a sequence of events does, one after the other.
pub open spec fn events_applied(d: Digest, settings: SettingsView, evs: Seq<LineEventView>) -> Digest
    decreases evs.len(),
{
    if evs.len() == 0 {
        d
    } else {
        event_applied(events_applied(d, settings, evs.drop_last()), settings, evs.last())
    }
}

/// What a line says: first what the status matcher reads in it, then what
/// the lobby matcher reads in it. Each matcher is tried, whatever the other
/// found.
pub open spec fn line_events(status: MatcherView, lobby: MatcherView, line: Seq<char>) -> Seq<
    LineEventView,
> {
    (match matcher_event(status, line) {
        Some(ev) => seq![ev],
        None => Seq::empty(),
    }) + (match matcher_event(lobby, line) {
        Some(ev) => seq![ev],
        None => Seq::empty(),
    })
}

/// What a sequence of lines says, line after line.
pub open spec fn lines_events(status: MatcherView, lobby: MatcherView, lines: Seq<Seq<char>>) -> Seq<
    LineEventView,
>
    decreases lines.len(),
{
    if lines.len() == 0 {
        Seq::empty()
    } else {
        lines_events(status, lobby, lines.drop_last()) + line_events(status, lobby, lines.last())
    }
}

/// Applying events one after the other is applying the first of them and
/// then the rest.
pub proof fn lemma_events_join(
    d: Digest,
    settings: SettingsView,
    first: Seq<LineEventView>,
    then: Seq<LineEventView>,
)
    ensures
        events_applied(d, settings, first + then) == events_applied(
            events_applied(d, settings, first),
            settings,
            then,
        ),
    decreases then.len(),
{
    if then.len() == 0 {
        assert(first + then =~= first);
    } else {
        assert((first + then).drop_last() =~= first + then.drop_last());
        assert((first + then).last() == then.last());
        lemma_events_join(d, settings, first, then.drop_last());
    }
}

/// Applying one event is applying the sequence that holds it alone.
pub proof fn lemma_events_single(d: Digest, settings: SettingsView, ev: LineEventView)
    ensures
        events_applied(d, settings, seq![ev]) == event_applied(d, settings, ev),
{
    let one = seq![ev];
    assert(one.drop_last() =~= Seq::<LineEventView>::empty());
    assert(one.last() == ev);
    assert(events_applied(d, settings, one.drop_last()) == d);
}

/// The connection id that an event is about, if it is about one.
pub open spec fn event_user(ev: LineEventView) -> Option<u32> {
    match ev {
        LineEventView::Status { userid, .. } => Some(userid),
        LineEventView::Lobby { userid, .. } => Some(userid),
        _ => None,
    }
}

/// The players are one for a connection id and the records one for an account.
pub open spec fn digest_wf(d: Digest) -> bool {
    distinct_ids(d.players) && distinct_accounts(d.rules.records) && distinct_patterns(
        d.rules.patterns,
    )
}

/// The player stands in the registry as a sighting says: with the account,
/// with the name, the team and the time as far as the sighting holds them,
/// and counted as seen.
pub open spec fn holds_sighting(p: PlayerView, s: Sighting) -> bool {
    &&& p.userid == s.userid
    &&& p.steamid32 == s.steamid32
    &&& s.name.len() > 0 ==> p.name == s.name
    &&& s.team matches Some(t) ==> p.team == t
    &&& s.time matches Some(t) ==> p.time == t
    &&& p.accounted
}

/// What a sighting does to the lookup of a connection id: it keeps the
/// digest well formed, leaves every player but the one it is about, and
/// leaves that one as it says.
pub proof fn lemma_sighting_lookup(d: Digest, settings: SettingsView, s: Sighting, userid: u32)
    requires
        digest_wf(d),
    ensures
        digest_wf(sighting_applied(d, settings, s)),
        userid != s.userid ==> player_of(sighting_applied(d, settings, s).players, userid)
            == player_of(d.players, userid),
        player_of(sighting_applied(d, settings, s).players, s.userid) is Some,
        holds_sighting(player_of(sighting_applied(d, settings, s).players, s.userid)->0, s),
        s.team is None && player_of(d.players, s.userid) is Some && player_of(
            d.players,
            s.userid,
        )->0.steamid32 == s.steamid32 ==> player_of(
            sighting_applied(d, settings, s).players,
            s.userid,
        )->0.team == player_of(d.players, s.userid)->0.team,
{
    let seen = sighted(d.players, s.userid, s.steamid32, s.name, s.team, s.time);
    let p = sighted_player(d.players, s.userid, s.steamid32, s.name, s.team, s.time);
    lemma_sighted_stores(d.players, s.userid, s.steamid32, s.name, s.team, s.time);
    lemma_stored(d.players, p, userid);
    lemma_stored(d.players, p, s.userid);
    match sighting_outcome(d.players, s.userid, s.steamid32, s.name) {
        Sighted::Seen => {},
        Sighted::Joined => {
            lemma_stored(seen, labelled(p, d.rules), userid);
            lemma_stored(seen, labelled(p, d.rules), s.userid);
        },
        Sighted::Renamed { stolen } => {
            let steal = stolen && marks_stealer(p, d.rules, settings);
            let q = if steal {
                marked_stealer(labelled(p, d.rules))
            } else {
                labelled(p, d.rules)
            };
            lemma_stored(seen, q, userid);
            lemma_stored(seen, q, s.userid);
            if steal {
                crate::player_checker::lemma_record_merged(
                    d.rules.records,
                    q.record(),
                    q.steamid32,
                );
            }
        },
    }
}

/// A sighting of a player that stands in the registry as the sighting says
/// changes nothing.
pub proof fn lemma_sighting_again(d: Digest, settings: SettingsView, s: Sighting)
    requires
        digest_wf(d),
        player_of(d.players, s.userid) is Some,
        holds_sighting(player_of(d.players, s.userid)->0, s),
    ensures
        sighting_applied(d, settings, s) == d,
{
    let held = player_of(d.players, s.userid)->0;
    assert(sighting_outcome(d.players, s.userid, s.steamid32, s.name) == Sighted::Seen);
    lemma_sighted_stores(d.players, s.userid, s.steamid32, s.name, s.team, s.time);
    assert(sighted_player(d.players, s.userid, s.steamid32, s.name, s.team, s.time) == held);
    lemma_stored_same(d.players, held);
}

/// What one event does to the lookup of a connection id: it keeps the
/// digest well formed, leaves every player but the one it is about, never
/// removes a player and never takes back that a player was seen. A status
/// line and a lobby line leave their player seen.
pub proof fn lemma_event_lookup(d: Digest, settings: SettingsView, ev: LineEventView, userid: u32)
    requires
        digest_wf(d),
    ensures
        digest_wf(event_applied(d, settings, ev)),
        event_user(ev) != Some(userid) ==> player_of(event_applied(d, settings, ev).players, userid)
            == player_of(d.players, userid),
        has_user(d.players, userid) ==> has_user(event_applied(d, settings, ev).players, userid),
        confirmed(d.players, userid) ==> confirmed(event_applied(d, settings, ev).players, userid),
        event_user(ev) == Some(userid) ==> confirmed(
            event_applied(d, settings, ev).players,
            userid,
        ),
{
    match event_sighting(ev) {
        Some(s) => {
            lemma_sighting_lookup(d, settings, s, userid);
        },
        None => {},
    }
}

/// A status line leaves the team of a player that it sees again: a team
/// comes from the last line that named one, never from a line without one.
pub proof fn lemma_status_keeps_team(
    d: Digest,
    settings: SettingsView,
    userid: u32,
    steamid32: Seq<char>,
    name: Seq<char>,
    time: u32,
)
    requires
        digest_wf(d),
        player_of(d.players, userid) is Some,
        player_of(d.players, userid)->0.steamid32 == steamid32,
    ensures
        ({
            let after = event_applied(
                d,
                settings,
                LineEventView::Status { userid, steamid32, name, time },
            );
            player_of(after.players, userid) is Some && player_of(after.players, userid)->0.team
                == player_of(d.players, userid)->0.team
        }),
{
    let s = Sighting { userid, steamid32, name, team: None, time: Some(time) };
    lemma_sighting_lookup(d, settings, s, userid);
}

/// Applying the same event a second time changes neither the players nor
/// the rules.
pub proof fn lemma_event_twice(d: Digest, settings: SettingsView, ev: LineEventView)
    requires
        digest_wf(d),
    ensures
        event_applied(event_applied(d, settings, ev), settings, ev).players == event_applied(
            d,
            settings,
            ev,
        ).players,
        event_applied(event_applied(d, settings, ev), settings, ev).rules == event_applied(
            d,
            settings,
            ev,
        ).rules,
{
    match event_sighting(ev) {
        Some(s) => {
            lemma_sighting_lookup(d, settings, s, s.userid);
            lemma_sighting_again(sighting_applied(d, settings, s), settings, s);
        },
        None => {},
    }
}

/// Storing a player over one that was stored under the same connection id
/// is storing the second alone.
pub proof fn lemma_stored_over(ps: Seq<PlayerView>, a: PlayerView, b: PlayerView)
    requires
        distinct_ids(ps),
        a.userid == b.userid,
    ensures
        stored(stored(ps, a), b) == stored(ps, b),
{
    lemma_stored(ps, a, a.userid);
    let m = stored(ps, a);
    if has_user(ps, a.userid) {
        let i = user_index(ps, a.userid);
        assert(m[i].userid == b.userid);
        assert(user_index(m, b.userid) == i);
        assert(stored(m, b) =~= stored(ps, b));
    } else {
        let n = ps.len() as int;
        assert(m[n].userid == b.userid);
        assert(user_index(m, b.userid) == n);
        assert(stored(m, b) =~= stored(ps, b));
    }
}

/// A sighting of a connection id that another account holds puts the
/// player that the sighting makes, labelled by the rules, in the place of
/// the holder, and leaves the rules.
proof fn lemma_sighting_replaces(d: Digest, settings: SettingsView, s: Sighting)
    requires
        digest_wf(d),
        player_of(d.players, s.userid) is Some,
        player_of(d.players, s.userid)->0.steamid32 != s.steamid32,
    ensures
        sighting_applied(d, settings, s).players == stored(
            d.players,
            labelled(first_seen(s.userid, s.steamid32, s.name, s.team, s.time), d.rules),
        ),
        sighting_applied(d, settings, s).rules == d.rules,
{
    let fresh = first_seen(s.userid, s.steamid32, s.name, s.team, s.time);
    assert(sighting_outcome(d.players, s.userid, s.steamid32, s.name) == Sighted::Joined);
    lemma_sighted_stores(d.players, s.userid, s.steamid32, s.name, s.team, s.time);
    assert(sighted_player(d.players, s.userid, s.steamid32, s.name, s.team, s.time) == fresh);
    lemma_stored_over(d.players, fresh, labelled(fresh, d.rules));
}

/// What a status matcher reads and then what a lobby matcher reads, applied
/// a second time, changes neither the players nor the rules.
pub proof fn lemma_pair_twice(
    d: Digest,
    settings: SettingsView,
    first: LineEventView,
    second: LineEventView,
)
    requires
        digest_wf(d),
        !(first is Lobby),
        !(second is Status),
    ensures
        ({
            let once = event_applied(event_applied(d, settings, first), settings, second);
            let twice = event_applied(event_applied(once, settings, first), settings, second);
            twice.players == once.players && twice.rules == once.rules
        }),
{
    let d1 = event_applied(d, settings, first);
    let d2 = event_applied(d1, settings, second);
    let d3 = event_applied(d2, settings, first);
    lemma_event_lookup(d, settings, first, 0);
    lemma_event_lookup(d1, settings, second, 0);
    lemma_event_twice(d, settings, first);
    lemma_event_twice(d1, settings, second);
    match (event_sighting(first), event_sighting(second)) {
        (Some(a), Some(b)) => {
            lemma_sighting_lookup(d, settings, a, a.userid);
            lemma_sighting_lookup(d1, settings, b, a.userid);
            lemma_sighting_lookup(d1, settings, b, b.userid);
            let p1 = player_of(d1.players, a.userid)->0;
            if a.userid == b.userid && a.steamid32 != b.steamid32 {
                // The two readings name different accounts for one
                // connection id: each in turn takes the place of the other.
                lemma_sighting_replaces(d1, settings, b);
                lemma_sighting_replaces(d2, settings, a);
                lemma_event_lookup(d2, settings, first, 0);
                lemma_sighting_lookup(d2, settings, a, a.userid);
                lemma_sighting_replaces(d3, settings, b);
                let qa = labelled(
                    first_seen(a.userid, a.steamid32, a.name, a.team, a.time),
                    d1.rules,
                );
                let qb = labelled(
                    first_seen(b.userid, b.steamid32, b.name, b.team, b.time),
                    d1.rules,
                );
                lemma_stored_over(d1.players, qb, qa);
                lemma_stored_over(d1.players, qa, qb);
            } else {
                // The second reading leaves the player of the first as the
                // first says, so the first changes nothing the second time.
                let p2 = player_of(d2.players, a.userid)->0;
                if a.userid == b.userid {
                    lemma_sighted_stores(
                        d1.players,
                        b.userid,
                        b.steamid32,
                        b.name,
                        b.team,
                        b.time,
                    );
                    assert(sighting_outcome(d1.players, b.userid, b.steamid32, b.name)
                        == Sighted::Seen);
                    assert(p2 == merged(p1, b.name, b.team, b.time, false));
                }
                assert(holds_sighting(p2, a));
                lemma_sighting_again(d2, settings, a);
                assert(d3 == d2);
            }
        },
        (Some(a), None) => {
            assert(d2 == d1);
        },
        (None, _) => {
            assert(d3 == d2);
        },
    }
}

/// Taking in the same line a second time changes neither the players nor
/// the rules.
pub proof fn lemma_line_twice(
    d: Digest,
    settings: SettingsView,
    status: MatcherView,
    lobby: MatcherView,
    line: Seq<char>,
)
    requires
        digest_wf(d),
        status.kind == LineKind::Status,
        lobby.kind == LineKind::Lobby,
    ensures
        ({
            let evs = line_events(status, lobby, line);
            let once = events_applied(d, settings, evs);
            let twice = events_applied(once, settings, evs);
            twice.players == once.players && twice.rules == once.rules
        }),
{
    let first = match matcher_event(status, line) {
        Some(ev) => ev,
        None => LineEventView::Malformed,
    };
    let second = match matcher_event(lobby, line) {
        Some(ev) => ev,
        None => LineEventView::Malformed,
    };
    let evs = line_events(status, lobby, line);
    lemma_pair_applied(d, settings, status, lobby, line);
    let once = events_applied(d, settings, evs);
    lemma_pair_applied(once, settings, status, lobby, line);
    lemma_pair_twice(d, settings, first, second);
}

/// What a line does is what its two readings do, with nothing done for a
/// matcher that found nothing.
proof fn lemma_pair_applied(
    d: Digest,
    settings: SettingsView,
    status: MatcherView,
    lobby: MatcherView,
    line: Seq<char>,
)
    requires
        status.kind == LineKind::Status,
        lobby.kind == LineKind::Lobby,
    ensures
        ({
            let first = match matcher_event(status, line) {
                Some(ev) => ev,
                None => LineEventView::Malformed,
            };
            let second = match matcher_event(lobby, line) {
                Some(ev) => ev,
                None => LineEventView::Malformed,
            };
            &&& events_applied(d, settings, line_events(status, lobby, line)) == event_applied(
                event_applied(d, settings, first),
                settings,
                second,
            )
            &&& !(first is Lobby)
            &&& !(second is Status)
        }),
{
    let none = Seq::<LineEventView>::empty();
    let one = match matcher_event(status, line) {
        Some(ev) => seq![ev],
        None => none,
    };
    let two = match matcher_event(lobby, line) {
        Some(ev) => seq![ev],
        None => none,
    };
    lemma_events_join(d, settings, one, two);
    let between = events_applied(d, settings, one);
    match matcher_event(status, line) {
        Some(ev) => {
            lemma_events_single(d, settings, ev);
        },
        None => {},
    }
    match matcher_event(lobby, line) {
        Some(ev) => {
            lemma_events_single(between, settings, ev);
        },
        None => {},
    }
}

/// Events keep the digest well formed, keep the players that were seen, and
/// leave the players that none of them is about.
pub proof fn lemma_events_lookup(
    d: Digest,
    settings: SettingsView,
    evs: Seq<LineEventView>,
    userid: u32,
)
    requires
        digest_wf(d),
    ensures
        digest_wf(events_applied(d, settings, evs)),
        confirmed(d.players, userid) ==> confirmed(events_applied(d, settings, evs).players, userid),
        (forall|k: int| 0 <= k < evs.len() ==> event_user(#[trigger] evs[k]) != Some(userid))
            ==> player_of(events_applied(d, settings, evs).players, userid) == player_of(
            d.players,
            userid,
        ),
    decreases evs.len(),
{
    if evs.len() > 0 {
        let front = evs.drop_last();
        lemma_events_lookup(d, settings, front, userid);
        lemma_event_lookup(events_applied(d, settings, front), settings, evs.last(), userid);
        if forall|k: int| 0 <= k < evs.len() ==> event_user(#[trigger] evs[k]) != Some(userid) {
            assert forall|k: int| 0 <= k < front.len() implies event_user(#[trigger] front[k])
                != Some(userid) by {
                assert(front[k] == evs[k]);
            }
            assert(event_user(evs[evs.len() - 1]) != Some(userid));
        }
    }
}

/// What a cycle does to the digest: the registry is pruned, the events are
/// applied, and the players that none of them saw are swept out.
pub open spec fn cycle_applied(d: Digest, settings: SettingsView, evs: Seq<LineEventView>) -> Digest {
    let taken = events_applied(Digest { players: pruned(d.players), ..d }, settings, evs);
    Digest { players: swept(taken.players), ..taken }
}

/// A cycle keeps the digest well formed.
pub proof fn lemma_cycle_wf(d: Digest, settings: SettingsView, evs: Seq<LineEventView>)
    requires
        digest_wf(d),
    ensures
        digest_wf(cycle_applied(d, settings, evs)),
{
    let start = Digest { players: pruned(d.players), ..d };
    lemma_pruned_lookup(d.players, 0);
    lemma_events_lookup(start, settings, evs, 0);
    lemma_swept_distinct(events_applied(start, settings, evs).players);
}

/// A player that a status line or a lobby line of a cycle was about is
/// there after the cycle.
pub proof fn lemma_seen_player_survives(
    d: Digest,
    settings: SettingsView,
    evs: Seq<LineEventView>,
    k: int,
    userid: u32,
)
    requires
        digest_wf(d),
        0 <= k < evs.len(),
        event_user(evs[k]) == Some(userid),
    ensures
        has_user(cycle_applied(d, settings, evs).players, userid),
{
    let start = Digest { players: pruned(d.players), ..d };
    lemma_pruned_lookup(d.players, userid);
    lemma_player_confirmed(start, settings, evs, k, userid);
    lemma_events_lookup(start, settings, evs, userid);
    lemma_swept_lookup(events_applied(start, settings, evs).players, userid);
}

/// A player that an event was about counts as seen after the events.
proof fn lemma_player_confirmed(
    d: Digest,
    settings: SettingsView,
    evs: Seq<LineEventView>,
    k: int,
    userid: u32,
)
    requires
        digest_wf(d),
        0 <= k < evs.len(),
        event_user(evs[k]) == Some(userid),
    ensures
        confirmed(events_applied(d, settings, evs).players, userid),
    decreases evs.len(),
{
    let front = evs.drop_last();
    lemma_events_lookup(d, settings, front, userid);
    if k == evs.len() - 1 {
        lemma_event_lookup(events_applied(d, settings, front), settings, evs.last(), userid);
    } else {
        assert(front[k] == evs[k]);
        lemma_player_confirmed(d, settings, front, k, userid);
        lemma_event_lookup(events_applied(d, settings, front), settings, evs.last(), userid);
    }
}

/// A player that no line of a cycle is about is gone after the cycle,
/// whether it was seen before the cycle or not, and a later cycle without a
/// line about it does not bring it back.
pub proof fn lemma_absent_player_pruned(
    d: Digest,
    settings: SettingsView,
    evs: Seq<LineEventView>,
    later: Seq<LineEventView>,
    userid: u32,
)
    requires
        digest_wf(d),
        forall|k: int| 0 <= k < evs.len() ==> event_user(#[trigger] evs[k]) != Some(userid),
        forall|k: int| 0 <= k < later.len() ==> event_user(#[trigger] later[k]) != Some(userid),
    ensures
        !has_user(cycle_applied(d, settings, evs).players, userid),
        !has_user(
            cycle_applied(cycle_applied(d, settings, evs), settings, later).players,
            userid,
        ),
{
    lemma_player_swept(d, settings, evs, userid);
    lemma_cycle_wf(d, settings, evs);
    lemma_player_swept(cycle_applied(d, settings, evs), settings, later, userid);
}

/// A player that no line of a cycle is about is gone after the cycle.
proof fn lemma_player_swept(
    d: Digest,
    settings: SettingsView,
    evs: Seq<LineEventView>,
    userid: u32,
)
    requires
        digest_wf(d),
        forall|k: int| 0 <= k < evs.len() ==> event_user(#[trigger] evs[k]) != Some(userid),
    ensures
        !has_user(cycle_applied(d, settings, evs).players, userid),
{
    let start = Digest { players: pruned(d.players), ..d };
    lemma_pruned_lookup(d.players, userid);
    lemma_events_lookup(start, settings, evs, userid);
    lemma_swept_lookup(events_applied(start, settings, evs).players, userid);
}

/// Where a refresh stands.
#[derive(Clone, Copy, Debug, PartialEq, Eq, Structural)]
pub enum RefreshPhase {
    /// No refresh is under way.
    Idle,
    /// The session is being connected.
    Connecting,
    /// The status command was sent.
    AwaitStatus,
    /// The lobby command was sent.
    AwaitLobby,
}

/// What happened, as far as a refresh is concerned.
#[derive(Debug)]
pub enum RefreshEvent {
    /// The refresh period has passed.
    Tick,
    /// The attempt to connect that a refresh asked for has ended.
    Connected(ConnectOutcome),
    /// The command that a refresh asked for has ended.
    Answered(CommandOutcome),
}

/// The mathematical value of a [`RefreshEvent`].
pub ghost enum RefreshEventView {
    Tick,
    Connected(ConnectOutcome),
    Answered(CommandOutcomeView),
}

impl View for RefreshEvent {
    type V = RefreshEventView;

    open spec fn view(&self) -> RefreshEventView {
        match self {
            RefreshEvent::Tick => RefreshEventView::Tick,
            RefreshEvent::Connected(o) => RefreshEventView::Connected(*o),
            RefreshEvent::Answered(o) => RefreshEventView::Answered(o@),
        }
    }
}

/// What the caller is to do next for a refresh.
#[derive(Debug)]
pub enum RefreshAction {
    /// Nothing: the refresh is over, or did not start.
    Nothing,
    /// Connect with the password of the settings and report how it ended.
    Connect,
    /// Send the command and report how it ended.
    Send(String),
}

/// The mathematical value of a [`RefreshAction`].
pub ghost enum RefreshActionView {
    Nothing,
    Connect,
    Send(Seq<char>),
}

impl View for RefreshAction {
    type V = RefreshActionView;

    open spec fn view(&self) -> RefreshActionView {
        match self {
            RefreshAction::Nothing => RefreshActionView::Nothing,
            RefreshAction::Connect => RefreshActionView::Connect,
            RefreshAction::Send(c) => RefreshActionView::Send(c@),
        }
    }
}

/// The mathematical value of a [`State`].
pub ghost struct StateView {
    pub digest: Digest,
    pub settings: SettingsView,
    /// The matcher of status lines.
    pub status: MatcherView,
    /// The matcher of lobby lines.
    pub lobby: MatcherView,
    pub demo_mode: bool,
    pub phase: RefreshPhase,
    /// The response to the status command, held back until the lobby command
    /// has answered; empty where none is held.
    pub held: Seq<char>,
    pub log: Option<WatcherView>,
    pub refresh_timer: u64,
    pub alert_timer: u64,
    pub kick_timer: u64,
}

/// A state, a session and an action: what a step of a refresh leaves.
pub ghost struct Refreshed {
    pub state: StateView,
    pub session: SessionView,
    pub action: RefreshActionView,
}

/// The state after lines were taken in, one after the other.
pub open spec fn lines_applied(s: StateView, lines: Seq<Seq<char>>) -> StateView {
    StateView {
        digest: events_applied(s.digest, s.settings, lines_events(s.status, s.lobby, lines)),
        ..s
    }
}

/// The state after the lines of a response were taken in.
pub open spec fn response_applied(s: StateView, text: Seq<char>) -> StateView {
    lines_applied(s, lines_of(text))
}

/// The state at the start of a cycle: the response to the status command
/// is awaited. The registry stays as it is until both commands have
/// answered.
pub open spec fn cycle_started(s: StateView) -> StateView {
    StateView { phase: RefreshPhase::AwaitStatus, held: Seq::empty(), ..s }
}

/// A state in another phase, with no response held back.
pub open spec fn in_phase(s: StateView, phase: RefreshPhase) -> StateView {
    StateView { phase, held: Seq::empty(), ..s }
}

/// The state that holds back the response to the status command and awaits
/// the response to the lobby command.
pub open spec fn status_held(s: StateView, text: Seq<char>) -> StateView {
    StateView { phase: RefreshPhase::AwaitLobby, held: text, ..s }
}

/// What the two responses of a cycle say: the lines of the status response
/// that was held back, then the lines of the lobby response.
pub open spec fn cycle_events(s: StateView, lobby_text: Seq<char>) -> Seq<LineEventView> {
    lines_events(s.status, s.lobby, lines_of(s.held)) + lines_events(
        s.status,
        s.lobby,
        lines_of(lobby_text),
    )
}

/// The state after both commands of a cycle have answered: the registry is
/// pruned, the lines of both responses are taken in, and the players that
/// none of them saw are swept out.
pub open spec fn cycle_finished(s: StateView, lobby_text: Seq<char>) -> StateView {
    in_phase(
        StateView {
            digest: cycle_applied(s.digest, s.settings, cycle_events(s, lobby_text)),
            ..s
        },
        RefreshPhase::Idle,
    )
}

/// One step of a refresh. In demo mode nothing happens. A tick starts a
/// cycle where the session is ready, asks to connect where that is due, and
/// else gives up until the next tick. An accepted connection starts a
/// cycle. A cycle sends the status command; the response is held back and
/// the lobby command is sent; when that one has answered too, the registry
/// is pruned, the lines of both responses are taken in, the players that
/// none of them saw are swept out, and the refresh is over. A connection
/// that is not accepted and a command that brings no response end the
/// refresh and leave the registry as it was before the tick. What was not
/// asked for is passed over.
pub open spec fn refreshed(s: StateView, c: SessionView, ev: RefreshEventView) -> Refreshed {
    let passed_over = Refreshed { state: s, session: c, action: RefreshActionView::Nothing };
    if s.demo_mode {
        passed_over
    } else {
        match ev {
            RefreshEventView::Tick => if c.state == ConnectionState::Ready {
                Refreshed {
                    state: cycle_started(s),
                    session: c,
                    action: RefreshActionView::Send(CMD_STATUS@),
                }
            } else if should_connect(c, s.settings.rcon_password) {
                Refreshed {
                    state: in_phase(s, RefreshPhase::Connecting),
                    session: SessionView { state: ConnectionState::Connecting, ..c },
                    action: RefreshActionView::Connect,
                }
            } else {
                Refreshed {
                    state: in_phase(s, RefreshPhase::Idle),
                    session: c,
                    action: RefreshActionView::Nothing,
                }
            },
            RefreshEventView::Connected(outcome) => if s.phase == RefreshPhase::Connecting {
                let session = SessionView {
                    state: after_connect(outcome),
                    refused: if outcome == ConnectOutcome::WrongPassword {
                        s.settings.rcon_password
                    } else {
                        c.refused
                    },
                };
                if outcome == ConnectOutcome::Accepted {
                    Refreshed {
                        state: cycle_started(s),
                        session,
                        action: RefreshActionView::Send(CMD_STATUS@),
                    }
                } else {
                    Refreshed {
                        state: in_phase(s, RefreshPhase::Idle),
                        session,
                        action: RefreshActionView::Nothing,
                    }
                }
            } else {
                passed_over
            },
            RefreshEventView::Answered(outcome) => if s.phase == RefreshPhase::AwaitStatus
                || s.phase == RefreshPhase::AwaitLobby {
                let session = SessionView { state: after_command(c.state, outcome), ..c };
                match response_of(c.state, outcome) {
                    Some(text) => if s.phase == RefreshPhase::AwaitStatus {
                        Refreshed {
                            state: status_held(s, text),
                            session,
                            action: RefreshActionView::Send(CMD_TF_LOBBY_DEBUG@),
                        }
                    } else {
                        Refreshed {
                            state: cycle_finished(s, text),
                            session,
                            action: RefreshActionView::Nothing,
                        }
                    },
                    None => Refreshed {
                        state: in_phase(s, RefreshPhase::Idle),
                        session,
                        action: RefreshActionView::Nothing,
                    },
                }
            } else {
                passed_over
            },
        }
    }
}

/// Whether a step of a refresh finishes a cycle: outside the demo mode, the
/// lobby command was awaited and has brought a response.
pub open spec fn finishes_cycle(s: StateView, c: SessionView, ev: RefreshEventView) -> bool {
    &&& !s.demo_mode
    &&& s.phase == RefreshPhase::AwaitLobby
    &&& ev matches RefreshEventView::Answered(outcome) && response_of(c.state, outcome) is Some
}

/// Only a step that finishes a cycle changes the players, the rules or the
/// waiting messages. A tick, a connection that fails, and a command that
/// brings no response leave them as they were.
pub proof fn lemma_unfinished_cycle_changes_nothing(
    s: StateView,
    c: SessionView,
    ev: RefreshEventView,
)
    requires
        !finishes_cycle(s, c, ev),
    ensures
        refreshed(s, c, ev).state.digest == s.digest,
{
}

/// A made-up player of the demo mode.
pub open spec fn demo_player(userid: u32, name: Seq<char>, steamid32: Seq<char>, team: Team) -> PlayerView {
    first_seen(userid, steamid32, name, Some(team), None)
}

/// The made-up players of the demo mode.
pub open spec fn demo_roster() -> Seq<PlayerView> {
    seq![
        demo_player(1, "Bash09"@, "U:1:103663727"@, Team::Invaders),
        demo_player(2, "Baan"@, "U:1:130631917"@, Team::Defenders),
        demo_player(3, "Random bot"@, "U:1:1314494843"@, Team::Defenders),
        demo_player(4, "SmooveB"@, "U:1:16722748"@, Team::Invaders),
        demo_player(5, "Some cunt"@, "U:1:95849406"@, Team::Invaders),
        demo_player(6, "ASS"@, "U:1:1203248403"@, Team::Defenders),
    ]
}

/// The players, each with the label and notes of the record saved about its
/// account, where there is one.
pub open spec fn with_records(ps: Seq<PlayerView>, records: Seq<PlayerRecordView>) -> Seq<PlayerView> {
    Seq::new(
        ps.len(),
        |i: int|
            match record_of(records, ps[i].steamid32) {
                Some(r) => ps[i].with_record(r),
                None => ps[i],
            },
    )
}

/// The state that a session starts with at time `now`: in demo mode the
/// registry holds the made-up players, labelled by the saved records, else
/// it is empty; nothing waits to be sent, and no refresh is under way.
pub open spec fn initial(
    demo_mode: bool,
    settings: SettingsView,
    rules: RulesView,
    log: Option<WatcherView>,
    status_pattern: Seq<char>,
    lobby_pattern: Seq<char>,
    now: u64,
) -> StateView {
    StateView {
        digest: Digest {
            players: if demo_mode {
                with_records(demo_roster(), rules.records)
            } else {
                Seq::empty()
            },
            rules,
            outbox: Seq::empty(),
        },
        settings,
        status: MatcherView { pattern: status_pattern, kind: LineKind::Status },
        lobby: MatcherView { pattern: lobby_pattern, kind: LineKind::Lobby },
        demo_mode,
        phase: RefreshPhase::Idle,
        held: Seq::empty(),
        log,
        refresh_timer: now,
        alert_timer: now,
        kick_timer: now,
    }
}

/// The state after bytes that were read from the log file were handed over:
/// the lines that they complete are taken in, one after the other, and what
/// follows the last line feed is held back. Without a log watcher nothing
/// happens.
pub open spec fn log_applied(s: StateView, data: Seq<u8>) -> StateView {
    match s.log {
        Some(w) => StateView {
            digest: events_applied(
                s.digest,
                s.settings,
                lines_events(s.status, s.lobby, decoded(complete_lines(w.pending + data))),
            ),
            log: Some(
                WatcherView {
                    pending: unfinished(w.pending + data),
                    cursor: advanced(w.cursor, data.len()),
                    ..w
                },
            ),
            ..s
        },
        None => s,
    }
}

/// Two lines appended to the log in one write are taken in as two lines,
/// the first and then the second, each tried once by the matchers, and
/// nothing is held back.
pub proof fn lemma_two_log_lines(s: StateView, first: Seq<char>, second: Seq<char>)
    requires
        s.log is Some,
        s.log->0.pending.len() == 0,
        one_line(first),
        one_line(second),
    ensures
        ({
            let data = encode_utf8(first).push(LINE_FEED) + encode_utf8(second).push(LINE_FEED);
            &&& log_applied(s, data).digest == events_applied(
                s.digest,
                s.settings,
                line_events(s.status, s.lobby, first) + line_events(s.status, s.lobby, second),
            )
            &&& log_applied(s, data).log->0.pending == Seq::<u8>::empty()
        }),
{
    let data = encode_utf8(first).push(LINE_FEED) + encode_utf8(second).push(LINE_FEED);
    let w = s.log->0;
    assert(w.pending + data =~= data);
    lemma_two_lines_written(first, second);
    let lines = seq![first, second];
    let none = Seq::<LineEventView>::empty();
    assert(lines.drop_last() =~= seq![first]);
    assert(seq![first].drop_last() =~= Seq::<Seq<char>>::empty());
    assert(lines_events(s.status, s.lobby, Seq::<Seq<char>>::empty()) =~= none);
    assert(seq![first].last() == first);
    assert(lines_events(s.status, s.lobby, seq![first]) =~= line_events(s.status, s.lobby, first));
    assert(lines_events(s.status, s.lobby, lines) =~= line_events(s.status, s.lobby, first)
        + line_events(s.status, s.lobby, second));
}

/// Bytes appended to the log without a line feed are held back and nothing
/// is taken in; when the rest of the line and its line feed arrive, the
/// whole line is taken in, once.
pub proof fn lemma_partial_log_line(s: StateView, partial: Seq<char>, rest: Seq<char>)
    requires
        s.log is Some,
        s.log->0.pending.len() == 0,
        one_line(partial + rest),
    ensures
        log_applied(s, encode_utf8(partial)).digest == s.digest,
        log_applied(
            log_applied(s, encode_utf8(partial)),
            encode_utf8(rest).push(LINE_FEED),
        ).digest == events_applied(
            s.digest,
            s.settings,
            line_events(s.status, s.lobby, partial + rest),
        ),
{
    let p = encode_utf8(partial);
    let r = encode_utf8(rest).push(LINE_FEED);
    let w = s.log->0;
    assert(w.pending + p =~= p);
    lemma_partial_line_completed(partial, rest);
    let none = Seq::<Seq<char>>::empty();
    assert(decoded(Seq::<Seq<u8>>::empty()) =~= none);
    assert(lines_events(s.status, s.lobby, none) =~= Seq::<LineEventView>::empty());
    let whole = seq![partial + rest];
    assert(whole.drop_last() =~= none);
    assert(lines_events(s.status, s.lobby, whole) =~= line_events(
        s.status,
        s.lobby,
        partial + rest,
    ));
}

/// Which of the periodic actions are due.
#[derive(Clone, Copy, Debug, PartialEq, Eq, Structural)]
pub struct Due {
    pub refresh: bool,
    pub kick: bool,
    pub alert: bool,
}

/// The time that a timer counts from after it was asked at `now`.
pub open spec fn timer_after(last: u64, now: u64, period: u32) -> u64 {
    if elapsed(last, now, period as u64) {
        now
    } else {
        last
    }
}

/// The session state: registry, rules, settings, timers and log watcher.
pub struct State {
    pub refresh_timer: Timer,
    pub alert_timer: Timer,
    pub kick_timer: Timer,
    pub settings: Settings,
    pub log: Option<LogWatcher>,
    pub server: Server,
    pub regx_status: LogMatcher,
    pub regx_lobby: LogMatcher,
    pub player_checker: PlayerChecker,
    /// The chat messages that wait to be sent, oldest first.
    pub outbox: Vec<String>,
    demo_mode: bool,
    phase: RefreshPhase,
    held_status: String,
}

impl View for State {
    type V = StateView;

    closed spec fn view(&self) -> StateView {
        StateView {
            digest: Digest {
                players: self.server@,
                rules: self.player_checker@,
                outbox: texts(self.outbox@),
            },
            settings: self.settings@,
            status: self.regx_status@,
            lobby: self.regx_lobby@,
            demo_mode: self.demo_mode,
            phase: self.phase,
            held: self.held_status@,
            log: match self.log {
                Some(w) => Some(w@),
                None => None,
            },
            refresh_timer: self.refresh_timer.last,
            alert_timer: self.alert_timer.last,
            kick_timer: self.kick_timer.last,
        }
    }
}

/// Gives every player the label and notes of the record saved about its account.
fn apply_saved_records(server: &mut Server, checker: &PlayerChecker)
    requires
        old(server).wf(),
        checker.wf(),
    ensures
        final(server).wf(),
        final(server)@ == with_records(old(server)@, checker@.records),
{
    let ghost goal = with_records(old(server)@, checker@.records);
    let n = server.get_players().len();
    let mut i: usize = 0;
    while i < n
        invariant
            i <= n,
            server.wf(),
            checker.wf(),
            n == old(server)@.len(),
            server@.len() == n,
            goal == with_records(old(server)@, checker@.records),
            forall|j: int|
                0 <= j < n ==> (#[trigger] server@[j]) == goal[j] || server@[j] == old(server)@[j],
            forall|j: int| 0 <= j < i ==> (#[trigger] server@[j]) == goal[j],
        decreases n - i,
    {
        let ghost before = server@;
        let steamid = server.get_players()[i].steamid32.clone();
        assert(steamid@ == before[i as int].steamid32);
        assert(before[i as int].steamid32 == old(server)@[i as int].steamid32);
        if let Some(r) = checker.check_player_steamid(steamid.as_str()) {
            server.update_player_from_record(r);
            assert forall|j: int| 0 <= j < n implies (#[trigger] server@[j]) == goal[j] || server@[j]
                == old(server)@[j] by {
                assert(server@[j] == record_applied(before, r@)[j]);
                assert(before[j] == goal[j] || before[j] == old(server)@[j]);
            }
            assert(server@[i as int] == record_applied(before, r@)[i as int]);
        }
        i += 1;
    }
    assert(server@ =~= goal);
}

/// Gives a player the label that the rules give.
fn label(p: &mut Player, checker: &PlayerChecker)
    requires
        checker.wf(),
    ensures
        final(p)@ == labelled(old(p)@, checker@),
{
    let by_name = checker.check_player_name(p.name.as_str());
    match checker.check_player_steamid(p.steamid32.as_str()) {
        Some(r) => {
            p.update_from_record(&r);
        },
        None => {
            if let Some(t) = by_name {
                p.player_type = t;
            }
        },
    }
    p.common_name = by_name.is_some();
}

/// The chat message about a name that was taken.
fn steal_text(name: &str) -> (r: String)
    ensures
        r@ == steal_message(name@),
{
    let mut r = "A bot has stolen ".to_owned();
    r.append(name);
    r.append("'s name.");
    r
}

impl State {
    /// The invariant of the state: those of its parts.
    pub closed spec fn wf(&self) -> bool {
        &&& self.server.wf()
        &&& self.player_checker.wf()
        &&& self.regx_status.wf()
        &&& self.regx_lobby.wf()
        &&& self.regx_status.kind == LineKind::Status
        &&& self.regx_lobby.kind == LineKind::Lobby
        &&& match self.log {
            Some(w) => w.wf(),
            None => true,
        }
    }

    /// A state at time `now`, with the rules as loaded. The patterns of the
    /// two kinds of line are compiled; where the compiler refuses one, there
    /// is no state. In demo mode the registry holds the made-up players,
    /// labelled by the saved records; else it is empty.
    pub fn new(
        demo_mode: bool,
        settings: Settings,
        player_checker: PlayerChecker,
        log: Option<LogWatcher>,
        now: u64,
    ) -> (r: Result<State, ImportError>)
        requires
            player_checker.wf(),
            match log {
                Some(w) => w.wf(),
                None => true,
            },
        ensures
            match r {
                Ok(s) => s.wf() && s@ == initial(
                    demo_mode,
                    settings@,
                    player_checker@,
                    match log {
                        Some(w) => Some(w@),
                        None => None,
                    },
                    REGEX_STATUS@,
                    REGEX_LOBBY@,
                    now,
                ),
                Err(e) => e == ImportError::BadPattern,
            },
    {
        State::with_compiled(
            demo_mode,
            settings,
            player_checker,
            log,
            Regex::new(REGEX_STATUS),
            Regex::new(REGEX_LOBBY),
            now,
        )
    }

    /// Takes what `Regex::new` gave for the patterns of the two kinds of line.
    /// Where both compiled there is a state at time `now` with them, as
    /// `with_matchers` makes it; where one did not, there is none.
    pub fn with_compiled(
        demo_mode: bool,
        settings: Settings,
        player_checker: PlayerChecker,
        log: Option<LogWatcher>,
        status: Result<Regex, regex::Error>,
        lobby: Result<Regex, regex::Error>,
        now: u64,
    ) -> (r: Result<State, ImportError>)
        requires
            player_checker.wf(),
            status matches Ok(re) ==> plainly_compiled(re),
            lobby matches Ok(re) ==> plainly_compiled(re),
            match log {
                Some(w) => w.wf(),
                None => true,
            },
        ensures
            match (status, lobby) {
                (Ok(regx_status), Ok(regx_lobby)) => r matches Ok(s) && s.wf() && s@ == initial(
                    demo_mode,
                    settings@,
                    player_checker@,
                    match log {
                        Some(w) => Some(w@),
                        None => None,
                    },
                    regex_source(regx_status),
                    regex_source(regx_lobby),
                    now,
                ),
                _ => r matches Err(e) && e == ImportError::BadPattern,
            },
    {
        match (status, lobby) {
            (Ok(regx_status), Ok(regx_lobby)) => Ok(
                State::with_matchers(
                    demo_mode,
                    settings,
                    player_checker,
                    log,
                    regx_status,
                    regx_lobby,
                    now,
                ),
            ),
            _ => Err(ImportError::BadPattern),
        }
    }

    /// A state at time `now`, with the rules as loaded and the patterns of
    /// the two kinds of line as `Regex::new` compiled them.
    pub fn with_matchers(
        demo_mode: bool,
        settings: Settings,
        player_checker: PlayerChecker,
        log: Option<LogWatcher>,
        regx_status: Regex,
        regx_lobby: Regex,
        now: u64,
    ) -> (s: State)
        requires
            player_checker.wf(),
            plainly_compiled(regx_status),
            plainly_compiled(regx_lobby),
            match log {
                Some(w) => w.wf(),
                None => true,
            },
        ensures
            s.wf(),
            s@ == initial(
                demo_mode,
                settings@,
                player_checker@,
                match log {
                    Some(w) => Some(w@),
                    None => None,
                },
                regex_source(regx_status),
                regex_source(regx_lobby),
                now,
            ),
    {
        let mut server = Server::new();
        if demo_mode {
            server.update_or_insert(1, "U:1:103663727", "Bash09", Some(Team::Invaders), None);
            assert(server@ =~= seq![
                demo_player(1, "Bash09"@, "U:1:103663727"@, Team::Invaders),
            ]);
            server.update_or_insert(2, "U:1:130631917", "Baan", Some(Team::Defenders), None);
            assert(server@ =~= seq![
                demo_player(1, "Bash09"@, "U:1:103663727"@, Team::Invaders),
                demo_player(2, "Baan"@, "U:1:130631917"@, Team::Defenders),
            ]);
            server.update_or_insert(3, "U:1:1314494843", "Random bot", Some(Team::Defenders), None);
            assert(server@ =~= seq![
                demo_player(1, "Bash09"@, "U:1:103663727"@, Team::Invaders),
                demo_player(2, "Baan"@, "U:1:130631917"@, Team::Defenders),
                demo_player(3, "Random bot"@, "U:1:1314494843"@, Team::Defenders),
            ]);
            server.update_or_insert(4, "U:1:16722748", "SmooveB", Some(Team::Invaders), None);
            assert(server@ =~= seq![
                demo_player(1, "Bash09"@, "U:1:103663727"@, Team::Invaders),
                demo_player(2, "Baan"@, "U:1:130631917"@, Team::Defenders),
                demo_player(3, "Random bot"@, "U:1:1314494843"@, Team::Defenders),
                demo_player(4, "SmooveB"@, "U:1:16722748"@, Team::Invaders),
            ]);
            server.update_or_insert(5, "U:1:95849406", "Some cunt", Some(Team::Invaders), None);
            assert(server@ =~= seq![
                demo_player(1, "Bash09"@, "U:1:103663727"@, Team::Invaders),
                demo_player(2, "Baan"@, "U:1:130631917"@, Team::Defenders),
                demo_player(3, "Random bot"@, "U:1:1314494843"@, Team::Defenders),
                demo_player(4, "SmooveB"@, "U:1:16722748"@, Team::Invaders),
                demo_player(5, "Some cunt"@, "U:1:95849406"@, Team::Invaders),
            ]);
            server.update_or_insert(6, "U:1:1203248403", "ASS", Some(Team::Defenders), None);
            assert(server@ =~= demo_roster());
            apply_saved_records(&mut server, &player_checker);
        }
        let s = State {
            refresh_timer: Timer::new(now),
            alert_timer: Timer::new(now),
            kick_timer: Timer::new(now),
            settings,
            log,
            server,
            regx_status: LogMatcher::new(regx_status, LineKind::Status),
            regx_lobby: LogMatcher::new(regx_lobby, LineKind::Lobby),
            player_checker,
            outbox: Vec::new(),
            demo_mode,
            phase: RefreshPhase::Idle,
            held_status: String::new(),
        };
        assert(s@.digest.outbox =~= Seq::<Seq<char>>::empty());
        s
    }

    /// Asks the three timers at time `now`. A timer whose period has passed
    /// counts from `now` again. Votes and announcements are due only where
    /// the settings ask for them and the actions are not paused.
    pub fn tick(&mut self, now: u64) -> (due: Due)
        ensures
            old(self).wf() ==> final(self).wf(),
            due.refresh == elapsed(
                old(self)@.refresh_timer,
                now,
                old(self)@.settings.refresh_period as u64,
            ),
            due.kick == (elapsed(old(self)@.kick_timer, now, old(self)@.settings.kick_period as u64)
                && !old(self)@.settings.paused && (old(self)@.settings.kick_bots || old(
                self,
            )@.settings.kick_cheaters)),
            due.alert == (elapsed(
                old(self)@.alert_timer,
                now,
                old(self)@.settings.alert_period as u64,
            ) && !old(self)@.settings.paused && (old(self)@.settings.announce_bots || old(
                self,
            )@.settings.announce_cheaters)),
            final(self)@ == (StateView {
                refresh_timer: timer_after(
                    old(self)@.refresh_timer,
                    now,
                    old(self)@.settings.refresh_period,
                ),
                kick_timer: timer_after(old(self)@.kick_timer, now, old(self)@.settings.kick_period),
                alert_timer: timer_after(
                    old(self)@.alert_timer,
                    now,
                    old(self)@.settings.alert_period,
                ),
                ..old(self)@
            }),
    {
        let refresh = self.refresh_timer.go(now, self.settings.refresh_period as u64);
        let kick = self.kick_timer.go(now, self.settings.kick_period as u64);
        let alert = self.alert_timer.go(now, self.settings.alert_period as u64);
        let active = !self.settings.paused;
        Due {
            refresh,
            kick: kick && active && (self.settings.kick_bots || self.settings.kick_cheaters),
            alert: alert && active && (self.settings.announce_bots
                || self.settings.announce_cheaters),
        }
    }

    /// The commands that call a vote to kick each bot and each cheater, as
    /// far as the settings ask for it. None while the actions are paused or
    /// the session is not ready.
    pub fn kick_commands(&self, cmd: &CommandManager) -> (r: Vec<String>)
        ensures
            texts(r@) == if cmd@.state == ConnectionState::Ready && !self@.settings.paused {
                kick_votes(self@.digest.players, self@.settings)
            } else {
                Seq::empty()
            },
    {
        if cmd.state() == ConnectionState::Ready && !self.settings.paused {
            self.server.kick_commands(&self.settings)
        } else {
            let r: Vec<String> = Vec::new();
            assert(texts(r@) =~= Seq::<Seq<char>>::empty());
            r
        }
    }

    /// The chat announcement of the flagged players that were not announced
    /// before, which are then marked as announced. While the actions are
    /// paused nothing is announced and nothing changes.
    pub fn announce(&mut self) -> (r: Option<String>)
        requires
            old(self).wf(),
        ensures
            final(self).wf(),
            old(self)@.settings.paused ==> r is None && final(self)@ == old(self)@,
            !old(self)@.settings.paused ==> final(self)@ == (StateView {
                digest: Digest {
                    players: alerted(old(self)@.digest.players, old(self)@.settings),
                    ..old(self)@.digest
                },
                ..old(self)@
            }) && match r {
                Some(text) => alert_count(old(self)@.digest.players, old(self)@.settings) > 0
                    && text@ == alert_text(old(self)@.digest.players, old(self)@.settings),
                None => alert_count(old(self)@.digest.players, old(self)@.settings) == 0,
            },
    {
        if self.settings.paused {
            None
        } else {
            self.server.announce(&self.settings)
        }
    }

    /// Takes the user's verdict on an account: every player of the account
    /// gets the record's label and notes, and the record is saved.
    pub fn update_player(&mut self, record: PlayerRecord)
        requires
            old(self).wf(),
        ensures
            final(self).wf(),
            final(self)@ == (StateView {
                digest: Digest {
                    players: record_applied(old(self)@.digest.players, record@),
                    rules: RulesView {
                        records: record_merged(old(self)@.digest.rules.records, record@),
                        ..old(self)@.digest.rules
                    },
                    ..old(self)@.digest
                },
                ..old(self)@
            }),
    {
        self.server.update_player_from_record(record.clone());
        self.player_checker.update_player_record(record);
    }

    /// Takes the bytes that were read from the log file and takes in the
    /// lines that they complete. Without a log watcher nothing happens.
    pub fn read_log(&mut self, data: &[u8])
        requires
            old(self).wf(),
        ensures
            final(self).wf(),
            final(self)@ == log_applied(old(self)@, data@),
    {
        let taken = self.log.take();
        match taken {
            Some(mut w) => {
                let lines = w.poll(data);
                self.log = Some(w);
                self.ingest_lines(&lines);
            },
            None => {},
        }
    }

    /// What the invariant of the state says of its value: the players are
    /// one for a connection id, the records one for an account and the rules
    /// one for a pattern text, and the two matchers read the kinds of line
    /// that they are for.
    pub proof fn lemma_wf(&self)
        requires
            self.wf(),
        ensures
            digest_wf(self@.digest),
            self@.status.kind == LineKind::Status,
            self@.lobby.kind == LineKind::Lobby,
    {
    }

    /// The registry.
    pub fn get_server(&self) -> (r: &Server)
        ensures
            r@ == self@.digest.players,
            self.wf() ==> r.wf(),
    {
        &self.server
    }

    /// The rules.
    pub fn get_player_checker(&self) -> (r: &PlayerChecker)
        ensures
            r@ == self@.digest.rules,
            self.wf() ==> r.wf(),
    {
        &self.player_checker
    }

    /// The settings.
    pub fn get_settings(&self) -> (r: &Settings)
        ensures
            r@ == self@.settings,
    {
        &self.settings
    }

    /// The chat messages that wait to be sent, oldest first.
    pub fn get_outbox(&self) -> (r: &Vec<String>)
        ensures
            texts(r@) == self@.digest.outbox,
    {
        &self.outbox
    }

    /// Takes the chat messages that wait to be sent, oldest first, and
    /// leaves none waiting.
    pub fn take_outbox(&mut self) -> (r: Vec<String>)
        ensures
            old(self).wf() ==> final(self).wf(),
            texts(r@) == old(self)@.digest.outbox,
            final(self)@ == (StateView {
                digest: Digest { outbox: Seq::empty(), ..old(self)@.digest },
                ..old(self)@
            }),
    {
        let mut r: Vec<String> = Vec::new();
        std::mem::swap(&mut self.outbox, &mut r);
        assert(texts(self.outbox@) =~= Seq::<Seq<char>>::empty());
        r
    }

    /// The log watcher, if a log file is watched.
    pub fn get_log(&self) -> (r: &Option<LogWatcher>)
        ensures
            self@.log == match *r {
                Some(w) => Some(w@),
                None => None,
            },
    {
        &self.log
    }

    /// Gives every player the label and notes of the record saved about its
    /// account, as after an import of records.
    pub fn apply_saved_records(&mut self)
        requires
            old(self).wf(),
        ensures
            final(self).wf(),
            final(self)@ == (StateView {
                digest: Digest {
                    players: with_records(
                        old(self)@.digest.players,
                        old(self)@.digest.rules.records,
                    ),
                    ..old(self)@.digest
                },
                ..old(self)@
            }),
    {
        apply_saved_records(&mut self.server, &self.player_checker);
    }

    /// Whether the state shows made-up players in place of a session.
    pub fn is_demo(&self) -> (b: bool)
        ensures
            b == self@.demo_mode,
    {
        self.demo_mode
    }

    /// Where the refresh stands.
    pub fn phase(&self) -> (p: RefreshPhase)
        ensures
            p == self@.phase,
    {
        self.phase
    }

    /// Takes in what a console line says.
    pub fn apply_event(&mut self, ev: &LineEvent)
        requires
            old(self).wf(),
        ensures
            final(self).wf(),
            final(self)@ == (StateView {
                digest: event_applied(old(self)@.digest, old(self)@.settings, ev@),
                ..old(self)@
            }),
    {
        match ev {
            LineEvent::Status { userid, steamid32, name, time } => {
                self.see(*userid, steamid32.as_str(), name.as_str(), None, Some(*time));
            },
            LineEvent::Lobby { userid, steamid32, team } => {
                proof {
                    reveal_strlit("");
                    assert(""@ =~= Seq::<char>::empty());
                }
                self.see(*userid, steamid32.as_str(), "", Some(*team), None);
            },
            LineEvent::Malformed => {},
        }
    }

    /// Takes in that a player was seen.
    fn see(
        &mut self,
        userid: u32,
        steamid32: &str,
        name: &str,
        team: Option<Team>,
        time: Option<u32>,
    )
        requires
            old(self).wf(),
        ensures
            final(self).wf(),
            final(self)@ == (StateView {
                digest: sighting_applied(
                    old(self)@.digest,
                    old(self)@.settings,
                    (Sighting { userid, steamid32: steamid32@, name: name@, team, time }),
                ),
                ..old(self)@
            }),
    {
        let ghost d = self@.digest;
        let outcome = self.server.update_or_insert(userid, steamid32, name, team, time);
        let ghost seen_player = sighted_player(d.players, userid, steamid32@, name@, team, time);
        proof {
            lemma_sighted_stores(d.players, userid, steamid32@, name@, team, time);
            lemma_stored(d.players, seen_player, userid);
        }
        match outcome {
            Sighted::Seen => {},
            Sighted::Joined => {
                if let Some(found) = self.server.get_player(userid) {
                    let mut p = found.clone();
                    label(&mut p, &self.player_checker);
                    self.server.store(p);
                }
            },
            Sighted::Renamed { stolen } => {
                if let Some(found) = self.server.get_player(userid) {
                    let mut p = found.clone();
                    let unsaved = self.player_checker.check_player_steamid(
                        p.steamid32.as_str(),
                    ).is_none();
                    label(&mut p, &self.player_checker);
                    let steal = stolen && self.settings.mark_name_stealers && unsaved
                        && p.player_type == PlayerType::Player;
                    if steal {
                        p.player_type = PlayerType::Bot;
                        p.notes.append(NAME_STEALER_NOTE);
                        self.player_checker.update_player_record(p.get_record());
                    }
                    self.server.store(p);
                    if stolen && self.settings.announce_namesteal && !self.settings.paused {
                        let ghost before = texts(self.outbox@);
                        let message = steal_text(name);
                        self.outbox.push(message);
                        assert(texts(self.outbox@) =~= before.push(steal_message(name@)));
                    }
                }
            },
        }
    }

    /// Tries both matchers on a console line and takes in what they read.
    pub fn ingest_line(&mut self, line: &str)
        requires
            old(self).wf(),
        ensures
            final(self).wf(),
            final(self)@ == (StateView {
                digest: events_applied(
                    old(self)@.digest,
                    old(self)@.settings,
                    line_events(old(self)@.status, old(self)@.lobby, line@),
                ),
                ..old(self)@
            }),
    {
        let ghost d = self@.digest;
        let ghost settings = self@.settings;
        let first = self.regx_status.read(line);
        let second = self.regx_lobby.read(line);
        let ghost none = Seq::<LineEventView>::empty();
        let ghost one = match matcher_event(self@.status, line@) {
            Some(ev) => seq![ev],
            None => none,
        };
        let ghost two = match matcher_event(self@.lobby, line@) {
            Some(ev) => seq![ev],
            None => none,
        };
        if let Some(ev) = first {
            self.apply_event(&ev);
            proof {
                lemma_events_single(d, settings, ev@);
            }
        }
        let ghost between = self@.digest;
        if let Some(ev) = second {
            self.apply_event(&ev);
            proof {
                lemma_events_single(between, settings, ev@);
            }
        }
        proof {
            lemma_events_join(d, settings, one, two);
        }
    }

    /// Takes in the lines of a text, one after the other.
    pub fn ingest_text(&mut self, text: &str)
        requires
            old(self).wf(),
        ensures
            final(self).wf(),
            final(self)@ == response_applied(old(self)@, text@),
    {
        let lines = split_lines(text);
        self.ingest_lines(&lines);
    }

    /// Takes in lines, one after the other.
    pub fn ingest_lines(&mut self, lines: &Vec<String>)
        requires
            old(self).wf(),
        ensures
            final(self).wf(),
            final(self)@ == lines_applied(old(self)@, texts(lines@)),
    {
        let ghost all = texts(lines@);
        let mut i: usize = 0;
        proof {
            assert(all.take(0) =~= Seq::<Seq<char>>::empty());
        }
        while i < lines.len()
            invariant
                i <= lines.len(),
                all == texts(lines@),
                self.wf(),
                self@ == lines_applied(old(self)@, all.take(i as int)),
            decreases lines.len() - i,
        {
            proof {
                assert(all.take(i + 1).drop_last() =~= all.take(i as int));
                assert(all.take(i + 1).last() == lines@[i as int]@);
                lemma_events_join(
                    old(self)@.digest,
                    old(self)@.settings,
                    lines_events(old(self)@.status, old(self)@.lobby, all.take(i as int)),
                    line_events(old(self)@.status, old(self)@.lobby, lines@[i as int]@),
                );
            }
            self.ingest_line(lines[i].as_str());
            i += 1;
        }
        proof {
            assert(all.take(lines.len() as int) =~= all);
        }
    }

    /// One step of a refresh of the registry from the server: takes what
    /// happened and says what to do next. The registry changes only when
    /// both commands of a cycle have answered: the players that neither
    /// response names are then removed.
    pub fn refresh(&mut self, cmd: &mut CommandManager, event: RefreshEvent) -> (action: RefreshAction)
        requires
            old(self).wf(),
        ensures
            final(self).wf(),
            final(self)@ == refreshed(old(self)@, old(cmd)@, event@).state,
            final(cmd)@ == refreshed(old(self)@, old(cmd)@, event@).session,
            action@ == refreshed(old(self)@, old(cmd)@, event@).action,
    {
        if self.demo_mode {
            return RefreshAction::Nothing;
        }
        match event {
            RefreshEvent::Tick => {
                if cmd.state() == ConnectionState::Ready {
                    self.start_cycle()
                } else if cmd.start_connect(self.settings.rcon_password.as_str()) {
                    self.enter(RefreshPhase::Connecting);
                    RefreshAction::Connect
                } else {
                    self.enter(RefreshPhase::Idle);
                    RefreshAction::Nothing
                }
            },
            RefreshEvent::Connected(outcome) => {
                if self.phase == RefreshPhase::Connecting {
                    match cmd.finish_connect(self.settings.rcon_password.as_str(), outcome) {
                        Ok(_) => self.start_cycle(),
                        Err(_) => {
                            self.enter(RefreshPhase::Idle);
                            RefreshAction::Nothing
                        },
                    }
                } else {
                    RefreshAction::Nothing
                }
            },
            RefreshEvent::Answered(outcome) => {
                if self.phase == RefreshPhase::AwaitStatus {
                    match cmd.finish_command(outcome) {
                        Some(text) => {
                            self.held_status = text;
                            self.phase = RefreshPhase::AwaitLobby;
                            RefreshAction::Send(CMD_TF_LOBBY_DEBUG.to_owned())
                        },
                        None => {
                            self.enter(RefreshPhase::Idle);
                            RefreshAction::Nothing
                        },
                    }
                } else if self.phase == RefreshPhase::AwaitLobby {
                    match cmd.finish_command(outcome) {
                        Some(text) => {
                            let ghost before = self@;
                            let mut status = String::new();
                            std::mem::swap(&mut self.held_status, &mut status);
                            self.server.prune();
                            let ghost start = self@.digest;
                            self.ingest_text(status.as_str());
                            self.ingest_text(text.as_str());
                            self.server.sweep();
                            self.enter(RefreshPhase::Idle);
                            proof {
                                lemma_events_join(
                                    start,
                                    before.settings,
                                    lines_events(before.status, before.lobby, lines_of(status@)),
                                    lines_events(before.status, before.lobby, lines_of(text@)),
                                );
                            }
                            RefreshAction::Nothing
                        },
                        None => {
                            self.enter(RefreshPhase::Idle);
                            RefreshAction::Nothing
                        },
                    }
                } else {
                    RefreshAction::Nothing
                }
            },
        }
    }

    /// Starts a cycle: asks for the status command.
    fn start_cycle(&mut self) -> (action: RefreshAction)
        requires
            old(self).wf(),
        ensures
            final(self).wf(),
            final(self)@ == cycle_started(old(self)@),
            action@ == RefreshActionView::Send(CMD_STATUS@),
    {
        self.phase = RefreshPhase::AwaitStatus;
        self.held_status = String::new();
        RefreshAction::Send(CMD_STATUS.to_owned())
    }

    /// Enters a phase and drops the response that was held back.
    fn enter(&mut self, phase: RefreshPhase)
        ensures
            old(self).wf() ==> final(self).wf(),
            final(self)@ == in_phase(old(self)@, phase),
    {
        self.phase = phase;
        self.held_status = String::new();
    }
}

} // verus!
