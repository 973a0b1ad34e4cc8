//! The registry of the players that are currently connected.

use crate::player::{
    fresh_player, texts, Player, PlayerRecord, PlayerRecordView, PlayerView, Team,
};
use crate::command_manager::{kick_command, kick_text, KickReason};
use crate::player::PlayerType;
use crate::settings::{Settings, SettingsView};
use crate::text::str_eq;
use vstd::string::*;
use vstd::prelude::*;

verus! {

/// The values of a list of players.
pub open spec fn views(ps: Seq<Player>) -> Seq<PlayerView> {
    Seq::new(ps.len(), |i: int| ps[i]@)
}

/// No two players share a connection id.
pub open spec fn distinct_ids(ps: Seq<PlayerView>) -> bool {
    forall|i: int, j: int|
        0 <= i < ps.len() && 0 <= j < ps.len() && i != j ==> ps[i].userid != ps[j].userid
}

/// Some player holds the connection id.
pub open spec fn has_user(ps: Seq<PlayerView>, userid: u32) -> bool {
    exists|i: int| 0 <= i < ps.len() && ps[i].userid == userid
}

/// The position of the player that holds the connection id.
pub open spec fn user_index(ps: Seq<PlayerView>, userid: u32) -> int
    recommends
        has_user(ps, userid),
{
    choose|i: int| 0 <= i < ps.len() && ps[i].userid == userid
}

/// Some player other than the holder of `userid` goes by `name`.
pub open spec fn name_in_use(ps: Seq<PlayerView>, userid: u32, name: Seq<char>) -> bool {
    exists|j: int| 0 <= j < ps.len() && ps[j].userid != userid && ps[j].name == name
}

/// Whether seeing a player under `name` is a change of name: the player had
/// a name, and is seen under another one. An empty name is no name: a line
/// that names the player's team only is seen under none.
pub open spec fn renames(p: PlayerView, name: Seq<char>) -> bool {
    name.len() > 0 && p.name.len() > 0 && name != p.name
}

/// A known player after being seen again. An absent team, time or name
/// leaves the old one. A new name replaces the old one, which joins the
/// earlier names if it was a name; `taken` says that another player was
/// using the new name.
pub open spec fn merged(
    p: PlayerView,
    name: Seq<char>,
    team: Option<Team>,
    time: Option<u32>,
    taken: bool,
) -> PlayerView {
    let renamed = renames(p, name);
    PlayerView {
        name: if name.len() > 0 {
            name
        } else {
            p.name
        },
        previous_names: if renamed {
            p.previous_names.push(p.name)
        } else {
            p.previous_names
        },
        team: match team {
            Some(t) => t,
            None => p.team,
        },
        time: match time {
            Some(t) => t,
            None => p.time,
        },
        accounted: true,
        stolen_name: p.stolen_name || (renamed && taken),
        ..p
    }
}

/// A player created by a sighting.
pub open spec fn first_seen(
    userid: u32,
    steamid32: Seq<char>,
    name: Seq<char>,
    team: Option<Team>,
    time: Option<u32>,
) -> PlayerView {
    PlayerView {
        team: match team {
            Some(t) => t,
            None => Team::Unassigned,
        },
        time: match time {
            Some(t) => t,
            None => 0,
        },
        ..fresh_player(userid, steamid32, name)
    }
}

/// What a sighting meant for the registry.
#[derive(Clone, Copy, Debug, PartialEq, Eq, Structural)]
pub enum Sighted {
    /// A player was created, took over a connection id from another
    /// account, or was seen under a name for the first time.
    Joined,
    /// A known player was seen under a new name; `stolen` says that another
    /// player was using that name.
    Renamed { stolen: bool },
    /// A known player was seen under the known name.
    Seen,
}

/// What a sighting means for a registry.
pub open spec fn sighting_outcome(
    ps: Seq<PlayerView>,
    userid: u32,
    steamid32: Seq<char>,
    name: Seq<char>,
) -> Sighted {
    if has_user(ps, userid) && ps[user_index(ps, userid)].steamid32 == steamid32 {
        if name.len() == 0 || ps[user_index(ps, userid)].name == name {
            Sighted::Seen
        } else if ps[user_index(ps, userid)].name.len() == 0 {
            Sighted::Joined
        } else {
            Sighted::Renamed { stolen: name_in_use(ps, userid, name) }
        }
    } else {
        Sighted::Joined
    }
}

/// The registry after a sighting. A player with the connection id and the
/// same account is merged with what was seen; one with another account is
/// replaced; without one a player is added at the end.
pub open spec fn sighted(
    ps: Seq<PlayerView>,
    userid: u32,
    steamid32: Seq<char>,
    name: Seq<char>,
    team: Option<Team>,
    time: Option<u32>,
) -> Seq<PlayerView> {
    if has_user(ps, userid) {
        let i = user_index(ps, userid);
        if ps[i].steamid32 == steamid32 {
            ps.update(i, merged(ps[i], name, team, time, name_in_use(ps, userid, name)))
        } else {
            ps.update(i, first_seen(userid, steamid32, name, team, time))
        }
    } else {
        ps.push(first_seen(userid, steamid32, name, team, time))
    }
}

/// The registry with `p` in the place of the player that holds its connection
/// id, or at the end where nobody holds it.
pub open spec fn stored(ps: Seq<PlayerView>, p: PlayerView) -> Seq<PlayerView> {
    if has_user(ps, p.userid) {
        ps.update(user_index(ps, p.userid), p)
    } else {
        ps.push(p)
    }
}

/// A player marked as not seen.
pub open spec fn unconfirmed(p: PlayerView) -> PlayerView {
    PlayerView { accounted: false, ..p }
}

/// The registry after pruning, at the start of a cycle: every player is
/// marked as not seen. A player that is seen again before the cycle ends is
/// kept; the others are swept out at its end.
pub open spec fn pruned(ps: Seq<PlayerView>) -> Seq<PlayerView> {
    Seq::new(ps.len(), |i: int| unconfirmed(ps[i]))
}

/// The registry after the sweep at the end of a cycle: the players that
/// were not seen since the pruning are gone, and the others stand as they
/// were, in their order.
pub open spec fn swept(ps: Seq<PlayerView>) -> Seq<PlayerView>
    decreases ps.len(),
{
    if ps.len() == 0 {
        ps
    } else if ps.last().accounted {
        swept(ps.drop_last()).push(ps.last())
    } else {
        swept(ps.drop_last())
    }
}

/// The registry after a record was applied: every player of the record's
/// account has its label and notes.
pub open spec fn record_applied(ps: Seq<PlayerView>, record: PlayerRecordView) -> Seq<PlayerView> {
    Seq::new(
        ps.len(),
        |i: int|
            if ps[i].steamid32 == record.steamid {
                ps[i].with_record(record)
            } else {
                ps[i]
            },
    )
}

/// Whether a vote to kick the player is to be called: a bot where bots are
/// kicked, a cheater where cheaters are.
pub open spec fn to_kick(p: PlayerView, settings: SettingsView) -> bool {
    (p.player_type == PlayerType::Bot && settings.kick_bots) || (p.player_type
        == PlayerType::Cheater && settings.kick_cheaters)
}

/// The commands that call the votes to kick, in the order of the players.
pub open spec fn kick_votes(ps: Seq<PlayerView>, settings: SettingsView) -> Seq<Seq<char>>
    decreases ps.len(),
{
    if ps.len() == 0 {
        Seq::empty()
    } else if to_kick(ps.last(), settings) {
        kick_votes(ps.drop_last(), settings).push(
            kick_command(ps.last().userid, KickReason::Cheating),
        )
    } else {
        kick_votes(ps.drop_last(), settings)
    }
}

/// Whether the player is to be named in the next chat announcement: one
/// that was not named before, and is a bot where bots are announced, unless
/// bots with a common name are left out and the name is one, or a cheater
/// where cheaters are announced.
pub open spec fn to_announce(p: PlayerView, settings: SettingsView) -> bool {
    !p.announced && ((p.player_type == PlayerType::Bot && settings.announce_bots && !(
    settings.dont_announce_common_names && p.common_name)) || (p.player_type
        == PlayerType::Cheater && settings.announce_cheaters))
}

/// How a player is named in an announcement: the label and the name.
pub open spec fn alert_entry(p: PlayerView) -> Seq<char> {
    if p.player_type == PlayerType::Cheater {
        "Cheater "@ + p.name
    } else {
        "Bot "@ + p.name
    }
}

/// The announcement of the players that are to be named: `Alert!`, and
/// after it, after a space the first and after a comma and a space each
/// other, the players in their order. Without such a player it is only
/// `Alert!`.
pub open spec fn alert_text(ps: Seq<PlayerView>, settings: SettingsView) -> Seq<char>
    decreases ps.len(),
{
    if ps.len() == 0 {
        "Alert!"@
    } else if to_announce(ps.last(), settings) {
        if alert_count(ps.drop_last(), settings) == 0 {
            alert_text(ps.drop_last(), settings) + " "@ + alert_entry(ps.last())
        } else {
            alert_text(ps.drop_last(), settings) + ", "@ + alert_entry(ps.last())
        }
    } else {
        alert_text(ps.drop_last(), settings)
    }
}

/// How many players are to be named in the next announcement.
pub open spec fn alert_count(ps: Seq<PlayerView>, settings: SettingsView) -> nat
    decreases ps.len(),
{
    if ps.len() == 0 {
        0
    } else if to_announce(ps.last(), settings) {
        alert_count(ps.drop_last(), settings) + 1
    } else {
        alert_count(ps.drop_last(), settings)
    }
}

/// The registry after an announcement: the players it named are marked.
pub open spec fn alerted(ps: Seq<PlayerView>, settings: SettingsView) -> Seq<PlayerView> {
    Seq::new(
        ps.len(),
        |i: int|
            if to_announce(ps[i], settings) {
                PlayerView { announced: true, ..ps[i] }
            } else {
                ps[i]
            },
    )
}

/// The connected players, at most one for each connection id.
pub struct Server {
    players: Vec<Player>,
}

impl View for Server {
    type V = Seq<PlayerView>;

    closed spec fn view(&self) -> Seq<PlayerView> {
        views(self.players@)
    }
}

/// Where `userid` is in `ps`, if anywhere.
fn find_user(ps: &Vec<Player>, userid: u32) -> (r: Option<usize>)
    requires
        distinct_ids(views(ps@)),
    ensures
        r is Some <==> has_user(views(ps@), userid),
        r matches Some(i) ==> i == user_index(views(ps@), userid) && i < ps.len(),
{
    let mut i: usize = 0;
    while i < ps.len()
        invariant
            i <= ps.len(),
            distinct_ids(views(ps@)),
            forall|j: int| 0 <= j < i ==> views(ps@)[j].userid != userid,
        decreases ps.len() - i,
    {
        if ps[i].userid == userid {
            assert(views(ps@)[i as int].userid == userid);
            return Some(i);
        }
        i += 1;
    }
    None
}

/// Whether a player other than the holder of `userid` goes by `name`.
fn other_has_name(ps: &Vec<Player>, userid: u32, name: &str) -> (r: bool)
    ensures
        r == name_in_use(views(ps@), userid, name@),
{
    let mut i: usize = 0;
    while i < ps.len()
        invariant
            i <= ps.len(),
            forall|j: int|
                0 <= j < i ==> !(views(ps@)[j].userid != userid && views(ps@)[j].name == name@),
        decreases ps.len() - i,
    {
        if ps[i].userid != userid && str_eq(ps[i].name.as_str(), name) {
            assert(views(ps@)[i as int].userid != userid && views(ps@)[i as int].name == name@);
            return true;
        }
        i += 1;
    }
    false
}

impl Server {
    /// The invariant of the registry: no two players share a connection id.
    pub open spec fn wf(&self) -> bool {
        distinct_ids(self@)
    }

    /// A registry without players.
    pub fn new() -> (s: Server)
        ensures
            s.wf(),
            s@ == Seq::<PlayerView>::empty(),
    {
        let s = Server { players: Vec::new() };
        assert(s@ =~= Seq::<PlayerView>::empty());
        s
    }

    /// The players, in the order in which they were first seen.
    pub fn get_players(&self) -> (ps: &Vec<Player>)
        ensures
            views(ps@) == self@,
    {
        &self.players
    }

    /// The player that holds a connection id.
    pub fn get_player(&self, userid: u32) -> (r: Option<&Player>)
        requires
            self.wf(),
        ensures
            r is Some <==> has_user(self@, userid),
            r matches Some(p) ==> p@ == self@[user_index(self@, userid)],
    {
        match find_user(&self.players, userid) {
            Some(i) => Some(&self.players[i]),
            None => None,
        }
    }

    /// Puts a player into the registry, in the place of the one that holds
    /// its connection id or, where nobody does, at the end.
    pub fn store(&mut self, p: Player)
        requires
            old(self).wf(),
        ensures
            final(self).wf(),
            final(self)@ == stored(old(self)@, p@),
    {
        match find_user(&self.players, p.userid) {
            Some(i) => {
                self.players.set(i, p);
                assert(self@ =~= stored(old(self)@, p@));
            },
            None => {
                self.players.push(p);
                assert(self@ =~= stored(old(self)@, p@));
            },
        }
    }

    /// Records that a player was seen. A player with this connection id and
    /// account is updated: an absent team or time and an empty name leave
    /// the old one, and a changed name is kept among the earlier names.
    /// Otherwise a player is created, in the place of the account that held
    /// the connection id before or at the end.
    pub fn update_or_insert(
        &mut self,
        userid: u32,
        steamid32: &str,
        name: &str,
        team: Option<Team>,
        time: Option<u32>,
    ) -> (outcome: Sighted)
        requires
            old(self).wf(),
        ensures
            final(self).wf(),
            final(self)@ == sighted(old(self)@, userid, steamid32@, name@, team, time),
            outcome == sighting_outcome(old(self)@, userid, steamid32@, name@),
    {
        let found = find_user(&self.players, userid);
        match found {
            Some(i) => {
                if str_eq(self.players[i].steamid32.as_str(), steamid32) {
                    let differs = !name.is_empty() && !str_eq(
                        self.players[i].name.as_str(),
                        name,
                    );
                    let renamed = differs && !self.players[i].name.as_str().is_empty();
                    let taken = renamed && other_has_name(&self.players, userid, name);
                    let ghost before = self.players@[i as int]@;
                    let p = &mut self.players[i];
                    if differs {
                        let mut other = name.to_owned();
                        std::mem::swap(&mut p.name, &mut other);
                        if renamed {
                            let ghost earlier = p.previous_names@;
                            p.previous_names.push(other);
                            assert(texts(p.previous_names@) =~= texts(earlier).push(before.name));
                            if taken {
                                p.stolen_name = true;
                            }
                        }
                    }
                    if let Some(t) = team {
                        p.team = t;
                    }
                    if let Some(t) = time {
                        p.time = t;
                    }
                    p.accounted = true;
                    assert(self@ =~= sighted(old(self)@, userid, steamid32@, name@, team, time));
                    if renamed {
                        Sighted::Renamed { stolen: taken }
                    } else if differs {
                        Sighted::Joined
                    } else {
                        Sighted::Seen
                    }
                } else {
                    let p = make_player(userid, steamid32, name, team, time);
                    self.players.set(i, p);
                    assert(self@ =~= sighted(old(self)@, userid, steamid32@, name@, team, time));
                    Sighted::Joined
                }
            },
            None => {
                let p = make_player(userid, steamid32, name, team, time);
                self.players.push(p);
                assert(self@ =~= sighted(old(self)@, userid, steamid32@, name@, team, time));
                Sighted::Joined
            },
        }
    }

    /// Starts a cycle: marks every player as not seen. The players that are
    /// seen again before the cycle ends are kept; `sweep` removes the others.
    pub fn prune(&mut self)
        requires
            old(self).wf(),
        ensures
            final(self).wf(),
            final(self)@ == pruned(old(self)@),
    {
        let n = self.players.len();
        let mut i: usize = 0;
        while i < n
            invariant
                i <= n,
                n == self.players.len(),
                self@.len() == old(self)@.len(),
                forall|j: int| 0 <= j < i ==> self@[j] == #[trigger] pruned(old(self)@)[j],
                forall|j: int| i <= j < n ==> self@[j] == #[trigger] old(self)@[j],
            decreases n - i,
        {
            self.players[i].accounted = false;
            i += 1;
        }
        assert(self@ =~= pruned(old(self)@));
    }

    /// Ends a cycle: removes the players that were not seen since the
    /// registry was pruned, and leaves the others as they are.
    pub fn sweep(&mut self)
        requires
            old(self).wf(),
        ensures
            final(self).wf(),
            final(self)@ == swept(old(self)@),
    {
        let mut kept: Vec<Player> = Vec::new();
        let mut rest: Vec<Player> = Vec::new();
        std::mem::swap(&mut self.players, &mut rest);
        let ghost all = views(rest@);
        let n = rest.len();
        let mut i: usize = 0;
        proof {
            assert(all.take(0) =~= Seq::<PlayerView>::empty());
        }
        while i < n
            invariant
                i <= n,
                n == rest.len(),
                views(rest@) == all,
                views(kept@) == swept(all.take(i as int)),
            decreases n - i,
        {
            proof {
                assert(all.take(i + 1).drop_last() =~= all.take(i as int));
                assert(all.take(i + 1).last() == all[i as int]);
            }
            if rest[i].accounted {
                let p = rest[i].clone();
                kept.push(p);
                assert(views(kept@) =~= swept(all.take(i as int)).push(all[i as int]));
            }
            i += 1;
        }
        proof {
            assert(all.take(n as int) =~= all);
            lemma_swept_distinct(all);
        }
        self.players = kept;
    }

    /// The commands that call a vote to kick each bot and each cheater, as
    /// far as the settings ask for it.
    pub fn kick_commands(&self, settings: &Settings) -> (r: Vec<String>)
        ensures
            texts(r@) == kick_votes(self@, settings@),
    {
        let mut r: Vec<String> = Vec::new();
        let n = self.players.len();
        let mut i: usize = 0;
        proof {
            assert(self@.take(0) =~= Seq::<PlayerView>::empty());
            assert(texts(r@) =~= Seq::<Seq<char>>::empty());
        }
        while i < n
            invariant
                i <= n,
                n == self.players.len(),
                texts(r@) == kick_votes(self@.take(i as int), settings@),
            decreases n - i,
        {
            proof {
                assert(self@.take(i + 1).drop_last() =~= self@.take(i as int));
                assert(self@.take(i + 1).last() == self.players@[i as int]@);
            }
            let p = &self.players[i];
            if (p.player_type == PlayerType::Bot && settings.kick_bots) || (p.player_type
                == PlayerType::Cheater && settings.kick_cheaters) {
                let ghost before = texts(r@);
                let c = kick_text(p.userid, KickReason::Cheating);
                r.push(c);
                assert(texts(r@) =~= before.push(c@));
            }
            i += 1;
        }
        proof {
            assert(self@.take(n as int) =~= self@);
        }
        r
    }

    /// The chat announcement of the flagged players that were not announced
    /// before, as far as the settings ask for it; these players are marked
    /// as announced. Without such a player nothing changes.
    pub fn announce(&mut self, settings: &Settings) -> (r: Option<String>)
        requires
            old(self).wf(),
        ensures
            final(self).wf(),
            final(self)@ == alerted(old(self)@, settings@),
            match r {
                Some(text) => alert_count(old(self)@, settings@) > 0 && text@ == alert_text(
                    old(self)@,
                    settings@,
                ),
                None => alert_count(old(self)@, settings@) == 0,
            },
    {
        let mut text = "Alert!".to_owned();
        let mut count: usize = 0;
        let n = self.players.len();
        let mut i: usize = 0;
        proof {
            assert(old(self)@.take(0) =~= Seq::<PlayerView>::empty());
        }
        while i < n
            invariant
                i <= n,
                n == self.players.len(),
                self@.len() == old(self)@.len(),
                count == alert_count(old(self)@.take(i as int), settings@),
                count <= i,
                text@ == alert_text(old(self)@.take(i as int), settings@),
                forall|j: int| 0 <= j < i ==> self@[j] == #[trigger] alerted(old(self)@, settings@)[j],
                forall|j: int| i <= j < n ==> self@[j] == #[trigger] old(self)@[j],
            decreases n - i,
        {
            proof {
                assert(old(self)@.take(i + 1).drop_last() =~= old(self)@.take(i as int));
                assert(old(self)@.take(i + 1).last() == old(self)@[i as int]);
                assert(self@[i as int] == self.players@[i as int]@);
            }
            let p = &mut self.players[i];
            let flagged = (p.player_type == PlayerType::Bot && settings.announce_bots && !(
            settings.dont_announce_common_names && p.common_name)) || (p.player_type
                == PlayerType::Cheater && settings.announce_cheaters);
            if !p.announced && flagged {
                if count == 0 {
                    text.append(" ");
                } else {
                    text.append(", ");
                }
                if p.player_type == PlayerType::Cheater {
                    text.append("Cheater ");
                } else {
                    text.append("Bot ");
                }
                text.append(p.name.as_str());
                p.announced = true;
                count += 1;
                proof {
                    let e = alert_entry(old(self)@[i as int]);
                    let prev = alert_text(old(self)@.take(i as int), settings@);
                    assert(prev + " "@ + e =~= prev + " "@ + (if old(self)@[i as int].player_type
                        == PlayerType::Cheater {
                        "Cheater "@
                    } else {
                        "Bot "@
                    }) + old(self)@[i as int].name);
                    assert(prev + ", "@ + e =~= prev + ", "@ + (if old(self)@[i as int].player_type
                        == PlayerType::Cheater {
                        "Cheater "@
                    } else {
                        "Bot "@
                    }) + old(self)@[i as int].name);
                }
            }
            i += 1;
        }
        proof {
            assert(old(self)@.take(n as int) =~= old(self)@);
            assert(self@ =~= alerted(old(self)@, settings@));
        }
        if count > 0 {
            Some(text)
        } else {
            None
        }
    }

    /// Gives every player of the record's account the record's label and
    /// notes, and leaves everything else as it is.
    pub fn update_player_from_record(&mut self, record: PlayerRecord)
        requires
            old(self).wf(),
        ensures
            final(self).wf(),
            final(self)@ == record_applied(old(self)@, record@),
    {
        let n = self.players.len();
        let mut i: usize = 0;
        while i < n
            invariant
                i <= n,
                n == self.players.len(),
                self@.len() == old(self)@.len(),
                forall|j: int|
                    0 <= j < i ==> self@[j] == #[trigger] record_applied(old(self)@, record@)[j],
                forall|j: int| i <= j < n ==> self@[j] == #[trigger] old(self)@[j],
            decreases n - i,
        {
            if str_eq(self.players[i].steamid32.as_str(), record.steamid.as_str()) {
                self.players[i].update_from_record(&record);
            }
            i += 1;
        }
        assert(self@ =~= record_applied(old(self)@, record@));
    }
}

/// A player created by a sighting.
fn make_player(userid: u32, steamid32: &str, name: &str, team: Option<Team>, time: Option<u32>) -> (p:
    Player)
    ensures
        p@ == first_seen(userid, steamid32@, name@, team, time),
{
    let mut p = Player::new(userid, steamid32, name);
    if let Some(t) = team {
        p.team = t;
    }
    if let Some(t) = time {
        p.time = t;
    }
    p
}

/// The player that holds a connection id, if there is one.
pub open spec fn player_of(ps: Seq<PlayerView>, userid: u32) -> Option<PlayerView> {
    if has_user(ps, userid) {
        Some(ps[user_index(ps, userid)])
    } else {
        None
    }
}

/// The holder of a connection id was seen since the last pruning.
pub open spec fn confirmed(ps: Seq<PlayerView>, userid: u32) -> bool {
    match player_of(ps, userid) {
        Some(p) => p.accounted,
        None => false,
    }
}

/// In a registry with one player for a connection id, the player at a
/// position is the one that its connection id leads to.
pub proof fn lemma_player_at(ps: Seq<PlayerView>, i: int)
    requires
        distinct_ids(ps),
        0 <= i < ps.len(),
    ensures
        has_user(ps, ps[i].userid),
        user_index(ps, ps[i].userid) == i,
        player_of(ps, ps[i].userid) == Some(ps[i]),
{
}

/// What storing a player does to a lookup: the registry keeps one player
/// for a connection id, the stored player is found under its connection id,
/// and every other connection id leads to what it led to.
pub proof fn lemma_stored(ps: Seq<PlayerView>, p: PlayerView, userid: u32)
    requires
        distinct_ids(ps),
    ensures
        distinct_ids(stored(ps, p)),
        player_of(stored(ps, p), userid) == if userid == p.userid {
            Some(p)
        } else {
            player_of(ps, userid)
        },
{
    let m = stored(ps, p);
    if has_user(ps, p.userid) {
        let i = user_index(ps, p.userid);
        assert(forall|k: int| 0 <= k < ps.len() ==> m[k].userid == ps[k].userid);
        if userid == p.userid {
            assert(m[i].userid == userid);
        } else if has_user(ps, userid) {
            let j = user_index(ps, userid);
            assert(m[j].userid == userid);
        } else if has_user(m, userid) {
            let j = user_index(m, userid);
            assert(ps[j].userid == userid);
        }
    } else {
        let n = ps.len() as int;
        assert(m[n] == p);
        assert(forall|k: int| 0 <= k < n ==> m[k] == ps[k]);
        if userid == p.userid {
            assert(m[n].userid == userid);
        } else if has_user(ps, userid) {
            let j = user_index(ps, userid);
            assert(m[j].userid == userid);
        } else if has_user(m, userid) {
            let j = user_index(m, userid);
            assert(ps[j].userid == userid);
        }
    }
}

/// Storing the player that a connection id already leads to changes nothing.
pub proof fn lemma_stored_same(ps: Seq<PlayerView>, p: PlayerView)
    requires
        player_of(ps, p.userid) == Some(p),
    ensures
        stored(ps, p) == ps,
{
    assert(stored(ps, p) =~= ps);
}

/// The player that a sighting leaves under its connection id.
pub open spec fn sighted_player(
    ps: Seq<PlayerView>,
    userid: u32,
    steamid32: Seq<char>,
    name: Seq<char>,
    team: Option<Team>,
    time: Option<u32>,
) -> PlayerView {
    match player_of(ps, userid) {
        Some(p) => if p.steamid32 == steamid32 {
            merged(p, name, team, time, name_in_use(ps, userid, name))
        } else {
            first_seen(userid, steamid32, name, team, time)
        },
        None => first_seen(userid, steamid32, name, team, time),
    }
}

/// A sighting stores one player, under the connection id that was seen.
pub proof fn lemma_sighted_stores(
    ps: Seq<PlayerView>,
    userid: u32,
    steamid32: Seq<char>,
    name: Seq<char>,
    team: Option<Team>,
    time: Option<u32>,
)
    ensures
        sighted(ps, userid, steamid32, name, team, time) == stored(
            ps,
            sighted_player(ps, userid, steamid32, name, team, time),
        ),
        sighted_player(ps, userid, steamid32, name, team, time).userid == userid,
        sighted_player(ps, userid, steamid32, name, team, time).accounted,
{
}

/// Position `i` of `ps` holds the player `q`, was seen, and stands no
/// earlier than `k`.
pub open spec fn kept_from(ps: Seq<PlayerView>, q: PlayerView, k: int, i: int) -> bool {
    k <= i < ps.len() && ps[i].accounted && ps[i] == q
}

/// The player at position `k` after the sweep is one of the players seen
/// before, and stood no earlier than `k`.
pub open spec fn has_origin(ps: Seq<PlayerView>, k: int) -> bool {
    exists|i: int| #[trigger] kept_from(ps, swept(ps)[k], k, i)
}

/// The sweep keeps exactly the players that were seen: a connection id
/// leads to a player afterwards if and only if its holder was seen, and
/// then to that player.
pub proof fn lemma_swept_lookup(ps: Seq<PlayerView>, userid: u32)
    requires
        distinct_ids(ps),
    ensures
        player_of(swept(ps), userid) == if confirmed(ps, userid) {
            player_of(ps, userid)
        } else {
            None
        },
{
    lemma_swept_origin(ps);
    lemma_swept_distinct(ps);
    let q = swept(ps);
    if has_user(q, userid) {
        let k = user_index(q, userid);
        assert(has_origin(ps, k));
        let i = choose|i: int| kept_from(ps, q[k], k, i);
        lemma_player_at(ps, i);
    }
    if confirmed(ps, userid) {
        let i = user_index(ps, userid);
        lemma_swept_keeps(ps, i);
        let k = choose|k: int| 0 <= k < q.len() && q[k] == ps[i];
        lemma_player_at(q, k);
    }
}

/// A player that was seen is still there after the sweep.
proof fn lemma_swept_keeps(ps: Seq<PlayerView>, i: int)
    requires
        0 <= i < ps.len(),
        ps[i].accounted,
    ensures
        exists|k: int| 0 <= k < swept(ps).len() && #[trigger] swept(ps)[k] == ps[i],
    decreases ps.len(),
{
    let front = ps.drop_last();
    if i == ps.len() - 1 {
        let k = swept(front).len() as int;
        assert(swept(ps)[k] == ps[i]);
    } else {
        lemma_swept_keeps(front, i);
        let k = choose|k: int| 0 <= k < swept(front).len() && swept(front)[k] == front[i];
        assert(swept(ps)[k] == ps[i]);
    }
}

/// The sweep keeps players in their order: each player left is one of the
/// players seen before, and stands no later than it did.
pub proof fn lemma_swept_origin(ps: Seq<PlayerView>)
    ensures
        swept(ps).len() <= ps.len(),
        forall|k: int| 0 <= k < swept(ps).len() ==> #[trigger] has_origin(ps, k),
    decreases ps.len(),
{
    if ps.len() > 0 {
        let front = ps.drop_last();
        lemma_swept_origin(front);
        assert forall|k: int| 0 <= k < swept(ps).len() implies #[trigger] has_origin(ps, k) by {
            if k < swept(front).len() {
                assert(has_origin(front, k));
                let i = choose|i: int| kept_from(front, swept(front)[k], k, i);
                assert(ps[i] == front[i]);
                assert(kept_from(ps, swept(ps)[k], k, i));
            } else {
                let i = ps.len() - 1;
                assert(kept_from(ps, swept(ps)[k], k, i));
            }
        }
    }
}

/// Two different positions after the sweep hold different connection ids.
proof fn lemma_swept_apart(ps: Seq<PlayerView>, a: int, b: int)
    requires
        0 <= a < swept(ps).len(),
        0 <= b < swept(ps).len(),
        a != b,
        distinct_ids(ps),
    ensures
        swept(ps)[a].userid != swept(ps)[b].userid,
    decreases ps.len(),
{
    let front = ps.drop_last();
    lemma_swept_origin(front);
    assert(distinct_ids(front));
    let last = ps.len() - 1;
    if a < swept(front).len() && b < swept(front).len() {
        lemma_swept_apart(front, a, b);
    } else if a < swept(front).len() {
        assert(has_origin(front, a));
        let i = choose|i: int| kept_from(front, swept(front)[a], a, i);
        assert(ps[i].userid != ps[last].userid);
    } else {
        assert(has_origin(front, b));
        let i = choose|i: int| kept_from(front, swept(front)[b], b, i);
        assert(ps[i].userid != ps[last].userid);
    }
}

/// The sweep keeps the connection ids distinct.
pub proof fn lemma_swept_distinct(ps: Seq<PlayerView>)
    requires
        distinct_ids(ps),
    ensures
        distinct_ids(swept(ps)),
{
    assert forall|a: int, b: int|
        0 <= a < swept(ps).len() && 0 <= b < swept(ps).len() && a != b implies swept(
        ps,
    )[a].userid != swept(ps)[b].userid by {
        lemma_swept_apart(ps, a, b);
    }
}

/// Pruning keeps every player and its connection id, and leaves nobody
/// counted as seen.
pub proof fn lemma_pruned_lookup(ps: Seq<PlayerView>, userid: u32)
    requires
        distinct_ids(ps),
    ensures
        distinct_ids(pruned(ps)),
        player_of(pruned(ps), userid) == match player_of(ps, userid) {
            Some(p) => Some(unconfirmed(p)),
            None => None,
        },
        !confirmed(pruned(ps), userid),
{
    let q = pruned(ps);
    assert(forall|k: int| 0 <= k < ps.len() ==> q[k].userid == ps[k].userid);
    if has_user(ps, userid) {
        let i = user_index(ps, userid);
        assert(q[i].userid == userid);
        lemma_player_at(q, i);
    } else if has_user(q, userid) {
        let j = user_index(q, userid);
        assert(ps[j].userid == userid);
    }
}

} // verus!
