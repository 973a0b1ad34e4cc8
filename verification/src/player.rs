//! The players of a session and the records kept about accounts.

use crate::text::{decimal_value, parse_decimal, read_steamid, steamid_end, to_chars};
use vstd::prelude::*;

verus! {

/// The side a player is on in the lobby.
#[derive(Clone, Copy, Debug, PartialEq, Eq, Structural)]
pub enum Team {
    Invaders,
    Defenders,
    Unassigned,
}

/// The label given to an account.
#[derive(Clone, Copy, Debug, PartialEq, Eq, Structural)]
pub enum PlayerType {
    Player,
    Bot,
    Cheater,
    Suspicious,
}

/// What is saved about an account across sessions.
#[derive(Debug)]
pub struct PlayerRecord {
    pub steamid: String,
    pub player_type: PlayerType,
    pub notes: String,
}

/// The mathematical value of a [`PlayerRecord`].
pub ghost struct PlayerRecordView {
    pub steamid: Seq<char>,
    pub player_type: PlayerType,
    pub notes: Seq<char>,
}

impl View for PlayerRecord {
    type V = PlayerRecordView;

    open spec fn view(&self) -> PlayerRecordView {
        PlayerRecordView { steamid: self.steamid@, player_type: self.player_type, notes: self.notes@ }
    }
}

impl Clone for PlayerRecord {
    fn clone(&self) -> (r: Self)
        ensures
            r@ == self@,
    {
        PlayerRecord {
            steamid: self.steamid.clone(),
            player_type: self.player_type,
            notes: self.notes.clone(),
        }
    }
}

/// A player connected to the server.
#[derive(Debug)]
pub struct Player {
    /// The connection id, valid for the current session only.
    pub userid: u32,
    /// The account's identifier, stable across sessions.
    pub steamid32: String,
    pub name: String,
    /// The names this account went by earlier in the session, oldest first.
    pub previous_names: Vec<String>,
    pub team: Team,
    /// Seconds connected.
    pub time: u32,
    /// Whether the player was seen since the registry was last pruned.
    pub accounted: bool,
    pub player_type: PlayerType,
    pub notes: String,
    /// The account took a name that another connected player was using.
    pub stolen_name: bool,
    /// The name matches a saved name pattern.
    pub common_name: bool,
    /// The player was already named in a chat announcement.
    pub announced: bool,
}

/// The mathematical value of a [`Player`].
pub ghost struct PlayerView {
    pub userid: u32,
    pub steamid32: Seq<char>,
    pub name: Seq<char>,
    pub previous_names: Seq<Seq<char>>,
    pub team: Team,
    pub time: u32,
    pub accounted: bool,
    pub player_type: PlayerType,
    pub notes: Seq<char>,
    pub stolen_name: bool,
    pub common_name: bool,
    pub announced: bool,
}

/// The character sequences of a list of strings.
pub open spec fn texts(v: Seq<String>) -> Seq<Seq<char>> {
    Seq::new(v.len(), |i: int| v[i]@)
}

impl View for Player {
    type V = PlayerView;

    open spec fn view(&self) -> PlayerView {
        PlayerView {
            userid: self.userid,
            steamid32: self.steamid32@,
            name: self.name@,
            previous_names: texts(self.previous_names@),
            team: self.team,
            time: self.time,
            accounted: self.accounted,
            player_type: self.player_type,
            notes: self.notes@,
            stolen_name: self.stolen_name,
            common_name: self.common_name,
            announced: self.announced,
        }
    }
}

/// A copy of a list of strings.
pub fn clone_texts(v: &Vec<String>) -> (r: Vec<String>)
    ensures
        texts(r@) == texts(v@),
{
    let mut r: Vec<String> = Vec::new();
    let mut i: usize = 0;
    while i < v.len()
        invariant
            i <= v.len(),
            r.len() == i,
            forall|j: int| 0 <= j < i ==> r@[j]@ == v@[j]@,
        decreases v.len() - i,
    {
        r.push(v[i].clone());
        i += 1;
    }
    assert(texts(r@) =~= texts(v@));
    r
}

impl Clone for Player {
    fn clone(&self) -> (r: Self)
        ensures
            r@ == self@,
    {
        Player {
            userid: self.userid,
            steamid32: self.steamid32.clone(),
            name: self.name.clone(),
            previous_names: clone_texts(&self.previous_names),
            team: self.team,
            time: self.time,
            accounted: self.accounted,
            player_type: self.player_type,
            notes: self.notes.clone(),
            stolen_name: self.stolen_name,
            common_name: self.common_name,
            announced: self.announced,
        }
    }
}

impl PlayerView {
    /// The record that saves this player's label and notes.
    pub open spec fn record(self) -> PlayerRecordView {
        PlayerRecordView { steamid: self.steamid32, player_type: self.player_type, notes: self.notes }
    }

    /// This player with the label and notes of a record.
    pub open spec fn with_record(self, record: PlayerRecordView) -> PlayerView {
        PlayerView { player_type: record.player_type, notes: record.notes, ..self }
    }
}

impl Player {
    /// A player seen for the first time: no team, no time, the label `Player`.
    pub fn new(userid: u32, steamid32: &str, name: &str) -> (p: Player)
        ensures
            p@ == fresh_player(userid, steamid32@, name@),
    {
        let p = Player {
            userid,
            steamid32: steamid32.to_owned(),
            name: name.to_owned(),
            previous_names: Vec::new(),
            team: Team::Unassigned,
            time: 0,
            accounted: true,
            player_type: PlayerType::Player,
            notes: String::new(),
            stolen_name: false,
            common_name: false,
            announced: false,
        };
        assert(texts(p.previous_names@) =~= Seq::<Seq<char>>::empty());
        p
    }

    /// The record that saves this player's label and notes.
    pub fn get_record(&self) -> (r: PlayerRecord)
        ensures
            r@ == self@.record(),
    {
        PlayerRecord {
            steamid: self.steamid32.clone(),
            player_type: self.player_type,
            notes: self.notes.clone(),
        }
    }

    /// Takes the label and notes of a record; nothing else changes.
    pub fn update_from_record(&mut self, record: &PlayerRecord)
        ensures
            final(self)@ == old(self)@.with_record(record@),
    {
        self.player_type = record.player_type;
        self.notes = record.notes.clone();
    }
}

/// The 64-bit identifier of the account with the number zero.
pub const STEAMID64_BASE: u64 = 76561197960265728;

/// The 64-bit form of an account identifier: the base plus the account's
/// number, which is what follows the second colon. `None` for a text that
/// is no account identifier, or whose number does not fit 32 bits.
pub open spec fn steamid64_of(steamid32: Seq<char>) -> Option<u64> {
    if steamid_end(steamid32, 0) == Some(steamid32.len() as int) && decimal_value(
        steamid32.subrange(4, steamid32.len() as int),
    ) <= u32::MAX {
        Some((STEAMID64_BASE + decimal_value(steamid32.subrange(4, steamid32.len() as int))) as u64)
    } else {
        None
    }
}

/// The 64-bit form of an account identifier.
pub fn steamid32_to_64(steamid32: &str) -> (r: Option<u64>)
    ensures
        r == steamid64_of(steamid32@),
{
    let v = to_chars(steamid32);
    match read_steamid(&v, 0) {
        Some(e) => {
            if e != v.len() {
                return None;
            }
            match parse_decimal(&v, 4, e) {
                Some(n) => {
                    let n64: u64 = n.into();
                    Some(STEAMID64_BASE + n64)
                },
                None => None,
            }
        },
        None => None,
    }
}

/// The value of a player seen for the first time.
pub open spec fn fresh_player(userid: u32, steamid32: Seq<char>, name: Seq<char>) -> PlayerView {
    PlayerView {
        userid,
        steamid32,
        name,
        previous_names: Seq::empty(),
        team: Team::Unassigned,
        time: 0,
        accounted: true,
        player_type: PlayerType::Player,
        notes: Seq::empty(),
        stolen_name: false,
        common_name: false,
        announced: false,
    }
}

} // verus!
