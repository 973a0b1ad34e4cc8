//! The console lines that carry player data: the patterns that find them,
//! and what their captures say.
//!
//! A status line reads
//! `#      3 "Alice"             [U:1:111]     02:05       60    0 active`:
//! connection id, quoted name, account, connected time, ping, loss, state.
//! A lobby line reads
//! `  Member[3] [U:1:111]  team = TF_GC_TEAM_DEFENDERS  type = MATCH_PLAYER`.

use crate::player::Team;
use crate::text::{
    all_digits, decimal_value, digits_end, holds, parse_decimal, skip_digits, str_eq, to_chars,
};
use crate::trusted::{captures, plainly_compiled, regex_captures, regex_source};
use regex::Regex;
use vstd::prelude::*;

verus! {

/// The pattern of a status line. Its groups are the connection id, the
/// name, the account, the connected time and the state.
pub const REGEX_STATUS: &'static str =
    r#"^#\s*(\d+)\s"(.*)"\s+\[(U:\d:\d+)\]\s+(\d*:?\d\d:\d\d)\s+\d+\s*\d+\s*(\w+).*$"#;

/// The pattern of a lobby line. Its groups are the connection id, the
/// account and the team word.
pub const REGEX_LOBBY: &'static str =
    r#"^  (?:Member|Pending)\[(\d+)] \[(U:\d:\d+)]  team = TF_GC_TEAM_(\w+)  type = MATCH_PLAYER\s*$"#;

/// The kind of line that a pattern finds, which says how its captures are read.
#[derive(Clone, Copy, Debug, PartialEq, Eq, Structural)]
pub enum LineKind {
    Status,
    Lobby,
}

/// A compiled pattern and the way to read its captures.
pub struct LogMatcher {
    pub r: Regex,
    pub kind: LineKind,
}

/// The mathematical value of a [`LogMatcher`]: the pattern's text and the kind.
pub ghost struct MatcherView {
    pub pattern: Seq<char>,
    pub kind: LineKind,
}

impl View for LogMatcher {
    type V = MatcherView;

    open spec fn view(&self) -> MatcherView {
        MatcherView { pattern: regex_source(self.r), kind: self.kind }
    }
}

/// What a console line says.
#[derive(Debug)]
pub enum LineEvent {
    /// A status line: a player with connection id, account, name and seconds connected.
    Status { userid: u32, steamid32: String, name: String, time: u32 },
    /// A lobby line: the account and the team of a connection id.
    Lobby { userid: u32, steamid32: String, team: Team },
    /// A line that a pattern found, with captures that cannot be read: a
    /// group is missing, or a number is none or too large.
    Malformed,
}

/// The mathematical value of a [`LineEvent`].
pub ghost enum LineEventView {
    Status { userid: u32, steamid32: Seq<char>, name: Seq<char>, time: u32 },
    Lobby { userid: u32, steamid32: Seq<char>, team: Team },
    Malformed,
}

impl View for LineEvent {
    type V = LineEventView;

    open spec fn view(&self) -> LineEventView {
        match self {
            LineEvent::Status { userid, steamid32, name, time } => LineEventView::Status {
                userid: *userid,
                steamid32: steamid32@,
                name: name@,
                time: *time,
            },
            LineEvent::Lobby { userid, steamid32, team } => LineEventView::Lobby {
                userid: *userid,
                steamid32: steamid32@,
                team: *team,
            },
            LineEvent::Malformed => LineEventView::Malformed,
        }
    }
}

/// The texts of captured groups; a group that took no part in the match has none.
pub open spec fn group_texts(groups: Seq<Option<String>>) -> Seq<Option<Seq<char>>> {
    Seq::new(
        groups.len(),
        |i: int|
            match groups[i] {
                Some(s) => Some(s@),
                None => None,
            },
    )
}

/// The text of group `i`, if there is such a group and it took part in the match.
pub open spec fn group(groups: Seq<Option<Seq<char>>>, i: int) -> Option<Seq<char>> {
    if 0 <= i < groups.len() {
        groups[i]
    } else {
        None
    }
}

/// The number that a text writes in ASCII decimal digits, if it is one or
/// more of them.
pub open spec fn number_of(s: Seq<char>) -> Option<nat> {
    if s.len() > 0 && all_digits(s) {
        Some(decimal_value(s))
    } else {
        None
    }
}

/// The seconds of a connected time, read from `at` on with `acc` as the
/// value of the parts before: each part is one or more digits and counts
/// sixty times the part after it; a colon stands between two parts.
pub open spec fn clock_from(s: Seq<char>, at: int, acc: nat) -> Option<nat>
    decreases s.len() - at,
{
    let e = digits_end(s, at);
    if 0 <= at < e <= s.len() {
        let value = acc * 60 + decimal_value(s.subrange(at, e));
        if e == s.len() {
            Some(value)
        } else if s[e] == ':' {
            clock_from(s, e + 1, value)
        } else {
            None
        }
    } else {
        None
    }
}

/// The seconds of a connected time such as `02:05` or `1:02:05`.
pub open spec fn clock_seconds(s: Seq<char>) -> Option<nat> {
    clock_from(s, 0, 0)
}

/// The team that a lobby line's team word stands for.
pub open spec fn team_of(word: Seq<char>) -> Team {
    if word == "INVADERS"@ {
        Team::Invaders
    } else if word == "DEFENDERS"@ {
        Team::Defenders
    } else {
        Team::Unassigned
    }
}

/// What the captures of a status line say: group 1 is the connection id,
/// group 2 the name, group 3 the account, group 4 the connected time. The
/// line is malformed where one of them is missing, or the connection id or
/// the time is no number that fits 32 bits.
pub open spec fn status_event(groups: Seq<Option<Seq<char>>>) -> LineEventView {
    match (group(groups, 1), group(groups, 2), group(groups, 3), group(groups, 4)) {
        (Some(id), Some(name), Some(steamid32), Some(time)) => match (
            number_of(id),
            clock_seconds(time),
        ) {
            (Some(userid), Some(seconds)) => if userid <= u32::MAX && seconds <= u32::MAX {
                LineEventView::Status {
                    userid: userid as u32,
                    steamid32,
                    name,
                    time: seconds as u32,
                }
            } else {
                LineEventView::Malformed
            },
            _ => LineEventView::Malformed,
        },
        _ => LineEventView::Malformed,
    }
}

/// What the captures of a lobby line say: group 1 is the connection id,
/// group 2 the account and group 3 the team word. The line is malformed
/// where one of them is missing, or the connection id is no number that
/// fits 32 bits.
pub open spec fn lobby_event(groups: Seq<Option<Seq<char>>>) -> LineEventView {
    match (group(groups, 1), group(groups, 2), group(groups, 3)) {
        (Some(id), Some(steamid32), Some(word)) => match number_of(id) {
            Some(userid) => if userid <= u32::MAX {
                LineEventView::Lobby { userid: userid as u32, steamid32, team: team_of(word) }
            } else {
                LineEventView::Malformed
            },
            None => LineEventView::Malformed,
        },
        _ => LineEventView::Malformed,
    }
}

/// What captures say, read as the kind asks.
pub open spec fn captures_event(kind: LineKind, groups: Seq<Option<Seq<char>>>) -> LineEventView {
    match kind {
        LineKind::Status => status_event(groups),
        LineKind::Lobby => lobby_event(groups),
    }
}

/// What a line says to a matcher: nothing where the pattern does not match,
/// else what the captures say.
pub open spec fn matcher_event(m: MatcherView, line: Seq<char>) -> Option<LineEventView> {
    match regex_captures(m.pattern, line) {
        Some(groups) => Some(captures_event(m.kind, groups)),
        None => None,
    }
}

/// A connected time is at least what its leading parts count.
pub proof fn lemma_clock_grows(s: Seq<char>, at: int, acc: nat)
    ensures
        clock_from(s, at, acc) matches Some(v) ==> v >= acc,
    decreases s.len() - at,
{
    let e = digits_end(s, at);
    if 0 <= at < e <= s.len() {
        let value = acc * 60 + decimal_value(s.subrange(at, e));
        if e < s.len() && s[e] == ':' {
            lemma_clock_grows(s, e + 1, value);
        }
    }
}

/// The text of group `i`, if there is such a group and it took part in the match.
fn get_group(caps: &Vec<Option<String>>, i: usize) -> (r: Option<&String>)
    ensures
        match r {
            Some(s) => group(group_texts(caps@), i as int) == Some(s@),
            None => group(group_texts(caps@), i as int) is None,
        },
{
    if i < caps.len() {
        caps[i].as_ref()
    } else {
        None
    }
}

/// Reads a number that fits 32 bits.
fn read_number(text: &str) -> (r: Option<u32>)
    ensures
        match r {
            Some(n) => number_of(text@) == Some(n as nat),
            None => number_of(text@) is None || number_of(text@)->0 > u32::MAX,
        },
{
    let v = to_chars(text);
    if v.len() == 0 {
        return None;
    }
    assert(v@.subrange(0, v.len() as int) =~= v@);
    parse_decimal(&v, 0, v.len())
}

/// Reads a connected time whose seconds fit 32 bits.
fn read_clock(text: &str) -> (r: Option<u32>)
    ensures
        match r {
            Some(n) => clock_seconds(text@) == Some(n as nat),
            None => clock_seconds(text@) is None || clock_seconds(text@)->0 > u32::MAX,
        },
{
    let v = to_chars(text);
    let mut at: usize = 0;
    let mut acc: u32 = 0;
    while at < v.len()
        invariant
            at <= v.len(),
            v@ == text@,
            clock_seconds(text@) == clock_from(v@, at as int, acc as nat),
        decreases v.len() - at,
    {
        let e = skip_digits(&v, at);
        if e == at {
            return None;
        }
        let ghost value = acc * 60 + decimal_value(v@.subrange(at as int, e as int));
        proof {
            if e < v.len() && v@[e as int] == ':' {
                lemma_clock_grows(v@, e + 1, value as nat);
            }
        }
        let part = parse_decimal(&v, at, e);
        let sum = match (acc.checked_mul(60), part) {
            (Some(m), Some(p)) => m.checked_add(p),
            _ => None,
        };
        let n = match sum {
            Some(n) => n,
            None => {
                return None;
            },
        };
        if e == v.len() {
            return Some(n);
        }
        if !holds(&v, e, ':') {
            return None;
        }
        at = e + 1;
        acc = n;
    }
    None
}

/// The team that a team word stands for.
fn read_team(word: &str) -> (t: Team)
    ensures
        t == team_of(word@),
{
    if str_eq(word, "INVADERS") {
        Team::Invaders
    } else if str_eq(word, "DEFENDERS") {
        Team::Defenders
    } else {
        Team::Unassigned
    }
}

/// Reads the captures of a status line.
pub fn fn_status(caps: &Vec<Option<String>>) -> (ev: LineEvent)
    ensures
        ev@ == status_event(group_texts(caps@)),
{
    match (get_group(caps, 1), get_group(caps, 2), get_group(caps, 3), get_group(caps, 4)) {
        (Some(id), Some(name), Some(steamid32), Some(time)) => match (
            read_number(id.as_str()),
            read_clock(time.as_str()),
        ) {
            (Some(userid), Some(time)) => LineEvent::Status {
                userid,
                steamid32: steamid32.clone(),
                name: name.clone(),
                time,
            },
            _ => LineEvent::Malformed,
        },
        _ => LineEvent::Malformed,
    }
}

/// Reads the captures of a lobby line.
pub fn fn_lobby(caps: &Vec<Option<String>>) -> (ev: LineEvent)
    ensures
        ev@ == lobby_event(group_texts(caps@)),
{
    match (get_group(caps, 1), get_group(caps, 2), get_group(caps, 3)) {
        (Some(id), Some(steamid32), Some(word)) => match read_number(id.as_str()) {
            Some(userid) => LineEvent::Lobby {
                userid,
                steamid32: steamid32.clone(),
                team: read_team(word.as_str()),
            },
            None => LineEvent::Malformed,
        },
        _ => LineEvent::Malformed,
    }
}

impl LogMatcher {
    /// The invariant of a matcher: the pattern was compiled with the options
    /// at their defaults, so that its text says what it matches.
    pub open spec fn wf(&self) -> bool {
        plainly_compiled(self.r)
    }

    /// A matcher for lines of a kind, with a pattern that `Regex::new` compiled.
    pub fn new(r: Regex, kind: LineKind) -> (m: LogMatcher)
        requires
            plainly_compiled(r),
        ensures
            m.wf(),
            m@ == (MatcherView { pattern: regex_source(r), kind }),
    {
        LogMatcher { r, kind }
    }

    /// Tries the pattern on a line and reads the captures. Returns `None`
    /// where the pattern does not match.
    pub fn read(&self, line: &str) -> (r: Option<LineEvent>)
        requires
            self.wf(),
        ensures
            match r {
                Some(ev) => matcher_event(self@, line@) == Some(ev@),
                None => matcher_event(self@, line@) is None,
            },
    {
        match captures(&self.r, line) {
            Some(caps) => Some(
                match self.kind {
                    LineKind::Status => fn_status(&caps),
                    LineKind::Lobby => fn_lobby(&caps),
                },
            ),
            None => None,
        }
    }
}

} // verus!
