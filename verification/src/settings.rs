//! What the user has chosen.

use vstd::prelude::*;

verus! {

/// The shortest period that can be set, in milliseconds.
pub const MIN_PERIOD: u32 = 500;

/// The longest period that can be set, in milliseconds.
pub const MAX_PERIOD: u32 = 60_000;

/// The user's choices. Periods are in milliseconds.
#[derive(Debug)]
pub struct Settings {
    /// The user's own account identifier.
    pub user: String,
    pub rcon_password: String,
    pub tf2_directory: String,
    pub steamapi_key: String,
    pub refresh_period: u32,
    pub kick_period: u32,
    pub alert_period: u32,
    /// No vote is called and no chat message is sent while this is set.
    pub paused: bool,
    pub kick_bots: bool,
    pub kick_cheaters: bool,
    pub announce_bots: bool,
    pub announce_cheaters: bool,
    pub announce_namesteal: bool,
    pub dont_announce_common_names: bool,
    pub mark_name_stealers: bool,
}

/// The mathematical value of the [`Settings`].
pub ghost struct SettingsView {
    pub user: Seq<char>,
    pub rcon_password: Seq<char>,
    pub tf2_directory: Seq<char>,
    pub steamapi_key: Seq<char>,
    pub refresh_period: u32,
    pub kick_period: u32,
    pub alert_period: u32,
    pub paused: bool,
    pub kick_bots: bool,
    pub kick_cheaters: bool,
    pub announce_bots: bool,
    pub announce_cheaters: bool,
    pub announce_namesteal: bool,
    pub dont_announce_common_names: bool,
    pub mark_name_stealers: bool,
}

impl View for Settings {
    type V = SettingsView;

    open spec fn view(&self) -> SettingsView {
        SettingsView {
            user: self.user@,
            rcon_password: self.rcon_password@,
            tf2_directory: self.tf2_directory@,
            steamapi_key: self.steamapi_key@,
            refresh_period: self.refresh_period,
            kick_period: self.kick_period,
            alert_period: self.alert_period,
            paused: self.paused,
            kick_bots: self.kick_bots,
            kick_cheaters: self.kick_cheaters,
            announce_bots: self.announce_bots,
            announce_cheaters: self.announce_cheaters,
            announce_namesteal: self.announce_namesteal,
            dont_announce_common_names: self.dont_announce_common_names,
            mark_name_stealers: self.mark_name_stealers,
        }
    }
}

/// A period brought into the range that can be set.
pub open spec fn clamped(period: u32) -> u32 {
    if period < MIN_PERIOD {
        MIN_PERIOD
    } else if period > MAX_PERIOD {
        MAX_PERIOD
    } else {
        period
    }
}

/// Brings a period into the range that can be set.
pub fn clamp_period(period: u32) -> (r: u32)
    ensures
        r == clamped(period),
{
    if period < MIN_PERIOD {
        MIN_PERIOD
    } else if period > MAX_PERIOD {
        MAX_PERIOD
    } else {
        period
    }
}

impl Settings {
    /// The choices of a new installation: bots are kicked and name stealers
    /// marked, nothing is announced but stolen names. The user's account is
    /// not known yet, and the password is the one that the instructions give.
    pub fn new() -> (s: Settings)
        ensures
            s.user@ == "U:1:XXXXXXX"@,
            s.rcon_password@ == "tf2bk"@,
            s.refresh_period == 10_000,
            s.kick_period == 10_000,
            s.alert_period == 20_000,
            !s.paused,
            s.kick_bots,
            !s.kick_cheaters,
            !s.announce_bots,
            !s.announce_cheaters,
            s.announce_namesteal,
            s.dont_announce_common_names,
            s.mark_name_stealers,
            s.tf2_directory@.len() == 0,
            s.steamapi_key@.len() == 0,
    {
        Settings {
            user: "U:1:XXXXXXX".to_owned(),
            rcon_password: "tf2bk".to_owned(),
            tf2_directory: String::new(),
            steamapi_key: String::new(),
            refresh_period: 10_000,
            kick_period: 10_000,
            alert_period: 20_000,
            paused: false,
            kick_bots: true,
            kick_cheaters: false,
            announce_bots: false,
            announce_cheaters: false,
            announce_namesteal: true,
            dont_announce_common_names: true,
            mark_name_stealers: true,
        }
    }
}

} // verus!
