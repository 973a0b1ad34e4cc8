//! The state of the remote console session and the commands sent through it.
//!
//! The session itself is run by the caller. It asks here whether to connect
//! and what to send, and reports how each attempt ended.

use crate::text::{decimal_digits, push_decimal, str_eq};
use vstd::prelude::*;
use vstd::string::*;

verus! {

/// The command that lists the connected players.
pub const CMD_STATUS: &'static str = "status";

/// The command that lists the lobby with its teams.
pub const CMD_TF_LOBBY_DEBUG: &'static str = "tf_lobby_debug";

/// Where the session stands.
#[derive(Clone, Copy, Debug, PartialEq, Eq, Structural)]
pub enum ConnectionState {
    /// No session, and no attempt under way.
    Disconnected,
    /// An attempt to connect and authenticate is under way.
    Connecting,
    /// Connected and authenticated: commands can be sent.
    Ready,
    /// The server refused the password.
    AuthFailed,
    /// The session broke while a command was under way.
    ConnectionLost,
}

/// Why there is no usable session.
#[derive(Clone, Copy, Debug, PartialEq, Eq, Structural)]
pub enum ConnectionError {
    /// The password is wrong.
    Auth,
    /// The server cannot be reached, or the session broke.
    Connection,
}

/// How an attempt to connect and authenticate ended.
#[derive(Clone, Copy, Debug, PartialEq, Eq, Structural)]
pub enum ConnectOutcome {
    Accepted,
    WrongPassword,
    Unreachable,
}

/// How sending a command ended.
#[derive(Debug)]
pub enum CommandOutcome {
    /// The server answered.
    Response(String),
    /// The connection broke.
    TransportFailed,
    /// The server sent something that is no valid packet.
    ProtocolFailed,
}

/// The mathematical value of a [`CommandOutcome`].
pub ghost enum CommandOutcomeView {
    Response(Seq<char>),
    TransportFailed,
    ProtocolFailed,
}

impl View for CommandOutcome {
    type V = CommandOutcomeView;

    open spec fn view(&self) -> CommandOutcomeView {
        match self {
            CommandOutcome::Response(text) => CommandOutcomeView::Response(text@),
            CommandOutcome::TransportFailed => CommandOutcomeView::TransportFailed,
            CommandOutcome::ProtocolFailed => CommandOutcomeView::ProtocolFailed,
        }
    }
}

/// Why a vote to kick is called.
#[derive(Clone, Copy, Debug, PartialEq, Eq, Structural)]
pub enum KickReason {
    Other,
    Idle,
    Cheating,
    Scamming,
}

/// The mathematical value of a [`CommandManager`].
pub ghost struct SessionView {
    pub state: ConnectionState,
    /// The password that the server refused last.
    pub refused: Seq<char>,
}

/// Whether a call for a session should start an attempt to connect: not
/// with a session ready, and not with the password that was just refused.
pub open spec fn should_connect(s: SessionView, password: Seq<char>) -> bool {
    s.state != ConnectionState::Ready && !(s.state == ConnectionState::AuthFailed && s.refused
        == password)
}

/// What a session can be used for as it stands.
pub open spec fn standing(state: ConnectionState) -> Result<(), ConnectionError> {
    match state {
        ConnectionState::Ready => Ok(()),
        ConnectionState::AuthFailed => Err(ConnectionError::Auth),
        _ => Err(ConnectionError::Connection),
    }
}

/// The state after an attempt to connect.
pub open spec fn after_connect(outcome: ConnectOutcome) -> ConnectionState {
    match outcome {
        ConnectOutcome::Accepted => ConnectionState::Ready,
        ConnectOutcome::WrongPassword => ConnectionState::AuthFailed,
        ConnectOutcome::Unreachable => ConnectionState::Disconnected,
    }
}

/// The state after a command was sent, or was not sent for want of a ready
/// session: a broken connection loses the session, an invalid packet tears
/// it down.
pub open spec fn after_command(state: ConnectionState, outcome: CommandOutcomeView) -> ConnectionState {
    if state == ConnectionState::Ready {
        match outcome {
            CommandOutcomeView::Response(_) => ConnectionState::Ready,
            CommandOutcomeView::TransportFailed => ConnectionState::ConnectionLost,
            CommandOutcomeView::ProtocolFailed => ConnectionState::Disconnected,
        }
    } else {
        state
    }
}

/// The response that a command brought: that of the server, where a ready
/// session sent the command and the server answered.
pub open spec fn response_of(state: ConnectionState, outcome: CommandOutcomeView) -> Option<
    Seq<char>,
> {
    match outcome {
        CommandOutcomeView::Response(text) => if state == ConnectionState::Ready {
            Some(text)
        } else {
            None
        },
        _ => None,
    }
}

/// The word that stands for a reason in a vote.
pub open spec fn reason_text(reason: KickReason) -> Seq<char> {
    match reason {
        KickReason::Other => "other"@,
        KickReason::Idle => "idle"@,
        KickReason::Cheating => "cheating"@,
        KickReason::Scamming => "scamming"@,
    }
}

/// The command that calls a vote to kick a connection id.
pub open spec fn kick_command(userid: u32, reason: KickReason) -> Seq<char> {
    "callvote kick \""@ + decimal_digits(userid as nat) + " "@ + reason_text(reason) + "\""@
}

/// The command that says a message in the chat.
pub open spec fn chat_command(message: Seq<char>) -> Seq<char> {
    "say \""@ + message + "\""@
}

/// Tracks the remote console session.
pub struct CommandManager {
    state: ConnectionState,
    refused: String,
}

impl View for CommandManager {
    type V = SessionView;

    closed spec fn view(&self) -> SessionView {
        SessionView { state: self.state, refused: self.refused@ }
    }
}

impl CommandManager {
    /// A manager without a session.
    pub fn new() -> (m: CommandManager)
        ensures
            m@.state == ConnectionState::Disconnected,
            m@.refused == Seq::<char>::empty(),
    {
        CommandManager { state: ConnectionState::Disconnected, refused: String::new() }
    }

    /// Where the session stands.
    pub fn state(&self) -> (s: ConnectionState)
        ensures
            s == self@.state,
    {
        self.state
    }

    /// Whether commands can be sent, and if not, why.
    pub fn connected(&self) -> (r: Result<(), ConnectionError>)
        ensures
            r == standing(self@.state),
    {
        match self.state {
            ConnectionState::Ready => Ok(()),
            ConnectionState::AuthFailed => Err(ConnectionError::Auth),
            _ => Err(ConnectionError::Connection),
        }
    }

    /// Decides whether to try to connect with a password. With a session
    /// ready nothing is to do, and the password that the server just refused
    /// is not tried again. Otherwise an attempt starts.
    pub fn start_connect(&mut self, password: &str) -> (attempt: bool)
        ensures
            attempt == should_connect(old(self)@, password@),
            final(self)@.refused == old(self)@.refused,
            final(self)@.state == if attempt {
                ConnectionState::Connecting
            } else {
                old(self)@.state
            },
    {
        let attempt = match self.state {
            ConnectionState::Ready => false,
            ConnectionState::AuthFailed => !str_eq(self.refused.as_str(), password),
            _ => true,
        };
        if attempt {
            self.state = ConnectionState::Connecting;
        }
        attempt
    }

    /// Takes how an attempt to connect with a password ended. An accepted
    /// password makes the session ready; a refused one is remembered; an
    /// unreachable server leaves no session.
    pub fn finish_connect(&mut self, password: &str, outcome: ConnectOutcome) -> (r: Result<
        (),
        ConnectionError,
    >)
        ensures
            final(self)@.state == after_connect(outcome),
            final(self)@.refused == if outcome == ConnectOutcome::WrongPassword {
                password@
            } else {
                old(self)@.refused
            },
            r == standing(after_connect(outcome)),
    {
        match outcome {
            ConnectOutcome::Accepted => {
                self.state = ConnectionState::Ready;
                Ok(())
            },
            ConnectOutcome::WrongPassword => {
                self.state = ConnectionState::AuthFailed;
                self.refused = password.to_owned();
                Err(ConnectionError::Auth)
            },
            ConnectOutcome::Unreachable => {
                self.state = ConnectionState::Disconnected;
                Err(ConnectionError::Connection)
            },
        }
    }

    /// The command to send, if one can be sent: only a ready session sends.
    pub fn run_command(&self, command: &str) -> (r: Option<String>)
        ensures
            match r {
                Some(c) => self@.state == ConnectionState::Ready && c@ == command@,
                None => self@.state != ConnectionState::Ready,
            },
    {
        match self.state {
            ConnectionState::Ready => Some(command.to_owned()),
            _ => None,
        }
    }

    /// Takes how sending a command ended and hands out the response. A
    /// broken connection loses the session; an invalid packet tears it down.
    /// Without a ready session nothing was sent, and nothing changes.
    pub fn finish_command(&mut self, outcome: CommandOutcome) -> (r: Option<String>)
        ensures
            final(self)@.refused == old(self)@.refused,
            final(self)@.state == after_command(old(self)@.state, outcome@),
            match r {
                Some(text) => response_of(old(self)@.state, outcome@) == Some(text@),
                None => response_of(old(self)@.state, outcome@) is None,
            },
    {
        match self.state {
            ConnectionState::Ready => match outcome {
                CommandOutcome::Response(text) => Some(text),
                CommandOutcome::TransportFailed => {
                    self.state = ConnectionState::ConnectionLost;
                    None
                },
                CommandOutcome::ProtocolFailed => {
                    self.state = ConnectionState::Disconnected;
                    None
                },
            },
            _ => None,
        }
    }

    /// The command that calls a vote to kick a player, if one can be sent.
    /// Nothing tells whether the vote was called.
    pub fn kick_player(&self, userid: u32, reason: KickReason) -> (r: Option<String>)
        ensures
            match r {
                Some(c) => self@.state == ConnectionState::Ready && c@ == kick_command(
                    userid,
                    reason,
                ),
                None => self@.state != ConnectionState::Ready,
            },
    {
        match self.state {
            ConnectionState::Ready => Some(kick_text(userid, reason)),
            _ => None,
        }
    }

    /// The command that says a message in the chat, if one can be sent.
    pub fn send_chat(&self, message: &str) -> (r: Option<String>)
        ensures
            match r {
                Some(c) => self@.state == ConnectionState::Ready && c@ == chat_command(message@),
                None => self@.state != ConnectionState::Ready,
            },
    {
        match self.state {
            ConnectionState::Ready => Some(chat_text(message)),
            _ => None,
        }
    }
}

/// The word that stands for a reason in a vote.
pub fn reason_word(reason: KickReason) -> (r: &'static str)
    ensures
        r@ == reason_text(reason),
{
    match reason {
        KickReason::Other => "other",
        KickReason::Idle => "idle",
        KickReason::Cheating => "cheating",
        KickReason::Scamming => "scamming",
    }
}

/// The command that calls a vote to kick a connection id.
pub fn kick_text(userid: u32, reason: KickReason) -> (r: String)
    ensures
        r@ == kick_command(userid, reason),
{
    let mut r = "callvote kick \"".to_owned();
    push_decimal(&mut r, userid);
    r.append(" ");
    r.append(reason_word(reason));
    r.append("\"");
    r
}

/// The command that says a message in the chat.
pub fn chat_text(message: &str) -> (r: String)
    ensures
        r@ == chat_command(message@),
{
    let mut r = "say \"".to_owned();
    r.append(message);
    r.append("\"");
    r
}

} // verus!
