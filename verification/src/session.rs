//! The per-connection session: a state machine from what happens on a
//! connection to what has to be done about it.
//!
//! A session starts in [`Phase::Connecting`], waits for `JOIN <username>` in
//! [`Phase::AwaitingJoin`], relays messages while [`Phase::Active`] and ends
//! in [`Phase::Closed`]. It does no input or output itself: whoever drives it
//! reads the lines, carries out each [`Action`] and reports back with the
//! next [`Event`].

use crate::protocol::{err, err_line, info, info_line, parse, parse_line};
use crate::protocol::{Command, CommandView, ParseError};
use crate::registry::{after_join, after_leave, join_outcome, Directory, JoinError};
use crate::text::text_of;
use tokio::sync::mpsc::UnboundedSender;
use vstd::prelude::*;

verus! {

/// Where a session stands in its life.
#[derive(Clone, Copy, Debug, PartialEq, Eq)]
pub enum Phase {
    /// The connection is accepted; nothing has been read yet.
    Connecting,
    /// Waiting for the first line, or for the registry's answer to it.
    AwaitingJoin,
    /// Registered and relaying.
    Active,
    /// Done. Nothing leaves this phase.
    Closed,
}

/// What happened on the connection.
#[derive(Debug, PartialEq, Eq)]
pub enum Event<'a> {
    /// The session may start reading.
    Opened,
    /// A line arrived.
    Line(&'a str),
    /// The peer closed the connection, or reading or writing failed.
    Disconnected,
    /// The registry answered a [`Action::Register`].
    Joined(Result<(), JoinError>),
}

/// What the driver has to do next.
#[derive(Debug, PartialEq, Eq)]
pub enum Action {
    /// Read the next line.
    Continue,
    /// Write this line to the client, then read the next one.
    Reply(String),
    /// Ask the registry to register this username, and report its answer as
    /// [`Event::Joined`].
    Register(String),
    /// Write this line to the client, start forwarding the user's outbound
    /// queue to the connection, then read the next line.
    Welcome(String),
    /// Broadcast `text` in the name of `from`, then read the next line.
    Broadcast { from: String, text: String },
    /// Write `reply` to the client if there is one, remove `release` from the
    /// registry if there is one, stop forwarding and drop the connection.
    Close { reply: Option<String>, release: Option<String> },
}

/// An [`Event`] with its texts as character sequences.
pub enum EventView {
    Opened,
    Line(Seq<char>),
    Disconnected,
    /// The registry's answer: whether the username was registered.
    Joined(bool),
}

/// An [`Action`] with its texts as character sequences.
pub enum ActionView {
    Continue,
    Reply(Seq<char>),
    Register(Seq<char>),
    Welcome(Seq<char>),
    Broadcast { from: Seq<char>, text: Seq<char> },
    Close { reply: Option<Seq<char>>, release: Option<Seq<char>> },
}

/// The state of a session.
pub struct SessionView {
    pub phase: Phase,
    /// The username that the session holds, or, while it awaits the
    /// registry's answer, the one it asked for.
    pub username: Option<Seq<char>>,
}

impl<'a> View for Event<'a> {
    type V = EventView;

    open spec fn view(&self) -> EventView {
        match self {
            Event::Opened => EventView::Opened,
            Event::Line(line) => EventView::Line(line@),
            Event::Disconnected => EventView::Disconnected,
            Event::Joined(outcome) => EventView::Joined(outcome is Ok),
        }
    }
}

impl View for Action {
    type V = ActionView;

    open spec fn view(&self) -> ActionView {
        match self {
            Action::Continue => ActionView::Continue,
            Action::Reply(line) => ActionView::Reply(line@),
            Action::Register(username) => ActionView::Register(username@),
            Action::Welcome(line) => ActionView::Welcome(line@),
            Action::Broadcast { from, text } => ActionView::Broadcast { from: from@, text: text@ },
            Action::Close { reply, release } => ActionView::Close {
                reply: text_of(*reply),
                release: text_of(*release),
            },
        }
    }
}

impl SessionView {
    /// A session holds a username exactly while it is active, and may hold
    /// the one it asked for while it awaits the registry's answer.
    pub open spec fn wf(self) -> bool {
        match self.phase {
            Phase::Connecting => self.username is None,
            Phase::AwaitingJoin => true,
            Phase::Active => self.username is Some,
            Phase::Closed => self.username is None,
        }
    }

    /// The state of a session that has not started.
    pub open spec fn connecting() -> SessionView {
        SessionView { phase: Phase::Connecting, username: None }
    }

    /// The state of a session that has ended.
    pub open spec fn closed() -> SessionView {
        SessionView { phase: Phase::Closed, username: None }
    }
}

/// Ending the session: `reply` goes to the client, `release` leaves the
/// registry.
pub open spec fn close(reply: Option<Seq<char>>, release: Option<Seq<char>>) -> (
    SessionView,
    ActionView,
) {
    (SessionView::closed(), ActionView::Close { reply, release })
}

/// Ending the session over a protocol violation that `reason` names. The
/// session holds no username yet, so none is released.
pub open spec fn reject(reason: Seq<char>) -> (SessionView, ActionView) {
    close(Some(err_line(reason)), None)
}

/// The first line decides the handshake: `JOIN <username>` asks the registry
/// for the username, anything else ends the session with an error.
pub open spec fn handshake(line: Seq<char>) -> (SessionView, ActionView) {
    match parse_line(line) {
        Ok(CommandView::Join(username)) => (
            SessionView { phase: Phase::AwaitingJoin, username: Some(username) },
            ActionView::Register(username),
        ),
        Err(ParseError::MissingUsername) => reject("username is required"@),
        _ => reject("first command must be JOIN <username>"@),
    }
}

/// The registry's answer ends the handshake: the session becomes active
/// under the username it asked for, or ends because the username is taken.
/// A refused session never held the username and releases nothing.
pub open spec fn admission(candidate: Seq<char>, accepted: bool) -> (SessionView, ActionView) {
    if accepted {
        (
            SessionView { phase: Phase::Active, username: Some(candidate) },
            ActionView::Welcome(info_line("joined chat"@)),
        )
    } else {
        reject("username taken"@)
    }
}

/// A line in an active session: a blank line is ignored, `MSG` is broadcast,
/// `LEAVE` ends the session and releases the username, and anything else is
/// answered with an error.
pub open spec fn command(state: SessionView, line: Seq<char>) -> (SessionView, ActionView) {
    match parse_line(line) {
        Err(ParseError::MissingCommand) => (state, ActionView::Continue),
        Ok(CommandView::Msg(text)) => (
            state,
            ActionView::Broadcast { from: state.username->0, text },
        ),
        Ok(CommandView::Leave) => close(None, state.username),
        _ => (state, ActionView::Reply(err_line("unknown command"@))),
    }
}

/// The session's whole behaviour: the state after `event`, and what the
/// driver has to do. An event that the phase has no use for changes nothing.
/// A lost connection ends the session in every phase, and releases the
/// username only if the session was active.
pub open spec fn transition(state: SessionView, event: EventView) -> (SessionView, ActionView) {
    match state.phase {
        Phase::Connecting => match event {
            EventView::Opened => (
                SessionView { phase: Phase::AwaitingJoin, username: None },
                ActionView::Continue,
            ),
            EventView::Disconnected => close(None, None),
            _ => (state, ActionView::Continue),
        },
        Phase::AwaitingJoin => match (state.username, event) {
            (None, EventView::Line(line)) => handshake(line),
            (Some(candidate), EventView::Joined(accepted)) => admission(candidate, accepted),
            (_, EventView::Disconnected) => close(None, None),
            _ => (state, ActionView::Continue),
        },
        Phase::Active => match event {
            EventView::Line(line) => command(state, line),
            EventView::Disconnected => close(None, state.username),
            _ => (state, ActionView::Continue),
        },
        Phase::Closed => close(None, None),
    }
}

/// One connection's session.
#[derive(Debug)]
pub struct Session {
    phase: Phase,
    username: Option<String>,
}

impl View for Session {
    type V = SessionView;

    closed spec fn view(&self) -> SessionView {
        SessionView { phase: self.phase, username: text_of(self.username) }
    }
}

impl Session {
    #[verifier::type_invariant]
    spec fn well_formed(self) -> bool {
        self@.wf()
    }

    /// A session for a connection that has just been accepted.
    pub fn new() -> (session: Self)
        ensures
            session@ == SessionView::connecting(),
    {
        Session { phase: Phase::Connecting, username: None }
    }

    /// The phase the session is in.
    pub fn phase(&self) -> (phase: Phase)
        ensures
            phase == self@.phase,
    {
        self.phase
    }

    /// Ends the session and hands out the username it held, if any.
    fn shut(&mut self) -> (held: Option<String>)
        ensures
            final(self)@ == SessionView::closed(),
            text_of(held) == old(self)@.username,
    {
        let mut past = Session { phase: Phase::Closed, username: None };
        core::mem::swap(self, &mut past);
        past.username
    }

    /// Takes in `event` and says what to do next.
    pub fn step(&mut self, event: Event<'_>) -> (action: Action)
        ensures
            (final(self)@, action@) == transition(old(self)@, event@),
    {
        proof {
            use_type_invariant(&*self);
        }
        match self.phase {
            Phase::Connecting => match event {
                Event::Opened => {
                    *self = Session { phase: Phase::AwaitingJoin, username: None };
                    Action::Continue
                },
                Event::Disconnected => {
                    self.shut();
                    Action::Close { reply: None, release: None }
                },
                _ => Action::Continue,
            },
            Phase::AwaitingJoin => match event {
                Event::Disconnected => {
                    self.shut();
                    Action::Close { reply: None, release: None }
                },
                Event::Line(line) => {
                    if self.username.is_some() {
                        return Action::Continue;
                    }
                    match parse(line) {
                        Ok(Command::Join(username)) => {
                            let asked = username.clone();
                            *self = Session { phase: Phase::AwaitingJoin, username: Some(username) };
                            Action::Register(asked)
                        },
                        Err(ParseError::MissingUsername) => {
                            self.shut();
                            Action::Close {
                                reply: Some(err("username is required")),
                                release: None,
                            }
                        },
                        _ => {
                            self.shut();
                            Action::Close {
                                reply: Some(err("first command must be JOIN <username>")),
                                release: None,
                            }
                        },
                    }
                },
                Event::Joined(outcome) => {
                    if self.username.is_none() {
                        return Action::Continue;
                    }
                    match outcome {
                        Ok(()) => {
                            self.phase = Phase::Active;
                            Action::Welcome(info("joined chat"))
                        },
                        Err(_) => {
                            self.shut();
                            Action::Close { reply: Some(err("username taken")), release: None }
                        },
                    }
                },
                Event::Opened => Action::Continue,
            },
            Phase::Active => match event {
                Event::Line(line) => match parse(line) {
                    Err(ParseError::MissingCommand) => Action::Continue,
                    Ok(Command::Msg(text)) => match &self.username {
                        Some(from) => Action::Broadcast { from: from.clone(), text },
                        None => Action::Continue,
                    },
                    Ok(Command::Leave) => {
                        let release = self.shut();
                        Action::Close { reply: None, release }
                    },
                    _ => Action::Reply(err("unknown command")),
                },
                Event::Disconnected => {
                    let release = self.shut();
                    Action::Close { reply: None, release }
                },
                _ => Action::Continue,
            },
            Phase::Closed => Action::Close { reply: None, release: None },
        }
    }
}

/// Whatever happens, a session that holds a username exactly while it is
/// active goes on doing so.
pub proof fn lemma_transition_keeps_wf(state: SessionView, event: EventView)
    requires
        state.wf(),
    ensures
        transition(state, event).0.wf(),
{
}

/// A closed session stays closed: whatever is reported to it, it asks for
/// nothing to be written and nothing to be released.
pub proof fn lemma_closed_is_final(event: EventView)
    ensures
        transition(SessionView::closed(), event) == close(None, None),
{
}

/// A session releases a username only if it held that username as an active
/// session. One that was refused, or that never joined, releases nothing.
pub proof fn lemma_release_only_what_is_held(state: SessionView, event: EventView)
    requires
        state.wf(),
    ensures
        transition(state, event).1 matches ActionView::Close { release: Some(username), .. }
            ==> state.phase == Phase::Active && state.username == Some(username),
{
}

/// A connection that is lost before the first line closes in silence:
/// nothing is written and nothing is released.
pub proof fn lemma_lost_before_join_closes_silently()
    ensures
        transition(SessionView::connecting(), EventView::Disconnected) == close(None, None),
        transition(
            SessionView { phase: Phase::AwaitingJoin, username: None },
            EventView::Disconnected,
        ) == close(None, None),
{
}

/// A session that asks for a username which is registered is told so and
/// closed; it releases nothing, and the registry stays as it was.
pub proof fn lemma_taken_username_closes_session(
    peers: Directory,
    username: String,
    tx: UnboundedSender<String>,
)
    requires
        peers.contains_key(username@),
    ensures
        after_join(peers, username@, tx) == peers,
        transition(
            SessionView { phase: Phase::AwaitingJoin, username: Some(username@) },
            EventView::Joined(join_outcome(peers, username) is Ok),
        ) == close(Some(err_line("username taken"@)), None),
{
}

/// `LEAVE` ends an active session and releases its username, after which the
/// next session that asks for that username gets it.
pub proof fn lemma_leave_frees_username(
    state: SessionView,
    line: Seq<char>,
    peers: Directory,
    next: String,
)
    requires
        state.phase == Phase::Active,
        state.username == Some(next@),
        parse_line(line) == Ok::<CommandView, ParseError>(CommandView::Leave),
    ensures
        transition(state, EventView::Line(line)) == close(None, Some(next@)),
        join_outcome(after_leave(peers, next@), next) == Ok::<(), JoinError>(()),
{
}

/// A command that an active session does not know is answered with an error
/// and changes nothing: a message that follows is broadcast as before.
pub proof fn lemma_unknown_command_keeps_session(
    state: SessionView,
    unknown: Seq<char>,
    message: Seq<char>,
    text: Seq<char>,
)
    requires
        state.phase == Phase::Active,
        parse_line(unknown) == Ok::<CommandView, ParseError>(CommandView::UnknownCommand),
        parse_line(message) == Ok::<CommandView, ParseError>(CommandView::Msg(text)),
    ensures
        transition(state, EventView::Line(unknown)) == (
            state,
            ActionView::Reply(err_line("unknown command"@)),
        ),
        transition(transition(state, EventView::Line(unknown)).0, EventView::Line(message)) == (
            state,
            ActionView::Broadcast { from: state.username->0, text },
        ),
{
}

} // verus!
