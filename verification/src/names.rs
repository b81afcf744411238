//! Names, targets and scopes, and the error vocabulary of the protocol.
use vstd::prelude::*;

use crate::table::{Dup, Key};
use crate::text;

verus! {

/// A window position: a session name and a window index.
pub type Slot = (Seq<char>, u32);

/// A pane position: a session name, a window index and a pane index.
pub type PaneSpot = (Seq<char>, u32, u32);

/// The name of a session.
#[derive(Debug, PartialEq, Eq, Hash)]
pub struct SessionName {
    /// The characters of the name.
    pub value: String,
}

impl View for SessionName {
    type V = Seq<char>;

    open spec fn view(&self) -> Seq<char> {
        self.value@
    }
}

impl DeepView for SessionName {
    type V = Seq<char>;

    open spec fn deep_view(&self) -> Seq<char> {
        self.value@
    }
}

impl Clone for SessionName {
    fn clone(&self) -> (r: Self)
        ensures
            r == *self,
    {
        SessionName { value: self.value.clone() }
    }
}

impl Dup for SessionName {
    fn dup(&self) -> (r: Self) {
        self.clone()
    }
}

impl Key for SessionName {
    fn same(&self, other: &Self) -> (r: bool) {
        text::str_eq(&self.value, &other.value)
    }
}

impl SessionName {
    /// The session name with the characters of `value`.
    pub fn new(value: &str) -> (r: SessionName)
        ensures
            r@ == value@,
    {
        SessionName { value: value.to_owned() }
    }

    /// The name as text.
    pub fn as_str(&self) -> (r: &str)
        ensures
            r@ == self@,
    {
        self.value.as_str()
    }
}

/// A window addressed by its session and index.
#[derive(Debug, PartialEq, Eq, Hash)]
pub struct WindowTarget {
    /// The session that holds the window.
    pub session_name: SessionName,
    /// The index of the window in its session.
    pub window_index: u32,
}

impl View for WindowTarget {
    type V = Slot;

    open spec fn view(&self) -> Slot {
        (self.session_name@, self.window_index)
    }
}

impl Clone for WindowTarget {
    fn clone(&self) -> (r: Self)
        ensures
            r == *self,
    {
        WindowTarget { session_name: self.session_name.clone(), window_index: self.window_index }
    }
}

impl WindowTarget {
    /// The window `window_index` of `session_name`.
    pub fn with_window(session_name: SessionName, window_index: u32) -> (r: WindowTarget)
        ensures
            r == (WindowTarget { session_name, window_index }),
    {
        WindowTarget { session_name, window_index }
    }

    /// The target in the notation `session:window`.
    pub fn to_text(&self) -> (r: String)
        ensures
            r@ == slot_text(self@),
    {
        slot_to_text(&self.session_name, self.window_index)
    }
}

/// The notation `session:window` of a window position.
pub open spec fn slot_text(slot: Slot) -> Seq<char> {
    slot.0 + ":"@ + text::decimal(slot.1 as nat)
}

/// Computes [`slot_text`].
pub fn slot_to_text(session_name: &SessionName, window_index: u32) -> (r: String)
    ensures
        r@ == slot_text((session_name@, window_index)),
{
    let mut out = session_name.value.clone();
    out.append(":");
    let index = text::decimal_of(window_index as u64);
    out.append(&index);
    out
}

/// A pane addressed by its session, window index and pane index.
#[derive(Debug, PartialEq, Eq, Hash)]
pub struct PaneTarget {
    /// The session that holds the pane.
    pub session_name: SessionName,
    /// The index of the window in its session.
    pub window_index: u32,
    /// The index of the pane in its window.
    pub pane_index: u32,
}

impl View for PaneTarget {
    type V = PaneSpot;

    open spec fn view(&self) -> PaneSpot {
        (self.session_name@, self.window_index, self.pane_index)
    }
}

impl Clone for PaneTarget {
    fn clone(&self) -> (r: Self)
        ensures
            r == *self,
    {
        PaneTarget {
            session_name: self.session_name.clone(),
            window_index: self.window_index,
            pane_index: self.pane_index,
        }
    }
}

impl PaneTarget {
    /// The pane `pane_index` of window `window_index` of `session_name`.
    pub fn with_window(session_name: SessionName, window_index: u32, pane_index: u32) -> (r:
        PaneTarget)
        ensures
            r == (PaneTarget { session_name, window_index, pane_index }),
    {
        PaneTarget { session_name, window_index, pane_index }
    }
}

/// What a command addresses.
#[derive(Debug, PartialEq, Eq, Hash)]
pub enum Target {
    /// A whole session.
    Session(SessionName),
    /// One window.
    Window(WindowTarget),
    /// One pane.
    Pane(PaneTarget),
}

/// The mathematical value of a [`Target`].
pub enum TargetView {
    /// A whole session.
    Session(Seq<char>),
    /// One window.
    Window(Slot),
    /// One pane.
    Pane(PaneSpot),
}

impl View for Target {
    type V = TargetView;

    open spec fn view(&self) -> TargetView {
        match self {
            Target::Session(name) => TargetView::Session(name@),
            Target::Window(window) => TargetView::Window(window@),
            Target::Pane(pane) => TargetView::Pane(pane@),
        }
    }
}

impl DeepView for Target {
    type V = TargetView;

    open spec fn deep_view(&self) -> TargetView {
        self@
    }
}

impl Clone for Target {
    fn clone(&self) -> (r: Self)
        ensures
            r == *self,
    {
        match self {
            Target::Session(name) => Target::Session(name.clone()),
            Target::Window(window) => Target::Window(window.clone()),
            Target::Pane(pane) => Target::Pane(pane.clone()),
        }
    }
}

impl Target {
    /// The session that the target lies in.
    pub open spec fn spec_session_name(self) -> SessionName {
        match self {
            Target::Session(name) => name,
            Target::Window(window) => window.session_name,
            Target::Pane(pane) => pane.session_name,
        }
    }

    /// The session that the target lies in.
    pub fn session_name(&self) -> (r: &SessionName)
        ensures
            *r == self.spec_session_name(),
    {
        match self {
            Target::Session(name) => name,
            Target::Window(window) => &window.session_name,
            Target::Pane(pane) => &pane.session_name,
        }
    }
}

/// Where an option, hook or environment change applies.
#[derive(Debug, PartialEq, Eq, Hash)]
pub enum ScopeSelector {
    /// Everywhere.
    Global,
    /// One session.
    Session(SessionName),
    /// One window.
    Window(WindowTarget),
    /// One pane.
    Pane(PaneTarget),
}

/// Where an option change applies, with the three global roots told apart.
#[derive(Debug, PartialEq, Eq, Hash)]
pub enum OptionScopeSelector {
    /// The server-wide options.
    ServerGlobal,
    /// The defaults of all sessions.
    SessionGlobal,
    /// The defaults of all windows.
    WindowGlobal,
    /// One session.
    Session(SessionName),
    /// One window.
    Window(WindowTarget),
    /// One pane.
    Pane(PaneTarget),
}

impl Clone for OptionScopeSelector {
    fn clone(&self) -> (r: Self)
        ensures
            r == *self,
    {
        match self {
            OptionScopeSelector::ServerGlobal => OptionScopeSelector::ServerGlobal,
            OptionScopeSelector::SessionGlobal => OptionScopeSelector::SessionGlobal,
            OptionScopeSelector::WindowGlobal => OptionScopeSelector::WindowGlobal,
            OptionScopeSelector::Session(name) => OptionScopeSelector::Session(name.clone()),
            OptionScopeSelector::Window(window) => OptionScopeSelector::Window(window.clone()),
            OptionScopeSelector::Pane(pane) => OptionScopeSelector::Pane(pane.clone()),
        }
    }
}

/// An error that travels over the protocol.
#[derive(Debug, PartialEq, Eq)]
pub enum ProtoError {
    /// A failure reported by the server, in words.
    Server(String),
    /// A target that cannot be used.
    InvalidTarget {
        /// The target as it was given.
        value: String,
        /// Why it cannot be used.
        reason: String,
    },
    /// No session has this name.
    SessionNotFound(String),
    /// An option change that is not acceptable.
    InvalidSetOption(String),
    /// More bytes are needed before a frame can be decoded.
    IncompleteFrame {
        /// The number of bytes that the frame needs.
        expected: u64,
        /// The number of bytes at hand.
        received: u64,
    },
    /// A frame that cannot be decoded.
    Decode(String),
}

/// The mathematical value of a [`ProtoError`].
pub enum ErrorView {
    /// A failure reported by the server, in words.
    Server(Seq<char>),
    /// A target that cannot be used, with the reason.
    InvalidTarget(Seq<char>, Seq<char>),
    /// No session has this name.
    SessionNotFound(Seq<char>),
    /// An option change that is not acceptable.
    InvalidSetOption(Seq<char>),
    /// More bytes are needed before a frame can be decoded.
    IncompleteFrame(u64, u64),
    /// A frame that cannot be decoded.
    Decode(Seq<char>),
}

impl View for ProtoError {
    type V = ErrorView;

    open spec fn view(&self) -> ErrorView {
        match self {
            ProtoError::Server(message) => ErrorView::Server(message@),
            ProtoError::InvalidTarget { value, reason } => ErrorView::InvalidTarget(
                value@,
                reason@,
            ),
            ProtoError::SessionNotFound(name) => ErrorView::SessionNotFound(name@),
            ProtoError::InvalidSetOption(message) => ErrorView::InvalidSetOption(message@),
            ProtoError::IncompleteFrame { expected, received } => ErrorView::IncompleteFrame(
                *expected,
                *received,
            ),
            ProtoError::Decode(message) => ErrorView::Decode(message@),
        }
    }
}

impl DeepView for ProtoError {
    type V = ErrorView;

    open spec fn deep_view(&self) -> ErrorView {
        self@
    }
}

impl Clone for ProtoError {
    fn clone(&self) -> (r: Self)
        ensures
            r == *self,
    {
        match self {
            ProtoError::Server(message) => ProtoError::Server(message.clone()),
            ProtoError::InvalidTarget { value, reason } => ProtoError::InvalidTarget {
                value: value.clone(),
                reason: reason.clone(),
            },
            ProtoError::SessionNotFound(name) => ProtoError::SessionNotFound(name.clone()),
            ProtoError::InvalidSetOption(message) => ProtoError::InvalidSetOption(message.clone()),
            ProtoError::IncompleteFrame { expected, received } => ProtoError::IncompleteFrame {
                expected: *expected,
                received: *received,
            },
            ProtoError::Decode(message) => ProtoError::Decode(message.clone()),
        }
    }
}

impl ErrorView {
    /// The words that describe the error to a person.
    pub open spec fn message(self) -> Seq<char> {
        match self {
            ErrorView::Server(message) => message,
            ErrorView::InvalidTarget(value, reason) => "invalid target '"@ + value + "': "@
                + reason,
            ErrorView::SessionNotFound(name) => "session not found: "@ + name,
            ErrorView::InvalidSetOption(message) => message,
            ErrorView::IncompleteFrame(expected, received) => "incomplete frame: expected "@
                + text::decimal(expected as nat) + " bytes, received "@ + text::decimal(
                received as nat,
            ),
            ErrorView::Decode(message) => "failed to decode frame: "@ + message,
        }
    }
}

impl ProtoError {
    /// An error about a target.
    pub fn invalid_target(value: String, reason: &str) -> (r: ProtoError)
        ensures
            r@ == ErrorView::InvalidTarget(value@, reason@),
    {
        ProtoError::InvalidTarget { value, reason: reason.to_owned() }
    }

    /// The words that describe the error to a person.
    pub fn message(&self) -> (r: String)
        ensures
            r@ == self@.message(),
    {
        match self {
            ProtoError::Server(message) => message.clone(),
            ProtoError::InvalidTarget { value, reason } => {
                let mut out = "invalid target '".to_owned();
                out.append(value);
                out.append("': ");
                out.append(reason);
                out
            },
            ProtoError::SessionNotFound(name) => {
                let mut out = "session not found: ".to_owned();
                out.append(name);
                out
            },
            ProtoError::InvalidSetOption(message) => message.clone(),
            ProtoError::IncompleteFrame { expected, received } => {
                let mut out = "incomplete frame: expected ".to_owned();
                let wanted = text::decimal_of(*expected);
                out.append(&wanted);
                out.append(" bytes, received ");
                let have = text::decimal_of(*received);
                out.append(&have);
                out
            },
            ProtoError::Decode(message) => {
                let mut out = "failed to decode frame: ".to_owned();
                out.append(message);
                out
            },
        }
    }
}

/// The error for a session that does not exist.
pub fn session_not_found(session_name: &SessionName) -> (r: ProtoError)
    ensures
        r@ == ErrorView::SessionNotFound(session_name@),
{
    ProtoError::SessionNotFound(session_name.value.clone())
}

/// What a result says, with both sides taken by their mathematical values.
pub open spec fn viewed<T: View, E: View>(r: Result<T, E>) -> Result<T::V, E::V> {
    match r {
        Ok(value) => Ok(value@),
        Err(error) => Err(error@),
    }
}

} // verus!
