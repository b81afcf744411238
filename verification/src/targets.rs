//! What a command is about: the target that it leaves as the current one.
use vstd::prelude::*;

use crate::names::{
    ErrorView, OptionScopeSelector, PaneTarget, ProtoError, ScopeSelector, SessionName, Target,
    TargetView, WindowTarget,
};
use crate::protocol::{ErrorResponse, Request, ResolveTargetResponse, Response};
use crate::state::{HandlerState, StateView};
use crate::text;

verus! {

/// The scope that a target is.
pub fn target_to_scope(target: &Target) -> (r: ScopeSelector)
    ensures
        r == match *target {
            Target::Session(name) => ScopeSelector::Session(name),
            Target::Window(window) => ScopeSelector::Window(window),
            Target::Pane(pane) => ScopeSelector::Pane(pane),
        },
{
    match target {
        Target::Session(name) => ScopeSelector::Session(name.clone()),
        Target::Window(window) => ScopeSelector::Window(window.clone()),
        Target::Pane(pane) => ScopeSelector::Pane(pane.clone()),
    }
}

impl StateView {
    /// The active pane of the window at a position, where there is one.
    pub open spec fn active_pane(self, name: Seq<char>, index: u32) -> Option<u32> {
        if self.sessions.contains_key(name) && self.sessions[name].windows.contains_key(index) {
            self.sessions[name].windows[index].active
        } else {
            None
        }
    }

    /// The active pane of the active window of a session.
    pub open spec fn session_focus(self, name: Seq<char>) -> Option<TargetView> {
        let index = self.sessions[name].active;
        if !self.sessions.contains_key(name) {
            None
        } else {
            match self.active_pane(name, index) {
                Some(pane) => Some(TargetView::Pane((name, index, pane))),
                None => None,
            }
        }
    }

    /// The active pane of a window, or the window where it has none.
    pub open spec fn window_focus(self, name: Seq<char>, index: u32) -> Option<TargetView> {
        if !self.sessions.contains_key(name) || !self.sessions[name].windows.contains_key(index) {
            None
        } else {
            match self.active_pane(name, index) {
                Some(pane) => Some(TargetView::Pane((name, index, pane))),
                None => Some(TargetView::Window((name, index))),
            }
        }
    }

    /// What is current when a target is meant.
    pub open spec fn focus(self, target: TargetView) -> Option<TargetView> {
        match target {
            TargetView::Session(name) => self.session_focus(name),
            TargetView::Window(slot) => self.window_focus(slot.0, slot.1),
            TargetView::Pane(spot) => Some(TargetView::Pane(spot)),
        }
    }

    /// The name that comes first among the sessions.
    pub open spec fn first_session(self) -> Seq<char> {
        choose|name: Seq<char>| self.is_first_session(name)
    }

    /// Whether a name comes first among the sessions.
    pub open spec fn is_first_session(self, name: Seq<char>) -> bool {
        &&& self.sessions.contains_key(name)
        &&& forall|other: Seq<char>| #[trigger]
            self.sessions.contains_key(other) ==> text::comes_first(name, other)
    }

    /// What is current when nothing is meant: the attached session, or else the
    /// one whose name comes first.
    pub open spec fn fallback(self, attached: Option<Seq<char>>) -> Option<TargetView> {
        let own = match attached {
            Some(name) => self.session_focus(name),
            None => None,
        };
        if own is Some {
            own
        } else if exists|name: Seq<char>| self.sessions.contains_key(name) {
            self.session_focus(self.first_session())
        } else {
            None
        }
    }
}

/// The active pane of the active window of a session.
pub fn active_session_target(state: &HandlerState, session_name: &SessionName) -> (r: Option<
    Target,
>)
    ensures
        r.deep_view() == state@.session_focus(session_name@),
{
    let session = match state.sessions.get(session_name) {
        Some(session) => session,
        None => {
            return None;
        },
    };
    let window_index = session.active;
    match session.window_at(window_index) {
        Some(window) => match window.active {
            Some(pane) => Some(
                Target::Pane(PaneTarget::with_window(session_name.clone(), window_index, pane)),
            ),
            None => None,
        },
        None => None,
    }
}

/// The active pane of a window, or the window where it has none.
pub fn active_window_target(state: &HandlerState, target: &WindowTarget) -> (r: Option<Target>)
    ensures
        r.deep_view() == state@.window_focus(target@.0, target@.1),
{
    let session = match state.sessions.get(&target.session_name) {
        Some(session) => session,
        None => {
            return None;
        },
    };
    match session.window_at(target.window_index) {
        Some(window) => match window.active {
            Some(pane) => Some(
                Target::Pane(
                    PaneTarget::with_window(
                        target.session_name.clone(),
                        target.window_index,
                        pane,
                    ),
                ),
            ),
            None => Some(Target::Window(target.clone())),
        },
        None => None,
    }
}

/// What is current when a target is meant.
pub fn focus_of(state: &HandlerState, target: &Target) -> (r: Option<Target>)
    ensures
        r.deep_view() == state@.focus(target@),
{
    match target {
        Target::Session(name) => active_session_target(state, name),
        Target::Window(window) => active_window_target(state, window),
        Target::Pane(pane) => Some(Target::Pane(pane.clone())),
    }
}

/// Whether a target text can only be understood from a current session.
pub open spec fn needs_session(raw: Seq<char>) -> bool {
    ||| raw.len() == 0
    ||| raw == "."@
    ||| text::has_prefix(raw, ":"@)
    ||| text::has_prefix(raw, "+"@)
    ||| text::has_prefix(raw, "-"@)
    ||| (text::occurs(raw, "."@) && !text::occurs(raw, ":"@))
}

/// Computes [`needs_session`].
pub fn unresolved_target_needs_current_session(raw: &str) -> (r: bool)
    ensures
        r == needs_session(raw@),
{
    raw.is_empty() || text::str_eq(raw, ".") || text::starts_with(raw, ":") || text::starts_with(
        raw,
        "+",
    ) || text::starts_with(raw, "-") || (text::contains(raw, ".") && !text::contains(raw, ":"))
}

/// What kind of target is asked for.
#[derive(Debug, Clone, Copy, PartialEq, Eq, Structural)]
pub enum ResolveTargetType {
    /// A session.
    Session,
    /// A window.
    Window,
    /// A pane.
    Pane,
}

/// A request to find out what a target text means.
#[derive(Debug, PartialEq, Eq)]
pub struct ResolveTargetRequest {
    /// The text.
    pub target: Option<String>,
    /// What kind of target it is.
    pub target_type: ResolveTargetType,
    /// Whether an index is enough for a window that need not exist.
    pub window_index: bool,
    /// Whether sessions without clients come first.
    pub prefer_unattached: bool,
}

impl ResolveTargetRequest {
    /// Whether the request can only be understood from a current session: it
    /// has no text, or a text that depends on one.
    pub fn needs_current_session(&self) -> (r: bool)
        ensures
            r == match self.target {
                Some(raw) => needs_session(raw@),
                None => true,
            },
    {
        match &self.target {
            Some(raw) => unresolved_target_needs_current_session(raw),
            None => true,
        }
    }

    /// What is current for the request: the active pane of the preferred
    /// session, where a current session is needed and one is preferred.
    pub open spec fn spec_current(self, state: StateView, preferred: Option<SessionName>) -> Option<
        TargetView,
    > {
        match preferred {
            Some(name) => if self.target matches Some(raw) && !needs_session(raw@) {
                None
            } else {
                state.session_focus(name@)
            },
            None => None,
        }
    }

    /// Computes [`ResolveTargetRequest::spec_current`].
    pub fn current_target(&self, state: &HandlerState, preferred: &Option<SessionName>) -> (r:
        Option<Target>)
        ensures
            r.deep_view() == self.spec_current(state@, *preferred),
    {
        if !self.needs_current_session() {
            return None;
        }
        match preferred {
            Some(name) => active_session_target(state, name),
            None => None,
        }
    }
}

/// A target text to look up among the sessions.
#[derive(Debug, PartialEq, Eq)]
pub struct TargetLookup {
    /// The text.
    pub target: Option<String>,
    /// What kind of target it is.
    pub target_type: ResolveTargetType,
    /// Whether an index is enough for a window that need not exist.
    pub window_index: bool,
    /// Whether sessions without clients come first.
    pub prefer_unattached: bool,
    /// What is current.
    pub current: Option<Target>,
}

/// What a request to find out what a target text means looks up, given the
/// preferred session, where there is one.
pub fn handle_resolve_target(
    request: ResolveTargetRequest,
    state: &HandlerState,
    preferred: &Option<SessionName>,
) -> (r: TargetLookup)
    ensures
        r.target == request.target,
        r.target_type == request.target_type,
        r.window_index == request.window_index,
        r.prefer_unattached == request.prefer_unattached,
        r.current.deep_view() == request.spec_current(state@, *preferred),
{
    let current = request.current_target(state, preferred);
    TargetLookup {
        target: request.target,
        target_type: request.target_type,
        window_index: request.window_index,
        prefer_unattached: request.prefer_unattached,
        current,
    }
}

/// The answer to a request whose target text has been looked up.
pub fn resolve_target_response(found: Result<Target, ProtoError>) -> (r: Response)
    ensures
        r == match found {
            Ok(target) => Response::ResolveTarget(ResolveTargetResponse { target }),
            Err(error) => Response::Error(ErrorResponse { error }),
        },
{
    match found {
        Ok(target) => Response::ResolveTarget(ResolveTargetResponse { target }),
        Err(error) => Response::Error(ErrorResponse { error }),
    }
}

/// Whether a session was found.
#[derive(Debug, PartialEq, Eq)]
pub enum SessionLookup {
    /// It was.
    Found(SessionName),
    /// There is none.
    Missing,
}

/// Whether a lookup failed for want of a session.
pub open spec fn is_missing_session(error: ErrorView) -> bool {
    error matches ErrorView::InvalidTarget(_, reason) && text::has_prefix(
        reason,
        "can't find session: "@,
    )
}

/// Computes [`is_missing_session`].
fn session_lookup_is_missing(error: &ProtoError) -> (r: bool)
    ensures
        r == is_missing_session(error@),
{
    match error {
        ProtoError::InvalidTarget { reason, .. } => text::starts_with(
            reason,
            "can't find session: ",
        ),
        _ => false,
    }
}

/// What a lookup of a session target says: which session was found, that there
/// is none, or why the lookup failed.
pub fn resolve_session_lookup(found: Result<Target, ProtoError>) -> (r: Result<
    SessionLookup,
    ProtoError,
>)
    ensures
        match found {
            Ok(target) => r is Ok && r->Ok_0 == SessionLookup::Found(target.spec_session_name()),
            Err(error) => if is_missing_session(error@) {
                r is Ok && r->Ok_0 == SessionLookup::Missing
            } else {
                r is Err && r->Err_0 == error
            },
        },
{
    match found {
        Ok(target) => Ok(SessionLookup::Found(target.session_name().clone())),
        Err(error) => if session_lookup_is_missing(&error) {
            Ok(SessionLookup::Missing)
        } else {
            Err(error)
        },
    }
}

/// The session that a lookup found; that there is none is an error.
pub fn resolve_existing_session_target(found: Result<Target, ProtoError>, target: &SessionName) -> (r:
    Result<SessionName, ProtoError>)
    ensures
        match found {
            Ok(resolved) => r is Ok && r->Ok_0 == resolved.spec_session_name(),
            Err(error) => r is Err && r->Err_0@ == if is_missing_session(error@) {
                ErrorView::SessionNotFound(target@)
            } else {
                error@
            },
        },
{
    match resolve_session_lookup(found) {
        Ok(SessionLookup::Found(session_name)) => Ok(session_name),
        Ok(SessionLookup::Missing) => Err(ProtoError::SessionNotFound(target.value.clone())),
        Err(error) => Err(error),
    }
}

/// The target of a scope, where it has one.
pub open spec fn scope_target(scope: ScopeSelector) -> Option<TargetView> {
    match scope {
        ScopeSelector::Global => None,
        ScopeSelector::Session(name) => Some(TargetView::Session(name@)),
        ScopeSelector::Window(window) => Some(TargetView::Window(window@)),
        ScopeSelector::Pane(pane) => Some(TargetView::Pane(pane@)),
    }
}

/// The target of an option scope, where it has one.
pub open spec fn option_scope_target(scope: OptionScopeSelector) -> Option<TargetView> {
    match scope {
        OptionScopeSelector::Session(name) => Some(TargetView::Session(name@)),
        OptionScopeSelector::Window(window) => Some(TargetView::Window(window@)),
        OptionScopeSelector::Pane(pane) => Some(TargetView::Pane(pane@)),
        _ => None,
    }
}

impl StateView {
    /// What is current when a target may be meant.
    pub open spec fn maybe_focus(self, target: Option<TargetView>) -> Option<TargetView> {
        match target {
            Some(target) => self.focus(target),
            None => None,
        }
    }
}

/// What is current at a scope.
pub fn target_for_scope_selector(state: &HandlerState, scope: &ScopeSelector) -> (r: Option<Target>)
    ensures
        r.deep_view() == state@.maybe_focus(scope_target(*scope)),
{
    match scope {
        ScopeSelector::Global => None,
        ScopeSelector::Session(name) => active_session_target(state, name),
        ScopeSelector::Window(window) => active_window_target(state, window),
        ScopeSelector::Pane(pane) => Some(Target::Pane(pane.clone())),
    }
}

/// What is current at an option scope.
pub fn target_for_option_scope(state: &HandlerState, scope: &OptionScopeSelector) -> (r: Option<
    Target,
>)
    ensures
        r.deep_view() == state@.maybe_focus(option_scope_target(*scope)),
{
    match scope {
        OptionScopeSelector::ServerGlobal
        | OptionScopeSelector::SessionGlobal
        | OptionScopeSelector::WindowGlobal => None,
        OptionScopeSelector::Session(name) => active_session_target(state, name),
        OptionScopeSelector::Window(window) => active_window_target(state, window),
        OptionScopeSelector::Pane(pane) => Some(Target::Pane(pane.clone())),
    }
}

/// The name that comes first among the sessions.
fn first_session_name(state: &HandlerState) -> (r: Option<SessionName>)
    ensures
        match r {
            Some(name) => state@.sessions.contains_key(name@) && name@ == state@.first_session(),
            None => forall|name: Seq<char>| !state@.sessions.contains_key(name),
        },
{
    let keys = state.sessions.keys();
    if keys.len() == 0 {
        assert forall|name: Seq<char>| !state@.sessions.contains_key(name) by {
            if state@.sessions.contains_key(name) {
                let j = choose|j: int| 0 <= j < keys@.len() && (#[trigger] keys@[j])@ == name;
            }
        }
        return None;
    }
    let mut first: usize = 0;
    let mut i: usize = 1;
    proof {
        text::lemma_comes_first_total(keys@[0]@, keys@[0]@);
    }
    while i < keys.len()
        invariant
            0 <= first < i <= keys@.len(),
            forall|j: int|
                0 <= j < i ==> text::comes_first(keys@[first as int]@, (#[trigger] keys@[j])@),
        decreases keys.len() - i,
    {
        let ghost before = keys@[first as int]@;
        let ghost candidate = keys@[i as int]@;
        proof {
            text::lemma_comes_first_total(before, candidate);
            text::lemma_comes_first_total(candidate, candidate);
        }
        if !text::precedes(keys[first].as_str(), keys[i].as_str()) {
            proof {
                assert forall|j: int| 0 <= j < i + 1 implies text::comes_first(
                    candidate,
                    (#[trigger] keys@[j])@,
                ) by {
                    if j < i {
                        text::lemma_comes_first_on(candidate, before, keys@[j]@);
                    }
                }
            }
            first = i;
        }
        i = i + 1;
    }
    let name = keys[first].clone();
    proof {
        assert(state@.sessions.contains_key(keys@[first as int]@));
        assert forall|other: Seq<char>| #[trigger] state@.sessions.contains_key(other) implies
            text::comes_first(name@, other) by {
            let j = choose|j: int| 0 <= j < keys@.len() && (#[trigger] keys@[j])@ == other;
            assert(text::comes_first(name@, keys@[j]@));
        }
        assert(state@.is_first_session(name@));
        let chosen = state@.first_session();
        assert(state@.is_first_session(chosen));
        text::lemma_comes_first_same(name@, chosen);
    }
    Some(name)
}

/// What is current when nothing is meant.
pub fn fallback_current_target(state: &HandlerState, attached_session: Option<&SessionName>) -> (r:
    Option<Target>)
    ensures
        r.deep_view() == state@.fallback(attached_session.deep_view()),
{
    if let Some(name) = attached_session {
        let own = active_session_target(state, name);
        if own.is_some() {
            return own;
        }
    }
    match first_session_name(state) {
        Some(name) => {
            assert(state@.sessions.contains_key(name@));
            active_session_target(state, &name)
        },
        None => None,
    }
}

/// The target that an answer is about, where it is about one.
pub open spec fn response_target(response: Response) -> Option<TargetView> {
    match response {
        Response::NewSession(r) | Response::RenameSession(r) => Some(
            TargetView::Session(r.session_name@),
        ),
        Response::NewWindow(r)
        | Response::NextWindow(r)
        | Response::PreviousWindow(r)
        | Response::LastWindow(r)
        | Response::SelectWindow(r)
        | Response::RenameWindow(r)
        | Response::LinkWindow(r)
        | Response::UnlinkWindow(r) => Some(TargetView::Window(r.target@)),
        Response::RotateWindow(r) => Some(TargetView::Window(r.target@)),
        Response::SplitWindow(r) => Some(TargetView::Pane(r.pane@)),
        Response::LastPane(r) => Some(TargetView::Pane(r.target@)),
        Response::SelectPane(r) => Some(TargetView::Pane(r.target@)),
        Response::MovePane(r) => Some(TargetView::Pane(r.target@)),
        Response::BreakPane(r) => Some(TargetView::Pane(r.target@)),
        Response::PipePane(r) => Some(TargetView::Pane(r.target@)),
        Response::RespawnPane(r) => Some(TargetView::Pane(r.target@)),
        _ => None,
    }
}

/// The target that a request is about, where it is about one.
pub open spec fn request_target(request: Request) -> Option<TargetView> {
    match request {
        Request::NewSession(r) => Some(TargetView::Session(r.session_name@)),
        Request::RenameSession(r) => Some(TargetView::Session(r.new_name@)),
        Request::AttachSession(r)
        | Request::HasSession(r)
        | Request::KillSession(r)
        | Request::NewWindow(r)
        | Request::ListWindows(r)
        | Request::ListPanes(r) => Some(TargetView::Session(r.target@)),
        Request::DisplayPanes(r) => Some(TargetView::Session(r.target@)),
        Request::KillWindow(r)
        | Request::LinkWindow(r)
        | Request::UnlinkWindow(r)
        | Request::RotateWindow(r)
        | Request::ResizeWindow(r)
        | Request::RespawnWindow(r) => Some(TargetView::Window(r.target@)),
        Request::MovePane(r)
        | Request::PipePane(r)
        | Request::RespawnPane(r)
        | Request::SendKeys(r)
        | Request::ResizePane(r)
        | Request::CapturePane(r)
        | Request::PaneSnapshot(r) => Some(TargetView::Pane(r.target@)),
        Request::KillPane(r) => Some(TargetView::Pane(r.target@)),
        Request::PasteBuffer(r) => Some(TargetView::Pane(r.target@)),
        Request::ClearHistory(r) => Some(TargetView::Pane(r.target@)),
        Request::CopyMode(r) => optional_pane(r.target),
        Request::SendKeysExt(r) | Request::SendPrefix(r) => optional_pane(r.target),
        Request::SwitchClientExt(r) => match r.target {
            Some(name) => Some(TargetView::Session(name@)),
            None => None,
        },
        Request::DisplayMessage(r) => r.target.deep_view(),
        Request::SetOption(r)
        | Request::SetEnvironment(r)
        | Request::SetHook(r)
        | Request::SetHookMutation(r)
        | Request::ShowEnvironment(r)
        | Request::ShowHooks(r) => scope_target(r.scope),
        Request::ShowOptions(r) | Request::SetOptionByName(r) => option_scope_target(r.scope),
        _ => None,
    }
}

/// The pane that may be meant, as a target.
pub open spec fn optional_pane(pane: Option<PaneTarget>) -> Option<TargetView> {
    match pane {
        Some(pane) => Some(TargetView::Pane(pane@)),
        None => None,
    }
}

/// Whether a request that leads to no target leaves the fallback as the current
/// one: all do, but those that name one session, window or pane outright.
pub open spec fn falls_back(request: Request) -> bool {
    match request {
        Request::NewSession(_)
        | Request::RenameSession(_)
        | Request::AttachSession(_)
        | Request::HasSession(_)
        | Request::KillSession(_)
        | Request::NewWindow(_)
        | Request::ListWindows(_)
        | Request::ListPanes(_)
        | Request::DisplayPanes(_)
        | Request::KillWindow(_)
        | Request::LinkWindow(_)
        | Request::UnlinkWindow(_)
        | Request::RotateWindow(_)
        | Request::ResizeWindow(_)
        | Request::RespawnWindow(_)
        | Request::MovePane(_)
        | Request::PipePane(_)
        | Request::RespawnPane(_)
        | Request::SendKeys(_)
        | Request::ResizePane(_)
        | Request::CapturePane(_)
        | Request::PaneSnapshot(_)
        | Request::KillPane(_)
        | Request::PasteBuffer(_)
        | Request::ClearHistory(_) => false,
        _ => true,
    }
}

impl StateView {
    /// What is current after a request was answered: what the answer is about,
    /// or else what the request is about, or else the fallback.
    pub open spec fn current_after(
        self,
        request: Request,
        response: Response,
        attached: Option<Seq<char>>,
    ) -> Option<TargetView> {
        if response_target(response) is Some {
            self.maybe_focus(response_target(response))
        } else {
            let named = self.maybe_focus(request_target(request));
            if named is None && falls_back(request) {
                self.fallback(attached)
            } else {
                named
            }
        }
    }
}

/// The target that an answer is about.
fn response_target_of(response: &Response) -> (r: Option<Target>)
    ensures
        r.deep_view() == response_target(*response),
{
    match response {
        Response::NewSession(success) | Response::RenameSession(success) => Some(
            Target::Session(success.session_name.clone()),
        ),
        Response::NewWindow(success)
        | Response::NextWindow(success)
        | Response::PreviousWindow(success)
        | Response::LastWindow(success)
        | Response::SelectWindow(success)
        | Response::RenameWindow(success)
        | Response::LinkWindow(success)
        | Response::UnlinkWindow(success) => Some(Target::Window(success.target.clone())),
        Response::RotateWindow(success) => Some(Target::Window(success.target.clone())),
        Response::SplitWindow(success) => Some(Target::Pane(success.pane.clone())),
        Response::LastPane(success) => Some(Target::Pane(success.target.clone())),
        Response::SelectPane(success) => Some(Target::Pane(success.target.clone())),
        Response::MovePane(success) => Some(Target::Pane(success.target.clone())),
        Response::BreakPane(success) => Some(Target::Pane(success.target.clone())),
        Response::PipePane(success) => Some(Target::Pane(success.target.clone())),
        Response::RespawnPane(success) => Some(Target::Pane(success.target.clone())),
        _ => None,
    }
}

/// The pane that may be meant, as a target.
fn optional_pane_of(pane: &Option<PaneTarget>) -> (r: Option<Target>)
    ensures
        r.deep_view() == optional_pane(*pane),
{
    match pane {
        Some(pane) => Some(Target::Pane(pane.clone())),
        None => None,
    }
}

/// What is current after a request was answered; see
/// [`StateView::current_after`].
pub fn target_for_request_response(
    state: &HandlerState,
    request: &Request,
    response: &Response,
    attached_session: Option<&SessionName>,
) -> (r: Option<Target>)
    ensures
        r.deep_view() == state@.current_after(*request, *response, attached_session.deep_view()),
{
    if let Some(target) = response_target_of(response) {
        return focus_of(state, &target);
    }
    let named: Option<Target> = match request {
        Request::NewSession(request) => {
            return active_session_target(state, &request.session_name);
        },
        Request::RenameSession(request) => {
            return active_session_target(state, &request.new_name);
        },
        Request::AttachSession(request)
        | Request::HasSession(request)
        | Request::KillSession(request)
        | Request::NewWindow(request)
        | Request::ListWindows(request)
        | Request::ListPanes(request) => {
            return active_session_target(state, &request.target);
        },
        Request::DisplayPanes(request) => {
            return active_session_target(state, &request.target);
        },
        Request::KillWindow(request)
        | Request::LinkWindow(request)
        | Request::UnlinkWindow(request)
        | Request::RotateWindow(request)
        | Request::ResizeWindow(request)
        | Request::RespawnWindow(request) => {
            return active_window_target(state, &request.target);
        },
        Request::MovePane(request)
        | Request::PipePane(request)
        | Request::RespawnPane(request)
        | Request::SendKeys(request)
        | Request::ResizePane(request)
        | Request::CapturePane(request)
        | Request::PaneSnapshot(request) => Some(Target::Pane(request.target.clone())),
        Request::KillPane(request) => Some(Target::Pane(request.target.clone())),
        Request::PasteBuffer(request) => Some(Target::Pane(request.target.clone())),
        Request::ClearHistory(request) => Some(Target::Pane(request.target.clone())),
        Request::CopyMode(request) => optional_pane_of(&request.target),
        Request::SendKeysExt(request) | Request::SendPrefix(request) => optional_pane_of(
            &request.target,
        ),
        Request::SwitchClientExt(request) => match &request.target {
            Some(name) => active_session_target(state, name),
            None => None,
        },
        Request::DisplayMessage(request) => match &request.target {
            Some(target) => focus_of(state, target),
            None => None,
        },
        Request::SetOption(request)
        | Request::SetEnvironment(request)
        | Request::SetHook(request)
        | Request::SetHookMutation(request)
        | Request::ShowEnvironment(request)
        | Request::ShowHooks(request) => target_for_scope_selector(state, &request.scope),
        Request::ShowOptions(request) | Request::SetOptionByName(request) => {
            target_for_option_scope(state, &request.scope)
        },
        _ => None,
    };
    match named {
        Some(target) => Some(target),
        None => fallback_current_target(state, attached_session),
    }
}

/// A target that is current names a pane or a window, never a whole session.
pub proof fn law_current_is_no_session(
    state: StateView,
    request: Request,
    response: Response,
    attached: Option<Seq<char>>,
)
    ensures
        !(state.current_after(request, response, attached) matches Some(TargetView::Session(_))),
{
}

} // verus!
