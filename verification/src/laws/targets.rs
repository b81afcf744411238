//! Laws of the target that a command leaves as the current one.
use vstd::prelude::*;

use crate::laws::texts::law_character_occurs;
use crate::names::{
    ErrorView, OptionScopeSelector, ScopeSelector, SessionName, Target, TargetView,
};
use crate::protocol::{Request, Response};
use crate::state::StateView;
use crate::targets::{is_missing_session, needs_session, ResolveTargetRequest};
use crate::text;

verus! {

/// Whether a target text names no session of its own: it is empty, it begins with a
/// colon, a plus or a minus, or it has a dot but no colon.
pub open spec fn names_no_session(raw: Seq<char>) -> bool {
    ||| raw.len() == 0
    ||| raw[0] == ':'
    ||| raw[0] == '+'
    ||| raw[0] == '-'
    ||| raw.contains('.') && !raw.contains(':')
}

/// The active pane of the active window of a session.
pub open spec fn pane_in_session(state: StateView, name: Seq<char>) -> Option<TargetView> {
    let session = state.sessions[name];
    if state.sessions.contains_key(name) && session.windows.contains_key(session.active)
        && session.windows[session.active].active is Some {
        Some(
            TargetView::Pane(
                (name, session.active, session.windows[session.active].active->0),
            ),
        )
    } else {
        None
    }
}

/// The active pane of a window, or the window itself where no pane is active.
pub open spec fn pane_in_window(state: StateView, name: Seq<char>, index: u32) -> Option<
    TargetView,
> {
    let window = state.sessions[name].windows[index];
    if !state.sessions.contains_key(name) || !state.sessions[name].windows.contains_key(index) {
        None
    } else if window.active is Some {
        Some(TargetView::Pane((name, index, window.active->0)))
    } else {
        Some(TargetView::Window((name, index)))
    }
}

/// A text of one character is the beginning of the texts that begin with it.
proof fn lemma_begins_with(raw: Seq<char>, prefix: Seq<char>, c: char)
    requires
        prefix == seq![c],
    ensures
        text::has_prefix(raw, prefix) <==> raw.len() > 0 && raw[0] == c,
{
    if raw.len() > 0 {
        assert(raw.take(1) =~= seq![raw[0]]);
        assert(raw.take(1)[0] == raw[0]);
        assert(prefix[0] == c);
    }
}

/// A target text that names no session of its own is understood from the active pane
/// of the preferred session, and so is a missing one. For any other text, and where
/// no session is preferred, nothing is current.
pub proof fn law_texts_without_session_need_one(
    request: ResolveTargetRequest,
    state: StateView,
    preferred: Option<SessionName>,
)
    ensures
        preferred is None ==> request.spec_current(state, preferred) is None,
        (preferred is Some && (request.target is None || names_no_session(request.target->0@)))
            ==> request.spec_current(state, preferred) == pane_in_session(state, preferred->0@),
        (request.target matches Some(raw) && !names_no_session(raw@)) ==> request.spec_current(
            state,
            preferred,
        ) is None,
{
    if let Some(target) = request.target {
        lemma_names_no_session(target@);
    }
}

/// The texts that need a current session are those that name none.
pub proof fn lemma_names_no_session(raw: Seq<char>)
    ensures
        needs_session(raw) <==> names_no_session(raw),
{
    reveal_strlit(".");
    reveal_strlit(":");
    reveal_strlit("+");
    reveal_strlit("-");
    assert("."@ =~= seq!['.']);
    assert(":"@ =~= seq![':']);
    assert("+"@ =~= seq!['+']);
    assert("-"@ =~= seq!['-']);
    lemma_begins_with(raw, ":"@, ':');
    lemma_begins_with(raw, "+"@, '+');
    lemma_begins_with(raw, "-"@, '-');
    law_character_occurs(raw, "."@, '.');
    law_character_occurs(raw, ":"@, ':');
    if raw == "."@ {
        assert(raw[0] == '.');
        assert(raw.contains('.'));
        assert(!raw.contains(':'));
    }
}

/// What is current when a target is meant: of a session the active pane of its active
/// window, of a window its active pane, and a pane itself.
pub proof fn law_focus(state: StateView, target: TargetView)
    ensures
        state.focus(target) == match target {
            TargetView::Session(name) => pane_in_session(state, name),
            TargetView::Window(slot) => pane_in_window(state, slot.0, slot.1),
            TargetView::Pane(spot) => Some(TargetView::Pane(spot)),
        },
{
}

/// Without a target of its own a command is about the attached session, or else about
/// the session whose name comes before all others.
pub proof fn law_fallback(state: StateView, attached: Option<Seq<char>>, first: Seq<char>)
    ensures
        (attached is Some && pane_in_session(state, attached->0) is Some) ==> state.fallback(
            attached,
        ) == pane_in_session(state, attached->0),
        (!(attached is Some && pane_in_session(state, attached->0) is Some)
            && state.sessions.contains_key(first) && forall|other: Seq<char>|
            #![trigger state.sessions.contains_key(other)]
            state.sessions.contains_key(other) ==> text::comes_first(first, other))
            ==> state.fallback(attached) == pane_in_session(state, first),
        (!(attached is Some && pane_in_session(state, attached->0) is Some) && forall|
            other: Seq<char>,
        |
            !(#[trigger] state.sessions.contains_key(other))) ==> state.fallback(attached) is None,
{
    if state.is_first_session(first) {
        let chosen = state.first_session();
        assert(state.is_first_session(chosen));
        text::lemma_comes_first_same(first, chosen);
    }
}

/// A session is missing where the lookup of a target says so at its beginning.
pub proof fn law_missing_session(value: Seq<char>, rest: Seq<char>, error: ErrorView)
    ensures
        is_missing_session(ErrorView::InvalidTarget(value, "can't find session: "@ + rest)),
        !(error is InvalidTarget) ==> !is_missing_session(error),
        is_missing_session(error) ==> exists|name: Seq<char>|
            error->InvalidTarget_1 == #[trigger] ("can't find session: "@ + name),
{
    crate::laws::texts::law_prefix("can't find session: "@ + rest, "can't find session: "@);
    if let ErrorView::InvalidTarget(_, reason) = error {
        crate::laws::texts::law_prefix(reason, "can't find session: "@);
    }
}

/// What an answer names is current, whatever was asked: the window that was made or
/// chosen, the pane that was split off, moved or chosen, the session that was made or
/// renamed.
pub proof fn law_answers_name_the_current_target(
    state: StateView,
    request: Request,
    response: Response,
    attached: Option<Seq<char>>,
)
    ensures
        ({
            let current = state.current_after(request, response, attached);
            match response {
                Response::NewSession(r) => current == pane_in_session(state, r.session_name@),
                Response::RenameSession(r) => current == pane_in_session(state, r.session_name@),
                Response::NewWindow(r) => current == pane_in_window(
                    state,
                    r.target@.0,
                    r.target@.1,
                ),
                Response::NextWindow(r) => current == pane_in_window(
                    state,
                    r.target@.0,
                    r.target@.1,
                ),
                Response::PreviousWindow(r) => current == pane_in_window(
                    state,
                    r.target@.0,
                    r.target@.1,
                ),
                Response::LastWindow(r) => current == pane_in_window(
                    state,
                    r.target@.0,
                    r.target@.1,
                ),
                Response::SelectWindow(r) => current == pane_in_window(
                    state,
                    r.target@.0,
                    r.target@.1,
                ),
                Response::RenameWindow(r) => current == pane_in_window(
                    state,
                    r.target@.0,
                    r.target@.1,
                ),
                Response::LinkWindow(r) => current == pane_in_window(
                    state,
                    r.target@.0,
                    r.target@.1,
                ),
                Response::UnlinkWindow(r) => current == pane_in_window(
                    state,
                    r.target@.0,
                    r.target@.1,
                ),
                Response::RotateWindow(r) => current == pane_in_window(
                    state,
                    r.target@.0,
                    r.target@.1,
                ),
                Response::SplitWindow(r) => current == Some(TargetView::Pane(r.pane@)),
                Response::LastPane(r) => current == Some(TargetView::Pane(r.target@)),
                Response::SelectPane(r) => current == Some(TargetView::Pane(r.target@)),
                Response::MovePane(r) => current == Some(TargetView::Pane(r.target@)),
                Response::BreakPane(r) => current == Some(TargetView::Pane(r.target@)),
                Response::PipePane(r) => current == Some(TargetView::Pane(r.target@)),
                Response::RespawnPane(r) => current == Some(TargetView::Pane(r.target@)),
                _ => true,
            }
        }),
{
}

/// The target of a scope that a command names.
pub open spec fn at_scope(state: StateView, scope: ScopeSelector) -> Option<TargetView> {
    match scope {
        ScopeSelector::Global => None,
        ScopeSelector::Session(name) => pane_in_session(state, name@),
        ScopeSelector::Window(window) => pane_in_window(state, window@.0, window@.1),
        ScopeSelector::Pane(pane) => Some(TargetView::Pane(pane@)),
    }
}

/// The target of an option scope that a command names.
pub open spec fn at_option_scope(state: StateView, scope: OptionScopeSelector) -> Option<
    TargetView,
> {
    match scope {
        OptionScopeSelector::Session(name) => pane_in_session(state, name@),
        OptionScopeSelector::Window(window) => pane_in_window(state, window@.0, window@.1),
        OptionScopeSelector::Pane(pane) => Some(TargetView::Pane(pane@)),
        _ => None,
    }
}

/// Whether an answer names a target.
pub open spec fn answer_names_target(response: Response) -> bool {
    match response {
        Response::NewSession(_)
        | Response::RenameSession(_)
        | Response::NewWindow(_)
        | Response::NextWindow(_)
        | Response::PreviousWindow(_)
        | Response::LastWindow(_)
        | Response::SelectWindow(_)
        | Response::RenameWindow(_)
        | Response::LinkWindow(_)
        | Response::UnlinkWindow(_)
        | Response::RotateWindow(_)
        | Response::SplitWindow(_)
        | Response::LastPane(_)
        | Response::SelectPane(_)
        | Response::MovePane(_)
        | Response::BreakPane(_)
        | Response::PipePane(_)
        | Response::RespawnPane(_) => true,
        _ => false,
    }
}

/// Where the answer names nothing, what was asked about is current. Where the request
/// names nothing that is there either, the attached session or the first one is,
/// except after a request that always names a session, a window or a pane.
pub proof fn law_requests_name_the_current_target(
    state: StateView,
    request: Request,
    response: Response,
    attached: Option<Seq<char>>,
)
    requires
        !answer_names_target(response),
    ensures
        ({
            let current = state.current_after(request, response, attached);
            let or_else = |named: Option<TargetView>|
                if named is Some {
                    named
                } else {
                    state.fallback(attached)
                };
            match request {
                Request::NewSession(r) => current == pane_in_session(state, r.session_name@),
                Request::RenameSession(r) => current == pane_in_session(state, r.new_name@),
                Request::AttachSession(r) => current == pane_in_session(state, r.target@),
                Request::HasSession(r) => current == pane_in_session(state, r.target@),
                Request::KillSession(r) => current == pane_in_session(state, r.target@),
                Request::NewWindow(r) => current == pane_in_session(state, r.target@),
                Request::ListWindows(r) => current == pane_in_session(state, r.target@),
                Request::ListPanes(r) => current == pane_in_session(state, r.target@),
                Request::DisplayPanes(r) => current == pane_in_session(state, r.target@),
                Request::KillWindow(r) => current == pane_in_window(
                    state,
                    r.target@.0,
                    r.target@.1,
                ),
                Request::LinkWindow(r) => current == pane_in_window(
                    state,
                    r.target@.0,
                    r.target@.1,
                ),
                Request::UnlinkWindow(r) => current == pane_in_window(
                    state,
                    r.target@.0,
                    r.target@.1,
                ),
                Request::RotateWindow(r) => current == pane_in_window(
                    state,
                    r.target@.0,
                    r.target@.1,
                ),
                Request::ResizeWindow(r) => current == pane_in_window(
                    state,
                    r.target@.0,
                    r.target@.1,
                ),
                Request::RespawnWindow(r) => current == pane_in_window(
                    state,
                    r.target@.0,
                    r.target@.1,
                ),
                Request::MovePane(r) => current == Some(TargetView::Pane(r.target@)),
                Request::PipePane(r) => current == Some(TargetView::Pane(r.target@)),
                Request::RespawnPane(r) => current == Some(TargetView::Pane(r.target@)),
                Request::SendKeys(r) => current == Some(TargetView::Pane(r.target@)),
                Request::ResizePane(r) => current == Some(TargetView::Pane(r.target@)),
                Request::CapturePane(r) => current == Some(TargetView::Pane(r.target@)),
                Request::PaneSnapshot(r) => current == Some(TargetView::Pane(r.target@)),
                Request::KillPane(r) => current == Some(TargetView::Pane(r.target@)),
                Request::PasteBuffer(r) => current == Some(TargetView::Pane(r.target@)),
                Request::ClearHistory(r) => current == Some(TargetView::Pane(r.target@)),
                Request::CopyMode(r) => current == match r.target {
                    Some(pane) => Some(TargetView::Pane(pane@)),
                    None => state.fallback(attached),
                },
                Request::SendKeysExt(r) => current == match r.target {
                    Some(pane) => Some(TargetView::Pane(pane@)),
                    None => state.fallback(attached),
                },
                Request::SendPrefix(r) => current == match r.target {
                    Some(pane) => Some(TargetView::Pane(pane@)),
                    None => state.fallback(attached),
                },
                Request::SwitchClientExt(r) => current == match r.target {
                    Some(name) => or_else(pane_in_session(state, name@)),
                    None => state.fallback(attached),
                },
                Request::DisplayMessage(r) => current == match r.target {
                    Some(Target::Session(name)) => or_else(pane_in_session(state, name@)),
                    Some(Target::Window(window)) => or_else(
                        pane_in_window(state, window@.0, window@.1),
                    ),
                    Some(Target::Pane(pane)) => Some(TargetView::Pane(pane@)),
                    None => state.fallback(attached),
                },
                Request::SetOption(r) => current == or_else(at_scope(state, r.scope)),
                Request::SetEnvironment(r) => current == or_else(at_scope(state, r.scope)),
                Request::SetHook(r) => current == or_else(at_scope(state, r.scope)),
                Request::SetHookMutation(r) => current == or_else(at_scope(state, r.scope)),
                Request::ShowEnvironment(r) => current == or_else(at_scope(state, r.scope)),
                Request::ShowHooks(r) => current == or_else(at_scope(state, r.scope)),
                Request::ShowOptions(r) => current == or_else(at_option_scope(state, r.scope)),
                Request::SetOptionByName(r) => current == or_else(at_option_scope(state, r.scope)),
                _ => current == state.fallback(attached),
            }
        }),
{
}

} // verus!
