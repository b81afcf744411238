//! Sessions, windows and panes, and what becomes of them.
use rmux::error::{RmuxEndpoint, RmuxError};
use rmux::names::{PaneTarget, ProtoError, ScopeSelector, SessionName, Target, WindowTarget};
use rmux::protocol::{
    ErrorResponse, Request, ResolveTargetResponse, Response, SessionRequest, SessionResponse,
    WindowRequest, WindowResponse,
};
use rmux::session::{Pane, RotateWindowDirection, Session, Window};
use rmux::size::{from_winsize, into_winsize, TerminalSize};
use rmux::state::{HandlerState, PaneKey};
use rmux::table::Table;
use rmux::targets::{
    active_session_target, fallback_current_target, handle_resolve_target,
    resolve_existing_session_target, resolve_session_lookup, resolve_target_response,
    target_for_request_response, target_for_scope_selector, target_to_scope,
    unresolved_target_needs_current_session, ResolveTargetRequest, ResolveTargetType,
    SessionLookup,
};
use rmux::window_movement::{
    MoveWindowRequest, MoveWindowTarget, MovementResponse, Pending, Settled, Step, Touched,
};

fn name(text: &str) -> SessionName {
    SessionName::new(text)
}

fn at(session: &str, index: u32) -> WindowTarget {
    WindowTarget::with_window(name(session), index)
}

fn window(title: &str, ids: &[u32]) -> Window {
    Window {
        name: title.to_owned(),
        panes: ids
            .iter()
            .enumerate()
            .map(|(index, id)| Pane {
                index: index as u32,
                id: *id,
            })
            .collect(),
        active: Some(0),
        zoomed: false,
    }
}

fn add(state: &mut HandlerState, session: &str, id: u32, windows: &[(u32, &str, &[u32])]) {
    let mut table = Table::new();
    for (index, title, ids) in windows {
        table.insert(*index, window(title, ids));
        for pane in *ids {
            let key = || PaneKey {
                session_name: name(session),
                pane_id: *pane,
            };
            state.terminals.insert(key(), u64::from(*pane) + 100);
            state.pane_outputs.insert(key(), u64::from(*pane) + 200);
        }
    }
    state.terminal_sessions.insert(name(session));
    state.sessions.insert(
        name(session),
        Session {
            name: name(session),
            id,
            windows: table,
            active: windows[0].0,
        },
    );
}

fn two_sessions() -> HandlerState {
    let mut state = HandlerState::new();
    add(&mut state, "alpha", 1, &[(0, "zero", &[1]), (1, "one", &[2, 3])]);
    add(&mut state, "beta", 2, &[(0, "other", &[4]), (5, "five", &[5])]);
    state
}

fn title(state: &HandlerState, session: &str, index: u32) -> Option<String> {
    state
        .sessions
        .get(&name(session))
        .and_then(|session| session.window_at(index))
        .map(|window| window.name.clone())
}

fn active(state: &HandlerState, session: &str) -> u32 {
    state.sessions.get(&name(session)).expect("a session").active
}

fn terminal(state: &HandlerState, session: &str, pane: u32) -> Option<u64> {
    let key = PaneKey {
        session_name: name(session),
        pane_id: pane,
    };
    state.terminals.get(&key).copied()
}

fn applied(step: Step) -> Pending {
    match step {
        Step::Applied(pending) => pending,
        other => panic!("expected a change, got {other:?}"),
    }
}

fn refused(step: Step) -> ProtoError {
    match step {
        Step::Refused(error) => error,
        other => panic!("expected a refusal, got {other:?}"),
    }
}

fn server_error(text: &str) -> ProtoError {
    ProtoError::Server(text.to_owned())
}

#[test]
fn windows_change_places_within_a_session() {
    let mut state = two_sessions();
    let pending = applied(state.swap_window(at("alpha", 0), at("alpha", 1), false));
    assert_eq!(title(&state, "alpha", 0), Some("one".to_owned()));
    assert_eq!(title(&state, "alpha", 1), Some("zero".to_owned()));
    assert_eq!(active(&state, "alpha"), 0);
    match state.settle(pending, Ok(())) {
        Settled::Done(MovementResponse::Swap(response)) => {
            assert_eq!(response.source, at("alpha", 0));
            assert_eq!(response.target, at("alpha", 1));
        }
        other => panic!("expected a response, got {other:?}"),
    }
}

#[test]
fn a_swap_with_a_failed_resize_is_undone() {
    let mut state = two_sessions();
    state.mark_auto_named_window(&name("alpha"), 0);
    let pending = applied(state.swap_window(at("alpha", 0), at("alpha", 1), true));
    assert_eq!(active(&state, "alpha"), 1);
    assert!(state.tracks_auto_named_window(&name("alpha"), 1));
    let undone = match state.settle(pending, Err(server_error("no size"))) {
        Settled::Undone(undone) => undone,
        other => panic!("expected to be undone, got {other:?}"),
    };
    assert_eq!(title(&state, "alpha", 0), Some("zero".to_owned()));
    assert_eq!(active(&state, "alpha"), 0);
    assert!(state.tracks_auto_named_window(&name("alpha"), 0));
    assert!(matches!(&undone.touched, Touched::One(session) if *session == name("alpha")));
    assert_eq!(undone.conclude(Ok(())), server_error("no size"));
}

#[test]
fn a_swap_needs_both_windows() {
    let mut state = two_sessions();
    assert!(matches!(
        state.swap_window(at("alpha", 0), at("alpha", 9), false),
        Step::Refused(ProtoError::InvalidTarget { .. })
    ));
    assert_eq!(
        refused(state.swap_window(at("gamma", 0), at("gamma", 1), false)),
        ProtoError::SessionNotFound("gamma".to_owned())
    );
    assert_eq!(title(&state, "alpha", 0), Some("zero".to_owned()));
}

#[test]
fn grouped_sessions_do_not_swap_windows() {
    let mut state = two_sessions();
    state.session_groups.insert(name("alpha"), "group".to_owned());
    state.session_groups.insert(name("beta"), "group".to_owned());
    assert_eq!(
        refused(state.swap_window(at("alpha", 0), at("beta", 0), false)),
        server_error("can't move window, sessions are grouped")
    );
}

#[test]
fn windows_change_places_across_sessions_with_their_panes() {
    let mut state = two_sessions();
    let pending = applied(state.swap_window(at("alpha", 1), at("beta", 5), false));
    assert_eq!(title(&state, "alpha", 1), Some("five".to_owned()));
    assert_eq!(title(&state, "beta", 5), Some("one".to_owned()));
    assert_eq!(terminal(&state, "beta", 2), Some(102));
    assert_eq!(terminal(&state, "alpha", 5), Some(105));
    assert_eq!(terminal(&state, "alpha", 2), None);
    assert_eq!(pending.change.touched(), Touched::Two(name("alpha"), name("beta")));
    assert!(matches!(state.settle(pending, Ok(())), Settled::Done(_)));
}

#[test]
fn a_swap_across_sessions_can_be_undone() {
    let mut state = two_sessions();
    let pending = applied(state.swap_window(at("alpha", 1), at("beta", 5), false));
    assert!(matches!(
        state.settle(pending, Err(server_error("no size"))),
        Settled::Undone(_)
    ));
    assert_eq!(title(&state, "alpha", 1), Some("one".to_owned()));
    assert_eq!(title(&state, "beta", 5), Some("five".to_owned()));
    assert_eq!(terminal(&state, "alpha", 2), Some(102));
    assert_eq!(terminal(&state, "beta", 5), Some(105));
}

fn moving(source: Option<WindowTarget>, target: MoveWindowTarget) -> MoveWindowRequest {
    MoveWindowRequest {
        source,
        target,
        renumber: false,
        kill_destination: false,
        detached: false,
    }
}

#[test]
fn a_window_moves_within_its_session() {
    let mut state = two_sessions();
    let target = MoveWindowTarget::Window(at("alpha", 7));
    let pending = applied(state.move_window(moving(Some(at("alpha", 1)), target)));
    assert_eq!(title(&state, "alpha", 1), None);
    assert_eq!(title(&state, "alpha", 7), Some("one".to_owned()));
    assert_eq!(active(&state, "alpha"), 7);
    match state.settle(pending, Ok(())) {
        Settled::Done(MovementResponse::Move(response)) => {
            assert_eq!(response.target, Some(at("alpha", 7)));
        }
        other => panic!("expected a response, got {other:?}"),
    }
}

#[test]
fn a_window_takes_the_place_of_another_where_asked_to() {
    let mut state = two_sessions();
    let request = || moving(Some(at("alpha", 1)), MoveWindowTarget::Window(at("alpha", 0)));
    assert!(matches!(
        state.move_window(request()),
        Step::Refused(ProtoError::InvalidTarget { .. })
    ));
    let forced = MoveWindowRequest {
        kill_destination: true,
        ..request()
    };
    let pending = applied(state.move_window(forced));
    assert_eq!(title(&state, "alpha", 0), Some("one".to_owned()));
    assert_eq!(terminal(&state, "alpha", 1), None);
    assert!(matches!(
        state.settle(pending, Err(server_error("no size"))),
        Settled::Undone(_)
    ));
    assert_eq!(title(&state, "alpha", 0), Some("zero".to_owned()));
    assert_eq!(terminal(&state, "alpha", 1), Some(101));
}

#[test]
fn a_window_moves_to_another_session_with_its_panes() {
    let mut state = two_sessions();
    let target = MoveWindowTarget::Window(at("beta", 9));
    let pending = applied(state.move_window(moving(Some(at("alpha", 1)), target)));
    assert_eq!(title(&state, "alpha", 1), None);
    assert_eq!(title(&state, "beta", 9), Some("one".to_owned()));
    assert_eq!(terminal(&state, "beta", 3), Some(103));
    assert!(matches!(state.settle(pending, Ok(())), Settled::Done(_)));
}

#[test]
fn a_move_says_what_it_misses() {
    let mut state = two_sessions();
    let session = || MoveWindowTarget::Session(name("alpha"));
    assert_eq!(
        refused(state.move_window(moving(None, session()))),
        server_error("move-window requires a source window")
    );
    assert_eq!(
        refused(state.move_window(moving(Some(at("alpha", 0)), session()))),
        ProtoError::InvalidTarget {
            value: "alpha".to_owned(),
            reason: "move-window requires a destination window target".to_owned(),
        }
    );
    let renumber = |source: Option<WindowTarget>, target: MoveWindowTarget| MoveWindowRequest {
        renumber: true,
        ..moving(source, target)
    };
    assert_eq!(
        refused(state.move_window(renumber(Some(at("alpha", 0)), session()))),
        server_error("move-window -r does not accept a source window")
    );
    assert_eq!(
        refused(state.move_window(renumber(None, MoveWindowTarget::Window(at("alpha", 0))))),
        ProtoError::InvalidTarget {
            value: "alpha:0".to_owned(),
            reason: "move-window -r requires a session target".to_owned(),
        }
    );
}

#[test]
fn windows_are_numbered_anew() {
    let mut state = two_sessions();
    let request = MoveWindowRequest {
        renumber: true,
        ..moving(None, MoveWindowTarget::Session(name("beta")))
    };
    let pending = applied(state.move_window(request));
    assert_eq!(title(&state, "beta", 0), Some("other".to_owned()));
    assert_eq!(title(&state, "beta", 1), Some("five".to_owned()));
    assert_eq!(title(&state, "beta", 5), None);
    assert!(matches!(state.settle(pending, Ok(())), Settled::Done(_)));
}

#[test]
fn panes_rotate() {
    let mut state = two_sessions();
    let ids = |state: &HandlerState| {
        state
            .sessions
            .get(&name("alpha"))
            .and_then(|session| session.window_at(1))
            .expect("a window")
            .pane_ids()
    };
    let pending = applied(state.rotate_window(at("alpha", 1), RotateWindowDirection::Down, false));
    assert_eq!(ids(&state), vec![3, 2]);
    assert!(matches!(state.settle(pending, Ok(())), Settled::Done(_)));
    let pending = applied(state.rotate_window(at("alpha", 1), RotateWindowDirection::Up, true));
    assert_eq!(ids(&state), vec![2, 3]);
    assert!(matches!(state.settle(pending, Ok(())), Settled::Done(_)));
}

#[test]
fn links_tie_windows_together() {
    let mut state = two_sessions();
    let alpha = name("alpha");
    let beta = name("beta");
    assert_eq!(state.window_link_count(&alpha, 1), 1);
    state.attach_window_link_slot(&alpha, 1, &beta, 5);
    assert_eq!(state.window_link_count(&alpha, 1), 2);
    assert_eq!(state.window_link_count(&beta, 5), 2);
    assert_eq!(state.window_linked_session_count(&alpha, 1), 2);
    assert_eq!(
        state.window_linked_sessions_list(&beta, 5),
        vec![alpha.clone(), beta.clone()]
    );
    assert_eq!(state.runtime_session_name_for_window(&beta, 5), alpha);
    state.swap_window_link_slots(&alpha, 0, 1);
    assert_eq!(state.window_link_count(&alpha, 0), 2);
    assert_eq!(state.window_link_count(&alpha, 1), 1);
    state.swap_window_link_slots(&alpha, 0, 1);
    assert_eq!(state.window_link_count(&alpha, 1), 2);
    state.detach_window_link_slot(&beta, 5);
    assert_eq!(state.window_link_count(&alpha, 1), 1);
    assert_eq!(state.window_link_count(&beta, 5), 1);
}

#[test]
fn linked_windows_look_alike() {
    let mut state = two_sessions();
    state.attach_window_link_slot(&name("alpha"), 1, &name("beta"), 5);
    state
        .synchronize_linked_window_from_slot(&name("alpha"), 1)
        .expect("both windows exist");
    assert_eq!(title(&state, "beta", 5), Some("one".to_owned()));
}

#[test]
fn automatic_names_follow_links() {
    let mut state = two_sessions();
    let alpha = name("alpha");
    let beta = name("beta");
    state.attach_window_link_slot(&alpha, 1, &beta, 5);
    state.mark_auto_named_window(&alpha, 1);
    assert!(state.tracks_auto_named_window(&alpha, 1));
    state.clear_auto_named_window_family(&beta, 5);
    assert!(!state.tracks_auto_named_window(&alpha, 1));
    state.mark_auto_named_window(&alpha, 0);
    state.swap_auto_named_window_slots(&alpha, 0, &beta, 0);
    assert!(state.tracks_auto_named_window(&beta, 0));
    assert!(!state.tracks_auto_named_window(&alpha, 0));
    state.clear_auto_named_window(&beta, 0);
    assert!(!state.tracks_auto_named_window(&beta, 0));
}

#[test]
fn targets_lead_to_active_panes() {
    let state = two_sessions();
    let focus = Target::Pane(PaneTarget::with_window(name("alpha"), 0, 0));
    assert_eq!(active_session_target(&state, &name("alpha")), Some(focus.clone()));
    assert_eq!(active_session_target(&state, &name("gamma")), None);
    assert_eq!(
        target_for_scope_selector(&state, &ScopeSelector::Session(name("alpha"))),
        Some(focus.clone())
    );
    assert_eq!(fallback_current_target(&state, Some(&name("alpha"))), Some(focus));
    assert_eq!(
        target_to_scope(&Target::Session(name("alpha"))),
        ScopeSelector::Session(name("alpha"))
    );
}

#[test]
fn a_target_text_is_looked_up_from_what_is_current() {
    let state = two_sessions();
    let request = |target: Option<&str>| ResolveTargetRequest {
        target: target.map(|text| text.to_owned()),
        target_type: ResolveTargetType::Pane,
        window_index: true,
        prefer_unattached: false,
    };
    let lookup = handle_resolve_target(request(None), &state, &Some(name("alpha")));
    assert_eq!(
        lookup.current,
        Some(Target::Pane(PaneTarget::with_window(name("alpha"), 0, 0)))
    );
    assert!(lookup.window_index && !lookup.prefer_unattached);
    let lookup = handle_resolve_target(request(Some("beta:0")), &state, &Some(name("alpha")));
    assert_eq!(lookup.current, None);
    assert_eq!(lookup.target, Some("beta:0".to_owned()));
    assert_eq!(handle_resolve_target(request(Some("+")), &state, &None).current, None);
    let target = Target::Session(name("beta"));
    assert_eq!(
        resolve_target_response(Ok(target)),
        Response::ResolveTarget(ResolveTargetResponse {
            target: Target::Session(name("beta")),
        })
    );
    let error = ProtoError::SessionNotFound("gamma".to_owned());
    assert_eq!(
        resolve_target_response(Err(error)),
        Response::Error(ErrorResponse {
            error: ProtoError::SessionNotFound("gamma".to_owned()),
        })
    );
}

#[test]
fn lookups_tell_missing_from_failed() {
    assert_eq!(
        resolve_session_lookup(Ok(Target::Session(name("alpha")))),
        Ok(SessionLookup::Found(name("alpha")))
    );
    let missing = || ProtoError::InvalidTarget {
        value: "x".to_owned(),
        reason: "can't find session: x".to_owned(),
    };
    assert_eq!(resolve_session_lookup(Err(missing())), Ok(SessionLookup::Missing));
    assert_eq!(
        resolve_existing_session_target(Err(missing()), &name("x")),
        Err(ProtoError::SessionNotFound("x".to_owned()))
    );
    assert_eq!(
        resolve_session_lookup(Err(server_error("broken"))),
        Err(server_error("broken"))
    );
    assert_eq!(
        resolve_existing_session_target(Ok(Target::Session(name("alpha"))), &name("al")),
        Ok(name("alpha"))
    );
    assert!(unresolved_target_needs_current_session(":1"));
    assert!(!unresolved_target_needs_current_session("alpha:1"));
}

#[test]
fn a_request_leaves_a_current_target() {
    let state = two_sessions();
    let created = Response::NewWindow(WindowResponse { target: at("beta", 5) });
    let request = Request::NewWindow(SessionRequest { target: name("beta") });
    assert_eq!(
        target_for_request_response(&state, &request, &created, None),
        Some(Target::Pane(PaneTarget::with_window(name("beta"), 5, 0)))
    );
    let renamed = Response::RenameSession(SessionResponse {
        session_name: name("beta"),
    });
    let other = Request::KillWindow(WindowRequest { target: at("alpha", 1) });
    assert!(target_for_request_response(&state, &other, &renamed, Some(&name("alpha"))).is_some());
}

#[test]
fn sizes_survive_the_system() {
    let size = TerminalSize::new(80, 24);
    let raw = into_winsize(size);
    assert_eq!((raw.ws_col, raw.ws_row), (80, 24));
    assert_eq!(from_winsize(raw), size);
    assert_eq!(TerminalSize::default(), TerminalSize::new(0, 0));
}

#[test]
fn errors_explain_themselves() {
    let error = RmuxError::unsupported("popups", "use a window");
    assert_eq!(error.feature(), Some("popups"));
    assert_eq!(error.hint(), Some("use a window"));
    assert!(error.message().contains("popups"));
    let inner = RmuxError::protocol(server_error("no"));
    assert_eq!(inner.feature(), None);
    assert_eq!(inner.hint(), None);
    assert!(RmuxEndpoint::default().is_default());
    assert!(!RmuxEndpoint::WindowsPipe("x".to_owned()).is_default());
}
