//! Moving, swapping, rotating and renumbering windows.
//!
//! A change is made in two steps. The first puts it in place and says what is
//! needed to take it back; the terminals are then resized, and the second step
//! settles the change: it stays when the terminals followed, and is taken back
//! as a whole when they did not.
use vstd::prelude::*;

use crate::names::{slot_text, ErrorView, ProtoError, SessionName, Slot, WindowTarget};
use crate::session::{
    lemma_window_order, window_order, RotateWindowDirection, Session, SessionView,
};
use crate::state::{
    exchange, hand_over, lemma_all_present, lemma_none_missing, lemma_panes_in_order,
    lemma_put_back, moved_panes, put_batch, session_pane_ids, swapped_panes,
    take_batch, with_batch, without, HandlerState, StateView,
};
use crate::table::{Dup, Key, Table};
use crate::window_links::{law_swap_auto_names_twice, law_swap_links_twice};

verus! {

/// Where a window moves.
#[derive(Debug, PartialEq, Eq)]
pub enum MoveWindowTarget {
    /// A session, whose windows are renumbered.
    Session(SessionName),
    /// A window position.
    Window(WindowTarget),
}

/// A request to move a window.
#[derive(Debug, PartialEq, Eq)]
pub struct MoveWindowRequest {
    /// The window to move.
    pub source: Option<WindowTarget>,
    /// Where it moves.
    pub target: MoveWindowTarget,
    /// Whether the windows of a session are renumbered instead.
    pub renumber: bool,
    /// Whether a window at the target gives way.
    pub kill_destination: bool,
    /// Whether the moved window stays in the background.
    pub detached: bool,
}

/// The answer to a [`MoveWindowRequest`].
#[derive(Debug, PartialEq, Eq)]
pub struct MoveWindowResponse {
    /// The session in which windows moved.
    pub session_name: SessionName,
    /// Where the window is now.
    pub target: Option<WindowTarget>,
}

/// The answer to a request to swap two windows.
#[derive(Debug, PartialEq, Eq)]
pub struct SwapWindowResponse {
    /// The first window.
    pub source: WindowTarget,
    /// The second window.
    pub target: WindowTarget,
}

/// The answer to a request to rotate the panes of a window.
#[derive(Debug, PartialEq, Eq)]
pub struct RotateWindowResponse {
    /// The window.
    pub target: WindowTarget,
}

/// The answer to a change.
#[derive(Debug, PartialEq, Eq)]
pub enum MovementResponse {
    /// A window moved, or windows were renumbered.
    Move(MoveWindowResponse),
    /// Two windows changed places.
    Swap(SwapWindowResponse),
    /// The panes of a window rotated.
    Rotate(RotateWindowResponse),
}

/// The mathematical value of a [`MovementResponse`].
pub enum ResponseView {
    /// A window moved, or windows were renumbered.
    Move(Seq<char>, Option<Slot>),
    /// Two windows changed places.
    Swap(Slot, Slot),
    /// The panes of a window rotated.
    Rotate(Slot),
}

impl View for MovementResponse {
    type V = ResponseView;

    open spec fn view(&self) -> ResponseView {
        match self {
            MovementResponse::Move(r) => ResponseView::Move(
                r.session_name@,
                match r.target {
                    Some(target) => Some(target@),
                    None => None,
                },
            ),
            MovementResponse::Swap(r) => ResponseView::Swap(r.source@, r.target@),
            MovementResponse::Rotate(r) => ResponseView::Rotate(r.target@),
        }
    }
}

/// The sessions whose terminals a change concerns.
#[derive(Debug, PartialEq, Eq)]
pub enum Touched {
    /// One session.
    One(SessionName),
    /// A source session and a target session.
    Two(SessionName, SessionName),
}

/// The mathematical value of [`Touched`].
pub enum TouchedView {
    /// One session.
    One(Seq<char>),
    /// A source session and a target session.
    Two(Seq<char>, Seq<char>),
}

impl View for Touched {
    type V = TouchedView;

    open spec fn view(&self) -> TouchedView {
        match self {
            Touched::One(name) => TouchedView::One(name@),
            Touched::Two(source, target) => TouchedView::Two(source@, target@),
        }
    }
}

/// What is needed to take a change back.
#[derive(Debug)]
pub enum Change {
    /// One session changed.
    Session {
        /// The name of the session.
        name: SessionName,
        /// What it was.
        previous: Session,
    },
    /// Two windows of a session changed places.
    SwapWithin {
        /// The name of the session.
        name: SessionName,
        /// The index of the first window.
        source_index: u32,
        /// The index of the second window.
        target_index: u32,
        /// What the session was.
        previous: Session,
    },
    /// A window moved within its session.
    MoveWithin {
        /// The name of the session.
        name: SessionName,
        /// What the session was.
        previous: Session,
        /// The terminals of the window that gave way.
        terminals: Table<u32, u64>,
        /// The outputs of the window that gave way.
        outputs: Table<u32, u64>,
    },
    /// Windows of two sessions changed places.
    SwapAcross {
        /// The position of the first window.
        source: WindowTarget,
        /// The position of the second window.
        target: WindowTarget,
        /// What the source session was.
        previous_source: Session,
        /// What the target session was.
        previous_target: Session,
        /// The panes that came from the source.
        source_ids: Vec<u32>,
        /// The panes that came from the target.
        target_ids: Vec<u32>,
    },
    /// A window moved to another session.
    MoveAcross {
        /// The session that the window left.
        source_name: SessionName,
        /// The session that the window came to.
        target_name: SessionName,
        /// What the source session was.
        previous_source: Session,
        /// What the target session was.
        previous_target: Session,
        /// The panes that moved.
        ids: Vec<u32>,
        /// The terminals of the window that gave way.
        terminals: Table<u32, u64>,
        /// The outputs of the window that gave way.
        outputs: Table<u32, u64>,
    },
}

impl Change {
    /// Whether the change is between two different sessions, where it is said
    /// to be between two.
    pub open spec fn wf(self) -> bool {
        match self {
            Change::SwapAcross { source, target, .. } => source.session_name@
                != target.session_name@,
            Change::MoveAcross { source_name, target_name, .. } => source_name@ != target_name@,
            _ => true,
        }
    }

    /// The state from before the change, given the one after it.
    pub open spec fn undone(self, state: StateView) -> StateView {
        match self {
            Change::Session { name, previous } => state.with_session(name@, previous@),
            Change::SwapWithin { name, source_index, target_index, previous } => {
                let a = (name@, source_index);
                let b = (name@, target_index);
                state.auto_swapped(a, b).links_swapped(a, b).with_session(name@, previous@)
            },
            Change::MoveWithin { name, previous, terminals, outputs } => StateView {
                terminals: with_batch(state.terminals, name@, terminals@),
                outputs: with_batch(state.outputs, name@, outputs@),
                ..state.with_session(name@, previous@)
            },
            Change::SwapAcross {
                source,
                target,
                previous_source,
                previous_target,
                source_ids,
                target_ids,
            } => {
                let a = source@.0;
                let b = target@.0;
                StateView {
                    terminals: swapped_panes(state.terminals, a, target_ids@, b, source_ids@),
                    outputs: swapped_panes(state.outputs, a, target_ids@, b, source_ids@),
                    ..state.auto_swapped(source@, target@).with_session(
                        a,
                        previous_source@,
                    ).with_session(b, previous_target@)
                }
            },
            Change::MoveAcross {
                source_name,
                target_name,
                previous_source,
                previous_target,
                ids,
                terminals,
                outputs,
            } => StateView {
                terminals: with_batch(
                    moved_panes(state.terminals, target_name@, source_name@, ids@),
                    target_name@,
                    terminals@,
                ),
                outputs: with_batch(
                    moved_panes(state.outputs, target_name@, source_name@, ids@),
                    target_name@,
                    outputs@,
                ),
                ..state.with_session(source_name@, previous_source@).with_session(
                    target_name@,
                    previous_target@,
                )
            },
        }
    }

    /// The sessions whose terminals the change concerns.
    pub open spec fn spec_touched(self) -> TouchedView {
        match self {
            Change::Session { name, .. } => TouchedView::One(name@),
            Change::SwapWithin { name, .. } => TouchedView::One(name@),
            Change::MoveWithin { name, .. } => TouchedView::One(name@),
            Change::SwapAcross { source, target, .. } => TouchedView::Two(
                source.session_name@,
                target.session_name@,
            ),
            Change::MoveAcross { source_name, target_name, .. } => TouchedView::Two(
                source_name@,
                target_name@,
            ),
        }
    }

    /// The sessions whose terminals the change concerns.
    pub fn touched(&self) -> (r: Touched)
        ensures
            r@ == self.spec_touched(),
    {
        match self {
            Change::Session { name, .. } => Touched::One(name.clone()),
            Change::SwapWithin { name, .. } => Touched::One(name.clone()),
            Change::MoveWithin { name, .. } => Touched::One(name.clone()),
            Change::SwapAcross { source, target, .. } => Touched::Two(
                source.session_name.clone(),
                target.session_name.clone(),
            ),
            Change::MoveAcross { source_name, target_name, .. } => Touched::Two(
                source_name.clone(),
                target_name.clone(),
            ),
        }
    }
}

/// A change that is in place and not settled yet.
#[derive(Debug)]
pub struct Pending {
    /// How to take it back.
    pub change: Change,
    /// What is answered when it stays.
    pub response: MovementResponse,
}

/// A change that was taken back. The terminals are to be resized once more.
#[derive(Debug)]
pub struct Undone {
    /// Why it was taken back.
    pub error: ProtoError,
    /// The sessions whose terminals it concerned.
    pub touched: Touched,
}

/// What came of the first step of a change.
#[derive(Debug)]
pub enum Step {
    /// Nothing was changed.
    Refused(ProtoError),
    /// The change failed half way and was taken back.
    Undone(Undone),
    /// The change is in place.
    Applied(Pending),
}

/// What is to come of the first step of a change.
pub enum StepView {
    /// Nothing is changed.
    Refused(ErrorView),
    /// The change fails half way and is taken back.
    Undone(ErrorView, TouchedView),
    /// The state with the change in place, the answer when it stays, and the
    /// sessions whose terminals it concerns, in order.
    Applied(StateView, ResponseView, TouchedView),
}

/// Whether the first step of a change did what `expected` says: nothing is
/// changed unless the change is in place, and then it can be taken back.
pub open spec fn stepped(
    before: StateView,
    after: StateView,
    r: Step,
    expected: StepView,
) -> bool {
    match r {
        Step::Refused(error) => expected == StepView::Refused(error@) && after == before,
        Step::Undone(undone) => expected == StepView::Undone(undone.error@, undone.touched@)
            && after == before,
        Step::Applied(pending) => {
            &&& expected == StepView::Applied(
                after,
                pending.response@,
                pending.change.spec_touched(),
            )
            &&& pending.change.wf()
            &&& pending.change.undone(after) == before
        },
    }
}

/// What came of settling a change.
#[derive(Debug)]
pub enum Settled {
    /// The change stays.
    Done(MovementResponse),
    /// The change stays, but the groups of its sessions did not follow.
    Failed(ProtoError),
    /// The change was taken back.
    Undone(Undone),
}

impl StateView {
    /// Lets the groups of the sessions of a change follow, the source first:
    /// the state that comes out, and the error.
    pub open spec fn followed(self, touched: TouchedView) -> (StateView, Option<ErrorView>) {
        match touched {
            TouchedView::One(name) => match self.synchronized(name) {
                Ok(state) => (state, None),
                Err(error) => (self, Some(error)),
            },
            TouchedView::Two(source, target) => match self.synchronized(source) {
                Ok(state) => match state.synchronized(target) {
                    Ok(last) => (last, None),
                    Err(error) => (state, Some(error)),
                },
                Err(error) => (self, Some(error)),
            },
        }
    }

    /// The first step of a change to one session alone.
    pub open spec fn mutated(
        self,
        name: Seq<char>,
        changed: Result<SessionView, ErrorView>,
        response: ResponseView,
    ) -> StepView {
        if !self.sessions.contains_key(name) {
            StepView::Refused(ErrorView::SessionNotFound(name))
        } else {
            match changed {
                Ok(session) => StepView::Applied(
                    self.with_session(name, session),
                    response,
                    TouchedView::One(name),
                ),
                Err(error) => StepView::Refused(error),
            }
        }
    }

    /// The first step of exchanging two windows of a session. In the
    /// background, the second position becomes the active one.
    pub open spec fn swap_within(self, a: Slot, b: Slot, detached: bool) -> StepView {
        let name = a.0;
        if !self.sessions.contains_key(name) {
            StepView::Refused(ErrorView::SessionNotFound(name))
        } else {
            let session = self.sessions[name];
            match self.pane_refusal(name, session.all_pane_ids()) {
                Some(error) => StepView::Refused(error),
                None => match session.swap_windows(a.1, b.1) {
                    Err(error) => StepView::Refused(error),
                    Ok(swapped) => {
                        let shown = if detached {
                            SessionView { active: b.1, ..swapped }
                        } else {
                            swapped
                        };
                        StepView::Applied(
                            self.with_session(name, shown).links_swapped(a, b).auto_swapped(a, b),
                            ResponseView::Swap(a, b),
                            TouchedView::One(name),
                        )
                    },
                },
            }
        }
    }

    /// The panes of the window that gives way to one moved from `from`.
    pub open spec fn displaced(self, name: Seq<char>, from: u32, to: u32, kill: bool) -> Seq<u32> {
        if kill && from != to && self.sessions[name].windows.contains_key(to) {
            self.sessions[name].windows[to].pane_ids()
        } else {
            Seq::empty()
        }
    }

    /// The first step of moving a window within its session. It becomes the
    /// active one unless it moves in the background, and does so even then when
    /// it takes the place of the active one.
    pub open spec fn move_within(self, source: Slot, to: u32, kill: bool, detached: bool) -> StepView {
        let name = source.0;
        if !self.sessions.contains_key(name) {
            StepView::Refused(ErrorView::SessionNotFound(name))
        } else {
            let session = self.sessions[name];
            let select = !detached || (kill && session.active == to);
            match self.pane_refusal(name, session.all_pane_ids()) {
                Some(error) => StepView::Refused(error),
                None => match session.move_window(source.1, to, kill, select) {
                    Err(error) => StepView::Refused(error),
                    Ok(moved) => {
                        let gone = self.displaced(name, source.1, to, kill);
                        StepView::Applied(
                            StateView {
                                terminals: without(self.terminals, name, gone),
                                outputs: without(self.outputs, name, gone),
                                ..self.with_session(name, moved)
                            },
                            ResponseView::Move(name, Some((name, to))),
                            TouchedView::One(name),
                        )
                    },
                },
            }
        }
    }
}

impl Undone {
    /// The words for a change that could not be taken back cleanly.
    pub open spec fn rollback_failure(name: Seq<char>, error: ErrorView, rollback: ErrorView) -> ErrorView {
        ErrorView::Server(
            "failed to roll back session "@ + name + " after "@ + error.message() + ": "@
                + rollback.message(),
        )
    }

    /// The error that a change ends in, once it is known whether the terminals
    /// could be resized back. Between two sessions, a failure of that comes
    /// first; within one, it is reported together with what led to it.
    pub fn conclude(self, resized: Result<(), ProtoError>) -> (r: ProtoError)
        ensures
            r@ == match resized {
                Ok(_) => self.error@,
                Err(rollback) => match self.touched@ {
                    TouchedView::One(name) => Undone::rollback_failure(
                        name,
                        self.error@,
                        rollback@,
                    ),
                    TouchedView::Two(_, _) => rollback@,
                },
            },
    {
        match resized {
            Ok(()) => self.error,
            Err(rollback) => match self.touched {
                Touched::One(name) => {
                    let mut message = "failed to roll back session ".to_owned();
                    message.append(&name.value);
                    message.append(" after ");
                    let cause = self.error.message();
                    message.append(&cause);
                    message.append(": ");
                    let second = rollback.message();
                    message.append(&second);
                    ProtoError::Server(message)
                },
                Touched::Two(_, _) => rollback,
            },
        }
    }
}

/// The target of a move in words.
pub open spec fn target_text(target: MoveWindowTarget) -> Seq<char> {
    match target {
        MoveWindowTarget::Session(name) => name@,
        MoveWindowTarget::Window(window) => slot_text(window@),
    }
}

/// Computes [`target_text`].
pub fn request_target_string(target: &MoveWindowTarget) -> (r: String)
    ensures
        r@ == target_text(*target),
{
    match target {
        MoveWindowTarget::Session(name) => name.value.clone(),
        MoveWindowTarget::Window(window) => window.to_text(),
    }
}

impl HandlerState {
    /// Moves a window, or renumbers the windows of a session.
    pub fn move_window(&mut self, request: MoveWindowRequest) -> (r: Step)
        ensures
            stepped(
                old(self)@,
                final(self)@,
                r,
                old(self)@.move_step(request),
            ),
    {
        if request.renumber {
            return self.reindex_windows(request);
        }
        let source = match request.source {
            Some(source) => source,
            None => {
                return Step::Refused(
                    ProtoError::Server("move-window requires a source window".to_owned()),
                );
            },
        };
        let target = match request.target {
            MoveWindowTarget::Window(target) => target,
            MoveWindowTarget::Session(_) => {
                return Step::Refused(
                    ProtoError::invalid_target(
                        source.session_name.value,
                        "move-window requires a destination window target",
                    ),
                );
            },
        };
        if source.session_name.same(&target.session_name) {
            self.move_window_within_session(
                source,
                target.window_index,
                request.kill_destination,
                request.detached,
            )
        } else {
            self.move_window_across_sessions(
                source,
                target,
                request.kill_destination,
                request.detached,
            )
        }
    }

    /// Exchanges two windows. Those of different sessions in one group cannot
    /// change places.
    pub fn swap_window(&mut self, source: WindowTarget, target: WindowTarget, detached: bool) -> (r:
        Step)
        ensures
            stepped(
                old(self)@,
                final(self)@,
                r,
                old(self)@.swap_step(source@, target@, detached),
            ),
    {
        let ghost before = self@;
        if !source.session_name.same(&target.session_name) {
            if self.in_one_group(&source.session_name, &target.session_name) {
                return Step::Refused(
                    ProtoError::Server("can't move window, sessions are grouped".to_owned()),
                );
            }
            return self.swap_window_across_sessions(source, target, detached);
        }
        let session_name = source.session_name.clone();
        let previous = match self.session_copy(&session_name) {
            Ok(session) => session,
            Err(error) => {
                return Step::Refused(error);
            },
        };
        let ids = session_pane_ids(&previous);
        if let Err(error) = self.ensure_panes_exist(&session_name, &ids) {
            return Step::Refused(error);
        }
        let mut session = previous.dup();
        if let Err(error) = session.swap_windows(source.window_index, target.window_index) {
            return Step::Refused(error);
        }
        if detached {
            session.active = target.window_index;
        }
        self.replace_session(&session_name, session);
        self.swap_window_link_slots(&session_name, source.window_index, target.window_index);
        self.swap_auto_named_window_slots(
            &session_name,
            source.window_index,
            &session_name,
            target.window_index,
        );
        proof {
            let a = source@;
            let b = target@;
            let shown = before.with_session(a.0, self@.sessions[a.0]);
            law_swap_links_twice(shown, a, b);
            law_swap_auto_names_twice(shown.links_swapped(a, b), a, b);
            assert(shown.with_session(a.0, previous@) =~= before);
        }
        Step::Applied(
            Pending {
                change: Change::SwapWithin {
                    name: session_name,
                    source_index: source.window_index,
                    target_index: target.window_index,
                    previous,
                },
                response: MovementResponse::Swap(SwapWindowResponse { source, target }),
            },
        )
    }

    /// Rotates the panes of a window.
    pub fn rotate_window(
        &mut self,
        target: WindowTarget,
        direction: RotateWindowDirection,
        restore_zoom: bool,
    ) -> (r: Step)
        ensures
            stepped(
                old(self)@,
                final(self)@,
                r,
                old(self)@.mutated(
                    target@.0,
                    old(self)@.sessions[target@.0].rotate_window(
                        target@.1,
                        direction,
                        restore_zoom,
                    ),
                    ResponseView::Rotate(target@),
                ),
            ),
    {
        let ghost before = self@;
        let session_name = target.session_name.clone();
        let previous = match self.session_copy(&session_name) {
            Ok(session) => session,
            Err(error) => {
                return Step::Refused(error);
            },
        };
        let mut session = previous.dup();
        let rotated = if restore_zoom {
            session.rotate_window_with_zoom(target.window_index, direction, true)
        } else {
            session.rotate_window(target.window_index, direction)
        };
        if let Err(error) = rotated {
            return Step::Refused(error);
        }
        self.replace_session(&session_name, session);
        assert(self@.with_session(session_name@, previous@) =~= before);
        Step::Applied(
            Pending {
                change: Change::Session { name: session_name, previous },
                response: MovementResponse::Rotate(RotateWindowResponse { target }),
            },
        )
    }

    /// Renumbers the windows of a session from zero.
    fn reindex_windows(&mut self, request: MoveWindowRequest) -> (r: Step)
        ensures
            stepped(old(self)@, final(self)@, r, old(self)@.reindex_step(request)),
    {
        let ghost before = self@;
        if request.source.is_some() {
            return Step::Refused(
                ProtoError::Server("move-window -r does not accept a source window".to_owned()),
            );
        }
        let session_name = match request.target {
            MoveWindowTarget::Session(session_name) => session_name,
            MoveWindowTarget::Window(_) => {
                return Step::Refused(
                    ProtoError::invalid_target(
                        request_target_string(&request.target),
                        "move-window -r requires a session target",
                    ),
                );
            },
        };
        let previous = match self.session_copy(&session_name) {
            Ok(session) => session,
            Err(error) => {
                return Step::Refused(error);
            },
        };
        let mut session = previous.dup();
        session.reindex_windows();
        self.replace_session(&session_name, session);
        assert(self@.with_session(session_name@, previous@) =~= before);
        Step::Applied(
            Pending {
                change: Change::Session { name: session_name.clone(), previous },
                response: MovementResponse::Move(
                    MoveWindowResponse { session_name, target: None },
                ),
            },
        )
    }

    /// Moves a window within its session.
    fn move_window_within_session(
        &mut self,
        source: WindowTarget,
        destination_index: u32,
        kill_destination: bool,
        detached: bool,
    ) -> (r: Step)
        ensures
            stepped(
                old(self)@,
                final(self)@,
                r,
                old(self)@.move_within(source@, destination_index, kill_destination, detached),
            ),
    {
        let ghost before = self@;
        let session_name = source.session_name;
        let previous = match self.session_copy(&session_name) {
            Ok(session) => session,
            Err(error) => {
                return Step::Refused(error);
            },
        };
        let ids = session_pane_ids(&previous);
        if let Err(error) = self.ensure_panes_exist(&session_name, &ids) {
            return Step::Refused(error);
        }
        let removed_pane_ids: Vec<u32> = if kill_destination && source.window_index
            != destination_index {
            match previous.window_at(destination_index) {
                Some(window) => window.pane_ids(),
                None => Vec::new(),
            }
        } else {
            Vec::new()
        };
        assert(removed_pane_ids@ =~= before.displaced(
            session_name@,
            source.window_index,
            destination_index,
            kill_destination,
        ));
        let should_select_destination = !detached || (kill_destination && previous.active
            == destination_index);
        let mut session = previous.dup();
        if let Err(error) = session.move_window(
            source.window_index,
            destination_index,
            kill_destination,
            should_select_destination,
        ) {
            return Step::Refused(error);
        }
        self.replace_session(&session_name, session);
        let terminals = take_batch(&mut self.terminals, &session_name, &removed_pane_ids);
        let outputs = take_batch(&mut self.pane_outputs, &session_name, &removed_pane_ids);
        proof {
            lemma_put_back(before.terminals, session_name@, removed_pane_ids@);
            lemma_put_back(before.outputs, session_name@, removed_pane_ids@);
            assert(self@.sessions.insert(session_name@, previous@) =~= before.sessions);
        }
        Step::Applied(
            Pending {
                change: Change::MoveWithin {
                    name: session_name.clone(),
                    previous,
                    terminals,
                    outputs,
                },
                response: MovementResponse::Move(
                    MoveWindowResponse {
                        session_name: session_name.clone(),
                        target: Some(WindowTarget::with_window(session_name, destination_index)),
                    },
                ),
            },
        )
    }

    /// Takes a change back.
    pub fn undo(&mut self, change: Change)
        requires
            change.wf(),
        ensures
            final(self)@ == change.undone(old(self)@),
    {
        match change {
            Change::Session { name, previous } => {
                self.replace_session(&name, previous);
            },
            Change::SwapWithin { name, source_index, target_index, previous } => {
                self.swap_auto_named_window_slots(&name, source_index, &name, target_index);
                self.swap_window_link_slots(&name, source_index, target_index);
                self.replace_session(&name, previous);
            },
            Change::MoveWithin { name, previous, terminals, outputs } => {
                self.replace_session(&name, previous);
                put_batch(&mut self.terminals, &name, &terminals);
                put_batch(&mut self.pane_outputs, &name, &outputs);
            },
            Change::SwapAcross {
                source,
                target,
                previous_source,
                previous_target,
                source_ids,
                target_ids,
            } => {
                let a = &source.session_name;
                let b = &target.session_name;
                exchange(&mut self.terminals, a, &target_ids, b, &source_ids);
                exchange(&mut self.pane_outputs, a, &target_ids, b, &source_ids);
                self.swap_auto_named_window_slots(
                    a,
                    source.window_index,
                    b,
                    target.window_index,
                );
                self.replace_session(a, previous_source);
                self.replace_session(b, previous_target);
            },
            Change::MoveAcross {
                source_name,
                target_name,
                previous_source,
                previous_target,
                ids,
                terminals,
                outputs,
            } => {
                hand_over(&mut self.terminals, &target_name, &source_name, &ids);
                hand_over(&mut self.pane_outputs, &target_name, &source_name, &ids);
                put_batch(&mut self.terminals, &target_name, &terminals);
                put_batch(&mut self.pane_outputs, &target_name, &outputs);
                self.replace_session(&source_name, previous_source);
                self.replace_session(&target_name, previous_target);
            },
        }
    }

    /// Settles a change: it stays when the terminals could be resized, and the
    /// groups of its sessions follow; otherwise it is taken back.
    pub fn settle(&mut self, pending: Pending, resized: Result<(), ProtoError>) -> (r: Settled)
        requires
            pending.change.wf(),
        ensures
            match resized {
                Err(error) => {
                    &&& final(self)@ == pending.change.undone(old(self)@)
                    &&& r matches Settled::Undone(undone) && undone.error@ == error@
                        && undone.touched@ == pending.change.spec_touched()
                },
                Ok(_) => {
                    let (after, error) = old(self)@.followed(pending.change.spec_touched());
                    &&& final(self)@ == after
                    &&& match error {
                        Some(error) => r matches Settled::Failed(e) && e@ == error,
                        None => r == Settled::Done(pending.response),
                    }
                },
            },
    {
        let touched = pending.change.touched();
        match resized {
            Err(error) => {
                self.undo(pending.change);
                Settled::Undone(Undone { error, touched })
            },
            Ok(()) => match touched {
                Touched::One(name) => match self.synchronize_session_group_from(&name) {
                    Ok(()) => Settled::Done(pending.response),
                    Err(error) => Settled::Failed(error),
                },
                Touched::Two(source, target) => match self.synchronize_session_group_from(
                    &source,
                ) {
                    Ok(()) => match self.synchronize_session_group_from(&target) {
                        Ok(()) => Settled::Done(pending.response),
                        Err(error) => Settled::Failed(error),
                    },
                    Err(error) => Settled::Failed(error),
                },
            },
        }
    }
}

impl StateView {
    /// The first step of a request to renumber windows.
    pub open spec fn reindex_step(self, request: MoveWindowRequest) -> StepView {
        if request.source is Some {
            StepView::Refused(
                ErrorView::Server("move-window -r does not accept a source window"@),
            )
        } else {
            match request.target {
                MoveWindowTarget::Window(_) => StepView::Refused(
                    ErrorView::InvalidTarget(
                        target_text(request.target),
                        "move-window -r requires a session target"@,
                    ),
                ),
                MoveWindowTarget::Session(name) => self.mutated(
                    name@,
                    Ok(self.sessions[name@].reindexed()),
                    ResponseView::Move(name@, None),
                ),
            }
        }
    }

    /// The first step of a request to move a window.
    pub open spec fn move_step(self, request: MoveWindowRequest) -> StepView {
        if request.renumber {
            self.reindex_step(request)
        } else {
            match request.source {
                None => StepView::Refused(
                    ErrorView::Server("move-window requires a source window"@),
                ),
                Some(source) => match request.target {
                    MoveWindowTarget::Session(_) => StepView::Refused(
                        ErrorView::InvalidTarget(
                            source.session_name@,
                            "move-window requires a destination window target"@,
                        ),
                    ),
                    MoveWindowTarget::Window(target) => if source@.0 == target@.0 {
                        self.move_within(
                            source@,
                            target@.1,
                            request.kill_destination,
                            request.detached,
                        )
                    } else {
                        self.move_across(
                            source@,
                            target@,
                            request.kill_destination,
                            request.detached,
                        )
                    },
                },
            }
        }
    }

    /// The first step of a request to exchange two windows.
    pub open spec fn swap_step(self, source: Slot, target: Slot, detached: bool) -> StepView {
        if source.0 == target.0 {
            self.swap_within(source, target, detached)
        } else if self.grouped(source.0, target.0) {
            StepView::Refused(ErrorView::Server("can't move window, sessions are grouped"@))
        } else {
            self.swap_across(source, target, detached)
        }
    }
}

/// Exchanging the same two windows of a session twice, without a change of the
/// active window, gives the state back.
pub proof fn law_swap_window_twice(state: StateView, a: Slot, b: Slot)
    requires
        a.0 == b.0,
        state.swap_step(a, b, false) is Applied,
    ensures
        state.swap_step(a, b, false)->Applied_0.swap_step(a, b, false) == StepView::Applied(
            state,
            ResponseView::Swap(a, b),
            TouchedView::One(a.0),
        ),
{
    let name = a.0;
    let session = state.sessions[name];
    let swapped = session.swap_windows(a.1, b.1)->Ok_0;
    let shown = state.with_session(name, swapped);
    let after = state.swap_step(a, b, false)->Applied_0;
    assert(swapped.windows.dom() =~= session.windows.dom());
    let order = window_order(session.windows.dom());
    lemma_window_order(session.windows.dom());
    lemma_panes_in_order(session.windows, order);
    lemma_panes_in_order(swapped.windows, order);
    lemma_none_missing(state.terminals, "terminal"@, name, session.all_pane_ids());
    assert forall|id: u32| #[trigger] swapped.all_pane_ids().contains(id) implies
        state.terminals.contains_key((name, id)) by {
        let j = choose|j: int|
            0 <= j < order.len() && (#[trigger] swapped.windows[order[j]]).pane_ids().contains(id);
        let origin = if order[j] == a.1 {
            b.1
        } else if order[j] == b.1 {
            a.1
        } else {
            order[j]
        };
        assert(session.windows.dom().contains(order[j]));
        assert(session.windows.dom().contains(origin));
        assert(order.contains(origin));
        let k = choose|k: int| 0 <= k < order.len() && order[k] == origin;
        assert(session.windows[order[k]].pane_ids().contains(id));
        assert(session.all_pane_ids().contains(id));
    }
    lemma_all_present(state.terminals, "terminal"@, name, swapped.all_pane_ids());
    law_swap_links_twice(shown, a, b);
    law_swap_auto_names_twice(shown.links_swapped(a, b), a, b);
    let back = swapped.swap_windows(a.1, b.1)->Ok_0;
    assert(back =~= session);
    assert(after.sessions[name] == swapped);
    assert(after.with_session(name, session).links_swapped(a, b).auto_swapped(a, b) =~= state) by {
        assert(shown.with_session(name, session) =~= state);
        assert(after.auto_swapped(a, b).links_swapped(a, b) =~= shown);
        assert(after.links_swapped(a, b).auto_swapped(a, b) =~= after.auto_swapped(
            a,
            b,
        ).links_swapped(a, b));
    }
}

} // verus!
