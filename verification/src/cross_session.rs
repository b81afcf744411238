//! Moving and swapping windows between sessions.
use vstd::prelude::*;

use crate::names::{ErrorView, SessionName, Slot, WindowTarget};
use crate::session::{
    no_window, no_window_error, only_window, only_window_error, window_taken, window_taken_error,
    SessionView, Window,
};
use crate::state::{
    exchange, hand_over, lemma_move_back, lemma_none_missing, lemma_none_taken,
    lemma_put_back, lemma_swap_back, move_panes, move_refusal, moved_panes, put_batch, swap_panes,
    swap_refusal, swapped_panes, take_batch, without, HandlerState, StateView,
};
use crate::table::Dup;
use crate::window_links::law_swap_auto_names_twice;
use crate::window_movement::{
    stepped, Change, MoveWindowResponse, MovementResponse, Pending, ResponseView, Step, StepView,
    SwapWindowResponse, Touched, TouchedView, Undone,
};

verus! {

impl StateView {
    /// Why windows of two sessions cannot change places.
    pub open spec fn swap_across_refusal(self, source: Slot, target: Slot) -> Option<ErrorView> {
        if !self.sessions.contains_key(source.0) {
            Some(ErrorView::SessionNotFound(source.0))
        } else if !self.sessions.contains_key(target.0) {
            Some(ErrorView::SessionNotFound(target.0))
        } else if !self.sessions[source.0].windows.contains_key(source.1) {
            Some(no_window(source.0, source.1))
        } else if !self.sessions[target.0].windows.contains_key(target.1) {
            Some(no_window(target.0, target.1))
        } else {
            match self.pane_refusal(source.0, self.window_panes(source)) {
                Some(error) => Some(error),
                None => self.pane_refusal(target.0, self.window_panes(target)),
            }
        }
    }

    /// The panes of the window at a position.
    pub open spec fn window_panes(self, slot: Slot) -> Seq<u32> {
        self.sessions[slot.0].windows[slot.1].pane_ids()
    }

    /// The first step of exchanging windows of two sessions. In the background,
    /// both positions become active in their sessions.
    pub open spec fn swap_across(self, source: Slot, target: Slot, detached: bool) -> StepView {
        match self.swap_across_refusal(source, target) {
            Some(error) => StepView::Refused(error),
            None => {
                let a = self.sessions[source.0];
                let b = self.sessions[target.0];
                let a_ids = self.window_panes(source);
                let b_ids = self.window_panes(target);
                let touched = TouchedView::Two(source.0, target.0);
                match swap_refusal(self.terminals, "terminal"@, source.0, a_ids, target.0, b_ids) {
                    Some(error) => StepView::Undone(error, touched),
                    None => match swap_refusal(
                        self.outputs,
                        "output"@,
                        source.0,
                        a_ids,
                        target.0,
                        b_ids,
                    ) {
                        Some(error) => StepView::Undone(error, touched),
                        None => {
                            let new_a = SessionView {
                                windows: a.windows.insert(source.1, b.windows[target.1]),
                                active: if detached {
                                    source.1
                                } else {
                                    a.active
                                },
                                ..a
                            };
                            let new_b = SessionView {
                                windows: b.windows.insert(target.1, a.windows[source.1]),
                                active: if detached {
                                    target.1
                                } else {
                                    b.active
                                },
                                ..b
                            };
                            StepView::Applied(
                                StateView {
                                    terminals: swapped_panes(
                                        self.terminals,
                                        source.0,
                                        a_ids,
                                        target.0,
                                        b_ids,
                                    ),
                                    outputs: swapped_panes(
                                        self.outputs,
                                        source.0,
                                        a_ids,
                                        target.0,
                                        b_ids,
                                    ),
                                    ..self.with_session(source.0, new_a).with_session(
                                        target.0,
                                        new_b,
                                    ).auto_swapped(source, target)
                                },
                                ResponseView::Swap(source, target),
                                touched,
                            )
                        },
                    },
                }
            },
        }
    }

    /// The panes of the window that gives way at `target`.
    pub open spec fn displaced_across(self, target: Slot, kill: bool) -> Seq<u32> {
        if kill && self.sessions[target.0].windows.contains_key(target.1) {
            self.window_panes(target)
        } else {
            Seq::empty()
        }
    }

    /// Why a window cannot move to another session.
    pub open spec fn move_across_refusal(self, source: Slot, target: Slot, kill: bool) -> Option<
        ErrorView,
    > {
        if !self.sessions.contains_key(source.0) {
            Some(ErrorView::SessionNotFound(source.0))
        } else if !self.sessions.contains_key(target.0) {
            Some(ErrorView::SessionNotFound(target.0))
        } else if self.sessions[source.0].windows.dom().len() == 1 {
            Some(only_window(source.0))
        } else if !self.sessions[source.0].windows.contains_key(source.1) {
            Some(no_window(source.0, source.1))
        } else if self.sessions[target.0].windows.contains_key(target.1) && !kill {
            Some(window_taken(target.0, target.1))
        } else {
            match self.pane_refusal(source.0, self.window_panes(source)) {
                Some(error) => Some(error),
                None => self.pane_refusal(target.0, self.displaced_across(target, kill)),
            }
        }
    }

    /// The first step of moving a window to another session. It becomes the
    /// active one there unless it moves in the background.
    pub open spec fn move_across(self, source: Slot, target: Slot, kill: bool, detached: bool) -> StepView {
        match self.move_across_refusal(source, target, kill) {
            Some(error) => StepView::Refused(error),
            None => {
                let b = self.sessions[target.0];
                let ids = self.window_panes(source);
                let gone = self.displaced_across(target, kill);
                let terminals = without(self.terminals, target.0, gone);
                let outputs = without(self.outputs, target.0, gone);
                let touched = TouchedView::Two(source.0, target.0);
                match move_refusal(terminals, "terminal"@, source.0, target.0, ids) {
                    Some(error) => StepView::Undone(error, touched),
                    None => match move_refusal(outputs, "output"@, source.0, target.0, ids) {
                        Some(error) => StepView::Undone(error, touched),
                        None => {
                            let new_b = SessionView {
                                windows: b.windows.insert(
                                    target.1,
                                    self.sessions[source.0].windows[source.1],
                                ),
                                active: if detached {
                                    b.active
                                } else {
                                    target.1
                                },
                                ..b
                            };
                            StepView::Applied(
                                StateView {
                                    terminals: moved_panes(terminals, source.0, target.0, ids),
                                    outputs: moved_panes(outputs, source.0, target.0, ids),
                                    ..self.with_session(target.0, new_b).with_session(
                                        source.0,
                                        self.sessions[source.0].remove_window(source.1)->Ok_0,
                                    )
                                },
                                ResponseView::Move(target.0, Some(target)),
                                touched,
                            )
                        },
                    },
                }
            },
        }
    }
}

impl HandlerState {
    /// Exchanges windows of two sessions.
    pub(crate) fn swap_window_across_sessions(
        &mut self,
        source: WindowTarget,
        target: WindowTarget,
        detached: bool,
    ) -> (r: Step)
        requires
            source@.0 != target@.0,
        ensures
            stepped(
                old(self)@,
                final(self)@,
                r,
                old(self)@.swap_across(source@, target@, detached),
            ),
    {
        let ghost before = self@;
        let source_name = source.session_name.clone();
        let target_name = target.session_name.clone();
        let previous_source = match self.session_copy(&source_name) {
            Ok(session) => session,
            Err(error) => {
                return Step::Refused(error);
            },
        };
        let previous_target = match self.session_copy(&target_name) {
            Ok(session) => session,
            Err(error) => {
                return Step::Refused(error);
            },
        };
        let source_window: Window = match previous_source.window_at(source.window_index) {
            Some(window) => window.dup(),
            None => {
                return Step::Refused(no_window_error(&source_name, source.window_index));
            },
        };
        let target_window: Window = match previous_target.window_at(target.window_index) {
            Some(window) => window.dup(),
            None => {
                return Step::Refused(no_window_error(&target_name, target.window_index));
            },
        };
        let source_ids = source_window.pane_ids();
        let target_ids = target_window.pane_ids();
        if let Err(error) = self.ensure_panes_exist(&source_name, &source_ids) {
            return Step::Refused(error);
        }
        if let Err(error) = self.ensure_panes_exist(&target_name, &target_ids) {
            return Step::Refused(error);
        }
        let mut new_source = previous_source.dup();
        let mut new_target = previous_target.dup();
        let _ = new_source.replace_window(source.window_index, target_window);
        let _ = new_target.replace_window(target.window_index, source_window);
        if detached {
            new_source.active = source.window_index;
            new_target.active = target.window_index;
        }
        self.replace_session(&source_name, new_source);
        self.replace_session(&target_name, new_target);
        self.swap_auto_named_window_slots(
            &source_name,
            source.window_index,
            &target_name,
            target.window_index,
        );
        proof {
            let shown = StateView { auto_named: before.auto_named, ..self@ };
            law_swap_auto_names_twice(shown, source@, target@);
            assert(shown.with_session(source@.0, previous_source@).with_session(
                target@.0,
                previous_target@,
            ) =~= before);
        }
        if let Err(error) = swap_panes(
            &mut self.terminals,
            "terminal",
            &source_name,
            &source_ids,
            &target_name,
            &target_ids,
        ) {
            self.restore_swapped_windows(&source, &target, previous_source, previous_target);
            assert(self@ =~= before);
            return Step::Undone(
                Undone { error, touched: Touched::Two(source_name, target_name) },
            );
        }
        proof {
            lemma_swappable(
                before.terminals,
                "terminal"@,
                source@.0,
                source_ids@,
                target@.0,
                target_ids@,
            );
        }
        if let Err(error) = swap_panes(
            &mut self.pane_outputs,
            "output",
            &source_name,
            &source_ids,
            &target_name,
            &target_ids,
        ) {
            exchange(&mut self.terminals, &source_name, &target_ids, &target_name, &source_ids);
            self.restore_swapped_windows(&source, &target, previous_source, previous_target);
            assert(self@ =~= before);
            return Step::Undone(
                Undone { error, touched: Touched::Two(source_name, target_name) },
            );
        }
        proof {
            lemma_swappable(
                before.outputs,
                "output"@,
                source@.0,
                source_ids@,
                target@.0,
                target_ids@,
            );
        }
        let change = Change::SwapAcross {
            source: source.clone(),
            target: target.clone(),
            previous_source,
            previous_target,
            source_ids,
            target_ids,
        };
        assert(change.undone(self@) =~= before);
        Step::Applied(
            Pending {
                change,
                response: MovementResponse::Swap(SwapWindowResponse { source, target }),
            },
        )
    }

    /// Puts two sessions and the name tracking of two windows back.
    fn restore_swapped_windows(
        &mut self,
        source: &WindowTarget,
        target: &WindowTarget,
        previous_source: crate::session::Session,
        previous_target: crate::session::Session,
    )
        ensures
            final(self)@ == old(self)@.auto_swapped(source@, target@).with_session(
                source@.0,
                previous_source@,
            ).with_session(target@.0, previous_target@),
    {
        self.swap_auto_named_window_slots(
            &source.session_name,
            source.window_index,
            &target.session_name,
            target.window_index,
        );
        self.replace_session(&source.session_name, previous_source);
        self.replace_session(&target.session_name, previous_target);
    }

    /// Moves a window to another session.
    #[verifier::rlimit(40)]
    pub(crate) fn move_window_across_sessions(
        &mut self,
        source: WindowTarget,
        target: WindowTarget,
        kill_destination: bool,
        detached: bool,
    ) -> (r: Step)
        requires
            source@.0 != target@.0,
        ensures
            stepped(
                old(self)@,
                final(self)@,
                r,
                old(self)@.move_across(source@, target@, kill_destination, detached),
            ),
    {
        let ghost before = self@;
        let source_name = source.session_name.clone();
        let target_name = target.session_name.clone();
        let previous_source = match self.session_copy(&source_name) {
            Ok(session) => session,
            Err(error) => {
                return Step::Refused(error);
            },
        };
        let previous_target = match self.session_copy(&target_name) {
            Ok(session) => session,
            Err(error) => {
                return Step::Refused(error);
            },
        };
        if previous_source.windows.len() == 1 {
            return Step::Refused(only_window_error(&source_name));
        }
        let source_window: Window = match previous_source.window_at(source.window_index) {
            Some(window) => window.dup(),
            None => {
                return Step::Refused(no_window_error(&source_name, source.window_index));
            },
        };
        let source_ids = source_window.pane_ids();
        let removed_ids: Vec<u32> = match previous_target.window_at(target.window_index) {
            Some(window) => {
                if !kill_destination {
                    return Step::Refused(window_taken_error(&target_name, target.window_index));
                }
                window.pane_ids()
            },
            None => Vec::new(),
        };
        assert(removed_ids@ =~= before.displaced_across(target@, kill_destination));
        if let Err(error) = self.ensure_panes_exist(&source_name, &source_ids) {
            return Step::Refused(error);
        }
        if let Err(error) = self.ensure_panes_exist(&target_name, &removed_ids) {
            return Step::Refused(error);
        }
        let mut new_target = previous_target.dup();
        new_target.windows.insert(target.window_index, source_window);
        let mut new_source = previous_source.dup();
        if let Err(error) = new_source.remove_window(source.window_index) {
            return Step::Refused(error);
        }
        if !detached {
            new_target.active = target.window_index;
        }
        self.replace_session(&target_name, new_target);
        self.replace_session(&source_name, new_source);
        let terminals = take_batch(&mut self.terminals, &target_name, &removed_ids);
        let outputs = take_batch(&mut self.pane_outputs, &target_name, &removed_ids);
        let ghost cleared_terminals = self@.terminals;
        let ghost cleared_outputs = self@.outputs;
        proof {
            lemma_put_back(before.terminals, target_name@, removed_ids@);
            lemma_put_back(before.outputs, target_name@, removed_ids@);
            assert(self@.sessions.insert(source_name@, previous_source@).insert(
                target_name@,
                previous_target@,
            ) =~= before.sessions);
        }
        if let Err(error) = move_panes(
            &mut self.terminals,
            "terminal",
            &source_name,
            &target_name,
            &source_ids,
        ) {
            self.replace_two_sessions(&source_name, previous_source, &target_name, previous_target);
            put_batch(&mut self.terminals, &target_name, &terminals);
            put_batch(&mut self.pane_outputs, &target_name, &outputs);
            return Step::Undone(
                Undone { error, touched: Touched::Two(source_name, target_name) },
            );
        }
        proof {
            lemma_movable(
                cleared_terminals,
                "terminal"@,
                source_name@,
                target_name@,
                source_ids@,
            );
        }
        if let Err(error) = move_panes(
            &mut self.pane_outputs,
            "output",
            &source_name,
            &target_name,
            &source_ids,
        ) {
            hand_over(&mut self.terminals, &target_name, &source_name, &source_ids);
            self.replace_two_sessions(&source_name, previous_source, &target_name, previous_target);
            put_batch(&mut self.terminals, &target_name, &terminals);
            put_batch(&mut self.pane_outputs, &target_name, &outputs);
            return Step::Undone(
                Undone { error, touched: Touched::Two(source_name, target_name) },
            );
        }
        proof {
            lemma_movable(cleared_outputs, "output"@, source_name@, target_name@, source_ids@);
        }
        Step::Applied(
            Pending {
                change: Change::MoveAcross {
                    source_name,
                    target_name: target_name.clone(),
                    previous_source,
                    previous_target,
                    ids: source_ids,
                    terminals,
                    outputs,
                },
                response: MovementResponse::Move(
                    MoveWindowResponse {
                        session_name: target_name.clone(),
                        target: Some(
                            WindowTarget::with_window(target_name, target.window_index),
                        ),
                    },
                ),
            },
        )
    }

    /// Puts two sessions in place.
    fn replace_two_sessions(
        &mut self,
        source_name: &SessionName,
        previous_source: crate::session::Session,
        target_name: &SessionName,
        previous_target: crate::session::Session,
    )
        ensures
            final(self)@ == old(self)@.with_session(source_name@, previous_source@).with_session(
                target_name@,
                previous_target@,
            ),
    {
        self.replace_session(source_name, previous_source);
        self.replace_session(target_name, previous_target);
    }
}

/// Panes whose move is not refused can be moved back.
proof fn lemma_movable(
    m: crate::state::PaneMap,
    what: Seq<char>,
    from: Seq<char>,
    to: Seq<char>,
    ids: Seq<u32>,
)
    requires
        from != to,
        move_refusal(m, what, from, to, ids) is None,
    ensures
        moved_panes(moved_panes(m, from, to, ids), to, from, ids) == m,
{
    lemma_none_missing(m, what, from, ids);
    lemma_none_taken(m, what, to, ids, Seq::empty());
    assert forall|id: u32| #[trigger] ids.contains(id) implies !m.contains_key((to, id)) by {
        assert(!Seq::<u32>::empty().contains(id));
    }
    lemma_move_back(m, from, to, ids);
}

/// Panes whose exchange is not refused can be exchanged back.
proof fn lemma_swappable(
    m: crate::state::PaneMap,
    what: Seq<char>,
    a: Seq<char>,
    a_ids: Seq<u32>,
    b: Seq<char>,
    b_ids: Seq<u32>,
)
    requires
        a != b,
        swap_refusal(m, what, a, a_ids, b, b_ids) is None,
    ensures
        swapped_panes(swapped_panes(m, a, a_ids, b, b_ids), a, b_ids, b, a_ids) == m,
{
    lemma_none_missing(m, what, a, a_ids);
    lemma_none_missing(m, what, b, b_ids);
    lemma_none_taken(m, what, b, a_ids, b_ids);
    lemma_none_taken(m, what, a, b_ids, a_ids);
    lemma_swap_back(m, a, a_ids, b, b_ids);
}

} // verus!
