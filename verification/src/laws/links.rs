//! Laws of links, groups and refusals.
use vstd::prelude::*;

use crate::laws::windows::{has_pane, panes_of};
use crate::names::{ErrorView, Slot, WindowTarget};
use crate::session::{
    lemma_window_order, window_order, RotateWindowDirection, SessionView, WindowView,
};
use crate::state::{
    first_missing, first_taken, lemma_all_present, lemma_panes_in_order, without, PaneMap,
    StateView,
};
use crate::text;
use crate::window_links::{other_than, written};
use crate::window_movement::{
    stepped, Change, MoveWindowRequest, MoveWindowTarget, Step, StepView, TouchedView, Undone,
};

verus! {

/// A position that leaves its link group is linked with nothing. The others of its
/// group stay together in their order, unless only one is left, which is then linked
/// with nothing either. Other groups stay as they are.
pub proof fn law_position_leaves_its_group(state: StateView, slot: Slot)
    requires
        state.links_wf(),
    ensures
        ({
            let after = state.detached(slot);
            let id = state.link_slots[slot];
            &&& !after.link_slots.contains_key(slot)
            &&& forall|other: Slot|
                other != slot && !(state.link_slots.contains_key(slot)
                    && state.link_slots.contains_key(other) && state.link_slots[other] == id) ==> (
                #[trigger] after.link_slots.contains_key(other) == state.link_slots.contains_key(
                    other,
                )) && (state.link_slots.contains_key(other) ==> after.link_slots[other]
                    == state.link_slots[other])
            &&& forall|gid: u64|
                !(state.link_slots.contains_key(slot) && gid == id) ==> (
                #[trigger] after.link_groups.contains_key(gid) == state.link_groups.contains_key(
                    gid,
                )) && (state.link_groups.contains_key(gid) ==> after.link_groups[gid]
                    == state.link_groups[gid])
            &&& state.link_slots.contains_key(slot) && state.link_groups[id].slots.len() > 2 ==> {
                &&& forall|other: Slot|
                    other != slot && state.link_slots.contains_key(other)
                        && state.link_slots[other] == id ==> #[trigger] after.link_slots.contains_key(
                        other,
                    ) && after.link_slots[other] == id
                &&& after.link_groups.contains_key(id)
                &&& after.link_groups[id].runtime == state.link_groups[id].runtime
                &&& after.link_groups[id].slots.len() == state.link_groups[id].slots.len() - 1
            }
            &&& state.link_slots.contains_key(slot) && state.link_groups[id].slots.len() <= 2 ==> {
                &&& forall|other: Slot|
                    state.link_slots.contains_key(other) && state.link_slots[other] == id ==> !(
                    #[trigger] after.link_slots.contains_key(other))
                &&& !after.link_groups.contains_key(id)
            }
            &&& (after.sessions, after.auto_named, after.terminals, after.outputs) == (
                state.sessions,
                state.auto_named,
                state.terminals,
                state.outputs,
            )
        }),
{
    let after = state.detached(slot);
    if state.link_slots.contains_key(slot) {
        let id = state.link_slots[slot];
        let slots = state.link_groups[id].slots;
        let rest = state.remaining_slots(slot);
        assert(slots.contains(slot));
        let at = choose|at: int| 0 <= at < slots.len() && slots[at] == slot;
        lemma_without_one(slots, slot, at);
        assert(rest =~= slots.remove(at));
        assert forall|other: Slot| #[trigger] rest.to_set().contains(other) implies other != slot
            && state.link_slots.contains_key(other) && state.link_slots[other] == id by {
            assert(rest.contains(other));
            let k = choose|k: int| 0 <= k < rest.len() && rest[k] == other;
            let m = if k < at {
                k
            } else {
                k + 1
            };
            assert(state.link_groups[id].slots[m] == other);
            assert(slots[m] != slots[at]);
        }
        if rest.len() <= 1 {
            assert forall|other: Slot|
                state.link_slots.contains_key(other) && state.link_slots[other] == id implies !(
            #[trigger] after.link_slots.contains_key(other)) by {
                if other != slot {
                    assert(slots.contains(other));
                    let m = choose|m: int| 0 <= m < slots.len() && slots[m] == other;
                    let k = if m < at {
                        m
                    } else {
                        m - 1
                    };
                    assert(rest[k] == other);
                    assert(rest.contains(other));
                    assert(rest.to_set().contains(other));
                }
            }
        }
    }
}

/// Filtering one position out of a list that holds it once removes it.
proof fn lemma_without_one(slots: Seq<Slot>, slot: Slot, at: int)
    requires
        slots.no_duplicates(),
        0 <= at < slots.len(),
        slots[at] == slot,
    ensures
        slots.filter(other_than(slot)) == slots.remove(at),
    decreases slots.len(),
{
    reveal(Seq::filter);
    let front = slots.drop_last();
    if at == slots.len() - 1 {
        lemma_without_none(front, slot);
        assert(slots.remove(at) =~= front);
    } else {
        assert(front[at] == slot);
        assert(slots.last() != slot);
        lemma_without_one(front, slot, at);
        assert(slots.remove(at) =~= front.remove(at).push(slots.last()));
    }
}

/// Filtering a position out of a list that does not hold it changes nothing.
proof fn lemma_without_none(slots: Seq<Slot>, slot: Slot)
    requires
        forall|i: int| 0 <= i < slots.len() ==> slots[i] != slot,
    ensures
        slots.filter(other_than(slot)) == slots,
    decreases slots.len(),
{
    reveal(Seq::filter);
    if slots.len() > 0 {
        lemma_without_none(slots.drop_last(), slot);
        assert(slots.drop_last().push(slots.last()) =~= slots);
    } else {
        assert(slots.filter(other_than(slot)) =~= slots);
    }
}

/// A position that is made to show the window of another is in the group of that
/// one, which is a new one where there was none. The panes of a new group are run by
/// the session that ran them before.
pub proof fn law_position_joins_a_group(state: StateView, source: Slot, target: Slot)
    requires
        state.links_wf(),
        source != target,
        state.next_link_group < u64::MAX,
    ensures
        ({
            let after = state.attached(source, target);
            let free = state.detached(target);
            let id = after.link_slots[source];
            &&& after.link_slots.contains_key(source)
            &&& after.link_slots.contains_key(target)
            &&& after.link_slots[target] == id
            &&& after.link_groups.contains_key(id)
            &&& free.link_slots.contains_key(source) ==> {
                &&& id == free.link_slots[source]
                &&& after.link_groups[id].runtime == free.link_groups[id].runtime
                &&& after.link_groups[id].slots == free.link_groups[id].slots.push(target)
                &&& after.next_link_group == state.next_link_group
            }
            &&& !free.link_slots.contains_key(source) ==> {
                &&& id == state.next_link_group
                &&& after.link_groups[id].runtime == panes_of(state, source.0)
                &&& after.link_groups[id].slots == seq![source, target]
                &&& after.next_link_group == state.next_link_group + 1
            }
            &&& forall|other: Slot|
                other != source && other != target ==> (#[trigger] after.link_slots.contains_key(
                    other,
                ) == free.link_slots.contains_key(other)) && (free.link_slots.contains_key(other)
                    ==> after.link_slots[other] == free.link_slots[other])
            &&& (after.sessions, after.auto_named, after.terminals, after.outputs) == (
                state.sessions,
                state.auto_named,
                state.terminals,
                state.outputs,
            )
        }),
{
    let free = state.detached(target);
    law_position_leaves_its_group(state, target);
    crate::window_links::law_detach_keeps_links(state, target);
    if free.link_slots.contains_key(source) {
        let id = free.link_slots[source];
        assert(!free.link_groups[id].slots.contains(target)) by {
            if free.link_groups[id].slots.contains(target) {
                let k = choose|k: int|
                    0 <= k < free.link_groups[id].slots.len() && free.link_groups[id].slots[k]
                        == target;
                assert(free.link_slots.contains_key(free.link_groups[id].slots[k]));
            }
        }
    } else {
        let after = state.attached(source, target);
        let id = state.next_link_group;
        assert(free.link_group(source) is None);
        assert(after.link_groups[id].slots =~= seq![source, target]);
    }
}

/// Letting a group follow a session: every other session of its group shows its
/// windows, and keeps its active index where there is still a window. Sessions
/// outside the group stay as they are.
pub proof fn law_group_follows(state: StateView, name: Seq<char>)
    ensures
        !state.sessions.contains_key(name) ==> state.synchronized(name) == Err::<
            StateView,
            ErrorView,
        >(ErrorView::SessionNotFound(name)),
        state.sessions.contains_key(name) ==> state.synchronized(name) is Ok && {
            let after = state.synchronized(name)->Ok_0;
            let source = state.sessions[name];
            &&& after.sessions.dom() == state.sessions.dom()
            &&& after.sessions[name] == source
            &&& forall|other: Seq<char>|
                state.sessions.contains_key(other) && !(state.groups.contains_key(other)
                    && state.groups.contains_key(name) && state.groups[other]
                    == state.groups[name]) ==> (#[trigger] after.sessions[other])
                    == state.sessions[other]
            &&& forall|other: Seq<char>|
                other != name && state.sessions.contains_key(other) && state.groups.contains_key(
                    other,
                ) && state.groups.contains_key(name) && state.groups[other] == state.groups[name]
                    ==> {
                    let mirror = #[trigger] after.sessions[other];
                    &&& mirror.windows == source.windows
                    &&& (mirror.name, mirror.id) == (
                        state.sessions[other].name,
                        state.sessions[other].id,
                    )
                    &&& source.windows.contains_key(state.sessions[other].active) ==> mirror.active
                        == state.sessions[other].active
                    &&& !source.windows.contains_key(state.sessions[other].active)
                        ==> mirror.active == source.active
                }
            &&& (after.groups, after.link_slots, after.link_groups, after.terminals, after.outputs)
                == (
                state.groups,
                state.link_slots,
                state.link_groups,
                state.terminals,
                state.outputs,
            )
        },
{
    if state.sessions.contains_key(name) {
        let after = state.synchronized(name)->Ok_0;
        assert(after.sessions.dom() =~= state.sessions.dom());
    }
}

/// A change that stays lets the group of each of its sessions follow, the source
/// first. Where none of them is in a group, nothing more happens.
pub proof fn law_groups_follow_in_order(state: StateView, source: Seq<char>, target: Seq<char>)
    requires
        state.sessions.contains_key(source),
        state.sessions.contains_key(target),
    ensures
        state.followed(TouchedView::One(source)) == (
            state.synchronized(source)->Ok_0,
            None::<ErrorView>,
        ),
        state.followed(TouchedView::Two(source, target)) == (
            state.synchronized(source)->Ok_0.synchronized(target)->Ok_0,
            None::<ErrorView>,
        ),
        !state.groups.contains_key(source) && !state.groups.contains_key(target)
            ==> state.followed(TouchedView::Two(source, target)).0 == state,
{
    law_group_follows(state, source);
    let first = state.synchronized(source)->Ok_0;
    law_group_follows(first, target);
    if !state.groups.contains_key(source) && !state.groups.contains_key(target) {
        assert(first =~= state);
        assert(first.synchronized(target)->Ok_0 =~= state);
    }
}

/// Clearing the automatic names of a family of windows: that of the window itself,
/// those of the positions linked with it, and those at its index in the sessions of
/// its group. All others stay.
pub proof fn law_family_loses_automatic_names(state: StateView, source: Slot)
    requires
        state.links_wf(),
    ensures
        ({
            let after = state.family_cleared(source);
            &&& !after.auto_named.contains((panes_of(state, source.0), source.1))
            &&& forall|slot: Slot|
                state.link_slots.contains_key(source) && #[trigger] state.link_slots.contains_key(
                    slot,
                ) && state.link_slots[slot] == state.link_slots[source]
                    ==> !after.auto_named.contains((panes_of(state, slot.0), slot.1))
            &&& forall|name: Seq<char>|
                #[trigger] state.groups.contains_key(name) && state.groups.contains_key(source.0)
                    && state.groups[name] == state.groups[source.0] ==> !after.auto_named.contains(
                    (panes_of(state, name), source.1),
                )
            &&& forall|key: Slot| #[trigger]
                after.auto_named.contains(key) ==> state.auto_named.contains(key)
            &&& (after.sessions, after.link_slots, after.link_groups, after.groups) == (
                state.sessions,
                state.link_slots,
                state.link_groups,
                state.groups,
            )
        }),
{
    let after = state.family_cleared(source);
    assert(state.in_family(source, source)) by {
        if state.link_group(source) is Some {
            assert(state.link_slots.contains_key(source));
        }
    }
    assert(state.auto_key(source) == (panes_of(state, source.0), source.1));
    assert forall|slot: Slot|
        state.link_slots.contains_key(source) && #[trigger] state.link_slots.contains_key(slot)
            && state.link_slots[slot] == state.link_slots[source] implies !after.auto_named.contains(
        (panes_of(state, slot.0), slot.1),
    ) by {
        assert(state.in_family(source, slot));
        assert(state.auto_key(slot) == (panes_of(state, slot.0), slot.1));
    }
    assert forall|name: Seq<char>|
        #[trigger] state.groups.contains_key(name) && state.groups.contains_key(source.0)
            && state.groups[name] == state.groups[source.0] implies !after.auto_named.contains(
        (panes_of(state, name), source.1),
    ) by {
        assert(state.in_family(source, (name, source.1)));
        assert(state.auto_key((name, source.1)) == (panes_of(state, name), source.1));
    }
}

/// A name that no window of the family has is kept.
pub proof fn law_other_automatic_names_stay(state: StateView, source: Slot, key: Slot)
    requires
        state.auto_named.contains(key),
        !state.link_slots.contains_key(source),
        key != (panes_of(state, source.0), source.1),
        forall|name: Seq<char>|
            #[trigger] state.groups.contains_key(name) && state.groups.contains_key(source.0)
                && state.groups[name] == state.groups[source.0] ==> key != (
                panes_of(state, name),
                source.1,
            ),
    ensures
        state.family_cleared(source).auto_named.contains(key),
{
    assert(state.link_group(source) is None);
    assert forall|slot: Slot| #[trigger] state.in_family(source, slot) implies state.auto_key(slot)
        != key by {
        if slot != source {
            assert(state.groups.contains_key(slot.0));
        }
        assert(state.auto_key(slot) == (panes_of(state, slot.0), slot.1));
    }
}

/// Whether all panes of a window have an entry in a session.
pub open spec fn panes_are_there(m: PaneMap, name: Seq<char>, window: WindowView) -> bool {
    forall|id: u32| #[trigger] has_pane(window, id) ==> m.contains_key((name, id))
}

/// Whether no pane of a window has an entry in a session.
pub open spec fn panes_are_absent(m: PaneMap, name: Seq<char>, window: WindowView) -> bool {
    forall|id: u32| #[trigger] has_pane(window, id) ==> !m.contains_key((name, id))
}

/// Where no pane is taken, none is found to be.
proof fn lemma_none_is_taken(
    m: PaneMap,
    what: Seq<char>,
    name: Seq<char>,
    ids: Seq<u32>,
    leaving: Seq<u32>,
)
    requires
        forall|id: u32| #[trigger] ids.contains(id) ==> !m.contains_key((name, id))
            || leaving.contains(id),
    ensures
        first_taken(m, what, name, ids, leaving) is None,
    decreases ids.len(),
{
    if ids.len() > 0 {
        assert forall|id: u32| #[trigger] ids.drop_last().contains(id) implies !m.contains_key(
            (name, id),
        ) || leaving.contains(id) by {
            let i = choose|i: int| 0 <= i < ids.drop_last().len() && ids.drop_last()[i] == id;
            assert(ids[i] == id);
            assert(ids.contains(id));
        }
        lemma_none_is_taken(m, what, name, ids.drop_last(), leaving);
        assert(ids.contains(ids.last()));
    }
}

/// The identities that a window lists are those of its panes.
proof fn lemma_ids(window: WindowView)
    ensures
        forall|id: u32| #[trigger] window.pane_ids().contains(id) ==> has_pane(window, id),
{
    assert forall|id: u32| #[trigger] window.pane_ids().contains(id) implies has_pane(
        window,
        id,
    ) by {
        let ids = window.pane_ids();
        let i = choose|i: int| 0 <= i < ids.len() && ids[i] == id;
        assert(window.panes[i].id == id);
    }
}

/// A window whose panes have their terminals and outputs can move to a free index of
/// another session that has none of them.
pub proof fn law_window_can_move(
    state: StateView,
    request: MoveWindowRequest,
    source: WindowTarget,
    target: WindowTarget,
)
    requires
        !request.renumber,
        request.source == Some(source),
        request.target == MoveWindowTarget::Window(target),
        source.session_name@ != target.session_name@,
        ({
            let (a, i) = (source.session_name@, source.window_index);
            let (b, j) = (target.session_name@, target.window_index);
            let window = state.sessions[a].windows[i];
            &&& state.sessions.contains_key(a) && state.sessions[a].windows.contains_key(i)
            &&& state.sessions[a].windows.dom().len() != 1
            &&& state.sessions.contains_key(b) && !state.sessions[b].windows.contains_key(j)
            &&& state.hosts.contains(a) && state.hosts.contains(b)
            &&& panes_are_there(state.terminals, a, window)
            &&& panes_are_there(state.outputs, a, window)
            &&& panes_are_absent(state.terminals, b, window)
            &&& panes_are_absent(state.outputs, b, window)
        }),
    ensures
        state.move_step(request) is Applied,
{
    let (a, i) = (source.session_name@, source.window_index);
    let (b, j) = (target.session_name@, target.window_index);
    let window = state.sessions[a].windows[i];
    let ids = window.pane_ids();
    lemma_ids(window);
    let none: Seq<u32> = Seq::empty();
    assert(state.displaced_across((b, j), request.kill_destination) =~= none);
    assert(without(state.terminals, b, none) =~= state.terminals);
    assert(without(state.outputs, b, none) =~= state.outputs);
    lemma_all_present(state.terminals, "terminal"@, a, ids);
    lemma_all_present(state.outputs, "output"@, a, ids);
    assert(first_missing(state.terminals, "terminal"@, b, none) is None);
    lemma_none_is_taken(state.terminals, "terminal"@, b, ids, none);
    lemma_none_is_taken(state.outputs, "output"@, b, ids, none);
}

/// Windows whose panes have their terminals and outputs can change places between
/// sessions that are not in one group.
pub proof fn law_windows_can_change_places(
    state: StateView,
    source: Slot,
    target: Slot,
    detached: bool,
)
    requires
        source.0 != target.0,
        ({
            let first = state.sessions[source.0].windows[source.1];
            let second = state.sessions[target.0].windows[target.1];
            &&& state.sessions.contains_key(source.0)
            &&& state.sessions[source.0].windows.contains_key(source.1)
            &&& state.sessions.contains_key(target.0)
            &&& state.sessions[target.0].windows.contains_key(target.1)
            &&& !state.groups.contains_key(source.0)
            &&& state.hosts.contains(source.0) && state.hosts.contains(target.0)
            &&& panes_are_there(state.terminals, source.0, first)
            &&& panes_are_there(state.outputs, source.0, first)
            &&& panes_are_there(state.terminals, target.0, second)
            &&& panes_are_there(state.outputs, target.0, second)
            &&& panes_are_absent(state.terminals, target.0, first)
            &&& panes_are_absent(state.outputs, target.0, first)
            &&& panes_are_absent(state.terminals, source.0, second)
            &&& panes_are_absent(state.outputs, source.0, second)
        }),
    ensures
        state.swap_step(source, target, detached) is Applied,
{
    let first = state.sessions[source.0].windows[source.1];
    let second = state.sessions[target.0].windows[target.1];
    let x = first.pane_ids();
    let y = second.pane_ids();
    lemma_ids(first);
    lemma_ids(second);
    lemma_all_present(state.terminals, "terminal"@, source.0, x);
    lemma_all_present(state.terminals, "terminal"@, target.0, y);
    lemma_all_present(state.outputs, "output"@, source.0, x);
    lemma_all_present(state.outputs, "output"@, target.0, y);
    lemma_none_is_taken(state.terminals, "terminal"@, target.0, x, y);
    lemma_none_is_taken(state.terminals, "terminal"@, source.0, y, x);
    lemma_none_is_taken(state.outputs, "output"@, target.0, x, y);
    lemma_none_is_taken(state.outputs, "output"@, source.0, y, x);
}

/// Why a window cannot move to another session, in the order in which it is found
/// out: a session is not there, the window is the last of its session, it is not
/// there, or its new index is taken.
pub proof fn law_move_is_refused(
    state: StateView,
    request: MoveWindowRequest,
    source: WindowTarget,
    target: WindowTarget,
)
    requires
        !request.renumber,
        request.source == Some(source),
        request.target == MoveWindowTarget::Window(target),
        source.session_name@ != target.session_name@,
    ensures
        ({
            let (a, i) = (source.session_name@, source.window_index);
            let (b, j) = (target.session_name@, target.window_index);
            let step = state.move_step(request);
            if !state.sessions.contains_key(a) {
                step == StepView::Refused(ErrorView::SessionNotFound(a))
            } else if !state.sessions.contains_key(b) {
                step == StepView::Refused(ErrorView::SessionNotFound(b))
            } else if state.sessions[a].windows.dom().len() == 1 {
                step == StepView::Refused(
                    ErrorView::Server("cannot kill the only window in session "@ + a),
                )
            } else if !state.sessions[a].windows.contains_key(i) {
                step == StepView::Refused(
                    ErrorView::InvalidTarget(
                        a + ":"@ + text::decimal(i as nat),
                        "window index does not exist in session"@,
                    ),
                )
            } else if state.sessions[b].windows.contains_key(j) && !request.kill_destination {
                step == StepView::Refused(
                    ErrorView::InvalidTarget(
                        b + ":"@ + text::decimal(j as nat),
                        "window index already exists in session"@,
                    ),
                )
            } else {
                true
            }
        }),
{
}

/// Why a window cannot move within its session, and why a move is none at all.
pub proof fn law_move_within_is_refused(state: StateView, request: MoveWindowRequest)
    requires
        !request.renumber,
    ensures
        request.source is None ==> state.move_step(request) == StepView::Refused(
            ErrorView::Server("move-window requires a source window"@),
        ),
        (request.source is Some && request.target is Session) ==> state.move_step(request)
            == StepView::Refused(
            ErrorView::InvalidTarget(
                request.source->0.session_name@,
                "move-window requires a destination window target"@,
            ),
        ),
        (request.source matches Some(source) && request.target matches MoveWindowTarget::Window(
            target,
        ) && source.session_name@ == target.session_name@) ==> {
            let source = request.source->0;
            let (a, i) = (source.session_name@, source.window_index);
            let j = request.target->Window_0.window_index;
            let session = state.sessions[a];
            if !state.sessions.contains_key(a) {
                state.move_step(request) == StepView::Refused(ErrorView::SessionNotFound(a))
            } else if !session.windows.contains_key(i) || (i != j && session.windows.contains_key(j)
                && !request.kill_destination) {
                state.move_step(request) is Refused
            } else {
                true
            }
        },
{
}

/// Sessions of one group do not exchange windows, and a window that is not there
/// changes places with none.
pub proof fn law_swap_is_refused(state: StateView, source: Slot, target: Slot, detached: bool)
    ensures
        (source.0 != target.0 && state.groups.contains_key(source.0) && state.groups.contains_key(
            target.0,
        ) && state.groups[source.0] == state.groups[target.0]) ==> state.swap_step(
            source,
            target,
            detached,
        ) == StepView::Refused(ErrorView::Server("can't move window, sessions are grouped"@)),
        (source.0 == target.0 && !state.sessions.contains_key(source.0)) ==> state.swap_step(
            source,
            target,
            detached,
        ) == StepView::Refused(ErrorView::SessionNotFound(source.0)),
        !(state.sessions.contains_key(source.0) && state.sessions[source.0].windows.contains_key(
            source.1,
        ) && state.sessions.contains_key(target.0)
            && state.sessions[target.0].windows.contains_key(target.1)) ==> state.swap_step(
            source,
            target,
            detached,
        ) is Refused,
{
}

/// Why a pane cannot be had: the first of the list without an entry is named.
proof fn lemma_first_missing(m: PaneMap, what: Seq<char>, name: Seq<char>, ids: Seq<u32>, k: int)
    requires
        0 <= k < ids.len(),
        !m.contains_key((name, ids[k])),
        forall|i: int| 0 <= i < k ==> m.contains_key((name, #[trigger] ids[i])),
    ensures
        first_missing(m, what, name, ids) == Some(
            ErrorView::Server(
                "missing "@ + what + " for pane %"@ + text::decimal(ids[k] as nat)
                    + " in session "@ + name,
            ),
        ),
    decreases ids.len(),
{
    let fewer = ids.drop_last();
    if k < fewer.len() {
        assert forall|i: int| 0 <= i < k implies m.contains_key((name, #[trigger] fewer[i])) by {
            assert(fewer[i] == ids[i]);
        }
        lemma_first_missing(m, what, name, fewer, k);
    } else {
        assert forall|id: u32| #[trigger] fewer.contains(id) implies m.contains_key((name, id)) by {
            let i = choose|i: int| 0 <= i < fewer.len() && fewer[i] == id;
            assert(ids[i] == id);
        }
        lemma_all_present(m, what, name, fewer);
    }
}

/// Why a pane cannot be taken over: the first of the list with an entry there is
/// named.
proof fn lemma_first_taken(m: PaneMap, what: Seq<char>, name: Seq<char>, ids: Seq<u32>, k: int)
    requires
        0 <= k < ids.len(),
        m.contains_key((name, ids[k])),
        forall|i: int| 0 <= i < k ==> !m.contains_key((name, #[trigger] ids[i])),
    ensures
        first_taken(m, what, name, ids, Seq::empty()) == Some(
            ErrorView::Server(
                "duplicate "@ + what + " for pane %"@ + text::decimal(ids[k] as nat)
                    + " in session "@ + name,
            ),
        ),
    decreases ids.len(),
{
    let fewer = ids.drop_last();
    if k < fewer.len() {
        assert forall|i: int| 0 <= i < k implies !m.contains_key((name, #[trigger] fewer[i])) by {
            assert(fewer[i] == ids[i]);
        }
        lemma_first_taken(m, what, name, fewer, k);
    } else {
        assert forall|id: u32| #[trigger] fewer.contains(id) implies !m.contains_key(
            (name, id),
        ) by {
            let i = choose|i: int| 0 <= i < fewer.len() && fewer[i] == id;
            assert(ids[i] == id);
        }
        lemma_none_is_taken(m, what, name, fewer, Seq::empty());
    }
}

/// A window moves to another session only where the sessions have terminals, and
/// where all its panes do; the first one without is named.
pub proof fn law_panes_are_needed_to_move(
    state: StateView,
    request: MoveWindowRequest,
    source: WindowTarget,
    target: WindowTarget,
    k: int,
)
    requires
        !request.renumber,
        request.source == Some(source),
        request.target == MoveWindowTarget::Window(target),
        source.session_name@ != target.session_name@,
        ({
            let (a, i) = (source.session_name@, source.window_index);
            let (b, j) = (target.session_name@, target.window_index);
            &&& state.sessions.contains_key(a) && state.sessions[a].windows.contains_key(i)
            &&& state.sessions[a].windows.dom().len() != 1
            &&& state.sessions.contains_key(b) && !state.sessions[b].windows.contains_key(j)
        }),
    ensures
        ({
            let (a, i) = (source.session_name@, source.window_index);
            let b = target.session_name@;
            let panes = state.sessions[a].windows[i].panes;
            let step = state.move_step(request);
            &&& !state.hosts.contains(a) ==> step == StepView::Refused(
                ErrorView::SessionNotFound(a),
            )
            &&& (state.hosts.contains(a) && 0 <= k < panes.len() && !state.terminals.contains_key(
                (a, panes[k].id),
            ) && forall|n: int|
                0 <= n < k ==> state.terminals.contains_key((a, (#[trigger] panes[n]).id)))
                ==> step == StepView::Refused(
                ErrorView::Server(
                    "missing "@ + "terminal"@ + " for pane %"@ + text::decimal(panes[k].id as nat)
                        + " in session "@ + a,
                ),
            )
            &&& (state.hosts.contains(a) && panes_are_there(
                state.terminals,
                a,
                state.sessions[a].windows[i],
            )) ==> {
                &&& !state.hosts.contains(b) ==> step == StepView::Refused(
                    ErrorView::SessionNotFound(b),
                )
                &&& (state.hosts.contains(b) && 0 <= k < panes.len()
                    && state.terminals.contains_key((b, panes[k].id)) && forall|n: int|
                    0 <= n < k ==> !state.terminals.contains_key((b, (#[trigger] panes[n]).id)))
                    ==> step == StepView::Undone(
                    ErrorView::Server(
                        "duplicate "@ + "terminal"@ + " for pane %"@ + text::decimal(
                            panes[k].id as nat,
                        ) + " in session "@ + b,
                    ),
                    TouchedView::Two(a, b),
                )
            }
        }),
{
    let (a, i) = (source.session_name@, source.window_index);
    let (b, j) = (target.session_name@, target.window_index);
    let window = state.sessions[a].windows[i];
    let panes = window.panes;
    let ids = window.pane_ids();
    let none: Seq<u32> = Seq::empty();
    lemma_ids(window);
    assert forall|n: int| 0 <= n < panes.len() implies ids[n] == panes[n].id by {}
    assert(state.displaced_across((b, j), request.kill_destination) =~= none);
    assert(without(state.terminals, b, none) =~= state.terminals);
    assert(first_missing(state.terminals, "terminal"@, b, none) is None);
    if 0 <= k < panes.len() && !state.terminals.contains_key((a, panes[k].id)) && forall|n: int|
        0 <= n < k ==> state.terminals.contains_key((a, (#[trigger] panes[n]).id)) {
        assert forall|n: int| 0 <= n < k implies state.terminals.contains_key(
            (a, #[trigger] ids[n]),
        ) by {
            assert(panes[n].id == ids[n]);
        }
        lemma_first_missing(state.terminals, "terminal"@, a, ids, k);
    }
    if panes_are_there(state.terminals, a, window) {
        lemma_all_present(state.terminals, "terminal"@, a, ids);
        if 0 <= k < panes.len() && state.terminals.contains_key((b, panes[k].id)) && forall|n: int|
            0 <= n < k ==> !state.terminals.contains_key((b, (#[trigger] panes[n]).id)) {
            assert forall|n: int| 0 <= n < k implies !state.terminals.contains_key(
                (b, #[trigger] ids[n]),
            ) by {
                assert(panes[n].id == ids[n]);
            }
            lemma_first_taken(state.terminals, "terminal"@, b, ids, k);
        }
    }
}

/// Whether every pane of every window of a session has a terminal.
pub open spec fn session_has_panes(state: StateView, name: Seq<char>) -> bool {
    forall|index: u32| #[trigger]
        state.sessions[name].windows.contains_key(index) ==> panes_are_there(
            state.terminals,
            name,
            state.sessions[name].windows[index],
        )
}

/// The panes of a session that has them all are found.
proof fn lemma_session_has_panes(state: StateView, name: Seq<char>)
    requires
        session_has_panes(state, name),
        state.hosts.contains(name),
    ensures
        state.pane_refusal(name, state.sessions[name].all_pane_ids()) is None,
{
    let windows = state.sessions[name].windows;
    let order = window_order(windows.dom());
    let ids = state.sessions[name].all_pane_ids();
    lemma_window_order(windows.dom());
    lemma_panes_in_order(windows, order);
    assert forall|id: u32| #[trigger] ids.contains(id) implies state.terminals.contains_key(
        (name, id),
    ) by {
        let j = choose|j: int|
            0 <= j < order.len() && (#[trigger] windows[order[j]]).pane_ids().contains(id);
        assert(windows.contains_key(order[j]));
        lemma_ids(windows[order[j]]);
        assert(has_pane(windows[order[j]], id));
    }
    lemma_all_present(state.terminals, "terminal"@, name, ids);
}

/// Within its session a window can move to a free index, to its own, and where that
/// is asked for to that of another window; and two windows can change places.
pub proof fn law_windows_can_move_within(
    state: StateView,
    request: MoveWindowRequest,
    source: WindowTarget,
    target: WindowTarget,
    detached: bool,
)
    requires
        !request.renumber,
        request.source == Some(source),
        request.target == MoveWindowTarget::Window(target),
        source.session_name@ == target.session_name@,
        state.sessions.contains_key(source.session_name@),
        state.sessions[source.session_name@].windows.contains_key(source.window_index),
        state.hosts.contains(source.session_name@),
        session_has_panes(state, source.session_name@),
    ensures
        ({
            let session = state.sessions[source.session_name@];
            let (i, j) = (source.window_index, target.window_index);
            &&& (i == j || !session.windows.contains_key(j) || request.kill_destination)
                ==> state.move_step(request) is Applied
            &&& session.windows.contains_key(j) ==> state.swap_step(
                source@,
                target@,
                detached,
            ) is Applied
        }),
{
    lemma_session_has_panes(state, source.session_name@);
}

/// A window that is there can be rotated, and one that is not cannot.
pub proof fn law_windows_can_be_rotated(
    session: SessionView,
    index: u32,
    direction: RotateWindowDirection,
    keep_zoom: bool,
)
    ensures
        session.windows.contains_key(index) ==> session.rotate_window(
            index,
            direction,
            keep_zoom,
        ) is Ok,
        !session.windows.contains_key(index) ==> session.rotate_window(index, direction, keep_zoom)
            == Err::<SessionView, ErrorView>(
            ErrorView::InvalidTarget(
                session.name + ":"@ + text::decimal(index as nat),
                "window index does not exist in session"@,
            ),
        ),
        session.windows.contains_key(index) ==> session.select_window(index) == Ok::<
            SessionView,
            ErrorView,
        >(SessionView { active: index, ..session }),
        !session.windows.contains_key(index) ==> session.select_window(index) == Err::<
            SessionView,
            ErrorView,
        >(
            ErrorView::InvalidTarget(
                session.name + ":"@ + text::decimal(index as nat),
                "window index does not exist in session"@,
            ),
        ),
{
}

/// What is said of a change that could not be taken back.
pub proof fn law_failed_rollback_is_told(name: Seq<char>, error: ErrorView, rollback: ErrorView)
    ensures
        Undone::rollback_failure(name, error, rollback) == ErrorView::Server(
            "failed to roll back session "@ + name + " after "@ + error.message() + ": "@
                + rollback.message(),
        ),
{
}

/// Copying a window to the positions linked with it touches no other window.
pub proof fn law_only_linked_windows_change(
    sessions: Map<Seq<char>, SessionView>,
    window: WindowView,
    source: Slot,
    slots: Seq<Slot>,
    other: Slot,
)
    requires
        !slots.contains(other) || other == source,
        sessions.contains_key(other.0),
        sessions[other.0].windows.contains_key(other.1),
    ensures
        ({
            let after = written(sessions, window, source, slots).0;
            &&& after.contains_key(other.0)
            &&& after[other.0].windows.contains_key(other.1)
            &&& after[other.0].windows[other.1] == sessions[other.0].windows[other.1]
            &&& after[other.0].active == sessions[other.0].active
        }),
    decreases slots.len(),
{
    if slots.len() > 0 {
        let fewer = slots.drop_last();
        assert(!fewer.contains(other) || other == source) by {
            if fewer.contains(other) {
                let i = choose|i: int| 0 <= i < fewer.len() && fewer[i] == other;
                assert(slots[i] == other);
            }
        }
        law_only_linked_windows_change(sessions, window, source, fewer, other);
        assert(slots.contains(slots.last()));
    }
}

/// A change that is refused, or that is undone at once, leaves everything as it was;
/// one that is made can be taken back to what was there before.
pub proof fn law_steps(before: StateView, after: StateView, r: Step, expected: StepView)
    requires
        stepped(before, after, r, expected),
    ensures
        r is Refused || r is Undone ==> after == before,
        expected is Refused <==> r is Refused,
        expected is Undone <==> r is Undone,
        expected matches StepView::Applied(state, response, touched) ==> {
            &&& r is Applied
            &&& after == state
            &&& r->Applied_0.response@ == response
            &&& r->Applied_0.change.spec_touched() == touched
            &&& r->Applied_0.change.undone(after) == before
        },
{
}

/// The sessions that a change touches: the one it is within, or the two it is between,
/// the source first.
pub proof fn law_touched_sessions(change: Change)
    ensures
        match change {
            Change::Session { name, .. } => change.spec_touched() == TouchedView::One(name@),
            Change::SwapWithin { name, .. } => change.spec_touched() == TouchedView::One(name@),
            Change::MoveWithin { name, .. } => change.spec_touched() == TouchedView::One(name@),
            Change::SwapAcross { source, target, .. } => change.spec_touched()
                == TouchedView::Two(source.session_name@, target.session_name@),
            Change::MoveAcross { source_name, target_name, .. } => change.spec_touched()
                == TouchedView::Two(source_name@, target_name@),
        },
{
}

/// A change that is taken back gives its sessions what they were.
pub proof fn law_sessions_come_back(change: Change, state: StateView)
    requires
        change.wf(),
    ensures
        match change {
            Change::Session { name, previous } => change.undone(state).sessions[name@]
                == previous@,
            Change::SwapWithin { name, previous, .. } => change.undone(state).sessions[name@]
                == previous@,
            Change::MoveWithin { name, previous, .. } => change.undone(state).sessions[name@]
                == previous@,
            Change::SwapAcross { source, target, previous_source, previous_target, .. } => {
                &&& change.undone(state).sessions[source.session_name@] == previous_source@
                &&& change.undone(state).sessions[target.session_name@] == previous_target@
            },
            Change::MoveAcross {
                source_name,
                target_name,
                previous_source,
                previous_target,
                ..
            } => {
                &&& change.undone(state).sessions[source_name@] == previous_source@
                &&& change.undone(state).sessions[target_name@] == previous_target@
            },
        },
{
}

/// The panes of a linked window are run by the session that its group names; those of
/// any other by the session that runs all panes of its own, which is itself where no
/// other does.
pub proof fn law_who_runs_panes(state: StateView, slot: Slot)
    requires
        state.links_wf(),
    ensures
        state.link_slots.contains_key(slot) ==> state.window_runtime(slot)
            == state.link_groups[state.link_slots[slot]].runtime,
        !state.link_slots.contains_key(slot) && state.owners.contains_key(slot.0)
            ==> state.window_runtime(slot) == state.owners[slot.0],
        !state.link_slots.contains_key(slot) && !state.owners.contains_key(slot.0)
            ==> state.window_runtime(slot) == slot.0,
        state.link_slots.contains_key(slot) ==> state.link_group(slot) == Some(
            state.link_groups[state.link_slots[slot]],
        ),
        !state.link_slots.contains_key(slot) ==> state.link_group(slot) is None,
{
}

/// A window that is linked with no other is not copied, and neither is one that is not
/// there. Where a position has no session or no window, that is told.
pub proof fn law_copies_are_refused(
    sessions: Map<Seq<char>, SessionView>,
    window: WindowView,
    source: Slot,
    slots: Seq<Slot>,
    slot: Slot,
    state: StateView,
)
    requires
        slot != source,
        written(sessions, window, source, slots).1 is None,
    ensures
        ({
            let before = written(sessions, window, source, slots).0;
            let (after, error) = written(sessions, window, source, slots.push(slot));
            &&& !before.contains_key(slot.0) ==> after == before && error == Some(
                ErrorView::SessionNotFound(slot.0),
            )
            &&& (before.contains_key(slot.0) && !before[slot.0].windows.contains_key(slot.1))
                ==> after == before && error is Some
            &&& (before.contains_key(slot.0) && before[slot.0].windows.contains_key(slot.1)) ==> {
                &&& error is None
                &&& after[slot.0].windows == before[slot.0].windows.insert(slot.1, window)
                &&& after[slot.0].active == before[slot.0].active
                &&& after.dom() == before.dom()
            }
        }),
        written(sessions, window, source, slots.push(source)) == written(
            sessions,
            window,
            source,
            slots,
        ),
        !state.link_slots.contains_key(source) ==> state.link_synchronized(source) == (
            state,
            None::<ErrorView>,
        ),
        (state.link_group(source) matches Some(group) && group.slots.len() > 1 && !(
        state.sessions.contains_key(source.0) && state.sessions[source.0].windows.contains_key(
            source.1,
        ))) ==> state.link_synchronized(source) == (
            state,
            Some(
                ErrorView::InvalidTarget(
                    source.0 + ":"@ + text::decimal(source.1 as nat),
                    "window index does not exist in session"@,
                ),
            ),
        ),
{
    assert(slots.push(slot).drop_last() =~= slots);
    assert(slots.push(source).drop_last() =~= slots);
    let before = written(sessions, window, source, slots).0;
    let after = written(sessions, window, source, slots.push(slot)).0;
    if before.contains_key(slot.0) {
        assert(after.dom() =~= before.dom());
    }
}

} // verus!
