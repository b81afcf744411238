//! Laws of sessions, windows and panes.
use vstd::prelude::*;

use crate::names::{ErrorView, Slot, WindowTarget};
use crate::session::{
    is_previous, lemma_window_order, previous_index, window_order, RotateWindowDirection,
    SessionView, WindowView,
};
use crate::state::{
    first_missing, lemma_none_missing, moved_panes, swapped_panes, without, PaneMap, StateView,
};
use crate::text;
use crate::window_movement::{
    MoveWindowRequest, MoveWindowTarget, ResponseView, StepView, TouchedView,
};

verus! {

/// Whether a window has a pane of this identity.
pub open spec fn has_pane(window: WindowView, id: u32) -> bool {
    exists|i: int| 0 <= i < window.panes.len() && (#[trigger] window.panes[i]).id == id
}

/// The identities of the panes of a window are those of its panes.
proof fn lemma_has_pane(window: WindowView, id: u32)
    ensures
        window.pane_ids().contains(id) <==> has_pane(window, id),
{
    let ids = window.pane_ids();
    if ids.contains(id) {
        let i = choose|i: int| 0 <= i < ids.len() && ids[i] == id;
        assert(window.panes[i].id == id);
    }
    if has_pane(window, id) {
        let i = choose|i: int| 0 <= i < window.panes.len() && (#[trigger] window.panes[i]).id == id;
        assert(ids[i] == id);
    }
}

/// Whether the panes of a window went from one session to another, and nothing
/// else did. What `gone` had in the other session is given up.
pub open spec fn panes_went(
    before: PaneMap,
    after: PaneMap,
    window: WindowView,
    from: Seq<char>,
    to: Seq<char>,
    gone: Option<WindowView>,
) -> bool {
    &&& forall|id: u32|
        has_pane(window, id) ==> #[trigger] after.contains_key((to, id)) && after[(to, id)]
            == before[(from, id)] && before.contains_key((from, id))
    &&& forall|id: u32| has_pane(window, id) ==> !(#[trigger] after.contains_key((from, id)))
    &&& forall|id: u32|
        gone is Some && has_pane(gone->0, id) && !has_pane(window, id) ==> !(
        #[trigger] after.contains_key((to, id)))
    &&& forall|key: (Seq<char>, u32)|
        (key.0 != from && key.0 != to) || (key.0 == from && !has_pane(window, key.1)) || (key.0
            == to && !has_pane(window, key.1) && !(gone is Some && has_pane(gone->0, key.1))) ==> (
        #[trigger] after.contains_key(key) == before.contains_key(key)) && (before.contains_key(key)
            ==> after[key] == before[key])
}

/// Handing the panes of a window over is what [`panes_went`] says.
proof fn lemma_panes_went(
    m: PaneMap,
    what: Seq<char>,
    window: WindowView,
    from: Seq<char>,
    to: Seq<char>,
    gone: Option<WindowView>,
    given: Seq<u32>,
)
    requires
        from != to,
        given == match gone {
            Some(other) => other.pane_ids(),
            None => Seq::empty(),
        },
        first_missing(without(m, to, given), what, from, window.pane_ids()) is None,
    ensures
        panes_went(
            m,
            moved_panes(without(m, to, given), from, to, window.pane_ids()),
            window,
            from,
            to,
            gone,
        ),
{
    let ids = window.pane_ids();
    let rest = without(m, to, given);
    let after = moved_panes(rest, from, to, ids);
    lemma_none_missing(rest, what, from, ids);
    assert forall|id: u32| has_pane(window, id) implies #[trigger] after.contains_key((to, id))
        && after[(to, id)] == m[(from, id)] && m.contains_key((from, id)) by {
        lemma_has_pane(window, id);
        assert(ids.contains(id));
        assert(rest.contains_key((from, id)));
    }
    assert forall|id: u32| has_pane(window, id) implies !(#[trigger] after.contains_key(
        (from, id),
    )) by {
        lemma_has_pane(window, id);
    }
    assert forall|id: u32| gone is Some && has_pane(gone->0, id) && !has_pane(window, id) implies !(
    #[trigger] after.contains_key((to, id))) by {
        lemma_has_pane(window, id);
        lemma_has_pane(gone->0, id);
    }
    assert forall|key: (Seq<char>, u32)|
        (key.0 != from && key.0 != to) || (key.0 == from && !has_pane(window, key.1)) || (key.0
            == to && !has_pane(window, key.1) && !(gone is Some && has_pane(
            gone->0,
            key.1,
        ))) implies (#[trigger] after.contains_key(key) == m.contains_key(key)) && (m.contains_key(
        key,
    ) ==> after[key] == m[key]) by {
        lemma_has_pane(window, key.1);
        if gone is Some {
            lemma_has_pane(gone->0, key.1);
        }
    }
}

/// The window that gives way at a position.
pub open spec fn giving_way(state: StateView, slot: Slot) -> Option<WindowView> {
    if state.sessions[slot.0].windows.contains_key(slot.1) {
        Some(state.sessions[slot.0].windows[slot.1])
    } else {
        None
    }
}

/// Moving a window to another session: it stands at its new position with all of
/// its panes and at its old one no longer. It becomes the active window there
/// unless it moves in the background, and then the one that was active stays so.
/// No other window, session, link or pane is touched.
pub proof fn law_window_moves_to_other_session(
    state: StateView,
    request: MoveWindowRequest,
    source: WindowTarget,
    target: WindowTarget,
)
    requires
        !request.renumber,
        request.source == Some(source),
        request.target == MoveWindowTarget::Window(target),
        source.session_name@ != target.session_name@,
        state.move_step(request) is Applied,
    ensures
        ({
            let after = state.move_step(request)->Applied_0;
            let (a, i) = (source.session_name@, source.window_index);
            let (b, j) = (target.session_name@, target.window_index);
            let window = state.sessions[a].windows[i];
            &&& state.sessions.contains_key(a) && state.sessions.contains_key(b)
            &&& state.sessions[a].windows.contains_key(i)
            &&& state.sessions[b].windows.contains_key(j) ==> request.kill_destination
            &&& after.sessions.dom() == state.sessions.dom()
            &&& after.sessions[b].active == if request.detached {
                state.sessions[b].active
            } else {
                j
            }
            &&& after.sessions[b].windows.contains_key(j) && after.sessions[b].windows[j] == window
            &&& !after.sessions[a].windows.contains_key(i)
            &&& forall|k: u32|
                k != i ==> (#[trigger] after.sessions[a].windows.contains_key(k)
                    == state.sessions[a].windows.contains_key(k)) && (
                state.sessions[a].windows.contains_key(k) ==> after.sessions[a].windows[k]
                    == state.sessions[a].windows[k])
            &&& forall|k: u32|
                k != j ==> (#[trigger] after.sessions[b].windows.contains_key(k)
                    == state.sessions[b].windows.contains_key(k)) && (
                state.sessions[b].windows.contains_key(k) ==> after.sessions[b].windows[k]
                    == state.sessions[b].windows[k])
            &&& state.sessions[a].active != i ==> after.sessions[a].active
                == state.sessions[a].active
            &&& forall|name: Seq<char>|
                name != a && name != b && state.sessions.contains_key(name) ==> (
                #[trigger] after.sessions[name]) == state.sessions[name]
            &&& after.sessions[a].name == state.sessions[a].name && after.sessions[a].id
                == state.sessions[a].id
            &&& after.sessions[b].name == state.sessions[b].name && after.sessions[b].id
                == state.sessions[b].id
            &&& panes_went(state.terminals, after.terminals, window, a, b, giving_way(state, (b, j)))
            &&& panes_went(state.outputs, after.outputs, window, a, b, giving_way(state, (b, j)))
            &&& (after.groups, after.owners, after.hosts) == (
                state.groups,
                state.owners,
                state.hosts,
            )
            &&& (after.link_slots, after.link_groups, after.next_link_group, after.auto_named) == (
                state.link_slots,
                state.link_groups,
                state.next_link_group,
                state.auto_named,
            )
            &&& state.move_step(request)->Applied_1 == ResponseView::Move(b, Some((b, j)))
            &&& state.move_step(request)->Applied_2 == TouchedView::Two(a, b)
        }),
{
    let after = state.move_step(request)->Applied_0;
    let (a, i) = (source.session_name@, source.window_index);
    let (b, j) = (target.session_name@, target.window_index);
    let window = state.sessions[a].windows[i];
    let gone = giving_way(state, (b, j));
    let given = state.displaced_across((b, j), request.kill_destination);
    lemma_panes_went(state.terminals, "terminal"@, window, a, b, gone, given);
    lemma_panes_went(state.outputs, "output"@, window, a, b, gone, given);
    assert(after.sessions.dom() =~= state.sessions.dom());
}

/// Whether the panes of two windows changed sessions, and nothing else did.
pub open spec fn panes_crossed(
    before: PaneMap,
    after: PaneMap,
    first: WindowView,
    a: Seq<char>,
    second: WindowView,
    b: Seq<char>,
) -> bool {
    &&& forall|id: u32|
        has_pane(first, id) ==> #[trigger] after.contains_key((b, id)) && after[(b, id)]
            == before[(a, id)] && before.contains_key((a, id))
    &&& forall|id: u32|
        has_pane(second, id) ==> #[trigger] after.contains_key((a, id)) && after[(a, id)]
            == before[(b, id)] && before.contains_key((b, id))
    &&& forall|id: u32|
        has_pane(first, id) && !has_pane(second, id) ==> !(#[trigger] after.contains_key((a, id)))
    &&& forall|id: u32|
        has_pane(second, id) && !has_pane(first, id) ==> !(#[trigger] after.contains_key((b, id)))
    &&& forall|key: (Seq<char>, u32)|
        (key.0 != a && key.0 != b) || (!has_pane(first, key.1) && !has_pane(second, key.1)) ==> (
        #[trigger] after.contains_key(key) == before.contains_key(key)) && (before.contains_key(key)
            ==> after[key] == before[key])
}

/// Exchanging the panes of two windows is what [`panes_crossed`] says.
proof fn lemma_panes_crossed(
    m: PaneMap,
    what: Seq<char>,
    first: WindowView,
    a: Seq<char>,
    second: WindowView,
    b: Seq<char>,
)
    requires
        a != b,
        first_missing(m, what, a, first.pane_ids()) is None,
        first_missing(m, what, b, second.pane_ids()) is None,
    ensures
        panes_crossed(
            m,
            swapped_panes(m, a, first.pane_ids(), b, second.pane_ids()),
            first,
            a,
            second,
            b,
        ),
{
    let x = first.pane_ids();
    let y = second.pane_ids();
    let after = swapped_panes(m, a, x, b, y);
    lemma_none_missing(m, what, a, x);
    lemma_none_missing(m, what, b, y);
    assert forall|id: u32| has_pane(first, id) implies #[trigger] after.contains_key((b, id))
        && after[(b, id)] == m[(a, id)] && m.contains_key((a, id)) by {
        lemma_has_pane(first, id);
        assert(x.contains(id));
        assert(m.contains_key((a, id)));
    }
    assert forall|id: u32| has_pane(second, id) implies #[trigger] after.contains_key((a, id))
        && after[(a, id)] == m[(b, id)] && m.contains_key((b, id)) by {
        lemma_has_pane(second, id);
        assert(y.contains(id));
        assert(m.contains_key((b, id)));
    }
    assert forall|id: u32| has_pane(first, id) && !has_pane(second, id) implies !(
    #[trigger] after.contains_key((a, id))) by {
        lemma_has_pane(first, id);
        lemma_has_pane(second, id);
    }
    assert forall|id: u32| has_pane(second, id) && !has_pane(first, id) implies !(
    #[trigger] after.contains_key((b, id))) by {
        lemma_has_pane(first, id);
        lemma_has_pane(second, id);
    }
    assert forall|key: (Seq<char>, u32)|
        (key.0 != a && key.0 != b) || (!has_pane(first, key.1) && !has_pane(
            second,
            key.1,
        )) implies (#[trigger] after.contains_key(key) == m.contains_key(key)) && (m.contains_key(
        key,
    ) ==> after[key] == m[key]) by {
        lemma_has_pane(first, key.1);
        lemma_has_pane(second, key.1);
    }
}

/// Whether two positions have exchanged whether a set holds them.
pub open spec fn members_exchanged(before: Set<Slot>, after: Set<Slot>, a: Slot, b: Slot) -> bool {
    &&& after.contains(a) == before.contains(b)
    &&& after.contains(b) == before.contains(a)
    &&& forall|slot: Slot|
        slot != a && slot != b ==> (#[trigger] after.contains(slot) == before.contains(slot))
}

/// Exchanging windows of two sessions: each stands where the other stood, with its
/// panes. The active windows stay, except that an exchange in the background makes
/// both positions active. Nothing else is touched.
pub proof fn law_windows_of_two_sessions_change_places(
    state: StateView,
    source: Slot,
    target: Slot,
    detached: bool,
)
    requires
        source.0 != target.0,
        state.swap_step(source, target, detached) is Applied,
    ensures
        ({
            let after = state.swap_step(source, target, detached)->Applied_0;
            let (a, i) = source;
            let (b, j) = target;
            let first = state.sessions[a].windows[i];
            let second = state.sessions[b].windows[j];
            &&& state.sessions.contains_key(a) && state.sessions[a].windows.contains_key(i)
            &&& state.sessions.contains_key(b) && state.sessions[b].windows.contains_key(j)
            &&& !(state.groups.contains_key(a) && state.groups.contains_key(b) && state.groups[a]
                == state.groups[b])
            &&& after.sessions.dom() == state.sessions.dom()
            &&& after.sessions[a].windows == state.sessions[a].windows.insert(i, second)
            &&& after.sessions[b].windows == state.sessions[b].windows.insert(j, first)
            &&& detached ==> after.sessions[a].active == i && after.sessions[b].active == j
            &&& !detached ==> after.sessions[a].active == state.sessions[a].active
                && after.sessions[b].active == state.sessions[b].active
            &&& forall|name: Seq<char>|
                name != a && name != b && state.sessions.contains_key(name) ==> (
                #[trigger] after.sessions[name]) == state.sessions[name]
            &&& panes_crossed(state.terminals, after.terminals, first, a, second, b)
            &&& panes_crossed(state.outputs, after.outputs, first, a, second, b)
            &&& members_exchanged(
                state.auto_named,
                after.auto_named,
                (panes_of(state, a), i),
                (panes_of(state, b), j),
            )
            &&& (after.groups, after.owners, after.hosts) == (
                state.groups,
                state.owners,
                state.hosts,
            )
            &&& (after.link_slots, after.link_groups) == (state.link_slots, state.link_groups)
            &&& state.swap_step(source, target, detached)->Applied_1 == ResponseView::Swap(
                source,
                target,
            )
            &&& state.swap_step(source, target, detached)->Applied_2 == TouchedView::Two(a, b)
        }),
{
    let after = state.swap_step(source, target, detached)->Applied_0;
    let (a, i) = source;
    let (b, j) = target;
    let first = state.sessions[a].windows[i];
    let second = state.sessions[b].windows[j];
    lemma_panes_crossed(state.terminals, "terminal"@, first, a, second, b);
    lemma_panes_crossed(state.outputs, "output"@, first, a, second, b);
    assert(after.sessions.dom() =~= state.sessions.dom());
}

/// The session that runs the panes of a session: itself, unless another one does.
pub open spec fn panes_of(state: StateView, name: Seq<char>) -> Seq<char> {
    if state.owners.contains_key(name) {
        state.owners[name]
    } else {
        name
    }
}

/// Whether two positions have exchanged their links.
pub open spec fn links_exchanged(before: StateView, after: StateView, a: Slot, b: Slot) -> bool {
    &&& after.link_slots.contains_key(a) == before.link_slots.contains_key(b)
    &&& after.link_slots.contains_key(b) == before.link_slots.contains_key(a)
    &&& before.link_slots.contains_key(b) ==> after.link_slots[a] == before.link_slots[b]
    &&& before.link_slots.contains_key(a) ==> after.link_slots[b] == before.link_slots[a]
    &&& forall|slot: Slot|
        slot != a && slot != b ==> (#[trigger] after.link_slots.contains_key(slot)
            == before.link_slots.contains_key(slot)) && (before.link_slots.contains_key(slot)
            ==> after.link_slots[slot] == before.link_slots[slot])
    &&& after.link_groups.dom() == before.link_groups.dom()
}

/// Exchanging two windows of a session: each stands where the other stood, and
/// links and automatic names go with them. The active index stays, except that an
/// exchange in the background makes the second position active. No pane is touched.
pub proof fn law_windows_of_a_session_change_places(
    state: StateView,
    source: Slot,
    target: Slot,
    detached: bool,
)
    requires
        source.0 == target.0,
        state.swap_step(source, target, detached) is Applied,
    ensures
        ({
            let after = state.swap_step(source, target, detached)->Applied_0;
            let (a, i) = source;
            let j = target.1;
            let session = state.sessions[a];
            &&& state.sessions.contains_key(a)
            &&& session.windows.contains_key(i) && session.windows.contains_key(j)
            &&& after.sessions.dom() == state.sessions.dom()
            &&& after.sessions[a].windows.dom() == session.windows.dom()
            &&& after.sessions[a].windows[i] == session.windows[j]
            &&& after.sessions[a].windows[j] == session.windows[i]
            &&& forall|k: u32|
                k != i && k != j && session.windows.contains_key(k) ==> (
                #[trigger] after.sessions[a].windows[k]) == session.windows[k]
            &&& after.sessions[a].active == if detached {
                j
            } else {
                session.active
            }
            &&& forall|name: Seq<char>|
                name != a && state.sessions.contains_key(name) ==> (
                #[trigger] after.sessions[name]) == state.sessions[name]
            &&& links_exchanged(state, after, source, target)
            &&& members_exchanged(
                state.auto_named,
                after.auto_named,
                (panes_of(state, a), i),
                (panes_of(state, a), j),
            )
            &&& (after.terminals, after.outputs) == (state.terminals, state.outputs)
            &&& (after.groups, after.owners, after.hosts) == (
                state.groups,
                state.owners,
                state.hosts,
            )
            &&& state.swap_step(source, target, detached)->Applied_1 == ResponseView::Swap(
                source,
                target,
            )
            &&& state.swap_step(source, target, detached)->Applied_2 == TouchedView::One(a)
        }),
{
    let after = state.swap_step(source, target, detached)->Applied_0;
    assert(after.sessions.dom() =~= state.sessions.dom());
    assert(after.sessions[source.0].windows.dom() =~= state.sessions[source.0].windows.dom());
    assert(after.link_groups.dom() =~= state.link_groups.dom());
}

/// Whether `next` takes over from the window at `index` that is gone: it is the
/// nearest window before it, or the last of all where none stands before it.
pub open spec fn takes_over(windows: Map<u32, WindowView>, index: u32, next: u32) -> bool {
    &&& windows.contains_key(next)
    &&& next < index ==> forall|k: u32|
        next < k < index ==> !(#[trigger] windows.contains_key(k))
    &&& next >= index ==> forall|k: u32| k < index || k > next ==> !(#[trigger] windows.contains_key(
        k,
    ))
}

/// The greatest index of some that are bounded.
proof fn lemma_greatest(indices: Set<u32>, bound: int, witness: u32) -> (r: u32)
    requires
        indices.contains(witness),
        witness < bound,
    ensures
        indices.contains(r),
        r < bound,
        forall|k: u32| #[trigger] indices.contains(k) && k < bound ==> k <= r,
    decreases bound - witness,
{
    if exists|k: u32| #[trigger] indices.contains(k) && k < bound && k > witness {
        let k = choose|k: u32| #[trigger] indices.contains(k) && k < bound && k > witness;
        lemma_greatest(indices, bound, k)
    } else {
        witness
    }
}

/// What is said to take over does.
proof fn lemma_previous(windows: Map<u32, WindowView>, index: u32, witness: u32)
    requires
        windows.contains_key(witness),
        !windows.contains_key(index),
    ensures
        takes_over(windows, index, previous_index(windows.dom(), index)),
{
    let indices = windows.dom();
    assert(indices.contains(witness));
    let r = if exists|k: u32| #[trigger] indices.contains(k) && k < index {
        let k = choose|k: u32| #[trigger] indices.contains(k) && k < index;
        lemma_greatest(indices, index as int, k)
    } else {
        lemma_greatest(indices, u32::MAX + 1, witness)
    };
    assert(is_previous(indices, index, r));
    let p = previous_index(indices, index);
    assert(is_previous(indices, index, p));
    assert forall|k: u32| #[trigger] windows.contains_key(k) implies indices.contains(k) by {}
}

/// Where the active window leaves its session, the nearest one before it takes over,
/// or the last one where none stands before it.
pub proof fn law_another_window_takes_over(session: SessionView, index: u32)
    requires
        session.remove_window(index) is Ok,
    ensures
        ({
            let after = session.remove_window(index)->Ok_0;
            &&& session.windows.contains_key(index)
            &&& after.windows == session.windows.remove(index)
            &&& exists|k: u32| #[trigger] after.windows.contains_key(k)
            &&& session.active != index ==> after.active == session.active
            &&& session.active == index ==> takes_over(after.windows, index, after.active)
            &&& (after.name, after.id) == (session.name, session.id)
        }),
{
    let after = session.remove_window(index)->Ok_0;
    assert(exists|k: u32| #[trigger] after.windows.contains_key(k)) by {
        let indices = session.windows.dom();
        lemma_u32_set_is_finite(indices);
        if forall|k: u32| !(#[trigger] after.windows.contains_key(k)) {
            assert(indices =~= set![index]) by {
                assert forall|k: u32| indices.contains(k) implies k == index by {
                    if k != index {
                        assert(after.windows.contains_key(k));
                    }
                }
            }
            assert(indices.len() == 1);
        }
    }
    let k = choose|k: u32| #[trigger] after.windows.contains_key(k);
    if session.active == index {
        lemma_previous(after.windows, index, k);
    }
}

/// There are only so many indices.
proof fn lemma_u32_set_is_finite(indices: Set<u32>)
    ensures
        indices.finite(),
{
    let all = vstd::set_lib::set_int_range(0, u32::MAX + 1);
    vstd::set_lib::lemma_int_range(0, u32::MAX + 1);
    let image = all.map(|n: int| n as u32);
    all.lemma_map_finite(|n: int| n as u32);
    assert(indices.subset_of(image)) by {
        assert forall|k: u32| indices.contains(k) implies image.contains(k) by {
            assert(all.contains(k as int));
            assert((k as int) as u32 == k);
        }
    }
    vstd::set_lib::lemma_len_subset(indices, image);
}

/// Moving a window within its session: it stands at its new index and at the old
/// one no longer, whatever stood there is gone with its panes, and nothing else
/// moves. It becomes active unless it moves in the background; even then it does
/// where it takes the place of the active one.
pub proof fn law_window_moves_within_session(
    state: StateView,
    request: MoveWindowRequest,
    source: WindowTarget,
    target: WindowTarget,
)
    requires
        !request.renumber,
        request.source == Some(source),
        request.target == MoveWindowTarget::Window(target),
        source.session_name@ == target.session_name@,
        state.move_step(request) is Applied,
    ensures
        ({
            let after = state.move_step(request)->Applied_0;
            let (a, i, j) = (source.session_name@, source.window_index, target.window_index);
            let session = state.sessions[a];
            let moved = after.sessions[a];
            let killed = session.windows.contains_key(j) && i != j;
            &&& state.sessions.contains_key(a) && session.windows.contains_key(i)
            &&& killed ==> request.kill_destination
            &&& after.sessions.dom() == state.sessions.dom()
            &&& moved.windows.contains_key(j) && moved.windows[j] == session.windows[i]
            &&& i != j ==> !moved.windows.contains_key(i)
            &&& forall|k: u32|
                k != i && k != j ==> (#[trigger] moved.windows.contains_key(k)
                    == session.windows.contains_key(k)) && (session.windows.contains_key(k)
                    ==> moved.windows[k] == session.windows[k])
            &&& !request.detached ==> moved.active == j
            &&& request.detached && request.kill_destination && session.active == j
                ==> moved.active == j
            &&& request.detached && session.active != i && session.active != j ==> moved.active
                == session.active
            &&& request.detached && i != j && session.active == i ==> takes_over(
                moved.windows,
                i,
                moved.active,
            )
            &&& forall|name: Seq<char>|
                name != a && state.sessions.contains_key(name) ==> (
                #[trigger] after.sessions[name]) == state.sessions[name]
            &&& panes_kept(
                state.terminals,
                after.terminals,
                a,
                if killed {
                    Some(session.windows[j])
                } else {
                    None
                },
            )
            &&& panes_kept(
                state.outputs,
                after.outputs,
                a,
                if killed {
                    Some(session.windows[j])
                } else {
                    None
                },
            )
            &&& (after.groups, after.owners, after.hosts) == (
                state.groups,
                state.owners,
                state.hosts,
            )
            &&& (after.link_slots, after.link_groups, after.auto_named) == (
                state.link_slots,
                state.link_groups,
                state.auto_named,
            )
            &&& state.move_step(request)->Applied_1 == ResponseView::Move(a, Some((a, j)))
            &&& state.move_step(request)->Applied_2 == TouchedView::One(a)
        }),
{
    let after = state.move_step(request)->Applied_0;
    let (a, i, j) = (source.session_name@, source.window_index, target.window_index);
    let session = state.sessions[a];
    let moved = after.sessions[a];
    assert(after.sessions.dom() =~= state.sessions.dom());
    if i != j {
        lemma_previous(moved.windows, i, j);
    }
    assert forall|key: (Seq<char>, u32)| session.windows.contains_key(j) implies (
    session.windows[j].pane_ids().contains(key.1) <==> #[trigger] has_pane(
        session.windows[j],
        key.1,
    )) by {
        lemma_has_pane(session.windows[j], key.1);
    }
    assert forall|id: u32| session.windows.contains_key(j) implies (
    session.windows[j].pane_ids().contains(id) <==> #[trigger] has_pane(
        session.windows[j],
        id,
    )) by {
        lemma_has_pane(session.windows[j], id);
    }
}

/// Whether the panes of a window that is gone are gone from a session, and no other.
pub open spec fn panes_kept(
    before: PaneMap,
    after: PaneMap,
    name: Seq<char>,
    gone: Option<WindowView>,
) -> bool {
    forall|key: (Seq<char>, u32)|
        if gone is Some && key.0 == name && has_pane(gone->0, key.1) {
            !(#[trigger] after.contains_key(key))
        } else {
            (after.contains_key(key) == before.contains_key(key)) && (before.contains_key(key)
                ==> after[key] == before[key])
        }
}

/// The identities of the panes of a window, in layout order.
pub open spec fn identities(window: WindowView) -> Seq<u32> {
    Seq::new(window.panes.len(), |i: int| window.panes[i].id)
}

/// Rotating the panes of a window: upwards each goes one place forward and the first
/// goes last, downwards the other way round. The places keep their indices, and no
/// pane is lost or doubled.
pub proof fn law_panes_rotate(window: WindowView, direction: RotateWindowDirection, keep_zoom: bool)
    ensures
        ({
            let after = window.rotated(direction, keep_zoom);
            let n = window.panes.len() as int;
            &&& after.panes.len() == n
            &&& forall|i: int|
                0 <= i < n ==> (#[trigger] after.panes[i]).index == window.panes[i].index
            &&& direction is Up ==> forall|i: int|
                0 <= i < n - 1 ==> (#[trigger] after.panes[i]).id == window.panes[i + 1].id
            &&& direction is Up && n > 0 ==> after.panes[n - 1].id == window.panes[0].id
            &&& direction is Down ==> forall|i: int|
                0 < i < n ==> (#[trigger] after.panes[i]).id == window.panes[i - 1].id
            &&& direction is Down && n > 0 ==> after.panes[0].id == window.panes[n - 1].id
            &&& identities(after).to_multiset() == identities(window).to_multiset()
            &&& after.name == window.name
            &&& after.active == window.active
            &&& after.zoomed == (window.zoomed && keep_zoom)
        }),
{
    broadcast use vstd::seq_lib::group_to_multiset_ensures;

    let after = window.rotated(direction, keep_zoom);
    let n = window.panes.len() as int;
    if n > 0 {
        let old = identities(window);
        let new = identities(after);
        if direction is Up {
            let head = seq![old[0]];
            let rest = old.skip(1);
            assert(old =~= head + rest);
            assert(new =~= rest + head);
            vstd::seq_lib::lemma_multiset_commutative(head, rest);
            vstd::seq_lib::lemma_multiset_commutative(rest, head);
            assert(new.to_multiset() =~= old.to_multiset());
        } else {
            let tail = seq![old[n - 1]];
            let rest = old.take(n - 1);
            assert(old =~= rest + tail);
            assert(new =~= tail + rest);
            vstd::seq_lib::lemma_multiset_commutative(rest, tail);
            vstd::seq_lib::lemma_multiset_commutative(tail, rest);
            assert(new.to_multiset() =~= old.to_multiset());
        }
    } else {
        assert(identities(after) =~= identities(window));
    }
}

/// Rotating one way and then the other gives the window back.
#[verifier::rlimit(60)]
#[verifier::spinoff_prover]
pub proof fn law_rotating_back(window: WindowView)
    ensures
        window.rotated(RotateWindowDirection::Up, true).rotated(RotateWindowDirection::Down, true)
            == window,
        window.rotated(RotateWindowDirection::Down, true).rotated(RotateWindowDirection::Up, true)
            == window,
{
    let n = window.panes.len() as int;
    let up = window.rotated(RotateWindowDirection::Up, true);
    let back = up.rotated(RotateWindowDirection::Down, true);
    law_panes_rotate(window, RotateWindowDirection::Up, true);
    law_panes_rotate(up, RotateWindowDirection::Down, true);
    assert forall|i: int| 0 <= i < n implies back.panes[i] == window.panes[i] by {
        assert(back.panes[i].index == up.panes[i].index);
        if i > 0 {
            assert(back.panes[i].id == up.panes[i - 1].id);
            assert(up.panes[i - 1].id == window.panes[i].id);
        }
    }
    assert(back.panes =~= window.panes);
    let down = window.rotated(RotateWindowDirection::Down, true);
    let again = down.rotated(RotateWindowDirection::Up, true);
    law_panes_rotate(window, RotateWindowDirection::Down, true);
    law_panes_rotate(down, RotateWindowDirection::Up, true);
    assert forall|i: int| 0 <= i < n implies again.panes[i] == window.panes[i] by {
        assert(again.panes[i].index == down.panes[i].index);
        if i < n - 1 {
            assert(again.panes[i].id == down.panes[i + 1].id);
            assert(down.panes[i + 1].id == window.panes[i].id);
        }
    }
    assert(again.panes =~= window.panes);
}

/// A window after some rotations.
pub open spec fn turned(
    window: WindowView,
    direction: RotateWindowDirection,
    times: nat,
) -> WindowView
    decreases times,
{
    if times == 0 {
        window
    } else {
        turned(window, direction, (times - 1) as nat).rotated(direction, true)
    }
}

/// How the panes stand after some rotations.
#[verifier::rlimit(60)]
#[verifier::spinoff_prover]
proof fn lemma_turned(window: WindowView, direction: RotateWindowDirection, times: nat)
    requires
        times <= window.panes.len(),
    ensures
        ({
            let after = turned(window, direction, times);
            let n = window.panes.len() as int;
            &&& after.panes.len() == n
            &&& (after.name, after.active, after.zoomed) == (
                window.name,
                window.active,
                window.zoomed,
            )
            &&& forall|i: int|
                0 <= i < n ==> (#[trigger] after.panes[i]).index == window.panes[i].index
            &&& direction is Up ==> forall|i: int|
                0 <= i < n ==> (#[trigger] after.panes[i]).id == window.panes[if i + times < n {
                    i + times
                } else {
                    i + times - n
                }].id
            &&& direction is Down ==> forall|i: int|
                0 <= i < n ==> (#[trigger] after.panes[i]).id == window.panes[if i >= times {
                    i - times
                } else {
                    i - times + n
                }].id
        }),
    decreases times,
{
    if times > 0 {
        let n = window.panes.len() as int;
        let before = turned(window, direction, (times - 1) as nat);
        let after = turned(window, direction, times);
        lemma_turned(window, direction, (times - 1) as nat);
        law_panes_rotate(before, direction, true);
        assert forall|i: int| 0 <= i < n implies (#[trigger] after.panes[i]).index
            == window.panes[i].index by {
            assert(after.panes[i].index == before.panes[i].index);
        }
        if direction is Up {
            assert forall|i: int| 0 <= i < n implies (#[trigger] after.panes[i]).id
                == window.panes[if i + times < n {
                i + times
            } else {
                i + times - n
            }].id by {
                if i < n - 1 {
                    assert(after.panes[i].id == before.panes[i + 1].id);
                } else {
                    assert(after.panes[i].id == before.panes[0].id);
                }
            }
        } else {
            assert forall|i: int| 0 <= i < n implies (#[trigger] after.panes[i]).id
                == window.panes[if i >= times {
                i - times
            } else {
                i - times + n
            }].id by {
                if i > 0 {
                    assert(after.panes[i].id == before.panes[i - 1].id);
                } else {
                    assert(after.panes[i].id == before.panes[n - 1].id);
                }
            }
        }
    }
}

/// As many rotations as there are panes give the window back.
pub proof fn law_full_turn(window: WindowView, direction: RotateWindowDirection)
    ensures
        turned(window, direction, window.panes.len()) == window,
{
    lemma_turned(window, direction, window.panes.len());
    assert(turned(window, direction, window.panes.len()) =~= window) by {
        assert(turned(window, direction, window.panes.len()).panes =~= window.panes);
    }
}

/// Rotating a window of a session leaves its other windows and the active one alone.
pub proof fn law_one_window_rotates(
    session: SessionView,
    index: u32,
    direction: RotateWindowDirection,
    keep_zoom: bool,
)
    ensures
        session.windows.contains_key(index) ==> session.rotate_window(index, direction, keep_zoom)
            == Ok::<SessionView, ErrorView>(
            SessionView {
                windows: session.windows.insert(
                    index,
                    session.windows[index].rotated(direction, keep_zoom),
                ),
                ..session
            },
        ),
        !session.windows.contains_key(index) ==> session.rotate_window(index, direction, keep_zoom)
            == Err::<SessionView, ErrorView>(
            ErrorView::InvalidTarget(
                session.name + ":"@ + text::decimal(index as nat),
                "window index does not exist in session"@,
            ),
        ),
{
}

/// Whether a list holds indices from the least to the greatest, each once.
pub open spec fn ranks(order: Seq<u32>, windows: Map<u32, WindowView>) -> bool {
    &&& forall|i: int, j: int| 0 <= i < j < order.len() ==> order[i] < order[j]
    &&& forall|i: int| 0 <= i < order.len() ==> windows.contains_key(#[trigger] order[i])
    &&& forall|k: u32| #[trigger] windows.contains_key(k) ==> order.contains(k)
}

/// Renumbering the windows of a session: they keep their order, stand at the indices
/// from zero on without a gap, and the active window is the same as before.
pub proof fn law_windows_are_renumbered(session: SessionView) -> (order: Seq<u32>)
    ensures
        ranks(order, session.windows),
        ({
            let after = session.reindexed();
            &&& forall|i: u32| #[trigger]
                after.windows.contains_key(i) <==> (i as int) < order.len()
            &&& forall|i: u32|
                (i as int) < order.len() ==> (#[trigger] after.windows[i])
                    == session.windows[order[i as int]]
            &&& session.windows.contains_key(session.active) ==> (after.active as int)
                < order.len() && order[after.active as int] == session.active
            &&& (after.name, after.id) == (session.name, session.id)
        }),
{
    lemma_window_order(session.windows.dom());
    let order = window_order(session.windows.dom());
    let after = session.reindexed();
    assert(ranks(order, session.windows)) by {
        assert forall|k: u32| #[trigger] session.windows.contains_key(k) implies order.contains(
            k,
        ) by {
            assert(session.windows.dom().contains(k));
        }
        assert forall|i: int| 0 <= i < order.len() implies session.windows.contains_key(
            #[trigger] order[i],
        ) by {
            assert(session.windows.dom().contains(order[i]));
        }
    }
    if session.windows.contains_key(session.active) {
        assert(order.contains(session.active));
        let at = order.index_of(session.active);
        assert(order[at] == session.active);
        lemma_rank_is_bounded(order, at);
    }
    order
}

/// In a list of growing indices, a place is no greater than the index in it.
proof fn lemma_rank_is_bounded(order: Seq<u32>, i: int)
    requires
        forall|i: int, j: int| 0 <= i < j < order.len() ==> order[i] < order[j],
        0 <= i < order.len(),
    ensures
        i <= order[i],
    decreases i,
{
    if i > 0 {
        lemma_rank_is_bounded(order, i - 1);
        assert(order[i - 1] < order[i]);
    }
}

/// Renumbering and rotating touch the one session that they are asked about.
pub proof fn law_one_session_is_changed(
    state: StateView,
    name: Seq<char>,
    changed: Result<SessionView, ErrorView>,
    response: ResponseView,
)
    ensures
        !state.sessions.contains_key(name) ==> state.mutated(name, changed, response)
            == StepView::Refused(ErrorView::SessionNotFound(name)),
        state.sessions.contains_key(name) && changed is Err ==> state.mutated(
            name,
            changed,
            response,
        ) == StepView::Refused(changed->Err_0),
        state.sessions.contains_key(name) && changed is Ok ==> state.mutated(
            name,
            changed,
            response,
        ) == StepView::Applied(
            StateView { sessions: state.sessions.insert(name, changed->Ok_0), ..state },
            response,
            TouchedView::One(name),
        ),
{
}

/// A request to renumber takes a session and no source, and renumbers that session.
pub proof fn law_renumbering_takes_a_session(state: StateView, request: MoveWindowRequest)
    requires
        request.renumber,
    ensures
        request.source is Some ==> state.move_step(request) == StepView::Refused(
            ErrorView::Server("move-window -r does not accept a source window"@),
        ),
        request.source is None ==> match request.target {
            MoveWindowTarget::Window(window) => state.move_step(request) == StepView::Refused(
                ErrorView::InvalidTarget(
                    window.session_name@ + ":"@ + text::decimal(window.window_index as nat),
                    "move-window -r requires a session target"@,
                ),
            ),
            MoveWindowTarget::Session(name) => if state.sessions.contains_key(name@) {
                state.move_step(request) == StepView::Applied(
                    StateView {
                        sessions: state.sessions.insert(
                            name@,
                            state.sessions[name@].reindexed(),
                        ),
                        ..state
                    },
                    ResponseView::Move(name@, None),
                    TouchedView::One(name@),
                )
            } else {
                state.move_step(request) == StepView::Refused(
                    ErrorView::SessionNotFound(name@),
                )
            },
        },
{
}

} // verus!
