//! Links between windows: positions that show one and the same window.
use vstd::prelude::*;

use crate::names::{session_not_found, ErrorView, ProtoError, SessionName, Slot};
use crate::session::{no_window, no_window_error, SessionView, Window, WindowView};
use crate::state::{
    dup_slots, HandlerState, LinkGroupView, StateView, WindowLinkGroup, WindowLinkSlot,
};
use crate::table::{Dup, Key, KeySet};

verus! {

/// The position that takes the place of `slot` when `a` and `b` change places.
pub open spec fn exchanged(slot: Slot, a: Slot, b: Slot) -> Slot {
    if slot == a {
        b
    } else if slot == b {
        a
    } else {
        slot
    }
}

/// A link group in which two positions have changed places.
pub open spec fn exchanged_group(group: LinkGroupView, a: Slot, b: Slot) -> LinkGroupView {
    LinkGroupView { slots: group.slots.map_values(|slot: Slot| exchanged(slot, a, b)), ..group }
}

/// A set in which two members have changed places.
pub open spec fn exchanged_members(set: Set<Slot>, a: Slot, b: Slot) -> Set<Slot> {
    Set::new(|slot: Slot| set.contains(exchanged(slot, a, b)))
}

/// Whether a position is another than `slot`.
pub open spec fn other_than(slot: Slot) -> spec_fn(Slot) -> bool {
    |other: Slot| other != slot
}

impl StateView {
    /// The link group of a position.
    pub open spec fn link_group(self, slot: Slot) -> Option<LinkGroupView> {
        if self.link_slots.contains_key(slot) && self.link_groups.contains_key(
            self.link_slots[slot],
        ) {
            Some(self.link_groups[self.link_slots[slot]])
        } else {
            None
        }
    }

    /// The session that runs the panes of the window at a position.
    pub open spec fn window_runtime(self, slot: Slot) -> Seq<char> {
        match self.link_group(slot) {
            Some(group) => group.runtime,
            None => self.runtime(slot.0),
        }
    }

    /// Whether the links are in order: a position is in a group exactly when
    /// the group lists it, it is listed once, and group identities stay below
    /// the next one.
    pub open spec fn links_wf(self) -> bool {
        &&& forall|slot: Slot| #[trigger]
            self.link_slots.contains_key(slot) ==> self.link_groups.contains_key(
                self.link_slots[slot],
            ) && self.link_groups[self.link_slots[slot]].slots.contains(slot)
        &&& forall|id: u64, i: int|
            self.link_groups.contains_key(id) && 0 <= i < self.link_groups[id].slots.len() ==> {
                let slot = #[trigger] self.link_groups[id].slots[i];
                self.link_slots.contains_key(slot) && self.link_slots[slot] == id
            }
        &&& forall|id: u64| #[trigger]
            self.link_groups.contains_key(id) ==> self.link_groups[id].slots.no_duplicates()
        &&& forall|id: u64| #[trigger]
            self.link_groups.contains_key(id) ==> id < self.next_link_group
    }

    /// The positions that stay in the group of `slot` when it leaves.
    pub open spec fn remaining_slots(self, slot: Slot) -> Seq<Slot> {
        match self.link_group(slot) {
            Some(group) => group.slots.filter(other_than(slot)),
            None => Seq::empty(),
        }
    }

    /// The state in which `slot` has left its group. A group that would be
    /// left with one position is given up.
    pub open spec fn detached(self, slot: Slot) -> StateView {
        if !self.link_slots.contains_key(slot) {
            self
        } else {
            let id = self.link_slots[slot];
            let rest = self.remaining_slots(slot);
            if rest.len() <= 1 {
                StateView {
                    link_slots: self.link_slots.remove(slot).remove_keys(rest.to_set()),
                    link_groups: self.link_groups.remove(id),
                    ..self
                }
            } else {
                StateView {
                    link_slots: self.link_slots.remove(slot),
                    link_groups: self.link_groups.insert(
                        id,
                        LinkGroupView { slots: rest, ..self.link_groups[id] },
                    ),
                    ..self
                }
            }
        }
    }

    /// Whether a position can be made to show the window of another: where that
    /// one is linked once the position is free, its group is there.
    pub open spec fn can_attach(self, source: Slot, target: Slot) -> bool {
        let free = self.detached(target);
        free.link_slots.contains_key(source) ==> free.link_groups.contains_key(
            free.link_slots[source],
        )
    }

    /// The state in which `target` shows the window of `source`.
    pub open spec fn attached(self, source: Slot, target: Slot) -> StateView {
        let free = self.detached(target);
        if free.link_slots.contains_key(source) {
            free.joined(free.link_slots[source], target)
        } else {
            let id = free.next_link_group;
            StateView {
                link_groups: free.link_groups.insert(
                    id,
                    LinkGroupView { runtime: free.window_runtime(source), slots: seq![source] },
                ),
                link_slots: free.link_slots.insert(source, id),
                next_link_group: if id == u64::MAX {
                    0
                } else {
                    (id + 1) as u64
                },
                ..free
            }.joined(id, target)
        }
    }

    /// The state in which `target` is in the link group `id`.
    pub open spec fn joined(self, id: u64, target: Slot) -> StateView {
        let group = self.link_groups[id];
        StateView {
            link_groups: if group.slots.contains(target) {
                self.link_groups
            } else {
                self.link_groups.insert(
                    id,
                    LinkGroupView { slots: group.slots.push(target), ..group },
                )
            },
            link_slots: self.link_slots.insert(target, id),
            ..self
        }
    }

    /// The state in which the links of two positions have changed places.
    pub open spec fn links_swapped(self, a: Slot, b: Slot) -> StateView {
        StateView {
            link_slots: Map::new(
                |slot: Slot| self.link_slots.contains_key(exchanged(slot, a, b)),
                |slot: Slot| self.link_slots[exchanged(slot, a, b)],
            ),
            link_groups: Map::new(
                |id: u64| self.link_groups.contains_key(id),
                |id: u64|
                    if self.in_group(a, id) != self.in_group(b, id) {
                        exchanged_group(self.link_groups[id], a, b)
                    } else {
                        self.link_groups[id]
                    },
            ),
            ..self
        }
    }

    /// Whether a position is in the link group `id`.
    pub open spec fn in_group(self, slot: Slot, id: u64) -> bool {
        self.link_slots.contains_key(slot) && self.link_slots[slot] == id
    }

    /// The key under which the name of a window is tracked.
    pub open spec fn auto_key(self, slot: Slot) -> Slot {
        (self.runtime(slot.0), slot.1)
    }

    /// The state in which two windows have exchanged whether their names
    /// follow what runs in them.
    pub open spec fn auto_swapped(self, a: Slot, b: Slot) -> StateView {
        StateView {
            auto_named: exchanged_members(self.auto_named, self.auto_key(a), self.auto_key(b)),
            ..self
        }
    }

    /// Whether the window at `slot` is one that a change of the name of the
    /// window at `source` concerns: a linked position, or the same index in a
    /// session of the same group.
    pub open spec fn in_family(self, source: Slot, slot: Slot) -> bool {
        ||| match self.link_group(source) {
            Some(group) => group.slots.contains(slot),
            None => slot == source,
        }
        ||| slot.1 == source.1 && self.grouped(slot.0, source.0)
    }

    /// The state in which no name in the family of `source` is tracked.
    pub open spec fn family_cleared(self, source: Slot) -> StateView {
        StateView {
            auto_named: self.auto_named.filter(
                |key: Slot|
                    !exists|slot: Slot| #[trigger]
                        self.in_family(source, slot) && self.auto_key(slot) == key,
            ),
            ..self
        }
    }
}

/// Writing a window to some positions one after the other, up to the first
/// that cannot take it: the sessions that come out, and the error.
pub open spec fn written(
    sessions: Map<Seq<char>, SessionView>,
    window: WindowView,
    source: Slot,
    slots: Seq<Slot>,
) -> (Map<Seq<char>, SessionView>, Option<ErrorView>)
    decreases slots.len(),
{
    if slots.len() == 0 {
        (sessions, None)
    } else {
        let (before, error) = written(sessions, window, source, slots.drop_last());
        let slot = slots.last();
        if error is Some || slot == source {
            (before, error)
        } else if !before.contains_key(slot.0) {
            (before, Some(ErrorView::SessionNotFound(slot.0)))
        } else {
            match before[slot.0].replace_window(slot.1, window) {
                Ok(session) => (before.insert(slot.0, session), None),
                Err(error) => (before, Some(error)),
            }
        }
    }
}

impl StateView {
    /// Copying the window at `source` to the positions linked with it.
    pub open spec fn link_synchronized(self, source: Slot) -> (StateView, Option<ErrorView>) {
        match self.link_group(source) {
            None => (self, None),
            Some(group) => if group.slots.len() <= 1 {
                (self, None)
            } else if !self.sessions.contains_key(source.0)
                || !self.sessions[source.0].windows.contains_key(source.1) {
                (self, Some(no_window(source.0, source.1)))
            } else {
                let (sessions, error) = written(
                    self.sessions,
                    self.sessions[source.0].windows[source.1],
                    source,
                    group.slots,
                );
                (StateView { sessions, ..self }, error)
            },
        }
    }
}

/// A write that failed among the first positions is what comes out of all.
proof fn lemma_written_stops(
    sessions: Map<Seq<char>, SessionView>,
    window: WindowView,
    source: Slot,
    slots: Seq<Slot>,
    upto: int,
)
    requires
        0 <= upto <= slots.len(),
        written(sessions, window, source, slots.take(upto)).1 is Some,
    ensures
        written(sessions, window, source, slots) == written(
            sessions,
            window,
            source,
            slots.take(upto),
        ),
    decreases slots.len() - upto,
{
    if upto < slots.len() {
        assert(slots.take(upto + 1).drop_last() =~= slots.take(upto));
        lemma_written_stops(sessions, window, source, slots, upto + 1);
    } else {
        assert(slots.take(upto) =~= slots);
    }
}

/// Where every position could take the window, each of them shows it, and the
/// window itself is unchanged.
proof fn lemma_written_everywhere(
    sessions: Map<Seq<char>, SessionView>,
    window: WindowView,
    source: Slot,
    slots: Seq<Slot>,
)
    requires
        written(sessions, window, source, slots).1 is None,
        sessions.contains_key(source.0),
        sessions[source.0].windows.contains_key(source.1),
        sessions[source.0].windows[source.1] == window,
    ensures
        ({
            let after = written(sessions, window, source, slots).0;
            &&& after.contains_key(source.0)
            &&& after[source.0].windows.contains_key(source.1)
            &&& after[source.0].windows[source.1] == window
            &&& forall|slot: Slot| #[trigger]
                slots.contains(slot) ==> after.contains_key(slot.0)
                    && after[slot.0].windows.contains_key(slot.1)
                    && after[slot.0].windows[slot.1] == window
        }),
    decreases slots.len(),
{
    if slots.len() > 0 {
        let fewer = slots.drop_last();
        lemma_written_everywhere(sessions, window, source, fewer);
        let after = written(sessions, window, source, slots).0;
        assert forall|slot: Slot| #[trigger] slots.contains(slot) implies after.contains_key(slot.0)
            && after[slot.0].windows.contains_key(slot.1) && after[slot.0].windows[slot.1]
            == window by {
            if slot != slots.last() {
                let i = choose|i: int| 0 <= i < slots.len() && slots[i] == slot;
                assert(fewer[i] == slot);
                assert(fewer.contains(slot));
            }
        }
    }
}

/// Where a window could be copied to all positions linked with it, they all show
/// the same window.
pub proof fn law_linked_windows_agree(state: StateView, source: Slot, slot: Slot)
    requires
        state.link_synchronized(source).1 is None,
        state.link_group(source) matches Some(group) && group.slots.len() > 1
            && group.slots.contains(slot),
    ensures
        ({
            let after = state.link_synchronized(source).0;
            &&& after.sessions.contains_key(slot.0)
            &&& after.sessions[slot.0].windows.contains_key(slot.1)
            &&& after.sessions[slot.0].windows[slot.1]
                == state.sessions[source.0].windows[source.1]
        }),
{
    lemma_written_everywhere(
        state.sessions,
        state.sessions[source.0].windows[source.1],
        source,
        state.link_group(source)->0.slots,
    );
}

/// Exchanging two positions twice changes nothing.
pub proof fn law_swap_links_twice(state: StateView, a: Slot, b: Slot)
    ensures
        state.links_swapped(a, b).links_swapped(a, b) == state,
{
    let once = state.links_swapped(a, b);
    let twice = once.links_swapped(a, b);
    assert forall|id: u64| state.link_groups.contains_key(id) implies #[trigger]
        twice.link_groups[id] == state.link_groups[id] by {
        assert(once.in_group(a, id) == state.in_group(b, id));
        assert(once.in_group(b, id) == state.in_group(a, id));
        assert(twice.link_groups[id].slots =~= state.link_groups[id].slots);
    }
    assert(twice =~= state);
}

/// Exchanging the name tracking of two windows twice changes nothing.
pub proof fn law_swap_auto_names_twice(state: StateView, a: Slot, b: Slot)
    ensures
        state.auto_swapped(a, b).auto_swapped(a, b) == state,
{
    assert(state.auto_swapped(a, b).auto_swapped(a, b) =~= state);
}

/// A filtered list holds what is in the list and passes, each as often.
proof fn lemma_filter<A>(s: Seq<A>, keep: spec_fn(A) -> bool)
    ensures
        forall|x: A| #[trigger] s.filter(keep).contains(x) <==> s.contains(x) && keep(x),
        s.no_duplicates() ==> s.filter(keep).no_duplicates(),
    decreases s.len(),
{
    reveal(Seq::filter);
    if s.len() > 0 {
        let front = s.drop_last();
        lemma_filter(front, keep);
        let f = front.filter(keep);
        assert(s.filter(keep) == if keep(s.last()) {
            f.push(s.last())
        } else {
            f
        });
        assert forall|x: A| #[trigger] s.filter(keep).contains(x) <==> s.contains(x) && keep(
            x,
        ) by {
            if s.contains(x) && keep(x) {
                let i = choose|i: int| 0 <= i < s.len() && s[i] == x;
                if i < front.len() {
                    assert(front[i] == x);
                    assert(f.contains(x));
                    let j = choose|j: int| 0 <= j < f.len() && f[j] == x;
                    assert(s.filter(keep)[j] == x);
                } else {
                    assert(s.filter(keep)[f.len() as int] == x);
                }
            }
            if s.filter(keep).contains(x) {
                let j = choose|j: int| 0 <= j < s.filter(keep).len() && s.filter(keep)[j] == x;
                if j < f.len() {
                    assert(f[j] == x);
                    assert(f.contains(x));
                    assert(front.contains(x));
                    let i = choose|i: int| 0 <= i < front.len() && front[i] == x;
                    assert(s[i] == x);
                } else {
                    assert(s[s.len() - 1] == x);
                }
            }
        }
        if s.no_duplicates() {
            assert(front.no_duplicates());
            if keep(s.last()) {
                assert(!f.contains(s.last())) by {
                    if f.contains(s.last()) {
                        assert(front.contains(s.last()));
                        let i = choose|i: int| 0 <= i < front.len() && front[i] == s.last();
                        assert(s[i] == s[s.len() - 1]);
                    }
                }
                assert(s.filter(keep) =~= f.push(s.last()));
            }
        }
    }
}

/// What stays of a group when a position leaves.
proof fn lemma_remaining(state: StateView, slot: Slot)
    requires
        state.links_wf(),
        state.link_slots.contains_key(slot),
    ensures
        ({
            let rest = state.remaining_slots(slot);
            let group = state.link_groups[state.link_slots[slot]];
            &&& rest.no_duplicates()
            &&& forall|x: Slot| #[trigger]
                rest.contains(x) <==> group.slots.contains(x) && x != slot
        }),
{
    let slots = state.link_groups[state.link_slots[slot]].slots;
    let keep = other_than(slot);
    lemma_filter(slots, keep);
    assert(state.remaining_slots(slot) == slots.filter(keep));
    assert forall|x: Slot| #[trigger]
        state.remaining_slots(slot).contains(x) <==> slots.contains(x) && x != slot by {
        assert(slots.filter(keep).contains(x) <==> slots.contains(x) && keep(x));
    }
}

/// A position that leaves its group keeps the links in order, is linked no
/// more, and leaves no group of one behind.
pub proof fn law_detach_keeps_links(state: StateView, slot: Slot)
    requires
        state.links_wf(),
    ensures
        state.detached(slot).links_wf(),
        !state.detached(slot).link_slots.contains_key(slot),
        state.link_slots.contains_key(slot) && state.remaining_slots(slot).len() <= 1
            ==> !state.detached(slot).link_groups.contains_key(state.link_slots[slot]),
{
    if state.link_slots.contains_key(slot) {
        lemma_remaining(state, slot);
        let after = state.detached(slot);
        let id = state.link_slots[slot];
        let rest = state.remaining_slots(slot);
        assert forall|other: Slot| #[trigger] after.link_slots.contains_key(other) implies (
        after.link_groups.contains_key(after.link_slots[other])
            && after.link_groups[after.link_slots[other]].slots.contains(other)) by {
            assert(state.link_slots.contains_key(other));
            if state.link_slots[other] == id {
                assert(rest.contains(other));
                assert(rest.to_set().contains(other));
            }
        }
        assert forall|gid: u64, i: int|
            after.link_groups.contains_key(gid) && 0 <= i
                < after.link_groups[gid].slots.len() implies ({
            let other = #[trigger] after.link_groups[gid].slots[i];
            after.link_slots.contains_key(other) && after.link_slots[other] == gid
        }) by {
            let other = after.link_groups[gid].slots[i];
            if gid == id {
                assert(rest.contains(other));
                let group = state.link_groups[id];
                let j = choose|j: int| 0 <= j < group.slots.len() && group.slots[j] == other;
                assert(state.link_groups[id].slots[j] == other);
            } else {
                assert(state.link_groups[gid].slots[i] == other);
                if rest.to_set().contains(other) {
                    assert(rest.contains(other));
                    let group = state.link_groups[id];
                    let j = choose|j: int| 0 <= j < group.slots.len() && group.slots[j] == other;
                    assert(state.link_groups[id].slots[j] == other);
                }
            }
        }
    }
}

/// A position that joins an existing group while linked to none keeps the
/// links in order.
proof fn lemma_join(state: StateView, id: u64, target: Slot)
    requires
        state.links_wf(),
        state.link_groups.contains_key(id),
        !state.link_slots.contains_key(target) || state.link_slots[target] == id,
    ensures
        state.joined(id, target).links_wf(),
        state.joined(id, target).in_group(target, id),
        forall|slot: Slot| #[trigger]
            state.in_group(slot, id) ==> state.joined(id, target).in_group(slot, id),
{
    let after = state.joined(id, target);
    let group = state.link_groups[id];
    if state.link_slots.contains_key(target) {
        assert(group.slots.contains(target));
        assert(after =~= state);
    } else {
        assert(!group.slots.contains(target)) by {
            if group.slots.contains(target) {
                let j = choose|j: int| 0 <= j < group.slots.len() && group.slots[j] == target;
                assert(state.link_groups[id].slots[j] == target);
            }
        }
        let grown = group.slots.push(target);
        assert(grown[group.slots.len() as int] == target);
        assert forall|slot: Slot| #[trigger] after.link_slots.contains_key(slot) implies (
        after.link_groups.contains_key(after.link_slots[slot])
            && after.link_groups[after.link_slots[slot]].slots.contains(slot)) by {
            if slot != target {
                assert(state.link_slots.contains_key(slot));
                if state.link_slots[slot] == id {
                    let j = choose|j: int| 0 <= j < group.slots.len() && group.slots[j] == slot;
                    assert(grown[j] == slot);
                }
            }
        }
        assert forall|gid: u64, i: int|
            after.link_groups.contains_key(gid) && 0 <= i
                < after.link_groups[gid].slots.len() implies ({
            let slot = #[trigger] after.link_groups[gid].slots[i];
            after.link_slots.contains_key(slot) && after.link_slots[slot] == gid
        }) by {
            let slot = after.link_groups[gid].slots[i];
            if gid == id && i == group.slots.len() {
            } else {
                assert(state.link_groups[gid].slots[i] == slot);
            }
        }
    }
}

/// Where the links are in order, any position can be made to show the window of
/// any other.
pub proof fn law_positions_can_be_attached(state: StateView, source: Slot, target: Slot)
    requires
        state.links_wf(),
    ensures
        state.can_attach(source, target),
{
    law_detach_keeps_links(state, target);
}

/// Attaching keeps the links in order, as long as group identities have not
/// run out, and afterwards both positions are in one group.
pub proof fn law_attach_links_both(state: StateView, source: Slot, target: Slot)
    requires
        state.links_wf(),
        state.next_link_group < u64::MAX,
    ensures
        state.attached(source, target).links_wf(),
        ({
            let after = state.attached(source, target);
            &&& after.link_slots.contains_key(source)
            &&& after.link_slots.contains_key(target)
            &&& after.link_slots[source] == after.link_slots[target]
        }),
{
    law_detach_keeps_links(state, target);
    let free = state.detached(target);
    if free.link_slots.contains_key(source) {
        let id = free.link_slots[source];
        assert(free.in_group(source, id));
        lemma_join(free, id, target);
    } else {
        let id = free.next_link_group;
        let grown = StateView {
            link_groups: free.link_groups.insert(
                id,
                LinkGroupView { runtime: free.window_runtime(source), slots: seq![source] },
            ),
            link_slots: free.link_slots.insert(source, id),
            next_link_group: (id + 1) as u64,
            ..free
        };
        assert(!free.link_groups.contains_key(id));
        assert(grown.link_groups[id].slots[0] == source);
        assert forall|slot: Slot| #[trigger] grown.link_slots.contains_key(slot) implies (
        grown.link_groups.contains_key(grown.link_slots[slot])
            && grown.link_groups[grown.link_slots[slot]].slots.contains(slot)) by {
            if slot != source {
                assert(free.link_slots.contains_key(slot));
            }
        }
        assert forall|gid: u64, i: int|
            grown.link_groups.contains_key(gid) && 0 <= i
                < grown.link_groups[gid].slots.len() implies ({
            let slot = #[trigger] grown.link_groups[gid].slots[i];
            grown.link_slots.contains_key(slot) && grown.link_slots[slot] == gid
        }) by {
            if gid != id {
                let slot = free.link_groups[gid].slots[i];
                assert(free.link_slots.contains_key(slot));
            }
        }
        assert(grown.links_wf());
        assert(grown.in_group(source, id));
        lemma_join(grown, id, target);
    }
}

/// Exchanging two positions keeps the links in order.
pub proof fn law_swap_keeps_links(state: StateView, a: Slot, b: Slot)
    requires
        state.links_wf(),
    ensures
        state.links_swapped(a, b).links_wf(),
{
    let after = state.links_swapped(a, b);
    assert forall|id: u64| #[trigger] state.link_groups.contains_key(id) implies (forall|slot: Slot|
        #![trigger after.link_groups[id].slots.contains(slot)]
        after.link_groups[id].slots.contains(slot) == state.link_groups[id].slots.contains(
            exchanged(slot, a, b),
        )) by {
        let old_slots = state.link_groups[id].slots;
        let new_slots = after.link_groups[id].slots;
        assert forall|slot: Slot| old_slots.contains(slot) == state.in_group(slot, id) by {
            if old_slots.contains(slot) {
                let j = choose|j: int| 0 <= j < old_slots.len() && old_slots[j] == slot;
                assert(state.link_groups[id].slots[j] == slot);
            }
        }
        assert forall|slot: Slot| #[trigger]
            new_slots.contains(slot) == old_slots.contains(exchanged(slot, a, b)) by {
            assert(old_slots.contains(slot) == state.in_group(slot, id));
            assert(old_slots.contains(a) == state.in_group(a, id));
            assert(old_slots.contains(b) == state.in_group(b, id));
            if state.in_group(a, id) != state.in_group(b, id) {
                if new_slots.contains(slot) {
                    let j = choose|j: int| 0 <= j < new_slots.len() && new_slots[j] == slot;
                    assert(old_slots[j] == exchanged(slot, a, b));
                }
                if old_slots.contains(exchanged(slot, a, b)) {
                    let j = choose|j: int|
                        0 <= j < old_slots.len() && old_slots[j] == exchanged(slot, a, b);
                    assert(new_slots[j] == slot);
                }
            }
        }
    }
    assert forall|slot: Slot| #[trigger] after.link_slots.contains_key(slot) implies (
    after.link_groups.contains_key(after.link_slots[slot])
        && after.link_groups[after.link_slots[slot]].slots.contains(slot)) by {
        let other = exchanged(slot, a, b);
        assert(state.link_slots.contains_key(other));
        let id = state.link_slots[other];
        assert(state.link_groups.contains_key(id));
    }
    assert forall|id: u64, i: int|
        after.link_groups.contains_key(id) && 0 <= i < after.link_groups[id].slots.len() implies ({
        let slot = #[trigger] after.link_groups[id].slots[i];
        after.link_slots.contains_key(slot) && after.link_slots[slot] == id
    }) by {
        let slot = after.link_groups[id].slots[i];
        assert(state.link_groups.contains_key(id));
        assert(after.link_groups[id].slots.contains(slot));
        let other = exchanged(slot, a, b);
        assert(state.link_groups[id].slots.contains(other));
        let j = choose|j: int|
            0 <= j < state.link_groups[id].slots.len() && state.link_groups[id].slots[j] == other;
        assert(state.link_groups[id].slots[j] == other);
    }
    assert forall|id: u64| #[trigger] after.link_groups.contains_key(id) implies (
    after.link_groups[id].slots.no_duplicates() && id < after.next_link_group) by {
        assert(state.link_groups.contains_key(id));
        let old_slots = state.link_groups[id].slots;
        let new_slots = after.link_groups[id].slots;
        assert forall|i: int, j: int|
            0 <= i < new_slots.len() && 0 <= j < new_slots.len() && i != j implies new_slots[i]
            != new_slots[j] by {
            assert(old_slots[i] != old_slots[j]);
        }
    }
}

/// The list of positions with one left out.
fn slots_without(slots: &Vec<WindowLinkSlot>, slot: &WindowLinkSlot) -> (r: Vec<WindowLinkSlot>)
    ensures
        r.deep_view() == slots.deep_view().filter(other_than(slot@)),
{
    let ghost keep = other_than(slot@);
    let mut out: Vec<WindowLinkSlot> = Vec::new();
    let mut i: usize = 0;
    proof {
        reveal(Seq::filter);
    }
    assert(out.deep_view() =~= slots.deep_view().take(0).filter(keep));
    while i < slots.len()
        invariant
            i <= slots@.len(),
            keep == other_than(slot@),
            out.deep_view() == slots.deep_view().take(i as int).filter(keep),
        decreases slots.len() - i,
    {
        proof {
            reveal(Seq::filter);
            assert(slots.deep_view().take(i + 1).drop_last() =~= slots.deep_view().take(i as int));
            assert(slots.deep_view().take(i + 1).last() == slots@[i as int]@);
        }
        let ghost before = out.deep_view();
        if !slots[i].same(slot) {
            out.push(slots[i].clone());
            assert(out.deep_view() =~= before.push(slots@[i as int]@));
        }
        i = i + 1;
    }
    assert(slots.deep_view().take(i as int) =~= slots.deep_view());
    out
}

/// The list of positions with two changed places.
fn slots_exchanged(
    slots: &Vec<WindowLinkSlot>,
    a: &WindowLinkSlot,
    b: &WindowLinkSlot,
) -> (r: Vec<WindowLinkSlot>)
    ensures
        r.deep_view() == slots.deep_view().map_values(|slot: Slot| exchanged(slot, a@, b@)),
{
    let mut out: Vec<WindowLinkSlot> = Vec::new();
    let mut i: usize = 0;
    while i < slots.len()
        invariant
            i <= slots@.len(),
            out@.len() == i,
            forall|j: int| 0 <= j < i ==> (#[trigger] out@[j])@ == exchanged(slots@[j]@, a@, b@),
        decreases slots.len() - i,
    {
        if slots[i].same(a) {
            out.push(b.clone());
        } else if slots[i].same(b) {
            out.push(a.clone());
        } else {
            out.push(slots[i].clone());
        }
        i = i + 1;
    }
    assert(out.deep_view() =~= slots.deep_view().map_values(
        |slot: Slot| exchanged(slot, a@, b@),
    ));
    out
}

/// Whether a list holds a position.
fn slots_contain(slots: &Vec<WindowLinkSlot>, slot: &WindowLinkSlot) -> (r: bool)
    ensures
        r == slots.deep_view().contains(slot@),
{
    let mut i: usize = 0;
    while i < slots.len()
        invariant
            i <= slots@.len(),
            forall|j: int| 0 <= j < i ==> (#[trigger] slots@[j])@ != slot@,
        decreases slots.len() - i,
    {
        if slots[i].same(slot) {
            assert(slots.deep_view()[i as int] == slot@);
            return true;
        }
        i = i + 1;
    }
    proof {
        if slots.deep_view().contains(slot@) {
            let j = choose|j: int|
                0 <= j < slots.deep_view().len() && slots.deep_view()[j] == slot@;
            assert(slots@[j]@ == slot@);
        }
    }
    false
}

/// The position `window_index` of `session_name`.
fn window_link_slot(session_name: &SessionName, window_index: u32) -> (r: WindowLinkSlot)
    ensures
        r@ == (session_name@, window_index),
{
    WindowLinkSlot::new(session_name.clone(), window_index)
}

impl HandlerState {
    /// The link group of a position.
    fn link_group_of(&self, slot: &WindowLinkSlot) -> (r: Option<&WindowLinkGroup>)
        ensures
            match r {
                Some(group) => self@.link_group(slot@) == Some(group@),
                None => self@.link_group(slot@) is None,
            },
    {
        match self.window_link_slots.get(slot) {
            Some(id) => self.window_link_groups.get(id),
            None => None,
        }
    }

    /// In how many positions a window is seen.
    pub fn window_link_count(&self, session_name: &SessionName, window_index: u32) -> (r: usize)
        ensures
            r == match self@.link_group((session_name@, window_index)) {
                Some(group) => group.slots.len(),
                None => 1,
            },
    {
        let slot = window_link_slot(session_name, window_index);
        match self.link_group_of(&slot) {
            Some(group) => {
                assert(group.slots.len() == group.slots.deep_view().len());
                group.slots.len()
            },
            None => 1,
        }
    }

    /// In how many sessions a window is seen.
    pub fn window_linked_session_count(&self, session_name: &SessionName, window_index: u32) -> (r:
        usize)
        ensures
            r == match self@.link_group((session_name@, window_index)) {
                Some(group) => group.slots.map_values(|slot: Slot| slot.0).to_set().len(),
                None => 1,
            },
    {
        let slot = window_link_slot(session_name, window_index);
        match self.link_group_of(&slot) {
            Some(group) => {
                let mut names: KeySet<SessionName> = KeySet::new();
                let ghost all = group.slots.deep_view().map_values(|slot: Slot| slot.0);
                let mut i: usize = 0;
                assert(names@ =~= all.take(0).to_set());
                while i < group.slots.len()
                    invariant
                        i <= group.slots@.len(),
                        all == group.slots.deep_view().map_values(|slot: Slot| slot.0),
                        names@ =~= all.take(i as int).to_set(),
                    decreases group.slots.len() - i,
                {
                    let ghost earlier = all.take(i as int);
                    let ghost later = all.take(i + 1);
                    names.insert(group.slots[i].session_name.clone());
                    proof {
                        assert(later =~= earlier.push(group.slots@[i as int]@.0));
                        assert forall|name: Seq<char>| #[trigger]
                            names@.contains(name) == later.to_set().contains(name) by {
                            if earlier.contains(name) {
                                let j = choose|j: int|
                                    0 <= j < earlier.len() && earlier[j] == name;
                                assert(later[j] == name);
                            }
                            if name == group.slots@[i as int]@.0 {
                                assert(later[i as int] == name);
                            }
                            if later.contains(name) {
                                let j = choose|j: int| 0 <= j < later.len() && later[j] == name;
                                if j < i {
                                    assert(earlier[j] == name);
                                    assert(earlier.contains(name));
                                }
                            }
                        }
                    }
                    i = i + 1;
                }
                assert(all.take(i as int) =~= all);
                names.len()
            },
            None => 1,
        }
    }

    /// The session of each position in which a window is seen.
    pub fn window_linked_sessions_list(&self, session_name: &SessionName, window_index: u32) -> (r:
        Vec<SessionName>)
        ensures
            r.deep_view() == match self@.link_group((session_name@, window_index)) {
                Some(group) => group.slots.map_values(|slot: Slot| slot.0),
                None => seq![session_name@],
            },
    {
        let slot = window_link_slot(session_name, window_index);
        match self.link_group_of(&slot) {
            Some(group) => {
                let mut out: Vec<SessionName> = Vec::new();
                let mut i: usize = 0;
                while i < group.slots.len()
                    invariant
                        i <= group.slots@.len(),
                        out@.len() == i,
                        forall|j: int|
                            0 <= j < i ==> (#[trigger] out@[j])@ == group.slots@[j]@.0,
                    decreases group.slots.len() - i,
                {
                    out.push(group.slots[i].session_name.clone());
                    i = i + 1;
                }
                assert(out.deep_view() =~= group@.slots.map_values(|slot: Slot| slot.0));
                out
            },
            None => {
                let mut out: Vec<SessionName> = Vec::new();
                out.push(session_name.clone());
                assert(out.deep_view() =~= seq![session_name@]);
                out
            },
        }
    }

    /// The session that runs the panes of a window.
    pub fn runtime_session_name_for_window(
        &self,
        session_name: &SessionName,
        window_index: u32,
    ) -> (r: SessionName)
        ensures
            r@ == self@.window_runtime((session_name@, window_index)),
    {
        let slot = window_link_slot(session_name, window_index);
        match self.link_group_of(&slot) {
            Some(group) => group.runtime_session_name.clone(),
            None => self.runtime_session_name(session_name),
        }
    }

    /// Takes a position out of its link group, and says in how many positions
    /// the window is still seen.
    pub fn detach_window_link_slot(&mut self, session_name: &SessionName, window_index: u32) -> (r:
        usize)
        ensures
            final(self)@ == old(self)@.detached((session_name@, window_index)),
            r == ({
                let rest = old(self)@.remaining_slots((session_name@, window_index)).len();
                if rest > 1 {
                    rest as int
                } else {
                    1
                }
            }),
    {
        let ghost before = self@;
        let slot = window_link_slot(session_name, window_index);
        let group_id: u64 = match self.window_link_slots.remove(&slot) {
            Some(group_id) => group_id,
            None => {
                assert(self@ =~= before);
                return 1;
            },
        };
        let rest = match self.window_link_groups.get(&group_id) {
            Some(group) => slots_without(&group.slots, &slot),
            None => Vec::new(),
        };
        assert(rest.deep_view() =~= before.remaining_slots(slot@));
        let remaining = rest.len();
        if remaining <= 1 {
            let _ = self.window_link_groups.remove(&group_id);
            if remaining == 1 {
                let _ = self.window_link_slots.remove(&rest[0]);
                proof {
                    assert(rest.deep_view() =~= seq![rest@[0]@]);
                    assert(rest.deep_view().to_set() =~= set![rest@[0]@]) by {
                        assert(rest.deep_view()[0] == rest@[0]@);
                    }
                }
            } else {
                assert(rest.deep_view().to_set() =~= Set::empty());
            }
            assert(self@ =~= before.detached(slot@));
            1
        } else {
            let runtime_session_name = match self.window_link_groups.get(&group_id) {
                Some(group) => group.runtime_session_name.clone(),
                None => session_name.clone(),
            };
            self.window_link_groups.insert(
                group_id,
                WindowLinkGroup { runtime_session_name, slots: rest },
            );
            assert(self@ =~= before.detached(slot@));
            remaining
        }
    }

    /// Makes a position show the window of another.
    pub fn attach_window_link_slot(
        &mut self,
        source_session_name: &SessionName,
        source_window_index: u32,
        target_session_name: &SessionName,
        target_window_index: u32,
    )
        requires
            old(self)@.can_attach(
                (source_session_name@, source_window_index),
                (target_session_name@, target_window_index),
            ),
        ensures
            final(self)@ == old(self)@.attached(
                (source_session_name@, source_window_index),
                (target_session_name@, target_window_index),
            ),
    {
        let ghost before = self@;
        let source_slot = window_link_slot(source_session_name, source_window_index);
        let target_slot = window_link_slot(target_session_name, target_window_index);
        let _ = self.detach_window_link_slot(target_session_name, target_window_index);
        let ghost free = self@;
        let known = match self.window_link_slots.get(&source_slot) {
            Some(group_id) => Some(*group_id),
            None => None,
        };
        let group_id: u64 = match known {
            Some(group_id) => group_id,
            None => {
                let group_id = self.next_window_link_group_id;
                self.next_window_link_group_id = self.next_window_link_group_id.wrapping_add(1);
                let runtime_session_name = self.runtime_session_name_for_window(
                    source_session_name,
                    source_window_index,
                );
                let mut slots: Vec<WindowLinkSlot> = Vec::new();
                slots.push(source_slot.clone());
                assert(slots.deep_view() =~= seq![source_slot@]);
                self.window_link_groups.insert(
                    group_id,
                    WindowLinkGroup { runtime_session_name, slots },
                );
                self.window_link_slots.insert(source_slot.clone(), group_id);
                group_id
            },
        };
        let ghost middle = self@;
        match self.window_link_groups.get(&group_id) {
            Some(group) => {
                if !slots_contain(&group.slots, &target_slot) {
                    let mut grown = group.dup();
                    grown.slots.push(target_slot.clone());
                    assert(grown.slots.deep_view() =~= group.slots.deep_view().push(target_slot@));
                    self.window_link_groups.insert(group_id, grown);
                }
            },
            None => {},
        }
        self.window_link_slots.insert(target_slot, group_id);
        proof {
            assert(middle.link_groups.contains_key(group_id)) by {
                if free.link_slots.contains_key(source_slot@) {
                    assert(free.link_groups.contains_key(free.link_slots[source_slot@]));
                }
            }
            assert(self@ =~= middle.joined(group_id, target_slot@));
            assert(self@ =~= before.attached(source_slot@, target_slot@));
        }
    }

    /// Exchanges two positions in one link group, when there is one.
    fn exchange_in_group(&mut self, group: Option<u64>, a: &WindowLinkSlot, b: &WindowLinkSlot)
        ensures
            final(self)@ == (StateView {
                link_groups: Map::new(
                    |id: u64| old(self)@.link_groups.contains_key(id),
                    |id: u64|
                        if group == Some(id) {
                            exchanged_group(old(self)@.link_groups[id], a@, b@)
                        } else {
                            old(self)@.link_groups[id]
                        },
                ),
                ..old(self)@
            }),
    {
        let ghost before = self@;
        if let Some(id) = group {
            let changed = match self.window_link_groups.get(&id) {
                Some(found) => Some(
                    WindowLinkGroup {
                        runtime_session_name: found.runtime_session_name.clone(),
                        slots: slots_exchanged(&found.slots, a, b),
                    },
                ),
                None => None,
            };
            if let Some(changed) = changed {
                self.window_link_groups.insert(id, changed);
            }
        }
        assert(self@.link_groups =~= Map::new(
            |id: u64| before.link_groups.contains_key(id),
            |id: u64|
                if group == Some(id) {
                    exchanged_group(before.link_groups[id], a@, b@)
                } else {
                    before.link_groups[id]
                },
        ));
    }

    /// Exchanges the links of two windows of a session.
    pub fn swap_window_link_slots(
        &mut self,
        session_name: &SessionName,
        source_window_index: u32,
        target_window_index: u32,
    )
        ensures
            final(self)@ == old(self)@.links_swapped(
                (session_name@, source_window_index),
                (session_name@, target_window_index),
            ),
    {
        let ghost before = self@;
        let source_slot = window_link_slot(session_name, source_window_index);
        let target_slot = window_link_slot(session_name, target_window_index);
        if source_window_index == target_window_index {
            assert(self@ =~= before.links_swapped(source_slot@, target_slot@));
            return;
        }
        let source_group = self.window_link_slots.remove(&source_slot);
        let target_group = self.window_link_slots.remove(&target_slot);
        self.exchange_in_group(source_group, &source_slot, &target_slot);
        self.exchange_in_group(target_group, &source_slot, &target_slot);
        if let Some(group_id) = source_group {
            self.window_link_slots.insert(target_slot.clone(), group_id);
        }
        if let Some(group_id) = target_group {
            self.window_link_slots.insert(source_slot.clone(), group_id);
        }
        proof {
            let goal = before.links_swapped(source_slot@, target_slot@);
            assert forall|id: u64| before.link_groups.contains_key(id) implies #[trigger]
                self@.link_groups[id] == goal.link_groups[id] by {
                assert(self@.link_groups[id].slots =~= goal.link_groups[id].slots);
            }
            assert(self@.link_slots =~= goal.link_slots);
            assert(self@ =~= goal);
        }
    }

    /// The key under which the name of a window is tracked.
    fn auto_named_window_key(&self, session_name: &SessionName, window_index: u32) -> (r:
        WindowLinkSlot)
        ensures
            r@ == self@.auto_key((session_name@, window_index)),
    {
        WindowLinkSlot::new(self.runtime_session_name(session_name), window_index)
    }

    /// Exchanges whether the names of two windows follow what runs in them.
    pub fn swap_auto_named_window_slots(
        &mut self,
        source_session_name: &SessionName,
        source_window_index: u32,
        target_session_name: &SessionName,
        target_window_index: u32,
    )
        ensures
            final(self)@ == old(self)@.auto_swapped(
                (source_session_name@, source_window_index),
                (target_session_name@, target_window_index),
            ),
    {
        let ghost before = self@;
        let source_key = self.auto_named_window_key(source_session_name, source_window_index);
        let target_key = self.auto_named_window_key(target_session_name, target_window_index);
        if !source_key.same(&target_key) {
            let source_tracked = self.auto_named_windows.remove(&source_key);
            let target_tracked = self.auto_named_windows.remove(&target_key);
            if source_tracked {
                self.auto_named_windows.insert(target_key.clone());
            }
            if target_tracked {
                self.auto_named_windows.insert(source_key.clone());
            }
        }
        assert(self@.auto_named =~= exchanged_members(
            before.auto_named,
            source_key@,
            target_key@,
        ));
    }

    /// Copies a window to the positions linked with it. When a position cannot
    /// take it, those before it have it already.
    pub fn synchronize_linked_window_from_slot(
        &mut self,
        session_name: &SessionName,
        window_index: u32,
    ) -> (r: Result<(), ProtoError>)
        ensures
            ({
                let (after, error) = old(self)@.link_synchronized((session_name@, window_index));
                &&& final(self)@ == after
                &&& match r {
                    Ok(_) => error is None,
                    Err(e) => error == Some(e@),
                }
            }),
    {
        let ghost before = self@;
        let source_slot = window_link_slot(session_name, window_index);
        let slots = match self.link_group_of(&source_slot) {
            Some(group) => dup_slots(&group.slots),
            None => {
                return Ok(());
            },
        };
        assert(slots.len() == slots.deep_view().len());
        if slots.len() <= 1 {
            return Ok(());
        }
        let source_window: Window = match self.sessions.get(session_name) {
            Some(session) => match session.window_at(window_index) {
                Some(window) => window.dup(),
                None => {
                    return Err(no_window_error(session_name, window_index));
                },
            },
            None => {
                return Err(no_window_error(session_name, window_index));
            },
        };
        let mut i: usize = 0;
        assert(slots.deep_view().take(0).len() == 0);
        while i < slots.len()
            invariant
                i <= slots@.len(),
                slots.len() > 1,
                before == old(self)@,
                source_slot@ == (session_name@, window_index),
                before.link_group(source_slot@) matches Some(group) && group.slots
                    == slots.deep_view(),
                before.sessions.contains_key(session_name@),
                before.sessions[session_name@].windows.contains_key(window_index),
                before.sessions[session_name@].windows[window_index] == source_window@,
                self@ == (StateView { sessions: self@.sessions, ..before }),
                written(
                    before.sessions,
                    source_window@,
                    source_slot@,
                    slots.deep_view().take(i as int),
                ) == (self@.sessions, None::<ErrorView>),
            decreases slots.len() - i,
        {
            let ghost all = slots.deep_view();
            let slot = &slots[i];
            proof {
                assert(all.take(i + 1).drop_last() =~= all.take(i as int));
                assert(all.take(i + 1).last() == slot@);
            }
            if !slot.same(&source_slot) {
                let mut session = match self.sessions.get(&slot.session_name) {
                    Some(session) => session.dup(),
                    None => {
                        proof {
                            lemma_written_stops(
                                before.sessions,
                                source_window@,
                                source_slot@,
                                all,
                                i + 1,
                            );
                        }
                        return Err(session_not_found(&slot.session_name));
                    },
                };
                match session.replace_window(slot.window_index, source_window.dup()) {
                    Ok(()) => {},
                    Err(error) => {
                        proof {
                            lemma_written_stops(
                                before.sessions,
                                source_window@,
                                source_slot@,
                                all,
                                i + 1,
                            );
                        }
                        return Err(error);
                    },
                }
                self.sessions.insert(slot.session_name.clone(), session);
            }
            i = i + 1;
        }
        assert(slots.deep_view().take(i as int) =~= slots.deep_view());
        Ok(())
    }

    /// Whether the name of a window follows what runs in it.
    pub fn tracks_auto_named_window(&self, session_name: &SessionName, window_index: u32) -> (r:
        bool)
        ensures
            r == self@.auto_named.contains(self@.auto_key((session_name@, window_index))),
    {
        let key = self.auto_named_window_key(session_name, window_index);
        self.auto_named_windows.contains(&key)
    }

    /// Lets the name of a window follow what runs in it.
    pub fn mark_auto_named_window(&mut self, session_name: &SessionName, window_index: u32)
        ensures
            final(self)@ == (StateView {
                auto_named: old(self)@.auto_named.insert(
                    old(self)@.auto_key((session_name@, window_index)),
                ),
                ..old(self)@
            }),
    {
        let key = self.auto_named_window_key(session_name, window_index);
        self.auto_named_windows.insert(key);
    }

    /// Lets the name of a window stay as it is.
    pub fn clear_auto_named_window(&mut self, session_name: &SessionName, window_index: u32)
        ensures
            final(self)@ == (StateView {
                auto_named: old(self)@.auto_named.remove(
                    old(self)@.auto_key((session_name@, window_index)),
                ),
                ..old(self)@
            }),
    {
        let key = self.auto_named_window_key(session_name, window_index);
        let _ = self.auto_named_windows.remove(&key);
    }

    /// Lets the names of a window, of the positions linked with it and of the
    /// windows with its index in grouped sessions stay as they are.
    pub fn clear_auto_named_window_family(&mut self, session_name: &SessionName, window_index: u32)
        ensures
            final(self)@ == old(self)@.family_cleared((session_name@, window_index)),
    {
        let ghost before = self@;
        let source_slot = window_link_slot(session_name, window_index);
        let mut slots: Vec<WindowLinkSlot> = match self.link_group_of(&source_slot) {
            Some(group) => dup_slots(&group.slots),
            None => {
                let mut one: Vec<WindowLinkSlot> = Vec::new();
                one.push(source_slot.clone());
                assert(one.deep_view() =~= seq![source_slot@]);
                assert(one.deep_view()[0] == source_slot@);
                one
            },
        };
        let ghost linked = slots.deep_view();
        let members = self.session_group_members(session_name);
        let mut i: usize = 0;
        assert(slots.deep_view() =~= linked + members.deep_view().take(0).map_values(
            |name: Seq<char>| (name, window_index),
        ));
        while i < members.len()
            invariant
                i <= members@.len(),
                slots.deep_view() == linked + members.deep_view().take(i as int).map_values(
                    |name: Seq<char>| (name, window_index),
                ),
            decreases members.len() - i,
        {
            let ghost earlier = slots.deep_view();
            slots.push(window_link_slot(&members[i], window_index));
            assert(slots.deep_view() =~= earlier.push((members@[i as int]@, window_index)));
            assert(slots.deep_view() =~= linked + members.deep_view().take(i + 1).map_values(
                |name: Seq<char>| (name, window_index),
            ));
            i = i + 1;
        }
        proof {
            let tail = members.deep_view().map_values(|name: Seq<char>| (name, window_index));
            assert(members.deep_view().take(i as int) =~= members.deep_view());
            let all = slots.deep_view();
            assert forall|slot: Slot| #[trigger]
                all.contains(slot) == before.in_family(source_slot@, slot) by {
                if all.contains(slot) {
                    let j = choose|j: int| 0 <= j < all.len() && all[j] == slot;
                    if j < linked.len() {
                        assert(linked[j] == slot);
                    } else {
                        let name = members.deep_view()[j - linked.len()];
                        assert(members.deep_view().contains(name));
                    }
                }
                if linked.contains(slot) {
                    let j = choose|j: int| 0 <= j < linked.len() && linked[j] == slot;
                    assert(all[j] == slot);
                }
                if slot.1 == window_index && before.grouped(slot.0, session_name@) {
                    assert(members.deep_view().contains(slot.0));
                    let j = choose|j: int|
                        0 <= j < members.deep_view().len() && members.deep_view()[j] == slot.0;
                    assert(all[linked.len() + j] == slot);
                }
            }
        }
        let mut k: usize = 0;
        while k < slots.len()
            invariant
                k <= slots@.len(),
                self@ == (StateView { auto_named: self@.auto_named, ..before }),
                forall|key: Slot| #[trigger]
                    self@.auto_named.contains(key) == (before.auto_named.contains(key) && !exists|
                        j: int,
                    | #![trigger slots@[j]] 0 <= j < k && before.auto_key(slots@[j]@) == key),
            decreases slots.len() - k,
        {
            let ghost earlier = self@.auto_named;
            self.clear_auto_named_window(&slots[k].session_name, slots[k].window_index);
            proof {
                assert forall|key: Slot| #[trigger]
                    self@.auto_named.contains(key) == (before.auto_named.contains(key) && !exists|
                        j: int,
                    | #![trigger slots@[j]] 0 <= j < k + 1 && before.auto_key(slots@[j]@)
                        == key) by {
                    assert(self@.auto_named.contains(key) == (earlier.contains(key) && key
                        != before.auto_key(slots@[k as int]@)));
                    if before.auto_named.contains(key) && !self@.auto_named.contains(key) {
                        if earlier.contains(key) {
                            assert(before.auto_key(slots@[k as int]@) == key);
                        }
                    }
                }
            }
            k = k + 1;
        }
        proof {
            let goal = before.family_cleared(source_slot@);
            assert forall|key: Slot| #[trigger]
                self@.auto_named.contains(key) == goal.auto_named.contains(key) by {
                if exists|slot: Slot| #[trigger]
                    before.in_family(source_slot@, slot) && before.auto_key(slot) == key {
                    let slot = choose|slot: Slot| #[trigger]
                        before.in_family(source_slot@, slot) && before.auto_key(slot) == key;
                    assert(slots.deep_view().contains(slot));
                    let j = choose|j: int|
                        0 <= j < slots.deep_view().len() && slots.deep_view()[j] == slot;
                    assert(before.auto_key(slots@[j]@) == key);
                }
                if exists|j: int|
                    #![trigger slots@[j]]
                    0 <= j < k && before.auto_key(slots@[j]@) == key {
                    let j = choose|j: int|
                        #![trigger slots@[j]]
                        0 <= j < k && before.auto_key(slots@[j]@) == key;
                    assert(slots.deep_view()[j] == slots@[j]@);
                    assert(slots.deep_view().contains(slots@[j]@));
                    assert(before.in_family(source_slot@, slots@[j]@));
                }
            }
            assert(self@.auto_named =~= goal.auto_named);
        }
    }
}

} // verus!
