//! The state of the server: sessions, window links, terminals and pane outputs.
use vstd::prelude::*;

use crate::names::{session_not_found, ErrorView, ProtoError, SessionName, Slot};
use crate::session::{window_order, Session, SessionView, WindowView};
use crate::table::{Dup, Key, KeySet, Table};
use crate::text;

verus! {

/// A window position that can be linked to others.
#[derive(Debug, PartialEq, Eq, Hash)]
pub struct WindowLinkSlot {
    /// The session of the window.
    pub session_name: SessionName,
    /// The index of the window in its session.
    pub window_index: u32,
}

impl View for WindowLinkSlot {
    type V = Slot;

    open spec fn view(&self) -> Slot {
        (self.session_name@, self.window_index)
    }
}

impl DeepView for WindowLinkSlot {
    type V = Slot;

    open spec fn deep_view(&self) -> Slot {
        self@
    }
}

impl Clone for WindowLinkSlot {
    fn clone(&self) -> (r: Self)
        ensures
            r == *self,
    {
        WindowLinkSlot { session_name: self.session_name.clone(), window_index: self.window_index }
    }
}

impl Dup for WindowLinkSlot {
    fn dup(&self) -> (r: Self) {
        self.clone()
    }
}

impl Key for WindowLinkSlot {
    fn same(&self, other: &Self) -> (r: bool) {
        self.window_index == other.window_index && self.session_name.same(&other.session_name)
    }
}

impl WindowLinkSlot {
    /// The position `window_index` of `session_name`.
    pub fn new(session_name: SessionName, window_index: u32) -> (r: WindowLinkSlot)
        ensures
            r == (WindowLinkSlot { session_name, window_index }),
    {
        WindowLinkSlot { session_name, window_index }
    }
}

/// A pane of a session, by the identity of the pane.
#[derive(Debug, PartialEq, Eq, Hash)]
pub struct PaneKey {
    /// The session that holds the pane.
    pub session_name: SessionName,
    /// The identity of the pane.
    pub pane_id: u32,
}

impl View for PaneKey {
    type V = (Seq<char>, u32);

    open spec fn view(&self) -> (Seq<char>, u32) {
        (self.session_name@, self.pane_id)
    }
}

impl Dup for PaneKey {
    fn dup(&self) -> (r: Self) {
        PaneKey { session_name: self.session_name.clone(), pane_id: self.pane_id }
    }
}

impl Key for PaneKey {
    fn same(&self, other: &Self) -> (r: bool) {
        self.pane_id == other.pane_id && self.session_name.same(&other.session_name)
    }
}

/// Windows that are one and the same window, seen in several positions.
#[derive(Debug)]
pub struct WindowLinkGroup {
    /// The session that runs the panes of the window.
    pub runtime_session_name: SessionName,
    /// The positions of the window.
    pub slots: Vec<WindowLinkSlot>,
}

/// The mathematical value of a [`WindowLinkGroup`].
#[verifier::ext_equal]
pub struct LinkGroupView {
    /// The session that runs the panes of the window.
    pub runtime: Seq<char>,
    /// The positions of the window.
    pub slots: Seq<Slot>,
}

impl View for WindowLinkGroup {
    type V = LinkGroupView;

    open spec fn view(&self) -> LinkGroupView {
        LinkGroupView { runtime: self.runtime_session_name@, slots: self.slots.deep_view() }
    }
}

impl Dup for WindowLinkGroup {
    fn dup(&self) -> (r: Self) {
        let slots = dup_slots(&self.slots);
        WindowLinkGroup { runtime_session_name: self.runtime_session_name.clone(), slots }
    }
}

/// A copy of a list of positions.
pub fn dup_slots(slots: &Vec<WindowLinkSlot>) -> (r: Vec<WindowLinkSlot>)
    ensures
        r@ == slots@,
        r.deep_view() == slots.deep_view(),
{
    let mut out: Vec<WindowLinkSlot> = Vec::new();
    let mut i: usize = 0;
    while i < slots.len()
        invariant
            i <= slots@.len(),
            out@ =~= slots@.take(i as int),
        decreases slots.len() - i,
    {
        out.push(slots[i].clone());
        i = i + 1;
    }
    assert(out@ =~= slots@);
    assert(out.deep_view() =~= slots.deep_view());
    out
}

/// Terminals or outputs of panes, each an opaque handle.
pub type PaneTable = Table<PaneKey, u64>;

/// The mathematical value of a [`PaneTable`].
pub type PaneMap = Map<(Seq<char>, u32), u64>;

/// The state of the server.
#[derive(Debug)]
pub struct HandlerState {
    /// The sessions by name.
    pub sessions: Table<SessionName, Session>,
    /// The group of each grouped session.
    pub session_groups: Table<SessionName, String>,
    /// The session that runs the panes of another one.
    pub runtime_owners: Table<SessionName, SessionName>,
    /// The link group of each linked position.
    pub window_link_slots: Table<WindowLinkSlot, u64>,
    /// The link groups.
    pub window_link_groups: Table<u64, WindowLinkGroup>,
    /// The identity that the next link group gets.
    pub next_window_link_group_id: u64,
    /// The windows whose names follow what runs in them.
    pub auto_named_windows: KeySet<WindowLinkSlot>,
    /// The sessions that have terminals at all.
    pub terminal_sessions: KeySet<SessionName>,
    /// The terminals of the panes.
    pub terminals: PaneTable,
    /// The outputs of the panes.
    pub pane_outputs: PaneTable,
}

/// The mathematical value of a [`HandlerState`].
#[verifier::ext_equal]
pub struct StateView {
    /// The sessions by name.
    pub sessions: Map<Seq<char>, SessionView>,
    /// The group of each grouped session.
    pub groups: Map<Seq<char>, Seq<char>>,
    /// The session that runs the panes of another one.
    pub owners: Map<Seq<char>, Seq<char>>,
    /// The link group of each linked position.
    pub link_slots: Map<Slot, u64>,
    /// The link groups.
    pub link_groups: Map<u64, LinkGroupView>,
    /// The identity that the next link group gets.
    pub next_link_group: u64,
    /// The windows whose names follow what runs in them.
    pub auto_named: Set<Slot>,
    /// The sessions that have terminals at all.
    pub hosts: Set<Seq<char>>,
    /// The terminals of the panes.
    pub terminals: PaneMap,
    /// The outputs of the panes.
    pub outputs: PaneMap,
}

impl View for HandlerState {
    type V = StateView;

    open spec fn view(&self) -> StateView {
        StateView {
            sessions: self.sessions@,
            groups: self.session_groups@,
            owners: self.runtime_owners@,
            link_slots: self.window_link_slots@,
            link_groups: self.window_link_groups@,
            next_link_group: self.next_window_link_group_id,
            auto_named: self.auto_named_windows@,
            hosts: self.terminal_sessions@,
            terminals: self.terminals@,
            outputs: self.pane_outputs@,
        }
    }
}

/// A map without some panes of one session.
pub open spec fn without(m: PaneMap, name: Seq<char>, ids: Seq<u32>) -> PaneMap {
    Map::new(
        |k: (Seq<char>, u32)| m.contains_key(k) && !(k.0 == name && ids.contains(k.1)),
        |k: (Seq<char>, u32)| m[k],
    )
}

/// What a map holds for some panes of one session.
pub open spec fn batch(m: PaneMap, name: Seq<char>, ids: Seq<u32>) -> Map<u32, u64> {
    Map::new(
        |id: u32| ids.contains(id) && m.contains_key((name, id)),
        |id: u32| m[(name, id)],
    )
}

/// A map with some panes of one session put in.
pub open spec fn with_batch(m: PaneMap, name: Seq<char>, entries: Map<u32, u64>) -> PaneMap {
    Map::new(
        |k: (Seq<char>, u32)| m.contains_key(k) || (k.0 == name && entries.contains_key(k.1)),
        |k: (Seq<char>, u32)|
            if k.0 == name && entries.contains_key(k.1) {
                entries[k.1]
            } else {
                m[k]
            },
    )
}

/// A map with some panes of one session handed to another.
pub open spec fn moved_panes(m: PaneMap, from: Seq<char>, to: Seq<char>, ids: Seq<u32>) -> PaneMap {
    with_batch(without(m, from, ids), to, batch(m, from, ids))
}

/// A map with panes of two sessions exchanged.
pub open spec fn swapped_panes(
    m: PaneMap,
    a: Seq<char>,
    a_ids: Seq<u32>,
    b: Seq<char>,
    b_ids: Seq<u32>,
) -> PaneMap {
    with_batch(
        with_batch(without(without(m, a, a_ids), b, b_ids), a, batch(m, b, b_ids)),
        b,
        batch(m, a, a_ids),
    )
}

/// Putting back what was taken out gives the map back.
pub proof fn lemma_put_back(m: PaneMap, name: Seq<char>, ids: Seq<u32>)
    ensures
        with_batch(without(m, name, ids), name, batch(m, name, ids)) == m,
{
    assert(with_batch(without(m, name, ids), name, batch(m, name, ids)) =~= m);
}

/// Handing panes over and back again changes nothing, as long as the panes are
/// there and none of them stands in the other session already.
pub proof fn lemma_move_back(m: PaneMap, from: Seq<char>, to: Seq<char>, ids: Seq<u32>)
    requires
        from != to,
        forall|id: u32| #[trigger] ids.contains(id) ==> m.contains_key((from, id)),
        forall|id: u32| #[trigger] ids.contains(id) ==> !m.contains_key((to, id)),
    ensures
        moved_panes(moved_panes(m, from, to, ids), to, from, ids) == m,
{
    assert(moved_panes(moved_panes(m, from, to, ids), to, from, ids) =~= m);
}

/// Exchanging panes of two sessions and back again changes nothing, as long as
/// the panes are there and none of them stands in the other session already.
pub proof fn lemma_swap_back(
    m: PaneMap,
    a: Seq<char>,
    a_ids: Seq<u32>,
    b: Seq<char>,
    b_ids: Seq<u32>,
)
    requires
        a != b,
        forall|id: u32| #[trigger] a_ids.contains(id) ==> m.contains_key((a, id)),
        forall|id: u32| #[trigger] b_ids.contains(id) ==> m.contains_key((b, id)),
        forall|id: u32| #[trigger]
            a_ids.contains(id) && !b_ids.contains(id) ==> !m.contains_key((b, id)),
        forall|id: u32| #[trigger]
            b_ids.contains(id) && !a_ids.contains(id) ==> !m.contains_key((a, id)),
    ensures
        swapped_panes(swapped_panes(m, a, a_ids, b, b_ids), a, b_ids, b, a_ids) == m,
{
    let n = swapped_panes(m, a, a_ids, b, b_ids);
    assert forall|k: (Seq<char>, u32)| #[trigger]
        swapped_panes(n, a, b_ids, b, a_ids).contains_key(k) == m.contains_key(k) by {}
    assert(swapped_panes(n, a, b_ids, b, a_ids) =~= m);
}

/// The error for a pane that has no terminal or output.
pub open spec fn no_pane(what: Seq<char>, name: Seq<char>, id: u32) -> ErrorView {
    ErrorView::Server(
        "missing "@ + what + " for pane %"@ + text::decimal(id as nat) + " in session "@ + name,
    )
}

/// The error for a pane that stands in a session already.
pub open spec fn pane_taken(what: Seq<char>, name: Seq<char>, id: u32) -> ErrorView {
    ErrorView::Server(
        "duplicate "@ + what + " for pane %"@ + text::decimal(id as nat) + " in session "@ + name,
    )
}

/// The text shared by [`no_pane`] and [`pane_taken`].
fn pane_error(kind: &str, what: &str, name: &SessionName, id: u32) -> (r: ProtoError)
    ensures
        r@ == ErrorView::Server(
            kind@ + what@ + " for pane %"@ + text::decimal(id as nat) + " in session "@ + name@,
        ),
{
    let mut message = kind.to_owned();
    message.append(what);
    message.append(" for pane %");
    let number = text::decimal_of(id as u64);
    message.append(&number);
    message.append(" in session ");
    message.append(&name.value);
    ProtoError::Server(message)
}

/// The error for the first of some panes that a map does not hold.
pub open spec fn first_missing(m: PaneMap, what: Seq<char>, name: Seq<char>, ids: Seq<u32>) -> Option<
    ErrorView,
>
    decreases ids.len(),
{
    if ids.len() == 0 {
        None
    } else {
        match first_missing(m, what, name, ids.drop_last()) {
            Some(error) => Some(error),
            None => if m.contains_key((name, ids.last())) {
                None
            } else {
                Some(no_pane(what, name, ids.last()))
            },
        }
    }
}

/// The error for the first of some panes that a map holds, those in `leaving`
/// aside.
pub open spec fn first_taken(
    m: PaneMap,
    what: Seq<char>,
    name: Seq<char>,
    ids: Seq<u32>,
    leaving: Seq<u32>,
) -> Option<ErrorView>
    decreases ids.len(),
{
    if ids.len() == 0 {
        None
    } else {
        match first_taken(m, what, name, ids.drop_last(), leaving) {
            Some(error) => Some(error),
            None => if m.contains_key((name, ids.last())) && !leaving.contains(ids.last()) {
                Some(pane_taken(what, name, ids.last()))
            } else {
                None
            },
        }
    }
}

/// Where no pane is missing, all are there.
pub proof fn lemma_none_missing(m: PaneMap, what: Seq<char>, name: Seq<char>, ids: Seq<u32>)
    requires
        first_missing(m, what, name, ids) is None,
    ensures
        forall|id: u32| #[trigger] ids.contains(id) ==> m.contains_key((name, id)),
    decreases ids.len(),
{
    if ids.len() > 0 {
        lemma_none_missing(m, what, name, ids.drop_last());
        assert forall|id: u32| #[trigger] ids.contains(id) implies m.contains_key((name, id)) by {
            let i = choose|i: int| 0 <= i < ids.len() && ids[i] == id;
            if i < ids.len() - 1 {
                assert(ids.drop_last()[i] == id);
                assert(ids.drop_last().contains(id));
            }
        }
    }
}

/// Where all panes are there, none is missing.
pub proof fn lemma_all_present(m: PaneMap, what: Seq<char>, name: Seq<char>, ids: Seq<u32>)
    requires
        forall|id: u32| #[trigger] ids.contains(id) ==> m.contains_key((name, id)),
    ensures
        first_missing(m, what, name, ids) is None,
    decreases ids.len(),
{
    if ids.len() > 0 {
        assert forall|id: u32| #[trigger] ids.drop_last().contains(id) implies m.contains_key(
            (name, id),
        ) by {
            let i = choose|i: int| 0 <= i < ids.drop_last().len() && ids.drop_last()[i] == id;
            assert(ids[i] == id);
            assert(ids.contains(id));
        }
        lemma_all_present(m, what, name, ids.drop_last());
        assert(ids.contains(ids.last()));
    }
}

/// Where no pane is taken, none is there but those that leave.
pub proof fn lemma_none_taken(
    m: PaneMap,
    what: Seq<char>,
    name: Seq<char>,
    ids: Seq<u32>,
    leaving: Seq<u32>,
)
    requires
        first_taken(m, what, name, ids, leaving) is None,
    ensures
        forall|id: u32| #[trigger]
            ids.contains(id) && !leaving.contains(id) ==> !m.contains_key((name, id)),
    decreases ids.len(),
{
    if ids.len() > 0 {
        lemma_none_taken(m, what, name, ids.drop_last(), leaving);
        assert forall|id: u32| #[trigger] ids.contains(id) && !leaving.contains(id) implies
            !m.contains_key((name, id)) by {
            let i = choose|i: int| 0 <= i < ids.len() && ids[i] == id;
            if i < ids.len() - 1 {
                assert(ids.drop_last()[i] == id);
                assert(ids.drop_last().contains(id));
            }
        }
    }
}

/// Finds [`first_missing`].
fn check_present(table: &PaneTable, what: &str, name: &SessionName, ids: &Vec<u32>) -> (r: Option<
    ProtoError,
>)
    ensures
        r.deep_view() == first_missing(table@, what@, name@, ids@),
{
    let mut i: usize = 0;
    assert(ids@.take(0).len() == 0);
    while i < ids.len()
        invariant
            i <= ids@.len(),
            first_missing(table@, what@, name@, ids@.take(i as int)) is None,
        decreases ids.len() - i,
    {
        let key = PaneKey { session_name: name.clone(), pane_id: ids[i] };
        assert(ids@.take(i + 1).drop_last() =~= ids@.take(i as int));
        assert(ids@.take(i + 1).last() == ids@[i as int]);
        if !table.contains(&key) {
            let error = pane_error("missing ", what, name, ids[i]);
            proof {
                lemma_missing_stays(table@, what@, name@, ids@, i + 1);
            }
            return Some(error);
        }
        i = i + 1;
    }
    assert(ids@.take(i as int) =~= ids@);
    None
}

/// A pane missing among the first ones is the first missing of all.
proof fn lemma_missing_stays(
    m: PaneMap,
    what: Seq<char>,
    name: Seq<char>,
    ids: Seq<u32>,
    upto: int,
)
    requires
        0 <= upto <= ids.len(),
        first_missing(m, what, name, ids.take(upto)) is Some,
    ensures
        first_missing(m, what, name, ids) == first_missing(m, what, name, ids.take(upto)),
    decreases ids.len() - upto,
{
    if upto < ids.len() {
        assert(ids.take(upto + 1).drop_last() =~= ids.take(upto));
        lemma_missing_stays(m, what, name, ids, upto + 1);
    } else {
        assert(ids.take(upto) =~= ids);
    }
}

/// Finds [`first_taken`].
fn check_free(
    table: &PaneTable,
    what: &str,
    name: &SessionName,
    ids: &Vec<u32>,
    leaving: &Vec<u32>,
) -> (r: Option<ProtoError>)
    ensures
        r.deep_view() == first_taken(table@, what@, name@, ids@, leaving@),
{
    let mut i: usize = 0;
    assert(ids@.take(0).len() == 0);
    while i < ids.len()
        invariant
            i <= ids@.len(),
            first_taken(table@, what@, name@, ids@.take(i as int), leaving@) is None,
        decreases ids.len() - i,
    {
        let key = PaneKey { session_name: name.clone(), pane_id: ids[i] };
        assert(ids@.take(i + 1).drop_last() =~= ids@.take(i as int));
        assert(ids@.take(i + 1).last() == ids@[i as int]);
        if table.contains(&key) && !holds(leaving, ids[i]) {
            let error = pane_error("duplicate ", what, name, ids[i]);
            proof {
                lemma_taken_stays(table@, what@, name@, ids@, leaving@, i + 1);
            }
            return Some(error);
        }
        i = i + 1;
    }
    assert(ids@.take(i as int) =~= ids@);
    None
}

/// A pane taken among the first ones is the first taken of all.
proof fn lemma_taken_stays(
    m: PaneMap,
    what: Seq<char>,
    name: Seq<char>,
    ids: Seq<u32>,
    leaving: Seq<u32>,
    upto: int,
)
    requires
        0 <= upto <= ids.len(),
        first_taken(m, what, name, ids.take(upto), leaving) is Some,
    ensures
        first_taken(m, what, name, ids, leaving) == first_taken(
            m,
            what,
            name,
            ids.take(upto),
            leaving,
        ),
    decreases ids.len() - upto,
{
    if upto < ids.len() {
        assert(ids.take(upto + 1).drop_last() =~= ids.take(upto));
        lemma_taken_stays(m, what, name, ids, leaving, upto + 1);
    } else {
        assert(ids.take(upto) =~= ids);
    }
}

/// Whether a list holds a number.
fn holds(list: &Vec<u32>, id: u32) -> (r: bool)
    ensures
        r == list@.contains(id),
{
    let mut i: usize = 0;
    while i < list.len()
        invariant
            i <= list@.len(),
            forall|j: int| 0 <= j < i ==> list@[j] != id,
        decreases list.len() - i,
    {
        if list[i] == id {
            return true;
        }
        i = i + 1;
    }
    false
}

/// Takes some panes of a session out of a table.
pub fn take_batch(table: &mut PaneTable, name: &SessionName, ids: &Vec<u32>) -> (r: Table<u32, u64>)
    ensures
        final(table)@ == without(old(table)@, name@, ids@),
        r@ == batch(old(table)@, name@, ids@),
{
    let ghost before = table@;
    let mut out: Table<u32, u64> = Table::new();
    let mut i: usize = 0;
    while i < ids.len()
        invariant
            i <= ids@.len(),
            table@ =~= without(before, name@, ids@.take(i as int)),
            out@ =~= batch(before, name@, ids@.take(i as int)),
        decreases ids.len() - i,
    {
        let key = PaneKey { session_name: name.clone(), pane_id: ids[i] };
        let ghost earlier = ids@.take(i as int);
        let ghost later = ids@.take(i + 1);
        proof {
            assert(later =~= earlier.push(ids@[i as int]));
            assert forall|id: u32| #[trigger]
                later.contains(id) == (earlier.contains(id) || id == ids@[i as int]) by {
                if earlier.contains(id) {
                    let j = choose|j: int| 0 <= j < earlier.len() && earlier[j] == id;
                    assert(later[j] == id);
                }
                if id == ids@[i as int] {
                    assert(later[i as int] == id);
                }
                if later.contains(id) {
                    let j = choose|j: int| 0 <= j < later.len() && later[j] == id;
                    if j < i {
                        assert(earlier[j] == id);
                    }
                }
            }
        }
        match table.remove(&key) {
            Some(handle) => {
                out.insert(ids[i], handle);
            },
            None => {},
        }
        i = i + 1;
    }
    assert(ids@.take(i as int) =~= ids@);
    out
}

/// Puts panes of a session into a table.
pub fn put_batch(table: &mut PaneTable, name: &SessionName, entries: &Table<u32, u64>)
    ensures
        final(table)@ == with_batch(old(table)@, name@, entries@),
{
    let ghost before = table@;
    let keys = entries.keys();
    let mut i: usize = 0;
    while i < keys.len()
        invariant
            i <= keys@.len(),
            forall|j: int| 0 <= j < keys@.len() ==> entries@.contains_key((#[trigger] keys@[j])@),
            forall|k: (Seq<char>, u32)| #[trigger]
                table@.contains_key(k) == (before.contains_key(k) || (k.0 == name@
                    && keys@.take(i as int).contains(k.1))),
            forall|k: (Seq<char>, u32)|
                #![trigger table@[k]]
                if k.0 == name@ && keys@.take(i as int).contains(k.1) {
                    table@[k] == entries@[k.1]
                } else {
                    table@[k] == before[k]
                },
        decreases keys.len() - i,
    {
        let ghost earlier = keys@.take(i as int);
        let ghost later = keys@.take(i + 1);
        proof {
            assert(later =~= earlier.push(keys@[i as int]));
            assert forall|id: u32| #[trigger]
                later.contains(id) == (earlier.contains(id) || id == keys@[i as int]) by {
                if earlier.contains(id) {
                    let j = choose|j: int| 0 <= j < earlier.len() && earlier[j] == id;
                    assert(later[j] == id);
                }
                if id == keys@[i as int] {
                    assert(later[i as int] == id);
                }
                if later.contains(id) {
                    let j = choose|j: int| 0 <= j < later.len() && later[j] == id;
                    if j < i {
                        assert(earlier[j] == id);
                    }
                }
            }
            assert(entries@.contains_key(keys@[i as int]@));
        }
        match entries.get(&keys[i]) {
            Some(handle) => {
                table.insert(
                    PaneKey { session_name: name.clone(), pane_id: keys[i] },
                    *handle,
                );
            },
            None => {},
        }
        i = i + 1;
    }
    proof {
        assert(keys@.take(i as int) =~= keys@);
        assert forall|id: u32| #[trigger] keys@.contains(id) == entries@.contains_key(id) by {
            if keys@.contains(id) {
                let j = choose|j: int| 0 <= j < keys@.len() && keys@[j] == id;
                assert(entries@.contains_key(keys@[j]@));
            }
            if entries@.contains_key(id) {
                let j = choose|j: int| 0 <= j < keys@.len() && (#[trigger] keys@[j])@ == id;
                assert(keys@[j] == id);
            }
        }
        assert(table@ =~= with_batch(before, name@, entries@));
    }
}

/// Hands panes of one session to another, as far as they are there.
pub fn hand_over(table: &mut PaneTable, from: &SessionName, to: &SessionName, ids: &Vec<u32>)
    ensures
        final(table)@ == moved_panes(old(table)@, from@, to@, ids@),
{
    let entries = take_batch(table, from, ids);
    put_batch(table, to, &entries);
}

/// Hands panes of one session to another; refused when a pane is missing or
/// stands in the other session already, and nothing changes.
pub fn move_panes(
    table: &mut PaneTable,
    what: &str,
    from: &SessionName,
    to: &SessionName,
    ids: &Vec<u32>,
) -> (r: Result<(), ProtoError>)
    ensures
        match move_refusal(old(table)@, what@, from@, to@, ids@) {
            Some(error) => r is Err && r->Err_0@ == error && final(table)@ == old(table)@,
            None => r is Ok && final(table)@ == moved_panes(old(table)@, from@, to@, ids@),
        },
{
    let nothing: Vec<u32> = Vec::new();
    if let Some(error) = check_present(table, what, from, ids) {
        return Err(error);
    }
    assert(nothing@ =~= Seq::<u32>::empty());
    if let Some(error) = check_free(table, what, to, ids, &nothing) {
        return Err(error);
    }
    hand_over(table, from, to, ids);
    Ok(())
}

/// Why a move of panes is refused.
pub open spec fn move_refusal(
    m: PaneMap,
    what: Seq<char>,
    from: Seq<char>,
    to: Seq<char>,
    ids: Seq<u32>,
) -> Option<ErrorView> {
    match first_missing(m, what, from, ids) {
        Some(error) => Some(error),
        None => first_taken(m, what, to, ids, Seq::empty()),
    }
}

/// Why an exchange of panes is refused.
pub open spec fn swap_refusal(
    m: PaneMap,
    what: Seq<char>,
    a: Seq<char>,
    a_ids: Seq<u32>,
    b: Seq<char>,
    b_ids: Seq<u32>,
) -> Option<ErrorView> {
    match first_missing(m, what, a, a_ids) {
        Some(error) => Some(error),
        None => match first_missing(m, what, b, b_ids) {
            Some(error) => Some(error),
            None => match first_taken(m, what, b, a_ids, b_ids) {
                Some(error) => Some(error),
                None => first_taken(m, what, a, b_ids, a_ids),
            },
        },
    }
}

/// Exchanges panes of two sessions, as far as they are there.
pub fn exchange(
    table: &mut PaneTable,
    a: &SessionName,
    a_ids: &Vec<u32>,
    b: &SessionName,
    b_ids: &Vec<u32>,
)
    requires
        a@ != b@,
    ensures
        final(table)@ == swapped_panes(old(table)@, a@, a_ids@, b@, b_ids@),
{
    let ghost before = table@;
    let from_a = take_batch(table, a, a_ids);
    let from_b = take_batch(table, b, b_ids);
    assert(from_b@ =~= batch(before, b@, b_ids@));
    put_batch(table, a, &from_b);
    put_batch(table, b, &from_a);
}

/// Exchanges panes of two sessions; refused when a pane is missing or stands
/// in the other session already, and nothing changes.
pub fn swap_panes(
    table: &mut PaneTable,
    what: &str,
    a: &SessionName,
    a_ids: &Vec<u32>,
    b: &SessionName,
    b_ids: &Vec<u32>,
) -> (r: Result<(), ProtoError>)
    requires
        a@ != b@,
    ensures
        match swap_refusal(old(table)@, what@, a@, a_ids@, b@, b_ids@) {
            Some(error) => r is Err && r->Err_0@ == error && final(table)@ == old(table)@,
            None => r is Ok && final(table)@ == swapped_panes(
                old(table)@,
                a@,
                a_ids@,
                b@,
                b_ids@,
            ),
        },
{
    if let Some(error) = check_present(table, what, a, a_ids) {
        return Err(error);
    }
    if let Some(error) = check_present(table, what, b, b_ids) {
        return Err(error);
    }
    if let Some(error) = check_free(table, what, b, a_ids, b_ids) {
        return Err(error);
    }
    if let Some(error) = check_free(table, what, a, b_ids, a_ids) {
        return Err(error);
    }
    exchange(table, a, a_ids, b, b_ids);
    Ok(())
}

/// The panes of the windows at some indices, in order.
pub open spec fn panes_in_order(windows: Map<u32, WindowView>, order: Seq<u32>) -> Seq<u32>
    decreases order.len(),
{
    if order.len() == 0 {
        Seq::empty()
    } else {
        panes_in_order(windows, order.drop_last()) + windows[order.last()].pane_ids()
    }
}

/// A pane is listed exactly when one of the windows has it.
pub proof fn lemma_panes_in_order(windows: Map<u32, WindowView>, order: Seq<u32>)
    ensures
        forall|id: u32| #[trigger]
            panes_in_order(windows, order).contains(id) <==> exists|j: int|
                0 <= j < order.len() && (#[trigger] windows[order[j]]).pane_ids().contains(id),
    decreases order.len(),
{
    if order.len() > 0 {
        let front = order.drop_last();
        lemma_panes_in_order(windows, front);
        let head = panes_in_order(windows, front);
        let tail = windows[order.last()].pane_ids();
        let all = panes_in_order(windows, order);
        assert forall|id: u32| #[trigger] all.contains(id) <==> exists|j: int|
            0 <= j < order.len() && (#[trigger] windows[order[j]]).pane_ids().contains(id) by {
            if all.contains(id) {
                let i = choose|i: int| 0 <= i < all.len() && all[i] == id;
                if i < head.len() {
                    assert(head[i] == id);
                    assert(head.contains(id));
                    let j = choose|j: int|
                        0 <= j < front.len() && (#[trigger] windows[front[j]]).pane_ids().contains(
                            id,
                        );
                    assert(windows[order[j]].pane_ids().contains(id));
                } else {
                    assert(tail[i - head.len()] == id);
                    assert(windows[order[order.len() - 1]].pane_ids().contains(id));
                }
            }
            if exists|j: int|
                0 <= j < order.len() && (#[trigger] windows[order[j]]).pane_ids().contains(id) {
                let j = choose|j: int|
                    0 <= j < order.len() && (#[trigger] windows[order[j]]).pane_ids().contains(id);
                if j < front.len() {
                    assert(windows[front[j]].pane_ids().contains(id));
                    assert(head.contains(id));
                    let i = choose|i: int| 0 <= i < head.len() && head[i] == id;
                    assert(all[i] == id);
                } else {
                    let i = choose|i: int| 0 <= i < tail.len() && tail[i] == id;
                    assert(all[head.len() + i] == id);
                }
            }
        }
    }
}

impl SessionView {
    /// The identities of all panes, window by window.
    pub open spec fn all_pane_ids(self) -> Seq<u32> {
        panes_in_order(self.windows, window_order(self.windows.dom()))
    }
}

/// The identities of all panes of a session, window by window.
pub fn session_pane_ids(session: &Session) -> (r: Vec<u32>)
    ensures
        r@ == session@.all_pane_ids(),
{
    let order = session.ordered_indices();
    let mut out: Vec<u32> = Vec::new();
    let mut i: usize = 0;
    while i < order.len()
        invariant
            i <= order@.len(),
            order@ == window_order(session@.windows.dom()),
            forall|j: int|
                0 <= j < order@.len() ==> session@.windows.dom().contains(#[trigger] order@[j]),
            out@ == panes_in_order(session@.windows, order@.take(i as int)),
        decreases order.len() - i,
    {
        assert(order@.take(i + 1).drop_last() =~= order@.take(i as int));
        assert(session@.windows.dom().contains(order@[i as int]));
        match session.windows.get(&order[i]) {
            Some(window) => {
                let mut ids = window.pane_ids();
                out.append(&mut ids);
            },
            None => {},
        }
        i = i + 1;
    }
    assert(order@.take(i as int) =~= order@);
    out
}

impl StateView {
    /// The session that runs the panes of a session.
    pub open spec fn runtime(self, name: Seq<char>) -> Seq<char> {
        if self.owners.contains_key(name) {
            self.owners[name]
        } else {
            name
        }
    }

    /// Why some panes of a session cannot be used.
    pub open spec fn pane_refusal(self, name: Seq<char>, ids: Seq<u32>) -> Option<ErrorView> {
        if !self.hosts.contains(name) {
            Some(ErrorView::SessionNotFound(name))
        } else {
            first_missing(self.terminals, "terminal"@, name, ids)
        }
    }

    /// The state with one session put in place.
    pub open spec fn with_session(self, name: Seq<char>, session: SessionView) -> StateView {
        StateView { sessions: self.sessions.insert(name, session), ..self }
    }

    /// Whether two sessions are in one group.
    pub open spec fn grouped(self, a: Seq<char>, b: Seq<char>) -> bool {
        self.groups.contains_key(a) && self.groups.contains_key(b) && self.groups[a]
            == self.groups[b]
    }

    /// The state in which every session of the group of `name` shows its
    /// windows. A session whose active window is gone follows `name`.
    pub open spec fn synchronized(self, name: Seq<char>) -> Result<StateView, ErrorView> {
        if self.sessions.contains_key(name) {
            Ok(
                StateView {
                    sessions: Map::new(
                        |k: Seq<char>| self.sessions.contains_key(k),
                        |k: Seq<char>|
                            if k != name && self.grouped(k, name) {
                                mirrored(self.sessions[k], self.sessions[name])
                            } else {
                                self.sessions[k]
                            },
                    ),
                    ..self
                },
            )
        } else {
            Err(ErrorView::SessionNotFound(name))
        }
    }
}

/// A session that shows the windows of another.
pub open spec fn mirrored(session: SessionView, source: SessionView) -> SessionView {
    SessionView {
        windows: source.windows,
        active: if source.windows.contains_key(session.active) {
            session.active
        } else {
            source.active
        },
        ..session
    }
}

/// Whether a change to the state did what `expected` says: on success the new
/// value is the expected one, on failure the error is and nothing changed.
pub open spec fn state_change(
    before: StateView,
    after: StateView,
    r: Result<(), ProtoError>,
    expected: Result<StateView, ErrorView>,
) -> bool {
    match r {
        Ok(_) => expected == Ok::<StateView, ErrorView>(after),
        Err(error) => expected == Err::<StateView, ErrorView>(error@) && after == before,
    }
}

impl HandlerState {
    /// The state of a server without sessions.
    pub fn new() -> (r: HandlerState)
        ensures
            r@ == (StateView {
                sessions: Map::empty(),
                groups: Map::empty(),
                owners: Map::empty(),
                link_slots: Map::empty(),
                link_groups: Map::empty(),
                next_link_group: 0,
                auto_named: Set::empty(),
                hosts: Set::empty(),
                terminals: Map::empty(),
                outputs: Map::empty(),
            }),
    {
        HandlerState {
            sessions: Table::new(),
            session_groups: Table::new(),
            runtime_owners: Table::new(),
            window_link_slots: Table::new(),
            window_link_groups: Table::new(),
            next_window_link_group_id: 0,
            auto_named_windows: KeySet::new(),
            terminal_sessions: KeySet::new(),
            terminals: Table::new(),
            pane_outputs: Table::new(),
        }
    }

    /// The session that runs the panes of a session.
    pub fn runtime_session_name(&self, name: &SessionName) -> (r: SessionName)
        ensures
            r@ == self@.runtime(name@),
    {
        match self.runtime_owners.get(name) {
            Some(owner) => owner.dup(),
            None => name.clone(),
        }
    }

    /// A copy of a session.
    pub fn session_copy(&self, name: &SessionName) -> (r: Result<Session, ProtoError>)
        ensures
            match r {
                Ok(session) => self@.sessions.contains_key(name@) && session@
                    == self@.sessions[name@],
                Err(error) => !self@.sessions.contains_key(name@) && error@
                    == ErrorView::SessionNotFound(name@),
            },
    {
        match self.sessions.get(name) {
            Some(session) => Ok(session.dup()),
            None => Err(session_not_found(name)),
        }
    }

    /// Puts a session in place.
    pub fn replace_session(&mut self, name: &SessionName, session: Session)
        ensures
            final(self)@ == old(self)@.with_session(name@, session@),
    {
        self.sessions.insert(name.clone(), session);
    }

    /// Whether the panes of a session have terminals.
    pub fn ensure_panes_exist(&self, name: &SessionName, ids: &Vec<u32>) -> (r: Result<
        (),
        ProtoError,
    >)
        ensures
            match self@.pane_refusal(name@, ids@) {
                Some(error) => r is Err && r->Err_0@ == error,
                None => r is Ok,
            },
    {
        if !self.terminal_sessions.contains(name) {
            return Err(session_not_found(name));
        }
        match check_present(&self.terminals, "terminal", name, ids) {
            Some(error) => Err(error),
            None => Ok(()),
        }
    }

    /// The group of a session.
    pub fn session_group_name(&self, name: &SessionName) -> (r: Option<&String>)
        ensures
            match r {
                Some(group) => self@.groups.contains_key(name@) && group@ == self@.groups[name@],
                None => !self@.groups.contains_key(name@),
            },
    {
        self.session_groups.get(name)
    }

    /// Whether two sessions are in one group.
    pub fn in_one_group(&self, a: &SessionName, b: &SessionName) -> (r: bool)
        ensures
            r == self@.grouped(a@, b@),
    {
        match (self.session_group_name(a), self.session_group_name(b)) {
            (Some(x), Some(y)) => text::str_eq(x, y),
            _ => false,
        }
    }

    /// The sessions in the group of a session.
    pub fn session_group_members(&self, name: &SessionName) -> (r: Vec<SessionName>)
        ensures
            forall|k: Seq<char>| #[trigger]
                r.deep_view().contains(k) == self@.grouped(k, name@),
    {
        let keys = self.session_groups.keys();
        let mut out: Vec<SessionName> = Vec::new();
        let mut i: usize = 0;
        while i < keys.len()
            invariant
                i <= keys@.len(),
                forall|j: int|
                    0 <= j < out@.len() ==> self@.grouped((#[trigger] out@[j])@, name@),
                forall|j: int|
                    0 <= j < i && self@.grouped((#[trigger] keys@[j])@, name@) ==> exists|m: int|
                        0 <= m < out@.len() && (#[trigger] out@[m])@ == keys@[j]@,
            decreases keys.len() - i,
        {
            if self.in_one_group(&keys[i], name) {
                let ghost before = out@;
                out.push(keys[i].clone());
                proof {
                    assert forall|j: int|
                        0 <= j < i + 1 && self@.grouped(
                            (#[trigger] keys@[j])@,
                            name@,
                        ) implies exists|m: int|
                        0 <= m < out@.len() && (#[trigger] out@[m])@ == keys@[j]@ by {
                        if j < i {
                            let m = choose|m: int|
                                0 <= m < before.len() && (#[trigger] before[m])@ == keys@[j]@;
                            assert(out@[m]@ == keys@[j]@);
                        } else {
                            assert(out@[out@.len() - 1]@ == keys@[j]@);
                        }
                    }
                }
            }
            i = i + 1;
        }
        proof {
            assert forall|k: Seq<char>| #[trigger]
                out.deep_view().contains(k) == self@.grouped(k, name@) by {
                if out.deep_view().contains(k) {
                    let j = choose|j: int|
                        0 <= j < out.deep_view().len() && out.deep_view()[j] == k;
                    assert(self@.grouped(out@[j]@, name@));
                }
                if self@.grouped(k, name@) {
                    let j = choose|j: int| 0 <= j < keys@.len() && (#[trigger] keys@[j])@ == k;
                    let m = choose|m: int|
                        0 <= m < out@.len() && (#[trigger] out@[m])@ == keys@[j]@;
                    assert(out.deep_view()[m] == k);
                }
            }
        }
        out
    }

    /// Makes every session of a group show the windows of one of them.
    pub fn synchronize_session_group_from(&mut self, name: &SessionName) -> (r: Result<
        (),
        ProtoError,
    >)
        ensures
            state_change(old(self)@, final(self)@, r, old(self)@.synchronized(name@)),
    {
        let source = self.session_copy(name)?;
        let ghost before = self@;
        let ghost goal = before.synchronized(name@)->Ok_0;
        let keys = self.sessions.keys();
        let mut i: usize = 0;
        while i < keys.len()
            invariant
                i <= keys@.len(),
                before.sessions.contains_key(name@),
                goal == before.synchronized(name@)->Ok_0,
                source@ == before.sessions[name@],
                forall|j: int|
                    0 <= j < keys@.len() ==> before.sessions.contains_key((#[trigger] keys@[j])@),
                forall|a: int, b: int|
                    0 <= a < b < keys@.len() ==> (#[trigger] keys@[a])@ != (#[trigger] keys@[b])@,
                self@ == (StateView { sessions: self@.sessions, ..before }),
                forall|k: Seq<char>| #[trigger]
                    self@.sessions.contains_key(k) == before.sessions.contains_key(k),
                forall|j: int|
                    0 <= j < i ==> self@.sessions[(#[trigger] keys@[j])@]
                        == goal.sessions[keys@[j]@],
                forall|j: int|
                    i <= j < keys@.len() ==> self@.sessions[(#[trigger] keys@[j])@]
                        == before.sessions[keys@[j]@],
            decreases keys.len() - i,
        {
            let key = &keys[i];
            assert(before.sessions.contains_key(key@));
            if !key.same(name) && self.in_one_group(key, name) {
                match self.sessions.get(key) {
                    Some(session) => {
                        let active = if source.windows.contains(&session.active) {
                            session.active
                        } else {
                            source.active
                        };
                        let mirror = Session {
                            name: session.name.clone(),
                            id: session.id,
                            windows: source.windows.dup(),
                            active,
                        };
                        self.sessions.insert(key.clone(), mirror);
                    },
                    None => {},
                }
            }
            i = i + 1;
        }
        proof {
            assert forall|k: Seq<char>| before.sessions.contains_key(k) implies #[trigger]
                self@.sessions[k] == goal.sessions[k] by {
                let j = choose|j: int| 0 <= j < keys@.len() && (#[trigger] keys@[j])@ == k;
                assert(self@.sessions[keys@[j]@] == goal.sessions[keys@[j]@]);
            }
            assert(self@.sessions =~= goal.sessions);
        }
        Ok(())
    }
}

} // verus!
