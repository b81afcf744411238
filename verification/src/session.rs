//! Sessions, their windows and their panes.
use vstd::prelude::*;

use crate::names::{slot_text, slot_to_text, ErrorView, ProtoError, SessionName};
use crate::table::{Dup, Table};

verus! {

/// A pane of a window.
#[derive(Debug, Clone, Copy, PartialEq, Eq, Structural)]
pub struct Pane {
    /// The index of the pane in its window.
    pub index: u32,
    /// The identity of the pane in the server.
    pub id: u32,
}

/// A window of a session.
#[derive(Debug)]
pub struct Window {
    /// The name of the window.
    pub name: String,
    /// The panes, in layout order.
    pub panes: Vec<Pane>,
    /// The index of the active pane.
    pub active: Option<u32>,
    /// Whether the active pane covers the whole window.
    pub zoomed: bool,
}

/// The mathematical value of a [`Window`].
#[verifier::ext_equal]
pub struct WindowView {
    /// The name of the window.
    pub name: Seq<char>,
    /// The panes, in layout order.
    pub panes: Seq<Pane>,
    /// The index of the active pane.
    pub active: Option<u32>,
    /// Whether the active pane covers the whole window.
    pub zoomed: bool,
}

impl View for Window {
    type V = WindowView;

    open spec fn view(&self) -> WindowView {
        WindowView {
            name: self.name@,
            panes: self.panes@,
            active: self.active,
            zoomed: self.zoomed,
        }
    }
}

impl Dup for Window {
    fn dup(&self) -> (r: Self) {
        let panes = self.panes.clone();
        assert(panes@ =~= self.panes@);
        Window { name: self.name.clone(), panes, active: self.active, zoomed: self.zoomed }
    }
}

/// The way in which the panes of a window rotate.
#[derive(Debug, Clone, Copy, PartialEq, Eq, Structural)]
pub enum RotateWindowDirection {
    /// Each pane takes the place before it; the first goes last.
    Up,
    /// Each pane takes the place after it; the last goes first.
    Down,
}

impl WindowView {
    /// The identities of the panes, in layout order.
    pub open spec fn pane_ids(self) -> Seq<u32> {
        self.panes.map_values(|pane: Pane| pane.id)
    }

    /// The position whose pane comes to stand at position `i`.
    pub open spec fn rotation_source(self, i: int, direction: RotateWindowDirection) -> int {
        let n = self.panes.len() as int;
        match direction {
            RotateWindowDirection::Up => if i + 1 < n {
                i + 1
            } else {
                0
            },
            RotateWindowDirection::Down => if i > 0 {
                i - 1
            } else {
                n - 1
            },
        }
    }

    /// The window with its panes rotated: places keep their indices, the panes
    /// in them move. Unless the zoom is to be restored, it is given up.
    pub open spec fn rotated(self, direction: RotateWindowDirection, keep_zoom: bool) -> WindowView {
        WindowView {
            panes: Seq::new(
                self.panes.len(),
                |i: int|
                    Pane {
                        index: self.panes[i].index,
                        id: self.panes[self.rotation_source(i, direction)].id,
                    },
            ),
            zoomed: self.zoomed && keep_zoom,
            ..self
        }
    }
}

impl Window {
    /// The identities of the panes, in layout order.
    pub fn pane_ids(&self) -> (r: Vec<u32>)
        ensures
            r@ == self@.pane_ids(),
    {
        let mut out: Vec<u32> = Vec::new();
        let mut i: usize = 0;
        while i < self.panes.len()
            invariant
                i <= self.panes@.len(),
                out@ =~= self@.pane_ids().take(i as int),
            decreases self.panes.len() - i,
        {
            out.push(self.panes[i].id);
            i = i + 1;
        }
        assert(self@.pane_ids().take(i as int) =~= self@.pane_ids());
        out
    }

    /// Rotates the panes; see [`WindowView::rotated`].
    fn rotate(&mut self, direction: RotateWindowDirection, keep_zoom: bool)
        ensures
            final(self)@ == old(self)@.rotated(direction, keep_zoom),
    {
        let ghost before = self@;
        let mut panes: Vec<Pane> = Vec::new();
        let n = self.panes.len();
        let mut i: usize = 0;
        while i < n
            invariant
                i <= n,
                n == self.panes@.len(),
                self@ == before,
                panes@.len() == i,
                forall|j: int|
                    0 <= j < i ==> #[trigger] panes@[j] == before.rotated(
                        direction,
                        keep_zoom,
                    ).panes[j],
            decreases n - i,
        {
            let from: usize = match direction {
                RotateWindowDirection::Up => if i < n - 1 {
                    i + 1
                } else {
                    0
                },
                RotateWindowDirection::Down => if i > 0 {
                    i - 1
                } else {
                    n - 1
                },
            };
            panes.push(Pane { index: self.panes[i].index, id: self.panes[from].id });
            i = i + 1;
        }
        assert(panes@ =~= before.rotated(direction, keep_zoom).panes);
        self.panes = panes;
        self.zoomed = self.zoomed && keep_zoom;
    }
}

/// A session: named windows at indices, one of them active.
#[derive(Debug)]
pub struct Session {
    /// The name of the session.
    pub name: SessionName,
    /// The identity of the session in the server.
    pub id: u32,
    /// The windows by index.
    pub windows: Table<u32, Window>,
    /// The index of the active window.
    pub active: u32,
}

/// The mathematical value of a [`Session`].
#[verifier::ext_equal]
pub struct SessionView {
    /// The name of the session.
    pub name: Seq<char>,
    /// The identity of the session in the server.
    pub id: u32,
    /// The windows by index.
    pub windows: Map<u32, WindowView>,
    /// The index of the active window.
    pub active: u32,
}

impl View for Session {
    type V = SessionView;

    open spec fn view(&self) -> SessionView {
        SessionView {
            name: self.name@,
            id: self.id,
            windows: self.windows@,
            active: self.active,
        }
    }
}

impl Dup for Session {
    fn dup(&self) -> (r: Self) {
        Session {
            name: self.name.clone(),
            id: self.id,
            windows: self.windows.dup(),
            active: self.active,
        }
    }
}

/// The error for a window that a session does not have.
pub open spec fn no_window(name: Seq<char>, index: u32) -> ErrorView {
    ErrorView::InvalidTarget(slot_text((name, index)), "window index does not exist in session"@)
}

/// The error for a window index that is taken.
pub open spec fn window_taken(name: Seq<char>, index: u32) -> ErrorView {
    ErrorView::InvalidTarget(slot_text((name, index)), "window index already exists in session"@)
}

/// The error for taking the last window out of a session.
pub open spec fn only_window(name: Seq<char>) -> ErrorView {
    ErrorView::Server("cannot kill the only window in session "@ + name)
}

/// Builds [`no_window`].
pub fn no_window_error(name: &SessionName, index: u32) -> (r: ProtoError)
    ensures
        r@ == no_window(name@, index),
{
    ProtoError::invalid_target(slot_to_text(name, index), "window index does not exist in session")
}

/// Builds [`window_taken`].
pub fn window_taken_error(name: &SessionName, index: u32) -> (r: ProtoError)
    ensures
        r@ == window_taken(name@, index),
{
    ProtoError::invalid_target(slot_to_text(name, index), "window index already exists in session")
}

/// Builds [`only_window`].
pub fn only_window_error(name: &SessionName) -> (r: ProtoError)
    ensures
        r@ == only_window(name@),
{
    let mut message = "cannot kill the only window in session ".to_owned();
    message.append(&name.value);
    ProtoError::Server(message)
}

/// Whether `p` is the index that takes over when the window `index` goes: the
/// greatest one below it, or, when there is none, the greatest of all.
pub open spec fn is_previous(indices: Set<u32>, index: u32, p: u32) -> bool {
    &&& indices.contains(p)
    &&& if exists|k: u32| #[trigger] indices.contains(k) && k < index {
        &&& p < index
        &&& forall|k: u32| #[trigger] indices.contains(k) && k < index ==> k <= p
    } else {
        forall|k: u32| #[trigger] indices.contains(k) ==> k <= p
    }
}

/// The index that takes over when the window `index` goes.
pub open spec fn previous_index(indices: Set<u32>, index: u32) -> u32 {
    choose|p: u32| is_previous(indices, index, p)
}

/// Whether `order` lists `indices` in increasing order.
pub open spec fn is_order(order: Seq<u32>, indices: Set<u32>) -> bool {
    &&& forall|i: int, j: int| 0 <= i < j < order.len() ==> order[i] < order[j]
    &&& forall|i: int| 0 <= i < order.len() ==> indices.contains(#[trigger] order[i])
    &&& forall|k: u32| #[trigger] indices.contains(k) ==> order.contains(k)
}

/// The indices in increasing order.
pub open spec fn window_order(indices: Set<u32>) -> Seq<u32> {
    choose|order: Seq<u32>| is_order(order, indices)
}

/// There is only one way to list indices in increasing order.
pub proof fn lemma_order_unique(a: Seq<u32>, b: Seq<u32>, indices: Set<u32>)
    requires
        is_order(a, indices),
        is_order(b, indices),
    ensures
        a == b,
    decreases a.len(),
{
    if a.len() == 0 {
        if b.len() > 0 {
            assert(indices.contains(b[0]));
            assert(a.contains(b[0]));
        }
        assert(a =~= b);
    } else {
        assert(indices.contains(a.last()));
        assert(b.contains(a.last()));
        let i = choose|i: int| 0 <= i < b.len() && b[i] == a.last();
        assert(indices.contains(b.last()));
        assert(a.contains(b.last()));
        let j = choose|j: int| 0 <= j < a.len() && a[j] == b.last();
        assert(a.last() == b.last()) by {
            if i < b.len() - 1 {
                assert(b[i] < b[b.len() - 1]);
                if j < a.len() - 1 {
                    assert(a[j] < a[a.len() - 1]);
                }
            }
        }
        let rest = indices.remove(a.last());
        assert forall|k: u32| #[trigger] rest.contains(k) implies a.drop_last().contains(k) by {
            assert(indices.contains(k));
            let m = choose|m: int| 0 <= m < a.len() && a[m] == k;
            assert(a.drop_last()[m] == k);
        }
        assert forall|k: u32| #[trigger] rest.contains(k) implies b.drop_last().contains(k) by {
            assert(indices.contains(k));
            let m = choose|m: int| 0 <= m < b.len() && b[m] == k;
            assert(b.drop_last()[m] == k);
        }
        assert forall|m: int| 0 <= m < a.drop_last().len() implies rest.contains(
            #[trigger] a.drop_last()[m],
        ) by {
            assert(a[m] < a[a.len() - 1]);
            assert(indices.contains(a[m]));
        }
        assert forall|m: int| 0 <= m < b.drop_last().len() implies rest.contains(
            #[trigger] b.drop_last()[m],
        ) by {
            assert(b[m] < b[b.len() - 1]);
            assert(indices.contains(b[m]));
        }
        lemma_order_unique(a.drop_last(), b.drop_last(), rest);
        assert(a =~= a.drop_last().push(a.last()));
        assert(b =~= b.drop_last().push(b.last()));
    }
}

/// The indices below `n` in increasing order.
spec fn order_below(indices: Set<u32>, n: nat) -> Seq<u32>
    decreases n,
{
    if n == 0 {
        Seq::empty()
    } else {
        let front = order_below(indices, (n - 1) as nat);
        if indices.contains((n - 1) as u32) {
            front.push((n - 1) as u32)
        } else {
            front
        }
    }
}

/// What [`order_below`] lists.
proof fn lemma_order_below(indices: Set<u32>, n: nat)
    requires
        n <= u32::MAX + 1,
    ensures
        ({
            let order = order_below(indices, n);
            &&& forall|i: int, j: int| 0 <= i < j < order.len() ==> order[i] < order[j]
            &&& forall|i: int|
                0 <= i < order.len() ==> indices.contains(#[trigger] order[i]) && order[i] < n
            &&& forall|k: u32| #[trigger] indices.contains(k) && k < n ==> order.contains(k)
        }),
    decreases n,
{
    if n > 0 {
        lemma_order_below(indices, (n - 1) as nat);
        let front = order_below(indices, (n - 1) as nat);
        let order = order_below(indices, n);
        assert forall|k: u32| #[trigger] indices.contains(k) && k < n implies order.contains(k) by {
            if k < n - 1 {
                let i = choose|i: int| 0 <= i < front.len() && front[i] == k;
                assert(order[i] == k);
            } else {
                assert(order[front.len() as int] == k);
            }
        }
    }
}

/// [`window_order`] lists the indices in increasing order.
pub proof fn lemma_window_order(indices: Set<u32>)
    ensures
        is_order(window_order(indices), indices),
{
    lemma_order_below(indices, (u32::MAX + 1) as nat);
    assert(is_order(order_below(indices, (u32::MAX + 1) as nat), indices));
}

/// In an increasing list of indices, every element is at least its position.
proof fn lemma_order_bound(order: Seq<u32>, i: int)
    requires
        forall|i: int, j: int| 0 <= i < j < order.len() ==> order[i] < order[j],
        0 <= i < order.len(),
    ensures
        i <= order[i],
    decreases i,
{
    if i > 0 {
        lemma_order_bound(order, i - 1);
        assert(order[i - 1] < order[i]);
    }
}

/// Takes over for the window at `index`; see [`previous_index`].
fn previous_of(keys: &Vec<u32>, index: u32, Ghost(indices): Ghost<Set<u32>>) -> (r: u32)
    requires
        keys@.len() > 0,
        forall|i: int| 0 <= i < keys@.len() ==> indices.contains(#[trigger] keys@[i]),
        forall|k: u32| #[trigger] indices.contains(k) ==> keys@.contains(k),
    ensures
        r == previous_index(indices, index),
        is_previous(indices, index, r),
{
    let mut below: Option<u32> = None;
    let mut top: u32 = keys[0];
    let mut i: usize = 0;
    while i < keys.len()
        invariant
            0 <= i <= keys@.len(),
            keys@.len() > 0,
            keys@.contains(top),
            match below {
                Some(b) => b < index && keys@.contains(b),
                None => true,
            },
            forall|j: int| 0 <= j < i ==> #[trigger] keys@[j] <= top,
            forall|j: int|
                0 <= j < i && (#[trigger] keys@[j]) < index ==> below is Some && keys@[j]
                    <= below->0,
        decreases keys.len() - i,
    {
        let k = keys[i];
        assert(keys@.contains(k));
        if k > top {
            top = k;
        }
        if k < index {
            below = match below {
                Some(b) => if k > b {
                    Some(k)
                } else {
                    Some(b)
                },
                None => Some(k),
            };
        }
        i = i + 1;
    }
    let r = match below {
        Some(b) => b,
        None => top,
    };
    proof {
        assert forall|k: u32| #[trigger] indices.contains(k) implies (k <= top && (k < index ==> (
        below is Some && k <= below->0))) by {
            let j = choose|j: int| 0 <= j < keys@.len() && keys@[j] == k;
        }
        let m = choose|m: int| 0 <= m < keys@.len() && keys@[m] == r;
        assert(indices.contains(keys@[m]));
        assert(is_previous(indices, index, r));
        let p = previous_index(indices, index);
        assert(is_previous(indices, index, p));
        assert(indices.contains(p));
    }
    r
}

impl SessionView {
    /// The session with two windows exchanged; the active index stays.
    pub open spec fn swap_windows(self, a: u32, b: u32) -> Result<SessionView, ErrorView> {
        if !self.windows.contains_key(a) {
            Err(no_window(self.name, a))
        } else if !self.windows.contains_key(b) {
            Err(no_window(self.name, b))
        } else {
            Ok(
                SessionView {
                    windows: self.windows.insert(a, self.windows[b]).insert(b, self.windows[a]),
                    ..self
                },
            )
        }
    }

    /// The session with another active window.
    pub open spec fn select_window(self, index: u32) -> Result<SessionView, ErrorView> {
        if self.windows.contains_key(index) {
            Ok(SessionView { active: index, ..self })
        } else {
            Err(no_window(self.name, index))
        }
    }

    /// The session with another window in an index that is taken.
    pub open spec fn replace_window(self, index: u32, window: WindowView) -> Result<
        SessionView,
        ErrorView,
    > {
        if self.windows.contains_key(index) {
            Ok(SessionView { windows: self.windows.insert(index, window), ..self })
        } else {
            Err(no_window(self.name, index))
        }
    }

    /// The session without one of its windows. A session keeps at least one.
    pub open spec fn remove_window(self, index: u32) -> Result<SessionView, ErrorView> {
        if !self.windows.contains_key(index) {
            Err(no_window(self.name, index))
        } else if self.windows.dom().len() == 1 {
            Err(only_window(self.name))
        } else {
            let windows = self.windows.remove(index);
            Ok(
                SessionView {
                    windows,
                    active: if self.active == index {
                        previous_index(windows.dom(), index)
                    } else {
                        self.active
                    },
                    ..self
                },
            )
        }
    }

    /// The session with a window moved to another index. A window that stands
    /// there is replaced when `kill` is set, and stops the move otherwise.
    pub open spec fn move_window(self, from: u32, to: u32, kill: bool, select: bool) -> Result<
        SessionView,
        ErrorView,
    > {
        if !self.windows.contains_key(from) {
            Err(no_window(self.name, from))
        } else if from == to {
            Ok(
                SessionView {
                    active: if select {
                        to
                    } else {
                        self.active
                    },
                    ..self
                },
            )
        } else if self.windows.contains_key(to) && !kill {
            Err(window_taken(self.name, to))
        } else {
            let windows = self.windows.remove(from).insert(to, self.windows[from]);
            Ok(
                SessionView {
                    windows,
                    active: if select {
                        to
                    } else if self.active == from {
                        previous_index(windows.dom(), from)
                    } else {
                        self.active
                    },
                    ..self
                },
            )
        }
    }

    /// The session with the windows renumbered from zero in index order; the
    /// active window stays active.
    pub open spec fn reindexed(self) -> SessionView {
        let order = window_order(self.windows.dom());
        SessionView {
            windows: Map::new(
                |i: u32| (i as int) < order.len(),
                |i: u32| self.windows[order[i as int]],
            ),
            active: if self.windows.contains_key(self.active) {
                order.index_of(self.active) as u32
            } else {
                self.active
            },
            ..self
        }
    }

    /// The session with the panes of one window rotated.
    pub open spec fn rotate_window(
        self,
        index: u32,
        direction: RotateWindowDirection,
        keep_zoom: bool,
    ) -> Result<SessionView, ErrorView> {
        if self.windows.contains_key(index) {
            Ok(
                SessionView {
                    windows: self.windows.insert(
                        index,
                        self.windows[index].rotated(direction, keep_zoom),
                    ),
                    ..self
                },
            )
        } else {
            Err(no_window(self.name, index))
        }
    }
}

/// Whether a change to a session did what `expected` says: on success the new
/// value is the expected one, on failure the error is and nothing changed.
pub open spec fn session_change(
    before: SessionView,
    after: SessionView,
    r: Result<(), ProtoError>,
    expected: Result<SessionView, ErrorView>,
) -> bool {
    match r {
        Ok(_) => expected == Ok::<SessionView, ErrorView>(after),
        Err(error) => expected == Err::<SessionView, ErrorView>(error@) && after == before,
    }
}

impl Session {
    /// The window at an index.
    pub fn window_at(&self, index: u32) -> (r: Option<&Window>)
        ensures
            match r {
                Some(window) => self@.windows.contains_key(index) && window@
                    == self@.windows[index],
                None => !self@.windows.contains_key(index),
            },
    {
        self.windows.get(&index)
    }

    /// Exchanges two windows; see [`SessionView::swap_windows`].
    pub fn swap_windows(&mut self, a: u32, b: u32) -> (r: Result<(), ProtoError>)
        ensures
            session_change(old(self)@, final(self)@, r, old(self)@.swap_windows(a, b)),
    {
        let first = match self.windows.get(&a) {
            Some(window) => window.dup(),
            None => {
                return Err(no_window_error(&self.name, a));
            },
        };
        let second = match self.windows.get(&b) {
            Some(window) => window.dup(),
            None => {
                return Err(no_window_error(&self.name, b));
            },
        };
        self.windows.insert(a, second);
        self.windows.insert(b, first);
        Ok(())
    }

    /// Makes a window active; see [`SessionView::select_window`].
    pub fn select_window(&mut self, index: u32) -> (r: Result<(), ProtoError>)
        ensures
            session_change(old(self)@, final(self)@, r, old(self)@.select_window(index)),
    {
        if !self.windows.contains(&index) {
            return Err(no_window_error(&self.name, index));
        }
        self.active = index;
        Ok(())
    }

    /// Puts another window in place; see [`SessionView::replace_window`].
    pub fn replace_window(&mut self, index: u32, window: Window) -> (r: Result<(), ProtoError>)
        ensures
            session_change(old(self)@, final(self)@, r, old(self)@.replace_window(index, window@)),
    {
        if !self.windows.contains(&index) {
            return Err(no_window_error(&self.name, index));
        }
        self.windows.insert(index, window);
        Ok(())
    }

    /// Takes a window out; see [`SessionView::remove_window`].
    pub fn remove_window(&mut self, index: u32) -> (r: Result<(), ProtoError>)
        ensures
            session_change(old(self)@, final(self)@, r, old(self)@.remove_window(index)),
    {
        if !self.windows.contains(&index) {
            return Err(no_window_error(&self.name, index));
        }
        if self.windows.len() == 1 {
            return Err(only_window_error(&self.name));
        }
        let ghost before = self.windows@;
        let _ = self.windows.remove(&index);
        if self.active == index {
            let keys = self.windows.keys();
            proof {
                assert(keys@.len() > 0) by {
                    assert(before.remove(index).dom() =~= before.dom().remove(index));
                }
                assert forall|k: u32| #[trigger] self.windows@.dom().contains(k) implies
                    keys@.contains(k) by {
                    assert(self.windows@.contains_key(k));
                    let i = choose|i: int| 0 <= i < keys@.len() && (#[trigger] keys@[i])@ == k;
                    assert(keys@[i] == k);
                }
                assert forall|i: int| 0 <= i < keys@.len() implies self.windows@.dom().contains(
                    #[trigger] keys@[i],
                ) by {
                    assert(self.windows@.contains_key(keys@[i]@));
                }
            }
            let ghost indices = self.windows@.dom();
            self.active = previous_of(&keys, index, Ghost(indices));
        }
        Ok(())
    }

    /// Moves a window; see [`SessionView::move_window`].
    pub fn move_window(&mut self, from: u32, to: u32, kill: bool, select: bool) -> (r: Result<
        (),
        ProtoError,
    >)
        ensures
            session_change(
                old(self)@,
                final(self)@,
                r,
                old(self)@.move_window(from, to, kill, select),
            ),
    {
        let window = match self.windows.get(&from) {
            Some(window) => window.dup(),
            None => {
                return Err(no_window_error(&self.name, from));
            },
        };
        if from == to {
            if select {
                self.active = to;
            }
            return Ok(());
        }
        if self.windows.contains(&to) && !kill {
            return Err(window_taken_error(&self.name, to));
        }
        let _ = self.windows.remove(&from);
        self.windows.insert(to, window);
        if select {
            self.active = to;
        } else if self.active == from {
            let keys = self.windows.keys();
            proof {
                assert forall|k: u32| #[trigger] self.windows@.dom().contains(k) implies
                    keys@.contains(k) by {
                    assert(self.windows@.contains_key(k));
                    let i = choose|i: int| 0 <= i < keys@.len() && (#[trigger] keys@[i])@ == k;
                    assert(keys@[i] == k);
                }
                assert forall|i: int| 0 <= i < keys@.len() implies self.windows@.dom().contains(
                    #[trigger] keys@[i],
                ) by {
                    assert(self.windows@.contains_key(keys@[i]@));
                }
                assert(self.windows@.contains_key(to));
            }
            let ghost indices = self.windows@.dom();
            self.active = previous_of(&keys, from, Ghost(indices));
        }
        Ok(())
    }

    /// The window indices in increasing order.
    pub fn ordered_indices(&self) -> (r: Vec<u32>)
        ensures
            is_order(r@, self@.windows.dom()),
            r@ == window_order(self@.windows.dom()),
    {
        let keys = self.windows.keys();
        let mut out: Vec<u32> = Vec::new();
        let mut i: usize = 0;
        while i < keys.len()
            invariant
                i <= keys@.len(),
                forall|a: int, b: int| 0 <= a < b < keys@.len() ==> (#[trigger] keys@[a])@ != (
                #[trigger] keys@[b])@,
                forall|a: int, b: int| 0 <= a < b < out@.len() ==> out@[a] < out@[b],
                forall|a: int| 0 <= a < out@.len() ==> keys@.take(i as int).contains(
                    #[trigger] out@[a],
                ),
                forall|a: int| 0 <= a < i ==> out@.contains(#[trigger] keys@[a]),
            decreases keys.len() - i,
        {
            let k = keys[i];
            let mut at: usize = 0;
            assert(!out@.contains(k)) by {
                if out@.contains(k) {
                    let a = choose|a: int| 0 <= a < out@.len() && out@[a] == k;
                    let b = choose|b: int|
                        0 <= b < keys@.take(i as int).len() && keys@.take(i as int)[b] == out@[a];
                    assert(keys@[b]@ != keys@[i as int]@);
                }
            }
            while at < out.len() && out[at] < k
                invariant
                    at <= out@.len(),
                    forall|a: int, b: int| 0 <= a < b < out@.len() ==> out@[a] < out@[b],
                    forall|a: int| 0 <= a < at ==> out@[a] < k,
                decreases out.len() - at,
            {
                at = at + 1;
            }
            let ghost before = out@;
            out.insert(at, k);
            proof {
                assert forall|a: int, b: int| 0 <= a < b < out@.len() implies out@[a] < out@[b] by {
                    if b == at {
                    } else if a == at {
                        assert(before[b - 1] != k) by {
                            assert(before.contains(before[b - 1]));
                        }
                        if at < before.len() {
                            assert(before[at as int] >= k);
                            if b - 1 > at {
                                assert(before[at as int] < before[b - 1]);
                            }
                        }
                    } else {
                        let x = if a < at {
                            a
                        } else {
                            a - 1
                        };
                        let y = if b < at {
                            b
                        } else {
                            b - 1
                        };
                        assert(before[x] < before[y]);
                    }
                }
                assert forall|a: int| 0 <= a < out@.len() implies keys@.take(i + 1).contains(
                    #[trigger] out@[a],
                ) by {
                    if a == at {
                        assert(keys@.take(i + 1)[i as int] == k);
                    } else {
                        let x = if a < at {
                            a
                        } else {
                            a - 1
                        };
                        assert(keys@.take(i as int).contains(before[x]));
                        let b = choose|b: int|
                            0 <= b < keys@.take(i as int).len() && keys@.take(i as int)[b]
                                == before[x];
                        assert(keys@.take(i + 1)[b] == before[x]);
                    }
                }
                assert forall|a: int| 0 <= a < i + 1 implies out@.contains(#[trigger] keys@[a]) by {
                    if a < i {
                        assert(before.contains(keys@[a]));
                        let x = choose|x: int| 0 <= x < before.len() && before[x] == keys@[a];
                        if x < at {
                            assert(out@[x] == keys@[a]);
                        } else {
                            assert(out@[x + 1] == keys@[a]);
                        }
                    } else {
                        assert(out@[at as int] == k);
                    }
                }
            }
            i = i + 1;
        }
        proof {
            assert(keys@.take(i as int) =~= keys@);
            assert forall|a: int| 0 <= a < out@.len() implies self@.windows.dom().contains(
                #[trigger] out@[a],
            ) by {
                assert(keys@.contains(out@[a]));
                let b = choose|b: int| 0 <= b < keys@.len() && keys@[b] == out@[a];
                assert(self.windows@.contains_key(keys@[b]@));
            }
            assert forall|k: u32| #[trigger] self@.windows.dom().contains(k) implies out@.contains(
                k,
            ) by {
                assert(self.windows@.contains_key(k));
                let b = choose|b: int| 0 <= b < keys@.len() && (#[trigger] keys@[b])@ == k;
                assert(out@.contains(keys@[b]));
            }
            lemma_order_unique(
                out@,
                window_order(self@.windows.dom()),
                self@.windows.dom(),
            );
        }
        out
    }

    /// Renumbers the windows from zero; see [`SessionView::reindexed`].
    pub fn reindex_windows(&mut self)
        ensures
            final(self)@ == old(self)@.reindexed(),
    {
        let ghost before = self@;
        let order = self.ordered_indices();
        let mut windows: Table<u32, Window> = Table::new();
        let mut active = self.active;
        let mut i: usize = 0;
        while i < order.len()
            invariant
                i <= order@.len(),
                self@ == before,
                is_order(order@, before.windows.dom()),
                order@ == window_order(before.windows.dom()),
                forall|k: u32| #[trigger]
                    windows@.contains_key(k) == ((k as int) < i),
                forall|k: u32|
                    (k as int) < i ==> #[trigger] windows@[k] == before.windows[order@[k as int]],
                if order@.take(i as int).contains(before.active) {
                    (active as int) < i && order@[active as int] == before.active
                } else {
                    active == before.active
                },
            decreases order.len() - i,
        {
            proof {
                lemma_order_bound(order@, i as int);
                assert(before.windows.dom().contains(order@[i as int]));
            }
            match self.windows.get(&order[i]) {
                Some(window) => {
                    windows.insert(i as u32, window.dup());
                },
                None => {},
            }
            proof {
                assert(order@.take(i + 1) =~= order@.take(i as int).push(order@[i as int]));
                if order@.take(i as int).contains(before.active) {
                    let a = choose|a: int|
                        0 <= a < order@.take(i as int).len() && order@.take(i as int)[a]
                            == before.active;
                    assert(order@[a] < order@[i as int]);
                    assert(order@.take(i + 1)[a] == before.active);
                }
                if order@[i as int] == before.active {
                    assert(order@.take(i + 1)[i as int] == before.active);
                }
            }
            if order[i] == self.active {
                active = i as u32;
            }
            i = i + 1;
        }
        proof {
            assert(order@.take(i as int) =~= order@);
            assert(windows@ =~= before.reindexed().windows);
            if before.windows.contains_key(before.active) {
                assert(before.windows.dom().contains(before.active));
                assert(order@.contains(before.active));
                let at = order@.index_of(before.active);
                assert(order@[at] == before.active);
                assert(at == active as int) by {
                    if at < active {
                        assert(order@[at] < order@[active as int]);
                    } else if at > active {
                        assert(order@[active as int] < order@[at]);
                    }
                }
            } else {
                if order@.contains(before.active) {
                    let a = choose|a: int| 0 <= a < order@.len() && order@[a] == before.active;
                    assert(before.windows.dom().contains(order@[a]));
                }
            }
        }
        self.windows = windows;
        self.active = active;
    }

    /// Rotates the panes of a window and gives up its zoom.
    pub fn rotate_window(&mut self, index: u32, direction: RotateWindowDirection) -> (r: Result<
        (),
        ProtoError,
    >)
        ensures
            session_change(
                old(self)@,
                final(self)@,
                r,
                old(self)@.rotate_window(index, direction, false),
            ),
    {
        self.rotate_window_with_zoom(index, direction, false)
    }

    /// Rotates the panes of a window; see [`SessionView::rotate_window`].
    pub fn rotate_window_with_zoom(
        &mut self,
        index: u32,
        direction: RotateWindowDirection,
        keep_zoom: bool,
    ) -> (r: Result<(), ProtoError>)
        ensures
            session_change(
                old(self)@,
                final(self)@,
                r,
                old(self)@.rotate_window(index, direction, keep_zoom),
            ),
    {
        let mut window = match self.windows.get(&index) {
            Some(window) => window.dup(),
            None => {
                return Err(no_window_error(&self.name, index));
            },
        };
        window.rotate(direction, keep_zoom);
        self.windows.insert(index, window);
        Ok(())
    }
}

} // verus!
