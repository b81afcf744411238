//! Finite maps and sets keyed by values that compare by their views.
use vstd::prelude::*;

verus! {

/// Values that can be duplicated without changing what they mean.
pub trait Dup: View + Sized {
    /// A value with the same meaning.
    fn dup(&self) -> (r: Self)
        ensures
            r@ == self@,
    ;
}

/// Values that can serve as keys.
pub trait Key: Dup {
    /// Whether two keys have the same meaning.
    fn same(&self, other: &Self) -> (r: bool)
        ensures
            r == (self@ == other@),
    ;
}

impl Dup for u32 {
    fn dup(&self) -> (r: Self) {
        *self
    }
}

impl Key for u32 {
    fn same(&self, other: &Self) -> (r: bool) {
        *self == *other
    }
}

impl Dup for u64 {
    fn dup(&self) -> (r: Self) {
        *self
    }
}

impl Key for u64 {
    fn same(&self, other: &Self) -> (r: bool) {
        *self == *other
    }
}

impl Dup for bool {
    fn dup(&self) -> (r: Self) {
        *self
    }
}

impl Dup for String {
    fn dup(&self) -> (r: Self) {
        self.clone()
    }
}

impl Key for String {
    fn same(&self, other: &Self) -> (r: bool) {
        crate::text::str_eq(self, other)
    }
}

/// A finite map, held as a list of entries whose keys are pairwise different.
#[derive(Debug)]
pub struct Table<K: Key, V: View> {
    entries: Vec<(K, V)>,
}

/// Whether the entry at `i` is the one for `k`.
pub closed spec fn keyed<K: Key, V: View>(s: Seq<(K, V)>, i: int, k: K::V) -> bool {
    0 <= i < s.len() && s[i].0@ == k
}

impl<K: Key, V: View> Table<K, V> {
    #[verifier::type_invariant]
    spec fn distinct(&self) -> bool {
        forall|i: int, j: int|
            0 <= i < j < self.entries@.len() ==> (#[trigger] self.entries@[i]).0@ != (
            #[trigger] self.entries@[j]).0@
    }
}

impl<K: Key, V: View> View for Table<K, V> {
    type V = Map<K::V, V::V>;

    closed spec fn view(&self) -> Map<K::V, V::V> {
        contents(self.entries@)
    }
}

/// The map that a list of entries stands for.
closed spec fn contents<K: Key, V: View>(s: Seq<(K, V)>) -> Map<K::V, V::V> {
    Map::new(
        |k: K::V| exists|i: int| keyed(s, i, k),
        |k: K::V| s[choose|i: int| keyed(s, i, k)].1@,
    )
}

/// Whether the keys of a list of entries are pairwise different.
spec fn all_distinct<K: Key, V: View>(s: Seq<(K, V)>) -> bool {
    forall|i: int, j: int|
        0 <= i < j < s.len() ==> (#[trigger] s[i]).0@ != (#[trigger] s[j]).0@
}

/// With distinct keys, the entry at `i` is what the map holds for its key.
proof fn lemma_entry<K: Key, V: View>(s: Seq<(K, V)>, i: int)
    requires
        all_distinct(s),
        0 <= i < s.len(),
    ensures
        contents(s).contains_key(s[i].0@),
        contents(s)[s[i].0@] == s[i].1@,
{
    assert(keyed(s, i, s[i].0@));
    let j = choose|j: int| keyed(s, j, s[i].0@);
    assert(keyed(s, j, s[i].0@));
    assert(i == j) by {
        if i < j {
            assert(s[i].0@ != s[j].0@);
        } else if j < i {
            assert(s[j].0@ != s[i].0@);
        }
    }
}

/// The domain of the map is finite, with one element for each entry.
proof fn lemma_size<K: Key, V: View>(s: Seq<(K, V)>)
    requires
        all_distinct(s),
    ensures
        contents(s).dom().finite(),
        contents(s).dom().len() == s.len(),
    decreases s.len(),
{
    if s.len() == 0 {
        assert(contents(s).dom() =~= Set::empty()) by {
            assert forall|k: K::V| !contents(s).dom().contains(k) by {
                if exists|i: int| keyed(s, i, k) {
                    let i = choose|i: int| keyed(s, i, k);
                }
            }
        }
    } else {
        let front = s.drop_last();
        lemma_size(front);
        let last = s.last().0@;
        assert(contents(s).dom() =~= contents(front).dom().insert(last)) by {
            assert forall|k: K::V|
                contents(s).dom().contains(k) == contents(front).dom().insert(last).contains(k) by {
                if contents(s).dom().contains(k) {
                    let i = choose|i: int| keyed(s, i, k);
                    if i < front.len() {
                        assert(keyed(front, i, k));
                    }
                }
                if contents(front).dom().contains(k) {
                    let i = choose|i: int| keyed(front, i, k);
                    assert(keyed(s, i, k));
                }
                if k == last {
                    assert(keyed(s, s.len() - 1, k));
                }
            }
        }
        assert(!contents(front).dom().contains(last)) by {
            if contents(front).dom().contains(last) {
                let i = choose|i: int| keyed(front, i, last);
                assert(s[i].0@ != s[s.len() - 1].0@);
            }
        }
    }
}

/// Appending an entry with a new key adds it to the map.
proof fn lemma_push<K: Key, V: View>(s: Seq<(K, V)>, e: (K, V))
    requires
        all_distinct(s),
        !contents(s).contains_key(e.0@),
    ensures
        all_distinct(s.push(e)),
        contents(s.push(e)) == contents(s).insert(e.0@, e.1@),
{
    let t = s.push(e);
    assert forall|i: int, j: int| 0 <= i < j < t.len() implies (#[trigger] t[i]).0@ != (
    #[trigger] t[j]).0@ by {
        if j == s.len() {
            if s[i].0@ == e.0@ {
                assert(keyed(s, i, e.0@));
            }
        }
    }
    assert(contents(t) =~= contents(s).insert(e.0@, e.1@)) by {
        assert forall|k: K::V| #[trigger] contents(t).contains_key(k) == contents(s).insert(
            e.0@,
            e.1@,
        ).contains_key(k) by {
            if exists|i: int| keyed(t, i, k) {
                let i = choose|i: int| keyed(t, i, k);
                if i < s.len() {
                    assert(keyed(s, i, k));
                }
            }
            if exists|i: int| keyed(s, i, k) {
                let i = choose|i: int| keyed(s, i, k);
                assert(keyed(t, i, k));
            }
            assert(keyed(t, s.len() as int, e.0@));
        }
        assert forall|k: K::V| contents(t).contains_key(k) implies #[trigger] contents(t)[k]
            == contents(s).insert(e.0@, e.1@)[k] by {
            let i = choose|i: int| keyed(t, i, k);
            lemma_entry(t, i);
            if i < s.len() {
                lemma_entry(s, i);
            }
        }
    }
}

/// Dropping an entry removes its key from the map.
proof fn lemma_drop<K: Key, V: View>(s: Seq<(K, V)>, at: int)
    requires
        all_distinct(s),
        0 <= at < s.len(),
    ensures
        all_distinct(s.remove(at)),
        contents(s.remove(at)) == contents(s).remove(s[at].0@),
{
    let t = s.remove(at);
    let gone = s[at].0@;
    assert forall|i: int| 0 <= i < t.len() implies #[trigger] t[i] == s[if i < at {
        i
    } else {
        i + 1
    }] by {}
    assert forall|i: int, j: int| 0 <= i < j < t.len() implies (#[trigger] t[i]).0@ != (
    #[trigger] t[j]).0@ by {
        let a = if i < at {
            i
        } else {
            i + 1
        };
        let b = if j < at {
            j
        } else {
            j + 1
        };
        assert(s[a].0@ != s[b].0@);
    }
    assert(contents(t) =~= contents(s).remove(gone)) by {
        assert forall|k: K::V| #[trigger] contents(t).contains_key(k) == contents(s).remove(
            gone,
        ).contains_key(k) by {
            if exists|i: int| keyed(t, i, k) {
                let i = choose|i: int| keyed(t, i, k);
                let a = if i < at {
                    i
                } else {
                    i + 1
                };
                assert(keyed(s, a, k));
                if k == gone {
                    if a < at {
                        assert(s[a].0@ != s[at].0@);
                    } else {
                        assert(s[at].0@ != s[a].0@);
                    }
                }
            }
            if exists|i: int| keyed(s, i, k) {
                let i = choose|i: int| keyed(s, i, k);
                if i < at {
                    assert(keyed(t, i, k));
                } else if i > at {
                    assert(keyed(t, i - 1, k));
                }
            }
        }
        assert forall|k: K::V| contents(t).contains_key(k) implies #[trigger] contents(t)[k]
            == contents(s).remove(gone)[k] by {
            let i = choose|i: int| keyed(t, i, k);
            lemma_entry(t, i);
            let a = if i < at {
                i
            } else {
                i + 1
            };
            lemma_entry(s, a);
        }
    }
}

impl<K: Key, V: View> Table<K, V> {
    /// The empty map.
    pub fn new() -> (r: Self)
        ensures
            r@ == Map::<K::V, V::V>::empty(),
    {
        let r = Table { entries: Vec::new() };
        proof {
            assert(r@ =~= Map::<K::V, V::V>::empty()) by {
                assert forall|k: K::V| !r@.contains_key(k) by {
                    if exists|i: int| keyed(r.entries@, i, k) {
                        let i = choose|i: int| keyed(r.entries@, i, k);
                    }
                }
            }
        }
        r
    }

    /// The position of the entry for `k`.
    fn position(&self, k: &K) -> (r: Option<usize>)
        ensures
            match r {
                Some(i) => keyed(self.entries@, i as int, k@),
                None => !self@.contains_key(k@),
            },
    {
        let mut i: usize = 0;
        while i < self.entries.len()
            invariant
                i <= self.entries@.len(),
                forall|j: int| 0 <= j < i ==> !keyed(self.entries@, j, k@),
            decreases self.entries.len() - i,
        {
            if self.entries[i].0.same(k) {
                return Some(i);
            }
            i = i + 1;
        }
        None
    }

    /// What the map holds for `k`.
    pub fn get(&self, k: &K) -> (r: Option<&V>)
        ensures
            match r {
                Some(v) => self@.contains_key(k@) && v@ == self@[k@],
                None => !self@.contains_key(k@),
            },
    {
        proof {
            use_type_invariant(self);
        }
        match self.position(k) {
            Some(i) => {
                proof {
                    lemma_entry(self.entries@, i as int);
                }
                Some(&self.entries[i].1)
            },
            None => None,
        }
    }

    /// Whether the map holds something for `k`.
    pub fn contains(&self, k: &K) -> (r: bool)
        ensures
            r == self@.contains_key(k@),
    {
        self.get(k).is_some()
    }

    /// Takes the entry for `k` out of the map.
    pub fn remove(&mut self, k: &K) -> (r: Option<V>)
        ensures
            final(self)@ == old(self)@.remove(k@),
            match r {
                Some(v) => old(self)@.contains_key(k@) && v@ == old(self)@[k@],
                None => !old(self)@.contains_key(k@),
            },
    {
        proof {
            use_type_invariant(&*self);
        }
        match self.position(k) {
            Some(i) => {
                let mut entries: Vec<(K, V)> = Vec::new();
                std::mem::swap(&mut entries, &mut self.entries);
                proof {
                    lemma_entry(entries@, i as int);
                    lemma_drop(entries@, i as int);
                }
                let entry = entries.remove(i);
                self.entries = entries;
                Some(entry.1)
            },
            None => {
                assert(old(self)@.remove(k@) =~= old(self)@);
                None
            },
        }
    }

    /// Sets what the map holds for `k`.
    pub fn insert(&mut self, k: K, v: V)
        ensures
            final(self)@ == old(self)@.insert(k@, v@),
    {
        let ghost before = self@;
        let _ = self.remove(&k);
        let ghost middle = self@;
        proof {
            use_type_invariant(&*self);
        }
        let mut entries: Vec<(K, V)> = Vec::new();
        std::mem::swap(&mut entries, &mut self.entries);
        proof {
            lemma_push(entries@, (k, v));
        }
        entries.push((k, v));
        self.entries = entries;
        assert(self@ =~= before.insert(k@, v@));
    }

    /// The number of keys, which is finite.
    pub fn len(&self) -> (r: usize)
        ensures
            self@.dom().finite(),
            r == self@.dom().len(),
    {
        proof {
            use_type_invariant(self);
            lemma_size(self.entries@);
        }
        self.entries.len()
    }

    /// The keys, each once.
    pub fn keys(&self) -> (r: Vec<K>)
        ensures
            self@.dom().finite(),
            r@.len() == self@.dom().len(),
            forall|i: int| 0 <= i < r@.len() ==> self@.contains_key((#[trigger] r@[i])@),
            forall|k: K::V|
                self@.contains_key(k) ==> exists|i: int|
                    0 <= i < r@.len() && (#[trigger] r@[i])@ == k,
            forall|i: int, j: int|
                0 <= i < j < r@.len() ==> (#[trigger] r@[i])@ != (#[trigger] r@[j])@,
    {
        proof {
            use_type_invariant(self);
            lemma_size(self.entries@);
        }
        let mut out: Vec<K> = Vec::new();
        let mut i: usize = 0;
        while i < self.entries.len()
            invariant
                i <= self.entries@.len(),
                out@.len() == i,
                forall|j: int| 0 <= j < i ==> (#[trigger] out@[j])@ == self.entries@[j].0@,
            decreases self.entries.len() - i,
        {
            out.push(self.entries[i].0.dup());
            i = i + 1;
        }
        proof {
            assert forall|j: int| 0 <= j < out@.len() implies self@.contains_key(
                (#[trigger] out@[j])@,
            ) by {
                assert(keyed(self.entries@, j, out@[j]@));
            }
            assert forall|k: K::V| self@.contains_key(k) implies exists|j: int|
                0 <= j < out@.len() && (#[trigger] out@[j])@ == k by {
                let j = choose|j: int| keyed(self.entries@, j, k);
                assert(out@[j]@ == k);
            }
        }
        out
    }
}

impl<K: Key, V: Dup> Dup for Table<K, V> {
    fn dup(&self) -> (r: Self) {
        let mut out: Table<K, V> = Table::new();
        let keys = self.keys();
        let mut i: usize = 0;
        while i < keys.len()
            invariant
                i <= keys@.len(),
                forall|j: int| 0 <= j < keys@.len() ==> self@.contains_key((#[trigger] keys@[j])@),
                forall|k: K::V| #[trigger]
                    out@.contains_key(k) ==> self@.contains_key(k) && out@[k] == self@[k],
                forall|j: int| 0 <= j < i ==> out@.contains_key((#[trigger] keys@[j])@),
            decreases keys.len() - i,
        {
            match self.get(&keys[i]) {
                Some(v) => {
                    out.insert(keys[i].dup(), v.dup());
                },
                None => {},
            }
            i = i + 1;
        }
        assert(out@ =~= self@);
        out
    }
}

/// A finite set.
#[derive(Debug)]
pub struct KeySet<K: Key> {
    members: Table<K, bool>,
}

impl<K: Key> View for KeySet<K> {
    type V = Set<K::V>;

    closed spec fn view(&self) -> Set<K::V> {
        self.members@.dom()
    }
}

impl<K: Key> KeySet<K> {
    /// The empty set.
    pub fn new() -> (r: Self)
        ensures
            r@ == Set::<K::V>::empty(),
    {
        let r = KeySet { members: Table::new() };
        assert(r@ =~= Set::<K::V>::empty());
        r
    }

    /// Whether `k` is a member.
    pub fn contains(&self, k: &K) -> (r: bool)
        ensures
            r == self@.contains(k@),
    {
        self.members.contains(k)
    }

    /// Adds `k`.
    pub fn insert(&mut self, k: K)
        ensures
            final(self)@ == old(self)@.insert(k@),
    {
        self.members.insert(k, true);
        assert(self@ =~= old(self)@.insert(k@));
    }

    /// Takes `k` out, and says whether it was a member.
    pub fn remove(&mut self, k: &K) -> (r: bool)
        ensures
            final(self)@ == old(self)@.remove(k@),
            r == old(self)@.contains(k@),
    {
        let gone = self.members.remove(k);
        assert(self@ =~= old(self)@.remove(k@));
        gone.is_some()
    }

    /// The number of members, which is finite.
    pub fn len(&self) -> (r: usize)
        ensures
            self@.finite(),
            r == self@.len(),
    {
        self.members.len()
    }
}

} // verus!
