//! Tables keyed by 32-byte identifiers: payment hashes and payment ids.
use vstd::prelude::*;

verus! {

/// A payment hash, payment id, preimage or secret.
pub type Bytes32 = [u8; 32];

/// Whether two identifiers are the same.
pub fn same_bytes(a: &Bytes32, b: &Bytes32) -> (r: bool)
    ensures
        r == (*a == *b),
{
    let mut i: usize = 0;
    while i < 32
        invariant
            i <= 32,
            forall|j: int| 0 <= j < i ==> a@[j] == b@[j],
        decreases 32 - i,
    {
        if a[i] != b[i] {
            assert(a@[i as int] != b@[i as int]);
            return false;
        }
        i = i + 1;
    }
    assert(a@ =~= b@);
    assert(*a =~= *b);
    true
}

/// The array that holds the bytes `s`.
pub open spec fn array32(s: Seq<u8>) -> Bytes32 {
    choose|a: Bytes32| a@ == s
}

/// An array is the one that holds its bytes.
pub proof fn lemma_array32(a: Bytes32)
    ensures
        array32(a@) == a,
{
    let b = array32(a@);
    assert(b@ == a@);
    assert(b =~= a);
}

/// The 32 bytes of `s` at `at`.
pub fn take32(s: &[u8], at: usize) -> (r: Bytes32)
    requires
        at + 32 <= s@.len(),
    ensures
        r@ == s@.subrange(at as int, at + 32),
        r == array32(s@.subrange(at as int, at + 32)),
{
    let total: usize = s.len();
    let mut r: Bytes32 = [0u8;32];
    let mut i: usize = 0;
    while i < 32
        invariant
            i <= 32,
            total == s@.len(),
            at + 32 <= total,
            forall|j: int| 0 <= j < i ==> r@[j] == s@[at + j],
        decreases 32 - i,
    {
        r[i] = s[at + i];
        i = i + 1;
    }
    proof {
        assert(r@ =~= s@.subrange(at as int, at + 32));
        lemma_array32(r);
    }
    r
}

/// Appends the 32 bytes of `a`.
pub fn write32(out: &mut Vec<u8>, a: &Bytes32)
    ensures
        final(out)@ == old(out)@ + a@,
{
    let mut i: usize = 0;
    while i < 32
        invariant
            i <= 32,
            out@ == old(out)@ + a@.take(i as int),
        decreases 32 - i,
    {
        out.push(a[i]);
        assert(a@.take(i as int).push(a@[i as int]) == a@.take(i + 1));
        i = i + 1;
    }
    assert(a@.take(32) == a@);
}

/// The map that a list of entries stands for: the last entry of a key counts.
pub open spec fn map_of<V>(s: Seq<(Bytes32, V)>) -> Map<Bytes32, V>
    decreases s.len(),
{
    if s.len() == 0 {
        Map::empty()
    } else {
        map_of(s.drop_last()).insert(s.last().0, s.last().1)
    }
}

/// Whether no key occurs twice.
pub open spec fn distinct_keys<V>(s: Seq<(Bytes32, V)>) -> bool {
    forall|i: int, j: int| 0 <= i < j < s.len() ==> (#[trigger] s[i]).0 != (#[trigger] s[j]).0
}

/// Each entry is in the map.
pub proof fn lemma_entry_in_map<V>(s: Seq<(Bytes32, V)>, i: int)
    requires
        distinct_keys(s),
        0 <= i < s.len(),
    ensures
        map_of(s).contains_key(s[i].0),
        map_of(s)[s[i].0] == s[i].1,
    decreases s.len(),
{
    if i < s.len() - 1 {
        let t = s.drop_last();
        assert(distinct_keys(t));
        lemma_entry_in_map(t, i);
        assert(t[i] == s[i]);
        assert(s[i].0 != s[s.len() - 1].0);
    }
}

/// A key that no entry has is not in the map.
pub proof fn lemma_key_not_in_map<V>(s: Seq<(Bytes32, V)>, k: Bytes32)
    requires
        forall|i: int| 0 <= i < s.len() ==> (#[trigger] s[i]).0 != k,
    ensures
        !map_of(s).contains_key(k),
    decreases s.len(),
{
    if s.len() > 0 {
        let t = s.drop_last();
        assert forall|i: int| 0 <= i < t.len() implies (#[trigger] t[i]).0 != k by {
            assert(t[i] == s[i]);
        }
        lemma_key_not_in_map(t, k);
        assert(s[s.len() - 1].0 != k);
    }
}

/// A key of the map is the key of some entry.
pub proof fn lemma_key_has_entry<V>(s: Seq<(Bytes32, V)>, k: Bytes32) -> (i: int)
    requires
        map_of(s).contains_key(k),
    ensures
        0 <= i < s.len(),
        s[i].0 == k,
    decreases s.len(),
{
    if s.last().0 == k {
        s.len() - 1
    } else {
        lemma_key_has_entry(s.drop_last(), k)
    }
}

/// Replacing the value of an entry replaces it in the map.
pub proof fn lemma_update_entry<V>(s: Seq<(Bytes32, V)>, i: int, v: V)
    requires
        distinct_keys(s),
        0 <= i < s.len(),
    ensures
        distinct_keys(s.update(i, (s[i].0, v))),
        map_of(s.update(i, (s[i].0, v))) == map_of(s).insert(s[i].0, v),
    decreases s.len(),
{
    let u = s.update(i, (s[i].0, v));
    assert forall|a: int, b: int| 0 <= a < b < u.len() implies (#[trigger] u[a]).0 != (
    #[trigger] u[b]).0 by {
        assert(s[a].0 != s[b].0);
    }
    let t = s.drop_last();
    if i == s.len() - 1 {
        assert(u.drop_last() == t);
        assert(map_of(u) =~= map_of(s).insert(s[i].0, v));
    } else {
        assert(distinct_keys(t));
        lemma_update_entry(t, i, v);
        assert(u.drop_last() == t.update(i, (t[i].0, v)));
        assert(s[i].0 != s[s.len() - 1].0);
        assert(map_of(u) =~= map_of(s).insert(s[i].0, v));
    }
}

/// Taking an entry out takes its key out of the map.
pub proof fn lemma_remove_entry<V>(s: Seq<(Bytes32, V)>, i: int)
    requires
        distinct_keys(s),
        0 <= i < s.len(),
    ensures
        distinct_keys(s.remove(i)),
        map_of(s.remove(i)) == map_of(s).remove(s[i].0),
    decreases s.len(),
{
    let r = s.remove(i);
    assert forall|a: int, b: int| 0 <= a < b < r.len() implies (#[trigger] r[a]).0 != (
    #[trigger] r[b]).0 by {
        let c = if a < i {
            a
        } else {
            a + 1
        };
        let d = if b < i {
            b
        } else {
            b + 1
        };
        assert(s[c].0 != s[d].0);
    }
    let t = s.drop_last();
    if i == s.len() - 1 {
        assert(r == t);
        assert forall|j: int| 0 <= j < t.len() implies (#[trigger] t[j]).0 != s[i].0 by {
            assert(t[j] == s[j]);
        }
        lemma_key_not_in_map(t, s[i].0);
        assert(map_of(r) =~= map_of(s).remove(s[i].0));
    } else {
        assert(distinct_keys(t));
        lemma_remove_entry(t, i);
        assert(r.drop_last() == t.remove(i));
        assert(r.last() == s.last());
        assert(s[i].0 != s[s.len() - 1].0);
        assert(map_of(r) =~= map_of(s).remove(s[i].0));
    }
}

/// The map has as many keys as there are entries.
pub proof fn lemma_map_len<V>(s: Seq<(Bytes32, V)>)
    requires
        distinct_keys(s),
    ensures
        map_of(s).dom().finite(),
        map_of(s).len() == s.len(),
    decreases s.len(),
{
    if s.len() > 0 {
        let t = s.drop_last();
        assert(distinct_keys(t));
        lemma_map_len(t);
        assert forall|j: int| 0 <= j < t.len() implies (#[trigger] t[j]).0 != s.last().0 by {
            assert(t[j] == s[j]);
            assert(s[j].0 != s[s.len() - 1].0);
        }
        lemma_key_not_in_map(t, s.last().0);
    }
}

/// A table. Each key occurs at most once; entries keep the order in which their keys came in.
pub struct Table<V> {
    entries: Vec<(Bytes32, V)>,
}

impl<V> View for Table<V> {
    type V = Map<Bytes32, V>;

    closed spec fn view(&self) -> Map<Bytes32, V> {
        map_of(self.entries@)
    }
}

impl<V> Table<V> {
    /// No key occurs twice.
    pub closed spec fn wf(&self) -> bool {
        distinct_keys(self.entries@)
    }

    /// The entries in order.
    pub closed spec fn listed(&self) -> Seq<(Bytes32, V)> {
        self.entries@
    }

    /// The entries in order stand for the map, and have distinct keys.
    pub proof fn lemma_listed(&self)
        requires
            self.wf(),
        ensures
            self@ == map_of(self.listed()),
            distinct_keys(self.listed()),
            self@.dom().finite(),
            self@.len() == self.listed().len(),
    {
        lemma_map_len(self.entries@);
    }

    /// An empty table.
    pub fn new() -> (r: Table<V>)
        ensures
            r.wf(),
            r@ == Map::<Bytes32, V>::empty(),
            r.listed() == Seq::<(Bytes32, V)>::empty(),
    {
        Table { entries: Vec::new() }
    }

    /// The number of entries.
    pub fn len(&self) -> (r: usize)
        requires
            self.wf(),
        ensures
            r == self@.len(),
            r == self.listed().len(),
    {
        proof {
            lemma_map_len(self.entries@);
        }
        self.entries.len()
    }

    /// The entry at position `i`.
    pub fn entry(&self, i: usize) -> (r: (Bytes32, &V))
        requires
            i < self.listed().len(),
        ensures
            r.0 == self.listed()[i as int].0,
            *r.1 == self.listed()[i as int].1,
    {
        let e = &self.entries[i];
        (e.0, &e.1)
    }

    fn position(&self, k: &Bytes32) -> (r: Option<usize>)
        requires
            self.wf(),
        ensures
            match r {
                Some(i) => i < self.entries@.len() && self.entries@[i as int].0 == *k
                    && self@.contains_key(*k) && self@[*k] == self.entries@[i as int].1,
                None => !self@.contains_key(*k) && forall|j: int|
                    0 <= j < self.entries@.len() ==> (#[trigger] self.entries@[j]).0 != *k,
            },
    {
        let n: usize = self.entries.len();
        let mut i: usize = 0;
        while i < n
            invariant
                n == self.entries@.len(),
                i <= n,
                self.wf(),
                forall|j: int| 0 <= j < i ==> (#[trigger] self.entries@[j]).0 != *k,
            decreases n - i,
        {
            if same_bytes(&self.entries[i].0, k) {
                proof {
                    lemma_entry_in_map(self.entries@, i as int);
                }
                return Some(i);
            }
            i = i + 1;
        }
        proof {
            lemma_key_not_in_map(self.entries@, *k);
        }
        None
    }

    /// The value of a key.
    pub fn get(&self, k: &Bytes32) -> (r: Option<&V>)
        requires
            self.wf(),
        ensures
            match r {
                Some(v) => self@.contains_key(*k) && *v == self@[*k],
                None => !self@.contains_key(*k),
            },
    {
        match self.position(k) {
            Some(i) => Some(&self.entries[i].1),
            None => None,
        }
    }

    /// Whether a key is there.
    pub fn contains_key(&self, k: &Bytes32) -> (r: bool)
        requires
            self.wf(),
        ensures
            r == self@.contains_key(*k),
    {
        self.position(k).is_some()
    }

    /// Sets the value of a key: in place if the key is there, else at the end.
    pub fn insert(&mut self, k: Bytes32, v: V)
        requires
            old(self).wf(),
        ensures
            final(self).wf(),
            final(self)@ == old(self)@.insert(k, v),
            !old(self)@.contains_key(k) ==> final(self).listed() == old(self).listed().push((k, v)),
    {
        match self.position(&k) {
            Some(i) => {
                proof {
                    lemma_update_entry(self.entries@, i as int, v);
                }
                self.entries.set(i, (k, v));
            },
            None => {
                let ghost before = self.entries@;
                self.entries.push((k, v));
                proof {
                    let s = self.entries@;
                    assert(s.drop_last() == before);
                    assert forall|a: int, b: int| 0 <= a < b < s.len() implies (#[trigger] s[a]).0
                        != (#[trigger] s[b]).0 by {
                        assert(before[a].0 != k);
                        if b < before.len() {
                            assert(before[a].0 != before[b].0);
                        }
                    }
                }
            },
        }
    }

    /// Sets the value of the entry at position `i`.
    pub fn set_at(&mut self, i: usize, v: V)
        requires
            old(self).wf(),
            i < old(self).listed().len(),
        ensures
            final(self).wf(),
            final(self)@ == old(self)@.insert(old(self).listed()[i as int].0, v),
            final(self).listed() == old(self).listed().update(
                i as int,
                (old(self).listed()[i as int].0, v),
            ),
    {
        proof {
            lemma_update_entry(self.entries@, i as int, v);
        }
        let k: Bytes32 = self.entries[i].0;
        self.entries.set(i, (k, v));
    }

    /// Takes the entry at position `i` out.
    pub fn remove_at(&mut self, i: usize)
        requires
            old(self).wf(),
            i < old(self).listed().len(),
        ensures
            final(self).wf(),
            final(self)@ == old(self)@.remove(old(self).listed()[i as int].0),
            final(self).listed() == old(self).listed().remove(i as int),
    {
        proof {
            lemma_remove_entry(self.entries@, i as int);
        }
        self.entries.remove(i);
    }

    /// Takes a key out, and gives back its value.
    pub fn remove(&mut self, k: &Bytes32) -> (r: Option<V>)
        requires
            old(self).wf(),
        ensures
            final(self).wf(),
            match r {
                Some(v) => old(self)@.contains_key(*k) && v == old(self)@[*k] && final(self)@
                    == old(self)@.remove(*k),
                None => !old(self)@.contains_key(*k) && *final(self) == *old(self),
            },
    {
        match self.position(k) {
            Some(i) => {
                proof {
                    lemma_remove_entry(self.entries@, i as int);
                }
                let e = self.entries.remove(i);
                Some(e.1)
            },
            None => None,
        }
    }
}

} // verus!
