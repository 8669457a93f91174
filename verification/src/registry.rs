//! A small association map from qualified names to cells, used by every
//! registry in the engine (memory modes, block maps). Keys are unique; the
//! view is a `Map` from name characters to the stored cell.

use vstd::prelude::*;

verus! {

/// The map denoted by an association list; a later entry would win, and the
/// uniqueness invariant keeps entries unambiguous.
pub open spec fn map_of<V>(s: Seq<(String, V)>) -> Map<Seq<char>, V>
    decreases s.len(),
{
    if s.len() == 0 {
        Map::empty()
    } else {
        map_of(s.drop_last()).insert(s.last().0@, s.last().1)
    }
}

/// No two entries share a name.
pub open spec fn distinct_keys<V>(s: Seq<(String, V)>) -> bool {
    forall|i: int, j: int| 0 <= i < j < s.len() ==> s[i].0@ != s[j].0@
}

/// A name is in the map exactly when some entry carries it.
pub proof fn lemma_map_of_dom<V>(s: Seq<(String, V)>, k: Seq<char>)
    ensures
        map_of(s).dom().contains(k) <==> (exists|i: int| 0 <= i < s.len() && s[i].0@ == k),
    decreases s.len(),
{
    if s.len() == 0 {
    } else {
        lemma_map_of_dom(s.drop_last(), k);
        if s.last().0@ == k {
            assert(s[s.len() - 1].0@ == k);
        } else {
            if exists|i: int| 0 <= i < s.len() && s[i].0@ == k {
                let i = choose|i: int| 0 <= i < s.len() && s[i].0@ == k;
                assert(s.drop_last()[i].0@ == k);
            }
            if exists|i: int| 0 <= i < s.drop_last().len() && s.drop_last()[i].0@ == k {
                let i = choose|i: int| 0 <= i < s.drop_last().len() && s.drop_last()[i].0@ == k;
                assert(s[i].0@ == k);
            }
        }
    }
}

/// With unique keys, the map sends each entry's name to that entry's cell.
pub proof fn lemma_map_of_index<V>(s: Seq<(String, V)>, i: int)
    requires
        distinct_keys(s),
        0 <= i < s.len(),
    ensures
        map_of(s).dom().contains(s[i].0@),
        map_of(s)[s[i].0@] == s[i].1,
    decreases s.len(),
{
    if i == s.len() - 1 {
    } else {
        assert(distinct_keys(s.drop_last()));
        lemma_map_of_index(s.drop_last(), i);
        assert(s.drop_last()[i] == s[i]);
        assert(s[i].0@ != s.last().0@);
    }
}

/// With unique keys, replacing the cell of one entry is a map insert.
pub proof fn lemma_map_of_update<V>(s: Seq<(String, V)>, i: int)
    requires
        distinct_keys(s),
        0 <= i < s.len(),
    ensures
        forall|p: (String, V)|
            p.0@ == s[i].0@ ==> #[trigger] map_of(s.update(i, p)) =~= map_of(s).insert(p.0@, p.1),
    decreases s.len(),
{
    assert forall|p: (String, V)| p.0@ == s[i].0@ implies #[trigger] map_of(s.update(i, p))
        =~= map_of(s).insert(p.0@, p.1) by {
        if i == s.len() - 1 {
            assert(s.update(i, p).drop_last() =~= s.drop_last());
            assert(s.update(i, p).last() == p);
        } else {
            assert(distinct_keys(s.drop_last()));
            lemma_map_of_update(s.drop_last(), i);
            assert(s.update(i, p).drop_last() =~= s.drop_last().update(i, p));
            assert(s.update(i, p).last() == s.last());
            assert(s.drop_last()[i] == s[i]);
            assert(map_of(s.drop_last().update(i, p)) =~= map_of(s.drop_last()).insert(
                p.0@,
                p.1,
            ));
            assert(s[i].0@ != s.last().0@);
        }
    }
}

/// Appending a fresh entry is a map insert.
pub proof fn lemma_map_of_push<V>(s: Seq<(String, V)>, p: (String, V))
    ensures
        map_of(s.push(p)) =~= map_of(s).insert(p.0@, p.1),
{
    assert(s.push(p).drop_last() =~= s);
    assert(s.push(p).last() == p);
}

/// An association list from names to cells with unique keys.
pub struct NamedMap<V> {
    entries: Vec<(String, V)>,
}

impl<V> View for NamedMap<V> {
    type V = Map<Seq<char>, V>;

    closed spec fn view(&self) -> Map<Seq<char>, V> {
        map_of(self.entries@)
    }
}

impl<V> NamedMap<V> {
    /// The entries in insertion order, names by their characters.
    pub closed spec fn seq_spec(&self) -> Seq<(Seq<char>, V)> {
        Seq::new(self.entries@.len(), |i: int| (self.entries@[i].0@, self.entries@[i].1))
    }

    /// Keys are unique.
    pub closed spec fn wf(&self) -> bool {
        distinct_keys(self.entries@)
    }

    pub proof fn lemma_seq_view(&self, i: int)
        requires
            self.wf(),
            0 <= i < self.seq_spec().len(),
        ensures
            self@.dom().contains(self.seq_spec()[i].0),
            self@[self.seq_spec()[i].0] == self.seq_spec()[i].1,
    {
        lemma_map_of_index(self.entries@, i);
    }

    /// Every registered name comes from some entry, carrying the same cell.
    pub proof fn lemma_view_to_seq(&self, k: Seq<char>)
        requires
            self.wf(),
            self@.dom().contains(k),
        ensures
            exists|i: int|
                0 <= i < self.seq_spec().len() && #[trigger] self.seq_spec()[i].0 == k
                    && self.seq_spec()[i].1 == self@[k],
    {
        lemma_map_of_dom(self.entries@, k);
        let i = choose|i: int| 0 <= i < self.entries@.len() && self.entries@[i].0@ == k;
        lemma_map_of_index(self.entries@, i);
        assert(self.seq_spec()[i].0 == k && self.seq_spec()[i].1 == self@[k]);
    }

    pub fn new() -> (r: Self)
        ensures
            r@ =~= Map::<Seq<char>, V>::empty(),
            r.seq_spec() =~= Seq::<(Seq<char>, V)>::empty(),
            r.wf(),
    {
        NamedMap { entries: Vec::new() }
    }

    pub fn len(&self) -> (r: usize)
        ensures
            r == self.seq_spec().len(),
    {
        self.entries.len()
    }

    /// The position of the entry carrying this name, if any.
    pub fn index_of(&self, key: &String) -> (r: Option<usize>)
        requires
            self.wf(),
        ensures
            match r {
                Some(i) => i < self.seq_spec().len() && self.seq_spec()[i as int].0 == key@
                    && self@.dom().contains(key@),
                None => !self@.dom().contains(key@),
            },
    {
        let n = self.entries.len();
        let mut i: usize = 0;
        while i < n
            invariant
                i <= n,
                n == self.entries@.len(),
                self.wf(),
                forall|j: int| 0 <= j < i ==> self.entries@[j].0@ != key@,
            decreases n - i,
        {
            if self.entries[i].0 == *key {
                proof {
                    lemma_map_of_index(self.entries@, i as int);
                }
                return Some(i);
            }
            i = i + 1;
        }
        proof {
            lemma_map_of_dom(self.entries@, key@);
        }
        None
    }

    pub fn contains_key(&self, key: &String) -> (r: bool)
        requires
            self.wf(),
        ensures
            r == self@.dom().contains(key@),
    {
        self.index_of(key).is_some()
    }

    /// Shared access to the cell registered under this name.
    pub fn get(&self, key: &String) -> (r: Option<&V>)
        requires
            self.wf(),
        ensures
            match r {
                Some(v) => self@.dom().contains(key@) && *v == self@[key@],
                None => !self@.dom().contains(key@),
            },
    {
        match self.index_of(key) {
            Some(i) => {
                proof {
                    lemma_map_of_index(self.entries@, i as int);
                }
                Some(&self.entries[i].1)
            },
            None => None,
        }
    }

    /// The name of the entry at a position.
    pub fn key_at(&self, i: usize) -> (r: &String)
        requires
            i < self.seq_spec().len(),
        ensures
            r@ == self.seq_spec()[i as int].0,
    {
        &self.entries[i].0
    }

    /// Shared access to the cell at a position.
    pub fn at(&self, i: usize) -> (r: &V)
        requires
            i < self.seq_spec().len(),
        ensures
            *r == self.seq_spec()[i as int].1,
    {
        &self.entries[i].1
    }

    /// Mutable access to the cell at a position; the name stays.
    pub fn at_mut(&mut self, i: usize) -> (v: &mut V)
        requires
            old(self).wf(),
            i < old(self).seq_spec().len(),
        ensures
            *v == old(self).seq_spec()[i as int].1,
            final(self).wf(),
            final(self).seq_spec() =~= old(self).seq_spec().update(
                i as int,
                (old(self).seq_spec()[i as int].0, *final(v)),
            ),
            final(self)@ =~= old(self)@.insert(old(self).seq_spec()[i as int].0, *final(v)),
    {
        proof {
            lemma_map_of_update(self.entries@, i as int);
        }
        &mut self.entries[i].1
    }

    /// Register a fresh name; refuse a duplicate and leave the map unchanged.
    pub fn insert_new(&mut self, key: String, value: V) -> (r: bool)
        requires
            old(self).wf(),
        ensures
            final(self).wf(),
            r == !old(self)@.dom().contains(key@),
            r ==> final(self)@ =~= old(self)@.insert(key@, value) && final(self).seq_spec()
                =~= old(self).seq_spec().push((key@, value)),
            !r ==> *final(self) == *old(self),
    {
        if self.contains_key(&key) {
            false
        } else {
            proof {
                lemma_map_of_push(self.entries@, (key, value));
                lemma_map_of_dom(self.entries@, key@);
            }
            self.entries.push((key, value));
            true
        }
    }

    /// Register or overwrite: the cell under this name afterwards is `value`.
    pub fn upsert(&mut self, key: String, value: V)
        requires
            old(self).wf(),
        ensures
            final(self).wf(),
            final(self)@ =~= old(self)@.insert(key@, value),
    {
        match self.index_of(&key) {
            Some(i) => {
                proof {
                    lemma_map_of_update(self.entries@, i as int);
                }
                self.entries[i] = (key, value);
            },
            None => {
                proof {
                    lemma_map_of_push(self.entries@, (key, value));
                    lemma_map_of_dom(self.entries@, key@);
                }
                self.entries.push((key, value));
            },
        }
    }

    /// The registered names, in insertion order.
    pub fn keys(&self) -> (r: Vec<String>)
        ensures
            r@.len() == self.seq_spec().len(),
            forall|i: int| 0 <= i < r@.len() ==> r@[i]@ == self.seq_spec()[i].0,
    {
        let n = self.entries.len();
        let mut out: Vec<String> = Vec::new();
        let mut i: usize = 0;
        while i < n
            invariant
                i <= n,
                n == self.entries@.len(),
                out@.len() == i,
                forall|j: int| 0 <= j < i ==> out@[j]@ == self.seq_spec()[j].0,
            decreases n - i,
        {
            out.push(self.entries[i].0.clone());
            i = i + 1;
        }
        out
    }
}

/// The map denoted by an index-keyed association list.
pub open spec fn imap_of<V>(s: Seq<(usize, V)>) -> Map<int, V>
    decreases s.len(),
{
    if s.len() == 0 {
        Map::empty()
    } else {
        imap_of(s.drop_last()).insert(s.last().0 as int, s.last().1)
    }
}

/// No two entries share an index.
pub open spec fn distinct_indices<V>(s: Seq<(usize, V)>) -> bool {
    forall|i: int, j: int| 0 <= i < j < s.len() ==> s[i].0 != s[j].0
}

/// An index is in the map exactly when some entry carries it.
pub proof fn lemma_imap_of_dom<V>(s: Seq<(usize, V)>, k: int)
    ensures
        imap_of(s).dom().contains(k) <==> (exists|i: int| 0 <= i < s.len() && s[i].0 == k),
    decreases s.len(),
{
    if s.len() == 0 {
    } else {
        lemma_imap_of_dom(s.drop_last(), k);
        if s.last().0 == k {
            assert(s[s.len() - 1].0 == k);
        } else {
            if exists|i: int| 0 <= i < s.len() && s[i].0 == k {
                let i = choose|i: int| 0 <= i < s.len() && s[i].0 == k;
                assert(s.drop_last()[i].0 == k);
            }
            if exists|i: int| 0 <= i < s.drop_last().len() && s.drop_last()[i].0 == k {
                let i = choose|i: int| 0 <= i < s.drop_last().len() && s.drop_last()[i].0 == k;
                assert(s[i].0 == k);
            }
        }
    }
}

/// With unique indices, the map sends each entry's index to its cell.
pub proof fn lemma_imap_of_index<V>(s: Seq<(usize, V)>, i: int)
    requires
        distinct_indices(s),
        0 <= i < s.len(),
    ensures
        imap_of(s).dom().contains(s[i].0 as int),
        imap_of(s)[s[i].0 as int] == s[i].1,
    decreases s.len(),
{
    if i == s.len() - 1 {
    } else {
        assert(distinct_indices(s.drop_last()));
        lemma_imap_of_index(s.drop_last(), i);
        assert(s.drop_last()[i] == s[i]);
        assert(s[i].0 != s.last().0);
    }
}

/// With unique indices, replacing the cell of one entry is a map insert.
pub proof fn lemma_imap_of_update<V>(s: Seq<(usize, V)>, i: int)
    requires
        distinct_indices(s),
        0 <= i < s.len(),
    ensures
        forall|p: (usize, V)|
            p.0 == s[i].0 ==> #[trigger] imap_of(s.update(i, p)) =~= imap_of(s).insert(
                p.0 as int,
                p.1,
            ),
    decreases s.len(),
{
    assert forall|p: (usize, V)| p.0 == s[i].0 implies #[trigger] imap_of(s.update(i, p))
        =~= imap_of(s).insert(p.0 as int, p.1) by {
        if i == s.len() - 1 {
            assert(s.update(i, p).drop_last() =~= s.drop_last());
            assert(s.update(i, p).last() == p);
        } else {
            assert(distinct_indices(s.drop_last()));
            lemma_imap_of_update(s.drop_last(), i);
            assert(s.update(i, p).drop_last() =~= s.drop_last().update(i, p));
            assert(s.update(i, p).last() == s.last());
            assert(s.drop_last()[i] == s[i]);
            assert(imap_of(s.drop_last().update(i, p)) =~= imap_of(s.drop_last()).insert(
                p.0 as int,
                p.1,
            ));
            assert(s[i].0 != s.last().0);
        }
    }
}

/// Appending an entry with a fresh index is a map insert.
pub proof fn lemma_imap_of_push<V>(s: Seq<(usize, V)>, p: (usize, V))
    ensures
        imap_of(s.push(p)) =~= imap_of(s).insert(p.0 as int, p.1),
{
    assert(s.push(p).drop_last() =~= s);
    assert(s.push(p).last() == p);
}

/// An association list from integer indices to cells with unique indices.
pub struct IndexMap<V> {
    entries: Vec<(usize, V)>,
}

impl<V> View for IndexMap<V> {
    type V = Map<int, V>;

    closed spec fn view(&self) -> Map<int, V> {
        imap_of(self.entries@)
    }
}

impl<V> IndexMap<V> {
    pub closed spec fn wf(&self) -> bool {
        distinct_indices(self.entries@)
    }

    /// How many indices are registered.
    pub closed spec fn len_spec(&self) -> nat {
        self.entries@.len()
    }

    pub fn len(&self) -> (r: usize)
        ensures
            r == self.len_spec(),
    {
        self.entries.len()
    }

    pub fn new() -> (r: Self)
        ensures
            r@ =~= Map::<int, V>::empty(),
            r.wf(),
            r.len_spec() == 0,
    {
        IndexMap { entries: Vec::new() }
    }

    /// The position of the entry carrying this index, if any.
    fn position_of(&self, key: usize) -> (r: Option<usize>)
        requires
            self.wf(),
        ensures
            match r {
                Some(i) => i < self.entries@.len() && self.entries@[i as int].0 == key
                    && self@.dom().contains(key as int),
                None => !self@.dom().contains(key as int),
            },
    {
        let n = self.entries.len();
        let mut i: usize = 0;
        while i < n
            invariant
                i <= n,
                n == self.entries@.len(),
                self.wf(),
                forall|j: int| 0 <= j < i ==> self.entries@[j].0 != key,
            decreases n - i,
        {
            if self.entries[i].0 == key {
                proof {
                    lemma_imap_of_index(self.entries@, i as int);
                }
                return Some(i);
            }
            i = i + 1;
        }
        proof {
            lemma_imap_of_dom(self.entries@, key as int);
        }
        None
    }

    pub fn contains_key(&self, key: usize) -> (r: bool)
        requires
            self.wf(),
        ensures
            r == self@.dom().contains(key as int),
    {
        self.position_of(key).is_some()
    }

    /// Shared access to the cell stored under this index.
    pub fn get(&self, key: usize) -> (r: Option<&V>)
        requires
            self.wf(),
        ensures
            match r {
                Some(v) => self@.dom().contains(key as int) && *v == self@[key as int],
                None => !self@.dom().contains(key as int),
            },
    {
        match self.position_of(key) {
            Some(i) => {
                proof {
                    lemma_imap_of_index(self.entries@, i as int);
                }
                Some(&self.entries[i].1)
            },
            None => None,
        }
    }

    /// Mutable access to the cell stored under this index.
    pub fn get_mut(&mut self, key: usize) -> (v: &mut V)
        requires
            old(self).wf(),
            old(self)@.dom().contains(key as int),
        ensures
            *v == old(self)@[key as int],
            final(self).wf(),
            final(self)@ =~= old(self)@.insert(key as int, *final(v)),
    {
        let r = self.position_of(key);
        let i = r.unwrap();
        proof {
            lemma_imap_of_index(self.entries@, i as int);
            lemma_imap_of_update(self.entries@, i as int);
        }
        &mut self.entries[i].1
    }

    /// Register or overwrite: the cell under this index afterwards is `value`.
    pub fn upsert(&mut self, key: usize, value: V)
        requires
            old(self).wf(),
        ensures
            final(self).wf(),
            final(self)@ =~= old(self)@.insert(key as int, value),
            final(self).len_spec() == if old(self)@.dom().contains(key as int) {
                old(self).len_spec()
            } else {
                old(self).len_spec() + 1
            },
    {
        match self.position_of(key) {
            Some(i) => {
                proof {
                    lemma_imap_of_update(self.entries@, i as int);
                }
                self.entries[i] = (key, value);
            },
            None => {
                proof {
                    lemma_imap_of_push(self.entries@, (key, value));
                    lemma_imap_of_dom(self.entries@, key as int);
                }
                self.entries.push((key, value));
            },
        }
    }
}

} // verus!
