use vstd::prelude::*;
use crate::chunk::ChunkCoord;

verus! {

/// A finite map from chunk coordinates to values, kept in insertion order.
///
/// Each coordinate occurs at most once. An entry keeps its position until it
/// is removed; removing an entry moves the last entry into its place.
pub struct CoordMap<V> {
    keys: Vec<ChunkCoord>,
    values: Vec<V>,
}

impl<V> View for CoordMap<V> {
    type V = Map<ChunkCoord, V>;

    closed spec fn view(&self) -> Map<ChunkCoord, V> {
        Map::new(
            |c: ChunkCoord| self.keys@.contains(c),
            |c: ChunkCoord| self.values@[self.keys@.index_of(c)],
        )
    }
}

impl<V> CoordMap<V> {
    #[verifier::type_invariant]
    closed spec fn inv(self) -> bool {
        &&& self.keys@.len() == self.values@.len()
        &&& self.keys@.no_duplicates()
    }

    /// Number of entries.
    pub closed spec fn spec_len(&self) -> nat {
        self.keys@.len()
    }

    /// The coordinate of the entry at position `i`.
    pub closed spec fn key_at(&self, i: int) -> ChunkCoord {
        self.keys@[i]
    }

    /// The value of the entry at position `i`.
    pub closed spec fn value_at(&self, i: int) -> V {
        self.values@[i]
    }

    /// What ties the positions to the map: every position holds a distinct
    /// coordinate of the map with its value, and every coordinate of the map
    /// has a position.
    pub open spec fn positions_wf(&self) -> bool {
        &&& forall|i: int|
            0 <= i < self.spec_len() ==> self@.contains_key(#[trigger] self.key_at(i)) && self@[self.key_at(
                i,
            )] == self.value_at(i)
        &&& forall|i: int, j: int|
            0 <= i < self.spec_len() && 0 <= j < self.spec_len() && i != j ==> self.key_at(i)
                != self.key_at(j)
        &&& forall|c: ChunkCoord| #[trigger]
            self@.contains_key(c) ==> exists|i: int|
                0 <= i < self.spec_len() && self.key_at(i) == c
    }

    proof fn lemma_positions(self)
        requires
            self.inv(),
        ensures
            self.positions_wf(),
    {
        assert forall|i: int| 0 <= i < self.spec_len() implies self@.contains_key(
            #[trigger] self.key_at(i),
        ) && self@[self.key_at(i)] == self.value_at(i) by {
            assert(self.keys@.contains(self.keys@[i]));
            let j = self.keys@.index_of(self.keys@[i]);
            assert(self.keys@[j] == self.keys@[i]);
        }
        assert forall|c: ChunkCoord| #[trigger] self@.contains_key(c) implies exists|i: int|
            0 <= i < self.spec_len() && self.key_at(i) == c by {
            let i = self.keys@.index_of(c);
            assert(self.key_at(i) == c);
        }
    }

    /// Makes the tie between positions and map known for this value.
    pub fn check_positions(&self)
        ensures
            self.positions_wf(),
    {
        proof {
            use_type_invariant(self);
            self.lemma_positions();
        }
    }

    pub fn new() -> (m: Self)
        ensures
            m@ == Map::<ChunkCoord, V>::empty(),
            m.spec_len() == 0,
    {
        let m = CoordMap { keys: Vec::new(), values: Vec::new() };
        assert(m@ =~= Map::<ChunkCoord, V>::empty());
        m
    }

    pub fn len(&self) -> (n: usize)
        ensures
            n == self.spec_len(),
    {
        self.keys.len()
    }

    /// The coordinate at position `i`.
    pub fn key(&self, i: usize) -> (c: ChunkCoord)
        requires
            i < self.spec_len(),
        ensures
            c == self.key_at(i as int),
    {
        self.keys[i]
    }

    /// The value at position `i`.
    pub fn value(&self, i: usize) -> (v: &V)
        requires
            i < self.spec_len(),
        ensures
            *v == self.value_at(i as int),
    {
        proof {
            use_type_invariant(self);
        }
        &self.values[i]
    }

    /// The position of `coord`, if the map holds it.
    pub fn index_of(&self, coord: ChunkCoord) -> (found: Option<usize>)
        ensures
            self.positions_wf(),
            match found {
                Some(i) => i < self.spec_len() && self.key_at(i as int) == coord
                    && self@.contains_key(coord) && self@[coord] == self.value_at(i as int),
                None => !self@.contains_key(coord),
            },
    {
        proof {
            use_type_invariant(self);
            self.lemma_positions();
        }
        let mut i: usize = 0;
        while i < self.keys.len()
            invariant
                i <= self.keys@.len(),
                self.positions_wf(),
                forall|j: int| 0 <= j < i ==> self.keys@[j] != coord,
            decreases self.keys@.len() - i,
        {
            if self.keys[i] == coord {
                return Some(i);
            }
            i += 1;
        }
        None
    }

    pub fn contains_key(&self, coord: ChunkCoord) -> (present: bool)
        ensures
            present == self@.contains_key(coord),
    {
        self.index_of(coord).is_some()
    }

    pub fn get(&self, coord: ChunkCoord) -> (found: Option<&V>)
        ensures
            match found {
                Some(v) => self@.contains_key(coord) && self@[coord] == *v,
                None => !self@.contains_key(coord),
            },
    {
        match self.index_of(coord) {
            Some(i) => Some(self.value(i)),
            None => None,
        }
    }

    /// Mutable access to the value at position `i`; the coordinates stay.
    pub fn value_mut(&mut self, i: usize) -> (v: &mut V)
        requires
            i < old(self).spec_len(),
        ensures
            *v == old(self).value_at(i as int),
            final(self).spec_len() == old(self).spec_len(),
            forall|j: int|
                0 <= j < old(self).spec_len() ==> final(self).key_at(j) == old(self).key_at(j),
            forall|j: int|
                0 <= j < old(self).spec_len() && j != i ==> final(self).value_at(j) == old(
                    self).value_at(j),
            final(self).value_at(i as int) == *final(v),
            final(self)@ == old(self)@.insert(old(self).key_at(i as int), *final(v)),
    {
        proof {
            use_type_invariant(&*self);
            self.lemma_positions();
        }
        &mut self.values[i]
    }

    /// Sets the value for `coord`. An entry that exists keeps its position;
    /// a new entry goes to the end.
    pub fn insert(&mut self, coord: ChunkCoord, value: V)
        ensures
            final(self)@ == old(self)@.insert(coord, value),
            final(self).spec_len() == if old(self)@.contains_key(coord) {
                old(self).spec_len()
            } else {
                old(self).spec_len() + 1
            },
            forall|i: int|
                0 <= i < old(self).spec_len() ==> final(self).key_at(i) == old(self).key_at(i),
            forall|i: int|
                0 <= i < old(self).spec_len() && old(self).key_at(i) != coord ==> final(self).value_at(i) == old(self).value_at(i),
            !old(self)@.contains_key(coord) ==> final(self).key_at(old(self).spec_len() as int)
                == coord,
    {
        proof {
            use_type_invariant(&*self);
            self.lemma_positions();
        }
        let found = self.index_of(coord);
        let mut taken = CoordMap { keys: Vec::new(), values: Vec::new() };
        core::mem::swap(self, &mut taken);
        let CoordMap { mut keys, mut values } = taken;
        match found {
            Some(i) => {
                values[i] = value;
            },
            None => {
                keys.push(coord);
                values.push(value);
                assert(keys@.no_duplicates());
            },
        }
        *self = CoordMap { keys, values };
        proof {
            self.lemma_positions();
            assert(self@ =~= old(self)@.insert(coord, value)) by {
                assert forall|c: ChunkCoord| self@.contains_key(c) <==> old(self)@.insert(
                    coord,
                    value,
                ).contains_key(c) by {
                    if self@.contains_key(c) {
                        let i = choose|i: int| 0 <= i < self.spec_len() && self.key_at(i) == c;
                        if i < old(self).spec_len() {
                            assert(old(self).key_at(i) == c);
                        }
                    }
                    if old(self)@.contains_key(c) {
                        let i = choose|i: int|
                            0 <= i < old(self).spec_len() && old(self).key_at(i) == c;
                        assert(self.key_at(i) == c);
                    }
                    if c == coord {
                        match found {
                            Some(i) => {
                                assert(self.key_at(i as int) == c);
                            },
                            None => {
                                assert(self.key_at(old(self).spec_len() as int) == c);
                            },
                        }
                    }
                }
                assert forall|c: ChunkCoord| self@.contains_key(c) implies self@[c] == old(self)@.insert(coord, value)[c] by {
                    let i = choose|i: int| 0 <= i < self.spec_len() && self.key_at(i) == c;
                    assert(self@[self.key_at(i)] == self.value_at(i));
                    if c != coord {
                        assert(i < old(self).spec_len());
                        assert(old(self).key_at(i) == c);
                        assert(old(self)@[old(self).key_at(i)] == old(self).value_at(i));
                    }
                }
            }
        }
    }

    /// Takes the entry for `coord` out of the map, if there is one. The last
    /// entry moves into the freed position.
    pub fn remove(&mut self, coord: ChunkCoord) -> (removed: Option<V>)
        ensures
            final(self)@ == old(self)@.remove(coord),
            match removed {
                Some(v) => old(self)@.contains_key(coord) && old(self)@[coord] == v,
                None => !old(self)@.contains_key(coord),
            },
    {
        proof {
            use_type_invariant(&*self);
            self.lemma_positions();
        }
        let found = self.index_of(coord);
        match found {
            Some(i) => {
                let mut taken = CoordMap { keys: Vec::new(), values: Vec::new() };
                core::mem::swap(self, &mut taken);
                let CoordMap { mut keys, mut values } = taken;
                let ghost old_keys = keys@;
                let ghost old_values = values@;
                keys.swap_remove(i);
                let value = values.swap_remove(i);
                proof {
                    assert(keys@.no_duplicates()) by {
                        assert forall|a: int, b: int|
                            0 <= a < keys@.len() && 0 <= b < keys@.len() && a != b implies keys@[a]
                            != keys@[b] by {
                            let last = old_keys.len() - 1;
                            let pa = if a == i { last } else { a };
                            let pb = if b == i { last } else { b };
                            assert(keys@[a] == old_keys[pa]);
                            assert(keys@[b] == old_keys[pb]);
                        }
                    }
                }
                *self = CoordMap { keys, values };
                proof {
                    self.lemma_positions();
                    let last = old_keys.len() - 1;
                    assert forall|c: ChunkCoord| self@.contains_key(c) <==> old(self)@.remove(
                        coord,
                    ).contains_key(c) by {
                        if self@.contains_key(c) {
                            let a = choose|a: int| 0 <= a < self.spec_len() && self.key_at(a) == c;
                            let pa = if a == i { last } else { a };
                            assert(old(self).key_at(pa) == c);
                            assert(pa != i);
                        }
                        if old(self)@.remove(coord).contains_key(c) {
                            let p = choose|p: int|
                                0 <= p < old(self).spec_len() && old(self).key_at(p) == c;
                            assert(p != i);
                            let a = if p == last { i as int } else { p };
                            assert(self.key_at(a) == c);
                        }
                    }
                    assert forall|c: ChunkCoord| self@.contains_key(c) implies self@[c] == old(
                        self)@.remove(coord)[c] by {
                        let a = choose|a: int| 0 <= a < self.spec_len() && self.key_at(a) == c;
                        let pa = if a == i { last } else { a };
                        assert(self@[self.key_at(a)] == self.value_at(a));
                        assert(old(self).key_at(pa) == c);
                        assert(old(self)@[old(self).key_at(pa)] == old(self).value_at(pa));
                    }
                    assert(self@ =~= old(self)@.remove(coord));
                }
                Some(value)
            },
            None => {
                assert(self@ =~= old(self)@.remove(coord));
                None
            },
        }
    }
}

} // verus!
