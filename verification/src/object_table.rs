//! A table of objects keyed by object id, where a later insert of the same
//! id replaces the earlier object.
use vstd::prelude::*;
use crate::object::{Object, ObjectID, ObjectView};

verus! {

/// The map that a sequence of objects stands for: each object under its id,
/// a later object replacing an earlier one with the same id.
pub open spec fn map_of(s: Seq<(ObjectID, Object)>) -> Map<Seq<u8>, ObjectView>
    decreases s.len(),
{
    if s.len() == 0 {
        Map::empty()
    } else {
        map_of(s.drop_last()).insert(s.last().0@, s.last().1@)
    }
}

/// No two objects of the sequence share an id.
pub open spec fn ids_distinct(s: Seq<(ObjectID, Object)>) -> bool {
    forall|i: int, j: int| 0 <= i < s.len() && 0 <= j < s.len() && i != j ==> s[i].0@ != s[j].0@
}

/// The keys of `map_of(s)` are the ids that occur in `s`.
pub proof fn lemma_map_of_dom(s: Seq<(ObjectID, Object)>, k: Seq<u8>)
    ensures
        map_of(s).contains_key(k) <==> exists|i: int| 0 <= i < s.len() && s[i].0@ == k,
    decreases s.len(),
{
    if s.len() > 0 {
        lemma_map_of_dom(s.drop_last(), k);
        if map_of(s).contains_key(k) && s.last().0@ != k {
            let i = choose|i: int| 0 <= i < s.drop_last().len() && s.drop_last()[i].0@ == k;
            assert(s[i].0@ == k);
        }
        if exists|i: int| 0 <= i < s.len() && s[i].0@ == k {
            let i = choose|i: int| 0 <= i < s.len() && s[i].0@ == k;
            if i < s.len() - 1 {
                assert(s.drop_last()[i].0@ == k);
            }
        }
    }
}

/// Replacing the object that holds a given id changes only that key.
pub proof fn lemma_map_of_update(s: Seq<(ObjectID, Object)>, j: int, o: (ObjectID, Object))
    requires
        ids_distinct(s),
        0 <= j < s.len(),
        s[j].0@ == o.0@,
    ensures
        map_of(s.update(j, o)) == map_of(s).insert(o.0@, o.1@),
        ids_distinct(s.update(j, o)),
    decreases s.len(),
{
    let t = s.update(j, o);
    if j == s.len() - 1 {
        assert(t.drop_last() == s.drop_last());
        assert(map_of(t) =~= map_of(s).insert(o.0@, o.1@));
    } else {
        assert(t.drop_last() == s.drop_last().update(j, o));
        lemma_map_of_update(s.drop_last(), j, o);
        assert(s.last().0@ != o.0@);
        assert(map_of(t) =~= map_of(s).insert(o.0@, o.1@));
    }
    assert forall|a: int, b: int| 0 <= a < t.len() && 0 <= b < t.len() && a != b implies t[a].0@
        != t[b].0@ by {
        if a != j && b != j {
            assert(s[a].0@ != s[b].0@);
        } else if a == j {
            assert(s[j].0@ != s[b].0@);
        } else {
            assert(s[a].0@ != s[j].0@);
        }
    }
}

/// Removing the object that holds a given id removes that key.
pub proof fn lemma_map_of_remove(s: Seq<(ObjectID, Object)>, j: int)
    requires
        ids_distinct(s),
        0 <= j < s.len(),
    ensures
        map_of(s.remove(j)) == map_of(s).remove(s[j].0@),
        ids_distinct(s.remove(j)),
    decreases s.len(),
{
    let t = s.remove(j);
    let k = s[j].0@;
    if j == s.len() - 1 {
        assert(t == s.drop_last());
        lemma_map_of_dom(s.drop_last(), k);
        assert(!map_of(s.drop_last()).contains_key(k));
        assert(map_of(t) =~= map_of(s).remove(k));
    } else {
        assert(t.drop_last() == s.drop_last().remove(j));
        assert(t.last() == s.last());
        lemma_map_of_remove(s.drop_last(), j);
        assert(s.last().0@ != k);
        assert(map_of(t) =~= map_of(s).remove(k));
    }
}

/// A table of objects, keyed by object id.
#[derive(Debug)]
pub struct ObjectTable {
    entries: Vec<(ObjectID, Object)>,
}

impl View for ObjectTable {
    type V = Map<Seq<u8>, ObjectView>;

    closed spec fn view(&self) -> Map<Seq<u8>, ObjectView> {
        map_of(self.entries@)
    }
}

impl ObjectTable {
    #[verifier::type_invariant]
    closed spec fn distinct_ids(&self) -> bool {
        ids_distinct(self.entries@)
    }

    /// An empty table.
    pub fn new() -> (t: ObjectTable)
        ensures
            t@ == Map::<Seq<u8>, ObjectView>::empty(),
            t@.dom().finite(),
    {
        ObjectTable { entries: Vec::new() }
    }

    /// Position of the object with id `id`, if any.
    fn position(&self, id: &ObjectID) -> (r: Option<usize>)
        ensures
            match r {
                Some(i) => i < self.entries@.len() && self.entries@[i as int].0@ == id@,
                None => forall|i: int|
                    0 <= i < self.entries@.len() ==> self.entries@[i].0@ != id@,
            },
    {
        let n = self.entries.len();
        let mut i: usize = 0;
        while i < n
            invariant
                n == self.entries@.len(),
                i <= n,
                forall|j: int| 0 <= j < i ==> self.entries@[j].0@ != id@,
            decreases n - i,
        {
            if self.entries[i].0 == *id {
                return Some(i);
            }
            i = i + 1;
        }
        None
    }

    /// Number of objects held.
    pub fn len(&self) -> (n: usize)
        ensures
            n == self@.len(),
            self@.dom().finite(),
    {
        proof {
            use_type_invariant(self);
            self.lemma_len();
        }
        self.entries.len()
    }

    proof fn lemma_len(&self)
        requires
            ids_distinct(self.entries@),
        ensures
            self@.len() == self.entries@.len(),
            self@.dom().finite(),
    {
        lemma_len_map_of(self.entries@);
    }

    /// Insert an object under its id, replacing any object with that id.
    pub fn insert(&mut self, object: Object)
        ensures
            final(self)@ == old(self)@.insert(object@.id, object@),
            final(self)@.dom().finite(),
    {
        let id = object.id();
        self.insert_at(id, object);
    }

    /// Insert an object under the id `id`, replacing any object held under
    /// that id.
    pub fn insert_at(&mut self, id: ObjectID, object: Object)
        ensures
            final(self)@ == old(self)@.insert(id@, object@),
            final(self)@.dom().finite(),
    {
        proof {
            use_type_invariant(&*self);
            lemma_len_map_of(self.entries@);
        }
        match self.position(&id) {
            Some(i) => {
                proof {
                    lemma_map_of_update(self.entries@, i as int, (id, object));
                }
                let mut entries: Vec<(ObjectID, Object)> = Vec::new();
                std::mem::swap(&mut entries, &mut self.entries);
                entries.set(i, (id, object));
                self.entries = entries;
            },
            None => {
                let ghost s = self.entries@;
                let mut entries: Vec<(ObjectID, Object)> = Vec::new();
                std::mem::swap(&mut entries, &mut self.entries);
                entries.push((id, object));
                assert(entries@.drop_last() == s);
                assert(ids_distinct(entries@));
                self.entries = entries;
            },
        }
    }

    /// Remove the object with id `id`, if any.
    pub fn remove(&mut self, id: &ObjectID)
        ensures
            final(self)@ == old(self)@.remove(id@),
            final(self)@.dom().finite(),
    {
        proof {
            use_type_invariant(&*self);
            lemma_len_map_of(self.entries@);
        }
        match self.position(id) {
            Some(i) => {
                proof {
                    lemma_map_of_remove(self.entries@, i as int);
                }
                let mut entries: Vec<(ObjectID, Object)> = Vec::new();
                std::mem::swap(&mut entries, &mut self.entries);
                entries.remove(i);
                self.entries = entries;
            },
            None => {
                proof {
                    lemma_map_of_dom(self.entries@, id@);
                    assert(self@ =~= self@.remove(id@));
                }
            },
        }
    }

    /// The object with id `id`, if any.
    pub fn get(&self, id: &ObjectID) -> (r: Option<&Object>)
        ensures
            match r {
                Some(o) => self@.contains_key(id@) && self@[id@] == o@,
                None => !self@.contains_key(id@),
            },
    {
        proof {
            use_type_invariant(self);
        }
        match self.position(id) {
            Some(i) => {
                proof {
                    lemma_map_of_lookup(self.entries@, i as int);
                }
                Some(&self.entries[i].1)
            },
            None => {
                proof {
                    lemma_map_of_dom(self.entries@, id@);
                }
                None
            },
        }
    }

    /// Whether an object with id `id` is held.
    pub fn contains(&self, id: &ObjectID) -> (r: bool)
        ensures
            r == self@.contains_key(id@),
    {
        self.get(id).is_some()
    }
}

/// In a sequence with distinct ids, the map holds each object under its id.
pub proof fn lemma_map_of_lookup(s: Seq<(ObjectID, Object)>, j: int)
    requires
        ids_distinct(s),
        0 <= j < s.len(),
    ensures
        map_of(s).contains_key(s[j].0@),
        map_of(s)[s[j].0@] == s[j].1@,
    decreases s.len(),
{
    if j < s.len() - 1 {
        assert(s.drop_last()[j] == s[j]);
        lemma_map_of_lookup(s.drop_last(), j);
        assert(s.last().0@ != s[j].0@);
    }
}

/// With distinct ids, the map has one key per object.
pub proof fn lemma_len_map_of(s: Seq<(ObjectID, Object)>)
    requires
        ids_distinct(s),
    ensures
        map_of(s).len() == s.len(),
        map_of(s).dom().finite(),
    decreases s.len(),
{
    if s.len() > 0 {
        lemma_len_map_of(s.drop_last());
        lemma_map_of_dom(s.drop_last(), s.last().0@);
        assert(!map_of(s.drop_last()).contains_key(s.last().0@));
    }
}

} // verus!
