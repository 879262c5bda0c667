//! The table of live tunnelled connections, keyed by connection id, that
//! the relay session and the client gateway each keep. Every id occurs at
//! most once.

use vstd::prelude::*;

verus! {

/// Whether no two entries carry the same id.
pub open spec fn ids_distinct<H>(entries: Seq<(String, H)>) -> bool {
    forall|i: int, j: int|
        0 <= i < entries.len() && 0 <= j < entries.len() && i != j
            ==> #[trigger] entries[i].0@ != #[trigger] entries[j].0@
}

/// Whether some entry carries the id `k`.
pub open spec fn has_id<H>(entries: Seq<(String, H)>, k: Seq<char>) -> bool {
    exists|i: int| 0 <= i < entries.len() && #[trigger] entries[i].0@ == k
}

/// The map from each stored id to the handle stored with it.
pub open spec fn entries_map<H>(entries: Seq<(String, H)>) -> Map<Seq<char>, H> {
    Map::new(
        |k: Seq<char>| has_id(entries, k),
        |k: Seq<char>| entries[choose|i: int| 0 <= i < entries.len() && #[trigger] entries[i].0@ == k].1,
    )
}

proof fn lemma_lookup<H>(entries: Seq<(String, H)>, i: int)
    requires
        ids_distinct(entries),
        0 <= i < entries.len(),
    ensures
        entries_map(entries).contains_key(entries[i].0@),
        entries_map(entries)[entries[i].0@] == entries[i].1,
{
    let k = entries[i].0@;
    assert(has_id(entries, k));
    let j = choose|j: int| 0 <= j < entries.len() && #[trigger] entries[j].0@ == k;
    assert(j == i);
}

proof fn lemma_absent<H>(entries: Seq<(String, H)>, k: Seq<char>)
    requires
        forall|i: int| 0 <= i < entries.len() ==> #[trigger] entries[i].0@ != k,
    ensures
        !entries_map(entries).contains_key(k),
{
}

proof fn lemma_push<H>(before: Seq<(String, H)>, e: (String, H))
    requires
        ids_distinct(before),
        !has_id(before, e.0@),
    ensures
        ids_distinct(before.push(e)),
        entries_map(before.push(e)) == entries_map(before).insert(e.0@, e.1),
{
    let after = before.push(e);
    assert forall|i: int, j: int|
        0 <= i < after.len() && 0 <= j < after.len() && i != j implies #[trigger] after[i].0@
        != #[trigger] after[j].0@ by {
        if i < before.len() && j < before.len() {
            assert(after[i] == before[i] && after[j] == before[j]);
        } else if i < before.len() {
            assert(after[i] == before[i]);
        } else if j < before.len() {
            assert(after[j] == before[j]);
        }
    }
    let m = entries_map(before).insert(e.0@, e.1);
    assert forall|k: Seq<char>| #[trigger] entries_map(after).contains_key(k) == m.contains_key(k) && (
    m.contains_key(k) ==> entries_map(after)[k] == m[k]) by {
        if k == e.0@ {
            assert(after[before.len() as int] == e);
            lemma_lookup(after, before.len() as int);
        } else if has_id(before, k) {
            let i = choose|i: int| 0 <= i < before.len() && #[trigger] before[i].0@ == k;
            assert(after[i] == before[i]);
            lemma_lookup(after, i);
            lemma_lookup(before, i);
        } else {
            assert forall|i: int| 0 <= i < after.len() implies #[trigger] after[i].0@ != k by {
                if i < before.len() {
                    assert(after[i] == before[i]);
                }
            }
            lemma_absent(after, k);
        }
    }
    assert(entries_map(after) =~= m);
}

proof fn lemma_remove<H>(before: Seq<(String, H)>, i: int)
    requires
        ids_distinct(before),
        0 <= i < before.len(),
    ensures
        ids_distinct(before.remove(i)),
        entries_map(before.remove(i)) == entries_map(before).remove(before[i].0@),
{
    let after = before.remove(i);
    let gone = before[i].0@;
    assert forall|a: int, b: int|
        0 <= a < after.len() && 0 <= b < after.len() && a != b implies #[trigger] after[a].0@
        != #[trigger] after[b].0@ by {
        let a0 = if a < i { a } else { a + 1 };
        let b0 = if b < i { b } else { b + 1 };
        assert(after[a] == before[a0] && after[b] == before[b0]);
    }
    let m = entries_map(before).remove(gone);
    assert forall|k: Seq<char>| #[trigger] entries_map(after).contains_key(k) == m.contains_key(k) && (
    m.contains_key(k) ==> entries_map(after)[k] == m[k]) by {
        if k == gone {
            assert forall|a: int| 0 <= a < after.len() implies #[trigger] after[a].0@ != k by {
                let a0 = if a < i { a } else { a + 1 };
                assert(after[a] == before[a0]);
            }
            lemma_absent(after, k);
        } else if has_id(before, k) {
            let j = choose|j: int| 0 <= j < before.len() && #[trigger] before[j].0@ == k;
            let a = if j < i { j } else { j - 1 };
            assert(after[a] == before[j]);
            lemma_lookup(after, a);
            lemma_lookup(before, j);
        } else {
            assert forall|a: int| 0 <= a < after.len() implies #[trigger] after[a].0@ != k by {
                let a0 = if a < i { a } else { a + 1 };
                assert(after[a] == before[a0]);
            }
            lemma_absent(after, k);
        }
    }
    assert(entries_map(after) =~= m);
}

/// Connection handles of type `H`, each under a distinct connection id.
pub struct ConnectionRegistry<H> {
    entries: Vec<(String, H)>,
}

impl<H> ConnectionRegistry<H> {
    #[verifier::type_invariant]
    closed spec fn wf(self) -> bool {
        ids_distinct(self.entries@)
    }

    /// The handle stored under each connection id.
    pub closed spec fn view(self) -> Map<Seq<char>, H> {
        entries_map(self.entries@)
    }

    /// A registry with no connection.
    pub fn new() -> (r: Self)
        ensures
            r@ == Map::<Seq<char>, H>::empty(),
    {
        let r = ConnectionRegistry { entries: Vec::new() };
        assert(r@ =~= Map::<Seq<char>, H>::empty());
        r
    }

    fn find(&self, id: &String) -> (r: Option<usize>)
        ensures
            match r {
                Some(i) => i < self.entries@.len() && self.entries@[i as int].0@ == id@,
                None => !has_id(self.entries@, id@),
            },
    {
        let mut i: usize = 0;
        while i < self.entries.len()
            invariant
                i <= self.entries@.len(),
                forall|j: int| 0 <= j < i ==> #[trigger] self.entries@[j].0@ != id@,
            decreases self.entries@.len() - i,
        {
            if self.entries[i].0 == *id {
                return Some(i);
            }
            i = i + 1;
        }
        None
    }

    /// Whether a connection is stored under `id`.
    pub fn contains_key(&self, id: &String) -> (r: bool)
        ensures
            r == self@.contains_key(id@),
    {
        proof { use_type_invariant(self); }
        match self.find(id) {
            Some(i) => {
                proof { lemma_lookup(self.entries@, i as int); }
                true
            },
            None => false,
        }
    }

    /// The connection stored under `id`, if any.
    pub fn get(&self, id: &String) -> (r: Option<&H>)
        ensures
            r is Some == self@.contains_key(id@),
            r matches Some(h) ==> *h == self@[id@],
    {
        proof { use_type_invariant(self); }
        match self.find(id) {
            Some(i) => {
                proof { lemma_lookup(self.entries@, i as int); }
                Some(&self.entries[i].1)
            },
            None => None,
        }
    }

    /// Stores `handle` under `id`, replacing and handing back the
    /// connection that was stored there before.
    pub fn insert(&mut self, id: String, handle: H) -> (r: Option<H>)
        ensures
            final(self)@ == old(self)@.insert(id@, handle),
            r is Some == old(self)@.contains_key(id@),
            r matches Some(h) ==> h == old(self)@[id@],
    {
        proof { use_type_invariant(&*self); }
        let ghost key = id@;
        let found = self.find(&id);
        let mut entries: Vec<(String, H)> = Vec::new();
        std::mem::swap(&mut entries, &mut self.entries);
        assert(entries@ == old(self).entries@);
        match found {
            Some(i) => {
                proof {
                    lemma_lookup(entries@, i as int);
                    lemma_remove(entries@, i as int);
                }
                let (_, previous) = entries.remove(i);
                proof {
                    assert forall|j: int| 0 <= j < entries@.len()
                        implies #[trigger] entries@[j].0@ != key by {
                        lemma_lookup(entries@, j);
                    }
                    lemma_push(entries@, (id, handle));
                }
                entries.push((id, handle));
                self.entries = entries;
                proof {
                    assert(self@ =~= old(self)@.insert(key, handle));
                }
                Some(previous)
            },
            None => {
                proof { lemma_push(entries@, (id, handle)); }
                entries.push((id, handle));
                self.entries = entries;
                None
            },
        }
    }

    /// Takes the connection stored under `id` out of the registry.
    pub fn remove(&mut self, id: &String) -> (r: Option<H>)
        ensures
            final(self)@ == old(self)@.remove(id@),
            r is Some == old(self)@.contains_key(id@),
            r matches Some(h) ==> h == old(self)@[id@],
    {
        proof { use_type_invariant(&*self); }
        match self.find(id) {
            Some(i) => {
                let mut entries: Vec<(String, H)> = Vec::new();
                std::mem::swap(&mut entries, &mut self.entries);
                proof {
                    lemma_lookup(entries@, i as int);
                    lemma_remove(entries@, i as int);
                }
                let (_, h) = entries.remove(i);
                self.entries = entries;
                Some(h)
            },
            None => {
                proof {
                    lemma_absent(self.entries@, id@);
                    assert(old(self)@.remove(id@) =~= old(self)@);
                }
                None
            },
        }
    }
}

/// Storing a connection under a new id and removing it again gives back
/// the registry as it was.
pub proof fn lemma_remove_undoes_insert<H>(m: Map<Seq<char>, H>, id: Seq<char>, h: H)
    requires
        !m.contains_key(id),
    ensures
        m.insert(id, h).remove(id) == m,
{
    assert(m.insert(id, h).remove(id) =~= m);
}

} // verus!
