//! The connection registry: each live connection's identity mapped to the
//! handle through which replies are written back to it.
use vstd::prelude::*;
use crate::message::{read_reply, reply_id, chunk_text};

verus! {

/// The connection that a reply chunk is delivered to, among the registered
/// identities `ids`: the one whose identity the reply carries, if any.
pub open spec fn destination(ids: Set<Seq<char>>, chunk: Seq<u8>) -> Option<Seq<char>> {
    match reply_id(chunk) {
        Some(id) => if ids.contains(id) { Some(id) } else { None },
        None => None,
    }
}

/// A reply that carries the identity of a registered connection is delivered
/// to that connection, and to no other.
pub proof fn lemma_reply_reaches_only_its_connection(
    ids: Set<Seq<char>>,
    chunk: Seq<u8>,
    id: Seq<char>,
)
    requires
        reply_id(chunk) == Some(id),
        ids.contains(id),
    ensures
        destination(ids, chunk) == Some(id),
        forall|other: Seq<char>| other != id ==> destination(ids, chunk) != Some(other),
{
}

/// A reply that carries no identity, or one that is not registered, is
/// delivered to no connection.
pub proof fn lemma_unmatched_reply_reaches_nobody(ids: Set<Seq<char>>, chunk: Seq<u8>)
    requires
        !(reply_id(chunk) matches Some(id) && ids.contains(id)),
    ensures
        destination(ids, chunk) is None,
{
}

/// Relies on `uuid::Uuid::new_v4` and its hyphenated form: a random
/// identity, written as 36 characters.
#[verifier::external_body]
fn fresh_id() -> (r: String)
    ensures
        r@.len() == 36,
{
    uuid::Uuid::new_v4().as_hyphenated().to_string()
}

/// One registered connection.
struct Entry<H> {
    id: String,
    handle: H,
}

/// Connections by identity. Identities are distinct.
pub struct Registry<H> {
    entries: Vec<Entry<H>>,
}

impl<H> View for Registry<H> {
    type V = Map<Seq<char>, H>;

    closed spec fn view(&self) -> Map<Seq<char>, H> {
        Map::new(
            |k: Seq<char>| self.has_at(k),
            |k: Seq<char>| self.entries@[self.index_of(k)].handle,
        )
    }
}

impl<H> Registry<H> {
    /// Whether some entry carries the identity `k`.
    pub closed spec fn has_at(&self, k: Seq<char>) -> bool {
        exists|i: int| 0 <= i < self.entries@.len() && self.entries@[i].id@ == k
    }

    /// The position of the entry for `k`, where there is one.
    pub closed spec fn index_of(&self, k: Seq<char>) -> int {
        choose|i: int| 0 <= i < self.entries@.len() && self.entries@[i].id@ == k
    }

    /// No two entries share an identity.
    pub closed spec fn wf(&self) -> bool {
        forall|i: int, j: int|
            0 <= i < self.entries@.len() && 0 <= j < self.entries@.len() && i != j
                ==> #[trigger] self.entries@[i].id@ != #[trigger] self.entries@[j].id@
    }

    proof fn lemma_index(&self, i: int)
        requires
            self.wf(),
            0 <= i < self.entries@.len(),
        ensures
            self@.contains_key(self.entries@[i].id@),
            self.index_of(self.entries@[i].id@) == i,
            self@[self.entries@[i].id@] == self.entries@[i].handle,
    {
        let k = self.entries@[i].id@;
        assert(self.has_at(k));
        let j = self.index_of(k);
        assert(self.entries@[j].id@ == k);
    }

    /// An empty registry.
    pub fn new() -> (r: Registry<H>)
        ensures
            r.wf(),
            r@ == Map::<Seq<char>, H>::empty(),
    {
        let r = Registry { entries: Vec::new() };
        assert(r@ =~= Map::<Seq<char>, H>::empty());
        r
    }

    /// The number of registered connections.
    pub fn len(&self) -> (n: usize)
        requires
            self.wf(),
        ensures
            n == self@.len(),
    {
        proof {
            self.lemma_dom_len();
        }
        self.entries.len()
    }

    proof fn lemma_dom_len(&self)
        requires
            self.wf(),
        ensures
            self@.dom().finite(),
            self@.dom().len() == self.entries@.len(),
    {
        let ids = self.entries@.map_values(|e: Entry<H>| e.id@);
        assert(self@.dom() =~= ids.to_set()) by {
            assert forall|k: Seq<char>| self@.dom().contains(k) implies ids.to_set().contains(k) by {
                let i = self.index_of(k);
                assert(ids[i] == k);
            }
            assert forall|k: Seq<char>| ids.to_set().contains(k) implies self@.dom().contains(k) by {
                let i = choose|i: int| 0 <= i < ids.len() && ids[i] == k;
                assert(self.entries@[i].id@ == k);
            }
        }
        assert(ids.no_duplicates()) by {
            assert forall|i: int, j: int| 0 <= i < ids.len() && 0 <= j < ids.len() && i != j
                implies ids[i] != ids[j] by {
                assert(self.entries@[i].id@ != self.entries@[j].id@);
            }
        }
        ids.unique_seq_to_set();
    }

    /// The position of the entry for `id`, if it is registered.
    fn find(&self, id: &String) -> (r: Option<usize>)
        requires
            self.wf(),
        ensures
            match r {
                Some(i) => i < self.entries@.len() && self.entries@[i as int].id@ == id@,
                None => !self@.contains_key(id@),
            },
    {
        let mut i: usize = 0;
        while i < self.entries.len()
            invariant
                i <= self.entries@.len(),
                forall|j: int| 0 <= j < i ==> self.entries@[j].id@ != id@,
            decreases self.entries@.len() - i,
        {
            if self.entries[i].id == *id {
                return Some(i);
            }
            i = i + 1;
        }
        None
    }

    /// The handle of the connection `id`, if it is registered.
    pub fn lookup(&self, id: &String) -> (r: Option<&H>)
        requires
            self.wf(),
        ensures
            match r {
                Some(h) => self@.contains_key(id@) && *h == self@[id@],
                None => !self@.contains_key(id@),
            },
    {
        match self.find(id) {
            Some(i) => {
                proof {
                    self.lemma_index(i as int);
                }
                Some(&self.entries[i].handle)
            },
            None => None,
        }
    }

    /// Registers `handle` under `id`. An identity that is registered
    /// already is refused, and the handle handed back.
    pub fn register(&mut self, id: String, handle: H) -> (r: Result<(), H>)
        requires
            old(self).wf(),
        ensures
            final(self).wf(),
            match r {
                Ok(()) => !old(self)@.contains_key(id@) && final(self)@ == old(self)@.insert(id@, handle),
                Err(h) => old(self)@.contains_key(id@) && h == handle && final(self)@ == old(self)@,
            },
    {
        match self.find(&id) {
            Some(_) => Err(handle),
            None => {
                let ghost before = *self;
                let ghost k = id@;
                self.entries.push(Entry { id, handle });
                let ghost n = before.entries@.len() as int;
                assert(self.entries@[n].id@ == k);
                assert(self.wf()) by {
                    assert forall|i: int, j: int|
                        0 <= i < self.entries@.len() && 0 <= j < self.entries@.len() && i != j
                        implies #[trigger] self.entries@[i].id@ != #[trigger] self.entries@[j].id@ by {
                        if i < n && j < n {
                            assert(before.entries@[i].id@ != before.entries@[j].id@);
                        } else if i < n {
                            assert(before.has_at(before.entries@[i].id@));
                        } else if j < n {
                            assert(before.has_at(before.entries@[j].id@));
                        }
                    }
                }
                assert(self@ =~= before@.insert(k, handle)) by {
                    assert forall|key: Seq<char>| #[trigger] self@.contains_key(key)
                        == before@.insert(k, handle).contains_key(key) by {
                        if self.has_at(key) && key != k {
                            let i = self.index_of(key);
                            assert(i < n);
                            assert(before.entries@[i].id@ == key);
                        }
                        if before.has_at(key) {
                            let i = before.index_of(key);
                            assert(self.entries@[i].id@ == key);
                        }
                    }
                    assert forall|key: Seq<char>| #[trigger] self@.contains_key(key)
                        implies self@[key] == before@.insert(k, handle)[key] by {
                        if key == k {
                            self.lemma_index(n);
                        } else {
                            let i = self.index_of(key);
                            assert(i < n);
                            assert(before.entries@[i] == self.entries@[i]);
                            before.lemma_index(i);
                            self.lemma_index(i);
                        }
                    }
                }
                Ok(())
            },
        }
    }

    /// Registers `handle` under a freshly drawn random identity of 36
    /// characters and returns that identity. Where the drawn identity is
    /// registered already (a collision of random identities), nothing
    /// changes and the handle is handed back; so where no identity of 36
    /// characters is registered, the call succeeds.
    pub fn register_fresh(&mut self, handle: H) -> (r: Result<String, H>)
        requires
            old(self).wf(),
        ensures
            final(self).wf(),
            match r {
                Ok(id) => {
                    &&& id@.len() == 36
                    &&& !old(self)@.contains_key(id@)
                    &&& final(self)@ == old(self)@.insert(id@, handle)
                },
                Err(h) => {
                    &&& h == handle
                    &&& final(self)@ == old(self)@
                    &&& exists|k: Seq<char>| old(self)@.contains_key(k) && k.len() == 36
                },
            },
    {
        let id = fresh_id();
        match self.find(&id) {
            Some(i) => {
                proof {
                    self.lemma_index(i as int);
                }
                Err(handle)
            },
            None => {
                let copy = id.clone();
                match self.register(copy, handle) {
                    Ok(()) => Ok(id),
                    Err(h) => Err(h),
                }
            },
        }
    }

    /// Removes the connection `id`, handing back its handle if it was registered.
    pub fn remove(&mut self, id: &String) -> (r: Option<H>)
        requires
            old(self).wf(),
        ensures
            final(self).wf(),
            final(self)@ == old(self)@.remove(id@),
            match r {
                Some(h) => old(self)@.contains_key(id@) && h == old(self)@[id@],
                None => !old(self)@.contains_key(id@),
            },
    {
        match self.find(id) {
            None => {
                assert(self@ =~= self@.remove(id@));
                None
            },
            Some(i) => {
                let ghost before = *self;
                proof {
                    before.lemma_index(i as int);
                }
                let e = self.entries.remove(i);
                let ghost k = id@;
                assert(self.entries@ == before.entries@.remove(i as int));
                assert(self.wf()) by {
                    assert forall|a: int, b: int|
                        0 <= a < self.entries@.len() && 0 <= b < self.entries@.len() && a != b
                        implies #[trigger] self.entries@[a].id@ != #[trigger] self.entries@[b].id@ by {
                        let a2 = if a < i { a } else { a + 1 };
                        let b2 = if b < i { b } else { b + 1 };
                        assert(before.entries@[a2].id@ != before.entries@[b2].id@);
                    }
                }
                assert(self@ =~= before@.remove(k)) by {
                    assert forall|key: Seq<char>| #[trigger] self@.contains_key(key)
                        == before@.remove(k).contains_key(key) by {
                        if self.has_at(key) {
                            let a = self.index_of(key);
                            let a2 = if a < i { a } else { a + 1 };
                            assert(before.entries@[a2].id@ == key);
                            assert(a2 != i);
                        }
                        if before.has_at(key) && key != k {
                            let a2 = before.index_of(key);
                            before.lemma_index(a2);
                            assert(a2 != i);
                            let a = if a2 < i { a2 } else { a2 - 1 };
                            assert(self.entries@[a].id@ == key);
                        }
                    }
                    assert forall|key: Seq<char>| #[trigger] self@.contains_key(key)
                        implies self@[key] == before@.remove(k)[key] by {
                        let a = self.index_of(key);
                        let a2 = if a < i { a } else { a + 1 };
                        self.lemma_index(a);
                        before.lemma_index(a2);
                    }
                }
                Some(e.handle)
            },
        }
    }

    /// The connection that a worker reply is bound for, and the payload to
    /// write to it: `None` where the reply carries no id or one that is not
    /// registered.
    pub fn route(&self, chunk: &[u8]) -> (r: Option<(&H, String)>)
        requires
            self.wf(),
        ensures
            match r {
                Some((h, payload)) => {
                    &&& destination(self@.dom(), chunk@) matches Some(id)
                    &&& *h == self@[id]
                    &&& chunk_text(chunk@) == Some(payload@)
                },
                None => destination(self@.dom(), chunk@) is None,
            },
    {
        match read_reply(chunk) {
            Some(reply) => match self.lookup(&reply.id) {
                Some(h) => Some((h, reply.payload)),
                None => None,
            },
            None => None,
        }
    }
}

} // verus!
