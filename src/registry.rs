use vstd::prelude::*;

use crate::envelope::ConnectionHandle;

verus! {

/// The registry's content once the identifiers owned by `handle` are gone.
pub open spec fn without_owner(
    m: Map<Seq<char>, ConnectionHandle>,
    handle: ConnectionHandle,
) -> Map<Seq<char>, ConnectionHandle> {
    Map::new(|k: Seq<char>| m.contains_key(k) && m[k] != handle, |k: Seq<char>| m[k])
}

/// The owner of `id` in a registry whose content is `m`, if any.
pub open spec fn owner_of(m: Map<Seq<char>, ConnectionHandle>, id: Seq<char>) -> Option<
    ConnectionHandle,
> {
    if m.contains_key(id) {
        Some(m[id])
    } else {
        None
    }
}

struct RegistryEntry {
    id: String,
    handle: ConnectionHandle,
}

/// Maps each client identifier to the connection that currently owns it.
///
/// At most one handle is held per identifier; a later registration of an
/// identifier replaces the earlier one, and one handle may own several
/// identifiers at once.
pub struct ConnectionRegistry {
    entries: Vec<RegistryEntry>,
    owners: Ghost<Map<Seq<char>, ConnectionHandle>>,
}

impl View for ConnectionRegistry {
    type V = Map<Seq<char>, ConnectionHandle>;

    closed spec fn view(&self) -> Map<Seq<char>, ConnectionHandle> {
        self.owners@
    }
}

impl ConnectionRegistry {
    /// The entries list each owned identifier exactly once, with its owner.
    pub closed spec fn wf(&self) -> bool {
        &&& forall|i: int|
            0 <= i < self.entries@.len() ==> {
                &&& self.owners@.contains_key(#[trigger] self.entries@[i].id@)
                &&& self.owners@[self.entries@[i].id@] == self.entries@[i].handle
            }
        &&& forall|k: Seq<char>|
            #[trigger] self.owners@.contains_key(k) ==> exists|i: int|
                0 <= i < self.entries@.len() && #[trigger] self.entries@[i].id@ == k
        &&& forall|i: int, j: int|
            0 <= i < j < self.entries@.len() ==> #[trigger] self.entries@[i].id@
                != #[trigger] self.entries@[j].id@
    }

    /// An empty registry.
    pub fn new() -> (r: ConnectionRegistry)
        ensures
            r.wf(),
            r@ == Map::<Seq<char>, ConnectionHandle>::empty(),
    {
        ConnectionRegistry { entries: Vec::new(), owners: Ghost(Map::empty()) }
    }

    /// Makes `handle` the owner of `id`, replacing any earlier owner.
    pub fn register(&mut self, id: String, handle: ConnectionHandle)
        requires
            old(self).wf(),
        ensures
            final(self).wf(),
            final(self)@ == old(self)@.insert(id@, handle),
    {
        let n = self.entries.len();
        let mut i: usize = 0;
        while i < n
            invariant
                self.wf(),
                *self == *old(self),
                n == self.entries@.len(),
                0 <= i <= n,
                forall|j: int| 0 <= j < i ==> #[trigger] self.entries@[j].id@ != id@,
            decreases n - i,
        {
            if self.entries[i].id == id {
                let ghost key = id@;
                self.entries[i] = RegistryEntry { id, handle };
                self.owners = Ghost(self.owners@.insert(key, handle));
                assert forall|k: Seq<char>| #[trigger]
                    self.owners@.contains_key(k) implies exists|j: int|
                        0 <= j < self.entries@.len() && #[trigger] self.entries@[j].id@ == k by {
                    if k != key {
                        let j = choose|j: int|
                            0 <= j < old(self).entries@.len() && #[trigger] old(
                                self,
                            ).entries@[j].id@ == k;
                        assert(self.entries@[j].id@ == k);
                    } else {
                        assert(self.entries@[i as int].id@ == k);
                    }
                }
                return;
            }
            i = i + 1;
        }
        let ghost key = id@;
        self.entries.push(RegistryEntry { id, handle });
        self.owners = Ghost(self.owners@.insert(key, handle));
        assert(!old(self)@.contains_key(key));
        assert forall|k: Seq<char>| #[trigger]
            self.owners@.contains_key(k) implies exists|j: int|
                0 <= j < self.entries@.len() && #[trigger] self.entries@[j].id@ == k by {
            if k != key {
                let j = choose|j: int|
                    0 <= j < old(self).entries@.len() && #[trigger] old(self).entries@[j].id@ == k;
                assert(self.entries@[j].id@ == k);
            } else {
                assert(self.entries@[n as int].id@ == k);
            }
        }
    }

    /// The current owner of `id`, if any.
    pub fn lookup(&self, id: &String) -> (r: Option<ConnectionHandle>)
        requires
            self.wf(),
        ensures
            r == owner_of(self@, id@),
    {
        let n = self.entries.len();
        let mut i: usize = 0;
        while i < n
            invariant
                self.wf(),
                n == self.entries@.len(),
                0 <= i <= n,
                forall|j: int| 0 <= j < i ==> #[trigger] self.entries@[j].id@ != id@,
            decreases n - i,
        {
            if self.entries[i].id == *id {
                return Some(self.entries[i].handle);
            }
            i = i + 1;
        }
        None
    }

    /// Removes every identifier whose owner is `handle`.
    pub fn remove_all(&mut self, handle: ConnectionHandle)
        requires
            old(self).wf(),
        ensures
            final(self).wf(),
            final(self)@ == without_owner(old(self)@, handle),
    {
        let n = self.entries.len();
        let mut kept: Vec<RegistryEntry> = Vec::new();
        let ghost mut from: Seq<int> = Seq::empty();
        let mut i: usize = 0;
        while i < n
            invariant
                self.wf(),
                self == old(self),
                n == self.entries@.len(),
                0 <= i <= n,
                from.len() == kept@.len(),
                forall|m: int|
                    0 <= m < kept@.len() ==> {
                        &&& 0 <= #[trigger] from[m] < i
                        &&& kept@[m].id@ == self.entries@[from[m]].id@
                        &&& kept@[m].handle == self.entries@[from[m]].handle
                        &&& kept@[m].handle != handle
                    },
                forall|m1: int, m2: int|
                    0 <= m1 < m2 < kept@.len() ==> #[trigger] from[m1] < #[trigger] from[m2],
                forall|j: int|
                    0 <= j < i && #[trigger] self.entries@[j].handle != handle ==> exists|m: int|
                        0 <= m < kept@.len() && #[trigger] from[m] == j,
            decreases n - i,
        {
            if self.entries[i].handle != handle {
                let id = self.entries[i].id.clone();
                kept.push(RegistryEntry { id, handle: self.entries[i].handle });
                proof {
                    let ghost prev = from;
                    from = from.push(i as int);
                    assert(from[from.len() - 1] == i);
                    assert forall|j: int|
                        0 <= j < i && #[trigger] self.entries@[j].handle != handle implies exists|m: int|
                            0 <= m < kept@.len() && #[trigger] from[m] == j by {
                        let m = choose|m: int| 0 <= m < prev.len() && #[trigger] prev[m] == j;
                        assert(from[m] == j);
                    }
                }
            }
            i = i + 1;
        }
        let ghost target = without_owner(old(self)@, handle);
        proof {
            assert forall|m1: int, m2: int| 0 <= m1 < m2 < kept@.len() implies #[trigger] kept@[m1].id@
                != #[trigger] kept@[m2].id@ by {
                assert(from[m1] < from[m2]);
                assert(self.entries@[from[m1]].id@ != self.entries@[from[m2]].id@);
            }
            assert forall|m: int| 0 <= m < kept@.len() implies {
                &&& target.contains_key(#[trigger] kept@[m].id@)
                &&& target[kept@[m].id@] == kept@[m].handle
            } by {
                assert(self.entries@[from[m]].id@ == kept@[m].id@);
            }
            assert forall|k: Seq<char>| #[trigger] target.contains_key(k) implies exists|m: int|
                0 <= m < kept@.len() && #[trigger] kept@[m].id@ == k by {
                let j = choose|j: int|
                    0 <= j < self.entries@.len() && #[trigger] self.entries@[j].id@ == k;
                assert(self.entries@[j].handle != handle);
                let m = choose|m: int| 0 <= m < kept@.len() && #[trigger] from[m] == j;
                assert(kept@[m].id@ == k);
            }
        }
        self.entries = kept;
        self.owners = Ghost(target);
        assert forall|k: Seq<char>| #[trigger]
            self.owners@.contains_key(k) implies exists|j: int|
                0 <= j < self.entries@.len() && #[trigger] self.entries@[j].id@ == k by {
            assert(target.contains_key(k));
            let m = choose|m: int| 0 <= m < kept@.len() && #[trigger] kept@[m].id@ == k;
            assert(self.entries@[m].id@ == k);
        }
    }
}

} // verus!
