//! Keyed, expiring storage of raw session rows.
//!
//! The storage backend is consumed as an abstract capability, so the
//! persistence layer can be swapped without touching anything built on
//! top of it. Its model is a map from session id to a row of payload
//! bytes and an absolute expiry; a row whose expiry has passed must be
//! treated by every reader exactly like a row that is not there.

use vstd::prelude::*;

verus! {

/// The storage layer could not be reached. Distinct from "no such
/// session": no session can be trusted while this holds.
#[derive(Debug, Clone, Copy, PartialEq, Eq, Structural)]
pub enum StoreError {
    Unavailable,
}

/// One stored row, at the level contracts speak of: the encoded payload
/// and the absolute expiry timestamp.
pub struct SessionRow {
    pub data: Seq<u8>,
    pub expiry: u64,
}

/// Removing every row whose expiry is at or before `now` leaves exactly
/// this map.
pub open spec fn spec_sweep(m: Map<Seq<char>, SessionRow>, now: u64) -> Map<Seq<char>, SessionRow> {
    Map::new(|k: Seq<char>| m.dom().contains(k) && m[k].expiry > now, |k: Seq<char>| m[k])
}

/// Abstract storage of session rows, keyed by session id.
///
/// Each operation either performs its whole effect or reports the
/// backend unavailable and leaves the stored rows as they were; nothing
/// in between. The in-memory implementation below is total; an
/// implementation over a real persistence layer may fail.
pub trait SessionBackend: Sized {
    /// The rows this backend currently holds.
    spec fn sessions(&self) -> Map<Seq<char>, SessionRow>;

    /// The backend's internal well-formedness.
    spec fn inv(&self) -> bool;

    /// Insert-or-update of one row, keyed by id: the last writer wins,
    /// whole rows at a time.
    fn save(&mut self, id: &String, data: &Vec<u8>, expiry: u64) -> (r: Result<(), StoreError>)
        requires
            old(self).inv(),
        ensures
            final(self).inv(),
            match r {
                Ok(()) => final(self).sessions() == old(self).sessions().insert(
                    id@,
                    (SessionRow { data: data@, expiry }),
                ),
                Err(e) => final(self).sessions() == old(self).sessions() && e
                    == StoreError::Unavailable,
            },
    ;

    /// Reads the row under `id`, unless it is absent or its expiry is at
    /// or before `now` — the two are indistinguishable to the caller.
    fn load(&self, id: &String, now: u64) -> (r: Result<Option<(Vec<u8>, u64)>, StoreError>)
        requires
            self.inv(),
        ensures
            match r {
                Ok(Some(row)) => self.sessions().dom().contains(id@) && self.sessions()[id@].expiry
                    > now && row.0@ == self.sessions()[id@].data && row.1
                    == self.sessions()[id@].expiry,
                Ok(None) => !(self.sessions().dom().contains(id@) && self.sessions()[id@].expiry
                    > now),
                Err(e) => e == StoreError::Unavailable,
            },
    ;

    /// Unconditional removal of the row under `id`; removing an absent id
    /// changes nothing, so the operation is idempotent.
    fn delete(&mut self, id: &String) -> (r: Result<(), StoreError>)
        requires
            old(self).inv(),
        ensures
            final(self).inv(),
            match r {
                Ok(()) => final(self).sessions() == old(self).sessions().remove(id@),
                Err(e) => final(self).sessions() == old(self).sessions() && e
                    == StoreError::Unavailable,
            },
    ;

    /// Housekeeping sweep: removes exactly the rows whose expiry is at or
    /// before `now`, and no others.
    fn delete_expired(&mut self, now: u64) -> (r: Result<(), StoreError>)
        requires
            old(self).inv(),
        ensures
            final(self).inv(),
            match r {
                Ok(()) => final(self).sessions() == spec_sweep(old(self).sessions(), now),
                Err(e) => final(self).sessions() == old(self).sessions() && e
                    == StoreError::Unavailable,
            },
    ;
}

/// One row as the in-memory backend keeps it.
struct StoredEntry {
    pub id: String,
    pub data: Vec<u8>,
    pub expiry: u64,
}

spec fn row_of(e: StoredEntry) -> SessionRow {
    SessionRow { data: e.data@, expiry: e.expiry }
}

/// No session id occurs twice.
spec fn unique_ids(s: Seq<StoredEntry>) -> bool {
    forall|a: int, b: int| 0 <= a < b < s.len() ==> s[a].id@ != s[b].id@
}

/// The map a list of rows stands for; on a duplicated id the later row
/// would win, though the backend never keeps duplicates.
spec fn entries_map(s: Seq<StoredEntry>) -> Map<Seq<char>, SessionRow>
    decreases s.len(),
{
    if s.len() == 0 {
        Map::empty()
    } else {
        entries_map(s.drop_last()).insert(s.last().id@, row_of(s.last()))
    }
}

/// An id is in the map exactly when some row carries it.
proof fn lemma_entries_map_dom(s: Seq<StoredEntry>)
    ensures
        forall|k: Seq<char>|
            #[trigger] entries_map(s).dom().contains(k) <==> (exists|i: int|
                0 <= i < s.len() && s[i].id@ == k),
    decreases s.len(),
{
    if s.len() == 0 {
    } else {
        lemma_entries_map_dom(s.drop_last());
        assert forall|k: Seq<char>| #[trigger]
            entries_map(s).dom().contains(k) implies (exists|i: int|
            0 <= i < s.len() && s[i].id@ == k) by {
            if k == s.last().id@ {
                assert(s[s.len() - 1].id@ == k);
            } else {
                assert(entries_map(s.drop_last()).dom().contains(k));
                let i = choose|i: int| 0 <= i < s.drop_last().len() && s.drop_last()[i].id@ == k;
                assert(s[i].id@ == k);
            }
        }
        assert forall|k: Seq<char>|
            (exists|i: int| 0 <= i < s.len() && s[i].id@ == k) implies #[trigger] entries_map(
            s,
        ).dom().contains(k) by {
            let i = choose|i: int| 0 <= i < s.len() && s[i].id@ == k;
            if i == s.len() - 1 {
            } else {
                assert(s.drop_last()[i].id@ == k);
                assert(entries_map(s.drop_last()).dom().contains(k));
            }
        }
    }
}

/// Under unique ids, the map holds each row exactly as the list does.
proof fn lemma_entries_map_at(s: Seq<StoredEntry>, i: int)
    requires
        unique_ids(s),
        0 <= i < s.len(),
    ensures
        entries_map(s).dom().contains(s[i].id@),
        entries_map(s)[s[i].id@] == row_of(s[i]),
    decreases s.len(),
{
    if i == s.len() - 1 {
    } else {
        assert(s.drop_last()[i] == s[i]);
        lemma_entries_map_at(s.drop_last(), i);
        assert(s.last().id@ != s[i].id@);
    }
}

/// Removing the row at an index removes exactly its id from the map.
proof fn lemma_entries_map_remove(s: Seq<StoredEntry>, i: int)
    requires
        unique_ids(s),
        0 <= i < s.len(),
    ensures
        entries_map(s.remove(i)) == entries_map(s).remove(s[i].id@),
    decreases s.len(),
{
    let k = s[i].id@;
    if i == s.len() - 1 {
        assert(s.remove(i) =~= s.drop_last());
        lemma_entries_map_dom(s.drop_last());
        assert forall|j: int| 0 <= j < s.drop_last().len() implies s.drop_last()[j].id@ != k by {
            assert(s[j].id@ != s[s.len() - 1].id@);
        }
        assert(!entries_map(s.drop_last()).dom().contains(k));
        assert(entries_map(s.drop_last()) =~= entries_map(s).remove(k));
    } else {
        assert(s.remove(i).drop_last() =~= s.drop_last().remove(i));
        assert(s.remove(i).last() == s.last());
        lemma_entries_map_remove(s.drop_last(), i);
        assert(s.drop_last()[i] == s[i]);
        assert(s.last().id@ != k);
        assert(entries_map(s.remove(i)) == entries_map(s.drop_last().remove(i)).insert(
            s.last().id@,
            row_of(s.last()),
        ));
        assert(entries_map(s.drop_last()).remove(k).insert(s.last().id@, row_of(s.last()))
            =~= entries_map(s.drop_last()).insert(s.last().id@, row_of(s.last())).remove(k));
    }
}

/// Uniqueness survives removing a row.
proof fn lemma_unique_remove(s: Seq<StoredEntry>, i: int)
    requires
        unique_ids(s),
        0 <= i < s.len(),
    ensures
        unique_ids(s.remove(i)),
{
    assert forall|a: int, b: int|
        0 <= a < b < s.remove(i).len() implies s.remove(i)[a].id@ != s.remove(i)[b].id@ by {
        let a0 = if a < i {
            a
        } else {
            a + 1
        };
        let b0 = if b < i {
            b
        } else {
            b + 1
        };
        assert(s.remove(i)[a] == s[a0]);
        assert(s.remove(i)[b] == s[b0]);
    }
}

/// In-memory storage of session rows. Total: each operation's own
/// contract adds that it never reports the backend unavailable.
pub struct MemoryStore {
    entries: Vec<StoredEntry>,
}

fn clone_entry(e: &StoredEntry) -> (r: StoredEntry)
    ensures
        r.id@ == e.id@,
        r.data@ == e.data@,
        r.expiry == e.expiry,
{
    StoredEntry {
        id: e.id.clone(),
        data: vstd::slice::slice_to_vec(e.data.as_slice()),
        expiry: e.expiry,
    }
}

impl MemoryStore {
    /// An empty store.
    pub fn new() -> (r: MemoryStore)
        ensures
            r.inv(),
            r.sessions() == Map::<Seq<char>, SessionRow>::empty(),
    {
        MemoryStore { entries: Vec::new() }
    }

    /// The index of the row under `id`, if one is there.
    fn find_index(&self, id: &String) -> (r: Option<usize>)
        ensures
            match r {
                Some(i) => i < self.entries@.len() && self.entries@[i as int].id@ == id@,
                None => forall|j: int| 0 <= j < self.entries@.len() ==> self.entries@[j].id@ != id@,
            },
    {
        let mut i: usize = 0;
        while i < self.entries.len()
            invariant
                i <= self.entries@.len(),
                forall|j: int| 0 <= j < i ==> self.entries@[j].id@ != id@,
            decreases self.entries@.len() - i,
        {
            if self.entries[i].id == *id {
                return Some(i);
            }
            i += 1;
        }
        None
    }
}

impl SessionBackend for MemoryStore {
    closed spec fn sessions(&self) -> Map<Seq<char>, SessionRow> {
        entries_map(self.entries@)
    }

    closed spec fn inv(&self) -> bool {
        unique_ids(self.entries@)
    }

    fn save(&mut self, id: &String, data: &Vec<u8>, expiry: u64) -> (r: Result<(), StoreError>)
        ensures
            r is Ok,
    {
        match self.find_index(id) {
            Some(i) => {
                proof {
                    lemma_entries_map_remove(self.entries@, i as int);
                    lemma_unique_remove(self.entries@, i as int);
                }
                self.entries.remove(i);
            },
            None => {
                proof {
                    lemma_entries_map_dom(self.entries@);
                }
            },
        }
        proof {
            lemma_entries_map_dom(self.entries@);
            assert(!entries_map(self.entries@).dom().contains(id@));
        }
        let ghost mid = self.entries@;
        self.entries.push(
            StoredEntry {
                id: id.clone(),
                data: vstd::slice::slice_to_vec(data.as_slice()),
                expiry,
            },
        );
        proof {
            assert(self.entries@.drop_last() =~= mid);
            assert(entries_map(self.entries@) == entries_map(mid).insert(
                id@,
                (SessionRow { data: data@, expiry }),
            ));
            assert(entries_map(mid).insert(id@, (SessionRow { data: data@, expiry }))
                =~= entries_map(old(self).entries@).insert(id@, (SessionRow { data: data@, expiry })));
            assert forall|a: int, b: int|
                0 <= a < b < self.entries@.len() implies self.entries@[a].id@
                != self.entries@[b].id@ by {
                if b == self.entries@.len() - 1 {
                    assert(mid[a].id@ != id@);
                }
            }
        }
        Ok(())
    }

    fn load(&self, id: &String, now: u64) -> (r: Result<Option<(Vec<u8>, u64)>, StoreError>)
        ensures
            r is Ok,
    {
        match self.find_index(id) {
            Some(i) => {
                proof {
                    lemma_entries_map_at(self.entries@, i as int);
                }
                let e = &self.entries[i];
                if e.expiry > now {
                    Ok(Some((vstd::slice::slice_to_vec(e.data.as_slice()), e.expiry)))
                } else {
                    Ok(None)
                }
            },
            None => {
                proof {
                    lemma_entries_map_dom(self.entries@);
                }
                Ok(None)
            },
        }
    }

    fn delete(&mut self, id: &String) -> (r: Result<(), StoreError>)
        ensures
            r is Ok,
    {
        match self.find_index(id) {
            Some(i) => {
                proof {
                    lemma_entries_map_remove(self.entries@, i as int);
                    lemma_unique_remove(self.entries@, i as int);
                }
                self.entries.remove(i);
            },
            None => {
                proof {
                    lemma_entries_map_dom(self.entries@);
                    assert(!entries_map(self.entries@).dom().contains(id@));
                    assert(entries_map(self.entries@).remove(id@) =~= entries_map(self.entries@));
                }
            },
        }
        Ok(())
    }

    fn delete_expired(&mut self, now: u64) -> (r: Result<(), StoreError>)
        ensures
            r is Ok,
    {
        let ghost s = self.entries@;
        let mut kept: Vec<StoredEntry> = Vec::new();
        let mut i: usize = 0;
        proof {
            assert(s.take(0) =~= Seq::<StoredEntry>::empty());
            assert(entries_map(kept@) =~= spec_sweep(entries_map(s.take(0)), now));
        }
        while i < self.entries.len()
            invariant
                s == self.entries@,
                unique_ids(s),
                i <= s.len(),
                unique_ids(kept@),
                entries_map(kept@) == spec_sweep(entries_map(s.take(i as int)), now),
            decreases s.len() - i,
        {
            let ghost tk = s.take(i as int);
            let ghost tk1 = s.take(i + 1);
            proof {
                assert(tk1.drop_last() =~= tk);
                assert(tk1.last() == s[i as int]);
                assert(entries_map(tk1) == entries_map(tk).insert(s[i as int].id@, row_of(
                    s[i as int],
                )));
                // The id of the row at hand is not among those already kept.
                lemma_entries_map_dom(tk);
                assert(!entries_map(tk).dom().contains(s[i as int].id@)) by {
                    if entries_map(tk).dom().contains(s[i as int].id@) {
                        let j = choose|j: int| 0 <= j < tk.len() && tk[j].id@ == s[i as int].id@;
                        assert(s[j].id@ == s[i as int].id@);
                    }
                }
                lemma_entries_map_dom(kept@);
            }
            let e = &self.entries[i];
            if e.expiry > now {
                proof {
                    assert forall|a: int| 0 <= a < kept@.len() implies kept@[a].id@
                        != s[i as int].id@ by {
                        if kept@[a].id@ == s[i as int].id@ {
                            assert(entries_map(kept@).dom().contains(s[i as int].id@));
                            assert(spec_sweep(entries_map(tk), now).dom().contains(
                                s[i as int].id@,
                            ));
                        }
                    }
                }
                let ghost kept0 = kept@;
                kept.push(clone_entry(e));
                proof {
                    assert(kept@.drop_last() =~= kept0);
                    assert(entries_map(kept@) == entries_map(kept0).insert(s[i as int].id@, row_of(
                        s[i as int],
                    )));
                    assert(entries_map(kept0).insert(s[i as int].id@, row_of(s[i as int]))
                        =~= spec_sweep(entries_map(tk1), now));
                    assert forall|a: int, b: int|
                        0 <= a < b < kept@.len() implies kept@[a].id@ != kept@[b].id@ by {
                        if b == kept@.len() - 1 {
                            assert(kept0[a].id@ != s[i as int].id@);
                        }
                    }
                }
            } else {
                proof {
                    assert(spec_sweep(entries_map(tk1), now) =~= spec_sweep(entries_map(tk), now));
                }
            }
            i += 1;
        }
        proof {
            assert(s.take(s.len() as int) =~= s);
        }
        self.entries = kept;
        Ok(())
    }
}

} // verus!
