//! Table Metadata Registry: the most recent schema description announced
//! for each table identifier of the stream session.

use vstd::prelude::*;

use crate::schema::TableDescriptor;

verus! {

/// The registry a sequence of descriptors denotes: each entry inserted
/// in order, a later descriptor for an identifier replacing the earlier.
pub open spec fn map_of(s: Seq<TableDescriptor>) -> Map<u64, TableDescriptor>
    decreases s.len(),
{
    if s.len() == 0 {
        Map::empty()
    } else {
        map_of(s.drop_last()).insert(s.last().table_id, s.last())
    }
}

/// Tracks, per stream session, the most recent table description for
/// each table identifier. Holds at most one live descriptor per
/// identifier, always the most recently observed one; its memory is
/// bounded by the number of distinct tables the session references.
pub struct TableRegistry {
    entries: Vec<TableDescriptor>,
}

impl View for TableRegistry {
    type V = Map<u64, TableDescriptor>;

    closed spec fn view(&self) -> Map<u64, TableDescriptor> {
        map_of(self.entries@)
    }
}

impl TableRegistry {
    /// No two stored entries describe the same table identifier.
    pub closed spec fn wf(self) -> bool {
        forall|i: int, j: int|
            0 <= i < j < self.entries@.len() ==> self.entries@[i].table_id
                != self.entries@[j].table_id
    }

    /// An empty registry: no table has been described yet.
    pub fn new() -> (r: TableRegistry)
        ensures
            r.wf(),
            r@ == Map::<u64, TableDescriptor>::empty(),
    {
        TableRegistry { entries: Vec::new() }
    }

    /// Inserts or overwrites the entry for `descriptor.table_id`,
    /// discarding any prior descriptor for that identifier.
    pub fn observe(&mut self, descriptor: TableDescriptor)
        requires
            old(self).wf(),
        ensures
            final(self).wf(),
            final(self)@ == old(self)@.insert(descriptor.table_id, descriptor),
    {
        let ghost s0 = self.entries@;
        let id = descriptor.table_id;
        let mut i: usize = 0;
        while i < self.entries.len()
            invariant
                self.entries@ == s0,
                s0 == old(self).entries@,
                i <= s0.len(),
                id == descriptor.table_id,
                forall|j: int| 0 <= j < i ==> s0[j].table_id != id,
                forall|p: int, q: int| 0 <= p < q < s0.len() ==> s0[p].table_id != s0[q].table_id,
            decreases s0.len() - i,
        {
            if self.entries[i].table_id == id {
                self.entries.set(i, descriptor);
                proof {
                    lemma_map_of_update(s0, i as int, descriptor);
                    assert forall|p: int, q: int|
                        0 <= p < q < self.entries@.len() implies self.entries@[p].table_id
                        != self.entries@[q].table_id by {
                        if p != i && q != i {
                            assert(s0[p].table_id != s0[q].table_id);
                        }
                    }
                }
                return ;
            }
            i = i + 1;
        }
        self.entries.push(descriptor);
        proof {
            assert(self.entries@.drop_last() =~= s0);
            assert(self.entries@.last() == descriptor);
        }
    }

    /// Read-only access to the live descriptor for `table_id`, or
    /// nothing if no description for that identifier has been observed
    /// in this session.
    pub fn lookup(&self, table_id: u64) -> (r: Option<&TableDescriptor>)
        requires
            self.wf(),
        ensures
            match r {
                Some(d) => self@.contains_key(table_id) && *d == self@[table_id],
                None => !self@.contains_key(table_id),
            },
    {
        let mut i: usize = 0;
        while i < self.entries.len()
            invariant
                i <= self.entries@.len(),
                self.wf(),
                forall|j: int| 0 <= j < i ==> self.entries@[j].table_id != table_id,
            decreases self.entries@.len() - i,
        {
            if self.entries[i].table_id == table_id {
                proof {
                    lemma_map_of_unique_at(self.entries@, i as int);
                }
                return Some(&self.entries[i]);
            }
            i = i + 1;
        }
        proof {
            lemma_map_of_dom(self.entries@);
        }
        None
    }
}

/// The identifiers a registry knows are exactly those its entries carry.
proof fn lemma_map_of_dom(s: Seq<TableDescriptor>)
    ensures
        forall|k: u64|
            map_of(s).contains_key(k) <==> (exists|i: int| 0 <= i < s.len() && s[i].table_id == k),
    decreases s.len(),
{
    if s.len() > 0 {
        lemma_map_of_dom(s.drop_last());
        assert forall|k: u64| map_of(s).contains_key(k) implies (exists|i: int|
            0 <= i < s.len() && s[i].table_id == k) by {
            if k == s.last().table_id {
                assert(s[s.len() - 1].table_id == k);
            } else {
                assert(map_of(s.drop_last()).contains_key(k));
                let i = choose|i: int| 0 <= i < s.drop_last().len() && s.drop_last()[i].table_id
                    == k;
                assert(s.drop_last()[i] == s[i]);
                assert(s[i].table_id == k);
            }
        }
        assert forall|k: u64| (exists|i: int| 0 <= i < s.len() && s[i].table_id == k) implies map_of(
            s,
        ).contains_key(k) by {
            let i = choose|i: int| 0 <= i < s.len() && s[i].table_id == k;
            if i < s.len() - 1 {
                assert(0 <= i < s.drop_last().len() && s.drop_last()[i].table_id == k);
                assert(map_of(s.drop_last()).contains_key(k));
            } else {
                assert(k == s.last().table_id);
            }
        }
    }
}

/// With unique identifiers, the registry maps each stored entry's
/// identifier to that very entry.
proof fn lemma_map_of_unique_at(s: Seq<TableDescriptor>, i: int)
    requires
        0 <= i < s.len(),
        forall|p: int, q: int| 0 <= p < q < s.len() ==> s[p].table_id != s[q].table_id,
    ensures
        map_of(s).contains_key(s[i].table_id),
        map_of(s)[s[i].table_id] == s[i],
    decreases s.len(),
{
    if i < s.len() - 1 {
        assert(s[s.len() - 1].table_id != s[i].table_id);
        lemma_map_of_unique_at(s.drop_last(), i);
    }
}

/// Replacing the entry that holds an identifier acts on the registry as
/// inserting the replacement for that identifier.
proof fn lemma_map_of_update(s: Seq<TableDescriptor>, i: int, d: TableDescriptor)
    requires
        0 <= i < s.len(),
        s[i].table_id == d.table_id,
        forall|p: int, q: int| 0 <= p < q < s.len() ==> s[p].table_id != s[q].table_id,
    ensures
        map_of(s.update(i, d)) == map_of(s).insert(d.table_id, d),
    decreases s.len(),
{
    let su = s.update(i, d);
    if i == s.len() - 1 {
        assert(su.drop_last() =~= s.drop_last());
        assert(su.last() == d);
        assert(map_of(su) =~= map_of(s).insert(d.table_id, d));
    } else {
        assert(su.drop_last() =~= s.drop_last().update(i, d));
        assert(su.last() == s.last());
        lemma_map_of_update(s.drop_last(), i, d);
        assert(s.last().table_id != d.table_id);
        assert(map_of(s.drop_last()).insert(d.table_id, d).insert(s.last().table_id, s.last())
            =~= map_of(s.drop_last()).insert(s.last().table_id, s.last()).insert(d.table_id, d));
    }
}

/// Overwrite semantics of the registry model: after two observations
/// for the same table identifier, only the second descriptor is live.
pub proof fn lemma_observe_overwrites(
    m: Map<u64, TableDescriptor>,
    d1: TableDescriptor,
    d2: TableDescriptor,
)
    requires
        d1.table_id == d2.table_id,
    ensures
        m.insert(d1.table_id, d1).insert(d2.table_id, d2) == m.insert(d2.table_id, d2),
{
    assert(m.insert(d1.table_id, d1).insert(d2.table_id, d2) =~= m.insert(d2.table_id, d2));
}

} // verus!
