//! The node registry: an arena of shared vertex records and an append-only
//! table from every alias coordinate to the index of its record. Several
//! coordinates may resolve to the identical record; the record's first alias
//! is its canonical identity.

use vstd::prelude::*;
use crate::coords::Coord;
use crate::node::{NetNode, SpecNode};

verus! {

/// The mathematical image of a registry: the arena in insertion order and the
/// alias table in insertion order.
pub struct RegView {
    pub records: Seq<SpecNode>,
    pub entries: Seq<(Coord, usize)>,
}

/// The partial map that an alias table denotes: later entries would win, but
/// a well-formed registry never repeats a key.
pub open spec fn index_map(entries: Seq<(Coord, usize)>) -> Map<Coord, usize>
    decreases entries.len(),
{
    if entries.len() == 0 {
        Map::empty()
    } else {
        index_map(entries.drop_last()).insert(entries.last().0, entries.last().1)
    }
}

/// A key present in the table is in the map, and (keys being distinct) maps
/// to its entry's record index.
pub proof fn lemma_index_map_present(entries: Seq<(Coord, usize)>, k: int)
    requires
        0 <= k < entries.len(),
        forall|k1: int, k2: int|
            0 <= k1 < k2 < entries.len() ==> (#[trigger] entries[k1]).0 != (#[trigger] entries[k2]).0,
    ensures
        index_map(entries).contains_key(entries[k].0),
        index_map(entries)[entries[k].0] == entries[k].1,
    decreases entries.len(),
{
    if k == entries.len() - 1 {
    } else {
        lemma_index_map_present(entries.drop_last(), k);
        assert(entries.drop_last()[k] == entries[k]);
        assert(entries.last().0 != entries[k].0);
    }
}

/// A coordinate on no entry is absent from the map.
pub proof fn lemma_index_map_absent(entries: Seq<(Coord, usize)>, c: Coord)
    requires
        forall|k: int| 0 <= k < entries.len() ==> (#[trigger] entries[k]).0 != c,
    ensures
        !index_map(entries).contains_key(c),
    decreases entries.len(),
{
    if entries.len() > 0 {
        assert(forall|k: int|
            0 <= k < entries.drop_last().len() ==> (#[trigger] entries.drop_last()[k]).0 != c);
        lemma_index_map_absent(entries.drop_last(), c);
    }
}

/// A key in the map stands on some entry, which carries the mapped index.
pub proof fn lemma_index_map_covered(entries: Seq<(Coord, usize)>, c: Coord)
    requires
        index_map(entries).contains_key(c),
    ensures
        exists|k: int|
            0 <= k < entries.len() && (#[trigger] entries[k]).0 == c
                && entries[k].1 == index_map(entries)[c],
    decreases entries.len(),
{
    if entries.len() > 0 {
        if entries.last().0 == c && index_map(entries)[c] == entries.last().1 {
            assert(entries[entries.len() - 1].0 == c);
        } else {
            lemma_index_map_covered(entries.drop_last(), c);
            let k = choose|k: int|
                0 <= k < entries.drop_last().len() && (#[trigger] entries.drop_last()[k]).0 == c
                    && entries.drop_last()[k].1 == index_map(entries.drop_last())[c];
            assert(entries[k] == entries.drop_last()[k]);
        }
    }
}

/// The alias table that registering a list of records, each under its own
/// arena index, leaves behind: record by record, one entry per alias.
pub open spec fn entries_of(records: Seq<SpecNode>) -> Seq<(Coord, usize)>
    decreases records.len(),
{
    if records.len() == 0 {
        Seq::empty()
    } else {
        entries_of(records.drop_last())
            + Seq::new(records.last().coordinates.len(), |j: int|
                (records.last().coordinates[j], (records.len() - 1) as usize))
    }
}

/// Registering one more record extends the alias table by exactly that
/// record's aliases, keyed under the next arena index.
pub proof fn lemma_entries_of_push(rs: Seq<SpecNode>, n: SpecNode)
    ensures
        entries_of(rs.push(n)) == entries_of(rs)
            + Seq::new(n.coordinates.len(), |j: int| (n.coordinates[j], rs.len() as usize)),
{
    let grown = rs.push(n);
    assert(grown.drop_last() =~= rs);
    assert(grown.last() == n);
    assert(Seq::new(grown.last().coordinates.len(), |j: int|
            (grown.last().coordinates[j], (grown.len() - 1) as usize))
        =~= Seq::new(n.coordinates.len(), |j: int| (n.coordinates[j], rs.len() as usize)));
}

/// Whether registering a list of records, in order, never meets an occupied
/// coordinate: each record's aliases are absent from the coordinate map of
/// everything registered before it. This is exactly the condition under which
/// an append-only construction goes through without a collision.
pub open spec fn registration_ok(records: Seq<SpecNode>) -> bool
    decreases records.len(),
{
    if records.len() == 0 {
        true
    } else {
        registration_ok(records.drop_last())
            && forall|i: int|
                0 <= i < records.last().coordinates.len()
                    ==> !index_map(entries_of(records.drop_last())).contains_key(
                        #[trigger] records.last().coordinates[i])
    }
}

/// Registering one more record goes through exactly when the list before it
/// went through and the new record's aliases are all unoccupied.
pub proof fn lemma_registration_ok_push(records: Seq<SpecNode>, n: SpecNode)
    ensures
        registration_ok(records.push(n)) == (registration_ok(records)
            && forall|i: int|
                0 <= i < n.coordinates.len()
                    ==> !index_map(entries_of(records)).contains_key(#[trigger] n.coordinates[i])),
{
    let grown = records.push(n);
    assert(grown.drop_last() =~= records);
    assert(grown.last() == n);
}

/// A prefix of a collision-free registration is collision-free.
pub proof fn lemma_registration_ok_prefix(records: Seq<SpecNode>, k: int)
    requires
        registration_ok(records),
        0 <= k <= records.len(),
    ensures
        registration_ok(records.take(k)),
    decreases records.len(),
{
    if k < records.len() {
        assert(records.drop_last().take(k) =~= records.take(k));
        lemma_registration_ok_prefix(records.drop_last(), k);
    } else {
        assert(records.take(k) =~= records);
    }
}

impl RegView {
    /// The coordinate map the registry denotes.
    pub open spec fn coord_map(self) -> Map<Coord, usize> {
        index_map(self.entries)
    }

    /// How many coordinate keys the registry holds.
    pub open spec fn key_count(self) -> int {
        self.entries.len() as int
    }

    /// The registry's invariant:
    /// every entry points inside the arena and sits on one of its record's
    /// alias coordinates; keys never repeat; every record is well formed; and
    /// every alias coordinate of every record is registered under that
    /// record's index, so all aliases share the identical record.
    pub open spec fn inv(self) -> bool {
        &&& self.records.len() <= usize::MAX
        &&& forall|k: int| 0 <= k < self.entries.len() ==> (#[trigger] self.entries[k]).1 < self.records.len()
        &&& forall|k1: int, k2: int|
            0 <= k1 < k2 < self.entries.len() ==> (#[trigger] self.entries[k1]).0 != (#[trigger] self.entries[k2]).0
        &&& forall|r: int| 0 <= r < self.records.len() ==> (#[trigger] self.records[r]).wf()
        &&& forall|r: int, j: int|
            0 <= r < self.records.len() && 0 <= j < self.records[r].coordinates.len()
                ==> self.entries.contains(((#[trigger] self.records[r].coordinates[j]), r as usize))
        &&& forall|k: int|
            0 <= k < self.entries.len()
                ==> self.records[(#[trigger] self.entries[k]).1 as int].coordinates.contains(self.entries[k].0)
    }

    /// Under the invariant, every alias of every record resolves through the
    /// coordinate map to that record: the shared-ownership law of the
    /// registry.
    pub proof fn lemma_alias_resolution(self)
        requires
            self.inv(),
        ensures
            forall|r: int, j: int|
                0 <= r < self.records.len() && 0 <= j < self.records[r].coordinates.len()
                    ==> {
                        let c = #[trigger] self.records[r].coordinates[j];
                        self.coord_map().contains_key(c) && self.coord_map()[c] == r
                    },
    {
        assert forall|r: int, j: int|
            0 <= r < self.records.len() && 0 <= j < self.records[r].coordinates.len()
                implies {
                    let c = #[trigger] self.records[r].coordinates[j];
                    self.coord_map().contains_key(c) && self.coord_map()[c] == r
                } by {
            let c = self.records[r].coordinates[j];
            assert(self.entries.contains((c, r as usize)));
            let k = choose|k: int| 0 <= k < self.entries.len() && self.entries[k] == (c, r as usize);
            lemma_index_map_present(self.entries, k);
            assert(index_map(self.entries)[c] == r as usize);
        }
    }

    /// Under the invariant, whatever the coordinate map resolves is a record
    /// of the arena that owns the queried coordinate as one of its aliases.
    pub proof fn lemma_map_sound(self, c: Coord)
        requires
            self.inv(),
            self.coord_map().contains_key(c),
        ensures
            self.coord_map()[c] < self.records.len(),
            self.records[self.coord_map()[c] as int].coordinates.contains(c),
    {
        lemma_index_map_covered(self.entries, c);
    }
}

/// The node registry. Insertion is append-only during construction; records
/// are never mutated once published.
pub struct Registry {
    records: Vec<NetNode>,
    index: Vec<(Coord, usize)>,
}

impl View for Registry {
    type V = RegView;

    closed spec fn view(&self) -> RegView {
        RegView {
            records: self.records@.map_values(|n: NetNode| n@),
            entries: self.index@,
        }
    }
}

impl Registry {
    /// The registry's invariant, stated of its view.
    pub open spec fn inv(&self) -> bool {
        self@.inv()
    }

    /// An empty registry.
    pub fn new() -> (reg: Registry)
        ensures
            reg.inv(),
            reg@.records == Seq::<SpecNode>::empty(),
            reg@.entries == Seq::<(Coord, usize)>::empty(),
    {
        let reg = Registry { records: Vec::new(), index: Vec::new() };
        proof {
            assert(reg@.records =~= Seq::<SpecNode>::empty());
        }
        reg
    }

    /// How many coordinate keys (canonical and alias) the registry holds.
    pub fn len(&self) -> (n: usize)
        ensures
            n == self@.key_count(),
    {
        self.index.len()
    }

    /// How many shared vertex records the arena holds.
    pub fn num_records(&self) -> (n: usize)
        ensures
            n == self@.records.len(),
    {
        self.records.len()
    }

    /// The record at an arena index.
    pub fn record(&self, r: usize) -> (node: &NetNode)
        requires
            r < self@.records.len(),
        ensures
            node@ == self@.records[r as int],
    {
        &self.records[r]
    }

    /// Resolves a coordinate to the arena index of its shared record.
    pub fn lookup(&self, c: Coord) -> (r: Option<usize>)
        requires
            self.inv(),
        ensures
            match r {
                Some(i) => self@.coord_map().contains_key(c) && self@.coord_map()[c] == i
                    && i < self@.records.len(),
                None => !self@.coord_map().contains_key(c),
            },
    {
        let mut k: usize = 0;
        while k < self.index.len()
            invariant
                self.inv(),
                k <= self.index.len(),
                forall|j: int| 0 <= j < k ==> (#[trigger] self.index@[j]).0 != c,
            decreases self.index.len() - k,
        {
            if self.index[k].0 == c {
                proof {
                    lemma_index_map_present(self@.entries, k as int);
                }
                return Some(self.index[k].1);
            }
            k += 1;
        }
        proof {
            lemma_index_map_absent(self@.entries, c);
        }
        None
    }

    /// Resolves a coordinate to its shared record, or reports that no vertex
    /// owns it.
    pub fn get(&self, c: Coord) -> (r: Option<&NetNode>)
        requires
            self.inv(),
        ensures
            match r {
                Some(node) => self@.coord_map().contains_key(c)
                    && node@ == self@.records[self@.coord_map()[c] as int],
                None => !self@.coord_map().contains_key(c),
            },
    {
        match self.lookup(c) {
            Some(i) => Some(&self.records[i]),
            None => None,
        }
    }

    /// Publishes a complete record: the arena grows by the record and the
    /// alias table by one key per alias coordinate, all pointing at it. The
    /// caller must have established that every alias is fresh; the record is
    /// never touched again afterwards.
    pub fn insert(&mut self, node: NetNode)
        requires
            old(self).inv(),
            node.wf(),
            forall|j: int|
                0 <= j < node@.coordinates.len()
                    ==> !old(self)@.coord_map().contains_key(#[trigger] node@.coordinates[j]),
        ensures
            final(self).inv(),
            final(self)@.records == old(self)@.records.push(node@),
            final(self)@.entries == old(self)@.entries
                + Seq::new(node@.coordinates.len(), |j: int| (node@.coordinates[j], old(self)@.records.len() as usize)),
            old(self)@.entries == entries_of(old(self)@.records)
                ==> final(self)@.entries == entries_of(final(self)@.records),
    {
        let idx = self.records.len();
        let ghost old_entries = self@.entries;
        let ghost coords = node@.coordinates;
        proof {
            assert forall|k: int, j: int|
                0 <= k < old_entries.len() && 0 <= j < coords.len()
                    implies (#[trigger] old_entries[k]).0 != #[trigger] coords[j] by {
                if old_entries[k].0 == coords[j] {
                    lemma_index_map_present(old_entries, k);
                }
            }
        }
        let mut j: usize = 0;
        while j < node.coordinates.len()
            invariant
                j <= coords.len(),
                idx == self.records.len(),
                node@.coordinates == coords,
                self@.records == old(self)@.records,
                self@.entries == old_entries
                    + Seq::new(j as nat, |i: int| (coords[i], idx)),
            decreases node.coordinates.len() - j,
        {
            self.index.push((node.coordinates[j], idx));
            proof {
                assert(self@.entries =~= old_entries + Seq::new((j + 1) as nat, |i: int| (coords[i], idx)));
            }
            j += 1;
        }
        self.records.push(node);
        let grown_len = self.records.len();
        proof {
            assert(self@.records.len() == grown_len);
            assert(self@.records =~= old(self)@.records.push(node@));
            let new_entries = self@.entries;
            let n = old_entries.len() as int;
            let m = coords.len() as int;
            assert forall|k1: int, k2: int|
                0 <= k1 < k2 < new_entries.len()
                    implies (#[trigger] new_entries[k1]).0 != (#[trigger] new_entries[k2]).0 by {
                if k2 >= n {
                    assert(new_entries[k2].0 == coords[k2 - n]);
                    if k1 >= n {
                        assert(new_entries[k1].0 == coords[k1 - n]);
                    }
                }
            }
            assert forall|r: int, j2: int|
                0 <= r < self@.records.len() && 0 <= j2 < self@.records[r].coordinates.len()
                    implies self@.entries.contains(((#[trigger] self@.records[r].coordinates[j2]), r as usize)) by {
                if r < n || r < old(self)@.records.len() {
                    if r < old(self)@.records.len() {
                        assert(old(self)@.entries.contains((self@.records[r].coordinates[j2], r as usize)));
                        let k = choose|k: int|
                            0 <= k < old_entries.len()
                                && #[trigger] old_entries[k] == (self@.records[r].coordinates[j2], r as usize);
                        assert(new_entries[k] == (self@.records[r].coordinates[j2], r as usize));
                    }
                }
                if r == old(self)@.records.len() {
                    assert(new_entries[n + j2] == (coords[j2], idx));
                }
            }
            assert forall|k: int| 0 <= k < new_entries.len()
                implies self@.records[(#[trigger] new_entries[k]).1 as int].coordinates.contains(
                    new_entries[k].0) by {
                if k < n {
                    assert(new_entries[k] == old(self)@.entries[k]);
                    assert(old(self)@.records[new_entries[k].1 as int].coordinates.contains(new_entries[k].0));
                } else {
                    assert(new_entries[k] == (coords[k - n], idx));
                    assert(self@.records[idx as int].coordinates[k - n] == coords[k - n]);
                }
            }
            assert(forall|k: int|
                0 <= k < new_entries.len() ==> (#[trigger] new_entries[k]).1 < self@.records.len());
            if old(self)@.entries == entries_of(old(self)@.records) {
                lemma_entries_of_push(old(self)@.records, node@);
                assert(self@.entries =~= entries_of(self@.records));
            }
        }
    }

    /// Attempts to publish a record: it is refused exactly when some alias
    /// coordinate is already registered. On success the registry grows
    /// exactly as `insert` describes; on refusal it is untouched.
    pub fn try_insert(&mut self, node: NetNode) -> (ok: bool)
        requires
            old(self).inv(),
            node.wf(),
        ensures
            final(self).inv(),
            ok <==> (forall|j: int|
                0 <= j < node@.coordinates.len()
                    ==> !old(self)@.coord_map().contains_key(#[trigger] node@.coordinates[j])),
            ok ==> final(self)@.records == old(self)@.records.push(node@)
                && final(self)@.entries == old(self)@.entries
                    + Seq::new(node@.coordinates.len(), |j: int| (node@.coordinates[j], old(self)@.records.len() as usize)),
            ok && old(self)@.entries == entries_of(old(self)@.records)
                ==> final(self)@.entries == entries_of(final(self)@.records),
            !ok ==> *final(self) == *old(self),
    {
        let mut j: usize = 0;
        while j < node.coordinates.len()
            invariant
                self == old(self),
                old(self).inv(),
                j <= node@.coordinates.len(),
                forall|i: int|
                    0 <= i < j ==> !old(self)@.coord_map().contains_key(#[trigger] node@.coordinates[i]),
            decreases node.coordinates.len() - j,
        {
            if self.lookup(node.coordinates[j]).is_some() {
                return false;
            }
            j += 1;
        }
        self.insert(node);
        true
    }
}

} // verus!
