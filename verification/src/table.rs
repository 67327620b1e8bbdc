//! transposition tables: a table of search results indexed by position hash
use vstd::prelude::*;
use crate::board::{BoardState, board_hash};
use crate::bounds::EvalBound;
use crate::entry::TableEntry;
use crate::search::{SearchResult, MV};
use crate::values::{Value, Depth};

verus! {

/// the bytes one [`TableEntry`] takes: two 64 bit words
pub const ENTRY_BYTES: usize = 16;

/// The default size of a transposition table, in bytes
pub const DEFAULT_TABLE_SIZE: usize = 256;

/// A key for a transposition table
/// - FromType: the type of the position's identifier
pub trait TKey: Sync + Sized + Copy + Clone {
    /// the type of the position's identifier
    type FromType;

    /// create a new key from the position's identifier
    fn hash(from: &Self::FromType) -> Self;

    /// a full match between keys, used to determine equality
    fn equals(&self, other: &Self) -> bool;
}

/// A transposition table entry
pub trait TEntry: Sync + Sized {
    /// the type of the hash used to identify this entry
    type Key: TKey;

    /// is the entry valid? (what [`TEntry::is_valid`] answers)
    spec fn valid(&self) -> bool;

    /// can the bound of this entry be read?
    spec fn has_bound(&self) -> bool;

    /// can a table hold this entry? the score it carries has a negation, so
    /// a search that reads it back can hand it up the tree, and its bound can
    /// be read
    spec fn storable(&self) -> bool;

    /// the hash-key of this entry
    fn key(&self) -> Self::Key;

    /// create a new empty entry
    fn new_empty() -> Self;

    /// create a new entry to store a search result, whose first principal
    /// variation move is the move stored
    fn new_from_result(hash: u64, depth: Depth, result: &SearchResult, bound: EvalBound) -> Self
        requires
            result.pv@.len() > 0,
    ;

    /// the depth of the search that created this entry
    fn depth(&self) -> Depth;

    /// the relative evaluation of the entry
    fn bound(&self) -> EvalBound
        requires
            self.has_bound(),
    ;

    /// a [`SearchResult`] from this entry
    fn search_result(&self) -> SearchResult;

    /// do the entry's values make sense?
    fn is_valid(&self) -> (r: bool)
        ensures
            r == self.valid(),
    ;
}

/// A transposition table of hashes with type `K` and entries of type `E`
pub trait TranspositionTable<Key: TKey, Entry: TEntry>: Sized {
    /// create a new transposition table, with a size of `bytes` bytes (no
    /// more than `usize::MAX / 1000`, which no memory holds, so that the
    /// fill count in permille cannot overflow)
    fn new(bytes: usize) -> Self
        requires
            bytes <= usize::MAX / 1000,
    ;

    /// resize the transposition table to `bytes` bytes (no more than
    /// `usize::MAX / 1000`), returning the new capacity in entries
    fn resize(&mut self, bytes: usize) -> usize
        requires
            bytes <= usize::MAX / 1000,
    ;

    /// get the entry for a hash, if it exists
    fn get(&self, hash: Key) -> Option<Entry>;

    /// insert an entry for a hash; the entry is a valid one, as a debug
    /// build asserts, and a storable one
    fn insert(&mut self, hash: Key, entry: Entry)
        requires
            entry.valid(),
            entry.storable(),
    ;

    /// empty the transposition table
    fn clear(&mut self);

    /// the number of entries in the table
    fn entry_count(&self) -> usize;

    /// capacity in number of entries
    fn capacity(&self) -> usize;

    /// UCI hashfull: how full the table is, in permille
    fn hashfull(&self) -> usize;
}

/// A model for concurrent access to the transposition table
pub trait TableAccess<K: TKey, E: TEntry, T: Send + Sync + TranspositionTable<K, E>>: Sized {
    /// count one successful read from the table
    fn hit(&self);

    /// another handle to the same table
    fn share(&self) -> Self;
}

impl TKey for u64 {
    type FromType = BoardState;

    fn hash(from: &BoardState) -> (r: u64)
        ensures
            r == board_hash(from@),
    {
        from.get_hash()
    }

    fn equals(&self, other: &u64) -> (r: bool)
        ensures
            r == (*self == *other),
    {
        *self == *other
    }
}

impl TEntry for TableEntry {
    type Key = u64;

    open spec fn valid(&self) -> bool {
        self.spec_is_valid()
    }

    open spec fn has_bound(&self) -> bool {
        self.bound_code() != 3
    }

    open spec fn storable(&self) -> bool {
        self.spec_eval().0 != i16::MIN && self.bound_code() != 3
    }

    fn key(&self) -> (r: u64)
        ensures
            r == self.key,
    {
        self.key
    }

    fn new_empty() -> (r: TableEntry)
        ensures
            r.key == 0,
            r.value == 0,
            !r.spec_is_valid(),
    {
        TableEntry::new_empty()
    }

    fn new_from_result(hash: u64, depth: Depth, result: &SearchResult, bound: EvalBound) -> (r: TableEntry)
        ensures
            r == (TableEntry {
                key: hash,
                value: crate::entry::packed_word(result.next_position_value, depth, result.pv@[0].0, bound, false),
            }),
            r.spec_is_valid(),
    {
        proof {
            crate::entry::lemma_pack_unpack(hash, result.next_position_value, depth, result.pv@[0].0, bound, false);
        }
        TableEntry::pack(hash, result.next_position_value, depth, result.pv[0].0, bound, false)
    }

    fn depth(&self) -> (r: Depth)
        ensures
            r == self.spec_depth(),
    {
        TableEntry::depth(self)
    }

    fn bound(&self) -> (r: EvalBound)
        ensures
            r == EvalBound::from_code(self.bound_code()),
    {
        TableEntry::bound(self)
    }

    fn search_result(&self) -> (r: SearchResult)
        ensures
            r.pv@ == seq![MV(self.spec_mv(), self.spec_eval())],
            r.next_position_value == self.spec_eval(),
            r.nodes_searched == 1,
            r.tb_hits == 1,
            r.depth == self.spec_depth(),
            !r.from_draw,
            !r.aborted,
    {
        let mut pv = Vec::new();
        pv.push(MV(self.mv(), self.eval()));
        SearchResult {
            pv,
            next_position_value: self.eval(),
            nodes_searched: 1,
            tb_hits: 1,
            depth: self.depth(),
            from_draw: false,
            aborted: false,
        }
    }

    fn is_valid(&self) -> (r: bool) {
        self.is_valid_entry()
    }
}

/// a table of empty entries holds only storable ones
proof fn lemma_empty_storable(s: Seq<TableEntry>)
    requires
        forall|i: int| 0 <= i < s.len() ==> #[trigger] s[i] == (TableEntry { key: 0, value: 0 }),
    ensures
        forall|i: int| 0 <= i < s.len() ==> (#[trigger] s[i]).storable(),
{
    assert((0u64 >> 48u64) as i16 == 0i16) by (bit_vector);
    assert(3u64 & (0u64 >> 11u64) == 0u64) by (bit_vector);
    assert forall|i: int| 0 <= i < s.len() implies (#[trigger] s[i]).storable() by {
        assert(s[i] == TableEntry { key: 0, value: 0 });
    }
}

/// how many entries of a table are valid
pub open spec fn valid_count(s: Seq<TableEntry>) -> nat
    decreases s.len(),
{
    if s.len() == 0 {
        0
    } else {
        valid_count(s.drop_last()) + (if s.last().spec_is_valid() { 1nat } else { 0nat })
    }
}

proof fn lemma_valid_count_bound(s: Seq<TableEntry>)
    ensures
        valid_count(s) <= s.len(),
    decreases s.len(),
{
    if s.len() > 0 {
        lemma_valid_count_bound(s.drop_last());
    }
}

proof fn lemma_valid_count_update(s: Seq<TableEntry>, i: int, e: TableEntry)
    requires
        0 <= i < s.len(),
    ensures
        valid_count(s.update(i, e)) + (if s[i].spec_is_valid() { 1int } else { 0 })
            == valid_count(s) + (if e.spec_is_valid() { 1int } else { 0 }),
    decreases s.len(),
{
    let t = s.update(i, e);
    if i == s.len() - 1 {
        assert(t.drop_last() == s.drop_last());
    } else {
        assert(t.drop_last() == s.drop_last().update(i, e));
        lemma_valid_count_update(s.drop_last(), i, e);
    }
}

proof fn lemma_valid_count_none(s: Seq<TableEntry>)
    requires
        forall|i: int| 0 <= i < s.len() ==> !(#[trigger] s[i]).spec_is_valid(),
    ensures
        valid_count(s) == 0,
    decreases s.len(),
{
    if s.len() > 0 {
        lemma_valid_count_none(s.drop_last());
    }
}

/// is `x` a power of two?
pub open spec fn is_power_of_two(x: nat) -> bool
    decreases x,
{
    if x == 1 {
        true
    } else if x < 2 || x % 2 != 0 {
        false
    } else {
        is_power_of_two(x / 2)
    }
}

/// the smallest power of two that is at least `n`
pub open spec fn next_power_of_two(n: nat) -> nat
    decreases n,
{
    if n <= 1 {
        1
    } else {
        2 * next_power_of_two(((n + 1) / 2) as nat)
    }
}

proof fn lemma_next_power_of_two(n: nat)
    ensures
        is_power_of_two(next_power_of_two(n)),
        next_power_of_two(n) >= n,
        next_power_of_two(n) >= 1,
        next_power_of_two(n) == 1 || next_power_of_two(n) / 2 < n,
    decreases n,
{
    if n > 1 {
        let m = ((n + 1) / 2) as nat;
        lemma_next_power_of_two(m);
        let p = next_power_of_two(m);
        assert((2 * p) / 2 == p);
        assert((2 * p) % 2 == 0);
        if p > 1 {
            assert(p % 2 == 0) by {
                reveal_with_fuel(is_power_of_two, 2);
            }
        }
    }
}

/// the number of entries a table of `bytes` bytes holds: the power of two
/// below the number of [`TableEntry`]s that fit, or none at all
pub open spec fn table_entries(bytes: nat) -> nat {
    next_power_of_two(bytes / 16) / 2
}

/// a table size is zero or a power of two, and fits in the bytes given
pub proof fn lemma_table_entries(bytes: nat)
    ensures
        table_entries(bytes) == 0 || is_power_of_two(table_entries(bytes)),
        table_entries(bytes) <= bytes / 16,
{
    let n = bytes / 16;
    lemma_next_power_of_two(n);
    let p = next_power_of_two(n);
    if p > 1 {
        assert(p % 2 == 0) by {
            reveal_with_fuel(is_power_of_two, 2);
        }
    }
}

/// the smallest power of two at least `n`, through `usize::next_power_of_two`
#[verifier::external_body]
fn usize_next_power_of_two(n: usize) -> (r: usize)
    requires
        n <= usize::MAX / 2 + 1,
    ensures
        r == next_power_of_two(n as nat),
{
    n.next_power_of_two()
}

/// the number of entries a table of `bytes` bytes holds
fn entries_for(bytes: usize) -> (r: usize)
    requires
        bytes <= usize::MAX / 1000,
    ensures
        r == table_entries(bytes as nat),
        r <= bytes / 16,
{
    proof {
        lemma_table_entries(bytes as nat);
    }
    let n = bytes / ENTRY_BYTES;
    let p = usize_next_power_of_two(n);
    assert(p >> 1u32 == p / 2) by (bit_vector);
    p >> 1u32
}

/// which slot of a table with `size` entries holds the entry for `hash`
pub open spec fn slot(hash: u64, size: nat) -> int {
    (hash as usize) as int % size as int
}

/// what [`VL::get`] answers for a hash: the entry in its slot, if that
/// entry carries the same key
pub open spec fn lookup(entries: Seq<TableEntry>, hash: u64) -> Option<TableEntry> {
    if entries.len() == 0 {
        None
    } else if entries[slot(hash, entries.len())].key == hash {
        Some(entries[slot(hash, entries.len())])
    } else {
        None
    }
}

/// what a table holds after [`VL::insert`] stores `entry` for `hash`
pub open spec fn stored(entries: Seq<TableEntry>, hash: u64, entry: TableEntry) -> Seq<TableEntry> {
    if entries.len() == 0 {
        entries
    } else {
        entries.update(slot(hash, entries.len()), entry)
    }
}

/// a lock-based Vec transposition table
#[derive(Debug)]
pub struct VL {
    /// the table
    table: Vec<TableEntry>,
    /// the number of entries in the table
    size: usize,
    /// number of valid entries in the table
    occupied: usize,
}

impl VL {
    #[verifier::type_invariant]
    spec fn wf(self) -> bool {
        &&& self.table@.len() == self.size
        &&& self.occupied == valid_count(self.table@)
        &&& self.size <= usize::MAX / 1000
        &&& forall|i: int| 0 <= i < self.table@.len() ==> (#[trigger] self.table@[i]).storable()
    }

    /// the entries of the table, slot by slot
    pub closed spec fn entries(self) -> Seq<TableEntry> {
        self.table@
    }

    /// how many entries hold a valid search result
    pub closed spec fn occupancy(self) -> nat {
        self.occupied as nat
    }
}

impl TranspositionTable<u64, TableEntry> for VL {
    fn new(bytes: usize) -> (r: VL)
        ensures
            r.entries().len() == table_entries(bytes as nat),
            forall|i: int| 0 <= i < r.entries().len() ==> #[trigger] r.entries()[i] == (TableEntry { key: 0, value: 0 }),
            r.occupancy() == 0,
    {
        // the number of entries must be a power of 2
        let size = entries_for(bytes);
        let table = vec![TableEntry::new_empty(); size];
        proof {
            assert forall|i: int| 0 <= i < table@.len() implies !(#[trigger] table@[i]).spec_is_valid() by {
                assert(table@[i] == TableEntry { key: 0, value: 0 });
            }
            lemma_valid_count_none(table@);
            lemma_empty_storable(table@);
        }
        VL { table, size, occupied: 0 }
    }

    fn resize(&mut self, bytes: usize) -> (r: usize)
        ensures
            r == table_entries(bytes as nat),
            final(self).entries().len() == r,
            r == old(self).entries().len() ==> *final(self) == *old(self),
            r != old(self).entries().len() ==> {
                &&& forall|i: int| 0 <= i < r ==> #[trigger] final(self).entries()[i] == (TableEntry { key: 0, value: 0 })
                &&& final(self).occupancy() == 0
            },
    {
        proof {
            use_type_invariant(&*self);
        }
        let size = entries_for(bytes);
        if size == self.size {
            return size;
        }
        // entries are indexed modulo the table size, so none of them are
        // addressable any more. start from an empty table rather than leaving
        // stale entries and a stale occupancy count behind.
        let table = vec![TableEntry::new_empty(); size];
        proof {
            assert forall|i: int| 0 <= i < table@.len() implies !(#[trigger] table@[i]).spec_is_valid() by {
                assert(table@[i] == TableEntry { key: 0, value: 0 });
            }
            lemma_valid_count_none(table@);
            lemma_empty_storable(table@);
        }
        *self = VL { table, size, occupied: 0 };
        size
    }

    fn get(&self, hash: u64) -> (r: Option<TableEntry>)
        ensures
            r == lookup(self.entries(), hash),
            r matches Some(e) ==> e.storable(),
    {
        proof {
            use_type_invariant(self);
        }
        if self.size == 0 {
            return None;
        }
        let idx = (hash as usize) % self.size;
        let entry = self.table[idx];
        if hash.equals(&entry.key) {
            Some(entry)
        } else {
            None
        }
    }

    fn insert(&mut self, hash: u64, entry: TableEntry)
        ensures
            final(self).entries() == stored(old(self).entries(), hash, entry),
    {
        proof {
            use_type_invariant(&*self);
        }
        if self.size == 0 {
            return;
        }
        let idx = (hash as usize) % self.size;
        let was_valid = self.table[idx].is_valid_entry();
        proof {
            lemma_valid_count_update(self.table@, idx as int, entry);
            lemma_valid_count_bound(self.table@);
            lemma_valid_count_bound(self.table@.update(idx as int, entry));
        }
        let mut taken = VL { table: Vec::new(), size: 0, occupied: 0 };
        core::mem::swap(self, &mut taken);
        let VL { mut table, size, occupied } = taken;
        table.set(idx, entry);
        let occupied = if !was_valid { occupied + 1 } else { occupied };
        *self = VL { table, size, occupied };
    }

    fn clear(&mut self)
        ensures
            final(self).entries().len() == old(self).entries().len(),
            forall|i: int| 0 <= i < final(self).entries().len() ==> #[trigger] final(self).entries()[i] == (TableEntry { key: 0, value: 0 }),
            final(self).occupancy() == 0,
    {
        proof {
            use_type_invariant(&*self);
        }
        // the entries are emptied in place: truncating the vec would leave
        // `size` pointing past its end, and the next insert would panic.
        let mut taken = VL { table: Vec::new(), size: 0, occupied: 0 };
        core::mem::swap(self, &mut taken);
        let VL { mut table, size, occupied: _ } = taken;
        let n = table.len();
        let mut i: usize = 0;
        while i < n
            invariant
                table@.len() == n,
                i <= n,
                forall|j: int| 0 <= j < i ==> #[trigger] table@[j] == (TableEntry { key: 0, value: 0 }),
            decreases n - i,
        {
            table.set(i, TableEntry::new_empty());
            i = i + 1;
        }
        proof {
            assert forall|j: int| 0 <= j < table@.len() implies !(#[trigger] table@[j]).spec_is_valid() by {
                assert(table@[j] == TableEntry { key: 0, value: 0 });
            }
            lemma_valid_count_none(table@);
            lemma_empty_storable(table@);
        }
        *self = VL { table, size, occupied: 0 };
    }

    fn entry_count(&self) -> (r: usize)
        ensures
            r == self.occupancy(),
    {
        self.occupied
    }

    fn capacity(&self) -> (r: usize)
        ensures
            r == self.entries().len(),
    {
        proof {
            use_type_invariant(self);
        }
        self.size
    }

    fn hashfull(&self) -> (r: usize)
        ensures
            self.entries().len() == 0 ==> r == 0,
            self.entries().len() > 0 ==> r == self.occupancy() * 1000 / self.entries().len(),
            r <= 1000,
    {
        proof {
            use_type_invariant(self);
            lemma_valid_count_bound(self.table@);
        }
        if self.size == 0 {
            0
        } else {
            assert(self.occupied * 1000 <= self.size * 1000) by (nonlinear_arith)
                requires
                    self.occupied <= self.size,
            ;
            assert((self.occupied * 1000) / (self.size as int) <= 1000) by (nonlinear_arith)
                requires
                    self.occupied <= self.size,
                    self.size > 0,
            ;
            (self.occupied * 1000) / self.size
        }
    }
}

/// what an insert stores, a get of the same hash gives back, as long as
/// the entry carries that hash as its key and the table has any room
pub proof fn lemma_get_after_insert(entries: Seq<TableEntry>, hash: u64, entry: TableEntry)
    requires
        entries.len() > 0,
        entry.key == hash,
    ensures
        lookup(stored(entries, hash, entry), hash) == Some(entry),
{
}

/// a lookup never hands out the entry of another hash
pub proof fn lemma_lookup_keeps_keys(entries: Seq<TableEntry>, hash: u64)
    ensures
        lookup(entries, hash) matches Some(e) ==> e.key == hash,
{
}

/// an insert leaves every other slot as it was
pub proof fn lemma_insert_keeps_other_slots(entries: Seq<TableEntry>, hash: u64, entry: TableEntry, i: int)
    requires
        0 <= i < entries.len(),
        i != slot(hash, entries.len()),
    ensures
        stored(entries, hash, entry)[i] == entries[i],
        stored(entries, hash, entry).len() == entries.len(),
{
}

/// a cleared table holds no entry for any hash but 0
pub proof fn lemma_cleared_table_is_empty(entries: Seq<TableEntry>, hash: u64)
    requires
        forall|i: int| 0 <= i < entries.len() ==> #[trigger] entries[i] == (TableEntry { key: 0, value: 0 }),
        hash != 0,
    ensures
        lookup(entries, hash) is None,
{
    if entries.len() > 0 {
        let i = slot(hash, entries.len());
        assert(entries[i] == TableEntry { key: 0, value: 0 });
    }
}

/// a no-op entry
#[derive(Debug, Clone)]
pub struct EmptyEntry;

/// a no-op hash
#[derive(Debug, Clone, Copy)]
pub struct EmptyHash;

/// a no-op transposition table
#[derive(Debug)]
pub struct EmptyTable<K, E> {
    /// the table key and value types
    _phantom: core::marker::PhantomData<(K, E)>,
}

impl<K, E> Clone for EmptyTable<K, E> {
    fn clone(&self) -> (r: Self) {
        EmptyTable { _phantom: core::marker::PhantomData }
    }
}

impl TKey for EmptyHash {
    type FromType = ();

    fn hash(_from: &()) -> (r: EmptyHash) {
        EmptyHash
    }

    fn equals(&self, _other: &EmptyHash) -> (r: bool)
        ensures
            !r,
    {
        false
    }
}

impl TEntry for EmptyEntry {
    type Key = EmptyHash;

    open spec fn valid(&self) -> bool {
        false
    }

    open spec fn has_bound(&self) -> bool {
        true
    }

    open spec fn storable(&self) -> bool {
        true
    }

    fn key(&self) -> (r: EmptyHash) {
        EmptyHash
    }

    fn new_empty() -> (r: EmptyEntry) {
        EmptyEntry
    }

    fn new_from_result(_hash: u64, _depth: Depth, _result: &SearchResult, _bound: EvalBound) -> (r: EmptyEntry) {
        EmptyEntry
    }

    fn depth(&self) -> (r: Depth)
        ensures
            r == Depth(0),
    {
        Depth(0)
    }

    fn bound(&self) -> (r: EvalBound)
        ensures
            r == EvalBound::Exact,
    {
        EvalBound::Exact
    }

    fn search_result(&self) -> (r: SearchResult)
        ensures
            r.pv@.len() == 0,
            r.next_position_value == Value(0),
            r.nodes_searched == 0,
            r.tb_hits == 0,
            r.depth == Depth(0),
            !r.from_draw,
            !r.aborted,
    {
        SearchResult::default()
    }

    fn is_valid(&self) -> (r: bool) {
        false
    }
}

impl<K: TKey, E: TEntry> EmptyTable<K, E> {
    /// a table that holds nothing
    pub fn empty() -> (r: EmptyTable<K, E>) {
        EmptyTable { _phantom: core::marker::PhantomData }
    }
}

impl<E: TEntry, K: TKey<FromType = ()>> TranspositionTable<K, E> for EmptyTable<K, E> {
    fn new(_kb: usize) -> (r: EmptyTable<K, E>) {
        EmptyTable::empty()
    }

    fn resize(&mut self, _kb: usize) -> (r: usize)
        ensures
            r == 0,
    {
        0
    }

    fn get(&self, _hash: K) -> (r: Option<E>)
        ensures
            r is None,
    {
        None
    }

    fn insert(&mut self, _hash: K, _entry: E) {
    }

    fn clear(&mut self) {
    }

    fn entry_count(&self) -> (r: usize)
        ensures
            r == 1,
    {
        1
    }

    fn capacity(&self) -> (r: usize)
        ensures
            r == 1,
    {
        1
    }

    fn hashfull(&self) -> (r: usize)
        ensures
            r == 0,
    {
        0
    }
}

impl TableAccess<EmptyHash, EmptyEntry, EmptyTable<EmptyHash, EmptyEntry>> for EmptyTable<
    EmptyHash,
    EmptyEntry,
> {
    fn hit(&self) {
    }

    fn share(&self) -> (r: EmptyTable<EmptyHash, EmptyEntry>) {
        // the table is always empty, just make a new one
        EmptyTable::empty()
    }
}

} // verus!
