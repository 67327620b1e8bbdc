//! the transposition table shared between the search threads: one table
//! behind a lock, with a handle for each thread
use vstd::prelude::*;
use std::sync::Arc;
use std::sync::RwLock;
use std::sync::RwLockReadGuard;
use std::sync::RwLockWriteGuard;
use crate::entry::TableEntry;
use crate::table::{TableAccess, TranspositionTable, TEntry, VL, DEFAULT_TABLE_SIZE, lookup};

verus! {

/// `std::sync::RwLock`, a lock that many may read through at once and one
/// may write through; what it holds is not visible here
#[verifier::external_type_specification]
#[verifier::external_body]
#[verifier::reject_recursive_types(T)]
pub struct ExRwLock<T: ?Sized>(RwLock<T>);

/// `std::sync::RwLockReadGuard`, a lock held for reading
#[verifier::external_type_specification]
#[verifier::external_body]
#[verifier::reject_recursive_types(T)]
pub struct ExRwLockReadGuard<'a, T: ?Sized>(RwLockReadGuard<'a, T>);

/// `std::sync::RwLockWriteGuard`, a lock held for writing
#[verifier::external_type_specification]
#[verifier::external_body]
#[verifier::reject_recursive_types(T)]
pub struct ExRwLockWriteGuard<'a, T: ?Sized + 'a>(RwLockWriteGuard<'a, T>);

/// hold the lock for reading, through `std::sync::RwLock::read`; `None`
/// where a thread panicked while it held the lock for writing. Nothing is
/// stated of which it is.
#[verifier::external_body]
fn read_lock(handle: &Arc<RwLock<VL>>) -> (r: Option<RwLockReadGuard<'_, VL>>) {
    handle.read().ok()
}

/// hold the lock for writing, through `std::sync::RwLock::write`; `None`
/// where a thread panicked while it held the lock for writing. Nothing is
/// stated of which it is.
#[verifier::external_body]
fn write_lock(handle: &Arc<RwLock<VL>>) -> (r: Option<RwLockWriteGuard<'_, VL>>) {
    handle.write().ok()
}

/// the table a read lock gives access to, through the guard's `Deref`;
/// what it holds is not stated
#[verifier::external_body]
fn read_guarded<'a, 'b>(guard: &'b RwLockReadGuard<'a, VL>) -> (r: &'b VL) {
    guard
}

/// the table a write lock gives access to, through the guard's `DerefMut`;
/// what it holds is not stated
#[verifier::external_body]
fn write_guarded<'a, 'b>(guard: &'b mut RwLockWriteGuard<'a, VL>) -> (r: &'b mut VL) {
    guard
}

/// the entry the shared table holds for `hash`, read under the lock: an
/// entry with that hash as its key, or `None` (also where the lock is
/// poisoned)
pub fn shared_get(handle: &Arc<RwLock<VL>>, hash: u64) -> (r: Option<TableEntry>)
    ensures
        r matches Some(e) ==> e.key == hash && e.storable(),
{
    match read_lock(handle) {
        Some(guard) => {
            let table = read_guarded(&guard);
            let r = table.get(hash);
            proof {
                if r is Some {
                    assert(lookup(table.entries(), hash) is Some);
                }
            }
            r
        },
        None => None,
    }
}

/// store `entry` for `hash` in the shared table, under the lock; nothing is
/// stored where the lock is poisoned
pub fn shared_insert(handle: &Arc<RwLock<VL>>, hash: u64, entry: TableEntry)
    requires
        entry.valid(),
        entry.storable(),
{
    match write_lock(handle) {
        Some(mut guard) => {
            let table = write_guarded(&mut guard);
            table.insert(hash, entry);
        },
        None => {},
    }
}

/// resize the shared table to `bytes` bytes, under the lock: the new
/// capacity in entries, or `None` where the lock is poisoned
pub fn shared_resize(handle: &Arc<RwLock<VL>>, bytes: usize) -> (r: Option<usize>)
    requires
        bytes <= usize::MAX / 1000,
    ensures
        r matches Some(n) ==> n == crate::table::table_entries(bytes as nat),
{
    match write_lock(handle) {
        Some(mut guard) => {
            let table = write_guarded(&mut guard);
            Some(table.resize(bytes))
        },
        None => None,
    }
}

/// empty the shared table, under the lock: `false` where the lock is
/// poisoned
pub fn shared_clear(handle: &Arc<RwLock<VL>>) -> (r: bool) {
    match write_lock(handle) {
        Some(mut guard) => {
            let table = write_guarded(&mut guard);
            table.clear();
            true
        },
        None => false,
    }
}

/// put a table behind a lock, through `std::sync::RwLock::new`. Nothing is
/// stated of the lock: what it holds can change through any handle to it.
#[verifier::external_body]
fn lock_table(table: VL) -> (r: RwLock<VL>) {
    RwLock::new(table)
}

/// another handle to a locked table, through `Arc`'s `Clone::clone`, which
/// points to the same lock
#[verifier::external_body]
fn share_lock(handle: &Arc<RwLock<VL>>) -> (r: Arc<RwLock<VL>>)
    ensures
        r == *handle,
{
    handle.clone()
}

/// the actual transposition table struct that's passed to the search threads
#[derive(Debug)]
pub struct TT {
    /// the table access struct, defined for whatever the currently used
    /// implementation is
    table: Arc<RwLock<VL>>,
}

impl TT {
    /// the lock every handle of this table points to
    pub closed spec fn handle(self) -> Arc<RwLock<VL>> {
        self.table
    }

    /// create a new table access point, to a table of the default size
    pub fn new() -> (r: TT) {
        TT { table: Arc::new(lock_table(VL::new(DEFAULT_TABLE_SIZE))) }
    }

    /// get a reference to the table
    pub fn get(&self) -> (r: Arc<RwLock<VL>>)
        ensures
            r == self.handle(),
    {
        self.table.share()
    }

    /// get a mutable reference to the table
    pub fn get_mut(&mut self) -> (r: Arc<RwLock<VL>>)
        ensures
            r == old(self).handle(),
            *final(self) == *old(self),
    {
        self.table.share()
    }
}

impl TableAccess<u64, TableEntry, VL> for Arc<RwLock<VL>> {
    fn hit(&self) {
    }

    fn share(&self) -> (r: Arc<RwLock<VL>>)
        ensures
            r == *self,
    {
        share_lock(self)
    }
}

} // verus!
