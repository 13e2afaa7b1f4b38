//! Data watchpoints, kept by changing the protection of the watched range.
use crate::debugger::event::DebugEvent;
use crate::debugger::memory::MemoryError;
use crate::seqs::{first_index, lemma_first_index, lemma_first_index_is};
use vstd::prelude::*;

verus! {

/// Protection under which no access is allowed.
pub const PAGE_NOACCESS: u32 = 0x01;

/// Protection under which reads are allowed.
pub const PAGE_READONLY: u32 = 0x02;

/// Protection under which reads and writes are allowed.
pub const PAGE_READWRITE: u32 = 0x04;

/// The accesses that a watchpoint reports.
#[derive(Debug, Clone, Copy, PartialEq, Eq, Structural)]
pub enum WatchType {
    Read,
    Write,
    ReadWrite,
}

/// Why a watchpoint could not be set or lifted.
#[derive(Debug, Clone, Copy, PartialEq, Eq, Structural)]
pub enum WatchpointError {
    /// The operating system refused the protection change.
    ProtectionChangeFailed,
}

/// A watched range with the protection that it had before it was watched
/// and the bytes last seen in it.
#[derive(Debug)]
pub struct Watchpoint {
    pub address: usize,
    pub size: usize,
    pub watch_type: WatchType,
    pub original_protection: u32,
    pub last_value: Vec<u8>,
}

/// A protection change to be asked of the operating system.
#[derive(Debug, Clone, Copy, PartialEq, Eq, Structural)]
pub struct ProtectionChange {
    pub address: usize,
    pub size: usize,
    pub protection: u32,
}

/// The protection that a watch type puts on its range.
pub open spec fn protection_of(watch_type: WatchType) -> u32 {
    match watch_type {
        WatchType::Read => PAGE_READONLY,
        WatchType::Write => PAGE_READWRITE,
        WatchType::ReadWrite => PAGE_READWRITE,
    }
}

/// Whether a watchpoint starts at `address`.
pub open spec fn watched_at(address: usize) -> spec_fn(Watchpoint) -> bool {
    |w: Watchpoint| w.address == address
}

/// Whether the range of a watchpoint contains `address`.
pub open spec fn watches(w: Watchpoint, address: usize) -> bool {
    w.address <= address < w.address + w.size
}

/// Whether the range of a watchpoint contains `address`, as a predicate.
pub open spec fn watching(address: usize) -> spec_fn(Watchpoint) -> bool {
    |w: Watchpoint| watches(w, address)
}

/// Whether no two watchpoints of a table start at the same address.
pub open spec fn distinct_ranges(table: Seq<Watchpoint>) -> bool {
    forall|i: int, j: int| 0 <= i < j < table.len() ==> table[i].address != table[j].address
}

/// The table with `w` entered: in place of the watchpoint at the same
/// address where there is one, else at the end.
pub open spec fn entered(table: Seq<Watchpoint>, w: Watchpoint) -> Seq<Watchpoint> {
    let i = first_index(table, watched_at(w.address));
    if i < table.len() {
        table.update(i, w)
    } else {
        table.push(w)
    }
}

/// The table without the watchpoint at `address`.
pub open spec fn without(table: Seq<Watchpoint>, address: usize) -> Seq<Watchpoint> {
    let i = first_index(table, watched_at(address));
    if i < table.len() {
        table.remove(i)
    } else {
        table
    }
}

/// The change that puts back the protection saved for the watchpoint at
/// `address`; none where no watchpoint starts there.
pub open spec fn restoring(table: Seq<Watchpoint>, address: usize) -> Option<ProtectionChange> {
    let i = first_index(table, watched_at(address));
    if i < table.len() {
        Some(
            ProtectionChange {
                address,
                size: table[i].size,
                protection: table[i].original_protection,
            },
        )
    } else {
        None
    }
}

/// Setting a watchpoint and lifting it again asks for exactly the
/// protection that the range had before: the one that was saved when the
/// watchpoint was set.  This holds for every watch type.
pub proof fn lemma_add_remove_restores_protection(table: Seq<Watchpoint>, w: Watchpoint)
    requires
        distinct_ranges(table),
    ensures
        restoring(entered(table, w), w.address) == Some(
            ProtectionChange {
                address: w.address,
                size: w.size,
                protection: w.original_protection,
            },
        ),
        distinct_ranges(entered(table, w)),
{
    let p = watched_at(w.address);
    lemma_first_index(table, p);
    let i = first_index(table, p);
    let after = entered(table, w);
    if i < table.len() {
        assert(after[i] == w);
        lemma_first_index_is(after, p, i);
    } else {
        assert(after[table.len() as int] == w);
        lemma_first_index_is(after, p, table.len() as int);
    }
}

/// Setting a watchpoint at an address that was not watched and lifting it
/// again leaves the table as it was.
pub proof fn lemma_add_remove_restores_table(table: Seq<Watchpoint>, w: Watchpoint)
    requires
        first_index(table, watched_at(w.address)) == table.len(),
    ensures
        without(entered(table, w), w.address) == table,
{
    let p = watched_at(w.address);
    lemma_first_index(table, p);
    let after = table.push(w);
    assert(after[table.len() as int] == w);
    lemma_first_index_is(after, p, table.len() as int);
    assert(after.remove(table.len() as int) =~= table);
}

/// The watchpoints of one debuggee.
pub struct WatchpointManager {
    pub process_handle: isize,
    /// The watchpoints in the order in which their addresses were first
    /// watched; no two start at the same address.
    pub watchpoints: Vec<Watchpoint>,
}

impl WatchpointManager {
    /// The invariant of the table.
    pub open spec fn wf(&self) -> bool {
        distinct_ranges(self.watchpoints@)
    }

    pub fn new(process_handle: isize) -> (manager: Self)
        ensures
            manager.wf(),
            manager.process_handle == process_handle,
            manager.watchpoints@.len() == 0,
    {
        WatchpointManager { process_handle, watchpoints: Vec::new() }
    }

    /// The protection that a watch type puts on its range.
    pub fn protection_for(watch_type: WatchType) -> (protection: u32)
        ensures
            protection == protection_of(watch_type),
    {
        match watch_type {
            WatchType::Read => PAGE_READONLY,
            WatchType::Write => PAGE_READWRITE,
            WatchType::ReadWrite => PAGE_READWRITE,
        }
    }

    /// The protection change that sets a watchpoint.
    pub fn plan_watchpoint(address: usize, size: usize, watch_type: WatchType) -> (change:
        ProtectionChange)
        ensures
            change == (ProtectionChange { address, size, protection: protection_of(watch_type) }),
    {
        ProtectionChange { address, size, protection: Self::protection_for(watch_type) }
    }

    /// Index of the watchpoint at `address`, or the length of the table.
    fn position_of(&self, address: usize) -> (i: usize)
        ensures
            i == first_index(self.watchpoints@, watched_at(address)),
            i <= self.watchpoints@.len(),
    {
        let mut i: usize = 0;
        while i < self.watchpoints.len() && self.watchpoints[i].address != address
            invariant
                i <= self.watchpoints@.len(),
                forall|j: int| 0 <= j < i ==> !watched_at(address)(#[trigger] self.watchpoints@[j]),
            decreases self.watchpoints@.len() - i,
        {
            i += 1;
        }
        proof {
            lemma_first_index_is(self.watchpoints@, watched_at(address), i as int);
        }
        i
    }

    /// Enters a watchpoint whose protection change has been asked for.
    /// `previous` is the protection that the range had before the change,
    /// `None` where the change was refused; `initial` holds the bytes of
    /// the range at this time.  Where the change was refused nothing is
    /// entered.  A watchpoint at the same address is replaced.
    pub fn add_watchpoint(
        &mut self,
        address: usize,
        size: usize,
        watch_type: WatchType,
        previous: Option<u32>,
        initial: Vec<u8>,
    ) -> (r: Result<(), WatchpointError>)
        requires
            old(self).wf(),
        ensures
            final(self).wf(),
            final(self).process_handle == old(self).process_handle,
            match previous {
                None => r == Err::<(), WatchpointError>(WatchpointError::ProtectionChangeFailed)
                    && final(self).watchpoints == old(self).watchpoints,
                Some(p) => r is Ok && final(self).watchpoints@ == entered(
                    old(self).watchpoints@,
                    Watchpoint {
                        address,
                        size,
                        watch_type,
                        original_protection: p,
                        last_value: initial,
                    },
                ),
            },
    {
        let original_protection = match previous {
            Some(p) => p,
            None => {
                return Err(WatchpointError::ProtectionChangeFailed);
            },
        };
        let w = Watchpoint { address, size, watch_type, original_protection, last_value: initial };
        proof {
            lemma_add_remove_restores_protection(self.watchpoints@, w);
        }
        let i = self.position_of(address);
        if i < self.watchpoints.len() {
            self.watchpoints.set(i, w);
        } else {
            self.watchpoints.push(w);
        }
        Ok(())
    }

    /// Lifts the watchpoint at `address` and returns the change that puts
    /// back the protection saved for it.  Where no watchpoint starts at
    /// the address nothing changes and there is nothing to put back.
    pub fn remove_watchpoint(&mut self, address: usize) -> (change: Option<ProtectionChange>)
        requires
            old(self).wf(),
        ensures
            final(self).wf(),
            final(self).process_handle == old(self).process_handle,
            final(self).watchpoints@ == without(old(self).watchpoints@, address),
            change == restoring(old(self).watchpoints@, address),
    {
        let i = self.position_of(address);
        if i < self.watchpoints.len() {
            let w = self.watchpoints.remove(i);
            Some(ProtectionChange { address, size: w.size, protection: w.original_protection })
        } else {
            None
        }
    }

    /// The changes that put back the saved protection of every
    /// watchpoint, in the order of the table, as detaching from the
    /// debuggee asks for.
    pub fn restore_all(&self) -> (changes: Vec<ProtectionChange>)
        ensures
            changes@.len() == self.watchpoints@.len(),
            forall|i: int|
                0 <= i < changes@.len() ==> #[trigger] changes@[i] == (ProtectionChange {
                    address: self.watchpoints@[i].address,
                    size: self.watchpoints@[i].size,
                    protection: self.watchpoints@[i].original_protection,
                }),
    {
        let mut changes: Vec<ProtectionChange> = Vec::new();
        let mut i: usize = 0;
        while i < self.watchpoints.len()
            invariant
                i <= self.watchpoints@.len(),
                changes@.len() == i,
                forall|j: int|
                    0 <= j < i ==> #[trigger] changes@[j] == (ProtectionChange {
                        address: self.watchpoints@[j].address,
                        size: self.watchpoints@[j].size,
                        protection: self.watchpoints@[j].original_protection,
                    }),
            decreases self.watchpoints@.len() - i,
        {
            changes.push(
                ProtectionChange {
                    address: self.watchpoints[i].address,
                    size: self.watchpoints[i].size,
                    protection: self.watchpoints[i].original_protection,
                },
            );
            i += 1;
        }
        changes
    }

    /// Outcome of the change that lifting a watchpoint asked for:
    /// `previous` is `None` where the operating system refused it.
    pub fn confirm_restore(previous: Option<u32>) -> (r: Result<(), WatchpointError>)
        ensures
            r == if previous is Some {
                Ok::<(), WatchpointError>(())
            } else {
                Err(WatchpointError::ProtectionChangeFailed)
            },
    {
        match previous {
            Some(_) => Ok(()),
            None => Err(WatchpointError::ProtectionChangeFailed),
        }
    }

    /// The first watchpoint of the table whose range, from its address up
    /// to but not including its address plus its size, contains the
    /// address of an access fault.
    pub fn handle_exception(&self, exception_address: usize, exception_code: u32) -> (r: Option<
        &Watchpoint,
    >)
        ensures
            ({
                let i = first_index(self.watchpoints@, watching(exception_address));
                r == if i < self.watchpoints@.len() {
                    Some(&self.watchpoints@[i])
                } else {
                    None
                }
            }),
            r is Some ==> watches(*r->0, exception_address),
            r is None <==> forall|i: int|
                0 <= i < self.watchpoints@.len() ==> !watches(
                    #[trigger] self.watchpoints@[i],
                    exception_address,
                ),
    {
        let mut i: usize = 0;
        while i < self.watchpoints.len() && !(self.watchpoints[i].address <= exception_address
            && exception_address - self.watchpoints[i].address < self.watchpoints[i].size)
            invariant
                i <= self.watchpoints@.len(),
                forall|j: int|
                    0 <= j < i ==> !watching(exception_address)(#[trigger] self.watchpoints@[j]),
            decreases self.watchpoints@.len() - i,
        {
            i += 1;
        }
        proof {
            lemma_first_index_is(self.watchpoints@, watching(exception_address), i as int);
            if i < self.watchpoints@.len() {
                assert(watching(exception_address)(self.watchpoints@[i as int]));
            } else {
                assert forall|j: int| 0 <= j < self.watchpoints@.len() implies !watches(
                    #[trigger] self.watchpoints@[j],
                    exception_address,
                ) by {
                    assert(!watching(exception_address)(self.watchpoints@[j]));
                }
            }
        }
        if i < self.watchpoints.len() {
            Some(&self.watchpoints[i])
        } else {
            None
        }
    }

    /// Reports a hit of the watchpoint at `address`.  `transferred` holds
    /// the bytes that re-reading its range gave.  Where fewer bytes than
    /// the range has arrived, or no watchpoint starts at the address, this
    /// is a read error and nothing changes.  Else the event carries the
    /// bytes seen last and the bytes seen now, and the latter are kept as
    /// the bytes seen last.
    pub fn notify_watchpoint(&mut self, address: usize, transferred: &[u8]) -> (r: Result<
        DebugEvent,
        MemoryError,
    >)
        requires
            old(self).wf(),
        ensures
            final(self).wf(),
            final(self).process_handle == old(self).process_handle,
            final(self).watchpoints@.len() == old(self).watchpoints@.len(),
            ({
                let i = first_index(old(self).watchpoints@, watched_at(address));
                let table = old(self).watchpoints@;
                if i < table.len() && transferred@.len() >= table[i].size {
                    &&& r matches Ok(
                        DebugEvent::WatchpointHit { address: a, old_value, new_value },
                    )
                    &&& a == address
                    &&& old_value@ == table[i].last_value@
                    &&& new_value@ == transferred@.take(table[i].size as int)
                    &&& final(self).watchpoints@[i].last_value@ == new_value@
                    &&& final(self).watchpoints@[i].address == address
                    &&& final(self).watchpoints@[i].size == table[i].size
                    &&& final(self).watchpoints@[i].watch_type == table[i].watch_type
                    &&& final(self).watchpoints@[i].original_protection
                        == table[i].original_protection
                    &&& forall|j: int|
                        0 <= j < table.len() && j != i ==> final(self).watchpoints@[j] == table[j]
                } else {
                    &&& r == Err::<DebugEvent, MemoryError>(MemoryError::ReadError { address })
                    &&& final(self).watchpoints == old(self).watchpoints
                }
            }),
    {
        let i = self.position_of(address);
        if i >= self.watchpoints.len() {
            return Err(MemoryError::ReadError { address });
        }
        let size = self.watchpoints[i].size;
        if transferred.len() < size {
            return Err(MemoryError::ReadError { address });
        }
        let mut current: Vec<u8> = Vec::new();
        let mut seen: Vec<u8> = Vec::new();
        let mut k: usize = 0;
        while k < size
            invariant
                k <= size <= transferred@.len(),
                current@ == transferred@.take(k as int),
                seen@ == current@,
            decreases size - k,
        {
            current.push(transferred[k]);
            seen.push(transferred[k]);
            assert(transferred@.take(k as int + 1) == transferred@.take(k as int).push(
                transferred@[k as int],
            ));
            k += 1;
        }
        let kept = Watchpoint {
            address,
            size,
            watch_type: self.watchpoints[i].watch_type,
            original_protection: self.watchpoints[i].original_protection,
            last_value: seen,
        };
        proof {
            lemma_first_index(self.watchpoints@, watched_at(address));
        }
        // The new entry goes to the end and takes the place of the old one,
        // which comes out with the bytes seen last.
        self.watchpoints.push(kept);
        let replaced = self.watchpoints.swap_remove(i);
        Ok(DebugEvent::WatchpointHit { address, old_value: replaced.last_value, new_value: current })
    }
}

} // verus!
