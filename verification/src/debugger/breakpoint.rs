//! Software breakpoints: the table of armed breakpoints, the bytes that
//! arming and removing write, and the decision whether a hit stops.
use crate::debugger::evaluator::{evaluate_text, show_value, shown, text_value, EvalError};
use crate::debugger::logpoint::{
    expand_template, expanded, placeholder_expressions, placeholders, terminated, TemplateError,
};
use crate::debugger::memory::MemoryError;
use crate::seqs::{first_index, lemma_first_index, lemma_first_index_is};
use vstd::prelude::*;

verus! {

/// The one-byte trap instruction that arms a breakpoint.
pub const TRAP_INSTRUCTION: u8 = 0xCC;

/// What a breakpoint does when it is hit.
#[derive(Debug, Clone)]
pub enum BreakpointType {
    /// Always stops.
    Normal,
    /// Stops where the condition holds.
    Conditional(String),
    /// Never stops; writes a line made from the template.
    LogPoint(String),
    /// Stops once it has been passed `count` times; `hit_count` counts the
    /// passes so far.
    Counter { count: usize, hit_count: usize },
}

/// An armed breakpoint with the byte that the trap instruction replaced.
#[derive(Debug)]
pub struct Breakpoint {
    pub id: usize,
    pub address: usize,
    pub original_byte: u8,
    pub enabled: bool,
    pub line: u32,
    pub file: String,
    pub breakpoint_type: BreakpointType,
}

/// Why a breakpoint could not be added or removed.
#[derive(Debug, Clone, Copy, PartialEq, Eq, Structural)]
pub enum BreakpointError {
    /// The byte at the address could not be read.
    AddressUnreadable,
    /// A breakpoint is armed at the address already.
    DuplicateAddress,
    /// No breakpoint has the id.
    UnknownId,
    /// Every id has been given out.
    IdsExhausted,
    /// The trap instruction, or the saved byte, could not be written.
    AddressUnwritable,
}

/// One byte to be written into the debuggee.
#[derive(Debug, Clone, Copy, PartialEq, Eq, Structural)]
pub struct MemoryPatch {
    pub address: usize,
    pub byte: u8,
}

/// Whether a breakpoint has the id `id`.
pub open spec fn with_id(id: usize) -> spec_fn(Breakpoint) -> bool {
    |b: Breakpoint| b.id == id
}

/// Whether a breakpoint is set at `address`.
pub open spec fn set_at(address: usize) -> spec_fn(Breakpoint) -> bool {
    |b: Breakpoint| b.address == address
}

/// Whether a breakpoint is set at `address` and enabled.
pub open spec fn live_at(address: usize) -> spec_fn(Breakpoint) -> bool {
    |b: Breakpoint| b.address == address && b.enabled
}

/// Whether a breakpoint of the table is set at `address`.
pub open spec fn armed(table: Seq<Breakpoint>, address: usize) -> bool {
    first_index(table, set_at(address)) < table.len()
}

/// The patch that arms a breakpoint at `address`.
pub open spec fn arming(address: usize) -> MemoryPatch {
    MemoryPatch { address, byte: TRAP_INSTRUCTION }
}

/// The patch that removing the breakpoint `id` writes: the byte saved for
/// it, at its address.  None where no breakpoint has the id.
pub open spec fn restoring(table: Seq<Breakpoint>, id: usize) -> Option<MemoryPatch> {
    let i = first_index(table, with_id(id));
    if i < table.len() {
        Some(MemoryPatch { address: table[i].address, byte: table[i].original_byte })
    } else {
        None
    }
}

/// The table without the breakpoint `id`.
pub open spec fn without(table: Seq<Breakpoint>, id: usize) -> Seq<Breakpoint> {
    let i = first_index(table, with_id(id));
    if i < table.len() {
        table.remove(i)
    } else {
        table
    }
}

/// The debuggee's memory after a patch has been written.
pub open spec fn patched(memory: Map<usize, u8>, patch: MemoryPatch) -> Map<usize, u8> {
    memory.insert(patch.address, patch.byte)
}

/// Whether the breakpoint stops the debuggee on this pass.  `condition` is
/// what the evaluator made of the condition of a conditional breakpoint:
/// `None` where it failed.
pub open spec fn stops(kind: BreakpointType, condition: Option<bool>) -> bool {
    match kind {
        BreakpointType::Normal => true,
        BreakpointType::Conditional(_) => condition == Some(true),
        BreakpointType::LogPoint(_) => false,
        BreakpointType::Counter { count, hit_count } => hit_count >= count,
    }
}

/// The number of passes after one more: it stays at the largest number
/// that can be counted.
pub open spec fn counted(hit_count: usize) -> usize {
    if hit_count < usize::MAX {
        (hit_count + 1) as usize
    } else {
        hit_count
    }
}

/// Whether `after` is the kind `before` after one more pass: a counter
/// has counted the pass, any other kind is as it was.
pub open spec fn passed(before: BreakpointType, after: BreakpointType) -> bool {
    match before {
        BreakpointType::Counter { count, hit_count } => after == (BreakpointType::Counter {
            count,
            hit_count: counted(hit_count),
        }),
        _ => after == before,
    }
}

/// Whether `after` is the breakpoint `before` after one more pass.
pub open spec fn hit(before: Breakpoint, after: Breakpoint) -> bool {
    &&& after.id == before.id
    &&& after.address == before.address
    &&& after.original_byte == before.original_byte
    &&& after.enabled == before.enabled
    &&& after.line == before.line
    &&& after.file == before.file
    &&& passed(before.breakpoint_type, after.breakpoint_type)
}

/// A counter with the limit `count` that has been passed `passes` times.
pub open spec fn counter_after(count: usize, passes: nat) -> BreakpointType
    decreases passes,
{
    if passes == 0 {
        BreakpointType::Counter { count, hit_count: 0 }
    } else {
        match counter_after(count, (passes - 1) as nat) {
            BreakpointType::Counter { count: c, hit_count } => BreakpointType::Counter {
                count: c,
                hit_count: counted(hit_count),
            },
            other => other,
        }
    }
}

/// A counter counts every pass, whatever was decided on it: after `passes`
/// passes it holds that number.  On the pass with index `passes`, counted
/// from 0, it stops exactly where the index has reached the limit.
pub proof fn lemma_counter_passes(count: usize, passes: nat, condition: Option<bool>)
    requires
        passes <= usize::MAX,
    ensures
        counter_after(count, passes) == (BreakpointType::Counter {
            count,
            hit_count: passes as usize,
        }),
        stops(counter_after(count, passes), condition) == (passes >= count),
    decreases passes,
{
    if passes > 0 {
        lemma_counter_passes(count, (passes - 1) as nat, condition);
    }
}

/// A log point never stops the debuggee.
pub proof fn lemma_log_point_never_stops(template: String, condition: Option<bool>)
    ensures
        !stops(BreakpointType::LogPoint(template), condition),
{
}

/// Arming a breakpoint over a byte and removing it again writes that byte
/// back: the patch of the removal holds the byte that was saved, and the
/// memory after both patches is the memory before them.
pub proof fn lemma_add_remove_restores_byte(
    memory: Map<usize, u8>,
    table: Seq<Breakpoint>,
    added: Breakpoint,
)
    requires
        memory.contains_key(added.address),
        added.original_byte == memory[added.address],
        first_index(table, with_id(added.id)) == table.len(),
    ensures
        restoring(table.push(added), added.id) == Some(
            MemoryPatch { address: added.address, byte: added.original_byte },
        ),
        without(table.push(added), added.id) == table,
        patched(
            patched(memory, arming(added.address)),
            restoring(table.push(added), added.id)->0,
        ) == memory,
{
    let p = with_id(added.id);
    let after = table.push(added);
    lemma_first_index(table, p);
    assert(after[table.len() as int] == added);
    lemma_first_index_is(after, p, table.len() as int);
    assert(after.remove(table.len() as int) =~= table);
    assert(memory.insert(added.address, TRAP_INSTRUCTION).insert(
        added.address,
        added.original_byte,
    ) =~= memory);
}

/// What the evaluator makes of a condition: whether its value is not
/// zero, or why it has none.
pub open spec fn condition_value(condition: Seq<char>, variables: Seq<(String, i64)>) -> Result<
    bool,
    EvalError,
> {
    match text_value(condition, variables) {
        Ok(v) => Ok(v != 0),
        Err(e) => Err(e),
    }
}

/// The texts that stand for the placeholders of a template, in their
/// order: for each its value in decimal, or its expression as it was
/// written where it has no value.
pub open spec fn log_values(template: Seq<char>, variables: Seq<(String, i64)>) -> Seq<Seq<char>> {
    Seq::new(
        placeholders(template).len(),
        |i: int| shown(placeholders(template)[i], text_value(placeholders(template)[i], variables)),
    )
}

/// The line that a log point with this template writes, or the error of
/// a placeholder that is not closed.
pub open spec fn log_line(template: Seq<char>, variables: Seq<(String, i64)>) -> Result<
    Seq<char>,
    TemplateError,
> {
    if terminated(template) {
        Ok(expanded(template, log_values(template, variables)))
    } else {
        Err(TemplateError::UnterminatedPlaceholder)
    }
}

/// The breakpoints of one debuggee.
pub struct BreakpointManager {
    /// The armed breakpoints in the order in which they were added.
    pub breakpoints: Vec<Breakpoint>,
    /// The id that the next breakpoint gets.
    pub next_id: usize,
}

/// The error of a breakpoint whose byte could not be read, or whose
/// trap instruction could not be written.
pub open spec fn refusal(error: MemoryError) -> BreakpointError {
    if error is WriteError {
        BreakpointError::AddressUnwritable
    } else {
        BreakpointError::AddressUnreadable
    }
}

/// What is to be written so that a breakpoint at `address` is armed, or
/// why none can be added there.  In this order: an armed address is a
/// duplicate; a byte that could not be read makes the address
/// unreadable; the ids may be exhausted.  `original` is what reading the
/// byte at the address gave.
pub open spec fn planned(
    manager: BreakpointManager,
    address: usize,
    original: Result<u8, MemoryError>,
) -> Result<MemoryPatch, BreakpointError> {
    if armed(manager.breakpoints@, address) {
        Err(BreakpointError::DuplicateAddress)
    } else if original is Err {
        Err(refusal(original->Err_0))
    } else if manager.next_id == usize::MAX {
        Err(BreakpointError::IdsExhausted)
    } else {
        Ok(arming(address))
    }
}

/// What adding a breakpoint does to the manager, and what it returns.
/// `original` is the byte that was read at the address and replaced by
/// the trap instruction, or the error of the read or of the write.  In
/// this order: an armed address is a duplicate; a byte that could not be
/// read makes the address unreadable, a trap instruction that could not
/// be written makes it unwritable; the ids may be exhausted.  Each of
/// these changes nothing.  Else the breakpoint is entered at the end of
/// the table, enabled, with the byte that was read, under the next id,
/// which is returned.
pub open spec fn added(
    before: BreakpointManager,
    after: BreakpointManager,
    address: usize,
    line: u32,
    file: String,
    kind: BreakpointType,
    original: Result<u8, MemoryError>,
    r: Result<usize, BreakpointError>,
) -> bool {
    match planned(before, address, original) {
        Err(e) => r == Err::<usize, BreakpointError>(e) && after == before,
        Ok(_) => {
            &&& r == Ok::<usize, BreakpointError>(before.next_id)
            &&& after.next_id == before.next_id + 1
            &&& after.breakpoints@ == before.breakpoints@.push(
                Breakpoint {
                    id: before.next_id,
                    address,
                    original_byte: original->Ok_0,
                    enabled: true,
                    line,
                    file,
                    breakpoint_type: kind,
                },
            )
        },
    }
}

/// What removing the breakpoint `id` does to the table, and what it
/// returns.  `restored` says whether the saved byte could be written
/// back.  An unknown id is an error; a byte that could not be written
/// back leaves the breakpoint in the table, so that the byte is not
/// lost.  Both change nothing.  Else the breakpoint leaves the table,
/// and the patch that was written is returned.
pub open spec fn removed(
    before: Seq<Breakpoint>,
    after: Seq<Breakpoint>,
    id: usize,
    restored: bool,
    r: Result<MemoryPatch, BreakpointError>,
) -> bool {
    match restoring(before, id) {
        None => r == Err::<MemoryPatch, BreakpointError>(BreakpointError::UnknownId) && after
            == before,
        Some(patch) => if restored {
            r == Ok::<MemoryPatch, BreakpointError>(patch) && after == without(before, id)
        } else {
            r == Err::<MemoryPatch, BreakpointError>(BreakpointError::AddressUnwritable) && after
                == before
        },
    }
}

/// What a pass over the breakpoint `id` does to the manager, and what is
/// decided.  An unknown id is an error and changes nothing.  Else the
/// decision is `stops` of the breakpoint as it was before the pass, the
/// pass is counted, and every other breakpoint stays as it was.
pub open spec fn decided(
    before: BreakpointManager,
    after: BreakpointManager,
    id: usize,
    condition: Option<bool>,
    r: Result<bool, BreakpointError>,
) -> bool {
    let table = before.breakpoints@;
    let i = first_index(table, with_id(id));
    if i < table.len() {
        &&& r == Ok::<bool, BreakpointError>(stops(table[i].breakpoint_type, condition))
        &&& after.next_id == before.next_id
        &&& after.breakpoints@.len() == table.len()
        &&& hit(table[i], after.breakpoints@[i])
        &&& forall|j: int| 0 <= j < table.len() && j != i ==> after.breakpoints@[j] == table[j]
    } else {
        &&& r == Err::<bool, BreakpointError>(BreakpointError::UnknownId)
        &&& after == before
    }
}

impl BreakpointManager {
    /// The invariant of the table: ids rise with the order, lie below the
    /// next id, and no address is armed twice.
    pub open spec fn wf(&self) -> bool {
        &&& self.next_id >= 1
        &&& forall|i: int|
            0 <= i < self.breakpoints@.len() ==> 1 <= (#[trigger] self.breakpoints@[i]).id
                < self.next_id
        &&& forall|i: int, j: int|
            0 <= i < j < self.breakpoints@.len() ==> self.breakpoints@[i].id
                < self.breakpoints@[j].id
        &&& forall|i: int, j: int|
            0 <= i < j < self.breakpoints@.len() ==> self.breakpoints@[i].address
                != self.breakpoints@[j].address
    }

    pub fn new() -> (manager: Self)
        ensures
            manager.wf(),
            manager.breakpoints@.len() == 0,
            manager.next_id == 1,
    {
        BreakpointManager { breakpoints: Vec::new(), next_id: 1 }
    }

    /// The patch that arms a breakpoint at `address`.
    pub fn arming_patch(address: usize) -> (patch: MemoryPatch)
        ensures
            patch == arming(address),
    {
        MemoryPatch { address, byte: TRAP_INSTRUCTION }
    }

    /// Whether a breakpoint is armed at `address`.
    pub fn is_armed(&self, address: usize) -> (r: bool)
        ensures
            r == armed(self.breakpoints@, address),
    {
        self.position_at(address) < self.breakpoints.len()
    }

    /// Index of the breakpoint at `address`, or the length of the table.
    fn position_at(&self, address: usize) -> (i: usize)
        ensures
            i == first_index(self.breakpoints@, set_at(address)),
            i <= self.breakpoints@.len(),
    {
        let mut i: usize = 0;
        while i < self.breakpoints.len() && self.breakpoints[i].address != address
            invariant
                i <= self.breakpoints@.len(),
                forall|j: int| 0 <= j < i ==> !set_at(address)(#[trigger] self.breakpoints@[j]),
            decreases self.breakpoints@.len() - i,
        {
            i += 1;
        }
        proof {
            lemma_first_index_is(self.breakpoints@, set_at(address), i as int);
        }
        i
    }

    /// Index of the breakpoint `id`, or the length of the table.
    fn position_of(&self, id: usize) -> (i: usize)
        ensures
            i == first_index(self.breakpoints@, with_id(id)),
            i <= self.breakpoints@.len(),
            i < self.breakpoints@.len() ==> self.breakpoints@[i as int].id == id,
    {
        let mut i: usize = 0;
        while i < self.breakpoints.len() && self.breakpoints[i].id != id
            invariant
                i <= self.breakpoints@.len(),
                forall|j: int| 0 <= j < i ==> !with_id(id)(#[trigger] self.breakpoints@[j]),
            decreases self.breakpoints@.len() - i,
        {
            i += 1;
        }
        proof {
            lemma_first_index_is(self.breakpoints@, with_id(id), i as int);
        }
        i
    }

    /// What is to be written so that a breakpoint at `address` is armed,
    /// or why none can be added there.  `original` is what reading the
    /// byte at the address gave.  Nothing changes: the breakpoint is
    /// added once the patch has been written.
    pub fn plan_breakpoint(&self, address: usize, original: Result<u8, MemoryError>) -> (r: Result<
        MemoryPatch,
        BreakpointError,
    >)
        ensures
            r == planned(*self, address, original),
    {
        let at = self.position_at(address);
        if at < self.breakpoints.len() {
            return Err(BreakpointError::DuplicateAddress);
        }
        match original {
            Ok(_) => {},
            Err(MemoryError::WriteError { .. }) => {
                return Err(BreakpointError::AddressUnwritable);
            },
            Err(_) => {
                return Err(BreakpointError::AddressUnreadable);
            },
        }
        if self.next_id == usize::MAX {
            return Err(BreakpointError::IdsExhausted);
        }
        Ok(MemoryPatch { address, byte: TRAP_INSTRUCTION })
    }

    /// Enters a breakpoint at `address`.  `original` is the byte that was
    /// read at the address and then replaced by `arming(address)`, or the
    /// error of the read, or the error of the write where the trap
    /// instruction could not be written.  A second breakpoint at an armed
    /// address is rejected, so that the byte saved for the first one is
    /// never replaced by the trap instruction.  Where the read or the
    /// write failed, the table and the next id stay as they are.  Else
    /// the breakpoint gets the next id, which is returned.
    pub fn add_breakpoint(
        &mut self,
        address: usize,
        line: u32,
        file: String,
        breakpoint_type: BreakpointType,
        original: Result<u8, MemoryError>,
    ) -> (r: Result<usize, BreakpointError>)
        requires
            old(self).wf(),
        ensures
            final(self).wf(),
            added(*old(self), *final(self), address, line, file, breakpoint_type, original, r),
    {
        match self.plan_breakpoint(address, original) {
            Ok(_) => {},
            Err(e) => {
                return Err(e);
            },
        }
        let original_byte = match original {
            Ok(b) => b,
            Err(_) => {
                return Err(BreakpointError::AddressUnreadable);
            },
        };
        let id = self.next_id;
        proof {
            lemma_first_index(self.breakpoints@, set_at(address));
        }
        self.next_id = id + 1;
        self.breakpoints.push(
            Breakpoint { id, address, original_byte, enabled: true, line, file, breakpoint_type },
        );
        Ok(id)
    }

    /// The patch that writes the saved byte of the breakpoint `id` back,
    /// to be written before the breakpoint is removed.  Nothing changes.
    pub fn restoring_patch(&self, id: usize) -> (r: Result<MemoryPatch, BreakpointError>)
        ensures
            r == match restoring(self.breakpoints@, id) {
                Some(patch) => Ok::<MemoryPatch, BreakpointError>(patch),
                None => Err(BreakpointError::UnknownId),
            },
    {
        let i = self.position_of(id);
        if i < self.breakpoints.len() {
            Ok(
                MemoryPatch {
                    address: self.breakpoints[i].address,
                    byte: self.breakpoints[i].original_byte,
                },
            )
        } else {
            Err(BreakpointError::UnknownId)
        }
    }

    /// Removes the breakpoint `id`.  `restored` says whether writing
    /// `restoring_patch(id)` succeeded.  An unknown id is an error.  Where
    /// the saved byte could not be written back that is an error too, and
    /// the breakpoint stays in the table with its byte.  Else the
    /// breakpoint is removed and the patch that was written is returned.
    pub fn remove_breakpoint(&mut self, id: usize, restored: bool) -> (r: Result<
        MemoryPatch,
        BreakpointError,
    >)
        requires
            old(self).wf(),
        ensures
            final(self).wf(),
            final(self).next_id == old(self).next_id,
            removed(old(self).breakpoints@, final(self).breakpoints@, id, restored, r),
    {
        let i = self.position_of(id);
        if i >= self.breakpoints.len() {
            return Err(BreakpointError::UnknownId);
        }
        if !restored {
            return Err(BreakpointError::AddressUnwritable);
        }
        let removed = self.breakpoints.remove(i);
        Ok(MemoryPatch { address: removed.address, byte: removed.original_byte })
    }

    /// The patches that write back the saved byte of every breakpoint, in
    /// the order of the table, as detaching from the debuggee asks for.
    pub fn restore_all(&self) -> (patches: Vec<MemoryPatch>)
        ensures
            patches@.len() == self.breakpoints@.len(),
            forall|i: int|
                0 <= i < patches@.len() ==> #[trigger] patches@[i] == (MemoryPatch {
                    address: self.breakpoints@[i].address,
                    byte: self.breakpoints@[i].original_byte,
                }),
    {
        let mut patches: Vec<MemoryPatch> = Vec::new();
        let mut i: usize = 0;
        while i < self.breakpoints.len()
            invariant
                i <= self.breakpoints@.len(),
                patches@.len() == i,
                forall|j: int|
                    0 <= j < i ==> #[trigger] patches@[j] == (MemoryPatch {
                        address: self.breakpoints@[j].address,
                        byte: self.breakpoints@[j].original_byte,
                    }),
            decreases self.breakpoints@.len() - i,
        {
            patches.push(
                MemoryPatch {
                    address: self.breakpoints[i].address,
                    byte: self.breakpoints[i].original_byte,
                },
            );
            i += 1;
        }
        patches
    }

    /// The breakpoint `id`.
    pub fn get_breakpoint(&self, id: usize) -> (r: Option<&Breakpoint>)
        ensures
            ({
                let i = first_index(self.breakpoints@, with_id(id));
                r == if i < self.breakpoints@.len() {
                    Some(&self.breakpoints@[i])
                } else {
                    None
                }
            }),
            r is Some ==> r->0.id == id,
    {
        let i = self.position_of(id);
        if i < self.breakpoints.len() {
            Some(&self.breakpoints[i])
        } else {
            None
        }
    }

    /// The enabled breakpoint at the address of a trap.
    pub fn handle_breakpoint(&self, address: usize) -> (r: Option<&Breakpoint>)
        ensures
            ({
                let i = first_index(self.breakpoints@, live_at(address));
                r == if i < self.breakpoints@.len() {
                    Some(&self.breakpoints@[i])
                } else {
                    None
                }
            }),
            r is Some ==> r->0.address == address && r->0.enabled,
            r is None <==> forall|i: int|
                0 <= i < self.breakpoints@.len() ==> !((#[trigger] self.breakpoints@[i]).address
                    == address && self.breakpoints@[i].enabled),
    {
        let mut i: usize = 0;
        while i < self.breakpoints.len() && !(self.breakpoints[i].address == address
            && self.breakpoints[i].enabled)
            invariant
                i <= self.breakpoints@.len(),
                forall|j: int| 0 <= j < i ==> !live_at(address)(#[trigger] self.breakpoints@[j]),
            decreases self.breakpoints@.len() - i,
        {
            i += 1;
        }
        proof {
            lemma_first_index_is(self.breakpoints@, live_at(address), i as int);
            if i < self.breakpoints@.len() {
                assert(live_at(address)(self.breakpoints@[i as int]));
            } else {
                assert forall|j: int| 0 <= j < self.breakpoints@.len() implies !((
                #[trigger] self.breakpoints@[j]).address == address
                    && self.breakpoints@[j].enabled) by {
                    assert(!live_at(address)(self.breakpoints@[j]));
                }
            }
        }
        if i < self.breakpoints.len() {
            Some(&self.breakpoints[i])
        } else {
            None
        }
    }

    /// What the evaluator makes of a condition, against the values of the
    /// debuggee's variables: whether its value is not zero, or why it has
    /// none.
    pub fn evaluate_condition(&self, condition: &str, variables: &Vec<(String, i64)>) -> (r: Result<
        bool,
        EvalError,
    >)
        ensures
            r == condition_value(condition@, variables@),
    {
        match evaluate_text(condition, variables) {
            Ok(v) => Ok(v != 0),
            Err(e) => Err(e),
        }
    }

    /// The text that stands for an expression in a log line: its value in
    /// decimal, or the expression as it was written where the evaluator
    /// fails on it.
    pub fn evaluate_expression_for_log(&self, expression: &String, variables: &Vec<(String, i64)>) -> (text:
        String)
        ensures
            text@ == shown(expression@, text_value(expression@, variables@)),
    {
        show_value(expression, evaluate_text(expression.as_str(), variables))
    }

    /// The line that a log point writes: its template with every
    /// placeholder replaced by the text that stands for its expression.
    /// An expression on which the evaluator fails is no error; a
    /// placeholder that is not closed is the only one.
    pub fn format_log_message(&self, message: &str, variables: &Vec<(String, i64)>) -> (r: Result<
        String,
        TemplateError,
    >)
        ensures
            match log_line(message@, variables@) {
                Ok(line) => r is Ok && r->Ok_0@ == line,
                Err(e) => r == Err::<String, TemplateError>(e),
            },
    {
        let expressions = match placeholder_expressions(message) {
            Ok(e) => e,
            Err(e) => {
                return Err(e);
            },
        };
        let mut values: Vec<String> = Vec::new();
        let mut i: usize = 0;
        while i < expressions.len()
            invariant
                i <= expressions@.len(),
                values@.len() == i,
                expressions@.len() == placeholders(message@).len(),
                forall|k: int|
                    0 <= k < expressions@.len() ==> (#[trigger] expressions@[k])@ == placeholders(
                        message@,
                    )[k],
                forall|k: int|
                    0 <= k < i ==> (#[trigger] values@[k])@ == log_values(
                        message@,
                        variables@,
                    )[k],
            decreases expressions@.len() - i,
        {
            values.push(self.evaluate_expression_for_log(&expressions[i], variables));
            i += 1;
        }
        let r = expand_template(message, &values);
        proof {
            let given = Seq::new(values@.len(), |i: int| values@[i]@);
            assert(given =~= log_values(message@, variables@));
        }
        r
    }

    /// Decides whether a pass over the breakpoint `id` stops the debuggee,
    /// and counts the pass.  `condition` is what the evaluator made of the
    /// condition of a conditional breakpoint, `None` where it failed: a
    /// failed condition does not stop.  An unknown id is an error and
    /// changes nothing.
    pub fn should_break(&mut self, id: usize, condition: Option<bool>) -> (r: Result<
        bool,
        BreakpointError,
    >)
        requires
            old(self).wf(),
        ensures
            final(self).wf(),
            decided(*old(self), *final(self), id, condition, r),
    {
        let i = self.position_of(id);
        if i >= self.breakpoints.len() {
            return Err(BreakpointError::UnknownId);
        }
        let (stop, counter): (bool, Option<(usize, usize)>) = match &self.breakpoints[i].breakpoint_type {
            BreakpointType::Normal => (true, None),
            BreakpointType::Conditional(_) => (
                match condition {
                    Some(holds) => holds,
                    None => false,
                },
                None,
            ),
            BreakpointType::LogPoint(_) => (false, None),
            BreakpointType::Counter { count, hit_count } => (
                *hit_count >= *count,
                Some((*count, if *hit_count < usize::MAX {
                    *hit_count + 1
                } else {
                    *hit_count
                })),
            ),
        };
        match counter {
            Some((count, hit_count)) => {
                // The counted breakpoint goes to the end and takes the place
                // of the old one.
                self.breakpoints.push(
                    Breakpoint {
                        id,
                        address: self.breakpoints[i].address,
                        original_byte: self.breakpoints[i].original_byte,
                        enabled: self.breakpoints[i].enabled,
                        line: self.breakpoints[i].line,
                        file: self.breakpoints[i].file.clone(),
                        breakpoint_type: BreakpointType::Counter { count, hit_count },
                    },
                );
                let _ = self.breakpoints.swap_remove(i);
            },
            None => {},
        }
        Ok(stop)
    }
}

} // verus!
