//! What the wrapper wants done outside: lines for the log, writes into the
//! memory of the process, and threads stopped or started again.

use crate::bytes;
use vstd::prelude::*;

verus! {

/// One thing to do.
pub enum Action {
    /// Put the text behind the log.
    Log(String),
    /// Write the bytes into the memory of the process, code or data.
    WriteMemory { address: usize, bytes: Vec<u8> },
    /// Store the number at the address.
    WriteDword { address: usize, value: u32 },
    /// Stop every other thread of the process.
    FreezeThreads,
    /// Start every other thread of the process again.
    ResumeThreads,
}

/// What an action says.
pub enum ActionView {
    Log(Seq<char>),
    WriteMemory { address: int, bytes: Seq<u8> },
    WriteDword { address: int, value: int },
    FreezeThreads,
    ResumeThreads,
}

impl View for Action {
    type V = ActionView;

    open spec fn view(&self) -> ActionView {
        match self {
            Action::Log(s) => ActionView::Log(s@),
            Action::WriteMemory { address, bytes } => ActionView::WriteMemory {
                address: *address as int,
                bytes: bytes@,
            },
            Action::WriteDword { address, value } => ActionView::WriteDword {
                address: *address as int,
                value: *value as int,
            },
            Action::FreezeThreads => ActionView::FreezeThreads,
            Action::ResumeThreads => ActionView::ResumeThreads,
        }
    }
}

/// What the actions say, in order.
pub open spec fn trace(actions: Seq<Action>) -> Seq<ActionView> {
    Seq::new(actions.len(), |i: int| actions[i]@)
}

/// Adds an action.
pub fn add_action(out: &mut Vec<Action>, action: Action)
    ensures
        trace(final(out)@) == trace(old(out)@).push(action@),
{
    let ghost said = action@;
    out.push(action);
    assert(trace(out@) =~= trace(old(out)@).push(said));
}

/// Adds a line for the log.
pub fn add_log(out: &mut Vec<Action>, line: &str)
    ensures
        trace(final(out)@) == trace(old(out)@).push(ActionView::Log(line@)),
{
    add_action(out, Action::Log(line.to_string()));
}

/// The text before a number, the number in decimal, and the text behind it.
pub fn around_number(before: &str, n: u32, behind: &str) -> (r: String)
    ensures
        r@ == before@ + crate::number::decimal(n as nat) + behind@,
{
    let mut r = before.to_string();
    r.append(&crate::number::to_decimal(n as u64));
    r.append(behind);
    r
}

/// The text before another, the other, and the text behind it.
pub fn around_text(before: &str, s: &str, behind: &str) -> (r: String)
    ensures
        r@ == before@ + s@ + behind@,
{
    let mut r = before.to_string();
    r.append(s);
    r.append(behind);
    r
}

/// The bytes of the process at every address.
pub type Memory = spec_fn(int) -> u8;

/// The memory after bytes were written to an address.
pub open spec fn written_at(memory: Memory, address: int, written: Seq<u8>) -> Memory {
    |a: int|
        if address <= a < address + written.len() {
            written[a - address]
        } else {
            memory(a)
        }
}

/// The memory after an action.
pub open spec fn after_action(memory: Memory, action: ActionView) -> Memory {
    match action {
        ActionView::WriteMemory { address, bytes } => written_at(memory, address, bytes),
        ActionView::WriteDword { address, value } => written_at(
            memory,
            address,
            bytes::le_bytes(value as nat, 4),
        ),
        _ => memory,
    }
}

/// The memory after the actions, one after the other.
pub open spec fn after_actions(memory: Memory, actions: Seq<ActionView>) -> Memory
    decreases actions.len(),
{
    if actions.len() == 0 {
        memory
    } else {
        after_action(after_actions(memory, actions.drop_last()), actions.last())
    }
}

/// Whether the memory holds the bytes at the address.
pub open spec fn holds(memory: Memory, address: int, expected: Seq<u8>) -> bool {
    forall|i: int| 0 <= i < expected.len() ==> memory(address + i) == #[trigger] expected[i]
}

} // verus!
