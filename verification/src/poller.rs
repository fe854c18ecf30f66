//! The device poller's judgement of a read: what is a benign empty read,
//! what is a device fault, and when stale events are drained no further.

use vstd::prelude::*;

verus! {

/// What a non-blocking read of one device came to.
#[derive(Debug, Clone, Copy, PartialEq, Eq, Structural)]
pub enum ReadOutcome {
    /// The read gave this many events.
    Events(usize),
    /// Nothing was pending.
    WouldBlock,
    /// The device failed.
    Fault,
}

/// Reads `libc::EAGAIN`, the error number of "try again" on this platform.
/// Its value differs between platforms, so nothing is claimed of it.
#[verifier::external_body]
fn errno_again() -> (code: i32) {
    libc::EAGAIN
}

/// Reads `libc::EWOULDBLOCK`, the error number of "would block" on this
/// platform. Its value differs between platforms, so nothing is claimed of
/// it.
#[verifier::external_body]
fn errno_would_block() -> (code: i32) {
    libc::EWOULDBLOCK
}

/// Whether a failed read is a device fault, where `again` and `would_block`
/// are the two error numbers that mean an empty read: every other error
/// number is a fault, and so is an error without a number.
pub open spec fn is_fault_spec(raw_os_error: Option<i32>, again: i32, would_block: i32) -> bool {
    raw_os_error != Some(again) && raw_os_error != Some(would_block)
}

/// Whether a failed read is a device fault, given the two error numbers
/// that mean an empty read.
pub fn is_fault_among(raw_os_error: Option<i32>, again: i32, would_block: i32) -> (fault: bool)
    ensures
        fault == is_fault_spec(raw_os_error, again, would_block),
{
    match raw_os_error {
        Some(code) => code != again && code != would_block,
        None => true,
    }
}

/// What a read comes to, where `again` and `would_block` are the two error
/// numbers that mean an empty read: a read that succeeded gives its count
/// of events, a failed one is a fault or a benign empty read.
pub open spec fn classify_spec(
    read: Result<usize, Option<i32>>,
    again: i32,
    would_block: i32,
) -> ReadOutcome {
    match read {
        Ok(count) => ReadOutcome::Events(count),
        Err(raw) => if is_fault_spec(raw, again, would_block) {
            ReadOutcome::Fault
        } else {
            ReadOutcome::WouldBlock
        },
    }
}

/// Judges a read, given the two error numbers that mean an empty read. The
/// read is the count of events where it succeeded, else the error number of
/// the failure, if it has one.
pub fn classify_read_among(read: Result<usize, Option<i32>>, again: i32, would_block: i32) -> (outcome:
    ReadOutcome)
    ensures
        outcome == classify_spec(read, again, would_block),
{
    match read {
        Ok(count) => ReadOutcome::Events(count),
        Err(raw) => {
            if is_fault_among(raw, again, would_block) {
                ReadOutcome::Fault
            } else {
                ReadOutcome::WouldBlock
            }
        },
    }
}

/// Judges a read by the platform's two error numbers for an empty read.
/// Their values are the platform's matter, so the outcome is the one that
/// `classify_read_among` gives for some pair of numbers; a read that
/// succeeded and an error without a number do not depend on them.
pub fn classify_read(read: Result<usize, Option<i32>>) -> (outcome: ReadOutcome)
    ensures
        exists|again: i32, would_block: i32|
            outcome == #[trigger] classify_spec(read, again, would_block),
        match read {
            Ok(count) => outcome == ReadOutcome::Events(count),
            Err(None) => outcome == ReadOutcome::Fault,
            Err(Some(_)) => outcome == ReadOutcome::Fault || outcome == ReadOutcome::WouldBlock,
        },
{
    classify_read_among(read, errno_again(), errno_would_block())
}

/// Whether any of the reads of one tick is a fault.
pub open spec fn any_fault_spec(outcomes: Seq<ReadOutcome>) -> bool {
    exists|i: int| 0 <= i < outcomes.len() && outcomes[i] == ReadOutcome::Fault
}

/// Whether any of the reads of one tick is a fault.
pub fn any_fault(outcomes: &Vec<ReadOutcome>) -> (fault: bool)
    ensures
        fault == any_fault_spec(outcomes@),
{
    let n = outcomes.len();
    let mut i: usize = 0;
    while i < n
        invariant
            n == outcomes@.len(),
            i <= n,
            forall|j: int| 0 <= j < i ==> outcomes@[j] != ReadOutcome::Fault,
        decreases n - i,
    {
        if outcomes[i] == ReadOutcome::Fault {
            return true;
        }
        i += 1;
    }
    false
}

/// Whether stale events are drained further after a read: only while reads
/// still give events. An empty read ends it, and so does any failure.
pub open spec fn keeps_draining_spec(outcome: ReadOutcome) -> bool {
    match outcome {
        ReadOutcome::Events(count) => count > 0,
        _ => false,
    }
}

/// Whether stale events are drained further after a read.
pub fn keeps_draining(outcome: ReadOutcome) -> (again: bool)
    ensures
        again == keeps_draining_spec(outcome),
{
    match outcome {
        ReadOutcome::Events(count) => count > 0,
        _ => false,
    }
}

} // verus!
