//! Qubit register occupancy of a node's memory.
use vstd::prelude::*;

verus! {

/// Counts the qubits buffered in a memory register of fixed capacity.
pub struct MemoryRegisterTracker {
    pub allocated_qubits: usize,
    pub max_capacity: usize,
}

impl MemoryRegisterTracker {
    /// An empty register holding at most `max_capacity` qubits.
    pub fn new(max_capacity: usize) -> (r: MemoryRegisterTracker)
        ensures
            r.allocated_qubits == 0,
            r.max_capacity == max_capacity,
    {
        MemoryRegisterTracker { allocated_qubits: 0, max_capacity }
    }

    /// Buffers one more qubit if there is room, and says whether it did. The
    /// register never fills past its capacity.
    pub fn try_buffer(&mut self) -> (r: bool)
        ensures
            r == (old(self).allocated_qubits < old(self).max_capacity),
            final(self).max_capacity == old(self).max_capacity,
            final(self).allocated_qubits == if r {
                old(self).allocated_qubits + 1
            } else {
                old(self).allocated_qubits as int
            },
            old(self).allocated_qubits <= old(self).max_capacity ==> final(self).allocated_qubits
                <= final(self).max_capacity,
    {
        if self.allocated_qubits < self.max_capacity {
            self.allocated_qubits += 1;
            true
        } else {
            false
        }
    }

    /// Releases every buffered qubit.
    pub fn flush(&mut self)
        ensures
            final(self).allocated_qubits == 0,
            final(self).max_capacity == old(self).max_capacity,
    {
        self.allocated_qubits = 0;
    }
}

/// From an empty register, `n` buffering attempts succeed exactly
/// `min(n, capacity)` times: the first `capacity` of them.
pub proof fn law_buffering_fills_to_capacity(capacity: nat, n: nat)
    ensures
        buffered_after(capacity, n) == if n <= capacity {
            n
        } else {
            capacity
        },
    decreases n,
{
    if n > 0 {
        law_buffering_fills_to_capacity(capacity, (n - 1) as nat);
    }
}

/// The occupancy after `n` buffering attempts on an empty register, following
/// `try_buffer`'s contract.
pub open spec fn buffered_after(capacity: nat, n: nat) -> nat
    decreases n,
{
    if n == 0 {
        0
    } else {
        let before = buffered_after(capacity, (n - 1) as nat);
        if before < capacity {
            before + 1
        } else {
            before
        }
    }
}

} // verus!
