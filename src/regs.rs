//! The tracee's register snapshot at a trace stop.

use vstd::prelude::*;

verus! {

/// Out-of-range value written to the syscall-number and return-value
/// registers to neutralise a pending syscall.
pub const INVALID_SYSCALL: u64 = 0xffff_ffff_ffff_ffff;

/// The registers the tracer reads and writes at a stop (x86-64): the
/// syscall number as it was on entry, the return-value register, and the six
/// syscall argument registers in calling-convention order.
#[derive(Clone, Copy, Debug, PartialEq, Eq, Structural)]
pub struct RegisterSnapshot {
    pub orig_rax: u64,
    pub rax: u64,
    pub rdi: u64,
    pub rsi: u64,
    pub rdx: u64,
    pub r10: u64,
    pub r8: u64,
    pub r9: u64,
}

/// `regs` with the return-value register set to `ret`.
pub open spec fn with_return(regs: RegisterSnapshot, ret: i64) -> RegisterSnapshot {
    RegisterSnapshot { rax: ret as u64, ..regs }
}

/// `regs` with the syscall-number and return-value registers invalidated.
pub open spec fn invalidated(regs: RegisterSnapshot) -> RegisterSnapshot {
    RegisterSnapshot { orig_rax: INVALID_SYSCALL, rax: INVALID_SYSCALL, ..regs }
}

/// A signed result stored in the return-value register reads back as the
/// same signed value.
pub proof fn lemma_return_value_round_trip(ret: i64)
    ensures
        (ret as u64) as i64 == ret,
{
    assert((ret as u64) as i64 == ret) by (bit_vector);
}

impl RegisterSnapshot {
    /// The snapshot to write back at syscall entry so that the kernel does
    /// not carry out the syscall: both the syscall-number and the
    /// return-value registers hold the invalid sentinel, the rest is kept.
    pub fn suppressed(&self) -> (r: RegisterSnapshot)
        ensures
            r == invalidated(*self),
    {
        RegisterSnapshot { orig_rax: INVALID_SYSCALL, rax: INVALID_SYSCALL, ..*self }
    }

    /// The snapshot to write back at syscall exit so that the tracee sees
    /// `ret` as the syscall's result.
    pub fn with_return_value(&self, ret: i64) -> (r: RegisterSnapshot)
        ensures
            r == with_return(*self, ret),
            r.rax as i64 == ret,
    {
        proof {
            lemma_return_value_round_trip(ret);
        }
        RegisterSnapshot { rax: ret as u64, ..*self }
    }
}

} // verus!
