//! Classification of syscall numbers and decoding of the handled syscalls'
//! arguments into typed requests.

use vstd::prelude::*;
use crate::memory::{bytes_of_words, cstring_scan, lemma_cstring_stops_at_first_nul, lemma_read_matches_memory, peek_words, region, words_needed};
use crate::regs::RegisterSnapshot;

verus! {

/// x86-64 syscall numbers of the handled set.
pub const SYS_READ: u64 = 0;
pub const SYS_WRITE: u64 = 1;
pub const SYS_OPEN: u64 = 2;
pub const SYS_CLOSE: u64 = 3;

/// The syscalls that the tracer intercepts and resolves itself.
#[derive(Clone, Copy, Debug, PartialEq, Eq, Structural)]
pub enum SyscallKind {
    Read,
    Write,
    Open,
    Close,
}

/// The handled syscall that number `nr` stands for, if any.
pub open spec fn kind_of(nr: u64) -> Option<SyscallKind> {
    if nr == SYS_READ {
        Some(SyscallKind::Read)
    } else if nr == SYS_WRITE {
        Some(SyscallKind::Write)
    } else if nr == SYS_OPEN {
        Some(SyscallKind::Open)
    } else if nr == SYS_CLOSE {
        Some(SyscallKind::Close)
    } else {
        None
    }
}

/// Which handled syscall `nr` is; `None` for every syscall that passes
/// through to the kernel.
pub fn classify(nr: u64) -> (r: Option<SyscallKind>)
    ensures
        r == kind_of(nr),
{
    if nr == SYS_READ {
        Some(SyscallKind::Read)
    } else if nr == SYS_WRITE {
        Some(SyscallKind::Write)
    } else if nr == SYS_OPEN {
        Some(SyscallKind::Open)
    } else if nr == SYS_CLOSE {
        Some(SyscallKind::Close)
    } else {
        None
    }
}

/// Whether syscall `nr` is intercepted.
pub fn is_handled(nr: u64) -> (r: bool)
    ensures
        r == kind_of(nr).is_some(),
{
    classify(nr).is_some()
}

/// What a syscall's decoding has to read from tracee memory.
#[derive(Clone, Copy, Debug, PartialEq, Eq, Structural)]
pub enum MemoryNeed {
    /// Nothing: all arguments are in registers.
    Nothing,
    /// The zero-terminated string at `address`.
    CString { address: u64 },
    /// The `length` bytes at `address`.
    Bytes { address: u64, length: u64 },
}

/// The memory read that decoding the syscall at entry snapshot `regs` needs:
/// open's path (first argument), write's source buffer (second argument,
/// length in the third); nothing for read, close and unhandled syscalls.
pub open spec fn memory_need_spec(regs: RegisterSnapshot) -> MemoryNeed {
    match kind_of(regs.orig_rax) {
        Some(SyscallKind::Open) => MemoryNeed::CString { address: regs.rdi },
        Some(SyscallKind::Write) => MemoryNeed::Bytes { address: regs.rsi, length: regs.rdx },
        _ => MemoryNeed::Nothing,
    }
}

/// The memory read that decoding the syscall at entry snapshot `regs` needs.
pub fn memory_need(regs: &RegisterSnapshot) -> (r: MemoryNeed)
    ensures
        r == memory_need_spec(*regs),
{
    match classify(regs.orig_rax) {
        Some(SyscallKind::Open) => MemoryNeed::CString { address: regs.rdi },
        Some(SyscallKind::Write) => MemoryNeed::Bytes { address: regs.rsi, length: regs.rdx },
        _ => MemoryNeed::Nothing,
    }
}

/// A handled syscall's arguments in typed form.
#[derive(Clone, Debug, PartialEq, Eq)]
pub enum DecodedRequest {
    Open { path: Vec<u8>, flags: u64, mode: u64 },
    Read { fd: i64, count: u64 },
    Write { fd: i64, bytes: Vec<u8>, count: u64 },
    Close { fd: i64 },
}

/// The resolver's answer to a request; `ret` is the syscall's result as the
/// tracee is to see it.
#[derive(Clone, Debug, PartialEq, Eq)]
pub enum DecodedResponse {
    Open { ret: i64 },
    Read { ret: i64, data: Vec<u8> },
    Write { ret: i64 },
    Close { ret: i64 },
}

impl DecodedResponse {
    /// The syscall result carried by the response.
    pub fn ret_value(&self) -> (r: i64)
        ensures
            r == match self {
                DecodedResponse::Open { ret } => *ret,
                DecodedResponse::Read { ret, .. } => *ret,
                DecodedResponse::Write { ret } => *ret,
                DecodedResponse::Close { ret } => *ret,
            },
    {
        match self {
            DecodedResponse::Open { ret } => *ret,
            DecodedResponse::Read { ret, .. } => *ret,
            DecodedResponse::Write { ret } => *ret,
            DecodedResponse::Close { ret } => *ret,
        }
    }
}

/// The request for the syscall at entry snapshot `regs`, given `memory`, the
/// bytes read for it as `memory_need` asks (empty where it asks nothing):
/// file descriptors come from the first argument register, open's flags and
/// mode from the second and third, read's and write's counts from the third.
/// `None` for a syscall that is not handled.
pub fn decode_request(regs: &RegisterSnapshot, memory: Vec<u8>) -> (r: Option<DecodedRequest>)
    ensures
        kind_of(regs.orig_rax) is None <==> r is None,
        kind_of(regs.orig_rax) == Some(SyscallKind::Open) ==> (match r {
            Some(DecodedRequest::Open { path, flags, mode }) => path@ == memory@ && flags
                == regs.rsi && mode == regs.rdx,
            _ => false,
        }),
        kind_of(regs.orig_rax) == Some(SyscallKind::Read) ==> r == Some(
            DecodedRequest::Read { fd: regs.rdi as i64, count: regs.rdx },
        ),
        kind_of(regs.orig_rax) == Some(SyscallKind::Write) ==> (match r {
            Some(DecodedRequest::Write { fd, bytes, count }) => fd == regs.rdi as i64 && bytes@
                == memory@ && count == regs.rdx,
            _ => false,
        }),
        kind_of(regs.orig_rax) == Some(SyscallKind::Close) ==> r == Some(
            DecodedRequest::Close { fd: regs.rdi as i64 },
        ),
{
    match classify(regs.orig_rax) {
        Some(SyscallKind::Open) => Some(
            DecodedRequest::Open { path: memory, flags: regs.rsi, mode: regs.rdx },
        ),
        Some(SyscallKind::Read) => Some(
            DecodedRequest::Read { fd: regs.rdi as i64, count: regs.rdx },
        ),
        Some(SyscallKind::Write) => Some(
            DecodedRequest::Write { fd: regs.rdi as i64, bytes: memory, count: regs.rdx },
        ),
        Some(SyscallKind::Close) => Some(DecodedRequest::Close { fd: regs.rdi as i64 }),
        None => None,
    }
}

/// The path decoded for an open is the string the tracee passed: scanning the
/// words peeked from the first argument's address yields exactly the path's
/// bytes, at any length (shorter than, equal to, or longer than a word).
pub proof fn lemma_open_path_matches(mem: spec_fn(int) -> u8, regs: RegisterSnapshot, path: Seq<u8>)
    requires
        kind_of(regs.orig_rax) == Some(SyscallKind::Open),
        region(mem, regs.rdi as int, path.len()) == path,
        forall|i: int| 0 <= i < path.len() ==> path[i] != 0,
        mem(regs.rdi + path.len()) == 0,
    ensures
        memory_need_spec(regs) == (MemoryNeed::CString { address: regs.rdi }),
        cstring_scan(peek_words(mem, regs.rdi as int, path.len() / 8 + 1)) == (path, true),
{
    let a = regs.rdi as int;
    assert forall|x: int| a <= x < a + path.len() implies #[trigger] mem(x) != 0 by {
        assert(region(mem, a, path.len())[x - a] == mem(x));
    }
    lemma_cstring_stops_at_first_nul(mem, a, path.len());
}

/// The buffer decoded for a write is the bytes at the tracee's source
/// address, whatever the alignment of the address or of the byte count.
pub proof fn lemma_write_buffer_matches(mem: spec_fn(int) -> u8, regs: RegisterSnapshot)
    requires
        kind_of(regs.orig_rax) == Some(SyscallKind::Write),
    ensures
        memory_need_spec(regs) == (MemoryNeed::Bytes { address: regs.rsi, length: regs.rdx }),
        bytes_of_words(peek_words(mem, regs.rsi as int, words_needed(regs.rdx as nat))).take(
            regs.rdx as int,
        ) == region(mem, regs.rsi as int, regs.rdx as nat),
{
    lemma_read_matches_memory(mem, regs.rsi as int, regs.rdx as nat);
}

} // verus!
