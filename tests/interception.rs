use vm_tracer::inject::plan_injection;
use vm_tracer::memory::{bytes_from_words, cstring_step, word_count};
use vm_tracer::regs::{RegisterSnapshot, INVALID_SYSCALL};
use vm_tracer::syscall::{
    classify, decode_request, is_handled, memory_need, DecodedRequest, DecodedResponse,
    MemoryNeed, SyscallKind, SYS_CLOSE, SYS_OPEN, SYS_READ, SYS_WRITE,
};
use vm_tracer::tracer::{next, TracerAction, TracerEvent, TracerState};

const SYS_GETPID: u64 = 39;
const O_RDONLY: u64 = 0;

struct Tracee {
    base: u64,
    bytes: Vec<u8>,
}

impl Tracee {
    fn new(base: u64, size: usize) -> Tracee {
        Tracee { base, bytes: vec![0x55; size] }
    }

    fn peek(&self, addr: u64) -> u64 {
        let at = (addr - self.base) as usize;
        let mut b = [0u8; 8];
        b.copy_from_slice(&self.bytes[at..at + 8]);
        u64::from_le_bytes(b)
    }

    fn poke(&mut self, addr: u64, word: u64) {
        let at = (addr - self.base) as usize;
        self.bytes[at..at + 8].copy_from_slice(&word.to_le_bytes());
    }

    fn store(&mut self, addr: u64, data: &[u8]) {
        let at = (addr - self.base) as usize;
        self.bytes[at..at + data.len()].copy_from_slice(data);
    }

    fn load(&self, addr: u64, len: usize) -> Vec<u8> {
        let at = (addr - self.base) as usize;
        self.bytes[at..at + len].to_vec()
    }

    /// Reads what `memory_need` asks for.
    fn gather(&self, need: MemoryNeed) -> Vec<u8> {
        match need {
            MemoryNeed::Nothing => Vec::new(),
            MemoryNeed::CString { address } => {
                let mut acc = Vec::new();
                let mut at = address;
                while !cstring_step(&mut acc, self.peek(at)) {
                    at += 8;
                }
                acc
            }
            MemoryNeed::Bytes { address, length } => {
                let words: Vec<u64> =
                    (0..word_count(length)).map(|i| self.peek(address + 8 * i)).collect();
                bytes_from_words(&words, length)
            }
        }
    }
}

fn regs(nr: u64, rdi: u64, rsi: u64, rdx: u64) -> RegisterSnapshot {
    RegisterSnapshot { orig_rax: nr, rax: 0xdead, rdi, rsi, rdx, r10: 10, r8: 8, r9: 9 }
}

/// Drives one syscall through the state machine, decoding from `tracee` and
/// answering with `respond`; returns the decoded request and the registers
/// the tracee resumes with.
fn run_syscall(
    tracee: &mut Tracee,
    entry: RegisterSnapshot,
    respond: impl Fn(&DecodedRequest) -> DecodedResponse,
) -> (DecodedRequest, RegisterSnapshot) {
    let (s, a) = next(TracerState::AwaitingInitialStop, TracerEvent::Stopped);
    assert_eq!(a, TracerAction::ResumeToSyscall);
    let (s, a) = next(s, TracerEvent::EntryStop { regs: entry });
    let suppressed = match a {
        TracerAction::WriteRegistersAndStep { regs } => regs,
        other => panic!("unexpected action {:?}", other),
    };
    assert_eq!(suppressed.orig_rax, INVALID_SYSCALL);
    assert_eq!(suppressed.rax, INVALID_SYSCALL);
    let (s, a) = next(s, TracerEvent::Stopped);
    let (entry_seen, _kind) = match a {
        TracerAction::Resolve { entry, kind } => (entry, kind),
        other => panic!("unexpected action {:?}", other),
    };
    assert_eq!(entry_seen, entry);
    let request = decode_request(&entry_seen, tracee.gather(memory_need(&entry_seen))).unwrap();
    let response = respond(&request);
    let exit = suppressed;
    let injection = plan_injection(&entry_seen, &exit, &response);
    for (i, w) in injection.words.iter().enumerate() {
        tracee.poke(injection.address + 8 * i as u64, *w);
    }
    let (s, a) = next(s, TracerEvent::Resolved);
    assert_eq!(s, TracerState::AwaitingSyscallEntry);
    assert_eq!(a, TracerAction::ResumeToSyscall);
    (request, injection.registers)
}

#[test]
fn classify_handled_set() {
    assert_eq!(classify(SYS_READ), Some(SyscallKind::Read));
    assert_eq!(classify(SYS_WRITE), Some(SyscallKind::Write));
    assert_eq!(classify(SYS_OPEN), Some(SyscallKind::Open));
    assert_eq!(classify(SYS_CLOSE), Some(SyscallKind::Close));
    assert_eq!(classify(SYS_GETPID), None);
    assert_eq!(classify(u64::MAX), None);
    assert!(is_handled(2));
    assert!(!is_handled(4));
}

#[test]
fn suppressed_invalidates_number_and_return() {
    let r = regs(SYS_OPEN, 1, 2, 3);
    let s = r.suppressed();
    assert_eq!(s.orig_rax, u64::MAX);
    assert_eq!(s.rax, u64::MAX);
    assert_eq!((s.rdi, s.rsi, s.rdx, s.r10, s.r8, s.r9), (1, 2, 3, 10, 8, 9));
}

#[test]
fn with_return_value_sets_rax_only() {
    let r = regs(SYS_READ, 1, 2, 3);
    let s = r.with_return_value(-2);
    assert_eq!(s.rax, 0xffff_ffff_ffff_fffe);
    assert_eq!(s.rax as i64, -2);
    assert_eq!(s.orig_rax, SYS_READ);
    assert_eq!(r.with_return_value(7).rax, 7);
}

#[test]
fn memory_need_per_syscall() {
    assert_eq!(memory_need(&regs(SYS_OPEN, 0x10, 0, 0)), MemoryNeed::CString { address: 0x10 });
    assert_eq!(
        memory_need(&regs(SYS_WRITE, 1, 0x20, 5)),
        MemoryNeed::Bytes { address: 0x20, length: 5 }
    );
    assert_eq!(memory_need(&regs(SYS_READ, 1, 0x20, 5)), MemoryNeed::Nothing);
    assert_eq!(memory_need(&regs(SYS_CLOSE, 3, 0, 0)), MemoryNeed::Nothing);
    assert_eq!(memory_need(&regs(SYS_GETPID, 3, 0, 0)), MemoryNeed::Nothing);
}

#[test]
fn decode_request_per_syscall() {
    assert_eq!(
        decode_request(&regs(SYS_OPEN, 0x10, 0o101, 0o644), b"a.txt".to_vec()),
        Some(DecodedRequest::Open { path: b"a.txt".to_vec(), flags: 0o101, mode: 0o644 })
    );
    assert_eq!(
        decode_request(&regs(SYS_READ, 4, 0x20, 12), Vec::new()),
        Some(DecodedRequest::Read { fd: 4, count: 12 })
    );
    assert_eq!(
        decode_request(&regs(SYS_WRITE, 1, 0x20, 2), vec![7, 8]),
        Some(DecodedRequest::Write { fd: 1, bytes: vec![7, 8], count: 2 })
    );
    assert_eq!(
        decode_request(&regs(SYS_CLOSE, u64::MAX, 0, 0), Vec::new()),
        Some(DecodedRequest::Close { fd: -1 })
    );
    assert_eq!(decode_request(&regs(SYS_GETPID, 0, 0, 0), Vec::new()), None);
}

#[test]
fn response_ret_value() {
    assert_eq!(DecodedResponse::Open { ret: 3 }.ret_value(), 3);
    assert_eq!(DecodedResponse::Read { ret: -9, data: vec![1] }.ret_value(), -9);
    assert_eq!(DecodedResponse::Write { ret: 4 }.ret_value(), 4);
    assert_eq!(DecodedResponse::Close { ret: 0 }.ret_value(), 0);
}

#[test]
fn plan_injection_read_writes_buffer() {
    let entry = regs(SYS_READ, 3, 0x4000, 9);
    let exit = entry.suppressed();
    let resp = DecodedResponse::Read { ret: 9, data: (1..=9).collect() };
    let inj = plan_injection(&entry, &exit, &resp);
    assert_eq!(inj.address, 0x4000);
    assert_eq!(inj.words, vec![0x0807_0605_0403_0201u64, 9]);
    assert_eq!(inj.registers.rax, 9);
    assert_eq!(inj.registers.orig_rax, u64::MAX);
}

#[test]
fn plan_injection_other_sets_register_only() {
    let entry = regs(SYS_WRITE, 1, 0x4000, 3);
    let exit = entry.suppressed();
    let inj = plan_injection(&entry, &exit, &DecodedResponse::Write { ret: -5 });
    assert!(inj.words.is_empty());
    assert_eq!(inj.registers.rax as i64, -5);
}

#[test]
fn tracer_terminates_when_resume_fails() {
    assert_eq!(
        next(TracerState::AwaitingSyscallEntry, TracerEvent::ResumeFailed),
        (TracerState::Terminated, TracerAction::Finish)
    );
}

#[test]
fn tracer_aborts_on_unexpected_event() {
    assert_eq!(
        next(TracerState::AwaitingInitialStop, TracerEvent::Resolved),
        (TracerState::Terminated, TracerAction::Abort)
    );
    assert_eq!(
        next(TracerState::Terminated, TracerEvent::Stopped),
        (TracerState::Terminated, TracerAction::Abort)
    );
}

#[test]
fn unhandled_syscall_passes_through() {
    let entry = regs(SYS_GETPID, 0, 0, 0);
    let (s, a) = next(TracerState::AwaitingSyscallEntry, TracerEvent::EntryStop { regs: entry });
    assert_eq!((s, a), (TracerState::PassingThrough, TracerAction::Step));
    let (s, a) = next(s, TracerEvent::Stopped);
    assert_eq!((s, a), (TracerState::AwaitingSyscallEntry, TracerAction::ResumeToSyscall));
    assert_eq!(decode_request(&entry, Vec::new()), None);
}

#[test]
fn open_path_matches_across_word_boundaries() {
    for len in [1usize, 7, 8, 9, 15, 16, 17, 23, 24, 25] {
        for offset in [0u64, 3] {
            let mut t = Tracee::new(0x1000, 128);
            let path: Vec<u8> = (0..len).map(|i| b'a' + (i % 26) as u8).collect();
            let mut stored = path.clone();
            stored.push(0);
            t.store(0x1000 + offset, &stored);
            let (req, _) = run_syscall(&mut t, regs(SYS_OPEN, 0x1000 + offset, 0, 0), |_| {
                DecodedResponse::Open { ret: 5 }
            });
            assert_eq!(req, DecodedRequest::Open { path, flags: 0, mode: 0 });
        }
    }
}

#[test]
fn read_response_lands_in_buffer() {
    for n in [0usize, 1, 5, 8, 13, 16, 20] {
        let mut t = Tracee::new(0x3000, 64);
        let data: Vec<u8> = (0..n).map(|i| (i * 3 + 2) as u8).collect();
        let reply = data.clone();
        let (req, out) = run_syscall(&mut t, regs(SYS_READ, 4, 0x3001, n as u64), move |_| {
            DecodedResponse::Read { ret: n as i64, data: reply.clone() }
        });
        assert_eq!(req, DecodedRequest::Read { fd: 4, count: n as u64 });
        assert_eq!(t.load(0x3001, n), data);
        assert_eq!(out.rax as i64, n as i64);
        assert_eq!(t.bytes[0], 0x55);
    }
}

#[test]
fn write_request_carries_source_bytes() {
    for n in [0usize, 1, 7, 8, 9, 17] {
        for offset in [0u64, 5] {
            let mut t = Tracee::new(0x5000, 64);
            let src: Vec<u8> = (0..n).map(|i| (100 + i) as u8).collect();
            t.store(0x5000 + offset, &src);
            let (req, out) = run_syscall(&mut t, regs(SYS_WRITE, 1, 0x5000 + offset, n as u64), |_| {
                DecodedResponse::Write { ret: 1 }
            });
            assert_eq!(req, DecodedRequest::Write { fd: 1, bytes: src, count: n as u64 });
            assert_eq!(out.rax, 1);
        }
    }
}

#[test]
fn open_test_txt_returns_resolved_fd() {
    let mut t = Tracee::new(0x7000, 64);
    t.store(0x7008, b"test.txt\0");
    let entry = regs(SYS_OPEN, 0x7008, O_RDONLY, 0);
    let (req, out) = run_syscall(&mut t, entry, |_| DecodedResponse::Open { ret: 3 });
    assert_eq!(req, DecodedRequest::Open { path: b"test.txt".to_vec(), flags: O_RDONLY, mode: 0 });
    assert_eq!(out.rax as i64, 3);
    // the kernel saw only the invalid syscall number
    assert_eq!(entry.suppressed().orig_rax, INVALID_SYSCALL);
}

#[test]
fn close_three_returns_zero() {
    let mut t = Tracee::new(0x7000, 16);
    let (req, out) =
        run_syscall(&mut t, regs(SYS_CLOSE, 3, 0, 0), |_| DecodedResponse::Close { ret: 0 });
    assert_eq!(req, DecodedRequest::Close { fd: 3 });
    assert_eq!(out.rax, 0);
}
