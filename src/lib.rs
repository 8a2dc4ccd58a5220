//! Decision logic of a ptrace-based syscall virtualizer: word-granular
//! tracee memory access, register handling, syscall decode and result
//! injection, and the tracer's state machine.

pub mod inject;
pub mod memory;
pub mod regs;
pub mod syscall;
pub mod tracer;
pub mod word;
