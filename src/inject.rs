//! Result injection: what the tracer writes into the tracee at syscall exit
//! so that the tracee sees the resolver's answer as the syscall's result.

use vstd::prelude::*;
use crate::memory::{bytes_of_words, lemma_write_read_round_trip, peek_words, poke_words, words_for_write, words_needed, write_words};
use crate::regs::{lemma_return_value_round_trip, with_return, RegisterSnapshot};
use crate::syscall::DecodedResponse;

verus! {

/// The writes that deliver a response: `words` go to the tracee one word
/// apart from `address` on, then `registers` are set.
#[derive(Clone, Debug)]
pub struct Injection {
    pub address: u64,
    pub words: Vec<u64>,
    pub registers: RegisterSnapshot,
}

/// Whether a response's payload fits the word arithmetic of its delivery.
pub open spec fn deliverable(resp: DecodedResponse) -> bool {
    match resp {
        DecodedResponse::Read { data, .. } => data@.len() + 8 <= u64::MAX,
        _ => true,
    }
}

/// The injection for `resp`, given the syscall's entry snapshot `entry` and
/// the snapshot `exit` read after stepping past the suppressed syscall. A
/// read's data goes to the buffer named by the entry's second argument;
/// every response sets the return-value register of `exit` to its result and
/// leaves the other registers as they are.
pub fn plan_injection(
    entry: &RegisterSnapshot,
    exit: &RegisterSnapshot,
    resp: &DecodedResponse,
) -> (r: Injection)
    requires
        deliverable(*resp),
    ensures
        r.registers == with_return(
            *exit,
            match resp {
                DecodedResponse::Open { ret } => *ret,
                DecodedResponse::Read { ret, .. } => *ret,
                DecodedResponse::Write { ret } => *ret,
                DecodedResponse::Close { ret } => *ret,
            },
        ),
        match resp {
            DecodedResponse::Read { data, .. } => r.address == entry.rsi && r.words@ == write_words(
                data@,
            ),
            _ => r.words@.len() == 0,
        },
{
    let registers = exit.with_return_value(resp.ret_value());
    match resp {
        DecodedResponse::Read { data, .. } => Injection {
            address: entry.rsi,
            words: words_for_write(data),
            registers,
        },
        _ => Injection { address: entry.rsi, words: Vec::new(), registers },
    }
}

/// A read's response of exactly the requested number of bytes reaches the
/// tracee whole: after the injection's words are written at the buffer, the
/// requested bytes read back from it are the response's data, and the
/// return-value register reads back as the response's result.
pub proof fn lemma_read_response_delivered(
    mem: spec_fn(int) -> u8,
    entry: RegisterSnapshot,
    exit: RegisterSnapshot,
    ret: i64,
    data: Seq<u8>,
)
    requires
        data.len() == entry.rdx,
    ensures
        ({
            let written = poke_words(mem, entry.rsi as int, write_words(data));
            let n = words_needed(entry.rdx as nat);
            bytes_of_words(peek_words(written, entry.rsi as int, n)).take(entry.rdx as int) == data
        }),
        with_return(exit, ret).rax as i64 == ret,
{
    lemma_write_read_round_trip(mem, entry.rsi as int, data);
    lemma_return_value_round_trip(ret);
}

} // verus!
