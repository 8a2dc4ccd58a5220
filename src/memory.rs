//! Tracee memory access at word granularity.
//!
//! The tracing facility reads and writes the tracee's address space one
//! 8-byte word at a time, at any (possibly unaligned) address. This module
//! holds what the tracer decides around those word transfers: how many words
//! to read, which bytes of them form the result, and which words to write.
//! The tracee's address space is modelled as a total map from address to byte.

use vstd::bytes::{lemma_auto_spec_u64_to_from_le_bytes, spec_u64_from_le_bytes, spec_u64_to_le_bytes};
use vstd::prelude::*;
use crate::word::{le_bytes_of_word, word_of_le_bytes};

verus! {

/// The word that a peek at address `a` returns: the eight bytes from `a` on,
/// little-endian.
pub open spec fn peek(mem: spec_fn(int) -> u8, a: int) -> u64 {
    spec_u64_from_le_bytes(region(mem, a, 8))
}

/// The `n` bytes of memory starting at `a`.
pub open spec fn region(mem: spec_fn(int) -> u8, a: int, n: nat) -> Seq<u8> {
    Seq::new(n, |i: int| mem(a + i))
}

/// The words that `n` consecutive peeks return, starting at `a` and moving
/// one word up each time.
pub open spec fn peek_words(mem: spec_fn(int) -> u8, a: int, n: nat) -> Seq<u64> {
    Seq::new(n, |i: int| peek(mem, a + 8 * i))
}

/// Memory after a poke of word `w` at address `a`.
pub open spec fn poke(mem: spec_fn(int) -> u8, a: int, w: u64) -> spec_fn(int) -> u8 {
    |x: int| if a <= x < a + 8 { spec_u64_to_le_bytes(w)[x - a] } else { mem(x) }
}

/// Memory after poking `ws[i]` at `a + 8 * i`, in order.
pub open spec fn poke_words(mem: spec_fn(int) -> u8, a: int, ws: Seq<u64>) -> spec_fn(int) -> u8
    decreases ws.len(),
{
    if ws.len() == 0 {
        mem
    } else {
        poke(poke_words(mem, a, ws.drop_last()), a + 8 * (ws.len() - 1), ws.last())
    }
}

/// The bytes of a sequence of words, each little-endian, in order.
pub open spec fn bytes_of_words(ws: Seq<u64>) -> Seq<u8> {
    Seq::new(8 * ws.len(), |k: int| spec_u64_to_le_bytes(ws[k / 8])[k % 8])
}

/// Number of whole words that cover `len` bytes.
pub open spec fn words_needed(len: nat) -> nat {
    ((len + 7) / 8) as nat
}

/// `data` followed by zero bytes up to a whole number of words.
pub open spec fn padded(data: Seq<u8>) -> Seq<u8> {
    Seq::new(8 * words_needed(data.len()), |k: int| if k < data.len() { data[k] } else { 0u8 })
}

/// The words that carry `data` into the tracee: each holds the next eight
/// bytes, the last one zero-filled past the end of `data`.
pub open spec fn write_words(data: Seq<u8>) -> Seq<u64> {
    Seq::new(
        words_needed(data.len()),
        |i: int| spec_u64_from_le_bytes(padded(data).subrange(8 * i, 8 * i + 8)),
    )
}

/// Number of leading non-zero bytes of `b`.
pub open spec fn nul_index(b: Seq<u8>) -> nat
    decreases b.len(),
{
    if b.len() == 0 || b[0] == 0 {
        0
    } else {
        1 + nul_index(b.drop_first())
    }
}

/// Result of scanning words for a C string: the bytes gathered so far and
/// whether the terminating zero byte was found.
pub open spec fn cstring_scan(ws: Seq<u64>) -> (Seq<u8>, bool)
    decreases ws.len(),
{
    if ws.len() == 0 {
        (Seq::empty(), false)
    } else {
        let prev = cstring_scan(ws.drop_last());
        if prev.1 {
            prev
        } else {
            let b = spec_u64_to_le_bytes(ws.last());
            (prev.0 + b.take(nul_index(b) as int), nul_index(b) < 8)
        }
    }
}

proof fn lemma_word_bytes_len(w: u64)
    ensures
        spec_u64_to_le_bytes(w).len() == 8,
{
    lemma_auto_spec_u64_to_from_le_bytes();
}

proof fn lemma_nul_index_at(b: Seq<u8>, i: int)
    requires
        0 <= i <= b.len(),
        forall|j: int| 0 <= j < i ==> b[j] != 0,
        i == b.len() || b[i] == 0,
    ensures
        nul_index(b) == i,
    decreases b.len(),
{
    if b.len() > 0 && b[0] != 0 {
        lemma_nul_index_at(b.drop_first(), i - 1);
    }
}

/// Number of words to peek for a read of `length` bytes.
pub fn word_count(length: u64) -> (r: u64)
    ensures
        r == words_needed(length as nat),
{
    length / 8 + if length % 8 != 0 { 1 } else { 0 }
}

/// Bytes of a read of `length` bytes, given the words peeked from its start
/// address on: all bytes of the words, the last partial word truncated.
pub fn bytes_from_words(words: &Vec<u64>, length: u64) -> (r: Vec<u8>)
    requires
        length <= 8 * words@.len(),
    ensures
        r@ == bytes_of_words(words@).take(length as int),
{
    let ghost all = bytes_of_words(words@);
    let mut buf: Vec<u8> = Vec::new();
    let mut i: usize = 0;
    while (buf.len() as u64) < length
        invariant
            0 <= i <= words@.len(),
            buf@.len() == if 8 * i <= length { 8 * i } else { length as int },
            buf@ == all.take(buf@.len() as int),
            all == bytes_of_words(words@),
            length <= 8 * words@.len(),
        decreases length - buf@.len(),
    {
        let bytes = le_bytes_of_word(words[i]);
        proof {
            lemma_word_bytes_len(words@[i as int]);
        }
        let mut j: usize = 0;
        while j < 8 && (buf.len() as u64) < length
            invariant
                0 <= i < words@.len(),
                0 <= j <= 8,
                bytes@ == spec_u64_to_le_bytes(words@[i as int]),
                bytes@.len() == 8,
                buf@.len() == 8 * i + j,
                buf@.len() <= length,
                buf@ == all.take(buf@.len() as int),
                all == bytes_of_words(words@),
                length <= 8 * words@.len(),
            decreases 8 - j,
        {
            proof {
                let k = 8 * i + j;
                assert(k / 8 == i as int && k % 8 == j as int);
                assert(k < all.len());
                assert(all[k] == bytes@[j as int]);
            }
            buf.push(bytes[j]);
            j = j + 1;
            assert(buf@ =~= all.take(buf@.len() as int));
        }
        i = i + 1;
    }
    buf
}

/// One step of reading a C string: appends to `acc` the bytes of `word`
/// before its first zero byte, and tells whether a zero byte was found.
pub fn cstring_step(acc: &mut Vec<u8>, word: u64) -> (done: bool)
    ensures
        ({
            let b = spec_u64_to_le_bytes(word);
            &&& final(acc)@ == old(acc)@ + b.take(nul_index(b) as int)
            &&& done == (nul_index(b) < 8)
        }),
{
    let bytes = le_bytes_of_word(word);
    let ghost b = bytes@;
    proof {
        lemma_word_bytes_len(word);
    }
    let mut i: usize = 0;
    while i < 8 && bytes[i] != 0
        invariant
            0 <= i <= 8,
            b.len() == 8,
            bytes@ == b,
            forall|j: int| 0 <= j < i ==> b[j] != 0,
            acc@ == old(acc)@ + b.take(i as int),
        decreases 8 - i,
    {
        acc.push(bytes[i]);
        i = i + 1;
        assert(acc@ =~= old(acc)@ + b.take(i as int));
    }
    proof {
        lemma_nul_index_at(b, i as int);
    }
    i < 8
}

/// The words to poke, one word apart from the start address, so that the
/// tracee receives `data`: each word holds the next eight bytes, and the last
/// one is zero-filled past the end of `data`.
pub fn words_for_write(data: &Vec<u8>) -> (r: Vec<u64>)
    requires
        data@.len() + 8 <= u64::MAX,
    ensures
        r@ == write_words(data@),
{
    let n = word_count(data.len() as u64);
    let ghost pd = padded(data@);
    let mut out: Vec<u64> = Vec::new();
    let mut i: u64 = 0;
    while i < n
        invariant
            0 <= i <= n,
            n == words_needed(data@.len()),
            data@.len() + 8 <= u64::MAX,
            pd == padded(data@),
            out@.len() == i,
            forall|k: int| 0 <= k < i ==> out@[k] == #[trigger] write_words(data@)[k],
        decreases n - i,
    {
        let mut chunk: Vec<u8> = Vec::new();
        let mut j: u64 = 0;
        while j < 8
            invariant
                0 <= i < n,
                0 <= j <= 8,
                n == words_needed(data@.len()),
                data@.len() + 8 <= u64::MAX,
                pd == padded(data@),
                chunk@ == pd.subrange(8 * i, 8 * i + j),
            decreases 8 - j,
        {
            let k = 8 * i + j;
            if k < data.len() as u64 {
                chunk.push(data[k as usize]);
            } else {
                chunk.push(0u8);
            }
            j = j + 1;
            assert(chunk@ =~= pd.subrange(8 * i, 8 * i + j));
        }
        let w = word_of_le_bytes(&chunk);
        out.push(w);
        i = i + 1;
    }
    assert(out@ =~= write_words(data@));
    out
}

/// The bytes of the words peeked from `a` on are the memory from `a` on,
/// whatever the alignment of `a`.
pub proof fn lemma_peek_words_bytes(mem: spec_fn(int) -> u8, a: int, n: nat)
    ensures
        bytes_of_words(peek_words(mem, a, n)) == region(mem, a, 8 * n),
{
    lemma_auto_spec_u64_to_from_le_bytes();
    let ws = peek_words(mem, a, n);
    assert forall|k: int| 0 <= k < 8 * n implies #[trigger] bytes_of_words(ws)[k] == mem(a + k) by {
        let i = k / 8;
        let r = region(mem, a + 8 * i, 8);
        assert(ws[i] == spec_u64_from_le_bytes(r));
        assert(spec_u64_to_le_bytes(spec_u64_from_le_bytes(r)) == r);
        assert(a + 8 * i + k % 8 == a + k);
    }
    assert(bytes_of_words(ws) =~= region(mem, a, 8 * n));
}

proof fn lemma_write_words_bytes(data: Seq<u8>)
    ensures
        bytes_of_words(write_words(data)) == padded(data),
{
    lemma_auto_spec_u64_to_from_le_bytes();
    let ws = write_words(data);
    let pd = padded(data);
    assert forall|k: int| 0 <= k < pd.len() implies #[trigger] bytes_of_words(ws)[k] == pd[k] by {
        let i = k / 8;
        let c = pd.subrange(8 * i, 8 * i + 8);
        assert(ws[i] == spec_u64_from_le_bytes(c));
        assert(spec_u64_to_le_bytes(spec_u64_from_le_bytes(c)) == c);
    }
    assert(bytes_of_words(ws) =~= pd);
}

proof fn lemma_poke_words_bytes(mem: spec_fn(int) -> u8, a: int, ws: Seq<u64>, x: int)
    requires
        a <= x < a + 8 * ws.len(),
    ensures
        poke_words(mem, a, ws)(x) == bytes_of_words(ws)[x - a],
    decreases ws.len(),
{
    lemma_word_bytes_len(ws.last());
    let last = a + 8 * (ws.len() - 1);
    if x < last {
        lemma_poke_words_bytes(mem, a, ws.drop_last(), x);
        assert((x - a) / 8 < ws.len() - 1);
    } else {
        assert((x - a) / 8 == ws.len() - 1 && (x - a) % 8 == x - last);
    }
}

proof fn lemma_bytes_of_words_drop_last(ws: Seq<u64>)
    requires
        ws.len() > 0,
    ensures
        bytes_of_words(ws.drop_last()) == bytes_of_words(ws).take(8 * (ws.len() - 1)),
        forall|j: int|
            0 <= j < 8 ==> #[trigger] spec_u64_to_le_bytes(ws.last())[j] == bytes_of_words(ws)[8 * (
            ws.len() - 1) + j],
{
    assert(bytes_of_words(ws.drop_last()) =~= bytes_of_words(ws).take(8 * (ws.len() - 1)));
    assert forall|j: int| 0 <= j < 8 implies #[trigger] spec_u64_to_le_bytes(ws.last())[j]
        == bytes_of_words(ws)[8 * (ws.len() - 1) + j] by {
        let k = 8 * (ws.len() - 1) + j;
        assert(k / 8 == ws.len() - 1 && k % 8 == j);
    }
}

proof fn lemma_scan(ws: Seq<u64>, n: int)
    requires
        0 <= n <= bytes_of_words(ws).len(),
        forall|i: int| 0 <= i < n ==> bytes_of_words(ws)[i] != 0,
        n < bytes_of_words(ws).len() ==> bytes_of_words(ws)[n] == 0,
    ensures
        cstring_scan(ws) == (bytes_of_words(ws).take(n), n < bytes_of_words(ws).len()),
    decreases ws.len(),
{
    let bs = bytes_of_words(ws);
    if ws.len() == 0 {
        assert(bs.take(n) =~= Seq::<u8>::empty());
    } else {
        let m = 8 * (ws.len() - 1);
        lemma_bytes_of_words_drop_last(ws);
        let prev = bytes_of_words(ws.drop_last());
        if n < m {
            lemma_scan(ws.drop_last(), n);
            assert(prev.take(n) =~= bs.take(n));
        } else {
            lemma_scan(ws.drop_last(), m);
            assert(prev.take(m) =~= prev);
            let b = spec_u64_to_le_bytes(ws.last());
            lemma_word_bytes_len(ws.last());
            lemma_nul_index_at(b, n - m);
            assert(prev + b.take(n - m) =~= bs.take(n));
        }
    }
}

/// Writing the words of `words_for_write(data)` at `a` and then reading
/// `data.len()` bytes back from `a` gives exactly `data`.
pub proof fn lemma_write_read_round_trip(mem: spec_fn(int) -> u8, a: int, data: Seq<u8>)
    ensures
        ({
            let n = words_needed(data.len());
            let written = poke_words(mem, a, write_words(data));
            bytes_of_words(peek_words(written, a, n)).take(data.len() as int) == data
        }),
{
    let n = words_needed(data.len());
    let ws = write_words(data);
    let written = poke_words(mem, a, ws);
    lemma_peek_words_bytes(written, a, n);
    lemma_write_words_bytes(data);
    assert forall|k: int| 0 <= k < data.len() implies #[trigger] written(a + k) == data[k] by {
        lemma_poke_words_bytes(mem, a, ws, a + k);
    }
    assert(region(written, a, 8 * n).take(data.len() as int) =~= data);
}

/// A read of `n` bytes at `a` gives the `n` bytes of memory at `a`,
/// whatever the alignment of `a` or of `n`.
pub proof fn lemma_read_matches_memory(mem: spec_fn(int) -> u8, a: int, n: nat)
    ensures
        bytes_of_words(peek_words(mem, a, words_needed(n))).take(n as int) == region(mem, a, n),
{
    lemma_peek_words_bytes(mem, a, words_needed(n));
    assert(region(mem, a, 8 * words_needed(n)).take(n as int) =~= region(mem, a, n));
}

/// Where the first zero byte from `a` on lies at `a + n`, scanning the words
/// peeked from `a` on ends with the word that holds it, and the string read
/// is the `n` bytes before it, without the zero; the words before that one
/// do not end the scan. This holds for aligned and unaligned `a` alike.
pub proof fn lemma_cstring_stops_at_first_nul(mem: spec_fn(int) -> u8, a: int, n: nat)
    requires
        mem(a + n) == 0,
        forall|x: int| a <= x < a + n ==> #[trigger] mem(x) != 0,
    ensures
        cstring_scan(peek_words(mem, a, n / 8 + 1)) == (region(mem, a, n), true),
        !cstring_scan(peek_words(mem, a, n / 8)).1,
{
    let m = n / 8 + 1;
    lemma_peek_words_bytes(mem, a, m);
    lemma_scan(peek_words(mem, a, m), n as int);
    assert(region(mem, a, 8 * m).take(n as int) =~= region(mem, a, n));
    lemma_peek_words_bytes(mem, a, n / 8);
    lemma_scan(peek_words(mem, a, n / 8), 8 * (n / 8) as int);
}

} // verus!
