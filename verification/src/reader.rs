//! Primitive reads from the bytes of a bytecode file.
use vstd::prelude::*;
use crate::ir::{IRString, StringModel};

verus! {

/// The value of a little-endian byte string: `s[0] + 256 * s[1] + ...`.
pub open spec fn le_value(s: Seq<u8>) -> nat
    decreases s.len(),
{
    if s.len() == 0 {
        0
    } else {
        s[0] as nat + 256 * le_value(s.drop_first())
    }
}

/// `256` to the power `n`.
pub open spec fn pow256(n: nat) -> nat
    decreases n,
{
    if n == 0 {
        1
    } else {
        256 * pow256((n - 1) as nat)
    }
}

/// The 64-bit word stored little-endian at `off`.
pub open spec fn word_at(s: Seq<u8>, off: int) -> u64 {
    le_value(s.subrange(off, off + 8)) as u64
}

/// The bytes `off .. off + n` lie inside `s`.
pub open spec fn in_bounds(s: Seq<u8>, off: int, n: int) -> bool {
    0 <= off && 0 <= n && off + n <= s.len()
}

/// The string stored at `off`: a 64-bit length, then that many bytes.
/// Its content gets a terminating zero byte.
pub open spec fn string_model_at(s: Seq<u8>, off: int) -> StringModel {
    let n = word_at(s, off);
    StringModel { length: n, content: s.subrange(off + 8, off + 8 + n).push(0u8) }
}

pub proof fn lemma_le_value_bound(s: Seq<u8>)
    ensures
        le_value(s) < pow256(s.len()),
    decreases s.len(),
{
    if s.len() > 0 {
        lemma_le_value_bound(s.drop_first());
    }
}

pub proof fn lemma_pow256_mono(a: nat, b: nat)
    requires
        a <= b,
    ensures
        pow256(a) <= pow256(b),
    decreases b,
{
    if a < b {
        lemma_pow256_mono(a, (b - 1) as nat);
    }
}

/// A word read from a file fits in 64 bits.
pub proof fn lemma_word_fits(s: Seq<u8>, off: int)
    requires
        in_bounds(s, off, 8),
    ensures
        word_at(s, off) as nat == le_value(s.subrange(off, off + 8)),
{
    lemma_le_value_bound(s.subrange(off, off + 8));
    reveal_with_fuel(pow256, 9);
}

proof fn lemma_shift_in(v: u64, b: u8)
    requires
        v < 0x100_0000_0000_0000,
    ensures
        (v << 8u64) | (b as u64) == v * 256 + b,
{
    assert((v << 8u64) | (b as u64) == v * 256 + b) by (bit_vector)
        requires
            v < 0x100_0000_0000_0000u64,
    ;
}

/// Whether `n` bytes from `off` lie inside `s`, computed without overflow.
pub fn has_bytes(s: &[u8], off: usize, n: usize) -> (r: bool)
    ensures
        r == in_bounds(s@, off as int, n as int),
        s@.len() <= usize::MAX,
{
    off <= s.len() && s.len() - off >= n
}

/// The byte at `offset`.
pub fn load8(output: &[u8], offset: usize) -> (r: u8)
    requires
        offset < output@.len(),
    ensures
        r == output@[offset as int],
{
    output[offset]
}

/// The 64-bit word stored little-endian at `offset`.
pub fn load64(output: &[u8], offset: usize) -> (r: u64)
    requires
        in_bounds(output@, offset as int, 8),
    ensures
        r == word_at(output@, offset as int),
        r as nat == le_value(output@.subrange(offset as int, offset + 8)),
{
    let ghost s = output@;
    let len = output.len();
    let mut val: u64 = 0u64;
    let mut i: usize = 0;
    while i < 8
        invariant
            0 <= i <= 8,
            in_bounds(s, offset as int, 8),
            s == output@,
            len == s.len(),
            val as nat == le_value(s.subrange(offset + 8 - i, offset + 8)),
        decreases 8 - i,
    {
        // IR integers are little endian
        let byte = 7 - i;
        let ghost tail = s.subrange(offset + 8 - i, offset + 8);
        let ghost wider = s.subrange(offset + 7 - i, offset + 8);
        proof {
            lemma_le_value_bound(tail);
            lemma_pow256_mono(i as nat, 7);
            reveal_with_fuel(pow256, 8);
            assert(wider.drop_first() =~= tail);
            assert(wider[0] == s[offset + byte]);
        }
        let b = output[byte + offset];
        proof {
            lemma_shift_in(val, b);
        }
        val = (val << 8u64) | (b as u64);
        i = i + 1;
    }
    proof {
        lemma_word_fits(s, offset as int);
    }
    val
}

/// The string stored at `offset`: its length, then its bytes, to which a
/// terminating zero byte is added.
pub fn loadstr(output: &[u8], offset: usize) -> (r: IRString)
    requires
        in_bounds(output@, offset as int, 8),
        in_bounds(output@, offset + 8, word_at(output@, offset as int) as int),
    ensures
        r@ == string_model_at(output@, offset as int),
        r.content@.len() == r.length + 1,
        r.content@.last() == 0u8,
{
    let length = load64(output, offset);
    let len = output.len();
    let start = offset + 8;
    let mut content: Vec<u8> = Vec::new();
    let mut i: u64 = 0;
    while i < length
        invariant
            0 <= i <= length,
            length == word_at(output@, offset as int),
            start == offset + 8,
            len == output@.len(),
            in_bounds(output@, start as int, length as int),
            content@ == output@.subrange(start as int, start + i),
        decreases length - i,
    {
        let off: usize = i as usize + start;
        content.push(output[off]);
        i = i + 1;
        assert(content@ =~= output@.subrange(start as int, start + i));
    }
    content.push(0u8);
    IRString { length, content }
}

} // verus!
