//! Variable-length integers: one, two, four or eight bytes, the length given by
//! the two high bits of the first byte, the value big-endian in the rest.

use vstd::prelude::*;

verus! {

/// One more than the largest value that a variable-length integer can hold.
pub const VARINT_LIMIT: u64 = 0x4000_0000_0000_0000;

/// The number of bytes of the integer whose first byte is `first`.
pub open spec fn encoded_len(first: u8) -> nat {
    if first < 0x40 {
        1
    } else if first < 0x80 {
        2
    } else if first < 0xc0 {
        4
    } else {
        8
    }
}

/// The big-endian value of the first `n` bytes of `s`, the two high bits of the
/// first byte left out.
pub open spec fn value_of(s: Seq<u8>, n: nat) -> nat
    decreases n,
{
    if n == 0 {
        0
    } else if n == 1 {
        (s[0] % 0x40) as nat
    } else {
        value_of(s, (n - 1) as nat) * 256 + s[n - 1] as nat
    }
}

/// The integer at the start of `s` and the number of bytes it takes, or `None`
/// where `s` ends before the integer does.
pub open spec fn spec_decode(s: Seq<u8>) -> Option<(u64, nat)> {
    if s.len() == 0 || s.len() < encoded_len(s[0]) {
        None
    } else {
        Some((value_of(s, encoded_len(s[0])) as u64, encoded_len(s[0])))
    }
}

/// The shortest encoding of `v`.
pub open spec fn spec_encode(v: u64) -> Seq<u8>
    recommends
        v < VARINT_LIMIT,
{
    if v < 0x40 {
        seq![v as u8]
    } else if v < 0x4000 {
        seq![(0x40 + v / 0x100) as u8, (v % 0x100) as u8]
    } else if v < 0x4000_0000 {
        seq![
            (0x80 + v / 0x100_0000) as u8,
            (v / 0x1_0000 % 0x100) as u8,
            (v / 0x100 % 0x100) as u8,
            (v % 0x100) as u8,
        ]
    } else {
        seq![
            (0xc0 + v / 0x100_0000_0000_0000) as u8,
            (v / 0x1_0000_0000_0000 % 0x100) as u8,
            (v / 0x100_0000_0000 % 0x100) as u8,
            (v / 0x1_0000_0000 % 0x100) as u8,
            (v / 0x100_0000 % 0x100) as u8,
            (v / 0x1_0000 % 0x100) as u8,
            (v / 0x100 % 0x100) as u8,
            (v % 0x100) as u8,
        ]
    }
}

/// Every decoded value is below the limit.
pub proof fn lemma_value_bound(s: Seq<u8>, n: nat)
    requires
        1 <= n <= 8,
        n <= s.len(),
    ensures
        n == 1 ==> value_of(s, n) < 0x40,
        n == 2 ==> value_of(s, n) < 0x4000,
        n == 3 ==> value_of(s, n) < 0x40_0000,
        n == 4 ==> value_of(s, n) < 0x4000_0000,
        n == 5 ==> value_of(s, n) < 0x40_0000_0000,
        n == 6 ==> value_of(s, n) < 0x4000_0000_0000,
        n == 7 ==> value_of(s, n) < 0x40_0000_0000_0000,
        n == 8 ==> value_of(s, n) < 0x4000_0000_0000_0000,
    decreases n,
{
    if n > 1 {
        lemma_value_bound(s, (n - 1) as nat);
    }
}

/// Reads the integer at the start of `buf`.
pub fn decode(buf: &[u8]) -> (res: Option<(u64, usize)>)
    ensures
        res matches Some((v, n)) ==> spec_decode(buf@) == Some((v, n as nat)) && v < VARINT_LIMIT
            && 1 <= n <= 8 && n <= buf@.len(),
        res is None ==> spec_decode(buf@) is None,
{
    if buf.len() == 0 {
        return None;
    }
    let first: u8 = buf[0];
    let n: usize = if first < 0x40 {
        1
    } else if first < 0x80 {
        2
    } else if first < 0xc0 {
        4
    } else {
        8
    };
    if buf.len() < n {
        return None;
    }
    let mut v: u64 = (first % 0x40) as u64;
    let mut i: usize = 1;
    while i < n
        invariant
            1 <= i <= n <= 8,
            n <= buf@.len(),
            v == value_of(buf@, i as nat),
        decreases n - i,
    {
        proof {
            lemma_value_bound(buf@, i as nat);
        }
        v = v * 256 + buf[i] as u64;
        i = i + 1;
    }
    proof {
        lemma_value_bound(buf@, n as nat);
    }
    Some((v, n))
}

/// Appends the shortest encoding of `v` to `out`.
pub fn encode(v: u64, out: &mut Vec<u8>)
    requires
        v < VARINT_LIMIT,
    ensures
        final(out)@ == old(out)@ + spec_encode(v),
{
    let ghost before = out@;
    if v < 0x40 {
        out.push(v as u8);
    } else if v < 0x4000 {
        out.push((0x40 + v / 0x100) as u8);
        out.push((v % 0x100) as u8);
    } else if v < 0x4000_0000 {
        out.push((0x80 + v / 0x100_0000) as u8);
        out.push((v / 0x1_0000 % 0x100) as u8);
        out.push((v / 0x100 % 0x100) as u8);
        out.push((v % 0x100) as u8);
    } else {
        out.push((0xc0 + v / 0x100_0000_0000_0000) as u8);
        out.push((v / 0x1_0000_0000_0000 % 0x100) as u8);
        out.push((v / 0x100_0000_0000 % 0x100) as u8);
        out.push((v / 0x1_0000_0000 % 0x100) as u8);
        out.push((v / 0x100_0000 % 0x100) as u8);
        out.push((v / 0x1_0000 % 0x100) as u8);
        out.push((v / 0x100 % 0x100) as u8);
        out.push((v % 0x100) as u8);
    }
    assert(out@ =~= before + spec_encode(v));
}

/// The number of bytes that the shortest encoding of `v` takes.
pub fn encoded_size(v: u64) -> (n: usize)
    ensures
        n == spec_encode(v).len(),
        1 <= n <= 8,
{
    if v < 0x40 {
        1
    } else if v < 0x4000 {
        2
    } else if v < 0x4000_0000 {
        4
    } else {
        8
    }
}

/// A number is its quotient by 256, times 256, plus its last base-256 digit,
/// and dividing twice is dividing by the product.
proof fn lemma_digit(x: int, d: int)
    requires
        0 <= x,
        0 < d,
    ensures
        x / d == (x / (d * 256)) * 256 + x / d % 256,
{
    let q = x / d;
    assert(q / 256 == x / (d * 256)) by (nonlinear_arith)
        requires
            0 <= x,
            0 < d,
            q == x / d,
    ;
}

/// The value of the first bytes of `s`, written out.
proof fn lemma_value_unfold(s: Seq<u8>)
    ensures
        value_of(s, 1) == s[0] % 0x40,
        value_of(s, 2) == value_of(s, 1) * 256 + s[1],
        value_of(s, 3) == value_of(s, 2) * 256 + s[2],
        value_of(s, 4) == value_of(s, 3) * 256 + s[3],
        value_of(s, 5) == value_of(s, 4) * 256 + s[4],
        value_of(s, 6) == value_of(s, 5) * 256 + s[5],
        value_of(s, 7) == value_of(s, 6) * 256 + s[6],
        value_of(s, 8) == value_of(s, 7) * 256 + s[7],
{
    reveal_with_fuel(value_of, 2);
}

/// Decoding undoes encoding: an encoded integer, whatever follows it, decodes
/// to the integer and the length of its encoding.
pub proof fn lemma_decode_encode(v: u64, rest: Seq<u8>)
    requires
        v < VARINT_LIMIT,
    ensures
        spec_decode(spec_encode(v) + rest) == Some((v, spec_encode(v).len())),
{
    let e = spec_encode(v);
    let s = e + rest;
    let x = v as int;
    assert(forall|i: int| 0 <= i < e.len() ==> s[i] == e[i]);
    lemma_value_unfold(s);
    if v < 0x40 {
        assert(s[0] == x);
    } else if v < 0x4000 {
        assert(s[0] == 0x40 + x / 0x100);
        assert(s[1] == x % 0x100);
        lemma_digit(x, 1);
    } else if v < 0x4000_0000 {
        assert(s[0] == 0x80 + x / 0x100_0000);
        assert(s[1] == x / 0x1_0000 % 0x100);
        assert(s[2] == x / 0x100 % 0x100);
        assert(s[3] == x % 0x100);
        lemma_digit(x, 0x1_0000);
        lemma_digit(x, 0x100);
        lemma_digit(x, 1);
        assert(value_of(s, 1) == x / 0x100_0000);
        assert(value_of(s, 2) == x / 0x1_0000);
        assert(value_of(s, 3) == x / 0x100);
    } else {
        assert(s[0] == 0xc0 + x / 0x100_0000_0000_0000);
        assert(s[1] == x / 0x1_0000_0000_0000 % 0x100);
        assert(s[2] == x / 0x100_0000_0000 % 0x100);
        assert(s[3] == x / 0x1_0000_0000 % 0x100);
        assert(s[4] == x / 0x100_0000 % 0x100);
        assert(s[5] == x / 0x1_0000 % 0x100);
        assert(s[6] == x / 0x100 % 0x100);
        assert(s[7] == x % 0x100);
        lemma_digit(x, 0x1_0000_0000_0000);
        lemma_digit(x, 0x100_0000_0000);
        lemma_digit(x, 0x1_0000_0000);
        lemma_digit(x, 0x100_0000);
        lemma_digit(x, 0x1_0000);
        lemma_digit(x, 0x100);
        lemma_digit(x, 1);
        assert(value_of(s, 1) == x / 0x100_0000_0000_0000);
        assert(value_of(s, 2) == x / 0x1_0000_0000_0000);
        assert(value_of(s, 3) == x / 0x100_0000_0000);
        assert(value_of(s, 4) == x / 0x1_0000_0000);
        assert(value_of(s, 5) == x / 0x100_0000);
        assert(value_of(s, 6) == x / 0x1_0000);
        assert(value_of(s, 7) == x / 0x100);
    }
}

/// An encoded integer cut short does not decode: more bytes are needed.
pub proof fn lemma_decode_truncated(v: u64, k: int)
    requires
        v < VARINT_LIMIT,
        0 <= k < spec_encode(v).len(),
    ensures
        spec_decode(spec_encode(v).take(k)) is None,
{
    let e = spec_encode(v);
    if k > 0 {
        assert(e.take(k)[0] == e[0]);
        assert(encoded_len(e[0]) == e.len());
    }
}

} // verus!
