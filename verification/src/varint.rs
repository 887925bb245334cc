//! The mathematics of big-endian integers and of the variable-length integer
//! encoding: a two-bit tag in the first byte selects a width of 1, 2, 4 or 8
//! bytes, and the remaining bits hold the value, most significant byte first.

use vstd::prelude::*;

verus! {

/// The largest value a variable-length integer can hold: 2^62 - 1.
pub const MAX_VARINT: u64 = 4_611_686_018_427_387_903;

/// 256 to the power `n`.
pub open spec fn pow256(n: nat) -> nat
    decreases n,
{
    if n == 0 {
        1
    } else {
        256 * pow256((n - 1) as nat)
    }
}

/// The `n` low-order bytes of `v`, most significant first.
pub open spec fn be_bytes(v: nat, n: nat) -> Seq<u8>
    decreases n,
{
    if n == 0 {
        Seq::empty()
    } else {
        be_bytes(v / 256, (n - 1) as nat).push((v % 256) as u8)
    }
}

/// The number that `s` spells when read most significant byte first.
pub open spec fn be_value(s: Seq<u8>) -> nat
    decreases s.len(),
{
    if s.len() == 0 {
        0
    } else {
        be_value(s.drop_last()) * 256 + s.last() as nat
    }
}

/// The width in bytes of the shortest encoding of `v`.
pub open spec fn varint_width(v: u64) -> nat {
    if v <= 63 {
        1
    } else if v <= 16383 {
        2
    } else if v <= 1_073_741_823 {
        4
    } else {
        8
    }
}

/// The two tag bits of an encoding of `n` bytes, placed at the top of an
/// `n`-byte big-endian number.
pub open spec fn varint_prefix(n: nat) -> nat {
    if n == 1 {
        0
    } else if n == 2 {
        0x4000
    } else if n == 4 {
        0x8000_0000
    } else {
        0xC000_0000_0000_0000
    }
}

/// The encoding of `v`: its shortest form, tag bits included.
pub open spec fn varint_bytes(v: u64) -> Seq<u8> {
    be_bytes(v as nat + varint_prefix(varint_width(v)), varint_width(v))
}

/// The width that the first byte of an encoding announces.
pub open spec fn varint_width_of_first(first: u8) -> nat {
    if first < 64 {
        1
    } else if first < 128 {
        2
    } else if first < 192 {
        4
    } else {
        8
    }
}

/// Reads one variable-length integer from the front of `s`: the value and the
/// number of bytes it occupies, or `None` when `s` ends too early.
pub open spec fn parse_varint(s: Seq<u8>) -> Option<(u64, nat)> {
    if s.len() == 0 {
        None
    } else {
        let n = varint_width_of_first(s[0]);
        if s.len() < n {
            None
        } else {
            Some(((be_value(s.subrange(0, n as int)) - varint_prefix(n)) as u64, n))
        }
    }
}

/// The powers of 256 that the encoding uses.
pub proof fn lemma_pow256_values()
    ensures
        pow256(0) == 1,
        pow256(1) == 0x100,
        pow256(2) == 0x1_0000,
        pow256(3) == 0x100_0000,
        pow256(4) == 0x1_0000_0000,
        pow256(7) == 0x100_0000_0000_0000,
        pow256(8) == 0x1_0000_0000_0000_0000,
{
    reveal_with_fuel(pow256, 9);
}

/// `be_bytes(v, n)` has exactly `n` bytes.
pub proof fn lemma_be_bytes_len(v: nat, n: nat)
    ensures
        be_bytes(v, n).len() == n,
    decreases n,
{
    if n > 0 {
        lemma_be_bytes_len(v / 256, (n - 1) as nat);
    }
}

/// Appending a byte multiplies the value by 256 and adds the byte.
pub proof fn lemma_be_value_push(s: Seq<u8>, b: u8)
    ensures
        be_value(s.push(b)) == be_value(s) * 256 + b as nat,
{
    assert(s.push(b).drop_last() =~= s);
}

/// A sequence of `n` bytes spells a number below `256^n`.
pub proof fn lemma_be_value_bound(s: Seq<u8>)
    ensures
        be_value(s) < pow256(s.len()),
    decreases s.len(),
{
    if s.len() > 0 {
        lemma_be_value_bound(s.drop_last());
    }
}

/// Reading back the `n` bytes of a number below `256^n` gives the number.
pub proof fn lemma_be_value_of_bytes(v: nat, n: nat)
    requires
        v < pow256(n),
    ensures
        be_value(be_bytes(v, n)) == v,
    decreases n,
{
    if n > 0 {
        lemma_be_value_of_bytes(v / 256, (n - 1) as nat);
        lemma_be_value_push(be_bytes(v / 256, (n - 1) as nat), (v % 256) as u8);
    }
}

/// Writing out the number that `s` spells, in as many bytes, gives `s` back.
pub proof fn lemma_be_bytes_of_value(s: Seq<u8>)
    ensures
        be_bytes(be_value(s), s.len()) == s,
    decreases s.len(),
{
    if s.len() > 0 {
        lemma_be_bytes_of_value(s.drop_last());
    }
}

/// The first byte carries the most significant digit: the value lies between
/// `s[0] * 256^(n-1)` and the next multiple of `256^(n-1)`.
pub proof fn lemma_be_value_first(s: Seq<u8>)
    requires
        s.len() > 0,
    ensures
        s[0] as nat * pow256((s.len() - 1) as nat) <= be_value(s),
        be_value(s) < (s[0] as nat + 1) * pow256((s.len() - 1) as nat),
    decreases s.len(),
{
    if s.len() == 1 {
        assert(s.drop_last().len() == 0);
        assert(pow256(0) == 1);
        assert(be_value(s) == s[0] as nat);
    } else {
        let t = s.drop_last();
        lemma_be_value_first(t);
        let p = pow256((t.len() - 1) as nat);
        let f = s[0] as nat;
        assert(f * (256 * p) == (f * p) * 256) by (nonlinear_arith);
        assert((f + 1) * (256 * p) == ((f + 1) * p) * 256) by (nonlinear_arith);
    }
}

/// The first byte of `be_bytes(v, n)` is the most significant digit of `v`.
pub proof fn lemma_be_bytes_first(v: nat, n: nat)
    requires
        n > 0,
        v < pow256(n),
    ensures
        be_bytes(v, n).len() == n,
        be_bytes(v, n)[0] as nat == v / pow256((n - 1) as nat),
{
    let s = be_bytes(v, n);
    let p = pow256((n - 1) as nat);
    lemma_be_bytes_len(v, n);
    lemma_be_value_of_bytes(v, n);
    lemma_be_value_first(s);
    lemma_pow256_positive((n - 1) as nat);
    let f = s[0] as nat;
    assert(v / p == f) by (nonlinear_arith)
        requires
            f * p <= v < (f + 1) * p,
            p > 0,
    ;
}

/// Every power of 256 is positive.
pub proof fn lemma_pow256_positive(n: nat)
    ensures
        pow256(n) > 0,
    decreases n,
{
    if n > 0 {
        lemma_pow256_positive((n - 1) as nat);
    }
}

/// The encoding of `v` has the width that `varint_width` gives, and its first
/// byte announces that width.
pub proof fn lemma_varint_bytes_shape(v: u64)
    requires
        v <= MAX_VARINT,
    ensures
        varint_bytes(v).len() == varint_width(v),
        varint_width_of_first(varint_bytes(v)[0]) == varint_width(v),
{
    let n = varint_width(v);
    let x = v as nat + varint_prefix(n);
    lemma_pow256_values();
    lemma_be_bytes_first(x, n);
    let first = varint_bytes(v)[0] as nat;
    if n == 1 {
        assert(first == x / 1);
    } else if n == 2 {
        assert(first == x / 0x100);
    } else if n == 4 {
        assert(first == x / 0x100_0000);
    } else {
        assert(first == x / 0x100_0000_0000_0000);
    }
}

/// Decoding inverts encoding, whatever bytes follow: for every value up to
/// `MAX_VARINT`, parsing its encoding followed by `tail` gives the value back
/// and consumes exactly the encoding.
pub proof fn lemma_varint_round_trip(v: u64, tail: Seq<u8>)
    requires
        v <= MAX_VARINT,
    ensures
        parse_varint(varint_bytes(v) + tail) == Some((v, varint_width(v))),
{
    let n = varint_width(v);
    let x = v as nat + varint_prefix(n);
    let s = varint_bytes(v) + tail;
    lemma_pow256_values();
    lemma_varint_bytes_shape(v);
    lemma_be_value_of_bytes(x, n);
    assert(s.subrange(0, n as int) =~= varint_bytes(v));
}

/// Whatever was parsed is a value that can be encoded again, and occupies
/// 1, 2, 4 or 8 bytes, no more than `s` holds.
pub proof fn lemma_parse_varint_range(s: Seq<u8>)
    requires
        parse_varint(s) is Some,
    ensures
        parse_varint(s)->Some_0.0 <= MAX_VARINT,
        parse_varint(s)->Some_0.1 == varint_width_of_first(s[0]),
        1 <= parse_varint(s)->Some_0.1 <= 8,
        parse_varint(s)->Some_0.1 <= s.len(),
        parse_varint(s)->Some_0.0 + varint_prefix(parse_varint(s)->Some_0.1) == be_value(
            s.subrange(0, parse_varint(s)->Some_0.1 as int),
        ),
{
    let n = varint_width_of_first(s[0]);
    let t = s.subrange(0, n as int);
    let f = s[0] as nat;
    lemma_pow256_values();
    lemma_be_value_first(t);
    assert(t[0] == s[0]);
    let d = be_value(t) - varint_prefix(n);
    assert(parse_varint(s) == Some((d as u64, n)));
    if n == 1 {
        assert(f * 1 <= be_value(t) < (f + 1) * 1);
    } else if n == 2 {
        assert(f * 0x100 <= be_value(t) < (f + 1) * 0x100);
    } else if n == 4 {
        assert(f * 0x100_0000 <= be_value(t) < (f + 1) * 0x100_0000);
    } else {
        assert(f * 0x100_0000_0000_0000 <= be_value(t) < (f + 1) * 0x100_0000_0000_0000);
    }
}

} // verus!
