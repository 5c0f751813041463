//! Big-endian integer codec and the order-preserving transform for signed
//! values.
use vstd::prelude::*;

verus! {

/// `256` raised to `n`.
pub open spec fn pow256(n: nat) -> nat
    decreases n,
{
    if n == 0 {
        1
    } else {
        256 * pow256((n - 1) as nat)
    }
}

/// The unsigned value of a big-endian byte sequence.
pub open spec fn be_value(s: Seq<u8>) -> nat
    decreases s.len(),
{
    if s.len() == 0 {
        0
    } else {
        (be_value(s.drop_last()) * 256 + s.last()) as nat
    }
}

/// The `n` low-order bytes of `x`, most significant first.
pub open spec fn be_bytes(x: nat, n: nat) -> Seq<u8>
    decreases n,
{
    if n == 0 {
        seq![]
    } else {
        be_bytes(x / 256, (n - 1) as nat).push((x % 256) as u8)
    }
}

/// `s` sorts strictly before `t` when the two are compared byte by byte.
pub open spec fn lex_lt(s: Seq<u8>, t: Seq<u8>) -> bool {
    exists|i: int|
        0 <= i < s.len() && i < t.len() && #[trigger] s.subrange(0, i) == t.subrange(0, i) && s[i]
            < t[i]
}

/// The bytes stored for a signed value of `n` bytes: the big-endian two's
/// complement form with the sign bit flipped, which is the big-endian form
/// of the value moved up by half the range.
pub open spec fn signed_sortable_bytes(v: int, n: nat) -> Seq<u8> {
    be_bytes((v + pow256(n) / 2) as nat, n)
}

/// The big-endian two's complement bytes of a signed value of `n` bytes.
pub open spec fn twos_complement_bytes(v: int, n: nat) -> Seq<u8> {
    if v >= 0 {
        be_bytes(v as nat, n)
    } else {
        be_bytes((v + pow256(n)) as nat, n)
    }
}

/// The signed value of `n` big-endian two's complement bytes.
pub open spec fn twos_complement_value(s: Seq<u8>) -> int {
    if be_value(s) >= pow256(s.len()) / 2 {
        be_value(s) - pow256(s.len())
    } else {
        be_value(s) as int
    }
}

pub proof fn lemma_pow256_values()
    ensures
        pow256(0) == 1,
        pow256(1) == 0x100,
        pow256(2) == 0x1_0000,
        pow256(4) == 0x1_0000_0000,
        pow256(8) == 0x1_0000_0000_0000_0000,
{
    reveal_with_fuel(pow256, 9);
}

pub proof fn lemma_pow256_positive(n: nat)
    ensures
        pow256(n) >= 1,
    decreases n,
{
    if n > 0 {
        lemma_pow256_positive((n - 1) as nat);
    }
}

pub proof fn lemma_pow256_even(n: nat)
    requires
        n >= 1,
    ensures
        pow256(n) % 2 == 0,
        pow256(n) / 2 * 2 == pow256(n),
{
    lemma_pow256_positive((n - 1) as nat);
}

pub proof fn lemma_be_bytes_len(x: nat, n: nat)
    ensures
        be_bytes(x, n).len() == n,
    decreases n,
{
    if n > 0 {
        lemma_be_bytes_len(x / 256, (n - 1) as nat);
    }
}

pub proof fn lemma_be_value_bound(s: Seq<u8>)
    ensures
        be_value(s) < pow256(s.len()),
    decreases s.len(),
{
    if s.len() > 0 {
        let p = s.drop_last();
        lemma_be_value_bound(p);
        let a = be_value(p);
        let b = pow256(p.len());
        assert(a * 256 + 255 < b * 256) by (nonlinear_arith)
            requires
                a < b,
        ;
    }
}

/// Decoding what was encoded gives the value back.
pub proof fn lemma_be_round_trip(x: nat, n: nat)
    requires
        x < pow256(n),
    ensures
        be_value(be_bytes(x, n)) == x,
        be_bytes(x, n).len() == n,
    decreases n,
{
    lemma_be_bytes_len(x, n);
    if n > 0 {
        let m = pow256((n - 1) as nat);
        assert(x / 256 < m) by (nonlinear_arith)
            requires
                x < 256 * m,
        ;
        lemma_be_round_trip(x / 256, (n - 1) as nat);
        let s = be_bytes(x, n);
        assert(s.drop_last() == be_bytes(x / 256, (n - 1) as nat));
        assert((x / 256) * 256 + x % 256 == x) by (nonlinear_arith);
    }
}

/// Encoding what was decoded gives the bytes back.
pub proof fn lemma_be_bytes_of_value(s: Seq<u8>)
    ensures
        be_bytes(be_value(s), s.len()) == s,
    decreases s.len(),
{
    if s.len() > 0 {
        let p = s.drop_last();
        lemma_be_bytes_of_value(p);
        let a = be_value(p);
        let l = s.last();
        assert((a * 256 + l) / 256 == a && (a * 256 + l) % 256 == l) by (nonlinear_arith)
            requires
                0 <= l < 256,
        ;
        assert(be_bytes(be_value(s), s.len()) =~= s);
    }
}

/// A smaller value of the same width encodes to a byte sequence that sorts
/// first.
pub proof fn lemma_be_order(s: Seq<u8>, t: Seq<u8>)
    requires
        s.len() == t.len(),
        be_value(s) < be_value(t),
    ensures
        lex_lt(s, t),
    decreases s.len(),
{
    let n = s.len() - 1;
    let ps = s.drop_last();
    let pt = t.drop_last();
    let a = be_value(ps);
    let b = be_value(pt);
    if a < b {
        lemma_be_order(ps, pt);
        let i = choose|i: int|
            0 <= i < ps.len() && i < pt.len() && #[trigger] ps.subrange(0, i) == pt.subrange(0, i)
                && ps[i] < pt[i];
        assert(s.subrange(0, i) == ps.subrange(0, i));
        assert(t.subrange(0, i) == pt.subrange(0, i));
        assert(s[i] == ps[i] && t[i] == pt[i]);
    } else if a == b {
        lemma_be_bytes_of_value(ps);
        lemma_be_bytes_of_value(pt);
        assert(s.subrange(0, n) == ps);
        assert(t.subrange(0, n) == pt);
        assert(s.subrange(0, n) == t.subrange(0, n));
    } else {
        let x = s.last();
        let y = t.last();
        assert(a * 256 + x >= b * 256 + y) by (nonlinear_arith)
            requires
                a > b,
                0 <= x < 256,
                0 <= y < 256,
        ;
    }
}

/// The stored form of a signed value decodes back to it.
pub proof fn lemma_signed_round_trip(v: int, n: nat)
    requires
        n >= 1,
        -(pow256(n) / 2) <= v < pow256(n) / 2,
    ensures
        be_value(signed_sortable_bytes(v, n)) - pow256(n) / 2 == v,
        signed_sortable_bytes(v, n).len() == n,
{
    lemma_pow256_even(n);
    lemma_be_round_trip((v + pow256(n) / 2) as nat, n);
}

/// Two's complement bytes decode back to the value they were made from.
pub proof fn lemma_twos_complement_round_trip(v: int, n: nat)
    requires
        n >= 1,
        -(pow256(n) / 2) <= v < pow256(n) / 2,
    ensures
        twos_complement_value(twos_complement_bytes(v, n)) == v,
        twos_complement_bytes(v, n).len() == n,
{
    lemma_pow256_even(n);
    if v >= 0 {
        lemma_be_round_trip(v as nat, n);
    } else {
        lemma_be_round_trip((v + pow256(n)) as nat, n);
    }
}

/// Order preservation: for signed values `a < b` of one width, the stored
/// bytes of `a` sort before those of `b` under plain byte comparison.
pub proof fn law_signed_order_preserved(a: int, b: int, n: nat)
    requires
        n >= 1,
        -(pow256(n) / 2) <= a < b,
        b < pow256(n) / 2,
    ensures
        lex_lt(signed_sortable_bytes(a, n), signed_sortable_bytes(b, n)),
{
    lemma_signed_round_trip(a, n);
    lemma_signed_round_trip(b, n);
    lemma_be_order(signed_sortable_bytes(a, n), signed_sortable_bytes(b, n));
}

/// Order preservation for unsigned values: for `a < b` of one width, the
/// big-endian bytes of `a` sort before those of `b`.
pub proof fn law_unsigned_order_preserved(a: nat, b: nat, n: nat)
    requires
        a < b < pow256(n),
    ensures
        lex_lt(be_bytes(a, n), be_bytes(b, n)),
{
    lemma_be_round_trip(a, n);
    lemma_be_round_trip(b, n);
    lemma_be_order(be_bytes(a, n), be_bytes(b, n));
}

/// Writes the `n` low-order bytes of `x`, most significant first.
pub fn encode_be(x: u64, n: usize) -> (r: Vec<u8>)
    ensures
        r@ == be_bytes(x as nat, n as nat),
    decreases n,
{
    if n == 0 {
        Vec::new()
    } else {
        let mut v = encode_be(x / 256, n - 1);
        v.push((x % 256) as u8);
        v
    }
}

/// Reads a big-endian unsigned value of at most eight bytes.
pub fn decode_be(s: &[u8]) -> (r: u64)
    requires
        s@.len() <= 8,
    ensures
        r as nat == be_value(s@),
{
    let mut acc: u64 = 0;
    let mut i: usize = 0;
    proof {
        lemma_pow256_values();
    }
    while i < s.len()
        invariant
            0 <= i <= s@.len() <= 8,
            acc as nat == be_value(s@.subrange(0, i as int)),
            pow256(8) == 0x1_0000_0000_0000_0000,
        decreases s@.len() - i,
    {
        let ghost prefix = s@.subrange(0, i as int);
        proof {
            lemma_be_value_bound(prefix);
            lemma_pow256_mono(i as nat, 7);
            let next = s@.subrange(0, i + 1);
            assert(next.drop_last() == prefix);
            let p = pow256(7);
            assert(pow256(8) == 256 * p);
            assert(acc * 256 + 255 < 0x1_0000_0000_0000_0000) by (nonlinear_arith)
                requires
                    acc < p,
                    256 * p == 0x1_0000_0000_0000_0000,
            ;
        }
        acc = acc * 256 + s[i] as u64;
        i = i + 1;
    }
    assert(s@.subrange(0, s@.len() as int) == s@);
    acc
}

pub proof fn lemma_pow256_mono(a: nat, b: nat)
    requires
        a <= b,
    ensures
        pow256(a) <= pow256(b),
    decreases b,
{
    if a < b {
        lemma_pow256_mono(a, (b - 1) as nat);
        lemma_pow256_positive((b - 1) as nat);
    }
}

} // verus!
