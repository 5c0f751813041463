//! Characters and digits: reading text one character at a time and writing
//! digits into a `String`.
use vstd::prelude::*;

verus! {

/// The sixteen digits, upper case.
pub open spec fn hex_digits() -> Seq<char> {
    seq!['0', '1', '2', '3', '4', '5', '6', '7', '8', '9', 'A', 'B', 'C', 'D', 'E', 'F']
}

/// The digit for `d`, which is below sixteen.
pub open spec fn hex_char(d: nat) -> char {
    hex_digits()[d as int]
}

/// The value of a digit in base `radix` (ten or sixteen, either case).
pub open spec fn digit_value(c: char, radix: nat) -> Option<nat> {
    let v: Option<nat> = if '0' <= c && c <= '9' {
        Some((c as nat - '0' as nat) as nat)
    } else if 'A' <= c && c <= 'F' {
        Some((c as nat - 'A' as nat + 10) as nat)
    } else if 'a' <= c && c <= 'f' {
        Some((c as nat - 'a' as nat + 10) as nat)
    } else {
        None
    };
    match v {
        Some(d) => if d < radix {
            Some(d)
        } else {
            None
        },
        None => None,
    }
}

/// The value of `c` as a digit in base `radix`.
pub fn digit_of(c: char, radix: u32) -> (r: Option<u32>)
    requires
        radix == 10 || radix == 16,
    ensures
        r is Some <==> digit_value(c, radix as nat) is Some,
        r is Some ==> r->0 as nat == digit_value(c, radix as nat)->0,
{
    let v: Option<u32> = if '0' <= c && c <= '9' {
        Some(c as u32 - '0' as u32)
    } else if 'A' <= c && c <= 'F' {
        Some(c as u32 - 'A' as u32 + 10)
    } else if 'a' <= c && c <= 'f' {
        Some(c as u32 - 'a' as u32 + 10)
    } else {
        None
    };
    match v {
        Some(d) => if d < radix {
            Some(d)
        } else {
            None
        },
        None => None,
    }
}

/// Appends the digit for `d`.
pub fn push_hex_digit(s: &mut String, d: u8)
    requires
        d < 16,
    ensures
        final(s)@ == old(s)@.push(hex_char(d as nat)),
{
    let table = "0123456789ABCDEF";
    proof {
        reveal_strlit("0123456789ABCDEF");
        assert(table@ =~= hex_digits());
    }
    let one = table.substring_char(d as usize, d as usize + 1);
    assert(one@ =~= seq![hex_char(d as nat)]);
    s.append(one);
}

/// The characters of `s`.
pub fn chars_of(s: &str) -> (r: Vec<char>)
    ensures
        r@ == s@,
{
    let n = s.unicode_len();
    let mut out: Vec<char> = Vec::new();
    let mut i: usize = 0;
    while i < n
        invariant
            n == s@.len(),
            i <= n,
            out@ == s@.subrange(0, i as int),
        decreases n - i,
    {
        let c = s.get_char(i);
        out.push(c);
        i = i + 1;
        assert(out@ =~= s@.subrange(0, i as int));
    }
    assert(out@ =~= s@);
    out
}

/// The decimal digits of `n`, most significant first, without leading
/// zeros (`0` has the one digit `0`).
pub open spec fn digit_seq(n: nat) -> Seq<u8>
    decreases n,
{
    if n < 10 {
        seq![n as u8]
    } else {
        digit_seq(n / 10).push((n % 10) as u8)
    }
}

/// Digits written as characters.
pub open spec fn digits_text(d: Seq<u8>) -> Seq<char> {
    Seq::new(d.len(), |i: int| hex_char(d[i] as nat))
}

/// `n` written in decimal.
pub open spec fn decimal_text(n: nat) -> Seq<char> {
    digits_text(digit_seq(n))
}

pub proof fn lemma_digit_seq_digits(n: nat)
    ensures
        forall|i: int| 0 <= i < digit_seq(n).len() ==> digit_seq(n)[i] < 10,
        digit_seq(n).len() >= 1,
    decreases n,
{
    if n >= 10 {
        lemma_digit_seq_digits(n / 10);
    }
}

/// The decimal digits of `n`.
pub fn decimal_digits(n: u64) -> (r: Vec<u8>)
    ensures
        r@ == digit_seq(n as nat),
    decreases n,
{
    if n < 10 {
        let mut v: Vec<u8> = Vec::new();
        v.push(n as u8);
        assert(v@ =~= seq![n as u8]);
        v
    } else {
        let mut v = decimal_digits(n / 10);
        v.push((n % 10) as u8);
        v
    }
}

/// Appends digits as characters.
pub fn push_digits(s: &mut String, d: &[u8])
    requires
        forall|i: int| 0 <= i < d@.len() ==> d@[i] < 10,
    ensures
        final(s)@ == old(s)@ + digits_text(d@),
{
    let mut i: usize = 0;
    while i < d.len()
        invariant
            i <= d@.len(),
            forall|j: int| 0 <= j < d@.len() ==> d@[j] < 10,
            s@ == old(s)@ + digits_text(d@.subrange(0, i as int)),
        decreases d@.len() - i,
    {
        push_hex_digit(s, d[i]);
        i = i + 1;
        assert(s@ =~= old(s)@ + digits_text(d@.subrange(0, i as int)));
    }
    assert(d@.subrange(0, d@.len() as int) =~= d@);
}

/// Appends `n` written in decimal.
pub fn push_decimal(s: &mut String, n: u64)
    ensures
        final(s)@ == old(s)@ + decimal_text(n as nat),
{
    let d = decimal_digits(n);
    proof {
        lemma_digit_seq_digits(n as nat);
    }
    push_digits(s, d.as_slice());
}

} // verus!
