//! Reading back what was written: the IDL text and the JSON document of a
//! compiled node compile to that same node.
use vstd::prelude::*;
use crate::compile::{NumberView, digits_value, all_digits};
use crate::emit::{strip_zeros, padded_digits, int_text, dec_text};
use crate::lex::{
    digit_values, digits_end, number_at, at_char, lemma_digits_end, is_blank, blank_end,
    is_name_char, name_at, lemma_name_end, lemma_blank_end, quoted_at, lemma_quote_end,
};
use crate::compile::{DeclView, key_of_name, compile_decl};
use crate::emit::{short_name, long_name, idl_text, json_text, default_text};
use crate::schema::{NP_TypeKeys, NP_Parsed_Schema, NP_Schema_Data};
use crate::error::NP_Error;
use crate::idl::{idl_declaration, idl_members};
use crate::json::{doc_declaration, doc_members, doc_fields, ScalarView};
use crate::text::{
    hex_char, hex_digits, digit_value, digit_seq, digits_text, decimal_text, lemma_digit_seq_digits,
};

verus! {

/// A digit written as a character reads back as that digit.
pub proof fn lemma_digit_char(d: nat)
    requires
        d < 10,
    ensures
        digit_value(hex_char(d), 10) == Some(d),
        hex_char(d) != '.' && hex_char(d) != '-' && !is_blank(hex_char(d)),
{
    assert(hex_digits()[d as int] == hex_char(d));
    if d == 0 {
        assert(hex_char(d) == '0');
    } else if d == 1 {
        assert(hex_char(d) == '1');
    } else if d == 2 {
        assert(hex_char(d) == '2');
    } else if d == 3 {
        assert(hex_char(d) == '3');
    } else if d == 4 {
        assert(hex_char(d) == '4');
    } else if d == 5 {
        assert(hex_char(d) == '5');
    } else if d == 6 {
        assert(hex_char(d) == '6');
    } else if d == 7 {
        assert(hex_char(d) == '7');
    } else if d == 8 {
        assert(hex_char(d) == '8');
    } else {
        assert(hex_char(d) == '9');
    }
}

/// The decimal digits of `n` are worth `n`.
pub proof fn lemma_digit_seq_value(n: nat)
    ensures
        digits_value(digit_seq(n)) == n,
    decreases n,
{
    if n >= 10 {
        lemma_digit_seq_value(n / 10);
        let d = digit_seq(n);
        assert(d.drop_last() == digit_seq(n / 10));
        assert(d.last() == (n % 10) as u8);
        assert(((n % 10) as u8) as nat == n % 10);
        assert((n / 10) * 10 + n % 10 == n);
        assert(digits_value(d) == digits_value(d.drop_last()) * 10 + d.last());
    } else {
        let d = digit_seq(n);
        assert(d.drop_last() =~= Seq::<u8>::empty());
        assert(d.last() == n as u8);
        assert((n as u8) as nat == n);
        assert(digits_value(d) == digits_value(d.drop_last()) * 10 + d.last());
    }
}

/// Leading zeros add nothing.
pub proof fn lemma_leading_zeros(k: nat, d: Seq<u8>)
    ensures
        digits_value(Seq::new(k, |i: int| 0u8) + d) == digits_value(d),
    decreases d.len(),
{
    let z = Seq::new(k, |i: int| 0u8);
    if d.len() == 0 {
        assert(z + d =~= z);
        lemma_zeros_value(k);
    } else {
        lemma_leading_zeros(k, d.drop_last());
        assert((z + d).drop_last() =~= z + d.drop_last());
    }
}

proof fn lemma_zeros_value(k: nat)
    ensures
        digits_value(Seq::new(k, |i: int| 0u8)) == 0,
    decreases k,
{
    if k > 0 {
        lemma_zeros_value((k - 1) as nat);
        assert(Seq::new(k, |i: int| 0u8).drop_last() =~= Seq::new((k - 1) as nat, |i: int| 0u8));
    }
}

/// Padding the stripped digits with zeros back to their length restores
/// them.
pub proof fn lemma_strip_pad(x: Seq<u8>)
    ensures
        strip_zeros(x).len() <= x.len(),
        Seq::new(
            x.len(),
            |i: int|
                if i < strip_zeros(x).len() {
                    strip_zeros(x)[i]
                } else {
                    0u8
                },
        ) == x,
    decreases x.len(),
{
    let f = strip_zeros(x);
    if x.len() > 0 && x.last() == 0 {
        lemma_strip_pad(x.drop_last());
        let g = strip_zeros(x.drop_last());
        assert(f == g);
        let lhs = Seq::new(
            x.len(),
            |i: int|
                if i < f.len() {
                    f[i]
                } else {
                    0u8
                },
        );
        let inner = Seq::new(
            x.drop_last().len(),
            |i: int|
                if i < g.len() {
                    g[i]
                } else {
                    0u8
                },
        );
        assert forall|i: int| 0 <= i < x.len() implies lhs[i] == x[i] by {
            if i < x.len() - 1 {
                assert(inner[i] == x.drop_last()[i]);
            }
        }
        assert(lhs =~= x);
    } else {
        assert(Seq::new(
            x.len(),
            |i: int|
                if i < f.len() {
                    f[i]
                } else {
                    0u8
                },
        ) =~= x);
    }
}

/// The stripped digits are digits.
pub proof fn lemma_strip_prefix(x: Seq<u8>)
    ensures
        strip_zeros(x) =~= x.subrange(0, strip_zeros(x).len() as int),
        strip_zeros(x).len() <= x.len(),
    decreases x.len(),
{
    if x.len() > 0 && x.last() == 0 {
        lemma_strip_prefix(x.drop_last());
    }
}

/// Digits written as characters, then a character that is no digit (or
/// nothing), read back as those digits.
pub proof fn lemma_digits_read(s: Seq<char>, k: int, d: Seq<u8>)
    requires
        0 <= k,
        k + d.len() <= s.len(),
        all_digits(d),
        s.subrange(k, k + d.len()) == digits_text(d),
        k + d.len() < s.len() ==> digit_value(s[k + d.len()], 10) is None,
    ensures
        digits_end(s, k) == k + d.len(),
        digit_values(s, k, k + d.len()) == d,
{
    assert forall|t: int| k <= t < k + d.len() implies digit_value(#[trigger] s[t], 10) is Some
        && digit_value(s[t], 10) == Some(d[t - k] as nat) by {
        assert(s[t] == s.subrange(k, k + d.len())[t - k]);
        lemma_digit_char(d[t - k] as nat);
    }
    lemma_digits_end(s, k, k + d.len());
    assert forall|t: int| 0 <= t < d.len() implies digit_values(s, k, k + d.len())[t] == d[t] by {
        assert(digit_value(s[k + t], 10) == Some(d[t] as nat));
    }
    assert(digit_values(s, k, k + d.len()) =~= d);
}

/// A number written with a sign, whole digits, and a point with fraction
/// digits where the fraction is not empty.
pub open spec fn number_text(neg: bool, w: Seq<u8>, f: Seq<u8>) -> Seq<char> {
    (if neg {
        seq!['-']
    } else {
        seq![]
    }) + digits_text(w) + (if f.len() == 0 {
        seq![]
    } else {
        seq!['.'] + digits_text(f)
    })
}

/// A written number, followed by no digit and no point, reads back as the
/// number.
pub proof fn lemma_number_read(s: Seq<char>, i: int, neg: bool, w: Seq<u8>, f: Seq<u8>)
    requires
        0 <= i,
        i + number_text(neg, w, f).len() <= s.len(),
        s.subrange(i, i + number_text(neg, w, f).len()) == number_text(neg, w, f),
        w.len() >= 1,
        all_digits(w),
        all_digits(f),
        i + number_text(neg, w, f).len() < s.len() ==> digit_value(
            s[i + number_text(neg, w, f).len()],
            10,
        ) is None && s[i + number_text(neg, w, f).len()] != '.',
    ensures
        number_at(s, i) == Some(
            (
                NumberView { negative: neg, whole: w, point: f.len() > 0, fraction: f },
                i + number_text(neg, w, f).len(),
            ),
        ),
{
    let t = number_text(neg, w, f);
    let sign: Seq<char> = if neg {
        seq!['-']
    } else {
        seq![]
    };
    let k = i + sign.len();
    let e1 = k + w.len();
    assert(digits_text(w).len() == w.len());
    assert(digits_text(f).len() == f.len());
    assert forall|t2: int| 0 <= t2 < w.len() implies s[k + t2] == digits_text(w)[t2] by {
        assert(s[k + t2] == t[sign.len() + t2]);
    }
    assert(s.subrange(k, e1) =~= digits_text(w));
    lemma_digit_char(w[0] as nat);
    if neg {
        assert(s[i] == t[0]);
        assert(at_char(s, i, '-'));
    } else {
        assert(s[i] == t[0]);
        assert(t[0] == digits_text(w)[0]);
    }
    if f.len() == 0 {
        assert(t.len() == sign.len() + w.len());
        if e1 < s.len() {
            assert(!at_char(s, e1, '.'));
        }
        lemma_digits_read(s, k, w);
        assert(at_char(s, i, '-') == neg);
        assert(digits_end(s, k) == e1);
        assert(e1 == i + t.len());
        assert(f =~= Seq::<u8>::empty());
    } else {
        assert(s[e1] == t[(sign.len() + w.len()) as int]);
        assert(s[e1] == '.');
        lemma_digit_char(f[0] as nat);
        lemma_digits_read(s, k, w);
        assert forall|t2: int| 0 <= t2 < f.len() implies s[e1 + 1 + t2] == digits_text(f)[t2] by {
            assert(s[e1 + 1 + t2] == t[sign.len() + w.len() + 1 + t2]);
        }
        assert(s.subrange(e1 + 1, e1 + 1 + f.len()) =~= digits_text(f));
        lemma_digits_read(s, e1 + 1, f);
        assert(at_char(s, i, '-') == neg);
        assert(digits_end(s, k) == e1);
        assert(at_char(s, e1, '.'));
        assert(e1 + 1 + f.len() == i + t.len());
    }
}

/// The magnitude of `m`.
pub open spec fn magnitude_of(m: int) -> nat {
    if m < 0 {
        (-m) as nat
    } else {
        m as nat
    }
}

/// The whole digits in the text of `m / 10^e`.
pub open spec fn dec_whole(m: int, e: nat) -> Seq<u8> {
    let p = padded_digits(magnitude_of(m), e);
    p.subrange(0, p.len() - e)
}

/// The fraction digits in the text of `m / 10^e`.
pub open spec fn dec_fraction(m: int, e: nat) -> Seq<u8> {
    let p = padded_digits(magnitude_of(m), e);
    strip_zeros(p.subrange(p.len() - e, p.len() as int))
}

/// A whole number's text is a number with its digits and sign, worth it.
pub proof fn lemma_int_text(v: int)
    ensures
        int_text(v) == number_text(v < 0, digit_seq(magnitude_of(v)), seq![]),
        (NumberView {
            negative: v < 0,
            whole: digit_seq(magnitude_of(v)),
            point: false,
            fraction: seq![],
        }).value_at(0) == v,
        digit_seq(magnitude_of(v)).len() >= 1,
        all_digits(digit_seq(magnitude_of(v))),
{
    let d = digit_seq(magnitude_of(v));
    lemma_digit_seq_digits(magnitude_of(v));
    lemma_digit_seq_value(magnitude_of(v));
    let n = NumberView { negative: v < 0, whole: d, point: false, fraction: seq![] };
    assert(n.scaled_digits(0) =~= d);
    assert(int_text(v) =~= number_text(v < 0, d, seq![]));
}

/// A decimal's text is a number whose digits, read at its exponent, are
/// worth its mantissa.
pub proof fn lemma_dec_text(m: int, e: nat)
    ensures
        dec_text(m, e) == number_text(m < 0, dec_whole(m, e), dec_fraction(m, e)),
        (NumberView {
            negative: m < 0,
            whole: dec_whole(m, e),
            point: dec_fraction(m, e).len() > 0,
            fraction: dec_fraction(m, e),
        }).value_at(e) == m,
        dec_whole(m, e).len() >= 1,
        all_digits(dec_whole(m, e)),
        all_digits(dec_fraction(m, e)),
{
    let mag = magnitude_of(m);
    let d = digit_seq(mag);
    lemma_digit_seq_digits(mag);
    lemma_digit_seq_value(mag);
    let p = padded_digits(mag, e);
    let w = dec_whole(m, e);
    let x = p.subrange(p.len() - e, p.len() as int);
    let f = dec_fraction(m, e);
    assert(p.len() >= e + 1);
    if d.len() < e + 1 {
        lemma_leading_zeros((e + 1 - d.len()) as nat, d);
    }
    assert(digits_value(p) == mag);
    assert(all_digits(p));
    lemma_strip_pad(x);
    lemma_strip_prefix(x);
    let n = NumberView { negative: m < 0, whole: w, point: f.len() > 0, fraction: f };
    assert(n.scaled_digits(e) =~= p);
    assert(dec_text(m, e) =~= number_text(m < 0, w, f));
    assert(all_digits(f)) by {
        assert forall|i: int| 0 <= i < f.len() implies f[i] < 10 by {
            assert(f[i] == x[i]);
        }
    }
}

/// A name of one or more name characters.
pub open spec fn is_name(t: Seq<char>) -> bool {
    t.len() >= 1 && forall|i: int| 0 <= i < t.len() ==> is_name_char(#[trigger] t[i])
}

/// A name followed by `(` reads as that name.
proof fn lemma_name_then_paren(s: Seq<char>, t: Seq<char>)
    requires
        is_name(t),
        t.len() < s.len(),
        s.subrange(0, t.len() as int) == t,
        s[t.len() as int] == '(',
    ensures
        blank_end(s, 0) == 0,
        name_at(s, 0) == Some((t, t.len() as int)),
        blank_end(s, t.len() as int) == t.len(),
{
    assert forall|k: int| 0 <= k < t.len() implies is_name_char(s[k]) by {
        assert(s[k] == t[k]);
    }
    assert(s[0] == t[0]);
    lemma_name_end(s, 0, t.len() as int);
    assert(s.subrange(0, t.len() as int) == t);
}

/// `name()` reads as the name with no arguments.
pub proof fn lemma_idl_no_arguments(t: Seq<char>)
    requires
        is_name(t),
    ensures
        idl_declaration(t + "()"@) == Ok::<DeclView, NP_Error>(
            DeclView { kind: t, exp: None, default: None },
        ),
{
    reveal_strlit("()");
    let s = t + "()"@;
    let n = t.len() as int;
    assert(s.subrange(0, n) =~= t);
    assert(s[n] == '(');
    assert(s[n + 1] == ')');
    lemma_name_then_paren(s, t);
    assert(blank_end(s, n + 1) == n + 1);
    assert(blank_end(s, n + 2) == n + 2);
}

/// One `key: number` pair at `i`, followed by `,` or `}`.
proof fn lemma_idl_member(
    s: Seq<char>,
    i: int,
    key: Seq<char>,
    neg: bool,
    w: Seq<u8>,
    f: Seq<u8>,
    exp: Option<NumberView>,
    default: Option<NumberView>,
)
    requires
        0 <= i,
        is_name(key),
        i + key.len() + 2 + number_text(neg, w, f).len() < s.len(),
        s.subrange(i, i + key.len()) == key,
        s[i + key.len()] == ':',
        s[i + key.len() + 1] == ' ',
        s.subrange(i + key.len() + 2, i + key.len() + 2 + number_text(neg, w, f).len())
            == number_text(neg, w, f),
        w.len() >= 1,
        all_digits(w),
        all_digits(f),
        s[i + key.len() + 2 + number_text(neg, w, f).len()] == ',' || s[i + key.len() + 2
            + number_text(neg, w, f).len()] == '}',
    ensures
        ({
            let after = i + key.len() + 2 + number_text(neg, w, f).len();
            let v = Some(NumberView { negative: neg, whole: w, point: f.len() > 0, fraction: f });
            let exp2 = if key == "exp"@ && v is Some {
                v
            } else {
                exp
            };
            let default2 = if key == "default"@ && v is Some {
                v
            } else {
                default
            };
            if s[after] == '}' {
                idl_members(s, i, exp, default) == Ok::<
                    (Option<NumberView>, Option<NumberView>, int),
                    NP_Error,
                >((exp2, default2, after + 1))
            } else {
                blank_end(s, after + 1) > i && idl_members(s, i, exp, default) == idl_members(
                    s,
                    blank_end(s, after + 1),
                    exp2,
                    default2,
                )
            }
        }),
{
    let kl = key.len() as int;
    let t = number_text(neg, w, f);
    let after = i + kl + 2 + t.len();
    assert forall|k: int| i <= k < i + kl implies is_name_char(s[k]) by {
        assert(s[k] == s.subrange(i, i + kl)[k - i]);
    }
    assert(s[i] == key[0]);
    lemma_name_end(s, i, i + kl);
    assert(name_at(s, i) == Some((key, i + kl)));
    assert(blank_end(s, i + kl) == i + kl);
    assert(s[i + kl + 2] == t[0]);
    lemma_digit_char(w[0] as nat);
    if neg {
        assert(t[0] == '-');
    } else {
        assert(t[0] == digits_text(w)[0]);
    }
    lemma_blank_end(s, i + kl + 1, i + kl + 2);
    lemma_number_read(s, i + kl + 2, neg, w, f);
    assert(!at_char(s, i + kl + 2, '"'));
    assert(blank_end(s, after) == after);
    if s[after] == ',' {
        let next = blank_end(s, after + 1);
        assert(next >= after + 1) by {
            lemma_blank_end_ge(s, after + 1);
        }
    }
}

proof fn lemma_blank_end_ge(s: Seq<char>, i: int)
    requires
        0 <= i <= s.len(),
    ensures
        i <= blank_end(s, i) <= s.len(),
    decreases s.len() - i,
{
    if i < s.len() && is_blank(s[i]) {
        lemma_blank_end_ge(s, i + 1);
    }
}

proof fn lemma_keys()
    ensures
        is_name("default"@),
        is_name("exp"@),
        "default"@ != "exp"@,
        "exp"@.len() == 3,
        "default"@.len() == 7,
{
    reveal_strlit("default");
    reveal_strlit("exp");
    assert("default"@.len() != "exp"@.len());
}

/// `name({default: number})` reads as the name with that default.
pub proof fn lemma_idl_default(t: Seq<char>, neg: bool, w: Seq<u8>, f: Seq<u8>)
    requires
        is_name(t),
        w.len() >= 1,
        all_digits(w),
        all_digits(f),
    ensures
        idl_declaration(t + "({default: "@ + number_text(neg, w, f) + "})"@) == Ok::<
            DeclView,
            NP_Error,
        >(
            DeclView {
                kind: t,
                exp: None,
                default: Some(
                    NumberView { negative: neg, whole: w, point: f.len() > 0, fraction: f },
                ),
            },
        ),
{
    reveal_strlit("({default: ");
    reveal_strlit("})");
    lemma_keys();
    reveal_strlit("default");
    let x = number_text(neg, w, f);
    let s = t + "({default: "@ + x + "})"@;
    let n = t.len() as int;
    let a = n + 11 + x.len();
    assert(s.subrange(0, n) =~= t);
    assert(s[n] == '(');
    assert(s[n + 1] == '{');
    lemma_name_then_paren(s, t);
    assert(s.subrange(n + 2, n + 9) =~= "default"@);
    assert(s[n + 9] == ':');
    assert(s[n + 10] == ' ');
    assert(s.subrange(n + 11, a) =~= x);
    assert(s[a] == '}');
    assert(s[a + 1] == ')');
    assert(s.len() == a + 2);
    lemma_idl_member(s, n + 2, "default"@, neg, w, f, None, None);
    assert(blank_end(s, n + 1) == n + 1);
    assert(blank_end(s, n + 2) == n + 2);
    assert(blank_end(s, a + 1) == a + 1);
    assert(blank_end(s, a + 2) == a + 2);
}

/// `name({exp: e})` reads as the name with that exponent.
pub proof fn lemma_idl_exp(t: Seq<char>, e: nat)
    requires
        is_name(t),
    ensures
        idl_declaration(t + "({exp: "@ + number_text(false, digit_seq(e), seq![]) + "})"@) == Ok::<
            DeclView,
            NP_Error,
        >(
            DeclView {
                kind: t,
                exp: Some(
                    NumberView { negative: false, whole: digit_seq(e), point: false, fraction: seq![] },
                ),
                default: None,
            },
        ),
{
    reveal_strlit("({exp: ");
    reveal_strlit("})");
    lemma_keys();
    reveal_strlit("exp");
    lemma_digit_seq_digits(e);
    let x = number_text(false, digit_seq(e), seq![]);
    let s = t + "({exp: "@ + x + "})"@;
    let n = t.len() as int;
    let a = n + 7 + x.len();
    assert(s.subrange(0, n) =~= t);
    assert(s[n] == '(');
    assert(s[n + 1] == '{');
    lemma_name_then_paren(s, t);
    assert(s.subrange(n + 2, n + 5) =~= "exp"@);
    assert(s[n + 5] == ':');
    assert(s[n + 6] == ' ');
    assert(s.subrange(n + 7, a) =~= x);
    assert(s[a] == '}');
    assert(s[a + 1] == ')');
    assert(s.len() == a + 2);
    lemma_idl_member(s, n + 2, "exp"@, false, digit_seq(e), seq![], None, None);
    assert(blank_end(s, n + 1) == n + 1);
    assert(blank_end(s, n + 2) == n + 2);
    assert(blank_end(s, a + 1) == a + 1);
    assert(blank_end(s, a + 2) == a + 2);
}

/// `name({exp: e, default: number})` reads as the name with that exponent
/// and that default.
#[verifier::spinoff_prover]
#[verifier::rlimit(60)]
pub proof fn lemma_idl_exp_default(t: Seq<char>, e: nat, neg: bool, w: Seq<u8>, f: Seq<u8>)
    requires
        is_name(t),
        w.len() >= 1,
        all_digits(w),
        all_digits(f),
    ensures
        idl_declaration(
            t + "({exp: "@ + number_text(false, digit_seq(e), seq![]) + ", default: "@
                + number_text(neg, w, f) + "})"@,
        ) == Ok::<DeclView, NP_Error>(
            DeclView {
                kind: t,
                exp: Some(
                    NumberView { negative: false, whole: digit_seq(e), point: false, fraction: seq![] },
                ),
                default: Some(
                    NumberView { negative: neg, whole: w, point: f.len() > 0, fraction: f },
                ),
            },
        ),
{
    reveal_strlit("({exp: ");
    reveal_strlit(", default: ");
    reveal_strlit("})");
    lemma_keys();
    reveal_strlit("exp");
    reveal_strlit("default");
    lemma_digit_seq_digits(e);
    let x = number_text(false, digit_seq(e), seq![]);
    let y = number_text(neg, w, f);
    let s = t + "({exp: "@ + x + ", default: "@ + y + "})"@;
    let n = t.len() as int;
    let q = n + 7 + x.len();
    let a = q + 11 + y.len();
    assert(s.subrange(0, n) =~= t);
    assert(s[n] == '(');
    assert(s[n + 1] == '{');
    lemma_name_then_paren(s, t);
    assert(s.subrange(n + 2, n + 5) =~= "exp"@);
    assert(s[n + 5] == ':');
    assert(s[n + 6] == ' ');
    assert(s.subrange(n + 7, q) =~= x);
    assert(s[q] == ',');
    assert(s[q + 1] == ' ');
    assert(s.subrange(q + 2, q + 9) =~= "default"@);
    assert(s[q + 9] == ':');
    assert(s[q + 10] == ' ');
    assert(s.subrange(q + 11, a) =~= y);
    assert(s[a] == '}');
    assert(s[a + 1] == ')');
    assert(s.len() == a + 2);
    lemma_idl_member(s, n + 2, "exp"@, false, digit_seq(e), seq![], None, None);
    lemma_blank_end(s, q + 1, q + 2);
    lemma_idl_member(
        s,
        q + 2,
        "default"@,
        neg,
        w,
        f,
        Some(NumberView { negative: false, whole: digit_seq(e), point: false, fraction: seq![] }),
        None,
    );
    assert(blank_end(s, n + 1) == n + 1);
    assert(blank_end(s, n + 2) == n + 2);
    assert(blank_end(s, a + 1) == a + 1);
    assert(blank_end(s, a + 2) == a + 2);
}

/// Each type's names are names, and name that type.
proof fn lemma_type_names(k: NP_TypeKeys)
    ensures
        is_name(short_name(k)),
        key_of_name(short_name(k)) == Some(k),
        key_of_name(long_name(k)) == Some(k),
{
    reveal_strlit("int8");
    reveal_strlit("i8");
    reveal_strlit("int16");
    reveal_strlit("i16");
    reveal_strlit("int32");
    reveal_strlit("i32");
    reveal_strlit("int64");
    reveal_strlit("i64");
    reveal_strlit("uint8");
    reveal_strlit("u8");
    reveal_strlit("uint16");
    reveal_strlit("u16");
    reveal_strlit("uint32");
    reveal_strlit("u32");
    reveal_strlit("uint64");
    reveal_strlit("u64");
    reveal_strlit("decimal");
    reveal_strlit("dec");
    reveal_strlit("uuid");
    let t = short_name(k);
    assert(is_name(t)) by {
        assert forall|i: int| 0 <= i < t.len() implies is_name_char(#[trigger] t[i]) by {}
    }
    match k {
        NP_TypeKeys::Int8 => {
            assert(key_of_name("i8"@) == Some(NP_TypeKeys::Int8));
            assert(key_of_name("int8"@) == Some(NP_TypeKeys::Int8));
        },
        NP_TypeKeys::Int16 => {
            assert("i16"@.len() != "int8"@.len());
            assert("i16"@.len() != "i8"@.len());
            assert(key_of_name("i16"@) == Some(NP_TypeKeys::Int16));
            assert("int16"@.len() != "int8"@.len());
            assert("int16"@.len() != "i8"@.len());
            assert(key_of_name("int16"@) == Some(NP_TypeKeys::Int16));
        },
        NP_TypeKeys::Int32 => {
            assert("i32"@.len() != "int8"@.len());
            assert("i32"@.len() != "i8"@.len());
            assert("i32"@.len() != "int16"@.len());
            assert("i32"@[1] != "i16"@[1]);
            assert(key_of_name("i32"@) == Some(NP_TypeKeys::Int32));
            assert("int32"@.len() != "int8"@.len());
            assert("int32"@.len() != "i8"@.len());
            assert("int32"@[3] != "int16"@[3]);
            assert("int32"@.len() != "i16"@.len());
            assert(key_of_name("int32"@) == Some(NP_TypeKeys::Int32));
        },
        NP_TypeKeys::Int64 => {
            assert("i64"@.len() != "int8"@.len());
            assert("i64"@.len() != "i8"@.len());
            assert("i64"@.len() != "int16"@.len());
            assert("i64"@[1] != "i16"@[1]);
            assert("i64"@.len() != "int32"@.len());
            assert("i64"@[1] != "i32"@[1]);
            assert(key_of_name("i64"@) == Some(NP_TypeKeys::Int64));
            assert("int64"@.len() != "int8"@.len());
            assert("int64"@.len() != "i8"@.len());
            assert("int64"@[3] != "int16"@[3]);
            assert("int64"@.len() != "i16"@.len());
            assert("int64"@[3] != "int32"@[3]);
            assert("int64"@.len() != "i32"@.len());
            assert(key_of_name("int64"@) == Some(NP_TypeKeys::Int64));
        },
        NP_TypeKeys::Uint8 => {
            assert("u8"@.len() != "int8"@.len());
            assert("u8"@[0] != "i8"@[0]);
            assert("u8"@.len() != "int16"@.len());
            assert("u8"@.len() != "i16"@.len());
            assert("u8"@.len() != "int32"@.len());
            assert("u8"@.len() != "i32"@.len());
            assert("u8"@.len() != "int64"@.len());
            assert("u8"@.len() != "i64"@.len());
            assert(key_of_name("u8"@) == Some(NP_TypeKeys::Uint8));
            assert("uint8"@.len() != "int8"@.len());
            assert("uint8"@.len() != "i8"@.len());
            assert("uint8"@[0] != "int16"@[0]);
            assert("uint8"@.len() != "i16"@.len());
            assert("uint8"@[0] != "int32"@[0]);
            assert("uint8"@.len() != "i32"@.len());
            assert("uint8"@[0] != "int64"@[0]);
            assert("uint8"@.len() != "i64"@.len());
            assert(key_of_name("uint8"@) == Some(NP_TypeKeys::Uint8));
        },
        NP_TypeKeys::Uint16 => {
            assert("u16"@.len() != "int8"@.len());
            assert("u16"@.len() != "i8"@.len());
            assert("u16"@.len() != "int16"@.len());
            assert("u16"@[0] != "i16"@[0]);
            assert("u16"@.len() != "int32"@.len());
            assert("u16"@[0] != "i32"@[0]);
            assert("u16"@.len() != "int64"@.len());
            assert("u16"@[0] != "i64"@[0]);
            assert("u16"@.len() != "uint8"@.len());
            assert("u16"@.len() != "u8"@.len());
            assert(key_of_name("u16"@) == Some(NP_TypeKeys::Uint16));
            assert("uint16"@.len() != "int8"@.len());
            assert("uint16"@.len() != "i8"@.len());
            assert("uint16"@.len() != "int16"@.len());
            assert("uint16"@.len() != "i16"@.len());
            assert("uint16"@.len() != "int32"@.len());
            assert("uint16"@.len() != "i32"@.len());
            assert("uint16"@.len() != "int64"@.len());
            assert("uint16"@.len() != "i64"@.len());
            assert("uint16"@.len() != "uint8"@.len());
            assert("uint16"@.len() != "u8"@.len());
            assert(key_of_name("uint16"@) == Some(NP_TypeKeys::Uint16));
        },
        NP_TypeKeys::Uint32 => {
            assert("u32"@.len() != "int8"@.len());
            assert("u32"@.len() != "i8"@.len());
            assert("u32"@.len() != "int16"@.len());
            assert("u32"@[0] != "i16"@[0]);
            assert("u32"@.len() != "int32"@.len());
            assert("u32"@[0] != "i32"@[0]);
            assert("u32"@.len() != "int64"@.len());
            assert("u32"@[0] != "i64"@[0]);
            assert("u32"@.len() != "uint8"@.len());
            assert("u32"@.len() != "u8"@.len());
            assert("u32"@.len() != "uint16"@.len());
            assert("u32"@[1] != "u16"@[1]);
            assert(key_of_name("u32"@) == Some(NP_TypeKeys::Uint32));
            assert("uint32"@.len() != "int8"@.len());
            assert("uint32"@.len() != "i8"@.len());
            assert("uint32"@.len() != "int16"@.len());
            assert("uint32"@.len() != "i16"@.len());
            assert("uint32"@.len() != "int32"@.len());
            assert("uint32"@.len() != "i32"@.len());
            assert("uint32"@.len() != "int64"@.len());
            assert("uint32"@.len() != "i64"@.len());
            assert("uint32"@.len() != "uint8"@.len());
            assert("uint32"@.len() != "u8"@.len());
            assert("uint32"@[4] != "uint16"@[4]);
            assert("uint32"@.len() != "u16"@.len());
            assert(key_of_name("uint32"@) == Some(NP_TypeKeys::Uint32));
        },
        NP_TypeKeys::Uint64 => {
            assert("u64"@.len() != "int8"@.len());
            assert("u64"@.len() != "i8"@.len());
            assert("u64"@.len() != "int16"@.len());
            assert("u64"@[0] != "i16"@[0]);
            assert("u64"@.len() != "int32"@.len());
            assert("u64"@[0] != "i32"@[0]);
            assert("u64"@.len() != "int64"@.len());
            assert("u64"@[0] != "i64"@[0]);
            assert("u64"@.len() != "uint8"@.len());
            assert("u64"@.len() != "u8"@.len());
            assert("u64"@.len() != "uint16"@.len());
            assert("u64"@[1] != "u16"@[1]);
            assert("u64"@.len() != "uint32"@.len());
            assert("u64"@[1] != "u32"@[1]);
            assert(key_of_name("u64"@) == Some(NP_TypeKeys::Uint64));
            assert("uint64"@.len() != "int8"@.len());
            assert("uint64"@.len() != "i8"@.len());
            assert("uint64"@.len() != "int16"@.len());
            assert("uint64"@.len() != "i16"@.len());
            assert("uint64"@.len() != "int32"@.len());
            assert("uint64"@.len() != "i32"@.len());
            assert("uint64"@.len() != "int64"@.len());
            assert("uint64"@.len() != "i64"@.len());
            assert("uint64"@.len() != "uint8"@.len());
            assert("uint64"@.len() != "u8"@.len());
            assert("uint64"@[4] != "uint16"@[4]);
            assert("uint64"@.len() != "u16"@.len());
            assert("uint64"@[4] != "uint32"@[4]);
            assert("uint64"@.len() != "u32"@.len());
            assert(key_of_name("uint64"@) == Some(NP_TypeKeys::Uint64));
        },
        NP_TypeKeys::Decimal => {
            assert("dec"@.len() != "int8"@.len());
            assert("dec"@.len() != "i8"@.len());
            assert("dec"@.len() != "int16"@.len());
            assert("dec"@[0] != "i16"@[0]);
            assert("dec"@.len() != "int32"@.len());
            assert("dec"@[0] != "i32"@[0]);
            assert("dec"@.len() != "int64"@.len());
            assert("dec"@[0] != "i64"@[0]);
            assert("dec"@.len() != "uint8"@.len());
            assert("dec"@.len() != "u8"@.len());
            assert("dec"@.len() != "uint16"@.len());
            assert("dec"@[0] != "u16"@[0]);
            assert("dec"@.len() != "uint32"@.len());
            assert("dec"@[0] != "u32"@[0]);
            assert("dec"@.len() != "uint64"@.len());
            assert("dec"@[0] != "u64"@[0]);
            assert(key_of_name("dec"@) == Some(NP_TypeKeys::Decimal));
            assert("decimal"@.len() != "int8"@.len());
            assert("decimal"@.len() != "i8"@.len());
            assert("decimal"@.len() != "int16"@.len());
            assert("decimal"@.len() != "i16"@.len());
            assert("decimal"@.len() != "int32"@.len());
            assert("decimal"@.len() != "i32"@.len());
            assert("decimal"@.len() != "int64"@.len());
            assert("decimal"@.len() != "i64"@.len());
            assert("decimal"@.len() != "uint8"@.len());
            assert("decimal"@.len() != "u8"@.len());
            assert("decimal"@.len() != "uint16"@.len());
            assert("decimal"@.len() != "u16"@.len());
            assert("decimal"@.len() != "uint32"@.len());
            assert("decimal"@.len() != "u32"@.len());
            assert("decimal"@.len() != "uint64"@.len());
            assert("decimal"@.len() != "u64"@.len());
            assert(key_of_name("decimal"@) == Some(NP_TypeKeys::Decimal));
        },
        NP_TypeKeys::Uuid => {
            assert("uuid"@[0] != "int8"@[0]);
            assert("uuid"@.len() != "i8"@.len());
            assert("uuid"@.len() != "int16"@.len());
            assert("uuid"@.len() != "i16"@.len());
            assert("uuid"@.len() != "int32"@.len());
            assert("uuid"@.len() != "i32"@.len());
            assert("uuid"@.len() != "int64"@.len());
            assert("uuid"@.len() != "i64"@.len());
            assert("uuid"@.len() != "uint8"@.len());
            assert("uuid"@.len() != "u8"@.len());
            assert("uuid"@.len() != "uint16"@.len());
            assert("uuid"@.len() != "u16"@.len());
            assert("uuid"@.len() != "uint32"@.len());
            assert("uuid"@.len() != "u32"@.len());
            assert("uuid"@.len() != "uint64"@.len());
            assert("uuid"@.len() != "u64"@.len());
            assert("uuid"@.len() != "decimal"@.len());
            assert("uuid"@.len() != "dec"@.len());
            assert(key_of_name("uuid"@) == Some(NP_TypeKeys::Uuid));
            assert("uuid"@[0] != "int8"@[0]);
            assert("uuid"@.len() != "i8"@.len());
            assert("uuid"@.len() != "int16"@.len());
            assert("uuid"@.len() != "i16"@.len());
            assert("uuid"@.len() != "int32"@.len());
            assert("uuid"@.len() != "i32"@.len());
            assert("uuid"@.len() != "int64"@.len());
            assert("uuid"@.len() != "i64"@.len());
            assert("uuid"@.len() != "uint8"@.len());
            assert("uuid"@.len() != "u8"@.len());
            assert("uuid"@.len() != "uint16"@.len());
            assert("uuid"@.len() != "u16"@.len());
            assert("uuid"@.len() != "uint32"@.len());
            assert("uuid"@.len() != "u32"@.len());
            assert("uuid"@.len() != "uint64"@.len());
            assert("uuid"@.len() != "u64"@.len());
            assert("uuid"@.len() != "decimal"@.len());
            assert("uuid"@.len() != "dec"@.len());
            assert(key_of_name("uuid"@) == Some(NP_TypeKeys::Uuid));
        },
    }
}

/// A node whose IDL text is `name()`.
proof fn lemma_idl_plain(n: NP_Parsed_Schema)
    requires
        n.wf(),
        n.data is Uuid || n.data == (NP_Schema_Data::Signed { default: None })
            || n.data == (NP_Schema_Data::Unsigned { default: None }),
    ensures
        idl_declaration(idl_text(n)) matches Ok(d) && compile_decl(d) == Ok::<
            NP_Parsed_Schema,
            NP_Error,
        >(n),
{
    let t = short_name(n.i);
    lemma_type_names(n.i);
    lemma_idl_no_arguments(t);
    assert(idl_text(n) == t + "()"@);
    let d = DeclView { kind: t, exp: None, default: None };
    assert(compile_decl(d) == Ok::<NP_Parsed_Schema, NP_Error>(n));
}

/// A node whose IDL text is `name({default: v})`, given the default's text.
#[verifier::spinoff_prover]
#[verifier::rlimit(50)]
proof fn lemma_idl_with_default(n: NP_Parsed_Schema, v: int)
    requires
        n.wf(),
        default_text(n) == Some(int_text(v)),
        n.data is Signed || n.data is Unsigned,
    ensures
        idl_declaration(idl_text(n)) matches Ok(d) && d == (DeclView {
            kind: short_name(n.i),
            exp: None,
            default: Some(
                NumberView {
                    negative: v < 0,
                    whole: digit_seq(magnitude_of(v)),
                    point: false,
                    fraction: seq![],
                },
            ),
        }),
        (NumberView {
            negative: v < 0,
            whole: digit_seq(magnitude_of(v)),
            point: false,
            fraction: seq![],
        }).value_at(0) == v,
{
    let t = short_name(n.i);
    lemma_type_names(n.i);
    lemma_int_text(v);
    lemma_idl_default(t, v < 0, digit_seq(magnitude_of(v)), seq![]);
    let x = number_text(v < 0, digit_seq(magnitude_of(v)), seq![]);
    assert(!(n.data is Uuid) && !(n.data is Decimal));
    assert(idl_text(n) == t + "({default: "@ + int_text(v) + "})"@);
}

/// A signed integer node with a default.
proof fn lemma_idl_signed_default(n: NP_Parsed_Schema, v: i64)
    requires
        n.wf(),
        n.data == (NP_Schema_Data::Signed { default: Some(v) }),
    ensures
        idl_declaration(idl_text(n)) matches Ok(d) && compile_decl(d) == Ok::<
            NP_Parsed_Schema,
            NP_Error,
        >(n),
{
    lemma_type_names(n.i);
    lemma_idl_with_default(n, v as int);
}

/// An unsigned integer node with a default.
proof fn lemma_idl_unsigned_default(n: NP_Parsed_Schema, v: u64)
    requires
        n.wf(),
        n.data == (NP_Schema_Data::Unsigned { default: Some(v) }),
    ensures
        idl_declaration(idl_text(n)) matches Ok(d) && compile_decl(d) == Ok::<
            NP_Parsed_Schema,
            NP_Error,
        >(n),
{
    lemma_type_names(n.i);
    assert(int_text(v as int) == decimal_text(v as nat));
    lemma_idl_with_default(n, v as int);
}

/// A decimal node.
#[verifier::spinoff_prover]
proof fn lemma_idl_decimal(n: NP_Parsed_Schema)
    requires
        n.wf(),
        n.data is Decimal,
    ensures
        idl_declaration(idl_text(n)) matches Ok(d) && compile_decl(d) == Ok::<
            NP_Parsed_Schema,
            NP_Error,
        >(n),
{
    let t = short_name(n.i);
    lemma_type_names(n.i);
    let (exp, default) = match n.data {
        NP_Schema_Data::Decimal { exp, default } => (exp, default),
        _ => (0u8, None),
    };
    lemma_int_text(exp as int);
    assert(int_text(exp as int) == decimal_text(exp as nat));
    let x = number_text(false, digit_seq(exp as nat), seq![]);
    let ev = NumberView { negative: false, whole: digit_seq(exp as nat), point: false, fraction: seq![] };
    assert(ev.value_at(0) == exp);
    assert(ev.is_exp());
    match default {
        None => {
            lemma_idl_exp(t, exp as nat);
            assert(idl_text(n) =~= t + "({exp: "@ + x + "})"@);
            let d = DeclView { kind: t, exp: Some(ev), default: None };
            assert(compile_decl(d) == Ok::<NP_Parsed_Schema, NP_Error>(n));
        },
        Some(m) => {
            lemma_dec_text(m as int, exp as nat);
            let w = dec_whole(m as int, exp as nat);
            let f = dec_fraction(m as int, exp as nat);
            lemma_idl_exp_default(t, exp as nat, m < 0, w, f);
            let y = number_text(m < 0, w, f);
            assert(idl_text(n) =~= t + "({exp: "@ + x + ", default: "@ + y + "})"@);
            let mv = NumberView { negative: m < 0, whole: w, point: f.len() > 0, fraction: f };
            let d = DeclView { kind: t, exp: Some(ev), default: Some(mv) };
            assert(mv.value_at(exp as nat) == m);
            assert(compile_decl(d) == Ok::<NP_Parsed_Schema, NP_Error>(n));
        },
    }
}

/// Round trip through the IDL: the IDL text of a well-formed node compiles
/// back to that node, so the IDL and JSON it emits are those of the node
/// it came from.
pub proof fn law_idl_round_trip(n: NP_Parsed_Schema)
    requires
        n.wf(),
    ensures
        idl_declaration(idl_text(n)) matches Ok(d) && compile_decl(d) == Ok::<
            NP_Parsed_Schema,
            NP_Error,
        >(n),
{
    match n.data {
        NP_Schema_Data::Signed { default: Some(v) } => lemma_idl_signed_default(n, v),
        NP_Schema_Data::Unsigned { default: Some(v) } => lemma_idl_unsigned_default(n, v),
        NP_Schema_Data::Decimal { .. } => lemma_idl_decimal(n),
        _ => lemma_idl_plain(n),
    }
}

/// A name between double quotes at `i` reads as that name.
proof fn lemma_quoted_name(s: Seq<char>, i: int, t: Seq<char>)
    requires
        0 <= i,
        is_name(t),
        i + t.len() + 2 <= s.len(),
        s[i] == '"',
        s.subrange(i + 1, i + 1 + t.len()) == t,
        s[i + 1 + t.len()] == '"',
    ensures
        quoted_at(s, i) == Some((t, i + t.len() + 2)),
{
    assert forall|k: int| i + 1 <= k < i + 1 + t.len() implies s[k] != '"' && s[k] != '\\' by {
        assert(s[k] == t[k - i - 1]);
        assert(is_name_char(t[k - i - 1]));
    }
    lemma_quote_end(s, i + 1, i + 1 + t.len());
}

/// One `"key":number` member at `i`, followed by `,` or `}`.
proof fn lemma_doc_number_member(
    s: Seq<char>,
    i: int,
    key: Seq<char>,
    neg: bool,
    w: Seq<u8>,
    f: Seq<u8>,
    kind: Option<Seq<char>>,
    exp: Option<NumberView>,
    default: Option<NumberView>,
)
    requires
        0 <= i,
        is_name(key),
        i + key.len() + 3 + number_text(neg, w, f).len() < s.len(),
        s[i] == '"',
        s.subrange(i + 1, i + 1 + key.len()) == key,
        s[i + 1 + key.len()] == '"',
        s[i + 2 + key.len()] == ':',
        s.subrange(i + key.len() + 3, i + key.len() + 3 + number_text(neg, w, f).len())
            == number_text(neg, w, f),
        w.len() >= 1,
        all_digits(w),
        all_digits(f),
        s[i + key.len() + 3 + number_text(neg, w, f).len()] == ',' || s[i + key.len() + 3
            + number_text(neg, w, f).len()] == '}',
    ensures
        ({
            let after = i + key.len() + 3 + number_text(neg, w, f).len();
            let fl = doc_fields(
                key,
                ScalarView::Number(
                    NumberView { negative: neg, whole: w, point: f.len() > 0, fraction: f },
                ),
                kind,
                exp,
                default,
            );
            if s[after] == '}' {
                doc_members(s, i, kind, exp, default) == Ok::<
                    (Option<Seq<char>>, Option<NumberView>, Option<NumberView>, int),
                    NP_Error,
                >((fl.0, fl.1, fl.2, after + 1))
            } else {
                blank_end(s, after + 1) > i && doc_members(s, i, kind, exp, default)
                    == doc_members(s, blank_end(s, after + 1), fl.0, fl.1, fl.2)
            }
        }),
{
    let kl = key.len() as int;
    let t = number_text(neg, w, f);
    let after = i + kl + 3 + t.len();
    lemma_quoted_name(s, i, key);
    assert(blank_end(s, i + kl + 2) == i + kl + 2);
    assert(s[i + kl + 3] == t[0]);
    lemma_digit_char(w[0] as nat);
    if neg {
        assert(t[0] == '-');
    } else {
        assert(t[0] == digits_text(w)[0]);
    }
    assert(blank_end(s, i + kl + 3) == i + kl + 3);
    lemma_number_read(s, i + kl + 3, neg, w, f);
    assert(!at_char(s, i + kl + 3, '"'));
    assert(blank_end(s, after) == after);
    if s[after] == ',' {
        lemma_blank_end_ge(s, after + 1);
    }
}

/// The `"type":"name"` member at `1`, followed by `,` or `}`.
proof fn lemma_doc_type_member(s: Seq<char>, name: Seq<char>)
    requires
        is_name(name),
        name.len() + 10 < s.len(),
        s[1] == '"',
        s.subrange(2, 6) == "type"@,
        s[6] == '"',
        s[7] == ':',
        s[8] == '"',
        s.subrange(9, 9 + name.len() as int) == name,
        s[9 + name.len() as int] == '"',
        s[10 + name.len() as int] == ',' || s[10 + name.len() as int] == '}',
    ensures
        ({
            let after = 10 + name.len() as int;
            if s[after] == '}' {
                doc_members(s, 1, None, None, None) == Ok::<
                    (Option<Seq<char>>, Option<NumberView>, Option<NumberView>, int),
                    NP_Error,
                >((Some(name), None, None, after + 1))
            } else {
                blank_end(s, after + 1) > 1 && doc_members(s, 1, None, None, None)
                    == doc_members(s, blank_end(s, after + 1), Some(name), None, None)
            }
        }),
{
    reveal_strlit("type");
    let key = "type"@;
    assert(is_name(key)) by {
        assert forall|k: int| 0 <= k < key.len() implies is_name_char(#[trigger] key[k]) by {}
    }
    lemma_quoted_name(s, 1, key);
    assert(blank_end(s, 7) == 7);
    assert(blank_end(s, 8) == 8);
    lemma_quoted_name(s, 8, name);
    let after = 10 + name.len() as int;
    assert(blank_end(s, after) == after);
    assert("type"@ != "exp"@ && "type"@ != "default"@) by {
        reveal_strlit("exp");
        reveal_strlit("default");
        assert("type"@.len() != "exp"@.len());
        assert("type"@.len() != "default"@.len());
    }
    if s[after] == ',' {
        lemma_blank_end_ge(s, after + 1);
    }
}

/// The `,"exp":e` part of a document, where there is one.
pub open spec fn exp_part(e: Option<nat>) -> Seq<char> {
    match e {
        Some(x) => ",\"exp\":"@ + number_text(false, digit_seq(x), seq![]),
        None => seq![],
    }
}

/// The `,"default":number` part of a document, where there is one.
pub open spec fn default_part(d: Option<(bool, Seq<u8>, Seq<u8>)>) -> Seq<char> {
    match d {
        Some((neg, w, f)) => ",\"default\":"@ + number_text(neg, w, f),
        None => seq![],
    }
}

/// The number view of a written default.
pub open spec fn default_view(d: Option<(bool, Seq<u8>, Seq<u8>)>) -> Option<NumberView> {
    match d {
        Some((neg, w, f)) => Some(NumberView { negative: neg, whole: w, point: f.len() > 0, fraction: f }),
        None => None,
    }
}

/// The number view of a written exponent.
pub open spec fn exp_view(e: Option<nat>) -> Option<NumberView> {
    match e {
        Some(x) => Some(NumberView { negative: false, whole: digit_seq(x), point: false, fraction: seq![] }),
        None => None,
    }
}

/// A document `{"type":"name"}` with optional `exp` and `default` members
/// reads as that declaration.
#[verifier::spinoff_prover]
#[verifier::rlimit(80)]
pub proof fn lemma_doc_read(name: Seq<char>, e: Option<nat>, d: Option<(bool, Seq<u8>, Seq<u8>)>)
    requires
        is_name(name),
        d matches Some((neg, w, f)) ==> w.len() >= 1 && all_digits(w) && all_digits(f),
    ensures
        doc_declaration("{\"type\":\""@ + name + "\""@ + exp_part(e) + default_part(d) + "}"@)
            == Ok::<DeclView, NP_Error>(
            DeclView { kind: name, exp: exp_view(e), default: default_view(d) },
        ),
{
    reveal_strlit("{\"type\":\"");
    reveal_strlit("\"");
    reveal_strlit("}");
    reveal_strlit(",\"exp\":");
    reveal_strlit(",\"default\":");
    reveal_strlit("type");
    lemma_keys();
    reveal_strlit("exp");
    reveal_strlit("default");
    let head = "{\"type\":\""@ + name + "\""@;
    let s = head + exp_part(e) + default_part(d) + "}"@;
    let l = name.len() as int;
    let exp_at = 10 + l;
    let default_at = exp_at + exp_part(e).len();
    let close_at = default_at + default_part(d).len();
    assert(s.len() == close_at + 1);
    assert(s[0] == '{');
    assert(s[1] == '"');
    assert(s.subrange(2, 6) =~= "type"@);
    assert(s[6] == '"');
    assert(s[7] == ':');
    assert(s[8] == '"');
    assert(s.subrange(9, 9 + l) =~= name);
    assert(s[9 + l] == '"');
    assert(s[close_at] == '}');
    assert(blank_end(s, 0) == 0);
    assert(blank_end(s, 1) == 1);
    assert(blank_end(s, close_at + 1) == close_at + 1);
    match e {
        Some(x) => {
            lemma_digit_seq_digits(x);
            let t = number_text(false, digit_seq(x), seq![]);
            assert(s[exp_at] == ',');
            assert(s[exp_at + 1] == '"');
            assert(s.subrange(exp_at + 2, exp_at + 5) =~= "exp"@);
            assert(s[exp_at + 5] == '"');
            assert(s[exp_at + 6] == ':');
            assert(s.subrange(exp_at + 7, exp_at + 7 + t.len()) =~= t);
            assert(exp_at + 7 + t.len() == default_at);
        },
        None => {},
    }
    match d {
        Some((neg, w, f)) => {
            let t = number_text(neg, w, f);
            assert(s[default_at] == ',');
            assert(s[default_at + 1] == '"');
            assert(s.subrange(default_at + 2, default_at + 9) =~= "default"@);
            assert(s[default_at + 9] == '"');
            assert(s[default_at + 10] == ':');
            assert(s.subrange(default_at + 11, default_at + 11 + t.len()) =~= t);
            assert(default_at + 11 + t.len() == close_at);
        },
        None => {},
    }
    lemma_doc_type_member(s, name);
    match e {
        Some(x) => {
            assert(blank_end(s, exp_at + 1) == exp_at + 1);
            lemma_doc_number_member(s, exp_at + 1, "exp"@, false, digit_seq(x), seq![], Some(name), None, None);
        },
        None => {},
    }
    match d {
        Some((neg, w, f)) => {
            assert(blank_end(s, default_at + 1) == default_at + 1);
            lemma_doc_number_member(s, default_at + 1, "default"@, neg, w, f, Some(name), exp_view(e), None);
        },
        None => {},
    }
}

/// The JSON document of a node, in the shape the reading lemma takes.
proof fn lemma_json_shape(n: NP_Parsed_Schema, e: Option<nat>, d: Option<(bool, Seq<u8>, Seq<u8>)>)
    requires
        n.wf(),
        match n.data {
            NP_Schema_Data::Decimal { exp, .. } => e == Some(exp as nat),
            _ => e is None,
        },
        match default_text(n) {
            Some(t) => d matches Some((neg, w, f)) && t == number_text(neg, w, f),
            None => d is None,
        },
    ensures
        json_text(n) == "{\"type\":\""@ + long_name(n.i) + "\""@ + exp_part(e) + default_part(d)
            + "}"@,
{
    match n.data {
        NP_Schema_Data::Decimal { exp, .. } => {
            lemma_int_text(exp as int);
            assert(int_text(exp as int) == decimal_text(exp as nat));
        },
        _ => {},
    }
}

/// A node with no default.
proof fn lemma_json_plain(n: NP_Parsed_Schema)
    requires
        n.wf(),
        n.data is Uuid || n.data == (NP_Schema_Data::Signed { default: None })
            || n.data == (NP_Schema_Data::Unsigned { default: None }),
    ensures
        doc_declaration(json_text(n)) matches Ok(d) && compile_decl(d) == Ok::<
            NP_Parsed_Schema,
            NP_Error,
        >(n),
{
    let t = long_name(n.i);
    lemma_type_names(n.i);
    assert(is_name(t)) by {
        lemma_long_name_is_name(n.i);
    }
    lemma_json_shape(n, None, None);
    lemma_doc_read(t, None, None);
    let d = DeclView { kind: t, exp: None, default: None };
    assert(compile_decl(d) == Ok::<NP_Parsed_Schema, NP_Error>(n));
}

proof fn lemma_long_name_is_name(k: NP_TypeKeys)
    ensures
        is_name(long_name(k)),
{
    reveal_strlit("int8");
    reveal_strlit("int16");
    reveal_strlit("int32");
    reveal_strlit("int64");
    reveal_strlit("uint8");
    reveal_strlit("uint16");
    reveal_strlit("uint32");
    reveal_strlit("uint64");
    reveal_strlit("decimal");
    reveal_strlit("uuid");
    let t = long_name(k);
    assert forall|i: int| 0 <= i < t.len() implies is_name_char(#[trigger] t[i]) by {}
}

/// An integer node whose default is `v`.
#[verifier::spinoff_prover]
proof fn lemma_json_with_default(n: NP_Parsed_Schema, v: int)
    requires
        n.wf(),
        default_text(n) == Some(int_text(v)),
        n.data is Signed || n.data is Unsigned,
    ensures
        doc_declaration(json_text(n)) == Ok::<DeclView, NP_Error>(
            DeclView {
                kind: long_name(n.i),
                exp: None,
                default: Some(
                    NumberView {
                        negative: v < 0,
                        whole: digit_seq(magnitude_of(v)),
                        point: false,
                        fraction: seq![],
                    },
                ),
            },
        ),
        (NumberView {
            negative: v < 0,
            whole: digit_seq(magnitude_of(v)),
            point: false,
            fraction: seq![],
        }).value_at(0) == v,
{
    let t = long_name(n.i);
    lemma_long_name_is_name(n.i);
    lemma_int_text(v);
    let dd = Some((v < 0, digit_seq(magnitude_of(v)), Seq::<u8>::empty()));
    lemma_json_shape(n, None, dd);
    lemma_doc_read(t, None, dd);
}

proof fn lemma_json_signed_default(n: NP_Parsed_Schema, v: i64)
    requires
        n.wf(),
        n.data == (NP_Schema_Data::Signed { default: Some(v) }),
    ensures
        doc_declaration(json_text(n)) matches Ok(d) && compile_decl(d) == Ok::<
            NP_Parsed_Schema,
            NP_Error,
        >(n),
{
    lemma_type_names(n.i);
    lemma_json_with_default(n, v as int);
}

proof fn lemma_json_unsigned_default(n: NP_Parsed_Schema, v: u64)
    requires
        n.wf(),
        n.data == (NP_Schema_Data::Unsigned { default: Some(v) }),
    ensures
        doc_declaration(json_text(n)) matches Ok(d) && compile_decl(d) == Ok::<
            NP_Parsed_Schema,
            NP_Error,
        >(n),
{
    lemma_type_names(n.i);
    assert(int_text(v as int) == decimal_text(v as nat));
    lemma_json_with_default(n, v as int);
}

/// A decimal node.
#[verifier::spinoff_prover]
proof fn lemma_json_decimal(n: NP_Parsed_Schema)
    requires
        n.wf(),
        n.data is Decimal,
    ensures
        doc_declaration(json_text(n)) matches Ok(d) && compile_decl(d) == Ok::<
            NP_Parsed_Schema,
            NP_Error,
        >(n),
{
    let t = long_name(n.i);
    lemma_type_names(n.i);
    lemma_long_name_is_name(n.i);
    let (exp, default) = match n.data {
        NP_Schema_Data::Decimal { exp, default } => (exp, default),
        _ => (0u8, None),
    };
    lemma_int_text(exp as int);
    let ev = NumberView { negative: false, whole: digit_seq(exp as nat), point: false, fraction: seq![] };
    assert(ev.value_at(0) == exp);
    assert(ev.is_exp());
    match default {
        None => {
            lemma_json_shape(n, Some(exp as nat), None);
            lemma_doc_read(t, Some(exp as nat), None);
            let d = DeclView { kind: t, exp: Some(ev), default: None };
            assert(compile_decl(d) == Ok::<NP_Parsed_Schema, NP_Error>(n));
        },
        Some(m) => {
            lemma_dec_text(m as int, exp as nat);
            let w = dec_whole(m as int, exp as nat);
            let f = dec_fraction(m as int, exp as nat);
            let dd = Some((m < 0, w, f));
            lemma_json_shape(n, Some(exp as nat), dd);
            lemma_doc_read(t, Some(exp as nat), dd);
            let mv = NumberView { negative: m < 0, whole: w, point: f.len() > 0, fraction: f };
            let d = DeclView { kind: t, exp: Some(ev), default: Some(mv) };
            assert(mv.value_at(exp as nat) == m);
            assert(compile_decl(d) == Ok::<NP_Parsed_Schema, NP_Error>(n));
        },
    }
}

/// Round trip through JSON: the JSON document of a well-formed node
/// compiles back to that node, so the JSON and IDL it emits are those of
/// the node it came from.
pub proof fn law_json_round_trip(n: NP_Parsed_Schema)
    requires
        n.wf(),
    ensures
        doc_declaration(json_text(n)) matches Ok(d) && compile_decl(d) == Ok::<
            NP_Parsed_Schema,
            NP_Error,
        >(n),
{
    match n.data {
        NP_Schema_Data::Signed { default: Some(v) } => lemma_json_signed_default(n, v),
        NP_Schema_Data::Unsigned { default: Some(v) } => lemma_json_unsigned_default(n, v),
        NP_Schema_Data::Decimal { .. } => lemma_json_decimal(n),
        _ => lemma_json_plain(n),
    }
}

} // verus!
