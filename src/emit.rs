//! The JSON and IDL text of a compiled node.
use vstd::prelude::*;
use crate::schema::{NP_TypeKeys, NP_Schema_Data, NP_Parsed_Schema};
use crate::text::{
    decimal_text, digit_seq, digits_text, decimal_digits, lemma_digit_seq_digits, push_decimal,
    push_digits,
};

verus! {

/// The name a JSON schema document uses for the type.
pub open spec fn long_name(k: NP_TypeKeys) -> Seq<char> {
    match k {
        NP_TypeKeys::Int8 => "int8"@,
        NP_TypeKeys::Int16 => "int16"@,
        NP_TypeKeys::Int32 => "int32"@,
        NP_TypeKeys::Int64 => "int64"@,
        NP_TypeKeys::Uint8 => "uint8"@,
        NP_TypeKeys::Uint16 => "uint16"@,
        NP_TypeKeys::Uint32 => "uint32"@,
        NP_TypeKeys::Uint64 => "uint64"@,
        NP_TypeKeys::Decimal => "decimal"@,
        NP_TypeKeys::Uuid => "uuid"@,
    }
}

/// The name the IDL uses for the type.
pub open spec fn short_name(k: NP_TypeKeys) -> Seq<char> {
    match k {
        NP_TypeKeys::Int8 => "i8"@,
        NP_TypeKeys::Int16 => "i16"@,
        NP_TypeKeys::Int32 => "i32"@,
        NP_TypeKeys::Int64 => "i64"@,
        NP_TypeKeys::Uint8 => "u8"@,
        NP_TypeKeys::Uint16 => "u16"@,
        NP_TypeKeys::Uint32 => "u32"@,
        NP_TypeKeys::Uint64 => "u64"@,
        NP_TypeKeys::Decimal => "dec"@,
        NP_TypeKeys::Uuid => "uuid"@,
    }
}

/// A whole number in decimal, with a leading `-` when negative.
pub open spec fn int_text(v: int) -> Seq<char> {
    if v < 0 {
        seq!['-'] + decimal_text((-v) as nat)
    } else {
        decimal_text(v as nat)
    }
}

/// `d` without its trailing zeros.
pub open spec fn strip_zeros(d: Seq<u8>) -> Seq<u8>
    decreases d.len(),
{
    if d.len() > 0 && d.last() == 0 {
        strip_zeros(d.drop_last())
    } else {
        d
    }
}

/// The digits of `|m|`, padded with leading zeros to more than `e` digits.
pub open spec fn padded_digits(m: nat, e: nat) -> Seq<u8> {
    let d = digit_seq(m);
    if d.len() < e + 1 {
        Seq::new((e + 1 - d.len()) as nat, |i: int| 0u8) + d
    } else {
        d
    }
}

/// `m / 10^e` in decimal: the whole part, then a point and the fraction
/// without trailing zeros where the fraction is not zero.
pub open spec fn dec_text(m: int, e: nat) -> Seq<char> {
    let mag: nat = if m < 0 {
        (-m) as nat
    } else {
        m as nat
    };
    let p = padded_digits(mag, e);
    let w = p.subrange(0, p.len() - e);
    let f = strip_zeros(p.subrange(p.len() - e, p.len() as int));
    let sign = if m < 0 {
        seq!['-']
    } else {
        seq![]
    };
    let frac = if f.len() == 0 {
        seq![]
    } else {
        seq!['.'] + digits_text(f)
    };
    sign + digits_text(w) + frac
}

/// The text of the node's default, where it declares one.
pub open spec fn default_text(n: NP_Parsed_Schema) -> Option<Seq<char>> {
    match n.data {
        NP_Schema_Data::Signed { default: Some(v) } => Some(int_text(v as int)),
        NP_Schema_Data::Unsigned { default: Some(v) } => Some(decimal_text(v as nat)),
        NP_Schema_Data::Decimal { exp, default: Some(m) } => Some(dec_text(m as int, exp as nat)),
        _ => None,
    }
}

/// The JSON schema document of a node.
pub open spec fn json_text(n: NP_Parsed_Schema) -> Seq<char> {
    let head = "{\"type\":\""@ + long_name(n.i) + "\""@;
    let exp_part = match n.data {
        NP_Schema_Data::Decimal { exp, .. } => ",\"exp\":"@ + decimal_text(exp as nat),
        _ => seq![],
    };
    let default_part = match default_text(n) {
        Some(t) => ",\"default\":"@ + t,
        None => seq![],
    };
    head + exp_part + default_part + "}"@
}

/// The IDL text of a node.
pub open spec fn idl_text(n: NP_Parsed_Schema) -> Seq<char> {
    match n.data {
        NP_Schema_Data::Uuid => short_name(n.i) + "()"@,
        NP_Schema_Data::Decimal { exp, .. } => short_name(n.i) + "({exp: "@ + decimal_text(
            exp as nat,
        ) + match default_text(n) {
            Some(t) => ", default: "@ + t,
            None => seq![],
        } + "})"@,
        _ => short_name(n.i) + match default_text(n) {
            Some(t) => "({default: "@ + t + "})"@,
            None => "()"@,
        },
    }
}

/// Appends the JSON name of a type.
fn push_long_name(s: &mut String, k: NP_TypeKeys)
    ensures
        final(s)@ == old(s)@ + long_name(k),
{
    let name = match k {
        NP_TypeKeys::Int8 => "int8",
        NP_TypeKeys::Int16 => "int16",
        NP_TypeKeys::Int32 => "int32",
        NP_TypeKeys::Int64 => "int64",
        NP_TypeKeys::Uint8 => "uint8",
        NP_TypeKeys::Uint16 => "uint16",
        NP_TypeKeys::Uint32 => "uint32",
        NP_TypeKeys::Uint64 => "uint64",
        NP_TypeKeys::Decimal => "decimal",
        NP_TypeKeys::Uuid => "uuid",
    };
    s.append(name);
}

/// Appends the IDL name of a type.
fn push_short_name(s: &mut String, k: NP_TypeKeys)
    ensures
        final(s)@ == old(s)@ + short_name(k),
{
    let name = match k {
        NP_TypeKeys::Int8 => "i8",
        NP_TypeKeys::Int16 => "i16",
        NP_TypeKeys::Int32 => "i32",
        NP_TypeKeys::Int64 => "i64",
        NP_TypeKeys::Uint8 => "u8",
        NP_TypeKeys::Uint16 => "u16",
        NP_TypeKeys::Uint32 => "u32",
        NP_TypeKeys::Uint64 => "u64",
        NP_TypeKeys::Decimal => "dec",
        NP_TypeKeys::Uuid => "uuid",
    };
    s.append(name);
}

/// The magnitude of `v`.
fn magnitude(v: i64) -> (r: u64)
    ensures
        r as int == if v < 0 {
            -v
        } else {
            v as int
        },
{
    if v < 0 {
        (-(v as i128)) as u64
    } else {
        v as u64
    }
}

/// Appends a whole number with its sign.
pub fn push_int(s: &mut String, v: i64)
    ensures
        final(s)@ == old(s)@ + int_text(v as int),
{
    if v < 0 {
        s.append("-");
        proof {
            reveal_strlit("-");
        }
        push_decimal(s, magnitude(v));
        assert(final(s)@ =~= old(s)@ + int_text(v as int));
    } else {
        push_decimal(s, v as u64);
    }
}

/// The digits of `mag`, padded with leading zeros to more than `e` digits.
fn padded_digit_vec(mag: u64, e: u8) -> (p: Vec<u8>)
    ensures
        p@ == padded_digits(mag as nat, e as nat),
        p@.len() >= e + 1,
        forall|j: int| 0 <= j < p@.len() ==> p@[j] < 10,
{
    let d = decimal_digits(mag);
    proof {
        lemma_digit_seq_digits(mag as nat);
    }
    let mut p: Vec<u8> = Vec::new();
    let el = e as usize;
    if d.len() < el + 1 {
        let pad = el + 1 - d.len();
        let mut i: usize = 0;
        while i < pad
            invariant
                i <= pad,
                p@ == Seq::new(i as nat, |j: int| 0u8),
            decreases pad - i,
        {
            p.push(0);
            i = i + 1;
            assert(p@ =~= Seq::new(i as nat, |j: int| 0u8));
        }
    }
    let mut i: usize = 0;
    let ghost base = p@;
    while i < d.len()
        invariant
            i <= d@.len(),
            p@ == base + d@.subrange(0, i as int),
        decreases d@.len() - i,
    {
        p.push(d[i]);
        i = i + 1;
        assert(p@ =~= base + d@.subrange(0, i as int));
    }
    assert(d@.subrange(0, d@.len() as int) =~= d@);
    assert(p@ =~= padded_digits(mag as nat, e as nat));
    p
}

/// Where the digits from `split` end once trailing zeros are dropped.
fn trimmed_end(p: &Vec<u8>, split: usize) -> (end: usize)
    requires
        split <= p@.len(),
    ensures
        split <= end <= p@.len(),
        p@.subrange(split as int, end as int) == strip_zeros(
            p@.subrange(split as int, p@.len() as int),
        ),
{
    let mut end = p.len();
    while end > split && p[end - 1] == 0
        invariant
            split <= end <= p@.len(),
            strip_zeros(p@.subrange(split as int, end as int)) == strip_zeros(
                p@.subrange(split as int, p@.len() as int),
            ),
        decreases end,
    {
        assert(p@.subrange(split as int, end as int).drop_last() =~= p@.subrange(
            split as int,
            end - 1,
        ));
        end = end - 1;
    }
    end
}

/// Appends `m / 10^e` in decimal.
pub fn push_dec(s: &mut String, m: i64, e: u8)
    ensures
        final(s)@ == old(s)@ + dec_text(m as int, e as nat),
{
    let mag = magnitude(m);
    let p = padded_digit_vec(mag, e);
    let split = p.len() - e as usize;
    let end = trimmed_end(&p, split);
    if m < 0 {
        s.append("-");
        proof {
            reveal_strlit("-");
        }
    }
    let ghost after_sign = s@;
    let whole = vstd::slice::slice_subrange(p.as_slice(), 0, split);
    push_digits(s, whole);
    let ghost after_whole = s@;
    if end > split {
        s.append(".");
        proof {
            reveal_strlit(".");
        }
        let frac = vstd::slice::slice_subrange(p.as_slice(), split, end);
        push_digits(s, frac);
    }
    proof {
        let sign: Seq<char> = if m < 0 {
            seq!['-']
        } else {
            seq![]
        };
        let f = strip_zeros(p@.subrange(split as int, p@.len() as int));
        let frac: Seq<char> = if f.len() == 0 {
            seq![]
        } else {
            seq!['.'] + digits_text(f)
        };
        assert(after_sign =~= old(s)@ + sign);
        assert(after_whole =~= old(s)@ + sign + digits_text(p@.subrange(0, split as int)));
        assert(s@ =~= after_whole + frac);
        assert(s@ =~= old(s)@ + dec_text(m as int, e as nat));
    }
}

/// Appends the text of the node's default.
fn push_default(s: &mut String, n: &NP_Parsed_Schema)
    requires
        default_text(*n) is Some,
    ensures
        final(s)@ == old(s)@ + default_text(*n)->0,
{
    match n.data {
        NP_Schema_Data::Signed { default: Some(v) } => push_int(s, v),
        NP_Schema_Data::Unsigned { default: Some(v) } => push_decimal(s, v),
        NP_Schema_Data::Decimal { exp, default: Some(m) } => push_dec(s, m, exp),
        _ => {},
    }
}

/// Whether the node declares a default.
fn has_default(n: &NP_Parsed_Schema) -> (r: bool)
    ensures
        r == default_text(*n) is Some,
{
    match n.data {
        NP_Schema_Data::Signed { default: Some(_) } => true,
        NP_Schema_Data::Unsigned { default: Some(_) } => true,
        NP_Schema_Data::Decimal { default: Some(_), .. } => true,
        _ => false,
    }
}

/// The JSON schema document of a node.
pub fn schema_to_json(n: &NP_Parsed_Schema) -> (r: String)
    ensures
        r@ == json_text(*n),
{
    let mut s = String::new();
    s.append("{\"type\":\"");
    push_long_name(&mut s, n.i);
    s.append("\"");
    let ghost head = s@;
    match n.data {
        NP_Schema_Data::Decimal { exp, .. } => {
            s.append(",\"exp\":");
            push_decimal(&mut s, exp as u64);
        },
        _ => {},
    }
    let ghost mid = s@;
    if has_default(n) {
        s.append(",\"default\":");
        push_default(&mut s, n);
    }
    let ghost tail = s@;
    s.append("}");
    proof {
        let exp_part = match n.data {
            NP_Schema_Data::Decimal { exp, .. } => ",\"exp\":"@ + decimal_text(exp as nat),
            _ => seq![],
        };
        let default_part = match default_text(*n) {
            Some(t) => ",\"default\":"@ + t,
            None => seq![],
        };
        assert(mid =~= head + exp_part);
        assert(tail =~= head + exp_part + default_part);
        assert(s@ =~= json_text(*n));
    }
    s
}

/// The IDL text of a node.
pub fn schema_to_idl(n: &NP_Parsed_Schema) -> (r: String)
    ensures
        r@ == idl_text(*n),
{
    let mut s = String::new();
    push_short_name(&mut s, n.i);
    let ghost name = s@;
    match n.data {
        NP_Schema_Data::Uuid => {
            s.append("()");
        },
        NP_Schema_Data::Decimal { exp, .. } => {
            s.append("({exp: ");
            push_decimal(&mut s, exp as u64);
            let ghost mid = s@;
            if has_default(n) {
                s.append(", default: ");
                push_default(&mut s, n);
            }
            let ghost tail = s@;
            s.append("})");
            proof {
                let dp = match default_text(*n) {
                    Some(t) => ", default: "@ + t,
                    None => seq![],
                };
                assert(tail =~= mid + dp);
                assert(s@ =~= idl_text(*n));
            }
        },
        _ => {
            if has_default(n) {
                s.append("({default: ");
                push_default(&mut s, n);
                s.append("})");
            } else {
                s.append("()");
            }
            proof {
                assert(s@ =~= idl_text(*n));
            }
        },
    }
    s
}

} // verus!
