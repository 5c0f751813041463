//! Compiled schema nodes and their binary fragment form.
//!
//! A fragment is `[type_tag][config bytes][has_default][default bytes]`:
//! integers carry `has_default` and then `width` big-endian two's complement
//! (or unsigned) bytes; decimals carry `exp`, `has_default` and an 8 byte
//! mantissa; UUIDs carry the tag alone.
use vstd::prelude::*;
use crate::bigendian::{
    pow256, be_bytes, be_value, twos_complement_bytes, twos_complement_value, lemma_pow256_values,
    lemma_pow256_mono, lemma_pow256_positive, lemma_pow256_even, lemma_be_value_bound,
    lemma_be_round_trip, lemma_twos_complement_round_trip, encode_be, decode_be,
};
use crate::error::NP_Error;

verus! {

/// The scalar types a schema can declare.
#[derive(Clone, Copy, Debug, PartialEq, Eq, Structural)]
pub enum NP_TypeKeys {
    Int8,
    Int16,
    Int32,
    Int64,
    Uint8,
    Uint16,
    Uint32,
    Uint64,
    Decimal,
    Uuid,
}

/// How many bytes a value takes in the buffer.
#[derive(Clone, Copy, Debug, PartialEq, Eq, Structural)]
pub enum NP_Value_Kind {
    Fixed(u32),
    Variable,
}

/// The configuration of one node, by kind of type.
#[allow(inconsistent_fields)]
#[derive(Clone, Copy, Debug, PartialEq, Eq, Structural)]
pub enum NP_Schema_Data {
    /// A signed integer type and its default.
    Signed { default: Option<i64> },
    /// An unsigned integer type and its default.
    Unsigned { default: Option<u64> },
    /// A decimal: its exponent and the mantissa of its default at that
    /// exponent.
    Decimal { exp: u8, default: Option<i64> },
    /// A UUID, which has no configuration.
    Uuid,
}

/// One compiled schema node.
#[derive(Clone, Copy, Debug, PartialEq, Eq, Structural)]
pub struct NP_Parsed_Schema {
    /// The declared type.
    pub i: NP_TypeKeys,
    /// The width of a stored value.
    pub val: NP_Value_Kind,
    /// Whether stored bytes compare in the order of the values.
    pub sortable: bool,
    /// The configuration.
    pub data: NP_Schema_Data,
}

/// The byte that tags a type in a compiled schema.
pub open spec fn spec_type_tag(k: NP_TypeKeys) -> u8 {
    match k {
        NP_TypeKeys::Int8 => 4,
        NP_TypeKeys::Int16 => 5,
        NP_TypeKeys::Int32 => 6,
        NP_TypeKeys::Int64 => 7,
        NP_TypeKeys::Uint8 => 8,
        NP_TypeKeys::Uint16 => 9,
        NP_TypeKeys::Uint32 => 10,
        NP_TypeKeys::Uint64 => 11,
        NP_TypeKeys::Decimal => 14,
        NP_TypeKeys::Uuid => 17,
    }
}

/// The bytes a value of the type takes.
pub open spec fn spec_width(k: NP_TypeKeys) -> nat {
    match k {
        NP_TypeKeys::Int8 | NP_TypeKeys::Uint8 => 1,
        NP_TypeKeys::Int16 | NP_TypeKeys::Uint16 => 2,
        NP_TypeKeys::Int32 | NP_TypeKeys::Uint32 => 4,
        NP_TypeKeys::Int64 | NP_TypeKeys::Uint64 | NP_TypeKeys::Decimal => 8,
        NP_TypeKeys::Uuid => 16,
    }
}

pub open spec fn is_signed(k: NP_TypeKeys) -> bool {
    k is Int8 || k is Int16 || k is Int32 || k is Int64
}

pub open spec fn is_unsigned(k: NP_TypeKeys) -> bool {
    k is Uint8 || k is Uint16 || k is Uint32 || k is Uint64
}

/// `v` fits a signed integer of `n` bytes.
pub open spec fn fits_signed(v: int, n: nat) -> bool {
    -(pow256(n) / 2) <= v < pow256(n) / 2
}

/// `v` fits an unsigned integer of `n` bytes.
pub open spec fn fits_unsigned(v: int, n: nat) -> bool {
    0 <= v < pow256(n)
}

/// The node for type `k` with configuration `data`.
pub open spec fn make_node(k: NP_TypeKeys, data: NP_Schema_Data) -> NP_Parsed_Schema {
    NP_Parsed_Schema { i: k, val: NP_Value_Kind::Fixed(spec_width(k) as u32), sortable: true, data }
}

impl NP_Parsed_Schema {
    /// The node's fields agree with its type and its default fits it.
    pub open spec fn wf(self) -> bool {
        &&& self == make_node(self.i, self.data)
        &&& match self.data {
            NP_Schema_Data::Signed { default } => is_signed(self.i) && (default matches Some(
                v,
            ) ==> fits_signed(v as int, spec_width(self.i))),
            NP_Schema_Data::Unsigned { default } => is_unsigned(self.i) && (default matches Some(
                v,
            ) ==> fits_unsigned(v as int, spec_width(self.i))),
            NP_Schema_Data::Decimal { .. } => self.i is Decimal,
            NP_Schema_Data::Uuid => self.i is Uuid,
        }
    }
}

/// The compiled fragment of a node.
pub open spec fn fragment_of(n: NP_Parsed_Schema) -> Seq<u8> {
    let tag = seq![spec_type_tag(n.i)];
    match n.data {
        NP_Schema_Data::Signed { default } => match default {
            Some(v) => tag + seq![1u8] + twos_complement_bytes(v as int, spec_width(n.i)),
            None => tag + seq![0u8],
        },
        NP_Schema_Data::Unsigned { default } => match default {
            Some(v) => tag + seq![1u8] + be_bytes(v as nat, spec_width(n.i)),
            None => tag + seq![0u8],
        },
        NP_Schema_Data::Decimal { exp, default } => match default {
            Some(v) => tag + seq![exp, 1u8] + twos_complement_bytes(v as int, 8),
            None => tag + seq![exp, 0u8],
        },
        NP_Schema_Data::Uuid => tag,
    }
}

/// The type a tag byte stands for.
pub open spec fn spec_key_of_tag(b: u8) -> Option<NP_TypeKeys> {
    if b == 4 {
        Some(NP_TypeKeys::Int8)
    } else if b == 5 {
        Some(NP_TypeKeys::Int16)
    } else if b == 6 {
        Some(NP_TypeKeys::Int32)
    } else if b == 7 {
        Some(NP_TypeKeys::Int64)
    } else if b == 8 {
        Some(NP_TypeKeys::Uint8)
    } else if b == 9 {
        Some(NP_TypeKeys::Uint16)
    } else if b == 10 {
        Some(NP_TypeKeys::Uint32)
    } else if b == 11 {
        Some(NP_TypeKeys::Uint64)
    } else if b == 14 {
        Some(NP_TypeKeys::Decimal)
    } else if b == 17 {
        Some(NP_TypeKeys::Uuid)
    } else {
        None
    }
}

/// What a fragment at the start of `s` holds: the node and the fragment's
/// length.
pub open spec fn parse_fragment(s: Seq<u8>) -> Result<(NP_Parsed_Schema, nat), NP_Error> {
    if s.len() == 0 {
        Err(NP_Error::BadSchemaBytes)
    } else {
        match spec_key_of_tag(s[0]) {
            None => Err(NP_Error::BadSchemaBytes),
            Some(k) => {
                let w = spec_width(k);
                if k is Uuid {
                    Ok((make_node(k, NP_Schema_Data::Uuid), 1))
                } else if k is Decimal {
                    if s.len() < 3 {
                        Err(NP_Error::BadSchemaBytes)
                    } else if s[2] == 0 {
                        Ok((make_node(k, NP_Schema_Data::Decimal { exp: s[1], default: None }), 3))
                    } else if s.len() < 11 {
                        Err(NP_Error::BadSchemaBytes)
                    } else {
                        let v = twos_complement_value(s.subrange(3, 11));
                        Ok((make_node(k, NP_Schema_Data::Decimal { exp: s[1], default: Some(v as i64) }), 11))
                    }
                } else if s.len() < 2 {
                    Err(NP_Error::BadSchemaBytes)
                } else if s[1] == 0 {
                    if is_signed(k) {
                        Ok((make_node(k, NP_Schema_Data::Signed { default: None }), 2))
                    } else {
                        Ok((make_node(k, NP_Schema_Data::Unsigned { default: None }), 2))
                    }
                } else if s.len() < 2 + w {
                    Err(NP_Error::BadSchemaBytes)
                } else {
                    let b = s.subrange(2, 2 + w as int);
                    if is_signed(k) {
                        Ok((make_node(k, NP_Schema_Data::Signed { default: Some(twos_complement_value(b) as i64) }), 2 + w))
                    } else {
                        Ok((make_node(k, NP_Schema_Data::Unsigned { default: Some(be_value(b) as u64) }), 2 + w))
                    }
                }
            },
        }
    }
}

impl NP_TypeKeys {
    /// The tag byte of this type.
    pub fn tag(&self) -> (r: u8)
        ensures
            r == spec_type_tag(*self),
    {
        match self {
            NP_TypeKeys::Int8 => 4,
            NP_TypeKeys::Int16 => 5,
            NP_TypeKeys::Int32 => 6,
            NP_TypeKeys::Int64 => 7,
            NP_TypeKeys::Uint8 => 8,
            NP_TypeKeys::Uint16 => 9,
            NP_TypeKeys::Uint32 => 10,
            NP_TypeKeys::Uint64 => 11,
            NP_TypeKeys::Decimal => 14,
            NP_TypeKeys::Uuid => 17,
        }
    }

    /// The bytes a value of this type takes.
    pub fn width(&self) -> (r: usize)
        ensures
            r == spec_width(*self),
    {
        match self {
            NP_TypeKeys::Int8 | NP_TypeKeys::Uint8 => 1,
            NP_TypeKeys::Int16 | NP_TypeKeys::Uint16 => 2,
            NP_TypeKeys::Int32 | NP_TypeKeys::Uint32 => 4,
            NP_TypeKeys::Int64 | NP_TypeKeys::Uint64 | NP_TypeKeys::Decimal => 8,
            NP_TypeKeys::Uuid => 16,
        }
    }

    /// The type a tag byte stands for.
    pub fn from_tag(b: u8) -> (r: Option<NP_TypeKeys>)
        ensures
            r == spec_key_of_tag(b),
    {
        if b == 4 {
            Some(NP_TypeKeys::Int8)
        } else if b == 5 {
            Some(NP_TypeKeys::Int16)
        } else if b == 6 {
            Some(NP_TypeKeys::Int32)
        } else if b == 7 {
            Some(NP_TypeKeys::Int64)
        } else if b == 8 {
            Some(NP_TypeKeys::Uint8)
        } else if b == 9 {
            Some(NP_TypeKeys::Uint16)
        } else if b == 10 {
            Some(NP_TypeKeys::Uint32)
        } else if b == 11 {
            Some(NP_TypeKeys::Uint64)
        } else if b == 14 {
            Some(NP_TypeKeys::Decimal)
        } else if b == 17 {
            Some(NP_TypeKeys::Uuid)
        } else {
            None
        }
    }
}

/// Builds the node for type `k` with configuration `data`.
pub fn new_node(k: NP_TypeKeys, data: NP_Schema_Data) -> (r: NP_Parsed_Schema)
    ensures
        r == make_node(k, data),
{
    NP_Parsed_Schema { i: k, val: NP_Value_Kind::Fixed(k.width() as u32), sortable: true, data }
}

/// The two's complement bytes of `v` in `n` bytes.
pub fn encode_twos_complement(v: i64, n: usize) -> (r: Vec<u8>)
    requires
        1 <= n <= 8,
        fits_signed(v as int, n as nat),
    ensures
        r@ == twos_complement_bytes(v as int, n as nat),
{
    proof {
        lemma_pow256_values();
        lemma_pow256_mono(n as nat, 8);
    }
    if v >= 0 {
        encode_be(v as u64, n)
    } else {
        let m: u64 = if n == 8 {
            (v as i128 + 0x1_0000_0000_0000_0000i128) as u64
        } else {
            let p = pow256_exec(n);
            (v as i128 + p as i128) as u64
        };
        encode_be(m, n)
    }
}

/// `256` raised to `n`, for `n` below eight.
pub fn pow256_exec(n: usize) -> (r: u64)
    requires
        n < 8,
    ensures
        r == pow256(n as nat),
{
    let mut r: u64 = 1;
    let mut i: usize = 0;
    proof {
        lemma_pow256_values();
    }
    while i < n
        invariant
            i <= n < 8,
            r == pow256(i as nat),
        decreases n - i,
    {
        proof {
            lemma_pow256_mono((i + 1) as nat, 7);
            lemma_pow256_values();
            assert(pow256(7) < pow256(8)) by {
                lemma_pow256_positive(7);
            }
        }
        r = r * 256;
        i = i + 1;
    }
    r
}

/// Reads `n` bytes of two's complement.
pub fn decode_twos_complement(s: &[u8]) -> (r: i64)
    requires
        1 <= s@.len() <= 8,
    ensures
        r == twos_complement_value(s@),
{
    let n = s.len();
    let u = decode_be(s);
    proof {
        lemma_pow256_values();
        lemma_pow256_mono(n as nat, 8);
        lemma_be_value_bound(s@);
        lemma_pow256_even(n as nat);
    }
    if n == 8 {
        if u >= 0x8000_0000_0000_0000u64 {
            (u as i128 - 0x1_0000_0000_0000_0000i128) as i64
        } else {
            u as i64
        }
    } else {
        let p = pow256_exec(n);
        if u >= p / 2 {
            (u as i128 - p as i128) as i64
        } else {
            u as i64
        }
    }
}

/// The compiled fragment of a node.
pub fn node_fragment(n: &NP_Parsed_Schema) -> (r: Vec<u8>)
    requires
        n.wf(),
    ensures
        r@ == fragment_of(*n),
{
    let mut out: Vec<u8> = Vec::new();
    out.push(n.i.tag());
    let w = n.i.width();
    match n.data {
        NP_Schema_Data::Signed { default } => match default {
            Some(v) => {
                out.push(1);
                let mut b = encode_twos_complement(v, w);
                out.append(&mut b);
            },
            None => {
                out.push(0);
            },
        },
        NP_Schema_Data::Unsigned { default } => match default {
            Some(v) => {
                out.push(1);
                let mut b = encode_be(v, w);
                out.append(&mut b);
            },
            None => {
                out.push(0);
            },
        },
        NP_Schema_Data::Decimal { exp, default } => {
            out.push(exp);
            match default {
                Some(v) => {
                    out.push(1);
                    proof {
                        lemma_pow256_values();
                    }
                    let mut b = encode_twos_complement(v, 8);
                    out.append(&mut b);
                },
                None => {
                    out.push(0);
                },
            }
        },
        NP_Schema_Data::Uuid => {},
    }
    proof {
        let tag = seq![spec_type_tag(n.i)];
        match n.data {
            NP_Schema_Data::Signed { default } => match default {
                Some(v) => assert(out@ =~= tag + seq![1u8] + twos_complement_bytes(v as int, spec_width(n.i))),
                None => assert(out@ =~= tag + seq![0u8]),
            },
            NP_Schema_Data::Unsigned { default } => match default {
                Some(v) => assert(out@ =~= tag + seq![1u8] + be_bytes(v as nat, spec_width(n.i))),
                None => assert(out@ =~= tag + seq![0u8]),
            },
            NP_Schema_Data::Decimal { exp, default } => match default {
                Some(v) => assert(out@ =~= tag + seq![exp, 1u8] + twos_complement_bytes(v as int, 8)),
                None => assert(out@ =~= tag + seq![exp, 0u8]),
            },
            NP_Schema_Data::Uuid => assert(out@ =~= tag),
        }
    }
    out
}

/// Reads the fragment at the start of `s`: the node and how many bytes the
/// fragment took.
pub fn node_from_fragment(s: &[u8]) -> (r: Result<(NP_Parsed_Schema, usize), NP_Error>)
    ensures
        match (r, parse_fragment(s@)) {
            (Ok((n, l)), Ok((m, k))) => n == m && l == k,
            (Err(e), Err(f)) => e == f,
            _ => false,
        },
        r matches Ok((n, l)) ==> n.wf() && l <= s@.len(),
{
    proof {
        lemma_pow256_values();
        if s@.len() >= 2 {
            let k = spec_key_of_tag(s@[0]);
            if k is Some {
                let w = spec_width(k->0);
                if s@.len() >= 2 + w {
                    lemma_twos_complement_fits(s@.subrange(2, 2 + w as int));
                    lemma_be_value_bound(s@.subrange(2, 2 + w as int));
                }
            }
        }
        if s@.len() >= 11 {
            lemma_twos_complement_fits(s@.subrange(3, 11));
        }
    }
    if s.len() == 0 {
        return Err(NP_Error::BadSchemaBytes);
    }
    let k = match NP_TypeKeys::from_tag(s[0]) {
        None => {
            return Err(NP_Error::BadSchemaBytes);
        },
        Some(k) => k,
    };
    let w = k.width();
    match k {
        NP_TypeKeys::Uuid => Ok((new_node(k, NP_Schema_Data::Uuid), 1)),
        NP_TypeKeys::Decimal => {
            if s.len() < 3 {
                Err(NP_Error::BadSchemaBytes)
            } else if s[2] == 0 {
                Ok((new_node(k, NP_Schema_Data::Decimal { exp: s[1], default: None }), 3))
            } else if s.len() < 11 {
                Err(NP_Error::BadSchemaBytes)
            } else {
                let b = slice_range(s, 3, 11);
                let v = decode_twos_complement(b);
                Ok((new_node(k, NP_Schema_Data::Decimal { exp: s[1], default: Some(v) }), 11))
            }
        },
        _ => {
            let signed = matches!(k.num_type(), Some(crate::numbers::NP_NumType::signed));
            if s.len() < 2 {
                Err(NP_Error::BadSchemaBytes)
            } else if s[1] == 0 {
                if signed {
                    Ok((new_node(k, NP_Schema_Data::Signed { default: None }), 2))
                } else {
                    Ok((new_node(k, NP_Schema_Data::Unsigned { default: None }), 2))
                }
            } else if s.len() < 2 + w {
                Err(NP_Error::BadSchemaBytes)
            } else {
                let b = slice_range(s, 2, 2 + w);
                if signed {
                    let v = decode_twos_complement(b);
                    Ok((new_node(k, NP_Schema_Data::Signed { default: Some(v) }), 2 + w))
                } else {
                    let v = decode_be(b);
                    Ok((new_node(k, NP_Schema_Data::Unsigned { default: Some(v) }), 2 + w))
                }
            }
        },
    }
}

/// The bytes of `s` from `a` up to `b`.
pub fn slice_range(s: &[u8], a: usize, b: usize) -> (r: &[u8])
    requires
        a <= b <= s@.len(),
    ensures
        r@ == s@.subrange(a as int, b as int),
{
    vstd::slice::slice_subrange(s, a, b)
}

/// A two's complement value fits the width it was read from.
pub proof fn lemma_twos_complement_fits(b: Seq<u8>)
    requires
        1 <= b.len(),
    ensures
        fits_signed(twos_complement_value(b), b.len()),
{
    lemma_be_value_bound(b);
    lemma_pow256_even(b.len());
}

/// Reading the fragment of a well-formed node gives the node back, and
/// reads exactly the fragment's bytes.
pub proof fn law_fragment_round_trip(n: NP_Parsed_Schema, rest: Seq<u8>)
    requires
        n.wf(),
    ensures
        parse_fragment(fragment_of(n) + rest) == Ok::<(NP_Parsed_Schema, nat), NP_Error>((n, fragment_of(n).len())),
{
    let s = fragment_of(n) + rest;
    let w = spec_width(n.i);
    lemma_pow256_values();
    match n.data {
        NP_Schema_Data::Signed { default } => match default {
            Some(v) => {
                lemma_twos_complement_round_trip(v as int, w);
                assert(s.subrange(2, 2 + w as int) == twos_complement_bytes(v as int, w));
            },
            None => {},
        },
        NP_Schema_Data::Unsigned { default } => match default {
            Some(v) => {
                lemma_be_round_trip(v as nat, w);
                assert(s.subrange(2, 2 + w as int) == be_bytes(v as nat, w));
            },
            None => {},
        },
        NP_Schema_Data::Decimal { exp, default } => match default {
            Some(v) => {
                lemma_twos_complement_round_trip(v as int, 8);
                assert(s.subrange(3, 11) == twos_complement_bytes(v as int, 8));
            },
            None => {},
        },
        NP_Schema_Data::Uuid => {},
    }
}

} // verus!
