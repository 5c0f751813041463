//! The scalar value codec: how each value type turns into the bytes stored
//! for it and back, and which default its schema configuration declares.
//!
//! Signed integers and decimal mantissas are stored big-endian with the sign
//! bit flipped, so that stored bytes compare in the order of the values;
//! unsigned integers are stored big-endian; UUIDs as their sixteen bytes.
use vstd::prelude::*;
use crate::bigendian::{
    pow256, be_value, signed_sortable_bytes, be_bytes, lemma_pow256_values, lemma_pow256_mono,
    lemma_pow256_even, lemma_be_value_bound, lemma_be_round_trip, lemma_signed_round_trip,
    encode_be, decode_be,
};
use crate::dec::{NP_Dec, shifted, fits_i64};
use crate::schema::{NP_TypeKeys, NP_Schema_Data, make_node, spec_width, fits_signed};
use crate::uuid::NP_UUID;
use crate::emit::long_name;

verus! {

/// The kind of number a type holds.
#[derive(Clone, Copy, Debug, PartialEq, Eq, Structural)]
pub enum NP_NumType {
    /// Whole numbers from zero up.
    unsigned,
    /// Whole numbers of either sign.
    signed,
    /// Numbers with a fraction.
    floating,
}

/// The kind of number a type holds, where it holds one.
pub open spec fn spec_num_type(k: NP_TypeKeys) -> Option<NP_NumType> {
    match k {
        NP_TypeKeys::Int8 | NP_TypeKeys::Int16 | NP_TypeKeys::Int32 | NP_TypeKeys::Int64 => Some(
            NP_NumType::signed,
        ),
        NP_TypeKeys::Uint8 | NP_TypeKeys::Uint16 | NP_TypeKeys::Uint32 | NP_TypeKeys::Uint64 => Some(
            NP_NumType::unsigned,
        ),
        _ => None,
    }
}

impl NP_TypeKeys {
    /// The kind of number this type holds: `None` for decimals and UUIDs.
    pub fn num_type(&self) -> (r: Option<NP_NumType>)
        ensures
            r == spec_num_type(*self),
    {
        match self {
            NP_TypeKeys::Int8 | NP_TypeKeys::Int16 | NP_TypeKeys::Int32 | NP_TypeKeys::Int64 => Some(
                NP_NumType::signed,
            ),
            NP_TypeKeys::Uint8 | NP_TypeKeys::Uint16 | NP_TypeKeys::Uint32 | NP_TypeKeys::Uint64 => Some(
                NP_NumType::unsigned,
            ),
            _ => None,
        }
    }
}

/// A value that can be stored in a buffer under a schema node.
pub trait NP_Scalar: Sized + Copy {
    /// The schema type whose values this type reads and writes.
    spec fn spec_key() -> NP_TypeKeys;

    /// The bytes stored for `v` under configuration `data`, or `None` where
    /// `v` cannot be stored there.
    spec fn spec_encode(v: Self, data: NP_Schema_Data) -> Option<Seq<u8>>;

    /// The value read from stored bytes.
    spec fn spec_decode(b: Seq<u8>, data: NP_Schema_Data) -> Self;

    /// The value that reading gives back after `v` was stored.
    spec fn spec_stored(v: Self, data: NP_Schema_Data) -> Self;

    /// The default that the configuration declares.
    spec fn spec_default(data: NP_Schema_Data) -> Option<Self>;

    /// The value a field of this type stands for before anything is set.
    spec fn spec_schema_default(data: NP_Schema_Data) -> Option<Self>;

    /// The largest value, in stored order.
    spec fn spec_max_value(data: NP_Schema_Data) -> Option<Self>;

    /// The smallest value, in stored order.
    spec fn spec_min_value(data: NP_Schema_Data) -> Option<Self>;

    /// The schema type whose values this type reads and writes.
    fn type_key() -> (k: NP_TypeKeys)
        ensures
            k == Self::spec_key(),
    ;

    /// The JSON name and the key of the schema type.
    fn type_idx() -> (r: (&'static str, NP_TypeKeys))
        ensures
            r.0@ == long_name(Self::spec_key()),
            r.1 == Self::spec_key(),
    ;

    /// The value a field of this type stands for before anything is set.
    fn schema_default(data: &NP_Schema_Data) -> (r: Option<Self>)
        requires
            make_node(Self::spec_key(), *data).wf(),
        ensures
            r == Self::spec_schema_default(*data),
    ;

    /// The largest value, in stored order.
    fn np_max_value(data: &NP_Schema_Data) -> (r: Option<Self>)
        requires
            make_node(Self::spec_key(), *data).wf(),
        ensures
            r == Self::spec_max_value(*data),
    ;

    /// The smallest value, in stored order.
    fn np_min_value(data: &NP_Schema_Data) -> (r: Option<Self>)
        requires
            make_node(Self::spec_key(), *data).wf(),
        ensures
            r == Self::spec_min_value(*data),
    ;

    /// The bytes to store for this value, or `None` where it cannot be
    /// stored under `data`.
    fn encode(&self, data: &NP_Schema_Data) -> (r: Option<Vec<u8>>)
        requires
            make_node(Self::spec_key(), *data).wf(),
        ensures
            r is None <==> Self::spec_encode(*self, *data) is None,
            r matches Some(b) ==> Self::spec_encode(*self, *data) == Some(b@) && b@.len()
                == spec_width(Self::spec_key()),
    ;

    /// The value that stored bytes hold.
    fn decode(b: &[u8], data: &NP_Schema_Data) -> (r: Self)
        requires
            make_node(Self::spec_key(), *data).wf(),
            b@.len() == spec_width(Self::spec_key()),
        ensures
            r == Self::spec_decode(b@, *data),
    ;

    /// The default the configuration declares.
    fn default_of(data: &NP_Schema_Data) -> (r: Option<Self>)
        requires
            make_node(Self::spec_key(), *data).wf(),
        ensures
            r == Self::spec_default(*data),
    ;

    /// Reading what was stored gives back the stored value.
    proof fn lemma_round_trip(v: Self, data: NP_Schema_Data)
        requires
            make_node(Self::spec_key(), data).wf(),
            Self::spec_encode(v, data) is Some,
        ensures
            Self::spec_encode(v, data)->0.len() == spec_width(Self::spec_key()),
            Self::spec_decode(Self::spec_encode(v, data)->0, data) == Self::spec_stored(v, data),
    ;
}

/// The sortable bytes of a signed value of `n` bytes.
pub fn encode_sortable(v: i64, n: usize) -> (r: Vec<u8>)
    requires
        1 <= n <= 8,
        fits_signed(v as int, n as nat),
    ensures
        r@ == signed_sortable_bytes(v as int, n as nat),
{
    proof {
        lemma_pow256_values();
        lemma_pow256_mono(n as nat, 8);
        lemma_pow256_even(n as nat);
    }
    let half: i128 = if n == 8 {
        0x8000_0000_0000_0000i128
    } else {
        (crate::schema::pow256_exec(n) / 2) as i128
    };
    encode_be((v as i128 + half) as u64, n)
}

/// The signed value held by sortable bytes.
pub fn decode_sortable(b: &[u8]) -> (r: i64)
    requires
        1 <= b@.len() <= 8,
    ensures
        r == be_value(b@) - pow256(b@.len()) / 2,
{
    let n = b.len();
    proof {
        lemma_pow256_values();
        lemma_pow256_mono(n as nat, 8);
        lemma_pow256_even(n as nat);
        lemma_be_value_bound(b@);
    }
    let half: i128 = if n == 8 {
        0x8000_0000_0000_0000i128
    } else {
        (crate::schema::pow256_exec(n) / 2) as i128
    };
    (decode_be(b) as i128 - half) as i64
}

impl NP_Scalar for i8 {
    open spec fn spec_key() -> NP_TypeKeys {
        NP_TypeKeys::Int8
    }

    open spec fn spec_encode(v: i8, data: NP_Schema_Data) -> Option<Seq<u8>> {
        Some(signed_sortable_bytes(v as int, 1))
    }

    open spec fn spec_decode(b: Seq<u8>, data: NP_Schema_Data) -> i8 {
        (be_value(b) - pow256(1) / 2) as i8
    }

    open spec fn spec_stored(v: i8, data: NP_Schema_Data) -> i8 {
        v
    }

    open spec fn spec_default(data: NP_Schema_Data) -> Option<i8> {
        match data {
            NP_Schema_Data::Signed { default: Some(d) } => Some(d as i8),
            _ => None,
        }
    }

    open spec fn spec_schema_default(data: NP_Schema_Data) -> Option<i8> {
        Some(0)
    }

    open spec fn spec_max_value(data: NP_Schema_Data) -> Option<i8> {
        Some(i8::MAX)
    }

    open spec fn spec_min_value(data: NP_Schema_Data) -> Option<i8> {
        Some(i8::MIN)
    }

    fn type_key() -> (k: NP_TypeKeys) {
        NP_TypeKeys::Int8
    }

    fn type_idx() -> (r: (&'static str, NP_TypeKeys)) {
        ("int8", NP_TypeKeys::Int8)
    }

    fn schema_default(data: &NP_Schema_Data) -> (r: Option<i8>) {
        Some(0)
    }

    fn np_max_value(data: &NP_Schema_Data) -> (r: Option<i8>) {
        Some(i8::MAX)
    }

    fn np_min_value(data: &NP_Schema_Data) -> (r: Option<i8>) {
        Some(i8::MIN)
    }

    fn encode(&self, data: &NP_Schema_Data) -> (r: Option<Vec<u8>>) {
        proof {
            lemma_pow256_values();
            lemma_signed_round_trip(*self as int, 1);
        }
        Some(encode_sortable(*self as i64, 1))
    }

    fn decode(b: &[u8], data: &NP_Schema_Data) -> (r: i8) {
        proof {
            lemma_pow256_values();
            lemma_be_value_bound(b@);
        }
        decode_sortable(b) as i8
    }

    fn default_of(data: &NP_Schema_Data) -> (r: Option<i8>) {
        match data {
            NP_Schema_Data::Signed { default: Some(d) } => Some(*d as i8),
            _ => None,
        }
    }

    proof fn lemma_round_trip(v: i8, data: NP_Schema_Data) {
        lemma_pow256_values();
        lemma_signed_round_trip(v as int, 1);
    }
}

impl NP_Scalar for i16 {
    open spec fn spec_key() -> NP_TypeKeys {
        NP_TypeKeys::Int16
    }

    open spec fn spec_encode(v: i16, data: NP_Schema_Data) -> Option<Seq<u8>> {
        Some(signed_sortable_bytes(v as int, 2))
    }

    open spec fn spec_decode(b: Seq<u8>, data: NP_Schema_Data) -> i16 {
        (be_value(b) - pow256(2) / 2) as i16
    }

    open spec fn spec_stored(v: i16, data: NP_Schema_Data) -> i16 {
        v
    }

    open spec fn spec_default(data: NP_Schema_Data) -> Option<i16> {
        match data {
            NP_Schema_Data::Signed { default: Some(d) } => Some(d as i16),
            _ => None,
        }
    }

    open spec fn spec_schema_default(data: NP_Schema_Data) -> Option<i16> {
        Some(0)
    }

    open spec fn spec_max_value(data: NP_Schema_Data) -> Option<i16> {
        Some(i16::MAX)
    }

    open spec fn spec_min_value(data: NP_Schema_Data) -> Option<i16> {
        Some(i16::MIN)
    }

    fn type_key() -> (k: NP_TypeKeys) {
        NP_TypeKeys::Int16
    }

    fn type_idx() -> (r: (&'static str, NP_TypeKeys)) {
        ("int16", NP_TypeKeys::Int16)
    }

    fn schema_default(data: &NP_Schema_Data) -> (r: Option<i16>) {
        Some(0)
    }

    fn np_max_value(data: &NP_Schema_Data) -> (r: Option<i16>) {
        Some(i16::MAX)
    }

    fn np_min_value(data: &NP_Schema_Data) -> (r: Option<i16>) {
        Some(i16::MIN)
    }

    fn encode(&self, data: &NP_Schema_Data) -> (r: Option<Vec<u8>>) {
        proof {
            lemma_pow256_values();
            lemma_signed_round_trip(*self as int, 2);
        }
        Some(encode_sortable(*self as i64, 2))
    }

    fn decode(b: &[u8], data: &NP_Schema_Data) -> (r: i16) {
        proof {
            lemma_pow256_values();
            lemma_be_value_bound(b@);
        }
        decode_sortable(b) as i16
    }

    fn default_of(data: &NP_Schema_Data) -> (r: Option<i16>) {
        match data {
            NP_Schema_Data::Signed { default: Some(d) } => Some(*d as i16),
            _ => None,
        }
    }

    proof fn lemma_round_trip(v: i16, data: NP_Schema_Data) {
        lemma_pow256_values();
        lemma_signed_round_trip(v as int, 2);
    }
}

impl NP_Scalar for i32 {
    open spec fn spec_key() -> NP_TypeKeys {
        NP_TypeKeys::Int32
    }

    open spec fn spec_encode(v: i32, data: NP_Schema_Data) -> Option<Seq<u8>> {
        Some(signed_sortable_bytes(v as int, 4))
    }

    open spec fn spec_decode(b: Seq<u8>, data: NP_Schema_Data) -> i32 {
        (be_value(b) - pow256(4) / 2) as i32
    }

    open spec fn spec_stored(v: i32, data: NP_Schema_Data) -> i32 {
        v
    }

    open spec fn spec_default(data: NP_Schema_Data) -> Option<i32> {
        match data {
            NP_Schema_Data::Signed { default: Some(d) } => Some(d as i32),
            _ => None,
        }
    }

    open spec fn spec_schema_default(data: NP_Schema_Data) -> Option<i32> {
        Some(0)
    }

    open spec fn spec_max_value(data: NP_Schema_Data) -> Option<i32> {
        Some(i32::MAX)
    }

    open spec fn spec_min_value(data: NP_Schema_Data) -> Option<i32> {
        Some(i32::MIN)
    }

    fn type_key() -> (k: NP_TypeKeys) {
        NP_TypeKeys::Int32
    }

    fn type_idx() -> (r: (&'static str, NP_TypeKeys)) {
        ("int32", NP_TypeKeys::Int32)
    }

    fn schema_default(data: &NP_Schema_Data) -> (r: Option<i32>) {
        Some(0)
    }

    fn np_max_value(data: &NP_Schema_Data) -> (r: Option<i32>) {
        Some(i32::MAX)
    }

    fn np_min_value(data: &NP_Schema_Data) -> (r: Option<i32>) {
        Some(i32::MIN)
    }

    fn encode(&self, data: &NP_Schema_Data) -> (r: Option<Vec<u8>>) {
        proof {
            lemma_pow256_values();
            lemma_signed_round_trip(*self as int, 4);
        }
        Some(encode_sortable(*self as i64, 4))
    }

    fn decode(b: &[u8], data: &NP_Schema_Data) -> (r: i32) {
        proof {
            lemma_pow256_values();
            lemma_be_value_bound(b@);
        }
        decode_sortable(b) as i32
    }

    fn default_of(data: &NP_Schema_Data) -> (r: Option<i32>) {
        match data {
            NP_Schema_Data::Signed { default: Some(d) } => Some(*d as i32),
            _ => None,
        }
    }

    proof fn lemma_round_trip(v: i32, data: NP_Schema_Data) {
        lemma_pow256_values();
        lemma_signed_round_trip(v as int, 4);
    }
}

impl NP_Scalar for i64 {
    open spec fn spec_key() -> NP_TypeKeys {
        NP_TypeKeys::Int64
    }

    open spec fn spec_encode(v: i64, data: NP_Schema_Data) -> Option<Seq<u8>> {
        Some(signed_sortable_bytes(v as int, 8))
    }

    open spec fn spec_decode(b: Seq<u8>, data: NP_Schema_Data) -> i64 {
        (be_value(b) - pow256(8) / 2) as i64
    }

    open spec fn spec_stored(v: i64, data: NP_Schema_Data) -> i64 {
        v
    }

    open spec fn spec_default(data: NP_Schema_Data) -> Option<i64> {
        match data {
            NP_Schema_Data::Signed { default: Some(d) } => Some(d as i64),
            _ => None,
        }
    }

    open spec fn spec_schema_default(data: NP_Schema_Data) -> Option<i64> {
        Some(0)
    }

    open spec fn spec_max_value(data: NP_Schema_Data) -> Option<i64> {
        Some(i64::MAX)
    }

    open spec fn spec_min_value(data: NP_Schema_Data) -> Option<i64> {
        Some(i64::MIN)
    }

    fn type_key() -> (k: NP_TypeKeys) {
        NP_TypeKeys::Int64
    }

    fn type_idx() -> (r: (&'static str, NP_TypeKeys)) {
        ("int64", NP_TypeKeys::Int64)
    }

    fn schema_default(data: &NP_Schema_Data) -> (r: Option<i64>) {
        Some(0)
    }

    fn np_max_value(data: &NP_Schema_Data) -> (r: Option<i64>) {
        Some(i64::MAX)
    }

    fn np_min_value(data: &NP_Schema_Data) -> (r: Option<i64>) {
        Some(i64::MIN)
    }

    fn encode(&self, data: &NP_Schema_Data) -> (r: Option<Vec<u8>>) {
        proof {
            lemma_pow256_values();
            lemma_signed_round_trip(*self as int, 8);
        }
        Some(encode_sortable(*self as i64, 8))
    }

    fn decode(b: &[u8], data: &NP_Schema_Data) -> (r: i64) {
        proof {
            lemma_pow256_values();
            lemma_be_value_bound(b@);
        }
        decode_sortable(b) as i64
    }

    fn default_of(data: &NP_Schema_Data) -> (r: Option<i64>) {
        match data {
            NP_Schema_Data::Signed { default: Some(d) } => Some(*d as i64),
            _ => None,
        }
    }

    proof fn lemma_round_trip(v: i64, data: NP_Schema_Data) {
        lemma_pow256_values();
        lemma_signed_round_trip(v as int, 8);
    }
}

impl NP_Scalar for u8 {
    open spec fn spec_key() -> NP_TypeKeys {
        NP_TypeKeys::Uint8
    }

    open spec fn spec_encode(v: u8, data: NP_Schema_Data) -> Option<Seq<u8>> {
        Some(be_bytes(v as nat, 1))
    }

    open spec fn spec_decode(b: Seq<u8>, data: NP_Schema_Data) -> u8 {
        be_value(b) as u8
    }

    open spec fn spec_stored(v: u8, data: NP_Schema_Data) -> u8 {
        v
    }

    open spec fn spec_default(data: NP_Schema_Data) -> Option<u8> {
        match data {
            NP_Schema_Data::Unsigned { default: Some(d) } => Some(d as u8),
            _ => None,
        }
    }

    open spec fn spec_schema_default(data: NP_Schema_Data) -> Option<u8> {
        Some(0)
    }

    open spec fn spec_max_value(data: NP_Schema_Data) -> Option<u8> {
        Some(u8::MAX)
    }

    open spec fn spec_min_value(data: NP_Schema_Data) -> Option<u8> {
        Some(u8::MIN)
    }

    fn type_key() -> (k: NP_TypeKeys) {
        NP_TypeKeys::Uint8
    }

    fn type_idx() -> (r: (&'static str, NP_TypeKeys)) {
        ("uint8", NP_TypeKeys::Uint8)
    }

    fn schema_default(data: &NP_Schema_Data) -> (r: Option<u8>) {
        Some(0)
    }

    fn np_max_value(data: &NP_Schema_Data) -> (r: Option<u8>) {
        Some(u8::MAX)
    }

    fn np_min_value(data: &NP_Schema_Data) -> (r: Option<u8>) {
        Some(u8::MIN)
    }

    fn encode(&self, data: &NP_Schema_Data) -> (r: Option<Vec<u8>>) {
        proof {
            lemma_pow256_values();
            lemma_be_round_trip(*self as nat, 1);
        }
        Some(encode_be(*self as u64, 1))
    }

    fn decode(b: &[u8], data: &NP_Schema_Data) -> (r: u8) {
        decode_be(b) as u8
    }

    fn default_of(data: &NP_Schema_Data) -> (r: Option<u8>) {
        match data {
            NP_Schema_Data::Unsigned { default: Some(d) } => Some(*d as u8),
            _ => None,
        }
    }

    proof fn lemma_round_trip(v: u8, data: NP_Schema_Data) {
        lemma_pow256_values();
        lemma_be_round_trip(v as nat, 1);
    }
}

impl NP_Scalar for u16 {
    open spec fn spec_key() -> NP_TypeKeys {
        NP_TypeKeys::Uint16
    }

    open spec fn spec_encode(v: u16, data: NP_Schema_Data) -> Option<Seq<u8>> {
        Some(be_bytes(v as nat, 2))
    }

    open spec fn spec_decode(b: Seq<u8>, data: NP_Schema_Data) -> u16 {
        be_value(b) as u16
    }

    open spec fn spec_stored(v: u16, data: NP_Schema_Data) -> u16 {
        v
    }

    open spec fn spec_default(data: NP_Schema_Data) -> Option<u16> {
        match data {
            NP_Schema_Data::Unsigned { default: Some(d) } => Some(d as u16),
            _ => None,
        }
    }

    open spec fn spec_schema_default(data: NP_Schema_Data) -> Option<u16> {
        Some(0)
    }

    open spec fn spec_max_value(data: NP_Schema_Data) -> Option<u16> {
        Some(u16::MAX)
    }

    open spec fn spec_min_value(data: NP_Schema_Data) -> Option<u16> {
        Some(u16::MIN)
    }

    fn type_key() -> (k: NP_TypeKeys) {
        NP_TypeKeys::Uint16
    }

    fn type_idx() -> (r: (&'static str, NP_TypeKeys)) {
        ("uint16", NP_TypeKeys::Uint16)
    }

    fn schema_default(data: &NP_Schema_Data) -> (r: Option<u16>) {
        Some(0)
    }

    fn np_max_value(data: &NP_Schema_Data) -> (r: Option<u16>) {
        Some(u16::MAX)
    }

    fn np_min_value(data: &NP_Schema_Data) -> (r: Option<u16>) {
        Some(u16::MIN)
    }

    fn encode(&self, data: &NP_Schema_Data) -> (r: Option<Vec<u8>>) {
        proof {
            lemma_pow256_values();
            lemma_be_round_trip(*self as nat, 2);
        }
        Some(encode_be(*self as u64, 2))
    }

    fn decode(b: &[u8], data: &NP_Schema_Data) -> (r: u16) {
        decode_be(b) as u16
    }

    fn default_of(data: &NP_Schema_Data) -> (r: Option<u16>) {
        match data {
            NP_Schema_Data::Unsigned { default: Some(d) } => Some(*d as u16),
            _ => None,
        }
    }

    proof fn lemma_round_trip(v: u16, data: NP_Schema_Data) {
        lemma_pow256_values();
        lemma_be_round_trip(v as nat, 2);
    }
}

impl NP_Scalar for u32 {
    open spec fn spec_key() -> NP_TypeKeys {
        NP_TypeKeys::Uint32
    }

    open spec fn spec_encode(v: u32, data: NP_Schema_Data) -> Option<Seq<u8>> {
        Some(be_bytes(v as nat, 4))
    }

    open spec fn spec_decode(b: Seq<u8>, data: NP_Schema_Data) -> u32 {
        be_value(b) as u32
    }

    open spec fn spec_stored(v: u32, data: NP_Schema_Data) -> u32 {
        v
    }

    open spec fn spec_default(data: NP_Schema_Data) -> Option<u32> {
        match data {
            NP_Schema_Data::Unsigned { default: Some(d) } => Some(d as u32),
            _ => None,
        }
    }

    open spec fn spec_schema_default(data: NP_Schema_Data) -> Option<u32> {
        Some(0)
    }

    open spec fn spec_max_value(data: NP_Schema_Data) -> Option<u32> {
        Some(u32::MAX)
    }

    open spec fn spec_min_value(data: NP_Schema_Data) -> Option<u32> {
        Some(u32::MIN)
    }

    fn type_key() -> (k: NP_TypeKeys) {
        NP_TypeKeys::Uint32
    }

    fn type_idx() -> (r: (&'static str, NP_TypeKeys)) {
        ("uint32", NP_TypeKeys::Uint32)
    }

    fn schema_default(data: &NP_Schema_Data) -> (r: Option<u32>) {
        Some(0)
    }

    fn np_max_value(data: &NP_Schema_Data) -> (r: Option<u32>) {
        Some(u32::MAX)
    }

    fn np_min_value(data: &NP_Schema_Data) -> (r: Option<u32>) {
        Some(u32::MIN)
    }

    fn encode(&self, data: &NP_Schema_Data) -> (r: Option<Vec<u8>>) {
        proof {
            lemma_pow256_values();
            lemma_be_round_trip(*self as nat, 4);
        }
        Some(encode_be(*self as u64, 4))
    }

    fn decode(b: &[u8], data: &NP_Schema_Data) -> (r: u32) {
        decode_be(b) as u32
    }

    fn default_of(data: &NP_Schema_Data) -> (r: Option<u32>) {
        match data {
            NP_Schema_Data::Unsigned { default: Some(d) } => Some(*d as u32),
            _ => None,
        }
    }

    proof fn lemma_round_trip(v: u32, data: NP_Schema_Data) {
        lemma_pow256_values();
        lemma_be_round_trip(v as nat, 4);
    }
}

impl NP_Scalar for u64 {
    open spec fn spec_key() -> NP_TypeKeys {
        NP_TypeKeys::Uint64
    }

    open spec fn spec_encode(v: u64, data: NP_Schema_Data) -> Option<Seq<u8>> {
        Some(be_bytes(v as nat, 8))
    }

    open spec fn spec_decode(b: Seq<u8>, data: NP_Schema_Data) -> u64 {
        be_value(b) as u64
    }

    open spec fn spec_stored(v: u64, data: NP_Schema_Data) -> u64 {
        v
    }

    open spec fn spec_default(data: NP_Schema_Data) -> Option<u64> {
        match data {
            NP_Schema_Data::Unsigned { default: Some(d) } => Some(d as u64),
            _ => None,
        }
    }

    open spec fn spec_schema_default(data: NP_Schema_Data) -> Option<u64> {
        Some(0)
    }

    open spec fn spec_max_value(data: NP_Schema_Data) -> Option<u64> {
        Some(u64::MAX)
    }

    open spec fn spec_min_value(data: NP_Schema_Data) -> Option<u64> {
        Some(u64::MIN)
    }

    fn type_key() -> (k: NP_TypeKeys) {
        NP_TypeKeys::Uint64
    }

    fn type_idx() -> (r: (&'static str, NP_TypeKeys)) {
        ("uint64", NP_TypeKeys::Uint64)
    }

    fn schema_default(data: &NP_Schema_Data) -> (r: Option<u64>) {
        Some(0)
    }

    fn np_max_value(data: &NP_Schema_Data) -> (r: Option<u64>) {
        Some(u64::MAX)
    }

    fn np_min_value(data: &NP_Schema_Data) -> (r: Option<u64>) {
        Some(u64::MIN)
    }

    fn encode(&self, data: &NP_Schema_Data) -> (r: Option<Vec<u8>>) {
        proof {
            lemma_pow256_values();
            lemma_be_round_trip(*self as nat, 8);
        }
        Some(encode_be(*self as u64, 8))
    }

    fn decode(b: &[u8], data: &NP_Schema_Data) -> (r: u64) {
        decode_be(b) as u64
    }

    fn default_of(data: &NP_Schema_Data) -> (r: Option<u64>) {
        match data {
            NP_Schema_Data::Unsigned { default: Some(d) } => Some(*d as u64),
            _ => None,
        }
    }

    proof fn lemma_round_trip(v: u64, data: NP_Schema_Data) {
        lemma_pow256_values();
        lemma_be_round_trip(v as nat, 8);
    }
}

/// The exponent a decimal configuration declares.
pub open spec fn dec_exp(data: NP_Schema_Data) -> u8 {
    match data {
        NP_Schema_Data::Decimal { exp, .. } => exp,
        _ => 0,
    }
}

/// The mantissa of `v` at the configuration's exponent.
pub open spec fn dec_mantissa(v: NP_Dec, data: NP_Schema_Data) -> int {
    shifted(v.num as int, v.exp as nat, dec_exp(data) as nat)
}

impl NP_Scalar for NP_Dec {
    open spec fn spec_key() -> NP_TypeKeys {
        NP_TypeKeys::Decimal
    }

    open spec fn spec_encode(v: NP_Dec, data: NP_Schema_Data) -> Option<Seq<u8>> {
        if fits_i64(dec_mantissa(v, data)) {
            Some(signed_sortable_bytes(dec_mantissa(v, data), 8))
        } else {
            None
        }
    }

    open spec fn spec_decode(b: Seq<u8>, data: NP_Schema_Data) -> NP_Dec {
        NP_Dec { num: (be_value(b) - pow256(8) / 2) as i64, exp: dec_exp(data) }
    }

    open spec fn spec_stored(v: NP_Dec, data: NP_Schema_Data) -> NP_Dec {
        NP_Dec { num: dec_mantissa(v, data) as i64, exp: dec_exp(data) }
    }

    open spec fn spec_default(data: NP_Schema_Data) -> Option<NP_Dec> {
        match data {
            NP_Schema_Data::Decimal { exp, default: Some(d) } => Some(NP_Dec { num: d, exp }),
            _ => None,
        }
    }

    open spec fn spec_schema_default(data: NP_Schema_Data) -> Option<NP_Dec> {
        Some(NP_Dec { num: 0, exp: dec_exp(data) })
    }

    open spec fn spec_max_value(data: NP_Schema_Data) -> Option<NP_Dec> {
        Some(NP_Dec { num: i64::MAX, exp: dec_exp(data) })
    }

    open spec fn spec_min_value(data: NP_Schema_Data) -> Option<NP_Dec> {
        Some(NP_Dec { num: i64::MIN, exp: dec_exp(data) })
    }

    fn type_key() -> (k: NP_TypeKeys) {
        NP_TypeKeys::Decimal
    }

    fn type_idx() -> (r: (&'static str, NP_TypeKeys)) {
        ("decimal", NP_TypeKeys::Decimal)
    }

    fn schema_default(data: &NP_Schema_Data) -> (r: Option<NP_Dec>) {
        Some(NP_Dec::new(0, data_exp(data)))
    }

    fn np_max_value(data: &NP_Schema_Data) -> (r: Option<NP_Dec>) {
        Some(NP_Dec::new(i64::MAX, data_exp(data)))
    }

    fn np_min_value(data: &NP_Schema_Data) -> (r: Option<NP_Dec>) {
        Some(NP_Dec::new(i64::MIN, data_exp(data)))
    }

    fn encode(&self, data: &NP_Schema_Data) -> (r: Option<Vec<u8>>) {
        let exp = match data {
            NP_Schema_Data::Decimal { exp, .. } => *exp,
            _ => 0,
        };
        match shifted_mantissa(self, exp) {
            None => None,
            Some(m) => {
                proof {
                    lemma_pow256_values();
                    lemma_signed_round_trip(m as int, 8);
                }
                Some(encode_sortable(m, 8))
            },
        }
    }

    fn decode(b: &[u8], data: &NP_Schema_Data) -> (r: NP_Dec) {
        let exp = match data {
            NP_Schema_Data::Decimal { exp, .. } => *exp,
            _ => 0,
        };
        proof {
            lemma_pow256_values();
        }
        NP_Dec::new(decode_sortable(b), exp)
    }

    fn default_of(data: &NP_Schema_Data) -> (r: Option<NP_Dec>) {
        match data {
            NP_Schema_Data::Decimal { exp, default: Some(d) } => Some(NP_Dec::new(*d, *exp)),
            _ => None,
        }
    }

    proof fn lemma_round_trip(v: NP_Dec, data: NP_Schema_Data) {
        lemma_pow256_values();
        lemma_signed_round_trip(dec_mantissa(v, data), 8);
    }
}

/// Value round trip: the bytes stored for a value read back as the value
/// itself for integers and UUIDs, and as the value at the schema's exponent
/// for decimals.
pub proof fn law_value_round_trip<T: NP_Scalar>(v: T, data: NP_Schema_Data)
    requires
        make_node(T::spec_key(), data).wf(),
        T::spec_encode(v, data) is Some,
    ensures
        T::spec_decode(T::spec_encode(v, data)->0, data) == T::spec_stored(v, data),
{
    T::lemma_round_trip(v, data);
}

/// A decimal stored under a schema whose exponent is no smaller than its
/// own reads back as the same number, and as itself where the exponents
/// agree.
pub proof fn law_decimal_keeps_value(v: NP_Dec, data: NP_Schema_Data)
    requires
        data is Decimal,
        v.exp <= dec_exp(data),
        fits_i64(dec_mantissa(v, data)),
    ensures
        NP_Dec::spec_stored(v, data).same_value(v),
        v.exp == dec_exp(data) ==> NP_Dec::spec_stored(v, data) == v,
{
    let s = NP_Dec::spec_stored(v, data);
    crate::dec::lemma_pow10_zero(s.num as int);
    crate::dec::lemma_pow10_zero(v.num as int);
}

/// The mantissa of `v` at exponent `exp`, or `None` where it leaves the
/// range of `i64`.
pub fn shifted_mantissa(v: &NP_Dec, exp: u8) -> (r: Option<i64>)
    ensures
        r is Some <==> fits_i64(shifted(v.num as int, v.exp as nat, exp as nat)),
        r matches Some(m) ==> m == shifted(v.num as int, v.exp as nat, exp as nat),
{
    if v.exp >= exp {
        let mut c = *v;
        proof {
            crate::dec::lemma_pow10_positive((v.exp - exp) as nat);
            crate::dec::lemma_trunc_div_bound(v.num as int, crate::dec::pow10((v.exp - exp) as nat) as int);
            crate::dec::lemma_pow10_zero(v.num as int);
        }
        c.shift_exp(exp);
        Some(c.num)
    } else {
        let lo = NP_Dec::new(i64::MIN, exp);
        let hi = NP_Dec::new(i64::MAX, exp);
        let below = lo.compare(v);
        let above = hi.compare(v);
        proof {
            crate::dec::lemma_pow10_zero(i64::MIN as int);
        }
        match (below, above) {
            (core::cmp::Ordering::Greater, _) => None,
            (_, core::cmp::Ordering::Less) => None,
            _ => {
                let mut c = *v;
                c.shift_exp(exp);
                Some(c.num)
            },
        }
    }
}

impl NP_Scalar for NP_UUID {
    open spec fn spec_key() -> NP_TypeKeys {
        NP_TypeKeys::Uuid
    }

    open spec fn spec_encode(v: NP_UUID, data: NP_Schema_Data) -> Option<Seq<u8>> {
        Some(v.value@)
    }

    open spec fn spec_decode(b: Seq<u8>, data: NP_Schema_Data) -> NP_UUID {
        NP_UUID { value: uuid_array(b) }
    }

    open spec fn spec_stored(v: NP_UUID, data: NP_Schema_Data) -> NP_UUID {
        v
    }

    open spec fn spec_default(data: NP_Schema_Data) -> Option<NP_UUID> {
        None
    }

    open spec fn spec_schema_default(data: NP_Schema_Data) -> Option<NP_UUID> {
        Some(NP_UUID { value: uuid_array(Seq::new(16, |i: int| 0u8)) })
    }

    open spec fn spec_max_value(data: NP_Schema_Data) -> Option<NP_UUID> {
        Some(NP_UUID { value: uuid_array(Seq::new(16, |i: int| 255u8)) })
    }

    open spec fn spec_min_value(data: NP_Schema_Data) -> Option<NP_UUID> {
        Some(NP_UUID { value: uuid_array(Seq::new(16, |i: int| 0u8)) })
    }

    fn type_key() -> (k: NP_TypeKeys) {
        NP_TypeKeys::Uuid
    }

    fn type_idx() -> (r: (&'static str, NP_TypeKeys)) {
        ("uuid", NP_TypeKeys::Uuid)
    }

    fn schema_default(data: &NP_Schema_Data) -> (r: Option<NP_UUID>) {
        Some(uuid_filled(0))
    }

    fn np_max_value(data: &NP_Schema_Data) -> (r: Option<NP_UUID>) {
        Some(uuid_filled(255))
    }

    fn np_min_value(data: &NP_Schema_Data) -> (r: Option<NP_UUID>) {
        Some(uuid_filled(0))
    }

    fn encode(&self, data: &NP_Schema_Data) -> (r: Option<Vec<u8>>) {
        let mut out: Vec<u8> = Vec::new();
        let mut i: usize = 0;
        while i < 16
            invariant
                i <= 16,
                self.value@.len() == 16,
                out@ == self.value@.subrange(0, i as int),
            decreases 16 - i,
        {
            out.push(self.value[i]);
            i = i + 1;
            assert(out@ =~= self.value@.subrange(0, i as int));
        }
        assert(out@ =~= self.value@);
        Some(out)
    }

    fn decode(b: &[u8], data: &NP_Schema_Data) -> (r: NP_UUID) {
        let mut value: [u8; 16] = [0u8; 16];
        let mut i: usize = 0;
        while i < 16
            invariant
                i <= 16,
                b@.len() == 16,
                value@.len() == 16,
                forall|j: int| 0 <= j < i ==> value@[j] == b@[j],
            decreases 16 - i,
        {
            value[i] = b[i];
            i = i + 1;
        }
        assert(value@ =~= b@);
        proof {
            lemma_uuid_array(value, b@);
        }
        NP_UUID { value }
    }

    fn default_of(data: &NP_Schema_Data) -> (r: Option<NP_UUID>) {
        None
    }

    proof fn lemma_round_trip(v: NP_UUID, data: NP_Schema_Data) {
        lemma_uuid_array(v.value, v.value@);
    }
}

/// The UUID whose sixteen bytes are all `b`.
fn uuid_filled(b: u8) -> (r: NP_UUID)
    ensures
        r == (NP_UUID { value: uuid_array(Seq::new(16, |i: int| b)) }),
{
    let value: [u8; 16] = [b; 16];
    assert(value@ =~= Seq::new(16, |i: int| b));
    proof {
        lemma_uuid_array(value, Seq::new(16, |i: int| b));
    }
    NP_UUID { value }
}

/// The exponent a decimal configuration declares.
fn data_exp(data: &NP_Schema_Data) -> (r: u8)
    ensures
        r == dec_exp(*data),
{
    match data {
        NP_Schema_Data::Decimal { exp, .. } => *exp,
        _ => 0,
    }
}

/// The array of sixteen bytes whose view is `b`.
pub open spec fn uuid_array(b: Seq<u8>) -> [u8; 16] {
    choose|a: [u8; 16]| a@ == b
}

proof fn lemma_uuid_array(a: [u8; 16], b: Seq<u8>)
    requires
        a@ == b,
    ensures
        uuid_array(b) == a,
{
    let c = uuid_array(b);
    assert(c@ == b);
    assert(c == a) by {
        assert(c@ =~= a@);
        vstd::array::lemma_array_index::<u8, 16>(a, 0);
    }
}

} // verus!
