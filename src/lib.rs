//! Schema-driven binary values stored in a flat byte arena.
//!
//! Scalars (integers, fixed point decimals and UUIDs) read and write
//! themselves at offsets of a growable byte buffer, honour the default value
//! declared in their schema, and compile that schema from a JSON document, a
//! compact IDL text or a binary fragment.
#![allow(non_camel_case_types)]

pub mod bigendian;
pub mod dec;
pub mod text;
pub mod uuid;
pub mod error;
pub mod schema;
pub mod numbers;
pub mod memory;
pub mod compile;
pub mod emit;
pub mod lex;
pub mod json;
pub mod idl;
pub mod factory;
pub mod buffer;
pub mod export;
pub mod import;
pub mod roundtrip;
