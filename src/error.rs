//! Errors of schema compilation and buffer access.
use vstd::prelude::*;

verus! {

/// What went wrong.
#[derive(Clone, Copy, Debug, PartialEq, Eq, Structural)]
pub enum NP_Error {
    /// The declaration names no type.
    MissingType,
    /// The declaration names a type this library does not store.
    UnknownType,
    /// A decimal declaration has no `exp`.
    MissingExp,
    /// A decimal `exp` is not a whole number from 0 to 255.
    ExpOutOfRange,
    /// A declared default does not fit the type.
    DefaultOutOfRange,
    /// The JSON schema document could not be read.
    BadJson,
    /// The IDL text could not be read.
    BadIdl,
    /// A compiled schema fragment is cut short or starts with an unknown tag.
    BadSchemaBytes,
    /// The path names nothing in this schema.
    PathNotFound,
    /// The requested type is not the type the schema declares.
    TypeMismatch,
    /// The value cannot be stored at the schema's decimal exponent.
    ValueOutOfRange,
    /// The buffer would grow past the largest address a pointer can hold.
    OutOfMemory,
}

/// The sentence for each error.
pub open spec fn error_text(e: NP_Error) -> Seq<char> {
    match e {
        NP_Error::MissingType => "The schema declaration has no 'type' property!"@,
        NP_Error::UnknownType => "The schema declares a type that is not supported!"@,
        NP_Error::MissingExp => "Decimal type requires 'exp' property!"@,
        NP_Error::ExpOutOfRange => "Decimal 'exp' property must be between 0 and 255!"@,
        NP_Error::DefaultOutOfRange => "The declared default does not fit the type!"@,
        NP_Error::BadJson => "Error parsing the JSON schema!"@,
        NP_Error::BadIdl => "Error parsing the IDL schema!"@,
        NP_Error::BadSchemaBytes => "The compiled schema bytes are malformed!"@,
        NP_Error::PathNotFound => "The path does not exist in this schema!"@,
        NP_Error::TypeMismatch => "The requested type does not match the schema!"@,
        NP_Error::ValueOutOfRange => "The value cannot be stored with the schema's exponent!"@,
        NP_Error::OutOfMemory => "The buffer is out of address space!"@,
    }
}

impl NP_Error {
    /// A sentence that says what went wrong.
    pub fn message(&self) -> (r: &'static str)
        ensures
            r@ == error_text(*self),
    {
        match self {
            NP_Error::MissingType => "The schema declaration has no 'type' property!",
            NP_Error::UnknownType => "The schema declares a type that is not supported!",
            NP_Error::MissingExp => "Decimal type requires 'exp' property!",
            NP_Error::ExpOutOfRange => "Decimal 'exp' property must be between 0 and 255!",
            NP_Error::DefaultOutOfRange => "The declared default does not fit the type!",
            NP_Error::BadJson => "Error parsing the JSON schema!",
            NP_Error::BadIdl => "Error parsing the IDL schema!",
            NP_Error::BadSchemaBytes => "The compiled schema bytes are malformed!",
            NP_Error::PathNotFound => "The path does not exist in this schema!",
            NP_Error::TypeMismatch => "The requested type does not match the schema!",
            NP_Error::ValueOutOfRange => "The value cannot be stored with the schema's exponent!",
            NP_Error::OutOfMemory => "The buffer is out of address space!",
        }
    }
}

} // verus!
