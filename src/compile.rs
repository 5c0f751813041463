//! From a declaration (a type name with optional `exp` and `default`
//! numbers, as the JSON and IDL front ends read them) to a compiled node.
use vstd::prelude::*;
use crate::bigendian::lemma_pow256_values;
use crate::dec::fits_i64;
use crate::error::NP_Error;
use crate::schema::{
    NP_TypeKeys, NP_Schema_Data, NP_Parsed_Schema, make_node, new_node, spec_width, is_signed,
    fits_signed, fits_unsigned,
};

verus! {

/// A number as written: its sign, the digits before the decimal point and
/// those after it.
#[derive(Debug)]
pub struct NP_Number {
    pub negative: bool,
    /// Digits (each below ten) before the point.
    pub whole: Vec<u8>,
    /// Whether a decimal point was written.
    pub point: bool,
    /// Digits (each below ten) after the point.
    pub fraction: Vec<u8>,
}

/// A scalar declaration: the type's name and its `exp` and `default`
/// arguments where they were given as numbers.
#[derive(Debug)]
pub struct NP_Declaration {
    pub kind_name: Vec<char>,
    pub exp: Option<NP_Number>,
    pub default: Option<NP_Number>,
}

/// The value of decimal digits, most significant first.
pub open spec fn digits_value(d: Seq<u8>) -> nat
    decreases d.len(),
{
    if d.len() == 0 {
        0
    } else {
        (digits_value(d.drop_last()) * 10 + d.last()) as nat
    }
}

pub open spec fn all_digits(d: Seq<u8>) -> bool {
    forall|i: int| 0 <= i < d.len() ==> d[i] < 10
}

/// A number as written, in spec form.
pub struct NumberView {
    pub negative: bool,
    pub whole: Seq<u8>,
    pub point: bool,
    pub fraction: Seq<u8>,
}

impl NumberView {
    pub open spec fn wf(self) -> bool {
        all_digits(self.whole) && all_digits(self.fraction)
    }

    /// The digits of the number times `10^e`, the fraction cut or padded to
    /// `e` digits.
    pub open spec fn scaled_digits(self, e: nat) -> Seq<u8> {
        self.whole + Seq::new(
            e,
            |i: int|
                if i < self.fraction.len() {
                    self.fraction[i]
                } else {
                    0
                },
        )
    }

    /// The number times `10^e`, truncated toward zero.
    pub open spec fn value_at(self, e: nat) -> int {
        let m = digits_value(self.scaled_digits(e)) as int;
        if self.negative {
            -m
        } else {
            m
        }
    }

    /// A whole number from 0 to 255, with no point written.
    pub open spec fn is_exp(self) -> bool {
        !self.point && 0 <= self.value_at(0) <= 255
    }
}

impl View for NP_Number {
    type V = NumberView;

    open spec fn view(&self) -> NumberView {
        NumberView {
            negative: self.negative,
            whole: self.whole@,
            point: self.point,
            fraction: self.fraction@,
        }
    }
}

impl NP_Number {
    pub open spec fn wf(self) -> bool {
        self@.wf()
    }
}

/// A declaration, in spec form.
pub struct DeclView {
    pub kind: Seq<char>,
    pub exp: Option<NumberView>,
    pub default: Option<NumberView>,
}

/// The spec form of an optional number.
pub open spec fn opt_view(n: Option<NP_Number>) -> Option<NumberView> {
    match n {
        Some(x) => Some(x@),
        None => None,
    }
}

impl View for NP_Declaration {
    type V = DeclView;

    open spec fn view(&self) -> DeclView {
        DeclView { kind: self.kind_name@, exp: opt_view(self.exp), default: opt_view(self.default) }
    }
}

impl NP_Declaration {
    pub open spec fn wf(self) -> bool {
        &&& self.exp matches Some(e) ==> e.wf()
        &&& self.default matches Some(d) ==> d.wf()
    }
}

/// The type a name declares: the long name of a JSON document or the short
/// one of the IDL, either way.
pub open spec fn key_of_name(s: Seq<char>) -> Option<NP_TypeKeys> {
    if s == "int8"@ || s == "i8"@ {
        Some(NP_TypeKeys::Int8)
    } else if s == "int16"@ || s == "i16"@ {
        Some(NP_TypeKeys::Int16)
    } else if s == "int32"@ || s == "i32"@ {
        Some(NP_TypeKeys::Int32)
    } else if s == "int64"@ || s == "i64"@ {
        Some(NP_TypeKeys::Int64)
    } else if s == "uint8"@ || s == "u8"@ {
        Some(NP_TypeKeys::Uint8)
    } else if s == "uint16"@ || s == "u16"@ {
        Some(NP_TypeKeys::Uint16)
    } else if s == "uint32"@ || s == "u32"@ {
        Some(NP_TypeKeys::Uint32)
    } else if s == "uint64"@ || s == "u64"@ {
        Some(NP_TypeKeys::Uint64)
    } else if s == "decimal"@ || s == "dec"@ {
        Some(NP_TypeKeys::Decimal)
    } else if s == "uuid"@ {
        Some(NP_TypeKeys::Uuid)
    } else {
        None
    }
}

/// The node a declaration compiles to, or why it does not compile.
pub open spec fn compile_decl(d: DeclView) -> Result<NP_Parsed_Schema, NP_Error> {
    match key_of_name(d.kind) {
        None => Err(NP_Error::UnknownType),
        Some(k) => if k is Uuid {
            Ok(make_node(k, NP_Schema_Data::Uuid))
        } else if k is Decimal {
            match d.exp {
                None => Err(NP_Error::MissingExp),
                Some(e) => if !e.is_exp() {
                    Err(NP_Error::ExpOutOfRange)
                } else {
                    let x = e.value_at(0) as u8;
                    match d.default {
                        None => Ok(make_node(k, NP_Schema_Data::Decimal { exp: x, default: None })),
                        Some(v) => if fits_i64(v.value_at(x as nat)) {
                            Ok(make_node(k, NP_Schema_Data::Decimal { exp: x, default: Some(v.value_at(x as nat) as i64) }))
                        } else {
                            Err(NP_Error::DefaultOutOfRange)
                        },
                    }
                },
            }
        } else if is_signed(k) {
            match d.default {
                None => Ok(make_node(k, NP_Schema_Data::Signed { default: None })),
                Some(v) => if fits_signed(v.value_at(0), spec_width(k)) {
                    Ok(make_node(k, NP_Schema_Data::Signed { default: Some(v.value_at(0) as i64) }))
                } else {
                    Err(NP_Error::DefaultOutOfRange)
                },
            }
        } else {
            match d.default {
                None => Ok(make_node(k, NP_Schema_Data::Unsigned { default: None })),
                Some(v) => if fits_unsigned(v.value_at(0), spec_width(k)) {
                    Ok(make_node(k, NP_Schema_Data::Unsigned { default: Some(v.value_at(0) as u64) }))
                } else {
                    Err(NP_Error::DefaultOutOfRange)
                },
            }
        },
    }
}

/// Whether `a` holds exactly the characters of `lit`.
pub fn chars_equal(a: &Vec<char>, lit: &str) -> (r: bool)
    ensures
        r == (a@ == lit@),
{
    let n = lit.unicode_len();
    if a.len() != n {
        return false;
    }
    let mut i: usize = 0;
    while i < n
        invariant
            i <= n,
            n == lit@.len(),
            a@.len() == n,
            forall|j: int| 0 <= j < i ==> a@[j] == lit@[j],
        decreases n - i,
    {
        if a[i] != lit.get_char(i) {
            return false;
        }
        i = i + 1;
    }
    assert(a@ =~= lit@);
    true
}

/// The type a name declares.
pub fn type_of_name(s: &Vec<char>) -> (r: Option<NP_TypeKeys>)
    ensures
        r == key_of_name(s@),
{
    if chars_equal(s, "int8") || chars_equal(s, "i8") {
        Some(NP_TypeKeys::Int8)
    } else if chars_equal(s, "int16") || chars_equal(s, "i16") {
        Some(NP_TypeKeys::Int16)
    } else if chars_equal(s, "int32") || chars_equal(s, "i32") {
        Some(NP_TypeKeys::Int32)
    } else if chars_equal(s, "int64") || chars_equal(s, "i64") {
        Some(NP_TypeKeys::Int64)
    } else if chars_equal(s, "uint8") || chars_equal(s, "u8") {
        Some(NP_TypeKeys::Uint8)
    } else if chars_equal(s, "uint16") || chars_equal(s, "u16") {
        Some(NP_TypeKeys::Uint16)
    } else if chars_equal(s, "uint32") || chars_equal(s, "u32") {
        Some(NP_TypeKeys::Uint32)
    } else if chars_equal(s, "uint64") || chars_equal(s, "u64") {
        Some(NP_TypeKeys::Uint64)
    } else if chars_equal(s, "decimal") || chars_equal(s, "dec") {
        Some(NP_TypeKeys::Decimal)
    } else if chars_equal(s, "uuid") {
        Some(NP_TypeKeys::Uuid)
    } else {
        None
    }
}

/// The value of decimal digits, or `None` where it passes `u64::MAX`.
pub fn digits_to_u64(d: &Vec<u8>) -> (r: Option<u64>)
    requires
        all_digits(d@),
    ensures
        r matches Some(v) ==> v == digits_value(d@),
        r is None ==> digits_value(d@) > u64::MAX,
{
    let mut acc: u64 = 0;
    let mut i: usize = 0;
    while i < d.len()
        invariant
            i <= d@.len(),
            all_digits(d@),
            acc == digits_value(d@.subrange(0, i as int)),
        decreases d@.len() - i,
    {
        let ghost pre = d@.subrange(0, i as int);
        assert(d@.subrange(0, i + 1).drop_last() == pre);
        let dig = d[i] as u64;
        if acc > (u64::MAX - dig) / 10 {
            proof {
                lemma_digits_value_grows(d@, i as int + 1);
            }
            return None;
        }
        acc = acc * 10 + dig;
        i = i + 1;
    }
    assert(d@.subrange(0, d@.len() as int) == d@);
    Some(acc)
}

/// A longer prefix is worth at least as much.
proof fn lemma_digits_value_grows(d: Seq<u8>, k: int)
    requires
        0 <= k <= d.len(),
    ensures
        digits_value(d.subrange(0, k)) <= digits_value(d),
    decreases d.len() - k,
{
    if k < d.len() {
        lemma_digits_value_grows(d, k + 1);
        assert(d.subrange(0, k + 1).drop_last() == d.subrange(0, k));
    } else {
        assert(d.subrange(0, k) == d);
    }
}

/// The number times `10^e`, truncated toward zero, or `None` where it lies
/// outside `-u64::MAX..=u64::MAX`.
pub fn number_value(n: &NP_Number, e: u8) -> (r: Option<i128>)
    requires
        n.wf(),
    ensures
        r matches Some(v) ==> v == n@.value_at(e as nat),
        r is None ==> n@.value_at(e as nat) > u64::MAX || n@.value_at(e as nat) < -(u64::MAX as int),
{
    let mut digits: Vec<u8> = n.whole.clone();
    assert(digits@ == n.whole@);
    let mut i: usize = 0;
    while i < e as usize
        invariant
            i <= e,
            n.wf(),
            digits@ == n@.scaled_digits(i as nat),
        decreases e - i,
    {
        let dig: u8 = if i < n.fraction.len() {
            n.fraction[i]
        } else {
            0
        };
        digits.push(dig);
        i = i + 1;
        assert(digits@ =~= n@.scaled_digits(i as nat));
    }
    assert(all_digits(digits@));
    match digits_to_u64(&digits) {
        None => None,
        Some(m) => if n.negative {
            Some(-(m as i128))
        } else {
            Some(m as i128)
        },
    }
}

/// Compiles a declaration into a node.
pub fn compile_declaration(d: &NP_Declaration) -> (r: Result<NP_Parsed_Schema, NP_Error>)
    requires
        d.wf(),
    ensures
        r == compile_decl(d@),
        r matches Ok(n) ==> n.wf(),
{
    proof {
        lemma_pow256_values();
    }
    let k = match type_of_name(&d.kind_name) {
        None => {
            return Err(NP_Error::UnknownType);
        },
        Some(k) => k,
    };
    match k {
        NP_TypeKeys::Uuid => Ok(new_node(k, NP_Schema_Data::Uuid)),
        NP_TypeKeys::Decimal => {
            let e = match &d.exp {
                None => {
                    return Err(NP_Error::MissingExp);
                },
                Some(e) => e,
            };
            let x: u8 = match number_value(e, 0) {
                Some(v) => if !e.point && 0 <= v && v <= 255 {
                    v as u8
                } else {
                    return Err(NP_Error::ExpOutOfRange);
                },
                None => {
                    return Err(NP_Error::ExpOutOfRange);
                },
            };
            match &d.default {
                None => Ok(new_node(k, NP_Schema_Data::Decimal { exp: x, default: None })),
                Some(v) => match number_value(v, x) {
                    Some(m) => if i64::MIN as i128 <= m && m <= i64::MAX as i128 {
                        Ok(new_node(k, NP_Schema_Data::Decimal { exp: x, default: Some(m as i64) }))
                    } else {
                        Err(NP_Error::DefaultOutOfRange)
                    },
                    None => Err(NP_Error::DefaultOutOfRange),
                },
            }
        },
        NP_TypeKeys::Int8 | NP_TypeKeys::Int16 | NP_TypeKeys::Int32 | NP_TypeKeys::Int64 => {
            match &d.default {
                None => Ok(new_node(k, NP_Schema_Data::Signed { default: None })),
                Some(v) => {
                    let w = k.width();
                    let half: i128 = if w == 8 {
                        0x8000_0000_0000_0000i128
                    } else {
                        (crate::schema::pow256_exec(w) / 2) as i128
                    };
                    match number_value(v, 0) {
                        Some(m) => if -half <= m && m < half {
                            Ok(new_node(k, NP_Schema_Data::Signed { default: Some(m as i64) }))
                        } else {
                            Err(NP_Error::DefaultOutOfRange)
                        },
                        None => Err(NP_Error::DefaultOutOfRange),
                    }
                },
            }
        },
        _ => {
            match &d.default {
                None => Ok(new_node(k, NP_Schema_Data::Unsigned { default: None })),
                Some(v) => {
                    let w = k.width();
                    let top: i128 = if w == 8 {
                        0x1_0000_0000_0000_0000i128
                    } else {
                        crate::schema::pow256_exec(w) as i128
                    };
                    match number_value(v, 0) {
                        Some(m) => if 0 <= m && m < top {
                            Ok(new_node(k, NP_Schema_Data::Unsigned { default: Some(m as u64) }))
                        } else {
                            Err(NP_Error::DefaultOutOfRange)
                        },
                        None => Err(NP_Error::DefaultOutOfRange),
                    }
                },
            }
        },
    }
}

} // verus!
