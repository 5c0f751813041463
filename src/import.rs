//! Setting a value from JSON input: a number for integers, a string for
//! UUIDs, `{"parts":{"num":..,"exp":..}}` for decimals. Input of another
//! shape, or that does not fit the type, is passed over without a change.
use vstd::prelude::*;
use crate::bigendian::{be_bytes, signed_sortable_bytes};
use crate::compile::number_value;
use crate::dec::{NP_Dec, shifted, fits_i64};
use crate::error::NP_Error;
use crate::json::{
    NP_JSON, JsonView, json_view, view_member, get_member, copy_number, lemma_view_dictionary,
};
use crate::memory::{NP_Memory, NP_Cursor, set_value};
use crate::numbers::shifted_mantissa;
use crate::schema::{NP_TypeKeys, NP_Schema_Data, NP_Parsed_Schema, spec_width, fits_signed, fits_unsigned};
use crate::uuid::{NP_UUID, uuid_bytes_of_text};

verus! {

/// The whole number a JSON number stands for, its fraction dropped.
pub open spec fn json_whole(j: JsonView) -> Option<int> {
    match j {
        JsonView::Number(x) => if x.wf() {
            Some(x.value_at(0))
        } else {
            None
        },
        _ => None,
    }
}

/// The decimal that `{"parts":{"num":..,"exp":..}}` stands for: `num` a
/// whole `i64`, `exp` a whole number from 0 to 255.
pub open spec fn json_decimal(j: JsonView) -> Option<NP_Dec> {
    match j {
        JsonView::Dictionary(m) => match view_member(m, "parts"@) {
            Some(JsonView::Dictionary(p)) => match (view_member(p, "num"@), view_member(p, "exp"@)) {
                (Some(JsonView::Number(a)), Some(JsonView::Number(b))) => if a.wf() && b.wf()
                    && !a.point && fits_i64(a.value_at(0)) && b.is_exp() {
                    Some(NP_Dec { num: a.value_at(0) as i64, exp: b.value_at(0) as u8 })
                } else {
                    None
                },
                _ => None,
            },
            _ => None,
        },
        _ => None,
    }
}

/// The bytes that JSON input `j` stores under node `n`, or `None` where it
/// is passed over.
pub open spec fn json_input_bytes(n: NP_Parsed_Schema, j: JsonView) -> Option<Seq<u8>> {
    let w = spec_width(n.i);
    match n.data {
        NP_Schema_Data::Signed { .. } => match json_whole(j) {
            Some(v) => if fits_signed(v, w) {
                Some(signed_sortable_bytes(v, w))
            } else {
                None
            },
            None => None,
        },
        NP_Schema_Data::Unsigned { .. } => match json_whole(j) {
            Some(v) => if fits_unsigned(v, w) {
                Some(be_bytes(v as nat, w))
            } else {
                None
            },
            None => None,
        },
        NP_Schema_Data::Decimal { exp, .. } => match json_decimal(j) {
            Some(d) => if fits_i64(shifted(d.num as int, d.exp as nat, exp as nat)) {
                Some(signed_sortable_bytes(shifted(d.num as int, d.exp as nat, exp as nat), 8))
            } else {
                None
            },
            None => None,
        },
        NP_Schema_Data::Uuid => match j {
            JsonView::String(t) => Some(uuid_bytes_of_text(t)),
            _ => None,
        },
    }
}

/// The whole number a JSON number stands for, where it is within
/// `-u64::MAX..=u64::MAX`.
fn whole_of(j: &NP_JSON) -> (r: Option<i128>)
    ensures
        r matches Some(v) ==> json_whole(json_view(*j)) == Some(v as int),
        r is None ==> (json_whole(json_view(*j)) matches Some(v) ==> v > u64::MAX || v < -(u64::MAX as int)),
{
    match j {
        NP_JSON::Number(x) => match copy_number(x) {
            Some(c) => number_value(&c, 0),
            None => None,
        },
        _ => None,
    }
}

/// The decimal that `{"parts":{"num":..,"exp":..}}` stands for.
fn decimal_of(j: &NP_JSON) -> (r: Option<NP_Dec>)
    ensures
        r == json_decimal(json_view(*j)),
{
    let m = match j {
        NP_JSON::Dictionary(m) => m,
        _ => {
            return None;
        },
    };
    proof {
        lemma_view_dictionary(*m);
    }
    let p = match get_member(m, "parts") {
        Some(NP_JSON::Dictionary(p)) => p,
        _ => {
            return None;
        },
    };
    proof {
        lemma_view_dictionary(*p);
    }
    let a = match get_member(p, "num") {
        Some(NP_JSON::Number(a)) => a,
        _ => {
            return None;
        },
    };
    let b = match get_member(p, "exp") {
        Some(NP_JSON::Number(b)) => b,
        _ => {
            return None;
        },
    };
    let (ca, cb) = match (copy_number(a), copy_number(b)) {
        (Some(ca), Some(cb)) => (ca, cb),
        _ => {
            return None;
        },
    };
    if a.point || cb.point {
        return None;
    }
    let num = match number_value(&ca, 0) {
        Some(v) => if i64::MIN as i128 <= v && v <= i64::MAX as i128 {
            v as i64
        } else {
            return None;
        },
        None => {
            return None;
        },
    };
    match number_value(&cb, 0) {
        Some(v) => if 0 <= v && v <= 255 {
            Some(NP_Dec::new(num, v as u8))
        } else {
            None
        },
        None => None,
    }
}

/// Sets the value at the cursor from JSON input and says whether it did;
/// input of another shape, or that does not fit, changes nothing.
pub fn set_from_json(cursor: NP_Cursor, memory: &mut NP_Memory, value: &NP_JSON) -> (r: Result<
    bool,
    NP_Error,
>)
    requires
        old(memory).cursor_ok(cursor),
    ensures
        final(memory).schema == old(memory).schema,
        json_input_bytes(old(memory).node(cursor), json_view(*value)) is None ==> r == Ok::<bool, NP_Error>(
            false,
        ) && *final(memory) == *old(memory),
        json_input_bytes(old(memory).node(cursor), json_view(*value)) is Some ==> {
            &&& r is Ok ==> r == Ok::<bool, NP_Error>(true) && final(memory).cursor_ok(cursor) && final(memory).value_addr(cursor)
                != 0 && final(memory).value_bytes(cursor) == json_input_bytes(
                old(memory).node(cursor),
                json_view(*value),
            )->0
            &&& r is Ok && old(memory).value_addr(cursor) != 0 ==> final(memory).value_addr(cursor)
                == old(memory).value_addr(cursor)
            &&& r is Ok && old(memory).value_addr(cursor) == 0 ==> final(memory).value_addr(cursor)
                == old(memory).bytes@.len()
            &&& r is Ok && old(memory).value_addr(cursor) != 0 ==> forall|k: int|
                0 <= k < old(memory).bytes@.len() && !(old(memory).value_addr(cursor) <= k < old(
                    memory,
                ).value_addr(cursor) + old(memory).width(cursor)) ==> final(memory).bytes@[k]
                    == old(memory).bytes@[k]
            &&& r is Ok && old(memory).value_addr(cursor) == 0 ==> forall|k: int|
                0 <= k < old(memory).bytes@.len() && !(cursor.buff_addr <= k < cursor.buff_addr
                    + 4) ==> final(memory).bytes@[k] == old(memory).bytes@[k]
            &&& r is Err ==> r == Err::<bool, NP_Error>(NP_Error::OutOfMemory) && *final(memory)
                == *old(memory)
            &&& old(memory).value_addr(cursor) != 0 || old(memory).bytes@.len() + old(
                memory,
            ).width(cursor) <= u32::MAX ==> r is Ok
        },
{
    let node = memory.schema[cursor.schema_addr];
    proof {
        crate::bigendian::lemma_pow256_values();
    }
    let done = match node.i {
        NP_TypeKeys::Uuid => match value {
            NP_JSON::String(t) => set_value::<NP_UUID>(cursor, memory, NP_UUID::from_chars(t)),
            _ => {
                return Ok(false);
            },
        },
        NP_TypeKeys::Decimal => match decimal_of(value) {
            Some(d) => {
                let exp = match node.data {
                    NP_Schema_Data::Decimal { exp, .. } => exp,
                    _ => 0,
                };
                if shifted_mantissa(&d, exp).is_none() {
                    return Ok(false);
                }
                set_value::<NP_Dec>(cursor, memory, d)
            },
            None => {
                return Ok(false);
            },
        },
        k => {
            let v = match whole_of(value) {
                Some(v) => v,
                None => {
                    return Ok(false);
                },
            };
            match k {
                NP_TypeKeys::Int8 => if i8::MIN as i128 <= v && v <= i8::MAX as i128 {
                    set_value::<i8>(cursor, memory, v as i8)
                } else {
                    return Ok(false);
                },
                NP_TypeKeys::Int16 => if i16::MIN as i128 <= v && v <= i16::MAX as i128 {
                    set_value::<i16>(cursor, memory, v as i16)
                } else {
                    return Ok(false);
                },
                NP_TypeKeys::Int32 => if i32::MIN as i128 <= v && v <= i32::MAX as i128 {
                    set_value::<i32>(cursor, memory, v as i32)
                } else {
                    return Ok(false);
                },
                NP_TypeKeys::Int64 => if i64::MIN as i128 <= v && v <= i64::MAX as i128 {
                    set_value::<i64>(cursor, memory, v as i64)
                } else {
                    return Ok(false);
                },
                NP_TypeKeys::Uint8 => if 0 <= v && v <= u8::MAX as i128 {
                    set_value::<u8>(cursor, memory, v as u8)
                } else {
                    return Ok(false);
                },
                NP_TypeKeys::Uint16 => if 0 <= v && v <= u16::MAX as i128 {
                    set_value::<u16>(cursor, memory, v as u16)
                } else {
                    return Ok(false);
                },
                NP_TypeKeys::Uint32 => if 0 <= v && v <= u32::MAX as i128 {
                    set_value::<u32>(cursor, memory, v as u32)
                } else {
                    return Ok(false);
                },
                _ => if 0 <= v && v <= u64::MAX as i128 {
                    set_value::<u64>(cursor, memory, v as u64)
                } else {
                    return Ok(false);
                },
            }
        },
    };
    match done {
        Ok(_) => Ok(true),
        Err(e) => Err(e),
    }
}

} // verus!
