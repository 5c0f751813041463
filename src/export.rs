//! The JSON form of a stored value: a bare number for integers, a string
//! for UUIDs, and `{"value":..,"parts":{"num":..,"exp":..}}` for decimals.
//! An empty slot gives the schema's default, or `null`.
use vstd::prelude::*;
use crate::bigendian::{be_value, pow256, lemma_pow256_values, decode_be};
use crate::emit::{int_text, dec_text, push_int, push_dec};
use crate::memory::{NP_Memory, NP_Cursor};
use crate::numbers::decode_sortable;
use crate::schema::NP_Schema_Data;
use crate::text::{decimal_text, push_decimal};
use crate::uuid::{uuid_text, uuid_bytes_text};

verus! {

/// The JSON form of a decimal with mantissa `m` and exponent `e`.
pub open spec fn dec_json(m: int, e: nat) -> Seq<char> {
    "{\"value\":"@ + dec_text(m, e) + ",\"parts\":{\"num\":"@ + int_text(m) + ",\"exp\":"@
        + decimal_text(e) + "}}"@
}

/// The JSON form of the stored bytes `b` under configuration `data`.
pub open spec fn stored_json(b: Seq<u8>, data: NP_Schema_Data) -> Seq<char> {
    match data {
        NP_Schema_Data::Signed { .. } => int_text(be_value(b) - pow256(b.len()) / 2),
        NP_Schema_Data::Unsigned { .. } => decimal_text(be_value(b)),
        NP_Schema_Data::Decimal { exp, .. } => dec_json(be_value(b) - pow256(8) / 2, exp as nat),
        NP_Schema_Data::Uuid => "\""@ + uuid_text(b, 16) + "\""@,
    }
}

/// The JSON form of the default that `data` declares, or `null`.
pub open spec fn default_json(data: NP_Schema_Data) -> Seq<char> {
    match data {
        NP_Schema_Data::Signed { default: Some(v) } => int_text(v as int),
        NP_Schema_Data::Unsigned { default: Some(v) } => decimal_text(v as nat),
        NP_Schema_Data::Decimal { exp, default: Some(m) } => dec_json(m as int, exp as nat),
        _ => "null"@,
    }
}

impl NP_Memory {
    /// The JSON form of the value at the cursor.
    pub open spec fn spec_to_json(self, c: NP_Cursor) -> Seq<char> {
        if self.value_addr(c) == 0 {
            default_json(self.node(c).data)
        } else {
            stored_json(self.value_bytes(c), self.node(c).data)
        }
    }
}

/// Appends the JSON form of a decimal.
fn push_dec_json(s: &mut String, m: i64, e: u8)
    ensures
        final(s)@ == old(s)@ + dec_json(m as int, e as nat),
{
    s.append("{\"value\":");
    push_dec(s, m, e);
    s.append(",\"parts\":{\"num\":");
    push_int(s, m);
    s.append(",\"exp\":");
    push_decimal(s, e as u64);
    s.append("}}");
    assert(final(s)@ =~= old(s)@ + dec_json(m as int, e as nat));
}

/// The JSON form of the value at the cursor: the stored value, else the
/// schema's default, else `null`.
pub fn to_json(cursor: &NP_Cursor, memory: &NP_Memory) -> (r: String)
    requires
        memory.cursor_ok(*cursor),
    ensures
        r@ == memory.spec_to_json(*cursor),
{
    let addr = memory.read_slot(cursor.buff_addr);
    let node = &memory.schema[cursor.schema_addr];
    let mut s = String::new();
    if addr == 0 {
        match node.data {
            NP_Schema_Data::Signed { default: Some(v) } => push_int(&mut s, v),
            NP_Schema_Data::Unsigned { default: Some(v) } => push_decimal(&mut s, v),
            NP_Schema_Data::Decimal { exp, default: Some(m) } => push_dec_json(&mut s, m, exp),
            _ => {
                s.append("null");
            },
        }
        assert(s@ =~= memory.spec_to_json(*cursor));
        return s;
    }
    let w = node.i.width();
    let b = vstd::slice::slice_subrange(memory.bytes.as_slice(), addr as usize, addr as usize + w);
    proof {
        lemma_pow256_values();
    }
    match node.data {
        NP_Schema_Data::Signed { .. } => {
            let v = decode_sortable(b);
            push_int(&mut s, v);
        },
        NP_Schema_Data::Unsigned { .. } => {
            let v = decode_be(b);
            push_decimal(&mut s, v);
        },
        NP_Schema_Data::Decimal { exp, .. } => {
            let m = decode_sortable(b);
            push_dec_json(&mut s, m, exp);
        },
        NP_Schema_Data::Uuid => {
            s.append("\"");
            let t = uuid_bytes_text(b);
            s.append(t.as_str());
            s.append("\"");
        },
    }
    assert(s@ =~= memory.spec_to_json(*cursor));
    s
}

} // verus!
