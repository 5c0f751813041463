//! The byte arena and the typed operations a cursor performs on it.
//!
//! A pointer slot is four big-endian bytes holding `0` (no value) or the
//! address of the value's bytes. Values are appended on their first write
//! and overwritten in place afterwards; the codec never shrinks the arena.
use vstd::prelude::*;
use crate::bigendian::{be_value, lemma_pow256_values, lemma_be_round_trip, encode_be, decode_be};
use crate::error::NP_Error;
use crate::numbers::NP_Scalar;
use crate::schema::{NP_Parsed_Schema, spec_width};

verus! {

/// A growable byte buffer together with the compiled schema its values
/// follow.
pub struct NP_Memory {
    /// The bytes of the buffer.
    pub bytes: Vec<u8>,
    /// The compiled schema nodes.
    pub schema: Vec<NP_Parsed_Schema>,
}

/// Where one value is: the offset of its pointer slot and the index of its
/// schema node.
#[derive(Clone, Copy, Debug, PartialEq, Eq, Structural)]
pub struct NP_Cursor {
    /// The offset of the pointer slot; never `0`.
    pub buff_addr: u32,
    /// The index of the schema node.
    pub schema_addr: usize,
}

/// The address held by the four-byte slot at `slot`.
pub open spec fn slot_value(bytes: Seq<u8>, slot: int) -> nat {
    be_value(bytes.subrange(slot, slot + 4))
}

impl NP_Memory {
    /// The node the cursor points to.
    pub open spec fn node(self, c: NP_Cursor) -> NP_Parsed_Schema {
        self.schema@[c.schema_addr as int]
    }

    /// The width of a value at the cursor.
    pub open spec fn width(self, c: NP_Cursor) -> nat {
        spec_width(self.node(c).i)
    }

    /// The address of the cursor's value, `0` where there is none.
    pub open spec fn value_addr(self, c: NP_Cursor) -> nat {
        slot_value(self.bytes@, c.buff_addr as int)
    }

    /// The cursor can be used on this memory: its slot and node exist, and a
    /// value it points to lies inside the buffer, clear of the slot.
    pub open spec fn cursor_ok(self, c: NP_Cursor) -> bool {
        let a = self.value_addr(c);
        let s = c.buff_addr as int;
        &&& c.buff_addr != 0
        &&& c.schema_addr < self.schema@.len()
        &&& self.node(c).wf()
        &&& s + 4 <= self.bytes@.len() <= u32::MAX
        &&& a != 0 ==> a + self.width(c) <= self.bytes@.len() && (a >= s + 4 || a + self.width(c)
            <= s)
    }

    /// The bytes of the cursor's value.
    pub open spec fn value_bytes(self, c: NP_Cursor) -> Seq<u8> {
        let a = self.value_addr(c) as int;
        self.bytes@.subrange(a, a + self.width(c))
    }

    /// What reading at the cursor gives.
    pub open spec fn spec_read<T: NP_Scalar>(self, c: NP_Cursor) -> Option<T> {
        if self.value_addr(c) == 0 {
            None
        } else {
            Some(T::spec_decode(self.value_bytes(c), self.node(c).data))
        }
    }

    /// The live bytes at the cursor: `0` when empty, else the value's width.
    pub open spec fn spec_size(self, c: NP_Cursor) -> nat {
        if self.value_addr(c) == 0 {
            0
        } else {
            self.width(c)
        }
    }

    /// The address in the slot at `slot`.
    pub fn read_slot(&self, slot: u32) -> (r: u32)
        requires
            slot as int + 4 <= self.bytes@.len(),
        ensures
            r == slot_value(self.bytes@, slot as int),
    {
        let n = self.bytes.len();
        assert(slot as int + 4 <= n);
        let b = vstd::slice::slice_subrange(self.bytes.as_slice(), slot as usize, slot as usize + 4);
        proof {
            crate::bigendian::lemma_be_value_bound(b@);
            lemma_pow256_values();
        }
        decode_be(b) as u32
    }

    /// Stores `addr` in the slot at `slot`.
    pub fn write_slot(&mut self, slot: u32, addr: u32)
        requires
            slot as int + 4 <= old(self).bytes@.len(),
        ensures
            final(self).schema == old(self).schema,
            final(self).bytes@.len() == old(self).bytes@.len(),
            slot_value(final(self).bytes@, slot as int) == addr,
            forall|j: int|
                0 <= j < old(self).bytes@.len() && !(slot <= j < slot + 4) ==> final(self).bytes@[j]
                    == old(self).bytes@[j],
    {
        let b = encode_be(addr as u64, 4);
        proof {
            lemma_pow256_values();
            lemma_be_round_trip(addr as nat, 4);
        }
        write_at(&mut self.bytes, slot as usize, b.as_slice());
        assert(final(self).bytes@.subrange(slot as int, slot + 4) =~= b@);
    }

    /// Appends `src` and returns the address it starts at; fails, changing
    /// nothing, where the buffer would outgrow the addresses a slot holds.
    pub fn malloc_borrow(&mut self, src: &[u8]) -> (r: Result<u32, NP_Error>)
        ensures
            final(self).schema == old(self).schema,
            old(self).bytes@.len() + src@.len() > u32::MAX ==> r == Err::<u32, NP_Error>(
                NP_Error::OutOfMemory,
            ) && *final(self) == *old(self),
            old(self).bytes@.len() + src@.len() <= u32::MAX ==> r == Ok::<u32, NP_Error>(
                old(self).bytes@.len() as u32,
            ) && final(self).bytes@ == old(self).bytes@ + src@,
    {
        if self.bytes.len() > u32::MAX as usize || src.len() > u32::MAX as usize - self.bytes.len() {
            return Err(NP_Error::OutOfMemory);
        }
        let start = self.bytes.len() as u32;
        let mut i: usize = 0;
        while i < src.len()
            invariant
                i <= src@.len(),
                self.schema == old(self).schema,
                self.bytes@ == old(self).bytes@ + src@.subrange(0, i as int),
            decreases src@.len() - i,
        {
            self.bytes.push(src[i]);
            i = i + 1;
            assert(self.bytes@ =~= old(self).bytes@ + src@.subrange(0, i as int));
        }
        assert(src@.subrange(0, src@.len() as int) =~= src@);
        Ok(start)
    }
}

/// Overwrites the bytes from `at` with `src`.
pub fn write_at(bytes: &mut Vec<u8>, at: usize, src: &[u8])
    requires
        at + src@.len() <= old(bytes)@.len(),
    ensures
        final(bytes)@.len() == old(bytes)@.len(),
        final(bytes)@.subrange(at as int, at + src@.len()) == src@,
        forall|j: int|
            0 <= j < old(bytes)@.len() && !(at <= j < at + src@.len()) ==> final(bytes)@[j]
                == old(bytes)@[j],
{
    let mut i: usize = 0;
    let n = bytes.len();
    while i < src.len()
        invariant
            i <= src@.len(),
            n == bytes@.len(),
            at + src@.len() <= bytes@.len(),
            bytes@.len() == old(bytes)@.len(),
            forall|j: int| 0 <= j < i ==> bytes@[at + j] == src@[j],
            forall|j: int|
                0 <= j < old(bytes)@.len() && !(at <= j < at + i) ==> bytes@[j] == old(bytes)@[j],
        decreases src@.len() - i,
    {
        bytes.set(at + i, src[i]);
        i = i + 1;
    }
    assert(bytes@.subrange(at as int, at + src@.len()) =~= src@);
}

/// Reads the value at the cursor: `None` where the slot is empty.
pub fn into_value<T: NP_Scalar>(cursor: &NP_Cursor, memory: &NP_Memory) -> (r: Option<T>)
    requires
        memory.cursor_ok(*cursor),
        memory.node(*cursor).i == T::spec_key(),
    ensures
        r == memory.spec_read::<T>(*cursor),
{
    let addr = memory.read_slot(cursor.buff_addr);
    if addr == 0 {
        return None;
    }
    let node = &memory.schema[cursor.schema_addr];
    let w = node.i.width();
    let b = vstd::slice::slice_subrange(memory.bytes.as_slice(), addr as usize, addr as usize + w);
    Some(T::decode(b, &node.data))
}

/// Stores `value` at the cursor: in place where the slot already points to a
/// value, else appended with its address put in the slot.
pub fn set_value<T: NP_Scalar>(cursor: NP_Cursor, memory: &mut NP_Memory, value: T) -> (r: Result<
    NP_Cursor,
    NP_Error,
>)
    requires
        old(memory).cursor_ok(cursor),
        old(memory).node(cursor).i == T::spec_key(),
    ensures
        final(memory).schema == old(memory).schema,
        T::spec_encode(value, old(memory).node(cursor).data) is None ==> r == Err::<
            NP_Cursor,
            NP_Error,
        >(NP_Error::ValueOutOfRange),
        T::spec_encode(value, old(memory).node(cursor).data) is Some && old(memory).value_addr(
            cursor,
        ) == 0 && old(memory).bytes@.len() + old(memory).width(cursor) > u32::MAX ==> r == Err::<
            NP_Cursor,
            NP_Error,
        >(NP_Error::OutOfMemory),
        T::spec_encode(value, old(memory).node(cursor).data) is Some && (old(memory).value_addr(
            cursor,
        ) != 0 || old(memory).bytes@.len() + old(memory).width(cursor) <= u32::MAX) ==> r is Ok,
        r is Err ==> *final(memory) == *old(memory),
        r is Ok ==> {
            &&& r == Ok::<NP_Cursor, NP_Error>(cursor)
            &&& final(memory).cursor_ok(cursor)
            &&& final(memory).spec_read::<T>(cursor) == Some(
                T::spec_stored(value, old(memory).node(cursor).data),
            )
            &&& final(memory).value_addr(cursor) != 0
            &&& final(memory).value_bytes(cursor) == T::spec_encode(
                value,
                old(memory).node(cursor).data,
            )->0
            &&& old(memory).value_addr(cursor) != 0 ==> forall|k: int|
                0 <= k < old(memory).bytes@.len() && !(old(memory).value_addr(cursor) <= k < old(
                    memory,
                ).value_addr(cursor) + old(memory).width(cursor)) ==> final(memory).bytes@[k] == old(memory).bytes@[k]
            &&& old(memory).value_addr(cursor) == 0 ==> forall|k: int|
                0 <= k < old(memory).bytes@.len() && !(cursor.buff_addr <= k < cursor.buff_addr
                    + 4) ==> final(memory).bytes@[k] == old(memory).bytes@[k]
            &&& old(memory).value_addr(cursor) != 0 ==> final(memory).bytes@.len() == old(
                memory,
            ).bytes@.len() && final(memory).value_addr(cursor) == old(memory).value_addr(cursor)
            &&& old(memory).value_addr(cursor) == 0 ==> final(memory).bytes@.len() == old(
                memory,
            ).bytes@.len() + old(memory).width(cursor) && final(memory).value_addr(cursor) == old(
                memory,
            ).bytes@.len()
        },
{
    let addr = memory.read_slot(cursor.buff_addr);
    let data = memory.schema[cursor.schema_addr].data;
    let ghost w = memory.width(cursor);
    let encoded = match value.encode(&data) {
        None => {
            return Err(NP_Error::ValueOutOfRange);
        },
        Some(b) => b,
    };
    proof {
        T::lemma_round_trip(value, data);
    }
    if addr != 0 {
        write_at(&mut memory.bytes, addr as usize, encoded.as_slice());
        proof {
            let s = cursor.buff_addr as int;
            assert(memory.bytes@.subrange(s, s + 4) =~= old(memory).bytes@.subrange(s, s + 4));
        }
        Ok(cursor)
    } else {
        let new_addr = match memory.malloc_borrow(encoded.as_slice()) {
            Err(e) => {
                return Err(e);
            },
            Ok(a) => a,
        };
        let ghost mid = memory.bytes@;
        memory.write_slot(cursor.buff_addr, new_addr);
        proof {
            let a = new_addr as int;
            assert(memory.bytes@.subrange(a, a + w) =~= mid.subrange(a, a + w));
            assert(mid.subrange(a, a + w) =~= encoded@);
        }
        Ok(cursor)
    }
}

/// Empties the slot at the cursor; the value's bytes stay behind until
/// the buffer is compacted.
pub fn del_value(cursor: NP_Cursor, memory: &mut NP_Memory)
    requires
        old(memory).cursor_ok(cursor),
    ensures
        final(memory).schema == old(memory).schema,
        final(memory).bytes@.len() == old(memory).bytes@.len(),
        final(memory).cursor_ok(cursor),
        final(memory).value_addr(cursor) == 0,
{
    memory.write_slot(cursor.buff_addr, 0);
}

/// The declared default of the node, `None` where it declares none.
pub fn default_value<T: NP_Scalar>(node: &NP_Parsed_Schema) -> (r: Option<T>)
    requires
        node.wf(),
        node.i == T::spec_key(),
    ensures
        r == T::spec_default(node.data),
{
    T::default_of(&node.data)
}

/// The live bytes at the cursor: `0` when the slot is empty, else the
/// value's width.
pub fn get_size(cursor: &NP_Cursor, memory: &NP_Memory) -> (r: usize)
    requires
        memory.cursor_ok(*cursor),
    ensures
        r == memory.spec_size(*cursor),
{
    if memory.read_slot(cursor.buff_addr) == 0 {
        0
    } else {
        memory.schema[cursor.schema_addr].i.width()
    }
}

} // verus!
