//! A buffer holding one scalar value at its root, read and written by
//! path.
use vstd::prelude::*;
use crate::bigendian::{be_bytes, lemma_pow256_values, lemma_be_round_trip, encode_be};
use crate::error::NP_Error;
use crate::memory::{NP_Memory, NP_Cursor, into_value, set_value, del_value, default_value, get_size};
use crate::numbers::NP_Scalar;
use crate::export::to_json;
use crate::import::set_from_json;
use crate::json::{parse_json, json_value_text};
use crate::import::json_input_bytes;
use crate::schema::NP_Parsed_Schema;

verus! {

/// The offset of the root pointer slot.
pub const ROOT_SLOT: u32 = 2;

/// The size of a buffer that holds no value: a version byte, a reserved
/// byte and the root slot.
pub const EMPTY_SIZE: usize = 6;

/// The version byte at the start of every buffer.
pub const FORMAT_VERSION: u8 = 1;

/// The bytes of a buffer that holds no value.
pub open spec fn empty_bytes() -> Seq<u8> {
    seq![FORMAT_VERSION, 0u8, 0u8, 0u8, 0u8, 0u8]
}

/// How the buffer's bytes are spent.
#[derive(Clone, Copy, Debug, PartialEq, Eq, Structural)]
pub struct NP_Size_Data {
    /// The size of the buffer now.
    pub current_buffer: usize,
    /// The size it would have once compacted.
    pub after_compaction: usize,
    /// The bytes that compaction would free.
    pub wasted_bytes: usize,
}

/// A buffer of values that follow a compiled schema.
pub struct NP_Buffer {
    pub memory: NP_Memory,
}

impl NP_Buffer {
    /// The cursor of the root value.
    pub open spec fn root() -> NP_Cursor {
        NP_Cursor { buff_addr: ROOT_SLOT, schema_addr: 0 }
    }

    pub open spec fn wf(self) -> bool {
        &&& self.memory.cursor_ok(NP_Buffer::root())
        &&& self.memory.bytes@.len() >= EMPTY_SIZE
        &&& self.memory.value_addr(NP_Buffer::root()) == 0 || self.memory.value_addr(
            NP_Buffer::root(),
        ) >= EMPTY_SIZE
    }

    /// The root node.
    pub open spec fn node(self) -> NP_Parsed_Schema {
        self.memory.node(NP_Buffer::root())
    }

    /// What `get` gives for type `T` on the empty path: the stored value,
    /// else the declared default.
    pub open spec fn spec_get<T: NP_Scalar>(self) -> Option<T> {
        match self.memory.spec_read::<T>(NP_Buffer::root()) {
            Some(v) => Some(v),
            None => T::spec_default(self.node().data),
        }
    }

    /// An empty buffer for the given schema nodes.
    pub fn new(schema: &Vec<NP_Parsed_Schema>, capacity: Option<u32>) -> (r: NP_Buffer)
        requires
            schema@.len() >= 1,
            schema@[0].wf(),
        ensures
            r.wf(),
            r.memory.schema@ == schema@,
            r.memory.bytes@ == empty_bytes(),
            r.memory.value_addr(NP_Buffer::root()) == 0,
    {
        let mut bytes: Vec<u8> = Vec::new();
        bytes.push(FORMAT_VERSION);
        bytes.push(0);
        bytes.push(0);
        bytes.push(0);
        bytes.push(0);
        bytes.push(0);
        let mut nodes: Vec<NP_Parsed_Schema> = Vec::new();
        let mut i: usize = 0;
        while i < schema.len()
            invariant
                i <= schema@.len(),
                nodes@ == schema@.subrange(0, i as int),
            decreases schema@.len() - i,
        {
            nodes.push(schema[i]);
            i = i + 1;
            assert(nodes@ =~= schema@.subrange(0, i as int));
        }
        assert(nodes@ =~= schema@);
        proof {
            lemma_pow256_values();
            lemma_be_round_trip(0, 4);
            reveal_with_fuel(be_bytes, 5);
            assert(bytes@.subrange(2, 6) =~= be_bytes(0, 4));
        }
        NP_Buffer { memory: NP_Memory { bytes, schema: nodes } }
    }

    /// Reads the value at `path`: the stored value, else the schema's
    /// default, else `None`. Only the empty path names a value.
    pub fn get<T: NP_Scalar>(&self, path: &[&str]) -> (r: Result<Option<T>, NP_Error>)
        requires
            self.wf(),
        ensures
            path@.len() != 0 ==> r == Err::<Option<T>, NP_Error>(NP_Error::PathNotFound),
            path@.len() == 0 && self.node().i != T::spec_key() ==> r == Err::<Option<T>, NP_Error>(
                NP_Error::TypeMismatch,
            ),
            path@.len() == 0 && self.node().i == T::spec_key() ==> r == Ok::<Option<T>, NP_Error>(
                self.spec_get::<T>(),
            ),
    {
        if path.len() != 0 {
            return Err(NP_Error::PathNotFound);
        }
        let cursor = NP_Cursor { buff_addr: ROOT_SLOT, schema_addr: 0 };
        if self.memory.schema[0].i != T::type_key() {
            return Err(NP_Error::TypeMismatch);
        }
        match into_value::<T>(&cursor, &self.memory) {
            Some(v) => Ok(Some(v)),
            None => Ok(default_value::<T>(&self.memory.schema[0])),
        }
    }

    /// Stores `value` at `path`, in place where a value is already stored.
    pub fn set<T: NP_Scalar>(&mut self, path: &[&str], value: T) -> (r: Result<bool, NP_Error>)
        requires
            old(self).wf(),
        ensures
            final(self).wf(),
            final(self).memory.schema == old(self).memory.schema,
            path@.len() != 0 ==> r == Err::<bool, NP_Error>(NP_Error::PathNotFound),
            path@.len() == 0 && old(self).node().i != T::spec_key() ==> r == Err::<bool, NP_Error>(
                NP_Error::TypeMismatch,
            ),
            path@.len() == 0 && old(self).node().i == T::spec_key() && T::spec_encode(
                value,
                old(self).node().data,
            ) is None ==> r == Err::<bool, NP_Error>(NP_Error::ValueOutOfRange),
            r is Err ==> *final(self) == *old(self),
            r is Ok && old(self).memory.value_addr(NP_Buffer::root()) != 0 ==> forall|k: int|
                0 <= k < old(self).memory.bytes@.len() && !(old(self).memory.value_addr(
                    NP_Buffer::root(),
                ) <= k < old(self).memory.value_addr(NP_Buffer::root()) + old(self).memory.width(
                    NP_Buffer::root(),
                )) ==> final(self).memory.bytes@[k] == old(self).memory.bytes@[k],
            r is Ok && old(self).memory.value_addr(NP_Buffer::root()) == 0 ==> forall|k: int|
                0 <= k < old(self).memory.bytes@.len() && !(ROOT_SLOT <= k < ROOT_SLOT + 4)
                    ==> final(self).memory.bytes@[k] == old(self).memory.bytes@[k],
            r is Ok ==> r == Ok::<bool, NP_Error>(true) && final(self).memory.spec_read::<T>(
                NP_Buffer::root(),
            ) == Some(T::spec_stored(value, old(self).node().data)) && final(self).spec_get::<T>()
                == Some(T::spec_stored(value, old(self).node().data)),
            path@.len() == 0 && old(self).node().i == T::spec_key() && T::spec_encode(
                value,
                old(self).node().data,
            ) is Some && (old(self).memory.value_addr(NP_Buffer::root()) != 0 || old(
                self,
            ).memory.bytes@.len() + old(self).memory.width(NP_Buffer::root()) <= u32::MAX) ==> r is Ok,
            path@.len() == 0 && old(self).node().i == T::spec_key() && T::spec_encode(
                value,
                old(self).node().data,
            ) is Some && old(self).memory.value_addr(NP_Buffer::root()) == 0 && old(
                self,
            ).memory.bytes@.len() + old(self).memory.width(NP_Buffer::root()) > u32::MAX ==> r
                == Err::<bool, NP_Error>(NP_Error::OutOfMemory),
    {
        if path.len() != 0 {
            return Err(NP_Error::PathNotFound);
        }
        if self.memory.schema[0].i != T::type_key() {
            return Err(NP_Error::TypeMismatch);
        }
        let cursor = NP_Cursor { buff_addr: ROOT_SLOT, schema_addr: 0 };
        match set_value::<T>(cursor, &mut self.memory, value) {
            Ok(_) => Ok(true),
            Err(e) => Err(e),
        }
    }

    /// Empties the value at `path`; says whether one was stored. Its bytes
    /// stay in the buffer until it is compacted.
    pub fn del(&mut self, path: &[&str]) -> (r: Result<bool, NP_Error>)
        requires
            old(self).wf(),
        ensures
            final(self).wf(),
            final(self).memory.schema == old(self).memory.schema,
            path@.len() != 0 ==> r == Err::<bool, NP_Error>(NP_Error::PathNotFound) && *final(self)
                == *old(self),
            path@.len() == 0 ==> r == Ok::<bool, NP_Error>(
                old(self).memory.value_addr(NP_Buffer::root()) != 0,
            ) && final(self).memory.value_addr(NP_Buffer::root()) == 0
                && final(self).memory.bytes@.len() == old(self).memory.bytes@.len(),
    {
        if path.len() != 0 {
            return Err(NP_Error::PathNotFound);
        }
        let cursor = NP_Cursor { buff_addr: ROOT_SLOT, schema_addr: 0 };
        let had = self.memory.read_slot(ROOT_SLOT) != 0;
        del_value(cursor, &mut self.memory);
        Ok(had)
    }

    /// Rewrites the buffer with only its live bytes: the header, the root
    /// slot and the root value, if there is one.
    pub fn compact(&mut self, new_capacity: Option<u32>) -> (r: Result<(), NP_Error>)
        requires
            old(self).wf(),
        ensures
            r is Ok,
            final(self).wf(),
            final(self).memory.schema == old(self).memory.schema,
            final(self).memory.bytes@.len() == EMPTY_SIZE + old(self).memory.spec_size(
                NP_Buffer::root(),
            ),
            (final(self).memory.value_addr(NP_Buffer::root()) == 0) == (old(
                self,
            ).memory.value_addr(NP_Buffer::root()) == 0),
            final(self).memory.value_addr(NP_Buffer::root()) != 0 ==> final(self).memory.value_bytes(
                NP_Buffer::root(),
            ) == old(self).memory.value_bytes(NP_Buffer::root()),
    {
        let cursor = NP_Cursor { buff_addr: ROOT_SLOT, schema_addr: 0 };
        let addr = self.memory.read_slot(ROOT_SLOT);
        let mut bytes: Vec<u8> = Vec::new();
        bytes.push(FORMAT_VERSION);
        bytes.push(0);
        proof {
            lemma_pow256_values();
        }
        if addr == 0 {
            let mut slot = encode_be(0, 4);
            bytes.append(&mut slot);
            proof {
                lemma_be_round_trip(0, 4);
                assert(bytes@.subrange(2, 6) =~= be_bytes(0, 4));
            }
        } else {
            let w = self.memory.schema[0].i.width();
            let mut slot = encode_be(EMPTY_SIZE as u64, 4);
            bytes.append(&mut slot);
            let ghost head = bytes@;
            let value = vstd::slice::slice_subrange(self.memory.bytes.as_slice(), addr as usize, addr as usize + w);
            let mut i: usize = 0;
            while i < w
                invariant
                    i <= w,
                    value@.len() == w,
                    bytes@ == head + value@.subrange(0, i as int),
                decreases w - i,
            {
                bytes.push(value[i]);
                i = i + 1;
                assert(bytes@ =~= head + value@.subrange(0, i as int));
            }
            proof {
                lemma_be_round_trip(EMPTY_SIZE as nat, 4);
                assert(head.len() == 6);
                assert(bytes@.subrange(2, 6) =~= be_bytes(EMPTY_SIZE as nat, 4));
                assert(bytes@.subrange(6, 6 + w as int) =~= value@);
            }
        }
        self.memory.bytes = bytes;
        Ok(())
    }

    /// The JSON form of the value at `path`: the stored value, else the
    /// schema's default, else `null`.
    pub fn json_encode(&self, path: &[&str]) -> (r: Result<String, NP_Error>)
        requires
            self.wf(),
        ensures
            path@.len() != 0 ==> r == Err::<String, NP_Error>(NP_Error::PathNotFound),
            path@.len() == 0 ==> (r matches Ok(t) && t@ == self.memory.spec_to_json(
                NP_Buffer::root(),
            )),
    {
        if path.len() != 0 {
            return Err(NP_Error::PathNotFound);
        }
        let cursor = NP_Cursor { buff_addr: ROOT_SLOT, schema_addr: 0 };
        Ok(to_json(&cursor, &self.memory))
    }

    /// Sets the value at `path` from JSON text: `BadJson` where the text is
    /// not JSON; input of another shape, or that does not fit the type,
    /// changes nothing.
    pub fn set_with_json(&mut self, path: &[&str], json: &str) -> (r: Result<bool, NP_Error>)
        requires
            old(self).wf(),
        ensures
            final(self).wf(),
            final(self).memory.schema == old(self).memory.schema,
            path@.len() != 0 ==> r == Err::<bool, NP_Error>(NP_Error::PathNotFound),
            r is Err ==> *final(self) == *old(self),
            r == Ok::<bool, NP_Error>(false) ==> *final(self) == *old(self),
            r == Ok::<bool, NP_Error>(true) ==> final(self).memory.value_addr(NP_Buffer::root())
                != 0,
            path@.len() == 0 ==> (json_value_text(json@) is None <==> r == Err::<bool, NP_Error>(
                NP_Error::BadJson,
            )),
            path@.len() == 0 ==> match json_value_text(json@) {
                None => true,
                Some(j) => match json_input_bytes(old(self).node(), j) {
                    None => r == Ok::<bool, NP_Error>(false),
                    Some(b) => {
                        &&& old(self).memory.value_addr(NP_Buffer::root()) != 0 || old(
                            self,
                        ).memory.bytes@.len() + old(self).memory.width(NP_Buffer::root())
                            <= u32::MAX ==> r == Ok::<bool, NP_Error>(true)
                        &&& r is Ok ==> final(self).memory.value_bytes(NP_Buffer::root()) == b
                        &&& r is Err ==> r == Err::<bool, NP_Error>(NP_Error::OutOfMemory)
                    },
                },
            },
    {
        if path.len() != 0 {
            return Err(NP_Error::PathNotFound);
        }
        let value = match parse_json(json) {
            Ok(v) => v,
            Err(e) => {
                return Err(e);
            },
        };
        let cursor = NP_Cursor { buff_addr: ROOT_SLOT, schema_addr: 0 };
        set_from_json(cursor, &mut self.memory, &value)
    }

    /// How the buffer's bytes are spent now and after compaction.
    pub fn calc_bytes(&self) -> (r: Result<NP_Size_Data, NP_Error>)
        requires
            self.wf(),
        ensures
            r matches Ok(d) && d.current_buffer == self.memory.bytes@.len() && d.after_compaction
                == EMPTY_SIZE + self.memory.spec_size(NP_Buffer::root()) && d.wasted_bytes
                == d.current_buffer - d.after_compaction,
    {
        let cursor = NP_Cursor { buff_addr: ROOT_SLOT, schema_addr: 0 };
        let live = get_size(&cursor, &self.memory);
        let current = self.memory.bytes.len();
        let after = EMPTY_SIZE + live;
        Ok(NP_Size_Data { current_buffer: current, after_compaction: after, wasted_bytes: current - after })
    }
}

/// Absent, then default: a buffer with nothing written reads `None` at its
/// root, and `get` gives the default its schema declares, or `None`.
pub proof fn law_absent_then_default<T: NP_Scalar>(b: NP_Buffer)
    requires
        b.wf(),
        b.memory.value_addr(NP_Buffer::root()) == 0,
    ensures
        b.memory.spec_read::<T>(NP_Buffer::root()) is None,
        b.spec_get::<T>() == T::spec_default(b.node().data),
{
}

} // verus!
