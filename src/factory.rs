//! Compiled schemas and the factory that compiles them from IDL text, a
//! JSON document or compiled bytes, and hands out buffers.
use vstd::prelude::*;
use crate::buffer::NP_Buffer;
use crate::compile::{NP_Declaration, DeclView, compile_decl, compile_declaration, key_of_name};
use crate::idl::idl_declaration;
use crate::json::doc_declaration;
use crate::roundtrip::{law_idl_round_trip, law_json_round_trip};
use crate::emit::{json_text, idl_text, schema_to_json, schema_to_idl};
use crate::error::NP_Error;
use crate::idl::parse_idl_declaration;
use crate::json::parse_json_declaration;
use crate::schema::{NP_Parsed_Schema, fragment_of, parse_fragment, node_fragment, node_from_fragment, law_fragment_round_trip};

verus! {

/// A compiled schema: its nodes, the first being the root.
#[derive(Debug)]
pub struct NP_Schema {
    pub parsed: Vec<NP_Parsed_Schema>,
}

impl NP_Schema {
    pub open spec fn wf(self) -> bool {
        &&& self.parsed@.len() >= 1
        &&& forall|i: int| 0 <= i < self.parsed@.len() ==> (#[trigger] self.parsed@[i]).wf()
    }

    /// The root node.
    pub open spec fn root(self) -> NP_Parsed_Schema {
        self.parsed@[0]
    }

    /// The JSON schema document of this schema.
    pub fn to_json(&self) -> (r: Result<String, NP_Error>)
        requires
            self.wf(),
        ensures
            r matches Ok(t) && t@ == json_text(self.root()),
    {
        Ok(schema_to_json(&self.parsed[0]))
    }

    /// The IDL text of this schema.
    pub fn to_idl(&self) -> (r: Result<String, NP_Error>)
        requires
            self.wf(),
        ensures
            r matches Ok(t) && t@ == idl_text(self.root()),
    {
        Ok(schema_to_idl(&self.parsed[0]))
    }
}

/// `r` is what reading a declaration and compiling it gives: the error of
/// whichever step failed, else a factory whose root is the compiled node.
pub open spec fn compiled_as(r: Result<NP_Factory, NP_Error>, d: Result<DeclView, NP_Error>) -> bool {
    match d {
        Err(e) => r == Err::<NP_Factory, NP_Error>(e),
        Ok(v) => match compile_decl(v) {
            Err(e) => r == Err::<NP_Factory, NP_Error>(e),
            Ok(n) => r matches Ok(f) && f.root() == n,
        },
    }
}

/// Compiles schemas and makes buffers that follow them.
#[derive(Debug)]
pub struct NP_Factory {
    /// The compiled schema.
    pub schema: NP_Schema,
    /// The compiled bytes of the schema.
    pub schema_bytes: Vec<u8>,
}

impl NP_Factory {
    /// One root node, with the bytes compiled from it.
    pub open spec fn wf(self) -> bool {
        &&& self.schema.wf()
        &&& self.schema.parsed@.len() == 1
        &&& self.schema_bytes@ == fragment_of(self.schema.root())
    }

    /// The root node.
    pub open spec fn root(self) -> NP_Parsed_Schema {
        self.schema.root()
    }

    /// The factory whose schema is the one node `n`.
    fn from_node(n: NP_Parsed_Schema) -> (r: NP_Factory)
        requires
            n.wf(),
        ensures
            r.wf(),
            r.root() == n,
    {
        let bytes = node_fragment(&n);
        let mut parsed: Vec<NP_Parsed_Schema> = Vec::new();
        parsed.push(n);
        NP_Factory { schema: NP_Schema { parsed }, schema_bytes: bytes }
    }

    /// Compiles a declaration.
    pub fn from_declaration(d: &NP_Declaration) -> (r: Result<NP_Factory, NP_Error>)
        requires
            d.wf(),
        ensures
            r matches Ok(f) ==> f.wf() && compile_decl(d@) == Ok::<NP_Parsed_Schema, NP_Error>(
                f.root(),
            ),
            r matches Err(e) ==> compile_decl(d@) == Err::<NP_Parsed_Schema, NP_Error>(e),
    {
        match compile_declaration(d) {
            Ok(n) => Ok(NP_Factory::from_node(n)),
            Err(e) => Err(e),
        }
    }

    /// Compiles IDL text such as `dec({exp: 2})`.
    pub fn new(idl: &str) -> (r: Result<NP_Factory, NP_Error>)
        ensures
            r matches Ok(f) ==> f.wf(),
            compiled_as(r, idl_declaration(idl@)),
    {
        match parse_idl_declaration(idl) {
            Ok(d) => NP_Factory::from_declaration(&d),
            Err(e) => Err(e),
        }
    }

    /// Compiles a JSON schema document such as `{"type":"int8"}`.
    pub fn new_json(json: &str) -> (r: Result<NP_Factory, NP_Error>)
        ensures
            r matches Ok(f) ==> f.wf(),
            compiled_as(r, doc_declaration(json@)),
    {
        match parse_json_declaration(json) {
            Ok(d) => NP_Factory::from_declaration(&d),
            Err(e) => Err(e),
        }
    }

    /// Reads compiled schema bytes, as `export_schema_bytes` gives them.
    pub fn new_bytes(bytes: &[u8]) -> (r: Result<NP_Factory, NP_Error>)
        ensures
            r matches Ok(f) ==> f.wf() && (parse_fragment(bytes@) matches Ok((n, _)) && n == f.root()),
            r matches Err(e) ==> parse_fragment(bytes@) == Err::<(NP_Parsed_Schema, nat), NP_Error>(e),
    {
        match node_from_fragment(bytes) {
            Ok((n, _)) => Ok(NP_Factory::from_node(n)),
            Err(e) => Err(e),
        }
    }

    /// The compiled bytes of the schema.
    pub fn export_schema_bytes(&self) -> (r: &[u8])
        ensures
            r@ == self.schema_bytes@,
    {
        self.schema_bytes.as_slice()
    }

    /// A buffer with no value in it.
    pub fn new_buffer(&self, capacity: Option<u32>) -> (r: NP_Buffer)
        requires
            self.wf(),
        ensures
            r.wf(),
            r.memory.schema@ == self.schema.parsed@,
            r.memory.value_addr(NP_Buffer::root()) == 0,
    {
        NP_Buffer::new(&self.schema.parsed, capacity)
    }
}

/// Compiling from the schema bytes of a factory gives back its root node,
/// so a schema compiled from a JSON document or IDL text and the one
/// compiled again from its bytes emit the same JSON and the same IDL.
pub proof fn law_compiled_bytes_round_trip(f: NP_Factory)
    requires
        f.wf(),
    ensures
        parse_fragment(f.schema_bytes@) == Ok::<(NP_Parsed_Schema, nat), NP_Error>(
            (f.root(), f.schema_bytes@.len()),
        ),
        match parse_fragment(f.schema_bytes@) {
            Ok((n, _)) => json_text(n) == json_text(f.root()) && idl_text(n) == idl_text(f.root()),
            Err(_) => false,
        },
{
    law_fragment_round_trip(f.root(), seq![]);
    assert(fragment_of(f.root()) + seq![] =~= fragment_of(f.root()));
}

/// The front ends agree: IDL text and a JSON document that name the same
/// type and write the same `exp` and `default` compile to the same node, or
/// fail the same way.
pub proof fn law_front_ends_agree(idl: Seq<char>, json: Seq<char>, a: DeclView, b: DeclView)
    requires
        idl_declaration(idl) == Ok::<DeclView, NP_Error>(a),
        doc_declaration(json) == Ok::<DeclView, NP_Error>(b),
        key_of_name(a.kind) == key_of_name(b.kind),
        a.exp == b.exp,
        a.default == b.default,
    ensures
        compile_decl(a) == compile_decl(b),
{
}

/// Round trip identity: the IDL text, the JSON document and the compiled
/// bytes of a factory's schema each compile back to its root node, so all
/// three emit the same JSON and the same IDL.
pub proof fn law_schema_round_trip(f: NP_Factory)
    requires
        f.wf(),
    ensures
        idl_declaration(idl_text(f.root())) matches Ok(d) && compile_decl(d) == Ok::<
            NP_Parsed_Schema,
            NP_Error,
        >(f.root()),
        doc_declaration(json_text(f.root())) matches Ok(d) && compile_decl(d) == Ok::<
            NP_Parsed_Schema,
            NP_Error,
        >(f.root()),
        parse_fragment(f.schema_bytes@) == Ok::<(NP_Parsed_Schema, nat), NP_Error>(
            (f.root(), f.schema_bytes@.len()),
        ),
{
    law_idl_round_trip(f.root());
    law_json_round_trip(f.root());
    law_compiled_bytes_round_trip(f);
}

} // verus!
