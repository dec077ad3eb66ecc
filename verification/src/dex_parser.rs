//! Reads a DEX image out of a memory snapshot and resolves its tables.
//!
//! A DEX image is a header, six index tables of fixed-width records, and
//! data that the tables point into by file offset. Every offset is taken
//! from the image's base address; nothing requires the image to lie in one
//! region of memory.

use vstd::prelude::*;
use vstd::string::*;
use std::collections::HashMap;
use crate::dex_parser::class_data::{all_code_wf, code_pool, read_code_map, spec_code_map};
use crate::dex_parser::dex_structs::{
    ClassDef, CodeItem, CodeItemView, FieldId, Header, MethodId, ProtoId, StringId, TypeId,
};
use crate::dex_parser::pools::{
    get_proto_string, has_signature_shape, lemma_signature_shape, lookup_or, name_or,
    read_strings, read_type_names, spec_signature, spec_strings, spec_type_names, text_pool,
};
use crate::dex_parser::tables::{read_header, read_table, spec_header, spec_table, ParseError};
use crate::memory::{MemoryImage, RegionView};

pub mod class_data;
pub mod dex_structs;
pub mod pools;
pub mod strings;
pub mod tables;

verus! {

/// Everything recovered from one DEX image.
#[derive(Clone, Debug)]
pub struct ParsedDexFile {
    pub base_addr: usize,
    pub header: Header,
    pub string_ids: Vec<StringId>,
    pub type_ids: Vec<TypeId>,
    pub proto_ids: Vec<ProtoId>,
    pub field_ids: Vec<FieldId>,
    pub method_ids: Vec<MethodId>,
    pub class_defs: Vec<ClassDef>,
    /// String index to decoded text.
    pub strings: HashMap<u32, String>,
    /// Type index to descriptor.
    pub type_names: HashMap<u32, String>,
    /// One record for each method id, in file order.
    pub methods: Vec<ParsedMethod>,
}

/// One method with its names resolved.
#[derive(Clone, Debug)]
pub struct ParsedMethod {
    pub id: MethodId,
    pub class_name: String,
    pub method_name: String,
    /// The parameter descriptors in parentheses, then the return descriptor.
    pub signature: String,
    /// Present when the class data gives the method a code offset.
    pub code_item: Option<CodeItem>,
}

/// The mathematical content of a [`ParsedMethod`].
pub struct MethodView {
    pub id: MethodId,
    pub class_name: Seq<char>,
    pub method_name: Seq<char>,
    pub signature: Seq<char>,
    pub code_item: Option<CodeItemView>,
}

impl View for ParsedMethod {
    type V = MethodView;

    open spec fn view(&self) -> MethodView {
        MethodView {
            id: self.id,
            class_name: self.class_name@,
            method_name: self.method_name@,
            signature: self.signature@,
            code_item: match self.code_item {
                Some(c) => Some(c@),
                None => None,
            },
        }
    }
}

impl ParsedMethod {
    /// The copied instructions, if any, are as many as the code item's
    /// header announces.
    pub open spec fn wf(&self) -> bool {
        self.code_item matches Some(c) ==> c.wf()
    }
}

/// The mathematical content of a [`ParsedDexFile`].
pub struct DexView {
    pub base_addr: int,
    pub header: Header,
    pub string_ids: Seq<StringId>,
    pub type_ids: Seq<TypeId>,
    pub proto_ids: Seq<ProtoId>,
    pub field_ids: Seq<FieldId>,
    pub method_ids: Seq<MethodId>,
    pub class_defs: Seq<ClassDef>,
    pub strings: Map<u32, Seq<char>>,
    pub type_names: Map<u32, Seq<char>>,
    pub methods: Seq<MethodView>,
}

impl View for ParsedDexFile {
    type V = DexView;

    open spec fn view(&self) -> DexView {
        DexView {
            base_addr: self.base_addr as int,
            header: self.header,
            string_ids: self.string_ids@,
            type_ids: self.type_ids@,
            proto_ids: self.proto_ids@,
            field_ids: self.field_ids@,
            method_ids: self.method_ids@,
            class_defs: self.class_defs@,
            strings: text_pool(self.strings@),
            type_names: text_pool(self.type_names@),
            methods: self.methods@.map_values(|m: ParsedMethod| m@),
        }
    }
}

impl ParsedDexFile {
    /// Every method has a signature made of type names of this image, and
    /// as many copied instructions as its code item's header announces.
    pub open spec fn wf(&self) -> bool {
        forall|i: int|
            0 <= i < self.methods@.len() ==> (#[trigger] self.methods@[i]).wf()
                && has_signature_shape(text_pool(self.type_names@), self.methods@[i].signature@)
    }
}

/// The record of method `i`: the name of its class and its own name, `??`
/// where the pools have none, its signature, and the code that the class
/// data gives it.
pub open spec fn spec_method(
    m: Seq<RegionView>,
    base: int,
    strings: Map<u32, Seq<char>>,
    types: Map<u32, Seq<char>>,
    protos: Seq<ProtoId>,
    codes: Map<u32, CodeItemView>,
    ids: Seq<MethodId>,
    i: int,
) -> MethodView {
    let id = ids[i];
    MethodView {
        id,
        class_name: name_or(types, id.class_idx as u32, "??"@),
        method_name: name_or(strings, id.name_idx, "??"@),
        signature: spec_signature(m, base, types, protos, id.proto_idx),
        code_item: if codes.dom().contains(i as u32) {
            Some(codes[i as u32])
        } else {
            None
        },
    }
}

/// The image assembled from its header and its six tables.
pub open spec fn spec_assemble(
    m: Seq<RegionView>,
    base: int,
    header: Header,
    string_ids: Seq<StringId>,
    type_ids: Seq<TypeId>,
    proto_ids: Seq<ProtoId>,
    field_ids: Seq<FieldId>,
    method_ids: Seq<MethodId>,
    class_defs: Seq<ClassDef>,
) -> DexView {
    let strings = spec_strings(m, base, string_ids, string_ids.len() as int);
    let type_names = spec_type_names(strings, type_ids, type_ids.len() as int);
    let codes = spec_code_map(m, base, class_defs, class_defs.len() as int);
    DexView {
        base_addr: base,
        header,
        string_ids,
        type_ids,
        proto_ids,
        field_ids,
        method_ids,
        class_defs,
        strings,
        type_names,
        methods: Seq::new(
            method_ids.len(),
            |i: int| spec_method(m, base, strings, type_names, proto_ids, codes, method_ids, i),
        ),
    }
}

/// What parsing the image at `base` comes to. The tables are read in the
/// order strings, types, prototypes, fields, methods, class definitions;
/// the first that cannot be read is the failure of the whole parse. A header
/// that cannot be read counts as all zero.
pub open spec fn spec_parse(m: Seq<RegionView>, base: int) -> Result<DexView, ParseError> {
    let h = spec_header(m, base);
    match spec_table::<StringId>(m, base, h.string_ids_off as int, h.string_ids_size as int) {
        Err(e) => Err(e),
        Ok(string_ids) => match spec_table::<TypeId>(
            m,
            base,
            h.type_ids_off as int,
            h.type_ids_size as int,
        ) {
            Err(e) => Err(e),
            Ok(type_ids) => match spec_table::<ProtoId>(
                m,
                base,
                h.proto_ids_off as int,
                h.proto_ids_size as int,
            ) {
                Err(e) => Err(e),
                Ok(proto_ids) => match spec_table::<FieldId>(
                    m,
                    base,
                    h.field_ids_off as int,
                    h.field_ids_size as int,
                ) {
                    Err(e) => Err(e),
                    Ok(field_ids) => match spec_table::<MethodId>(
                        m,
                        base,
                        h.method_ids_off as int,
                        h.method_ids_size as int,
                    ) {
                        Err(e) => Err(e),
                        Ok(method_ids) => match spec_table::<ClassDef>(
                            m,
                            base,
                            h.class_defs_off as int,
                            h.class_defs_size as int,
                        ) {
                            Err(e) => Err(e),
                            Ok(class_defs) => Ok(
                                spec_assemble(
                                    m,
                                    base,
                                    h,
                                    string_ids,
                                    type_ids,
                                    proto_ids,
                                    field_ids,
                                    method_ids,
                                    class_defs,
                                ),
                            ),
                        },
                    },
                },
            },
        },
    }
}

/// Builds the record of every method id.
fn build_methods(
    mem: &MemoryImage,
    base: usize,
    strings: &HashMap<u32, String>,
    type_names: &HashMap<u32, String>,
    proto_ids: &Vec<ProtoId>,
    method_ids: &Vec<MethodId>,
    codes: HashMap<u32, CodeItem>,
) -> (methods: Vec<ParsedMethod>)
    requires
        method_ids.len() <= u32::MAX,
        all_code_wf(codes@),
    ensures
        methods@.len() == method_ids.len(),
        forall|i: int|
            0 <= i < methods@.len() ==> (#[trigger] methods@[i])@ == spec_method(
                mem@,
                base as int,
                text_pool(strings@),
                text_pool(type_names@),
                proto_ids@,
                code_pool(codes@),
                method_ids@,
                i,
            ),
        forall|i: int|
            0 <= i < methods@.len() ==> (#[trigger] methods@[i]).wf() && has_signature_shape(
                text_pool(type_names@),
                methods@[i].signature@,
            ),
{
    let ghost all = codes@;
    let mut codes = codes;
    let mut methods: Vec<ParsedMethod> = Vec::new();
    let mut i: usize = 0;
    while i < method_ids.len()
        invariant
            i <= method_ids.len() <= u32::MAX,
            methods@.len() == i,
            all_code_wf(all),
            forall|k: u32|
                k >= i ==> (#[trigger] codes@.dom().contains(k)) == all.dom().contains(k),
            forall|k: u32| k >= i && all.dom().contains(k) ==> #[trigger] codes@[k] == all[k],
            forall|j: int|
                0 <= j < i ==> (#[trigger] methods@[j])@ == spec_method(
                    mem@,
                    base as int,
                    text_pool(strings@),
                    text_pool(type_names@),
                    proto_ids@,
                    code_pool(all),
                    method_ids@,
                    j,
                ),
            forall|j: int|
                0 <= j < i ==> (#[trigger] methods@[j]).wf() && has_signature_shape(
                    text_pool(type_names@),
                    methods@[j].signature@,
                ),
        decreases method_ids.len() - i,
    {
        let id = method_ids[i];
        let class_name = lookup_or(type_names, id.class_idx as u32, "??");
        let method_name = lookup_or(strings, id.name_idx, "??");
        let signature = if (id.proto_idx as usize) < proto_ids.len() {
            get_proto_string(mem, base, &proto_ids[id.proto_idx as usize], type_names)
        } else {
            "()?".to_owned()
        };
        let key = i as u32;
        let code_item = codes.remove(&key);
        proof {
            lemma_signature_shape(
                mem@,
                base as int,
                text_pool(type_names@),
                proto_ids@,
                id.proto_idx,
            );
        }
        let method = ParsedMethod { id, class_name, method_name, signature, code_item };
        methods.push(method);
        i += 1;
    }
    methods
}

/// Parses the DEX image at `base_addr`.
///
/// Fails exactly when one of the six index tables cannot be read or is
/// larger than the limit. Whatever else cannot be read is left out: a string
/// that does not decode has no entry in the pool, a name that is missing is
/// `??`, and a class whose data cannot be walked keeps the code found before
/// the failure.
pub fn parse_dex_at(mem: &MemoryImage, base_addr: usize) -> (r: Result<ParsedDexFile, ParseError>)
    ensures
        match r {
            Ok(d) => spec_parse(mem@, base_addr as int) == Ok::<DexView, ParseError>(d@) && d.wf(),
            Err(e) => spec_parse(mem@, base_addr as int) == Err::<DexView, ParseError>(e),
        },
{
    let header = read_header(mem, base_addr);
    let string_ids = match read_table::<StringId>(
        mem,
        base_addr,
        header.string_ids_off,
        header.string_ids_size,
    ) {
        Ok(t) => t,
        Err(e) => {
            return Err(e);
        },
    };
    let strings = read_strings(mem, base_addr, &string_ids);
    let type_ids = match read_table::<TypeId>(
        mem,
        base_addr,
        header.type_ids_off,
        header.type_ids_size,
    ) {
        Ok(t) => t,
        Err(e) => {
            return Err(e);
        },
    };
    let type_names = read_type_names(&strings, &type_ids);
    let proto_ids = match read_table::<ProtoId>(
        mem,
        base_addr,
        header.proto_ids_off,
        header.proto_ids_size,
    ) {
        Ok(t) => t,
        Err(e) => {
            return Err(e);
        },
    };
    let field_ids = match read_table::<FieldId>(
        mem,
        base_addr,
        header.field_ids_off,
        header.field_ids_size,
    ) {
        Ok(t) => t,
        Err(e) => {
            return Err(e);
        },
    };
    let method_ids = match read_table::<MethodId>(
        mem,
        base_addr,
        header.method_ids_off,
        header.method_ids_size,
    ) {
        Ok(t) => t,
        Err(e) => {
            return Err(e);
        },
    };
    let class_defs = match read_table::<ClassDef>(
        mem,
        base_addr,
        header.class_defs_off,
        header.class_defs_size,
    ) {
        Ok(t) => t,
        Err(e) => {
            return Err(e);
        },
    };
    let codes = read_code_map(mem, base_addr, &class_defs);
    let methods = build_methods(
        mem,
        base_addr,
        &strings,
        &type_names,
        &proto_ids,
        &method_ids,
        codes,
    );
    let dex = ParsedDexFile {
        base_addr,
        header,
        string_ids,
        type_ids,
        proto_ids,
        field_ids,
        method_ids,
        class_defs,
        strings,
        type_names,
        methods,
    };
    proof {
        let want = spec_assemble(
            mem@,
            base_addr as int,
            header,
            dex.string_ids@,
            dex.type_ids@,
            dex.proto_ids@,
            dex.field_ids@,
            dex.method_ids@,
            dex.class_defs@,
        );
        assert(dex@.methods =~= want.methods);
    }
    Ok(dex)
}

} // verus!
