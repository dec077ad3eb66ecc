//! The derived tables: the string pool, the type names and the method
//! signatures.

use vstd::prelude::*;
use vstd::string::*;
use std::collections::HashMap;
use crate::bytes::{le_u32, read_u32};
use crate::dex_parser::dex_structs::{ProtoId, StringId, TypeId};
use crate::dex_parser::strings::{read_string_data, spec_string_data};
use crate::dex_parser::tables::{
    decode_records, decoded_records, image_addr, image_address, read_image, same_table, ParseError,
};
use crate::memory::{padded_read, MemoryImage, RegionView};
use crate::text::push_char;

verus! {

/// The texts of a pool, by index.
pub open spec fn text_pool(h: Map<u32, String>) -> Map<u32, Seq<char>> {
    Map::new(|k: u32| h.dom().contains(k), |k: u32| h[k]@)
}

/// The text in a decoding outcome; nothing where it failed.
pub open spec fn text_of(r: Result<Seq<char>, ParseError>) -> Seq<char> {
    match r {
        Ok(s) => s,
        Err(_) => Seq::empty(),
    }
}

/// What the string data of string `k` decodes to.
pub open spec fn string_outcome(m: Seq<RegionView>, base: int, ids: Seq<StringId>, k: int) -> Result<
    Seq<char>,
    ParseError,
> {
    spec_string_data(m, image_addr(base, ids[k].string_data_off as int))
}

/// The string pool built from the first `upto` string ids: each index whose
/// data offset is not zero and whose data decodes, with its text.
pub open spec fn spec_strings(m: Seq<RegionView>, base: int, ids: Seq<StringId>, upto: int) -> Map<
    u32,
    Seq<char>,
> {
    Map::new(
        |k: u32|
            k < upto && k < ids.len() && ids[k as int].string_data_off != 0 && string_outcome(
                m,
                base,
                ids,
                k as int,
            ) is Ok,
        |k: u32| text_of(string_outcome(m, base, ids, k as int)),
    )
}

/// A pool that gains the entry which the next table index adds is the pool of
/// the longer table.
proof fn lemma_pool_grows(
    before: Map<u32, String>,
    after: Map<u32, String>,
    shorter: Map<u32, Seq<char>>,
    longer: Map<u32, Seq<char>>,
    k: u32,
)
    requires
        text_pool(before) == shorter,
        after.dom() =~= before.dom().insert(k),
        forall|j: u32| j != k && before.dom().contains(j) ==> after[j] == before[j],
        longer.dom() =~= shorter.dom().insert(k),
        forall|j: u32| j != k && shorter.dom().contains(j) ==> longer[j] == shorter[j],
        longer[k] == after[k]@,
    ensures
        text_pool(after) == longer,
{
}

/// Decodes the string data of every string id.
pub fn read_strings(mem: &MemoryImage, base: usize, ids: &Vec<StringId>) -> (pool: HashMap<
    u32,
    String,
>)
    requires
        ids.len() <= u32::MAX,
    ensures
        text_pool(pool@) == spec_strings(mem@, base as int, ids@, ids.len() as int),
{
    let mut pool: HashMap<u32, String> = HashMap::new();
    let mut i: usize = 0;
    while i < ids.len()
        invariant
            i <= ids.len() <= u32::MAX,
            text_pool(pool@) == spec_strings(mem@, base as int, ids@, i as int),
        decreases ids.len() - i,
    {
        let ghost before = pool@;
        let off = ids[i].string_data_off;
        let mut decoded: Option<String> = None;
        if off != 0 {
            match image_address(mem, base, off as u64) {
                Some(addr) => {
                    match read_string_data(mem, addr) {
                        Ok(s) => {
                            decoded = Some(s);
                        },
                        Err(_) => {},
                    }
                },
                None => {},
            }
        }
        match decoded {
            Some(s) => {
                pool.insert(i as u32, s);
                proof {
                    lemma_pool_grows(
                        before,
                        pool@,
                        spec_strings(mem@, base as int, ids@, i as int),
                        spec_strings(mem@, base as int, ids@, i + 1),
                        i as u32,
                    );
                }
            },
            None => {},
        }
        i += 1;
    }
    pool
}

/// The type names built from the first `upto` type ids: each index whose
/// descriptor is in the string pool, with that text.
pub open spec fn spec_type_names(strings: Map<u32, Seq<char>>, tids: Seq<TypeId>, upto: int) -> Map<
    u32,
    Seq<char>,
> {
    Map::new(
        |k: u32|
            k < upto && k < tids.len() && strings.dom().contains(tids[k as int].descriptor_idx),
        |k: u32| strings[tids[k as int].descriptor_idx],
    )
}

/// Looks up the descriptor of every type id.
pub fn read_type_names(strings: &HashMap<u32, String>, tids: &Vec<TypeId>) -> (names: HashMap<
    u32,
    String,
>)
    requires
        tids.len() <= u32::MAX,
    ensures
        text_pool(names@) == spec_type_names(text_pool(strings@), tids@, tids.len() as int),
{
    let mut names: HashMap<u32, String> = HashMap::new();
    let mut i: usize = 0;
    while i < tids.len()
        invariant
            i <= tids.len() <= u32::MAX,
            text_pool(names@) == spec_type_names(text_pool(strings@), tids@, i as int),
        decreases tids.len() - i,
    {
        let ghost before = names@;
        let idx = tids[i].descriptor_idx;
        match strings.get(&idx) {
            Some(s) => {
                let copy = s.clone();
                names.insert(i as u32, copy);
                proof {
                    lemma_pool_grows(
                        before,
                        names@,
                        spec_type_names(text_pool(strings@), tids@, i as int),
                        spec_type_names(text_pool(strings@), tids@, i + 1),
                        i as u32,
                    );
                }
            },
            None => {},
        }
        i += 1;
    }
    names
}

/// The text at index `k` of a pool, or `fallback` where the pool has none.
pub open spec fn name_or(pool: Map<u32, Seq<char>>, k: u32, fallback: Seq<char>) -> Seq<char> {
    if pool.dom().contains(k) {
        pool[k]
    } else {
        fallback
    }
}

/// The text at index `k` of a pool, or `fallback` where the pool has none.
pub fn lookup_or(pool: &HashMap<u32, String>, k: u32, fallback: &str) -> (r: String)
    ensures
        r@ == name_or(text_pool(pool@), k, fallback@),
{
    match pool.get(&k) {
        Some(s) => s.clone(),
        None => fallback.to_owned(),
    }
}

/// The most entries that a type list may announce.
pub const MAX_TYPE_LIST: u32 = 0xFFFF;

/// The type list at `addr`: a 32-bit count, then that many 16-bit type
/// indices. A count above [`MAX_TYPE_LIST`] is malformed.
pub open spec fn spec_type_list(m: Seq<RegionView>, addr: int) -> Result<Seq<u16>, ParseError> {
    match padded_read(m, addr, 4) {
        Err(e) => Err(ParseError::Read(e)),
        Ok(b) => {
            let size = le_u32(b, 0);
            if size > MAX_TYPE_LIST {
                Err(ParseError::Malformed)
            } else {
                match padded_read(m, addr + 4, 2 * size) {
                    Err(e) => Err(ParseError::Read(e)),
                    Ok(list) => Ok(decoded_records::<u16>(list, size as int)),
                }
            }
        },
    }
}

/// Reads the type list at offset `off` of the image at `base`.
pub fn read_type_list(mem: &MemoryImage, base: usize, off: u32) -> (r: Result<Vec<u16>, ParseError>)
    ensures
        same_table(r, spec_type_list(mem@, image_addr(base as int, off as int))),
{
    let head = match read_image(mem, base, off as u64, 4) {
        Ok(b) => b,
        Err(e) => {
            return Err(ParseError::Read(e));
        },
    };
    let size = read_u32(head.as_slice(), 0);
    if size > MAX_TYPE_LIST {
        return Err(ParseError::Malformed);
    }
    let len: usize = 2 * (size as usize);
    match read_image(mem, base, off as u64 + 4, len) {
        Err(e) => Err(ParseError::Read(e)),
        Ok(list) => Ok(decode_records::<u16>(list.as_slice(), size as usize)),
    }
}

/// The descriptors of the listed types, one after the other; `?` stands for
/// a type without a name.
pub open spec fn param_text(types: Map<u32, Seq<char>>, list: Seq<u16>) -> Seq<char>
    decreases list.len(),
{
    if list.len() == 0 {
        Seq::empty()
    } else {
        param_text(types, list.drop_last()) + name_or(types, list.last() as u32, "?"@)
    }
}

/// The parameter types of a prototype: its type list, or none where the
/// list's offset is zero or the list cannot be read.
pub open spec fn spec_params(m: Seq<RegionView>, base: int, proto: ProtoId) -> Seq<u16> {
    if proto.parameters_off == 0 {
        Seq::empty()
    } else {
        match spec_type_list(m, image_addr(base, proto.parameters_off as int)) {
            Ok(list) => list,
            Err(_) => Seq::empty(),
        }
    }
}

/// The signature of a prototype: the parameter descriptors in parentheses,
/// then the return descriptor.
pub open spec fn spec_proto_text(
    m: Seq<RegionView>,
    base: int,
    types: Map<u32, Seq<char>>,
    proto: ProtoId,
) -> Seq<char> {
    seq!['('] + param_text(types, spec_params(m, base, proto)) + seq![')'] + name_or(
        types,
        proto.return_type_idx,
        "?"@,
    )
}

/// The signature of the method with prototype index `proto_idx`; `()?`
/// where the index is past the prototype table.
pub open spec fn spec_signature(
    m: Seq<RegionView>,
    base: int,
    types: Map<u32, Seq<char>>,
    protos: Seq<ProtoId>,
    proto_idx: u16,
) -> Seq<char> {
    if proto_idx < protos.len() {
        spec_proto_text(m, base, types, protos[proto_idx as int])
    } else {
        "()?"@
    }
}

/// Builds the signature of a prototype.
pub fn get_proto_string(
    mem: &MemoryImage,
    base: usize,
    proto: &ProtoId,
    types: &HashMap<u32, String>,
) -> (r: String)
    ensures
        r@ == spec_proto_text(mem@, base as int, text_pool(types@), *proto),
{
    let mut list: Vec<u16> = Vec::new();
    if proto.parameters_off != 0 {
        match read_type_list(mem, base, proto.parameters_off) {
            Ok(l) => {
                list = l;
            },
            Err(_) => {},
        }
    }
    let mut out = String::new();
    push_char(&mut out, '(');
    let mut i: usize = 0;
    while i < list.len()
        invariant
            i <= list.len(),
            out@ == seq!['('] + param_text(text_pool(types@), list@.take(i as int)),
        decreases list.len() - i,
    {
        let name = lookup_or(types, list[i] as u32, "?");
        out.append(name.as_str());
        proof {
            let t = list@.take(i + 1);
            assert(t.drop_last() =~= list@.take(i as int));
        }
        i += 1;
    }
    assert(list@.take(list@.len() as int) =~= list@);
    push_char(&mut out, ')');
    let ret = lookup_or(types, proto.return_type_idx, "?");
    out.append(ret.as_str());
    out
}

/// Whether the text is the name of a type of the pool, or `?`, which stands
/// for a type without a name.
pub open spec fn is_type_text(types: Map<u32, Seq<char>>, text: Seq<char>) -> bool {
    text == "?"@ || exists|k: u32| types.dom().contains(k) && #[trigger] types[k] == text
}

/// A signature is an opening parenthesis, the names of some parameter
/// types, a closing parenthesis and the name of one more type; each name is
/// one of the pool, or `?`.
pub open spec fn has_signature_shape(types: Map<u32, Seq<char>>, sig: Seq<char>) -> bool {
    exists|params: Seq<Seq<char>>, ret: Seq<char>| #[trigger]
        signature_of(params, ret) == sig && is_type_text(types, ret) && forall|i: int|
            0 <= i < params.len() ==> is_type_text(types, #[trigger] params[i])
}

/// The signature with the given parameter and return descriptors.
pub open spec fn signature_of(params: Seq<Seq<char>>, ret: Seq<char>) -> Seq<char> {
    seq!['('] + params.flatten() + seq![')'] + ret
}

/// The descriptors of the listed types; `?` stands for a type without a
/// name.
pub open spec fn param_names(types: Map<u32, Seq<char>>, list: Seq<u16>) -> Seq<Seq<char>> {
    Seq::new(list.len(), |i: int| name_or(types, list[i] as u32, "?"@))
}

/// The parameter text is the descriptors of the listed types, joined.
pub proof fn lemma_param_text_is_joined(types: Map<u32, Seq<char>>, list: Seq<u16>)
    ensures
        param_text(types, list) == param_names(types, list).flatten(),
    decreases list.len(),
{
    let names = param_names(types, list);
    if list.len() == 0 {
    } else {
        lemma_param_text_is_joined(types, list.drop_last());
        let init = param_names(types, list.drop_last());
        let last = seq![name_or(types, list.last() as u32, "?"@)];
        assert(names =~= init + last);
        vstd::seq_lib::lemma_flatten_concat(init, last);
        last.lemma_flatten_one_element();
    }
}

/// Every signature that the parser builds has the shape of a signature: the
/// parenthesised descriptors of its parameters and a return descriptor, or
/// exactly `()?`.
pub proof fn lemma_signature_shape(
    m: Seq<RegionView>,
    base: int,
    types: Map<u32, Seq<char>>,
    protos: Seq<ProtoId>,
    proto_idx: u16,
)
    ensures
        has_signature_shape(types, spec_signature(m, base, types, protos, proto_idx)),
        proto_idx >= protos.len() ==> spec_signature(m, base, types, protos, proto_idx) == "()?"@,
{
    if proto_idx < protos.len() {
        let proto = protos[proto_idx as int];
        let list = spec_params(m, base, proto);
        lemma_param_text_is_joined(types, list);
        let ret = name_or(types, proto.return_type_idx, "?"@);
        assert(signature_of(param_names(types, list), ret) == spec_signature(
            m,
            base,
            types,
            protos,
            proto_idx,
        ));
    } else {
        reveal_strlit("()?");
        reveal_strlit("?");
        let none = Seq::<Seq<char>>::empty();
        assert(none.flatten() =~= Seq::<char>::empty());
        assert(seq!['?'] =~= "?"@);
        assert(signature_of(none, "?"@) =~= "()?"@);
    }
}

} // verus!
