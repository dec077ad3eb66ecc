//! The fixed-layout records of the DEX format, as decoded values.

use vstd::prelude::*;

verus! {

/// The 0x70-byte prefix of a DEX image.
#[derive(Clone, Copy, Debug)]
pub struct Header {
    pub magic: [u8; 8],
    pub checksum: u32,
    pub signature: [u8; 20],
    pub file_size: u32,
    pub header_size: u32,
    pub endian_tag: u32,
    pub link_size: u32,
    pub link_off: u32,
    pub map_off: u32,
    pub string_ids_size: u32,
    pub string_ids_off: u32,
    pub type_ids_size: u32,
    pub type_ids_off: u32,
    pub proto_ids_size: u32,
    pub proto_ids_off: u32,
    pub field_ids_size: u32,
    pub field_ids_off: u32,
    pub method_ids_size: u32,
    pub method_ids_off: u32,
    pub class_defs_size: u32,
    pub class_defs_off: u32,
    pub data_size: u32,
    pub data_off: u32,
}

/// One entry of the map list.
#[derive(Clone, Copy, Debug, PartialEq, Eq, Structural)]
pub struct MapItem {
    pub type_: u16,
    pub unused_: u16,
    pub size: u32,
    pub offset: u32,
}

/// The map list: a count and that many entries.
#[derive(Clone, Debug)]
pub struct MapList {
    pub size: u32,
    pub list: Vec<MapItem>,
}

/// A string id: where the string's data starts in the file.
#[derive(Clone, Copy, Debug, PartialEq, Eq, PartialOrd, Ord, Structural)]
pub struct StringId {
    pub string_data_off: u32,
}

/// A type id: the string index of the type's descriptor.
#[derive(Clone, Copy, Debug, PartialEq, Eq, Structural)]
pub struct TypeId {
    pub descriptor_idx: u32,
}

/// A prototype id.
#[derive(Clone, Copy, Debug, PartialEq, Eq, Structural)]
pub struct ProtoId {
    pub shorty_idx: u32,
    pub return_type_idx: u32,
    pub parameters_off: u32,
}

/// A field id.
#[derive(Clone, Copy, Debug, PartialEq, Eq, Structural)]
pub struct FieldId {
    pub class_idx: u16,
    pub type_idx: u16,
    pub name_idx: u32,
}

/// A method id.
#[derive(Clone, Copy, Debug, PartialEq, Eq, Structural)]
pub struct MethodId {
    pub class_idx: u16,
    pub proto_idx: u16,
    pub name_idx: u32,
}

/// A class definition.
#[derive(Clone, Copy, Debug, PartialEq, Eq, Structural)]
pub struct ClassDef {
    pub class_idx: u32,
    pub access_flags: u32,
    pub superclass_idx: u32,
    pub interfaces_off: u32,
    pub source_file_idx: u32,
    pub annotations_off: u32,
    pub class_data_off: u32,
    pub static_values_off: u32,
}

/// The 16-byte header of a code item.
#[derive(Clone, Copy, Debug, PartialEq, Eq, Structural)]
pub struct CodeItemHeader {
    pub registers_size: u16,
    pub ins_size: u16,
    pub outs_size: u16,
    pub tries_size: u16,
    pub debug_info_off: u32,
    pub insns_size_in_code_units: u32,
}

/// A code item: its header and an owned copy of the instruction stream, one
/// element for each 16-bit code unit.
#[derive(Clone, Debug)]
pub struct CodeItem {
    pub header: CodeItemHeader,
    pub insns: Vec<u16>,
}

/// The mathematical content of a [`CodeItem`].
pub struct CodeItemView {
    pub header: CodeItemHeader,
    pub insns: Seq<u16>,
}

impl View for CodeItem {
    type V = CodeItemView;

    open spec fn view(&self) -> CodeItemView {
        CodeItemView { header: self.header, insns: self.insns@ }
    }
}

impl CodeItem {
    /// The number of bytes that the copied instruction stream occupies.
    pub open spec fn insns_byte_len(&self) -> nat {
        2 * self.insns@.len()
    }

    /// The copy holds exactly the code units that the header announces.
    pub open spec fn wf(&self) -> bool {
        2 * (self.header.insns_size_in_code_units as int) == self.insns_byte_len()
    }
}

} // verus!
