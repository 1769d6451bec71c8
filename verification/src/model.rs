//! The schema as authored (`DataFile`, `DataSpec`, `FieldSpec`, `RecordSpec`)
//! and its normalized form for the code generators (`CppSpec`).

use vstd::prelude::*;
use crate::types::Ty;
use crate::value::Value;

verus! {

/// A file that defines several types: `(types: [ ... ])`.
#[derive(Debug)]
pub struct DataFile {
    pub types: Vec<DataSpec>,
}

/// One type definition (`type_name` in RON, `name` here): its name, an optional namespace chain, its fields
/// and its records.
#[derive(Debug)]
pub struct DataSpec {
    pub name: String,
    pub namespace: Option<String>,
    pub fields: Vec<FieldSpec>,
    pub records: Vec<RecordSpec>,
}

/// A field as authored: name, type (as written) and documentation.
#[derive(Debug)]
pub struct FieldSpec {
    pub name: String,
    pub ty: String,
    pub doc: Option<String>,
}

/// A record (row): its name, documentation and its values by field name.
/// When a field name occurs more than once, the last entry counts.
#[derive(Debug)]
pub struct RecordSpec {
    pub name: String,
    pub doc: Option<String>,
    pub values: Vec<(String, Value)>,
}

/// A generated enum: its name and its values, sorted and without repeats.
#[derive(Debug)]
pub struct EnumDef {
    pub name: String,
    pub values: Vec<String>,
}

/// A normalized field: name, C++ type, parsed type and documentation.
#[derive(Debug)]
pub struct CppField {
    pub name: String,
    pub cpp_type: String,
    pub ty: Ty,
    pub doc: Option<String>,
}

/// A normalized type definition, shared by both code generators.
#[derive(Debug)]
pub struct CppSpec {
    pub name: String,
    /// Namespace chain, outermost first.
    pub namespace_chain: Vec<String>,
    pub fields: Vec<CppField>,
    pub records: Vec<RecordSpec>,
    pub enums: Vec<EnumDef>,
}

} // verus!
