//! Validation of a type definition and its normalization into a `CppSpec`:
//! namespace merging, field types, record checks and enum collection.

use vstd::prelude::*;
use vstd::string::*;
use crate::model::{CppField, CppSpec, DataSpec, EnumDef, FieldSpec, RecordSpec};
use crate::names::{split_namespace, spec_split_namespace};
use crate::order::{
    insert_sorted, lemma_lex_asymmetric, lemma_lex_irreflexive, lex_lt, sorted_position,
    sorted_strict,
};
use crate::text::str_equal;
use crate::types::{cpp_type, parse_ty, spec_cpp_type, spec_parse_ty, Ty, TyModel, UnsupportedType};
use crate::value::{
    expect_bool, expect_integer, expect_number, expect_rotator, expect_string, expect_vector,
    spec_expect_bool, spec_expect_integer, spec_expect_number, spec_expect_rotator,
    spec_expect_string, spec_expect_vector, Number, Value, ValueError, ValueErrorModel,
};

verus! {

/// What a record value was checked to be.
#[derive(Debug)]
pub enum Expected {
    /// A string, as a value of the named enum.
    EnumString(String),
    String,
    Float,
    Number,
    Integer,
    Bool,
    Vector,
    Rotator,
}

/// Why a type definition was refused.
#[derive(Debug)]
pub enum SpecError {
    /// A field's type is not one the schema supports.
    InvalidFieldType { field: String, unsupported: UnsupportedType },
    /// A record gives no value for a field.
    MissingValue { record: String, field: String },
    /// A record's value for a field does not have the field's type.
    WrongValue { record: String, field: String, expected: Expected, cause: ValueError },
    /// No record gives a value for an enum.
    EmptyEnum { name: String },
}

// ---------- The namespace chain ----------

pub open spec fn chain_of(ns: Option<Seq<char>>) -> Seq<Seq<char>> {
    match ns {
        Some(s) => spec_split_namespace(s),
        None => seq![],
    }
}

/// The command line's chain, then the file's; one of them alone when the
/// other is empty, and only once when both are the same.
pub open spec fn spec_merge_namespaces(cli: Seq<Seq<char>>, file: Seq<Seq<char>>) -> Seq<Seq<char>> {
    if cli.len() > 0 && file.len() > 0 {
        if cli == file {
            cli
        } else {
            cli + file
        }
    } else if cli.len() > 0 {
        cli
    } else {
        file
    }
}

fn chains_equal(a: &Vec<String>, b: &Vec<String>) -> (r: bool)
    ensures
        r == (a.deep_view() == b.deep_view()),
{
    assert(a.deep_view().len() == a@.len());
    assert(b.deep_view().len() == b@.len());
    if a.len() != b.len() {
        return false;
    }
    let n = a.len();
    let mut i: usize = 0;
    while i < n
        invariant
            n == a@.len(),
            n == b@.len(),
            i <= n,
            forall|j: int| 0 <= j < i ==> a.deep_view()[j] == b.deep_view()[j],
        decreases n - i,
    {
        assert(a.deep_view()[i as int] == a@[i as int]@);
        assert(b.deep_view()[i as int] == b@[i as int]@);
        if !str_equal(a[i].as_str(), b[i].as_str()) {
            return false;
        }
        i = i + 1;
    }
    assert(a.deep_view() =~= b.deep_view());
    true
}

/// Merges the command line's namespace chain with a file's (see
/// `spec_merge_namespaces`).
pub fn merge_namespaces(cli: Vec<String>, file: Vec<String>) -> (r: Vec<String>)
    ensures
        r.deep_view() == spec_merge_namespaces(cli.deep_view(), file.deep_view()),
{
    if cli.len() > 0 && file.len() > 0 {
        if chains_equal(&cli, &file) {
            cli
        } else {
            let mut merged = cli;
            let mut rest = file;
            let ghost a = merged.deep_view();
            let ghost b = rest.deep_view();
            merged.append(&mut rest);
            assert(merged.deep_view() =~= a + b);
            merged
        }
    } else if cli.len() > 0 {
        cli
    } else {
        file
    }
}

/// Two different chains are nested, the command line's outside: the merged
/// chain is the command line's names followed by the file's.
pub proof fn lemma_merge_namespaces_nests(cli: Seq<Seq<char>>, file: Seq<Seq<char>>)
    requires
        cli != file,
    ensures
        spec_merge_namespaces(cli, file) == cli + file,
        spec_merge_namespaces(cli, file).len() == cli.len() + file.len(),
        spec_merge_namespaces(cli, file).take(cli.len() as int) == cli,
        spec_merge_namespaces(cli, file).skip(cli.len() as int) == file,
{
    if cli.len() == 0 {
        assert(cli + file =~= file);
    } else if file.len() == 0 {
        assert(cli + file =~= cli);
    }
    assert((cli + file).take(cli.len() as int) =~= cli);
    assert((cli + file).skip(cli.len() as int) =~= file);
}

/// A chain merged with itself stays as it is; with an empty chain on either
/// side the other is taken as it is.
pub proof fn lemma_merge_namespaces_dedup(c: Seq<Seq<char>>)
    ensures
        spec_merge_namespaces(c, c) == c,
        spec_merge_namespaces(c, seq![]) == c,
        spec_merge_namespaces(seq![], c) == c,
{
}


// ---------- Fields ----------

/// The parsed type of a field whose type is supported.
pub open spec fn field_ty(f: FieldSpec) -> TyModel {
    spec_parse_ty(f.ty@)->0
}

/// Every field type is supported.
pub open spec fn fields_typed(fs: Seq<FieldSpec>) -> bool {
    forall|i: int| 0 <= i < fs.len() ==> (#[trigger] spec_parse_ty(fs[i].ty@)) is Some
}

/// `i` is the first field whose type is not supported.
pub open spec fn first_bad_field(fs: Seq<FieldSpec>, i: int) -> bool {
    &&& 0 <= i < fs.len()
    &&& spec_parse_ty(fs[i].ty@) is None
    &&& forall|j: int| 0 <= j < i ==> (#[trigger] spec_parse_ty(fs[j].ty@)) is Some
}

/// A normalized field for an authored one.
pub open spec fn normalized_field(c: CppField, f: FieldSpec) -> bool {
    &&& c.name == f.name
    &&& c.ty@ == field_ty(f)
    &&& c.cpp_type@ == spec_cpp_type(field_ty(f))
    &&& c.doc == f.doc
}

// ---------- Records ----------

/// The value a record gives for a field name; the last entry with that name
/// counts.
pub open spec fn record_value(values: Seq<(String, Value)>, key: Seq<char>) -> Option<Value>
    decreases values.len(),
{
    if values.len() == 0 {
        None
    } else if values.last().0@ == key {
        Some(values.last().1)
    } else {
        record_value(values.drop_last(), key)
    }
}

/// What is wrong with a value for a field of type `t`, if anything.
pub open spec fn value_error(t: TyModel, v: Value) -> Option<ValueErrorModel> {
    let r: Result<(), ValueErrorModel> = match t {
        TyModel::Enum(_) | TyModel::String | TyModel::FName => match spec_expect_string(v) {
            Ok(_) => Ok(()),
            Err(e) => Err(e),
        },
        TyModel::Float | TyModel::Double => match spec_expect_number(v) {
            Ok(_) => Ok(()),
            Err(e) => Err(e),
        },
        TyModel::Int32 => match spec_expect_integer(v) {
            Ok(_) => Ok(()),
            Err(e) => Err(e),
        },
        TyModel::Bool => match spec_expect_bool(v) {
            Ok(_) => Ok(()),
            Err(e) => Err(e),
        },
        TyModel::Vector => match spec_expect_vector(v) {
            Ok(_) => Ok(()),
            Err(e) => Err(e),
        },
        TyModel::Rotator => match spec_expect_rotator(v) {
            Ok(_) => Ok(()),
            Err(e) => Err(e),
        },
    };
    match r {
        Ok(_) => None,
        Err(e) => Some(e),
    }
}

/// A problem of a record with one field.
pub enum Problem {
    Missing,
    Wrong(ValueErrorModel),
}

pub open spec fn value_problem(r: RecordSpec, f: FieldSpec) -> Option<Problem> {
    match record_value(r.values@, f.name@) {
        None => Some(Problem::Missing),
        Some(v) => match value_error(field_ty(f), v) {
            Some(e) => Some(Problem::Wrong(e)),
            None => None,
        },
    }
}

/// Every record gives every field a value of the field's type.
pub open spec fn records_valid(rs: Seq<RecordSpec>, fs: Seq<FieldSpec>) -> bool {
    forall|r: int, f: int|
        0 <= r < rs.len() && 0 <= f < fs.len() ==> (#[trigger] value_problem(rs[r], fs[f])) is None
}

/// Records before `r`, and fields before `f` of record `r`, have no problem.
pub open spec fn valid_before(rs: Seq<RecordSpec>, fs: Seq<FieldSpec>, r: int, f: int) -> bool {
    forall|r2: int, f2: int|
        0 <= r2 < rs.len() && 0 <= f2 < fs.len() && (r2 < r || (r2 == r && f2 < f))
            ==> (#[trigger] value_problem(rs[r2], fs[f2])) is None
}

/// `(r, f)` is the first record and field, in record order and then field
/// order, with a problem.
pub open spec fn first_problem(rs: Seq<RecordSpec>, fs: Seq<FieldSpec>, r: int, f: int) -> bool {
    &&& 0 <= r < rs.len()
    &&& 0 <= f < fs.len()
    &&& value_problem(rs[r], fs[f]) is Some
    &&& valid_before(rs, fs, r, f)
}

/// What a value of a field of type `t` is checked to be.
pub open spec fn expected_for(e: Expected, t: TyModel) -> bool {
    match t {
        TyModel::Enum(n) => e matches Expected::EnumString(m) && m@ == n,
        TyModel::String | TyModel::FName => e is String,
        TyModel::Float => e is Float,
        TyModel::Double => e is Number,
        TyModel::Int32 => e is Integer,
        TyModel::Bool => e is Bool,
        TyModel::Vector => e is Vector,
        TyModel::Rotator => e is Rotator,
    }
}

/// Which values a field accepts: a string for `String`, `FName` and enum
/// fields; any number, integer or float, for `Float` and `Double`; only an
/// integer for `Int`; `true`/`false` for `Bool`.
pub proof fn lemma_field_value_kinds(v: Value, n: Seq<char>)
    ensures
        value_error(TyModel::String, v) is None <==> v is String,
        value_error(TyModel::FName, v) is None <==> v is String,
        value_error(TyModel::Enum(n), v) is None <==> v is String,
        value_error(TyModel::Float, v) is None <==> v is Number,
        value_error(TyModel::Double, v) is None <==> v is Number,
        value_error(TyModel::Int32, v) is None <==> (v matches Value::Number(Number::Integer(_))),
        value_error(TyModel::Bool, v) is None <==> v is Bool,
{
}

/// A float is a fine value for `Float` and `Double` fields and a wrong one
/// for `Int` fields.
pub proof fn lemma_float_values(v: Value)
    requires
        v matches Value::Number(Number::Float { .. }),
    ensures
        value_error(TyModel::Float, v) is None,
        value_error(TyModel::Double, v) is None,
        value_error(TyModel::Int32, v) is Some,
{
}

// ---------- Enums ----------

/// The enum names that fields before `i` use.
pub open spec fn enum_names_upto(fs: Seq<FieldSpec>, i: int) -> Set<Seq<char>> {
    Set::new(|n: Seq<char>| exists|j: int| 0 <= j < i && #[trigger] field_ty(fs[j]) == TyModel::Enum(n))
}

/// The enum names that the fields use.
pub open spec fn enum_names(fs: Seq<FieldSpec>) -> Set<Seq<char>> {
    enum_names_upto(fs, fs.len() as int)
}

/// Record `r` gives the string `s` for field `f`, a field of enum `n`.
pub open spec fn enum_value_at(rs: Seq<RecordSpec>, fs: Seq<FieldSpec>, n: Seq<char>, r: int, f: int, s: Seq<char>) -> bool {
    &&& field_ty(fs[f]) == TyModel::Enum(n)
    &&& record_value(rs[r].values@, fs[f].name@) matches Some(Value::String(x))
    &&& x@ == s
}

/// The values of enum `n` given by records before `r`, and by fields before
/// `f` of record `r`.
pub open spec fn enum_values_upto(rs: Seq<RecordSpec>, fs: Seq<FieldSpec>, n: Seq<char>, r: int, f: int) -> Set<Seq<char>> {
    Set::new(|s: Seq<char>| exists|r2: int, f2: int|
        0 <= r2 < rs.len() && 0 <= f2 < fs.len() && (r2 < r || (r2 == r && f2 < f))
            && #[trigger] enum_value_at(rs, fs, n, r2, f2, s))
}

/// The values of enum `n`: every string that a record gives for a field of
/// that enum.
pub open spec fn enum_values(rs: Seq<RecordSpec>, fs: Seq<FieldSpec>, n: Seq<char>) -> Set<Seq<char>> {
    enum_values_upto(rs, fs, n, rs.len() as int, 0)
}

/// Every enum has a value.
pub open spec fn enums_filled(rs: Seq<RecordSpec>, fs: Seq<FieldSpec>) -> bool {
    forall|n: Seq<char>| enum_names(fs).contains(n) ==> !(#[trigger] enum_values(rs, fs, n)).is_empty()
}

pub open spec fn enum_def_name(e: EnumDef) -> Seq<char> {
    e.name@
}

/// The generated enums: one per enum name the fields use, sorted by name,
/// each with its values sorted and without repeats.
pub open spec fn enums_collected(es: Seq<EnumDef>, rs: Seq<RecordSpec>, fs: Seq<FieldSpec>) -> bool {
    &&& sorted_strict(es.map_values(|e: EnumDef| enum_def_name(e)))
    &&& es.map_values(|e: EnumDef| enum_def_name(e)).to_set() == enum_names(fs)
    &&& forall|k: int| 0 <= k < es.len() ==> {
        &&& sorted_strict(#[trigger] es[k].values.deep_view())
        &&& es[k].values.deep_view().to_set() == enum_values(rs, fs, es[k].name@)
    }
}

// ---------- The whole definition ----------

/// The definition is accepted: every field type is supported, every record
/// gives every field a value of its type, and every enum gets a value.
pub open spec fn spec_build_ok(spec: DataSpec) -> bool {
    &&& fields_typed(spec.fields@)
    &&& records_valid(spec.records@, spec.fields@)
    &&& enums_filled(spec.records@, spec.fields@)
}

/// `c` is the normalized form of `spec` under the command line's namespace.
pub open spec fn normalized(spec: DataSpec, cli_namespace: Option<Seq<char>>, c: CppSpec) -> bool {
    &&& c.name == spec.name
    &&& c.namespace_chain.deep_view() == spec_merge_namespaces(
        chain_of(cli_namespace),
        chain_of(
            match spec.namespace {
                Some(s) => Some(s@),
                None => None,
            },
        ),
    )
    &&& c.fields@.len() == spec.fields@.len()
    &&& forall|i: int| 0 <= i < c.fields@.len() ==> normalized_field(#[trigger] c.fields@[i], spec.fields@[i])
    &&& c.records == spec.records
    &&& enums_collected(c.enums@, spec.records@, spec.fields@)
}

/// The error is the one the definition gets: checks run over the field
/// types first, then over the records in order and each record's fields in
/// order, then over the enums by name.
pub open spec fn refused_with(spec: DataSpec, e: SpecError) -> bool {
    let fs = spec.fields@;
    let rs = spec.records@;
    match e {
        SpecError::InvalidFieldType { field, unsupported } => exists|i: int|
            #[trigger] first_bad_field(fs, i) && field == fs[i].name && unsupported.ty@ == fs[i].ty@,
        SpecError::MissingValue { record, field } => fields_typed(fs) && exists|r: int, f: int|
            #[trigger] first_problem(rs, fs, r, f) && value_problem(rs[r], fs[f]) == Some(Problem::Missing)
                && record == rs[r].name && field == fs[f].name,
        SpecError::WrongValue { record, field, expected, cause } => fields_typed(fs) && exists|r: int, f: int|
            #[trigger] first_problem(rs, fs, r, f) && value_problem(rs[r], fs[f]) == Some(Problem::Wrong(cause@))
                && record == rs[r].name && field == fs[f].name && expected_for(expected, field_ty(fs[f])),
        SpecError::EmptyEnum { name } => {
            &&& fields_typed(fs)
            &&& records_valid(rs, fs)
            &&& enum_names(fs).contains(name@)
            &&& enum_values(rs, fs, name@).is_empty()
            &&& forall|m: Seq<char>| enum_names(fs).contains(m) && lex_lt(m, name@)
                ==> !(#[trigger] enum_values(rs, fs, m)).is_empty()
        },
    }
}



proof fn lemma_enum_values_step(rs: Seq<RecordSpec>, fs: Seq<FieldSpec>, n: Seq<char>, r: int, f: int)
    requires
        0 <= r < rs.len(),
        0 <= f < fs.len(),
    ensures
        forall|s: Seq<char>|
            #[trigger] enum_values_upto(rs, fs, n, r, f + 1).contains(s) <==> enum_values_upto(rs, fs, n, r, f).contains(s)
                || enum_value_at(rs, fs, n, r, f, s),
{
    assert forall|s: Seq<char>|
        #[trigger] enum_values_upto(rs, fs, n, r, f + 1).contains(s) <==> enum_values_upto(rs, fs, n, r, f).contains(s)
            || enum_value_at(rs, fs, n, r, f, s) by {
        if enum_values_upto(rs, fs, n, r, f + 1).contains(s) {
            let (r2, f2) = choose|r2: int, f2: int|
                0 <= r2 < rs.len() && 0 <= f2 < fs.len() && (r2 < r || (r2 == r && f2 < f + 1))
                    && #[trigger] enum_value_at(rs, fs, n, r2, f2, s);
            if !(r2 == r && f2 == f) {
                assert(enum_values_upto(rs, fs, n, r, f).contains(s));
            }
        }
        if enum_values_upto(rs, fs, n, r, f).contains(s) {
            let (r2, f2) = choose|r2: int, f2: int|
                0 <= r2 < rs.len() && 0 <= f2 < fs.len() && (r2 < r || (r2 == r && f2 < f))
                    && #[trigger] enum_value_at(rs, fs, n, r2, f2, s);
            assert(enum_values_upto(rs, fs, n, r, f + 1).contains(s));
        }
        if enum_value_at(rs, fs, n, r, f, s) {
            assert(enum_values_upto(rs, fs, n, r, f + 1).contains(s));
        }
    }
}

proof fn lemma_enum_values_next_record(rs: Seq<RecordSpec>, fs: Seq<FieldSpec>, n: Seq<char>, r: int)
    ensures
        enum_values_upto(rs, fs, n, r, fs.len() as int) == enum_values_upto(rs, fs, n, r + 1, 0),
{
    assert(enum_values_upto(rs, fs, n, r, fs.len() as int) =~= enum_values_upto(rs, fs, n, r + 1, 0));
}

proof fn lemma_no_values_before_start(rs: Seq<RecordSpec>, fs: Seq<FieldSpec>, n: Seq<char>)
    ensures
        enum_values_upto(rs, fs, n, 0, 0) == Set::<Seq<char>>::empty(),
{
    assert(enum_values_upto(rs, fs, n, 0, 0) =~= Set::<Seq<char>>::empty());
}

// ---------- Building ----------

/// The value a record gives for a field name (see `record_value`).
fn lookup_value<'a>(values: &'a Vec<(String, Value)>, key: &str) -> (r: Option<&'a Value>)
    ensures
        match r {
            Some(v) => record_value(values@, key@) == Some(*v),
            None => record_value(values@, key@) is None,
        },
{
    let mut j: usize = values.len();
    assert(values@.subrange(0, j as int) =~= values@);
    while j > 0
        invariant
            j <= values@.len(),
            record_value(values@, key@) == record_value(values@.subrange(0, j as int), key@),
        decreases j,
    {
        let entry = &values[j - 1];
        let ghost sub = values@.subrange(0, j as int);
        assert(sub.last() == values@[j - 1]);
        if str_equal(entry.0.as_str(), key) {
            return Some(&entry.1);
        }
        assert(sub.drop_last() =~= values@.subrange(0, j - 1));
        j = j - 1;
    }
    None
}

fn copy_doc(d: &Option<String>) -> (r: Option<String>)
    ensures
        r == *d,
{
    match d {
        Some(s) => Some(s.clone()),
        None => None,
    }
}

/// Checks that a value has the shape a field of type `ty` asks for.
fn check_value(ty: &Ty, v: &Value) -> (r: Result<(), ValueError>)
    ensures
        match r {
            Ok(_) => value_error(ty@, *v) is None,
            Err(e) => value_error(ty@, *v) == Some(e@),
        },
{
    match ty {
        Ty::Enum { .. } | Ty::String | Ty::FName => match expect_string(v) {
            Ok(_) => Ok(()),
            Err(e) => Err(e),
        },
        Ty::Float | Ty::Double => match expect_number(v) {
            Ok(_) => Ok(()),
            Err(e) => Err(e),
        },
        Ty::Int32 => match expect_integer(v) {
            Ok(_) => Ok(()),
            Err(e) => Err(e),
        },
        Ty::Bool => match expect_bool(v) {
            Ok(_) => Ok(()),
            Err(e) => Err(e),
        },
        Ty::Vector => match expect_vector(v) {
            Ok(_) => Ok(()),
            Err(e) => Err(e),
        },
        Ty::Rotator => match expect_rotator(v) {
            Ok(_) => Ok(()),
            Err(e) => Err(e),
        },
    }
}

fn expected_of(ty: &Ty) -> (e: Expected)
    ensures
        expected_for(e, ty@),
{
    match ty {
        Ty::Enum { name } => Expected::EnumString(name.clone()),
        Ty::String | Ty::FName => Expected::String,
        Ty::Float => Expected::Float,
        Ty::Double => Expected::Number,
        Ty::Int32 => Expected::Integer,
        Ty::Bool => Expected::Bool,
        Ty::Vector => Expected::Vector,
        Ty::Rotator => Expected::Rotator,
    }
}

fn namespace_chain(ns: Option<&str>) -> (r: Vec<String>)
    ensures
        r.deep_view() == chain_of(
            match ns {
                Some(s) => Some(s@),
                None => None,
            },
        ),
{
    match ns {
        Some(s) => split_namespace(s),
        None => {
            let v: Vec<String> = Vec::new();
            assert(v.deep_view() =~= Seq::<Seq<char>>::empty());
            v
        },
    }
}

/// Validates a type definition and normalizes it: merges the namespace
/// chains, parses the field types, checks every record against the fields,
/// and collects each enum's values from the records, sorted and without
/// repeats. The definition is accepted exactly when `spec_build_ok` holds;
/// otherwise the error is the first one met (see `refused_with`).
pub fn build_cpp_spec(spec: DataSpec, cli_namespace: Option<&str>) -> (r: Result<CppSpec, SpecError>)
    ensures
        r is Ok <==> spec_build_ok(spec),
        match r {
            Ok(c) => normalized(
                spec,
                match cli_namespace {
                    Some(s) => Some(s@),
                    None => None,
                },
                c,
            ),
            Err(e) => refused_with(spec, e),
        },
{
    let ghost fs = spec.fields@;
    let ghost rs = spec.records@;
    let cli_chain = namespace_chain(cli_namespace);
    let file_chain = match &spec.namespace {
        Some(ns) => namespace_chain(Some(ns.as_str())),
        None => namespace_chain(None),
    };
    let chain = merge_namespaces(cli_chain, file_chain);

    // Field types, and the enum names they use.
    let nf = spec.fields.len();
    let mut cpp_fields: Vec<CppField> = Vec::new();
    let mut names: Vec<String> = Vec::new();
    let mut values: Vec<Vec<String>> = Vec::new();
    assert(names.deep_view().to_set() =~= enum_names_upto(fs, 0));
    let mut i: usize = 0;
    while i < nf
        invariant
            nf == fs.len(),
            fs == spec.fields@,
            i <= nf,
            cpp_fields@.len() == i,
            forall|j: int| 0 <= j < i ==> (#[trigger] spec_parse_ty(fs[j].ty@)) is Some,
            forall|j: int| 0 <= j < i ==> normalized_field(#[trigger] cpp_fields@[j], fs[j]),
            sorted_strict(names.deep_view()),
            names.deep_view().to_set() == enum_names_upto(fs, i as int),
            values@.len() == names@.len(),
            forall|k: int| 0 <= k < values@.len() ==> (#[trigger] values@[k])@.len() == 0,
        decreases nf - i,
    {
        let f = &spec.fields[i];
        let ty = match parse_ty(f.ty.as_str()) {
            Ok(t) => t,
            Err(cause) => {
                let e = SpecError::InvalidFieldType { field: f.name.clone(), unsupported: cause };
                assert(first_bad_field(fs, i as int));
                return Err(e);
            },
        };
        let cpp = cpp_type(&ty);
        let ghost before = names.deep_view();
        if let Ty::Enum { name } = &ty {
            if insert_sorted(&mut names, name.clone()) {
                values.push(Vec::new());
            }
            assert(names.deep_view().to_set() == before.to_set().insert(name@));
        }
        assert forall|n: Seq<char>| #[trigger] enum_names_upto(fs, i + 1).contains(n) <==> names.deep_view().to_set().contains(n) by {
            if enum_names_upto(fs, i + 1).contains(n) {
                let j = choose|j: int| 0 <= j < i + 1 && #[trigger] field_ty(fs[j]) == TyModel::Enum(n);
                if j < i {
                    assert(enum_names_upto(fs, i as int).contains(n));
                }
            }
            if enum_names_upto(fs, i as int).contains(n) {
                let j = choose|j: int| 0 <= j < i && #[trigger] field_ty(fs[j]) == TyModel::Enum(n);
                assert(enum_names_upto(fs, i + 1).contains(n));
            }
            if ty@ == TyModel::Enum(n) {
                assert(field_ty(fs[i as int]) == TyModel::Enum(n));
                assert(enum_names_upto(fs, i + 1).contains(n));
            }
        }
        assert(names.deep_view().to_set() =~= enum_names_upto(fs, i + 1));
        let doc = copy_doc(&f.doc);
        cpp_fields.push(CppField { name: f.name.clone(), cpp_type: cpp, ty, doc });
        i = i + 1;
    }

    // Every record against every field, collecting the enum values.
    let nr = spec.records.len();
    let ghost names0 = names.deep_view();
    proof {
        assert forall|k: int| 0 <= k < values@.len() implies sorted_strict(#[trigger] values@[k].deep_view())
            && values@[k].deep_view().to_set() == enum_values_upto(rs, fs, names0[k], 0, 0) by {
            lemma_no_values_before_start(rs, fs, names0[k]);
            assert(values@[k].deep_view().to_set() =~= Set::<Seq<char>>::empty());
        }
    }
    let mut ri: usize = 0;
    while ri < nr
        invariant
            nf == fs.len(),
            nr == rs.len(),
            fs == spec.fields@,
            rs == spec.records@,
            ri <= nr,
            fields_typed(fs),
            cpp_fields@.len() == nf,
            forall|j: int| 0 <= j < nf ==> normalized_field(#[trigger] cpp_fields@[j], fs[j]),
            names.deep_view() == names0,
            sorted_strict(names0),
            names0.to_set() == enum_names(fs),
            values@.len() == names@.len(),
            forall|k: int| 0 <= k < values@.len() ==> {
                &&& sorted_strict(#[trigger] values@[k].deep_view())
                &&& values@[k].deep_view().to_set() == enum_values_upto(rs, fs, names0[k], ri as int, 0)
            },
            valid_before(rs, fs, ri as int, 0),
        decreases nr - ri,
    {
        let rec = &spec.records[ri];
        let mut fi: usize = 0;
        while fi < nf
            invariant
                nf == fs.len(),
                nr == rs.len(),
                fs == spec.fields@,
                rs == spec.records@,
                ri < nr,
                fi <= nf,
                *rec == rs[ri as int],
                fields_typed(fs),
                cpp_fields@.len() == nf,
                forall|j: int| 0 <= j < nf ==> normalized_field(#[trigger] cpp_fields@[j], fs[j]),
                names.deep_view() == names0,
                sorted_strict(names0),
                names0.to_set() == enum_names(fs),
                values@.len() == names@.len(),
                forall|k: int| 0 <= k < values@.len() ==> {
                    &&& sorted_strict(#[trigger] values@[k].deep_view())
                    &&& values@[k].deep_view().to_set() == enum_values_upto(rs, fs, names0[k], ri as int, fi as int)
                },
                valid_before(rs, fs, ri as int, fi as int),
            decreases nf - fi,
        {
            let f = &cpp_fields[fi];
            assert(normalized_field(cpp_fields@[fi as int], fs[fi as int]));
            let v = match lookup_value(&rec.values, f.name.as_str()) {
                Some(v) => v,
                None => {
                    assert(first_problem(rs, fs, ri as int, fi as int));
                    return Err(SpecError::MissingValue { record: rec.name.clone(), field: f.name.clone() });
                },
            };
            match check_value(&f.ty, v) {
                Ok(_) => {},
                Err(cause) => {
                    assert(first_problem(rs, fs, ri as int, fi as int));
                    return Err(
                        SpecError::WrongValue {
                            record: rec.name.clone(),
                            field: f.name.clone(),
                            expected: expected_of(&f.ty),
                            cause,
                        },
                    );
                },
            }
            if let Ty::Enum { name } = &f.ty {
                if let Value::String(sv) = v {
                    let (k, present) = sorted_position(&names, name.as_str());
                    proof {
                        assert(enum_names_upto(fs, nf as int).contains(name@));
                        assert(names0.to_set().contains(name@));
                        if !present {
                            let j = choose|j: int| 0 <= j < names0.len() && names0[j] == name@;
                            lemma_lex_irreflexive(name@);
                        }
                    }
                    let ghost old_values = values@;
                    let ghost old_set = values@[k as int].deep_view().to_set();
                    insert_sorted(&mut values[k], sv.clone());
                    proof {
                        assert(values@[k as int].deep_view().to_set() == old_set.insert(sv@));
                        assert forall|k2: int| 0 <= k2 < values@.len() implies {
                            &&& sorted_strict(#[trigger] values@[k2].deep_view())
                            &&& values@[k2].deep_view().to_set() == enum_values_upto(rs, fs, names0[k2], ri as int, fi + 1)
                        } by {
                            lemma_enum_values_step(rs, fs, names0[k2], ri as int, fi as int);
                            if k2 == k {
                                assert(enum_value_at(rs, fs, names0[k2], ri as int, fi as int, sv@));
                                assert(values@[k2].deep_view().to_set() =~= enum_values_upto(rs, fs, names0[k2], ri as int, fi + 1));
                            } else {
                                assert(values@[k2] == old_values[k2]);
                                assert(names0[k2] != name@) by {
                                    if k2 < k {
                                        assert(lex_lt(names0[k2], names0[k as int]));
                                    } else {
                                        assert(lex_lt(names0[k as int], names0[k2]));
                                    }
                                    lemma_lex_irreflexive(name@);
                                }
                                assert(values@[k2].deep_view().to_set() =~= enum_values_upto(rs, fs, names0[k2], ri as int, fi + 1));
                            }
                        }
                    }
                }
            } else {
                proof {
                    assert forall|k: int| 0 <= k < values@.len() implies
                        values@[k].deep_view().to_set() == enum_values_upto(rs, fs, names0[k], ri as int, fi + 1) by {
                        lemma_enum_values_step(rs, fs, names0[k], ri as int, fi as int);
                        assert(values@[k].deep_view().to_set() =~= enum_values_upto(rs, fs, names0[k], ri as int, fi + 1));
                    }
                }
            }
            assert(valid_before(rs, fs, ri as int, fi + 1));
            fi = fi + 1;
        }
        proof {
            assert forall|k: int| 0 <= k < values@.len() implies
                values@[k].deep_view().to_set() == enum_values_upto(rs, fs, names0[k], ri + 1, 0) by {
                lemma_enum_values_next_record(rs, fs, names0[k], ri as int);
            }
            assert(valid_before(rs, fs, ri + 1, 0));
        }
        ri = ri + 1;
    }
    assert(records_valid(rs, fs));

    // Every enum must have a value; the first one by name without is the error.
    let ne = names.len();
    let mut k: usize = 0;
    while k < ne
        invariant
            ne == names@.len(),
            ne == values@.len(),
            names.deep_view() == names0,
            k <= ne,
            forall|j: int| 0 <= j < k ==> (#[trigger] values@[j])@.len() > 0,
            nf == fs.len(),
            nr == rs.len(),
            fs == spec.fields@,
            rs == spec.records@,
            fields_typed(fs),
            records_valid(rs, fs),
            sorted_strict(names0),
            names0.to_set() == enum_names(fs),
            forall|j: int| 0 <= j < values@.len() ==> {
                &&& sorted_strict(#[trigger] values@[j].deep_view())
                &&& values@[j].deep_view().to_set() == enum_values_upto(rs, fs, names0[j], nr as int, 0)
            },
        decreases ne - k,
    {
        if values[k].len() == 0 {
            let name = names[k].clone();
            proof {
                let n = names0[k as int];
                assert(names0.to_set().contains(n));
                assert(values@[k as int].deep_view().to_set() =~= Set::<Seq<char>>::empty());
                assert(enum_values(rs, fs, n) =~= Set::<Seq<char>>::empty());
                assert(enum_names(fs).contains(n));
                assert(!enums_filled(rs, fs));
                assert forall|m: Seq<char>| enum_names(fs).contains(m) && lex_lt(m, n)
                    implies !(#[trigger] enum_values(rs, fs, m)).is_empty() by {
                    let j = choose|j: int| 0 <= j < names0.len() && names0[j] == m;
                    if j >= k {
                        if j == k {
                            lemma_lex_irreflexive(n);
                        } else {
                            assert(lex_lt(names0[k as int], names0[j]));
                            lemma_lex_asymmetric(m, n);
                        }
                    }
                    assert(values@[j]@.len() > 0);
                    assert(values@[j].deep_view().to_set().contains(values@[j].deep_view()[0]));
                }
            }
            return Err(SpecError::EmptyEnum { name });
        }
        k = k + 1;
    }
    proof {
        assert forall|n: Seq<char>| enum_names(fs).contains(n)
            implies !(#[trigger] enum_values(rs, fs, n)).is_empty() by {
            let j = choose|j: int| 0 <= j < names0.len() && names0[j] == n;
            assert(values@[j]@.len() > 0);
            assert(values@[j].deep_view().to_set().contains(values@[j].deep_view()[0]));
        }
    }

    // The enums, in name order.
    let ghost values0 = values@;
    let mut enums: Vec<EnumDef> = Vec::new();
    while names.len() > 0
        invariant
            ne == names0.len(),
            ne == values0.len(),
            names@.len() == values@.len(),
            names@.len() <= ne,
            names.deep_view() == names0.take(names@.len() as int),
            values@ == values0.take(values@.len() as int),
            enums@.len() == ne - names@.len(),
            forall|j: int| 0 <= j < enums@.len() ==> {
                &&& (#[trigger] enums@[j]).name@ == names0[names@.len() + j]
                &&& enums@[j].values == values0[names@.len() + j]
            },
        decreases names@.len(),
    {
        let ghost len = names@.len();
        let n = match names.pop() {
            Some(n) => n,
            None => String::new(),
        };
        let vs = match values.pop() {
            Some(vs) => vs,
            None => Vec::new(),
        };
        assert(names0.take(len as int)[len - 1] == n@);
        assert(names.deep_view() =~= names0.take(names@.len() as int));
        assert(values@ =~= values0.take(values@.len() as int));
        enums.insert(0, EnumDef { name: n, values: vs });
    }
    proof {
        let es = enums@;
        let en = es.map_values(|e: EnumDef| enum_def_name(e));
        assert(en =~= names0);
    }
    Ok(
        CppSpec {
            name: spec.name,
            namespace_chain: chain,
            fields: cpp_fields,
            records: spec.records,
            enums,
        },
    )
}

} // verus!
