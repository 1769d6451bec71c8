//! Field types as authored in a schema (`"Float"`, `"Enum(Kind)"`, ...) and
//! their C++ spelling.

use vstd::prelude::*;
use vstd::string::*;
use crate::names::{sanitize_type_name, spec_sanitize_type_name};
use crate::text::{is_lower, is_upper, is_ws, str_equal, trim, trim_end, trim_start, trim_str};
use crate::names::{is_ident_char, is_identifier, lemma_sanitize_type_name_is_identifier};

verus! {

/// The pattern that recognizes an enum field type, `Enum(Name)`.
pub const ENUM_TY_PATTERN: &'static str = r"^Enum\s*\(\s*([A-Za-z_][A-Za-z0-9_]*)\s*\)$";

/// Normalized field type.
#[derive(Debug)]
pub enum Ty {
    String,
    FName,
    Float,
    Double,
    Int32,
    Bool,
    Vector,
    Rotator,
    Enum { name: String },
}

/// A field type as contracts speak of it: the enum name by its characters.
pub enum TyModel {
    String,
    FName,
    Float,
    Double,
    Int32,
    Bool,
    Vector,
    Rotator,
    Enum(Seq<char>),
}

impl View for Ty {
    type V = TyModel;

    open spec fn view(&self) -> TyModel {
        match self {
            Ty::String => TyModel::String,
            Ty::FName => TyModel::FName,
            Ty::Float => TyModel::Float,
            Ty::Double => TyModel::Double,
            Ty::Int32 => TyModel::Int32,
            Ty::Bool => TyModel::Bool,
            Ty::Vector => TyModel::Vector,
            Ty::Rotator => TyModel::Rotator,
            Ty::Enum { name } => TyModel::Enum(name@),
        }
    }
}

/// A field type that the schema does not support; it holds the type as
/// written.
#[derive(Debug)]
pub struct UnsupportedType {
    pub ty: String,
}

pub open spec fn is_ident_start(c: char) -> bool {
    is_upper(c) || is_lower(c) || c == '_'
}

/// `[A-Za-z_][A-Za-z0-9_]*`
pub open spec fn is_enum_ident(s: Seq<char>) -> bool {
    &&& s.len() > 0
    &&& is_ident_start(s[0])
    &&& forall|i: int| 0 <= i < s.len() ==> is_ident_char(#[trigger] s[i])
}

/// The name `N` when `s` reads `Enum`, optional white space, `(`, optional
/// white space, the identifier `N`, optional white space, `)`, and nothing
/// else: the language of `ENUM_TY_PATTERN` and its first group.
pub open spec fn spec_enum_ty_name(s: Seq<char>) -> Option<Seq<char>> {
    if s.len() >= 5 && s.take(4) == seq!['E', 'n', 'u', 'm'] && s.last() == ')' {
        let after = trim_start(s.subrange(4, s.len() - 1));
        if after.len() > 0 && after[0] == '(' {
            let name = trim(after.drop_first());
            if is_enum_ident(name) {
                Some(name)
            } else {
                None
            }
        } else {
            None
        }
    } else {
        None
    }
}

/// `regex::Regex::new(pattern)` and then `Regex::captures(haystack)`,
/// giving the text of group 1. Claimed: for `ENUM_TY_PATTERN` (anchored,
/// `\s` = Unicode White_Space), a match happens exactly when
/// `spec_enum_ty_name` gives a name, and group 1 is that name.
#[verifier::external_body]
fn regex_first_group(pattern: &str, haystack: &str) -> (r: Option<String>)
    requires
        pattern@ == ENUM_TY_PATTERN@,
    ensures
        match r {
            Some(g) => spec_enum_ty_name(haystack@) == Some(g@),
            None => spec_enum_ty_name(haystack@) is None,
        },
{
    match regex::Regex::new(pattern) {
        Ok(re) => re.captures(haystack).and_then(|c| c.get(1)).map(|m| m.as_str().to_string()),
        Err(_) => None,
    }
}

/// The enum name in a type written `Enum(Name)`.
pub fn parse_enum_ty(s: &str) -> (r: Option<String>)
    ensures
        match r {
            Some(g) => spec_enum_ty_name(s@) == Some(g@),
            None => spec_enum_ty_name(s@) is None,
        },
{
    regex_first_group(ENUM_TY_PATTERN, s)
}

/// The field type written `s`: after trimming, `Enum(Name)`, or one of the
/// names `String`, `FName`/`Name`, `Float`/`f32`, `Double`/`f64`, `Int`/`i32`,
/// `Bool`/`bool`, `Vector`, `Rotator`.
pub open spec fn spec_parse_ty(s: Seq<char>) -> Option<TyModel> {
    let t = trim(s);
    match spec_enum_ty_name(t) {
        Some(name) => Some(TyModel::Enum(name)),
        None => if t == "String"@ {
            Some(TyModel::String)
        } else if t == "FName"@ || t == "Name"@ {
            Some(TyModel::FName)
        } else if t == "Float"@ || t == "f32"@ {
            Some(TyModel::Float)
        } else if t == "Double"@ || t == "f64"@ {
            Some(TyModel::Double)
        } else if t == "Int"@ || t == "i32"@ {
            Some(TyModel::Int32)
        } else if t == "Bool"@ || t == "bool"@ {
            Some(TyModel::Bool)
        } else if t == "Vector"@ {
            Some(TyModel::Vector)
        } else if t == "Rotator"@ {
            Some(TyModel::Rotator)
        } else {
            None
        },
    }
}

/// Parses a field type (see `spec_parse_ty`); an unknown type is an error
/// that holds the type as written.
pub fn parse_ty(s: &str) -> (r: Result<Ty, UnsupportedType>)
    ensures
        match r {
            Ok(ty) => spec_parse_ty(s@) == Some(ty@),
            Err(e) => spec_parse_ty(s@) is None && e.ty@ == s@,
        },
{
    let t = trim_str(s);
    if let Some(name) = parse_enum_ty(t) {
        return Ok(Ty::Enum { name });
    }
    if str_equal(t, "String") {
        Ok(Ty::String)
    } else if str_equal(t, "FName") || str_equal(t, "Name") {
        Ok(Ty::FName)
    } else if str_equal(t, "Float") || str_equal(t, "f32") {
        Ok(Ty::Float)
    } else if str_equal(t, "Double") || str_equal(t, "f64") {
        Ok(Ty::Double)
    } else if str_equal(t, "Int") || str_equal(t, "i32") {
        Ok(Ty::Int32)
    } else if str_equal(t, "Bool") || str_equal(t, "bool") {
        Ok(Ty::Bool)
    } else if str_equal(t, "Vector") {
        Ok(Ty::Vector)
    } else if str_equal(t, "Rotator") {
        Ok(Ty::Rotator)
    } else {
        Err(UnsupportedType { ty: String::from_str(s) })
    }
}

/// The C++ type of a field type; an enum `Name` is `E` and the sanitized name.
pub open spec fn spec_cpp_type(t: TyModel) -> Seq<char> {
    match t {
        TyModel::String => "FString"@,
        TyModel::FName => "FName"@,
        TyModel::Float => "float"@,
        TyModel::Double => "double"@,
        TyModel::Int32 => "int32"@,
        TyModel::Bool => "bool"@,
        TyModel::Vector => "FVector"@,
        TyModel::Rotator => "FRotator"@,
        TyModel::Enum(name) => seq!['E'] + spec_sanitize_type_name(name),
    }
}

/// The C++ type of a field type (see `spec_cpp_type`).
pub fn cpp_type(ty: &Ty) -> (r: String)
    ensures
        r@ == spec_cpp_type(ty@),
{
    match ty {
        Ty::String => String::from_str("FString"),
        Ty::FName => String::from_str("FName"),
        Ty::Float => String::from_str("float"),
        Ty::Double => String::from_str("double"),
        Ty::Int32 => String::from_str("int32"),
        Ty::Bool => String::from_str("bool"),
        Ty::Vector => String::from_str("FVector"),
        Ty::Rotator => String::from_str("FRotator"),
        Ty::Enum { name } => {
            let mut r = String::from_str("E");
            proof {
                reveal_strlit("E");
            }
            let s = sanitize_type_name(name.as_str());
            r.append(s.as_str());
            r
        },
    }
}


/// The C++ type of an enum field is an identifier (`E` and the sanitized
/// enum name).
pub proof fn lemma_enum_cpp_type_is_identifier(name: Seq<char>)
    ensures
        is_identifier(spec_cpp_type(TyModel::Enum(name))),
{
    lemma_sanitize_type_name_is_identifier(name);
    let t = seq!['E'] + spec_sanitize_type_name(name);
    assert forall|i: int| 0 <= i < t.len() implies is_ident_char(#[trigger] t[i]) by {
        if i > 0 {
            assert(t[i] == spec_sanitize_type_name(name)[i - 1]);
        }
    }
}


proof fn lemma_no_enum_prefix(t: Seq<char>)
    requires
        t.len() < 4 || t[0] != 'E' || t[1] != 'n' || t[2] != 'u' || t[3] != 'm',
    ensures
        spec_enum_ty_name(t) is None,
{
    if t.len() >= 5 && t.take(4) == seq!['E', 'n', 'u', 'm'] {
        assert(t.take(4)[0] == t[0] && t.take(4)[1] == t[1] && t.take(4)[2] == t[2] && t.take(4)[3] == t[3]);
    }
}

/// The plain type names and their aliases, written with any white space
/// around them: `String`; `FName` and `Name`; `Float` and `f32`; `Double`
/// and `f64`; `Int` and `i32`; `Bool` and `bool`; `Vector`; `Rotator`.
pub proof fn lemma_parse_ty_names(s: Seq<char>)
    ensures
        trim(s) == "String"@ ==> spec_parse_ty(s) == Some(TyModel::String),
        trim(s) == "FName"@ || trim(s) == "Name"@ ==> spec_parse_ty(s) == Some(TyModel::FName),
        trim(s) == "Float"@ || trim(s) == "f32"@ ==> spec_parse_ty(s) == Some(TyModel::Float),
        trim(s) == "Double"@ || trim(s) == "f64"@ ==> spec_parse_ty(s) == Some(TyModel::Double),
        trim(s) == "Int"@ || trim(s) == "i32"@ ==> spec_parse_ty(s) == Some(TyModel::Int32),
        trim(s) == "Bool"@ || trim(s) == "bool"@ ==> spec_parse_ty(s) == Some(TyModel::Bool),
        trim(s) == "Vector"@ ==> spec_parse_ty(s) == Some(TyModel::Vector),
        trim(s) == "Rotator"@ ==> spec_parse_ty(s) == Some(TyModel::Rotator),
{
    reveal_strlit("String");
    reveal_strlit("FName");
    reveal_strlit("Name");
    reveal_strlit("Float");
    reveal_strlit("f32");
    reveal_strlit("Double");
    reveal_strlit("f64");
    reveal_strlit("Int");
    reveal_strlit("i32");
    reveal_strlit("Bool");
    reveal_strlit("bool");
    reveal_strlit("Vector");
    reveal_strlit("Rotator");
    let t = trim(s);
    let names = seq![
        "String"@, "FName"@, "Name"@, "Float"@, "f32"@, "Double"@, "f64"@, "Int"@, "i32"@, "Bool"@,
        "bool"@, "Vector"@, "Rotator"@,
    ];
    assert forall|i: int, j: int| 0 <= i < j < names.len() implies names[i] != names[j] by {
        let a = names[i];
        let b = names[j];
        if a.len() == b.len() {
            assert(a[0] != b[0] || a[1] != b[1]);
        }
    }
    if t == "String"@ || t == "FName"@ || t == "Name"@ || t == "Float"@ || t == "f32"@ || t == "Double"@
        || t == "f64"@ || t == "Int"@ || t == "i32"@ || t == "Bool"@ || t == "bool"@ || t == "Vector"@
        || t == "Rotator"@ {
        lemma_no_enum_prefix(t);
    }
    assert(names[3] != names[0] && names[3] != names[1] && names[3] != names[2]);
    assert(names[4] != names[0] && names[4] != names[1] && names[4] != names[2]);
    assert(names[5] != names[0] && names[5] != names[1] && names[5] != names[2] && names[5] != names[3] && names[5] != names[4]);
    assert(names[6] != names[0] && names[6] != names[1] && names[6] != names[2] && names[6] != names[3] && names[6] != names[4]);
    assert(names[7] != names[0] && names[7] != names[1] && names[7] != names[2] && names[7] != names[3] && names[7] != names[4] && names[7] != names[5] && names[7] != names[6]);
    assert(names[8] != names[0] && names[8] != names[1] && names[8] != names[2] && names[8] != names[3] && names[8] != names[4] && names[8] != names[5] && names[8] != names[6]);
    assert(names[9] != names[0] && names[9] != names[1] && names[9] != names[2] && names[9] != names[3] && names[9] != names[4] && names[9] != names[5] && names[9] != names[6] && names[9] != names[7] && names[9] != names[8]);
    assert(names[10] != names[0] && names[10] != names[1] && names[10] != names[2] && names[10] != names[3] && names[10] != names[4] && names[10] != names[5] && names[10] != names[6] && names[10] != names[7] && names[10] != names[8]);
    assert(names[11] != names[0] && names[11] != names[1] && names[11] != names[2] && names[11] != names[3] && names[11] != names[4] && names[11] != names[5] && names[11] != names[6] && names[11] != names[7] && names[11] != names[8] && names[11] != names[9] && names[11] != names[10]);
    assert(names[12] != names[0] && names[12] != names[1] && names[12] != names[2] && names[12] != names[3] && names[12] != names[4] && names[12] != names[5] && names[12] != names[6] && names[12] != names[7] && names[12] != names[8] && names[12] != names[9] && names[12] != names[10] && names[12] != names[11]);
}

/// `Enum(N)` for an identifier `N` is the enum type `N`, with any white space
/// around it.
pub proof fn lemma_parse_ty_enum(s: Seq<char>, n: Seq<char>)
    requires
        is_enum_ident(n),
        trim(s) == seq!['E', 'n', 'u', 'm', '('] + n + seq![')'],
    ensures
        spec_parse_ty(s) == Some(TyModel::Enum(n)),
{
    let t = trim(s);
    assert(t.take(4) =~= seq!['E', 'n', 'u', 'm']);
    let mid = t.subrange(4, t.len() - 1);
    assert(mid =~= seq!['('] + n);
    assert(trim_start(mid) == mid);
    assert(mid.drop_first() =~= n);
    assert(!is_ws(n[0]));
    assert(is_ident_char(n[n.len() - 1]));
    assert(trim_start(n) == n);
    assert(trim_end(n) == n);
}

/// The C++ type of each field type, as the UE side spells it.
pub proof fn lemma_cpp_types(n: Seq<char>)
    ensures
        spec_cpp_type(TyModel::String) == "FString"@,
        spec_cpp_type(TyModel::FName) == "FName"@,
        spec_cpp_type(TyModel::Float) == "float"@,
        spec_cpp_type(TyModel::Double) == "double"@,
        spec_cpp_type(TyModel::Int32) == "int32"@,
        spec_cpp_type(TyModel::Bool) == "bool"@,
        spec_cpp_type(TyModel::Vector) == "FVector"@,
        spec_cpp_type(TyModel::Rotator) == "FRotator"@,
        spec_cpp_type(TyModel::Enum(n)) == seq!['E'] + spec_sanitize_type_name(n),
{
}

} // verus!
