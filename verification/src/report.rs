//! The texts of the errors, as the command line prints them (an outer
//! context, `: `, then its cause).

use vstd::prelude::*;
use vstd::string::*;
use crate::normalize::{Expected, SpecError};
use crate::types::UnsupportedType;
use crate::value::{Component, ValueError, ValueErrorModel};

verus! {

pub open spec fn component_text(c: Component) -> Seq<char> {
    match c {
        Component::X => "x"@,
        Component::Y => "y"@,
        Component::Z => "z"@,
        Component::Pitch => "pitch"@,
        Component::Yaw => "yaw"@,
        Component::Roll => "roll"@,
    }
}

pub open spec fn value_error_text(e: ValueErrorModel) -> Seq<char> {
    match e {
        ValueErrorModel::ExpectedString(got) => "expected string, got "@ + got,
        ValueErrorModel::ExpectedNumber(got) => "expected number, got "@ + got,
        ValueErrorModel::ExpectedInteger(got) => "expected integer, got "@ + got,
        ValueErrorModel::IntegerGotFloat(got) => "expected integer, got float "@ + got,
        ValueErrorModel::ExpectedBool(got) => "expected bool, got "@ + got,
        ValueErrorModel::ExpectedVector => "expected [x,y,z] or {x,y,z}"@,
        ValueErrorModel::ExpectedRotator => "expected [pitch,yaw,roll] or {pitch,yaw,roll}"@,
        ValueErrorModel::Missing(c) => "missing '"@ + component_text(c) + "'"@,
    }
}

pub open spec fn expected_text(e: Expected) -> Seq<char> {
    match e {
        Expected::EnumString(name) => "expected string for Enum("@ + name@ + ")"@,
        Expected::String => "expected string"@,
        Expected::Float => "expected float"@,
        Expected::Number => "expected number"@,
        Expected::Integer => "expected integer"@,
        Expected::Bool => "expected bool"@,
        Expected::Vector => "expected Vector (tuple [x,y,z] or map {x,y,z})"@,
        Expected::Rotator => "expected Rotator (tuple [pitch,yaw,roll] or map {pitch,yaw,roll})"@,
    }
}

pub open spec fn unsupported_text(u: UnsupportedType) -> Seq<char> {
    "Unsupported field type '"@ + u.ty@ + "'"@
}

pub open spec fn spec_error_text(e: SpecError) -> Seq<char> {
    match e {
        SpecError::InvalidFieldType { field, unsupported } => "Field '"@ + field@ + "': invalid type: "@
            + unsupported_text(unsupported),
        SpecError::MissingValue { record, field } => "Record '"@ + record@ + "' missing value for field '"@
            + field@ + "'"@,
        SpecError::WrongValue { record, field, expected, cause } => "Record '"@ + record@ + "' field '"@
            + field@ + "' "@ + expected_text(expected) + ": "@ + value_error_text(cause@),
        SpecError::EmptyEnum { name } => "Enum("@ + name@ + ") has no values collected from records"@,
    }
}

fn component_str(c: Component) -> (r: &'static str)
    ensures
        r@ == component_text(c),
{
    match c {
        Component::X => "x",
        Component::Y => "y",
        Component::Z => "z",
        Component::Pitch => "pitch",
        Component::Yaw => "yaw",
        Component::Roll => "roll",
    }
}

impl ValueError {
    /// The text of the error.
    pub fn message(&self) -> (r: String)
        ensures
            r@ == value_error_text(self@),
    {
        match self {
            ValueError::ExpectedString(got) => {
                let mut r = String::from_str("expected string, got ");
                r.append(got.as_str());
                r
            },
            ValueError::ExpectedNumber(got) => {
                let mut r = String::from_str("expected number, got ");
                r.append(got.as_str());
                r
            },
            ValueError::ExpectedInteger(got) => {
                let mut r = String::from_str("expected integer, got ");
                r.append(got.as_str());
                r
            },
            ValueError::IntegerGotFloat(got) => {
                let mut r = String::from_str("expected integer, got float ");
                r.append(got.as_str());
                r
            },
            ValueError::ExpectedBool(got) => {
                let mut r = String::from_str("expected bool, got ");
                r.append(got.as_str());
                r
            },
            ValueError::ExpectedVector => String::from_str("expected [x,y,z] or {x,y,z}"),
            ValueError::ExpectedRotator => String::from_str("expected [pitch,yaw,roll] or {pitch,yaw,roll}"),
            ValueError::Missing(c) => {
                let mut r = String::from_str("missing '");
                r.append(component_str(*c));
                r.append("'");
                r
            },
        }
    }
}

impl Expected {
    /// The text of what was expected.
    pub fn message(&self) -> (r: String)
        ensures
            r@ == expected_text(*self),
    {
        match self {
            Expected::EnumString(name) => {
                let mut r = String::from_str("expected string for Enum(");
                r.append(name.as_str());
                r.append(")");
                r
            },
            Expected::String => String::from_str("expected string"),
            Expected::Float => String::from_str("expected float"),
            Expected::Number => String::from_str("expected number"),
            Expected::Integer => String::from_str("expected integer"),
            Expected::Bool => String::from_str("expected bool"),
            Expected::Vector => String::from_str("expected Vector (tuple [x,y,z] or map {x,y,z})"),
            Expected::Rotator => String::from_str(
                "expected Rotator (tuple [pitch,yaw,roll] or map {pitch,yaw,roll})",
            ),
        }
    }
}

impl UnsupportedType {
    /// The text of the error.
    pub fn message(&self) -> (r: String)
        ensures
            r@ == unsupported_text(*self),
    {
        let mut r = String::from_str("Unsupported field type '");
        r.append(self.ty.as_str());
        r.append("'");
        r
    }
}

impl SpecError {
    /// The text of the error, context first.
    pub fn message(&self) -> (r: String)
        ensures
            r@ == spec_error_text(*self),
    {
        match self {
            SpecError::InvalidFieldType { field, unsupported } => {
                let mut r = String::from_str("Field '");
                r.append(field.as_str());
                r.append("': invalid type: ");
                let u = unsupported.message();
                r.append(u.as_str());
                r
            },
            SpecError::MissingValue { record, field } => {
                let mut r = String::from_str("Record '");
                r.append(record.as_str());
                r.append("' missing value for field '");
                r.append(field.as_str());
                r.append("'");
                r
            },
            SpecError::WrongValue { record, field, expected, cause } => {
                let mut r = String::from_str("Record '");
                r.append(record.as_str());
                r.append("' field '");
                r.append(field.as_str());
                r.append("' ");
                let x = expected.message();
                r.append(x.as_str());
                r.append(": ");
                let c = cause.message();
                r.append(c.as_str());
                r
            },
            SpecError::EmptyEnum { name } => {
                let mut r = String::from_str("Enum(");
                r.append(name.as_str());
                r.append(") has no values collected from records");
                r
            },
        }
    }
}

} // verus!
