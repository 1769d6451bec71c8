use rebase::model::{DataFile, DataSpec, FieldSpec, RecordSpec};
use rebase::names::split_namespace;
use rebase::normalize::{build_cpp_spec, merge_namespaces, Expected, SpecError};
use rebase::plan::{
    check_found, decimal_string, dry_run_unit, rust_output_due, rust_unit_line, select_specs, setup_actions, spec_step,
    ue_unit_line, SpecStep,
};
use rebase::types::Ty;
use rebase::value::{Number, Value, ValueError};

fn field(name: &str, ty: &str) -> FieldSpec {
    FieldSpec { name: name.to_string(), ty: ty.to_string(), doc: None }
}

fn s(t: &str) -> Value {
    Value::String(t.to_string())
}

fn integer(i: i64) -> Value {
    Value::Number(Number::Integer(i))
}

fn float(f: f64) -> Value {
    Value::Number(Number::Float { bits: f.to_bits(), text: format!("{:?}", f) })
}

fn record(name: &str, values: Vec<(&str, Value)>) -> RecordSpec {
    RecordSpec {
        name: name.to_string(),
        doc: None,
        values: values.into_iter().map(|(k, v)| (k.to_string(), v)).collect(),
    }
}

fn weapon() -> DataSpec {
    DataSpec {
        name: "Weapon".to_string(),
        namespace: Some("Game::DB".to_string()),
        fields: vec![
            field("Id", "FName"),
            field("Dps", "Float"),
            field("Clips", "Int"),
            field("IsHitscan", "Bool"),
            field("Kind", "Enum(WeaponKind)"),
            field("MuzzleOffset", "Vector"),
        ],
        records: vec![
            record(
                "AssaultRifle1",
                vec![
                    ("Id", s("AssaultRifle1")),
                    ("Dps", float(42.5)),
                    ("Clips", integer(3)),
                    ("IsHitscan", Value::Bool(true)),
                    ("Kind", s("AssaultRifle")),
                    ("MuzzleOffset", Value::List(vec![float(0.0), float(0.0), float(20.0)])),
                ],
            ),
            record(
                "Shotgun2",
                vec![
                    ("Id", s("Shotgun2")),
                    ("Dps", float(12.75)),
                    ("Clips", integer(8)),
                    ("IsHitscan", Value::Bool(false)),
                    ("Kind", s("Shotgun")),
                    (
                        "MuzzleOffset",
                        Value::Table(vec![(s("x"), float(0.0)), (s("y"), float(1.0)), (s("z"), float(10.0))]),
                    ),
                ],
            ),
        ],
    }
}

#[test]
fn readme_weapon_is_normalized() {
    let c = build_cpp_spec(weapon(), Some("Game::DB")).unwrap();
    assert_eq!(c.name, "Weapon");
    assert_eq!(c.namespace_chain, vec!["Game".to_string(), "DB".to_string()]);
    let types: Vec<&str> = c.fields.iter().map(|f| f.cpp_type.as_str()).collect();
    assert_eq!(types, vec!["FName", "float", "int32", "bool", "EWeaponKind", "FVector"]);
    assert!(matches!(&c.fields[4].ty, Ty::Enum { name } if name == "WeaponKind"));
    assert_eq!(c.records.len(), 2);
    assert_eq!(c.enums.len(), 1);
    assert_eq!(c.enums[0].name, "WeaponKind");
    assert_eq!(c.enums[0].values, vec!["AssaultRifle".to_string(), "Shotgun".to_string()]);
}

#[test]
fn enum_values_are_sorted_and_distinct() {
    let spec = DataSpec {
        name: "T".to_string(),
        namespace: None,
        fields: vec![field("B", "Enum(Zeta)"), field("A", "Enum(Alpha)"), field("C", "Enum(Zeta)")],
        records: vec![
            record("r1", vec![("A", s("b")), ("B", s("y")), ("C", s("x"))]),
            record("r2", vec![("A", s("a")), ("B", s("x")), ("C", s("y"))]),
            record("r3", vec![("A", s("b")), ("B", s("Y")), ("C", s("x"))]),
        ],
    };
    let c = build_cpp_spec(spec, None).unwrap();
    assert_eq!(c.enums.len(), 2);
    assert_eq!(c.enums[0].name, "Alpha");
    assert_eq!(c.enums[0].values, vec!["a".to_string(), "b".to_string()]);
    assert_eq!(c.enums[1].name, "Zeta");
    assert_eq!(c.enums[1].values, vec!["Y".to_string(), "x".to_string(), "y".to_string()]);
    assert!(c.namespace_chain.is_empty());
}

#[test]
fn namespaces_merge() {
    let mut spec = weapon();
    spec.namespace = Some("DB".to_string());
    let c = build_cpp_spec(spec, Some("Game")).unwrap();
    assert_eq!(c.namespace_chain, vec!["Game".to_string(), "DB".to_string()]);

    let c = build_cpp_spec(weapon(), None).unwrap();
    assert_eq!(c.namespace_chain, vec!["Game".to_string(), "DB".to_string()]);

    let mut spec = weapon();
    spec.namespace = None;
    let c = build_cpp_spec(spec, Some(" Game ::DB")).unwrap();
    assert_eq!(c.namespace_chain, vec!["Game".to_string(), "DB".to_string()]);
}

#[test]
fn identical_namespaces_are_not_doubled() {
    let c = merge_namespaces(split_namespace("Game::DB"), split_namespace("Game :: DB"));
    assert_eq!(c, vec!["Game".to_string(), "DB".to_string()]);
    let c = merge_namespaces(split_namespace("A"), split_namespace("A::B"));
    assert_eq!(c, vec!["A".to_string(), "A".to_string(), "B".to_string()]);
}

#[test]
fn invalid_field_type_is_refused_first() {
    let mut spec = weapon();
    spec.fields[2] = field("Clips", "Int64");
    spec.fields[3] = field("IsHitscan", "Boolean");
    spec.records.clear();
    match build_cpp_spec(spec, None) {
        Err(e @ SpecError::InvalidFieldType { .. }) => {
            assert_eq!(e.message(), "Field 'Clips': invalid type: Unsupported field type 'Int64'");
        }
        other => panic!("unexpected {:?}", other),
    }
}

#[test]
fn missing_value_is_refused() {
    let mut spec = weapon();
    spec.records[1].values.retain(|(k, _)| k != "Dps");
    match build_cpp_spec(spec, None) {
        Err(e @ SpecError::MissingValue { .. }) => {
            assert_eq!(e.message(), "Record 'Shotgun2' missing value for field 'Dps'");
        }
        other => panic!("unexpected {:?}", other),
    }
}

#[test]
fn wrong_value_is_refused() {
    let mut spec = weapon();
    spec.records[0].values[2] = ("Clips".to_string(), float(3.5));
    match build_cpp_spec(spec, None) {
        Err(e @ SpecError::WrongValue { .. }) => {
            assert!(matches!(
                &e,
                SpecError::WrongValue { expected: Expected::Integer, cause: ValueError::IntegerGotFloat(_), .. }
            ));
            assert_eq!(
                e.message(),
                "Record 'AssaultRifle1' field 'Clips' expected integer: expected integer, got float Float(Float(3.5))"
            );
        }
        other => panic!("unexpected {:?}", other),
    }
}

#[test]
fn wrong_enum_value_is_refused() {
    let mut spec = weapon();
    spec.records[1].values[4] = ("Kind".to_string(), integer(1));
    match build_cpp_spec(spec, None) {
        Err(e) => assert_eq!(
            e.message(),
            "Record 'Shotgun2' field 'Kind' expected string for Enum(WeaponKind): expected string, got Number(Integer(1))"
        ),
        other => panic!("unexpected {:?}", other),
    }
}

#[test]
fn wrong_vector_is_refused() {
    let mut spec = weapon();
    spec.records[1].values[5] = ("MuzzleOffset".to_string(), Value::Table(vec![(s("x"), integer(0))]));
    match build_cpp_spec(spec, None) {
        Err(e) => assert_eq!(
            e.message(),
            "Record 'Shotgun2' field 'MuzzleOffset' expected Vector (tuple [x,y,z] or map {x,y,z}): missing 'y'"
        ),
        other => panic!("unexpected {:?}", other),
    }
}

#[test]
fn first_problem_in_record_order() {
    let mut spec = weapon();
    spec.records[0].values[3] = ("IsHitscan".to_string(), integer(1));
    spec.records[0].values[1] = ("Dps".to_string(), s("fast"));
    spec.records[1].values.clear();
    match build_cpp_spec(spec, None) {
        Err(e) => assert_eq!(
            e.message(),
            "Record 'AssaultRifle1' field 'Dps' expected float: expected number, got String(\"fast\")"
        ),
        other => panic!("unexpected {:?}", other),
    }
}

#[test]
fn enum_without_values_is_refused() {
    let spec = DataSpec {
        name: "Empty".to_string(),
        namespace: None,
        fields: vec![field("K", "Enum(Kind)"), field("B", "Enum(Also)")],
        records: vec![],
    };
    match build_cpp_spec(spec, None) {
        Err(e @ SpecError::EmptyEnum { .. }) => {
            assert_eq!(e.message(), "Enum(Also) has no values collected from records");
        }
        other => panic!("unexpected {:?}", other),
    }
}

#[test]
fn last_entry_for_a_field_counts() {
    let spec = DataSpec {
        name: "T".to_string(),
        namespace: None,
        fields: vec![field("N", "Int")],
        records: vec![record("r", vec![("N", s("x")), ("N", integer(1))])],
    };
    assert!(build_cpp_spec(spec, None).is_ok());
}

#[test]
fn field_docs_are_kept() {
    let spec = DataSpec {
        name: "T".to_string(),
        namespace: None,
        fields: vec![FieldSpec { name: "N".to_string(), ty: "i32".to_string(), doc: Some("count".to_string()) }],
        records: vec![],
    };
    let c = build_cpp_spec(spec, None).unwrap();
    assert_eq!(c.fields[0].doc.as_deref(), Some("count"));
    assert_eq!(c.fields[0].name, "N");
}

#[test]
fn select_specs_prefers_data_file() {
    let file = DataFile { types: vec![weapon(), weapon()] };
    assert_eq!(select_specs(Some(file), Some(weapon())).unwrap().len(), 2);
    let one = select_specs(None, Some(weapon())).unwrap();
    assert_eq!(one.len(), 1);
    assert_eq!(one[0].name, "Weapon");
    let err = select_specs(None, None).unwrap_err();
    assert_eq!(err.message(), "Content is neither DataFile nor DataSpec");
}

#[test]
fn dry_run_lines() {
    let c = build_cpp_spec(weapon(), None).unwrap();
    assert_eq!(dry_run_unit(&c, "Data/weapon.ron"), "[dry-run] Weapon: 2 record(s) from Data/weapon.ron");
    assert_eq!(decimal_string(0), "0");
    assert_eq!(decimal_string(7), "7");
    assert_eq!(decimal_string(1234), "1234");
    assert_eq!(decimal_string(usize::MAX), usize::MAX.to_string());
}

#[test]
fn run_report_lines() {
    assert!(check_found(3, "Data").is_ok());
    let e = check_found(0, "Data").unwrap_err();
    assert_eq!(e.message(), "No .ron files found under input directory: Data");
    assert_eq!(ue_unit_line("Weapon"), "UE: Weapon");
    assert_eq!(rust_unit_line("gen.rs"), "Rust: gen.rs");
}

fn run_options(out_ue: Option<&str>, out_rust: Option<&str>, dry_run: bool) -> rebase::Options {
    rebase::Options {
        input: "Data".to_string(),
        out_ue: out_ue.map(String::from),
        out_rust_file: out_rust.map(String::from),
        namespace: None,
        force: false,
        dry_run,
    }
}

#[test]
fn dry_run_steps_write_nothing() {
    let o = run_options(Some("ue"), Some("out/gen.rs"), true);
    assert_eq!(setup_actions(&o), (false, false));
    assert!(!rust_output_due(&o));
    let c = build_cpp_spec(weapon(), None).unwrap();
    match spec_step(&o, &c, "w.ron") {
        SpecStep::Report(line) => assert_eq!(line, "[dry-run] Weapon: 2 record(s) from w.ron"),
        other => panic!("unexpected {:?}", other),
    }
}

#[test]
fn writing_run_steps() {
    let o = run_options(Some("ue"), None, false);
    assert_eq!(setup_actions(&o), (true, false));
    assert!(!rust_output_due(&o));
    let c = build_cpp_spec(weapon(), None).unwrap();
    assert!(matches!(spec_step(&o, &c, "w.ron"), SpecStep::Generate { ue: true }));
    let o = run_options(None, Some("gen.rs"), false);
    assert_eq!(setup_actions(&o), (false, true));
    assert!(rust_output_due(&o));
    assert!(matches!(spec_step(&o, &c, "w.ron"), SpecStep::Generate { ue: false }));
}
