use rebase::types::{cpp_type, parse_enum_ty, parse_ty, Ty};

#[test]
fn parse_ty_names_and_aliases() {
    assert!(matches!(parse_ty("String"), Ok(Ty::String)));
    assert!(matches!(parse_ty("FName"), Ok(Ty::FName)));
    assert!(matches!(parse_ty("Name"), Ok(Ty::FName)));
    assert!(matches!(parse_ty("Float"), Ok(Ty::Float)));
    assert!(matches!(parse_ty("f32"), Ok(Ty::Float)));
    assert!(matches!(parse_ty("Double"), Ok(Ty::Double)));
    assert!(matches!(parse_ty("f64"), Ok(Ty::Double)));
    assert!(matches!(parse_ty("Int"), Ok(Ty::Int32)));
    assert!(matches!(parse_ty("i32"), Ok(Ty::Int32)));
    assert!(matches!(parse_ty("Bool"), Ok(Ty::Bool)));
    assert!(matches!(parse_ty("bool"), Ok(Ty::Bool)));
    assert!(matches!(parse_ty("Vector"), Ok(Ty::Vector)));
    assert!(matches!(parse_ty("Rotator"), Ok(Ty::Rotator)));
}

#[test]
fn parse_ty_trims() {
    assert!(matches!(parse_ty("  Int\t"), Ok(Ty::Int32)));
}

#[test]
fn parse_ty_enum() {
    match parse_ty("Enum(WeaponKind)") {
        Ok(Ty::Enum { name }) => assert_eq!(name, "WeaponKind"),
        other => panic!("unexpected {:?}", other),
    }
    match parse_ty(" Enum ( Kind_2 ) ") {
        Ok(Ty::Enum { name }) => assert_eq!(name, "Kind_2"),
        other => panic!("unexpected {:?}", other),
    }
}

#[test]
fn parse_ty_unsupported_keeps_text() {
    match parse_ty(" Int64 ") {
        Err(e) => {
            assert_eq!(e.ty, " Int64 ");
            assert_eq!(e.message(), "Unsupported field type ' Int64 '");
        }
        other => panic!("unexpected {:?}", other),
    }
    assert!(parse_ty("string").is_err());
    assert!(parse_ty("Enum(1x)").is_err());
    assert!(parse_ty("Enum()").is_err());
    assert!(parse_ty("enum(X)").is_err());
}

#[test]
fn parse_enum_ty_matches_pattern() {
    assert_eq!(parse_enum_ty("Enum(A_b1)"), Some("A_b1".to_string()));
    assert_eq!(parse_enum_ty("Enum\t(\u{3000}X )"), Some("X".to_string()));
    assert_eq!(parse_enum_ty("Enum(_)"), Some("_".to_string()));
    assert_eq!(parse_enum_ty("Enum(A b)"), None);
    assert_eq!(parse_enum_ty("Enum(A))"), None);
    assert_eq!(parse_enum_ty("Enum(A) "), None);
    assert_eq!(parse_enum_ty(" Enum(A)"), None);
    assert_eq!(parse_enum_ty("Enum(Ä)"), None);
}

#[test]
fn cpp_type_spelling() {
    assert_eq!(cpp_type(&Ty::String), "FString");
    assert_eq!(cpp_type(&Ty::FName), "FName");
    assert_eq!(cpp_type(&Ty::Float), "float");
    assert_eq!(cpp_type(&Ty::Double), "double");
    assert_eq!(cpp_type(&Ty::Int32), "int32");
    assert_eq!(cpp_type(&Ty::Bool), "bool");
    assert_eq!(cpp_type(&Ty::Vector), "FVector");
    assert_eq!(cpp_type(&Ty::Rotator), "FRotator");
    assert_eq!(cpp_type(&Ty::Enum { name: "Weapon Kind".to_string() }), "EWeapon_Kind");
}
