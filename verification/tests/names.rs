use rebase::names::{enum_case, quote_text_literal, sanitize_field_name, sanitize_type_name, split_namespace};

#[test]
fn sanitize_type_name_keeps_identifiers() {
    assert_eq!(sanitize_type_name("Weapon"), "Weapon");
    assert_eq!(sanitize_type_name("Weapon_2"), "Weapon_2");
}

#[test]
fn sanitize_type_name_replaces_other_characters() {
    assert_eq!(sanitize_type_name("weapon-kind"), "weapon_kind");
    assert_eq!(sanitize_type_name("a b.c"), "a_b_c");
    assert_eq!(sanitize_type_name("é"), "_");
}

#[test]
fn sanitize_type_name_prefixes_leading_digit() {
    assert_eq!(sanitize_type_name("3d"), "_3d");
    assert_eq!(sanitize_type_name("a3"), "a3");
}

#[test]
fn sanitize_type_name_empty_is_type() {
    assert_eq!(sanitize_type_name(""), "Type");
}

#[test]
fn sanitize_field_name_empty_is_field() {
    assert_eq!(sanitize_field_name(""), "Field");
    assert_eq!(sanitize_field_name("Muzzle Offset"), "Muzzle_Offset");
    assert_eq!(sanitize_field_name("1st"), "_1st");
}

#[test]
fn sanitize_is_idempotent_on_examples() {
    for s in ["", "3d model", "x-y", "_", "Ünïcode", "ok"] {
        let once = sanitize_type_name(s);
        assert_eq!(sanitize_type_name(&once), once);
        let once = sanitize_field_name(s);
        assert_eq!(sanitize_field_name(&once), once);
    }
}

#[test]
fn enum_case_joins_words() {
    assert_eq!(enum_case("assault rifle"), "AssaultRifle");
    assert_eq!(enum_case("shotgun"), "Shotgun");
    assert_eq!(enum_case("hello_world-again"), "HelloWorldAgain");
    assert_eq!(enum_case("aB"), "AB");
}

#[test]
fn enum_case_digit_first_gets_v() {
    assert_eq!(enum_case("9mm"), "V9mm");
    assert_eq!(enum_case(" 12 gauge"), "V12Gauge");
}

#[test]
fn enum_case_empty_is_value() {
    assert_eq!(enum_case(""), "Value");
    assert_eq!(enum_case("--"), "Value");
}

#[test]
fn enum_case_is_idempotent_on_examples() {
    for s in ["AssaultRifle", "assault rifle", "9mm", "", "x_y_z"] {
        let once = enum_case(s);
        assert_eq!(enum_case(&once), once);
    }
}

#[test]
fn quote_text_literal_escapes() {
    assert_eq!(quote_text_literal("plain"), "\"plain\"");
    assert_eq!(quote_text_literal(""), "\"\"");
    assert_eq!(quote_text_literal("a\"b\\c"), "\"a\\\"b\\\\c\"");
    assert_eq!(quote_text_literal("l1\nl2\r\tend"), "\"l1\\nl2\\r\\tend\"");
}

#[test]
fn quote_text_literal_distinguishes_texts() {
    assert_ne!(quote_text_literal("a\\n"), quote_text_literal("a\n"));
    assert_ne!(quote_text_literal("\\\""), quote_text_literal("\""));
}

#[test]
fn split_namespace_splits_and_trims() {
    assert_eq!(split_namespace("Game::DB"), vec!["Game".to_string(), "DB".to_string()]);
    assert_eq!(split_namespace("  Game :: DB "), vec!["Game".to_string(), "DB".to_string()]);
}

#[test]
fn split_namespace_drops_empty_parts() {
    assert_eq!(split_namespace("::A::::B::"), vec!["A".to_string(), "B".to_string()]);
    assert!(split_namespace("").is_empty());
    assert!(split_namespace(" :: ").is_empty());
}

#[test]
fn split_namespace_splits_from_the_left() {
    assert_eq!(split_namespace("a:::b"), vec!["a".to_string(), ":b".to_string()]);
    assert_eq!(split_namespace("a:b"), vec!["a:b".to_string()]);
}

#[test]
fn split_namespace_reads_back_joined_names() {
    let parts = vec!["Game".to_string(), "DB".to_string(), "Items Ext".to_string()];
    assert_eq!(split_namespace(&parts.join("::")), parts);
    let none: Vec<String> = Vec::new();
    assert_eq!(split_namespace(&none.join("::")), none);
}

#[test]
fn split_namespace_parts_are_trimmed_and_nonempty() {
    for ns in ["  a :: b\t::\u{3000}c\u{3000}", ":: ::x", "\n"] {
        for p in split_namespace(ns) {
            assert!(!p.is_empty());
            assert_eq!(p.trim(), p);
        }
    }
}

#[test]
fn quote_text_literal_has_no_raw_controls() {
    let q = quote_text_literal("a\nb\rc\td");
    assert!(q.starts_with('"') && q.ends_with('"'));
    assert!(!q.contains('\n') && !q.contains('\r') && !q.contains('\t'));
}

#[test]
fn sanitized_names_are_identifiers() {
    for s in ["", "9 lives", "ok", "a-b", "Ω"] {
        for out in [sanitize_type_name(s), sanitize_field_name(s)] {
            let first = out.chars().next().unwrap();
            assert!(!first.is_ascii_digit());
            assert!(out.chars().all(|c| c.is_ascii_alphanumeric() || c == '_'));
        }
    }
}

#[test]
fn enumerators_start_upper_case() {
    for s in ["", "9mm", "shotgun", "-x-"] {
        let e = enum_case(s);
        assert!(e.chars().next().unwrap().is_ascii_uppercase());
        assert!(e.chars().all(|c| c.is_ascii_alphanumeric()));
    }
}

#[test]
fn split_namespace_round_trip_with_inner_colons() {
    for ns in ["a:b::c", " x:y :: :z ", "Game::D:B", "::a:b::"] {
        let xs = split_namespace(ns);
        assert_eq!(split_namespace(&xs.join("::")), xs, "for {}", ns);
    }
}
