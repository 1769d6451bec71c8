use rebase::options::OptionsError;
use rebase::Options;

fn opts(out_ue: Option<&str>, out_rust: Option<&str>) -> Options {
    Options {
        input: "./Data".to_string(),
        out_ue: out_ue.map(String::from),
        out_rust_file: out_rust.map(String::from),
        namespace: None,
        force: false,
        dry_run: false,
    }
}

#[test]
fn validate_accepts_one_output() {
    assert!(opts(Some("ue"), None).validate(true).is_ok());
    assert!(opts(None, Some("gen.rs")).validate(true).is_ok());
    assert!(opts(Some("ue"), Some("gen.rs")).validate(true).is_ok());
}

#[test]
fn validate_refuses_missing_input() {
    match opts(Some("ue"), None).validate(false) {
        Err(e @ OptionsError::InputNotDirectory(_)) => {
            assert_eq!(e.message(), "Input path must be an existing directory: ./Data");
        }
        other => panic!("unexpected {:?}", other),
    }
    assert!(matches!(opts(None, None).validate(false), Err(OptionsError::InputNotDirectory(_))));
}

#[test]
fn validate_refuses_no_outputs() {
    match opts(None, None).validate(true) {
        Err(e @ OptionsError::NoOutputs) => {
            assert_eq!(
                e.message(),
                "No outputs selected. Provide at least one of out_ue or out_rust_file"
            );
        }
        other => panic!("unexpected {:?}", other),
    }
}

#[test]
fn dry_run_without_outputs_is_a_validate_only_run() {
    let mut o = opts(None, None);
    o.dry_run = true;
    assert!(o.check_run(true).is_ok());
    assert!(matches!(o.check_run(false), Err(OptionsError::InputNotDirectory(_))));
    o.dry_run = false;
    assert!(matches!(o.check_run(true), Err(OptionsError::NoOutputs)));
    assert!(opts(Some("ue"), None).check_run(true).is_ok());
}
