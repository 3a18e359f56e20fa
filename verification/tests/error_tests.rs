use cipher::error::Error;

fn sample_errors() -> Vec<Error> {
    vec![
        Error::Config("broken config".into()),
        Error::Io(std::io::Error::other("disk failure")),
        Error::ProfileNotFound {
            name: "og".to_string(),
        },
        Error::Glossary("bad glossary json".into()),
        Error::Provider {
            kind: "gemini".to_string(),
            detail: "timeout".to_string(),
        },
        Error::Validation {
            message: "no chapters found".to_string(),
        },
        Error::State("corrupt state file".into()),
        Error::Other("untyped error".into()),
    ]
}

#[test]
fn codes_follow_contract() {
    let expected = [
        "E001", "E002", "E003", "E004", "E005", "E006", "E007", "E099",
    ];
    for (err, code) in sample_errors().into_iter().zip(expected) {
        assert_eq!(err.code(), code, "for {err:?}");
    }
}

#[test]
fn exit_codes_follow_table() {
    let expected = [2, 3, 2, 1, 4, 1, 70, 70];
    for (err, code) in sample_errors().into_iter().zip(expected) {
        assert_eq!(err.exit_code(), code, "for {err:?}");
    }
}

#[test]
fn suggestions_cover_all_variants_except_other() {
    let expected = [true, true, true, true, true, true, true, false];
    for (err, has) in sample_errors().into_iter().zip(expected) {
        assert_eq!(err.suggestion().is_some(), has, "for {err:?}");
    }
}

#[test]
fn display_matches_planned_wording() {
    assert_eq!(
        Error::ProfileNotFound { name: "og".into() }.to_string(),
        "profile 'og' not found"
    );
    assert_eq!(Error::Config("x".into()).to_string(), "config error: x");
    assert_eq!(
        Error::Io(std::io::Error::other("disk")).to_string(),
        "I/O error: disk"
    );
    assert_eq!(Error::Glossary("x".into()).to_string(), "glossary error: x");
    assert_eq!(
        Error::Provider {
            kind: "gemini".into(),
            detail: "timeout".into()
        }
        .to_string(),
        "gemini request failed: timeout"
    );
    assert_eq!(
        Error::Validation {
            message: "bad value".into()
        }
        .to_string(),
        "bad value"
    );
    assert_eq!(Error::State("x".into()).to_string(), "state error: x");
}

#[test]
fn io_from_error_is_e002() {
    let err: Error = std::io::Error::new(std::io::ErrorKind::NotFound, "missing").into();
    assert_eq!(err.code(), "E002");
    assert_eq!(err.exit_code(), 3);
}

#[test]
fn io_helper_preserves_kind_and_context() {
    let err = Error::io(
        "Failed to read foo.md",
        std::io::Error::from_raw_os_error(2),
    );
    assert_eq!(err.code(), "E002");
    assert_eq!(err.exit_code(), 3);
    let text = err.to_string();
    assert!(text.contains("Failed to read foo.md"), "got: {text}");
    let Error::Io(inner) = err else {
        panic!("expected Io variant");
    };
    assert_eq!(inner.kind(), std::io::ErrorKind::NotFound);
}

#[test]
fn suggestion_texts_are_exact() {
    assert_eq!(
        Error::Config("x".into()).suggestion(),
        Some("Run 'cipher doctor' for configuration diagnostics.")
    );
    assert_eq!(Error::Other("x".into()).suggestion(), None);
    assert_eq!(Error::Other("plain".into()).to_string(), "plain");
}

#[test]
fn io_helper_states_context_and_inner_text_of_custom_errors() {
    let source = std::io::Error::new(std::io::ErrorKind::PermissionDenied, "locked");
    let err = Error::io("Failed to write out.md", source);
    assert_eq!(err.to_string(), "I/O error: Failed to write out.md: locked");
    let Error::Io(inner) = err else {
        panic!("expected Io variant");
    };
    assert_eq!(inner.kind(), std::io::ErrorKind::PermissionDenied);
    assert_eq!(inner.to_string(), "Failed to write out.md: locked");
}

#[test]
fn json_errors_are_state_errors() {
    let err = Error::json("expected value at line 1 column 1");
    assert_eq!(err.code(), "E007");
    assert_eq!(err.to_string(), "state error: JSON error: expected value at line 1 column 1");
}
