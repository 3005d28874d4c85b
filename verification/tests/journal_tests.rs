use mijn_bussie::errors::{IncorrectCredentialsCount, SignInFailure};

fn round_trip(journal: &IncorrectCredentialsCount) -> IncorrectCredentialsCount {
    let bytes = journal.render();
    IncorrectCredentialsCount::parse(&bytes).expect("rendered journal must parse")
}

#[test]
fn journal_round_trip_plain() {
    let journal = IncorrectCredentialsCount {
        retry_count: 3,
        error: Some(SignInFailure::TooManyTries),
        previous_password_hash: Some(1234567890123456789),
    };
    assert_eq!(round_trip(&journal), journal);
}

#[test]
fn journal_round_trip_empty() {
    let journal = IncorrectCredentialsCount::new();
    assert_eq!(round_trip(&journal), journal);
}

#[test]
fn journal_round_trip_all_unit_variants() {
    for error in [
        None,
        Some(SignInFailure::TooManyTries),
        Some(SignInFailure::IncorrectCredentials),
        Some(SignInFailure::WebcomDown),
        Some(SignInFailure::Unknown),
    ] {
        let journal = IncorrectCredentialsCount {
            retry_count: 7,
            error,
            previous_password_hash: None,
        };
        assert_eq!(round_trip(&journal), journal);
    }
}

#[test]
fn journal_round_trip_message_with_escapes() {
    let journal = IncorrectCredentialsCount {
        retry_count: 1,
        error: Some(SignInFailure::Other(
            "regel 1\nregel\t2 \"quoted\" back\\slash \u{1} einde".to_owned(),
        )),
        previous_password_hash: Some(0),
    };
    assert_eq!(round_trip(&journal), journal);
}

#[test]
fn journal_round_trip_message_beyond_ascii() {
    let journal = IncorrectCredentialsCount {
        retry_count: 2,
        error: Some(SignInFailure::Other("storing: \u{e9}\u{e9}n fout \u{2013} ok\u{e9}".to_owned())),
        previous_password_hash: Some(u64::MAX),
    };
    assert_eq!(round_trip(&journal), journal);
}

#[test]
fn journal_rendering_is_the_stable_json_form() {
    let journal = IncorrectCredentialsCount {
        retry_count: 3,
        error: Some(SignInFailure::IncorrectCredentials),
        previous_password_hash: Some(42),
    };
    let text = String::from_utf8(journal.render()).unwrap();
    assert_eq!(
        text,
        "{\"retry_count\":3,\"error\":\"IncorrectCredentials\",\"previous_password_hash\":42}"
    );

    let empty = IncorrectCredentialsCount::new();
    let text = String::from_utf8(empty.render()).unwrap();
    assert_eq!(
        text,
        "{\"retry_count\":0,\"error\":null,\"previous_password_hash\":null}"
    );
}

#[test]
fn journal_parse_rejects_garbage() {
    assert!(IncorrectCredentialsCount::parse(&b"".to_vec()).is_none());
    assert!(IncorrectCredentialsCount::parse(&b"{}".to_vec()).is_none());
    assert!(IncorrectCredentialsCount::parse(
        &b"{\"retry_count\":1,\"error\":null,\"previous_password_hash\":null".to_vec()
    )
    .is_none());
    assert!(IncorrectCredentialsCount::parse(
        &b"{\"retry_count\":-1,\"error\":null,\"previous_password_hash\":null}".to_vec()
    )
    .is_none());
    assert!(IncorrectCredentialsCount::parse(
        &b"{\"retry_count\":1,\"error\":\"Nonsense\",\"previous_password_hash\":null}".to_vec()
    )
    .is_none());
    // Trailing bytes are refused.
    assert!(IncorrectCredentialsCount::parse(
        &b"{\"retry_count\":1,\"error\":null,\"previous_password_hash\":null} ".to_vec()
    )
    .is_none());
}

#[test]
fn journal_parse_accepts_other_message() {
    let bytes =
        b"{\"retry_count\":9,\"error\":{\"Other\":\"soort \\\"x\\\"\"},\"previous_password_hash\":7}"
            .to_vec();
    let journal = IncorrectCredentialsCount::parse(&bytes).unwrap();
    assert_eq!(journal.retry_count, 9);
    assert_eq!(
        journal.error,
        Some(SignInFailure::Other("soort \"x\"".to_owned()))
    );
    assert_eq!(journal.previous_password_hash, Some(7));
}
