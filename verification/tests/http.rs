use vialo::http::auth::{
    auth_outcome, auth_required, has_session_credentials, AuthError, AuthOutcome, SessionCheck,
    UserSuspendedReason,
};
use vialo::http::errors::{from_db_error, require, VialoError};
use vialo::http::i18n::{get_i18n_arg_arrays, Translations};
use vialo::http::json::{
    extract_json, extract_maybe_json, extract_maybe_json_body, invalid_json_rejection,
    is_json_content_type, parse_serde_error, BodyParse,
};
use vialo::http::models::{
    listing_needs_role, uuid_text, IdOrAllQuery, IdOrMeOrAllQuery, IdOrMeQuery,
};

#[test]
fn serde_errors_split_into_received_and_expected() {
    let p = parse_serde_error("invalid type: string \"x\", expected u32");
    assert_eq!(p.received.as_deref(), Some("string \"x\""));
    assert_eq!(p.expected.as_deref(), Some("u32"));
    let p = parse_serde_error("invalid value: integer `-1`, expected u8");
    assert_eq!(p.received.as_deref(), Some("integer `-1`"));
    assert_eq!(p.expected.as_deref(), Some("u8"));
    let p = parse_serde_error("missing field `label`");
    assert!(p.received.is_none() && p.expected.is_none());
}

#[test]
fn json_content_type_must_match() {
    assert!(is_json_content_type(Some("application/json")));
    assert!(is_json_content_type(Some("application/json; charset=utf-8")));
    assert!(!is_json_content_type(Some("text/plain")));
    assert!(!is_json_content_type(None));
}

#[test]
fn invalid_json_names_the_field_and_drops_the_location() {
    let r = invalid_json_rejection("label", "invalid type: integer `1`, expected a string at line 1 column 10");
    assert_eq!(r.status, 422);
    assert_eq!(r.code, "invalid_json");
    assert_eq!(
        r.message,
        "Invalid value for field 'label': invalid type: integer `1`, expected a string"
    );
    assert_eq!(r.field.as_deref(), Some("label"));
    assert_eq!(r.received.as_deref(), Some("integer `1`"));
    assert_eq!(r.expected.as_deref(), Some("a string"));
    let r = invalid_json_rejection(".", "expected value at line 1 column 1");
    assert_eq!(r.message, "expected value");
    assert!(r.field.is_none());
}

#[test]
fn json_extraction_order() {
    let r = extract_json(Some("text/html"), BodyParse::Parsed(5u32));
    assert_eq!(r.err().unwrap().status, 415);
    let r = extract_json::<u32>(Some("application/json"), BodyParse::Unreadable);
    let e = r.err().unwrap();
    assert_eq!(e.status, 400);
    assert_eq!(e.message, "Failed to read request body");
    let r = extract_json(Some("application/json"), BodyParse::Parsed(5u32));
    assert_eq!(r.ok().unwrap().0, 5);
    let m = extract_maybe_json(extract_json::<u32>(None, BodyParse::Unreadable));
    assert!(m.0.is_none());
    let m = extract_maybe_json(extract_json(Some("application/json"), BodyParse::Parsed(3u32)));
    assert_eq!(m.0, Some(3));
}

#[test]
fn error_responses() {
    let r = VialoError::Forbidden.into_response();
    assert_eq!((r.status, r.code.as_str()), (403, "forbidden"));
    let r = VialoError::NotFound.into_response();
    assert_eq!((r.status, r.code.as_str()), (404, "not_found"));
    let r = VialoError::Anyhow("db down".into()).into_response();
    assert_eq!((r.status, r.code.as_str()), (500, "internal_error"));
    let r = VialoError::AppError(409, "mac_conflict".into()).into_response();
    assert_eq!((r.status, r.code.as_str()), (409, "mac_conflict"));
    let r = VialoError::AppErrorWithDetails(403, "suspended".into(), "expired".into()).into_response();
    assert_eq!(r.details.as_deref(), Some("expired"));
    assert!(VialoError::Anyhow(String::new()).is_unexpected());
    assert!(!VialoError::NotFound.is_unexpected());
    assert!(matches!(from_db_error(true, "x".into()), VialoError::NotFound));
    assert!(matches!(from_db_error(false, "x".into()), VialoError::Anyhow(_)));
    assert!(require(true).is_ok());
    assert!(matches!(require(false), Err(VialoError::Forbidden)));
}

#[test]
fn auth_outcomes() {
    let o = auth_outcome(SessionCheck::Account { id: 5, manually_suspended: true, expired: Some(true) });
    assert_eq!(o.user, Some(5));
    assert_eq!(o.error, Some(AuthError::Suspended(UserSuspendedReason::Expired)));
    let o = auth_outcome(SessionCheck::Account { id: 5, manually_suspended: true, expired: None });
    assert_eq!(o.error, Some(AuthError::Suspended(UserSuspendedReason::ManuallySuspended)));
    let o = auth_outcome(SessionCheck::NoCredentials);
    assert_eq!(o, AuthOutcome { user: None, error: Some(AuthError::Unauthorized) });
    let o = auth_outcome(SessionCheck::UnknownAccount);
    assert_eq!(o.error, Some(AuthError::Suspended(UserSuspendedReason::NotVerified)));
    assert_eq!(auth_outcome(SessionCheck::Mock(9)).user, Some(9));
    assert!(!has_session_credentials(None, false));
    assert!(has_session_credentials(Some("t"), false));
}

#[test]
fn auth_required_refusals() {
    assert!(auth_required(&AuthOutcome { user: Some(1), error: None }).is_ok());
    match auth_required(&AuthOutcome { user: None, error: None }) {
        Err(VialoError::AppError(401, code)) => assert_eq!(code, "unauthorized"),
        other => panic!("unexpected {other:?}"),
    }
    match auth_required(&AuthOutcome { user: None, error: Some(AuthError::InvalidSession) }) {
        Err(VialoError::AppError(401, code)) => assert_eq!(code, "invalid_session"),
        other => panic!("unexpected {other:?}"),
    }
    match auth_required(&AuthOutcome {
        user: None,
        error: Some(AuthError::Suspended(UserSuspendedReason::NotVerified)),
    }) {
        Err(VialoError::AppErrorWithDetails(403, code, details)) => {
            assert_eq!(code, "suspended");
            assert_eq!(details, "not_verified");
        }
        other => panic!("unexpected {other:?}"),
    }
}

#[test]
fn translations_keep_one_text_per_language() {
    let mut t = Translations::new();
    t.insert("en".into(), "Hello".into());
    t.insert("de".into(), "Hallo".into());
    t.insert("en".into(), "Hi".into());
    assert_eq!(t.len(), 2);
    let (langs, texts) = get_i18n_arg_arrays(Some(t));
    assert_eq!(langs, vec!["en".to_string(), "de".to_string()]);
    assert_eq!(texts, vec!["Hi".to_string(), "Hallo".to_string()]);
    let (langs, texts) = get_i18n_arg_arrays(None);
    assert!(langs.is_empty() && texts.is_empty());
}

#[test]
fn id_queries() {
    let id = 0x67e5_5044_10b1_426f_9247_bb68_0e5f_e0c8u128;
    assert_eq!(uuid_text(id), "67e55044-10b1-426f-9247-bb680e5fe0c8");
    assert_eq!(
        IdOrMeOrAllQuery::parse("67e55044-10b1-426f-9247-bb680e5fe0c8"),
        Some(IdOrMeOrAllQuery::Id(id))
    );
    assert_eq!(IdOrMeOrAllQuery::parse("me"), Some(IdOrMeOrAllQuery::Me));
    assert_eq!(IdOrMeOrAllQuery::parse("all"), Some(IdOrMeOrAllQuery::All));
    assert_eq!(IdOrMeOrAllQuery::parse("nope"), None);
    assert_eq!(IdOrAllQuery::parse("me"), None);
    assert_eq!(IdOrMeQuery::parse("all"), None);
    assert_eq!(IdOrMeQuery::parse("me"), Some(IdOrMeQuery::Me));
    assert_eq!(IdOrMeOrAllQuery::Me.resolve(3), IdOrAllQuery::Id(3));
    assert_eq!(IdOrMeOrAllQuery::All.resolve(3), IdOrAllQuery::All);
    assert_eq!(IdOrMeQuery::Me.resolve(3), 3);
    assert_eq!(IdOrMeQuery::Id(4).resolve(3), 4);
    assert_eq!(IdOrMeOrAllQuery::default(), IdOrMeOrAllQuery::Me);
    assert!(!listing_needs_role(IdOrAllQuery::Id(3), 3));
    assert!(listing_needs_role(IdOrAllQuery::Id(4), 3));
    assert!(listing_needs_role(IdOrAllQuery::All, 3));
}

#[test]
fn rejections_carry_every_field() {
    let e = extract_json::<u32>(Some("text/plain"), BodyParse::Parsed(1)).err().unwrap();
    assert_eq!(e.status, 415);
    assert_eq!(e.code, "invalid_content_type");
    assert_eq!(e.message, "Expected Content-Type: application/json");
    assert!(e.field.is_none() && e.received.is_none() && e.expected.is_none());
    let e = extract_json::<u32>(Some("application/json"), BodyParse::Unreadable).err().unwrap();
    assert_eq!((e.status, e.code.as_str()), (400, "invalid_json"));
    assert_eq!(e.message, "Failed to read request body");
    let e = extract_json::<u32>(
        Some("application/json"),
        BodyParse::Invalid {
            path: "count".to_string(),
            inner: "invalid type: string \"x\", expected u32 at line 1 column 12".to_string(),
        },
    )
    .err()
    .unwrap();
    assert_eq!((e.status, e.code.as_str()), (422, "invalid_json"));
    assert_eq!(e.field.as_deref(), Some("count"));
    assert_eq!(e.message, "Invalid value for field 'count': invalid type: string \"x\", expected u32");
    assert_eq!(e.received.as_deref(), Some("string \"x\""));
    assert_eq!(e.expected.as_deref(), Some("u32"));
}

#[test]
fn optional_bodies_are_never_refused() {
    assert_eq!(extract_maybe_json_body(Some("application/json"), BodyParse::Parsed(3u8)).0, Some(3));
    assert_eq!(extract_maybe_json_body(None, BodyParse::Parsed(3u8)).0, None);
    assert_eq!(extract_maybe_json_body::<u8>(Some("application/json"), BodyParse::Unreadable).0, None);
    assert_eq!(
        extract_maybe_json_body::<u8>(
            Some("application/json"),
            BodyParse::Invalid { path: ".".to_string(), inner: "EOF".to_string() }
        )
        .0,
        None
    );
}

#[test]
fn serde_errors_split_at_the_first_separator() {
    let p = parse_serde_error("invalid type: a, expected b, expected c");
    assert_eq!(p.received.as_deref(), Some("a"));
    assert_eq!(p.expected.as_deref(), Some("b, expected c"));
    let p = parse_serde_error("invalid type: no separator");
    assert!(p.received.is_none() && p.expected.is_none());
}

#[test]
fn arg_arrays_name_each_language_once() {
    let mut t = Translations::new();
    t.insert("en".to_string(), "Hi".to_string());
    t.insert("de".to_string(), "Hallo".to_string());
    t.insert("en".to_string(), "Hello".to_string());
    let (langs, texts) = get_i18n_arg_arrays(Some(t));
    assert_eq!(langs, vec!["en".to_string(), "de".to_string()]);
    assert_eq!(texts, vec!["Hello".to_string(), "Hallo".to_string()]);
}
