use vialo::startup::{
    config_error_text, decode_encryption_key, error_line, listener_kind, pg_version_supported,
    socket_activation_fds, trim_trailing_slashes, HexError, KeyError, ListenerKind, CONFIG_ENV,
    CONFIG_FILE,
};
use vialo::text::fields::{decimal_text, parse_i32, parse_unsigned, split_char, trim};

#[test]
fn config_errors_name_the_line() {
    let text = "a = 1\nb = 2\nc = oops\n";
    let offset = text.find("oops").unwrap();
    assert_eq!(error_line(text.as_bytes(), offset), 3);
    assert_eq!(error_line(text.as_bytes(), 0), 1);
    assert_eq!(
        config_error_text("invalid value", "vialo.toml", Some(3)),
        "invalid value in vialo.toml around line 3"
    );
    assert_eq!(config_error_text("missing field", "/etc/x.toml", None), "missing field in /etc/x.toml");
    assert_eq!(CONFIG_FILE, "vialo.toml");
    assert_eq!(CONFIG_ENV, "VIALO_CONFIG");
}

#[test]
fn socket_activation_needs_both_named_sockets() {
    assert_eq!(
        socket_activation_fds(77, Some("77"), Some("2"), Some("public:hooks")),
        Some((3, 4))
    );
    assert_eq!(
        socket_activation_fds(77, Some("77"), Some("3"), Some("hooks:other:public")),
        Some((5, 3))
    );
    assert_eq!(socket_activation_fds(77, Some("78"), Some("2"), Some("public:hooks")), None);
    assert_eq!(socket_activation_fds(77, Some("77"), Some("1"), Some("public:hooks")), None);
    assert_eq!(socket_activation_fds(77, Some("77"), Some("2"), Some("public")), None);
    assert_eq!(socket_activation_fds(77, None, Some("2"), Some("public:hooks")), None);
    assert_eq!(socket_activation_fds(77, Some("77"), Some("2"), None), None);
    // only the first LISTEN_FDS names count
    assert_eq!(
        socket_activation_fds(77, Some("77"), Some("2"), Some("public:x:hooks")),
        None
    );
    assert_eq!(socket_activation_fds(77, Some("+77"), Some("2"), Some("public:hooks")), Some((3, 4)));
}

#[test]
fn listen_addresses() {
    assert_eq!(listener_kind("/run/vialo/api.sock"), ListenerKind::UnixPath);
    assert_eq!(listener_kind("@vialo"), ListenerKind::UnixAbstract);
    assert_eq!(listener_kind("127.0.0.1:8080"), ListenerKind::Tcp);
    assert_eq!(listener_kind(""), ListenerKind::Tcp);
    assert_eq!(trim_trailing_slashes("http://kratos:4433//"), "http://kratos:4433");
    assert_eq!(trim_trailing_slashes("http://kratos"), "http://kratos");
}

#[test]
fn database_version_check() {
    assert_eq!(pg_version_supported("180001"), Some(true));
    assert_eq!(pg_version_supported("170004"), Some(false));
    assert_eq!(pg_version_supported("eighteen"), None);
    assert_eq!(pg_version_supported("99999999999"), None);
}

#[test]
fn encryption_keys() {
    let hex: String = "0f".repeat(32);
    assert_eq!(decode_encryption_key(&format!("  {hex}\n")), Ok([0x0f; 32]));
    assert_eq!(
        decode_encryption_key("abc"),
        Err(KeyError::InvalidHex(HexError::OddLength))
    );
    assert_eq!(
        decode_encryption_key("zz"),
        Err(KeyError::InvalidHex(HexError::InvalidHexCharacter { c: b'z', index: 0 }))
    );
    assert_eq!(decode_encryption_key("0f0f"), Err(KeyError::WrongLength));
}

#[test]
fn text_fields() {
    assert_eq!(trim("  a b \t"), "a b");
    assert_eq!(trim("\u{3000}x\u{a0}"), "x");
    assert_eq!(split_char("a::b", ':'), vec!["a".to_string(), "".to_string(), "b".to_string()]);
    assert_eq!(split_char("", ':'), vec!["".to_string()]);
    assert_eq!(parse_unsigned("+42", 100), Some(42));
    assert_eq!(parse_unsigned("101", 100), None);
    assert_eq!(parse_unsigned("-1", 100), None);
    assert_eq!(parse_unsigned("", 100), None);
    assert_eq!(parse_unsigned("+", 100), None);
    assert_eq!(parse_unsigned("007", 100), Some(7));
    assert_eq!(decimal_text(0), "0");
    assert_eq!(decimal_text(1234567890), "1234567890");
    assert_eq!(decimal_text(u64::MAX), u64::MAX.to_string());
}

#[test]
fn signed_numbers_parse_as_std_does() {
    assert_eq!(parse_i32("42"), Some(42));
    assert_eq!(parse_i32("+7"), Some(7));
    assert_eq!(parse_i32("-15"), Some(-15));
    assert_eq!(parse_i32("-2147483648"), Some(i32::MIN));
    assert_eq!(parse_i32("2147483647"), Some(i32::MAX));
    assert_eq!(parse_i32("2147483648"), None);
    assert_eq!(parse_i32("-2147483649"), None);
    assert_eq!(parse_i32("-"), None);
    assert_eq!(parse_i32("-+3"), None);
    assert_eq!(parse_i32(""), None);
    assert_eq!(parse_i32("12a"), None);
    assert_eq!(parse_i32(" 1"), None);
}

#[test]
fn trim_knows_white_space_as_std_does() {
    for c in (0u32..=0x10FFFF).filter_map(char::from_u32) {
        let one = c.to_string();
        assert_eq!(trim(&one).is_empty(), c.is_whitespace(), "{:?}", c);
    }
    assert_eq!(trim("\u{3000} x \u{85}"), "x");
}
