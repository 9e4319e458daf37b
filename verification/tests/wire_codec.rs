use meili_keys::action::Action;
use meili_keys::codec::{dec_u64, parse_u32};
use meili_keys::error::Error;
use meili_keys::key::{Key, KeyBuilder, KeysQuery};
use meili_keys::parse::parse_key;
use meili_keys::timestamp::{parse_timestamp, Timestamp, TS_MAX};

fn sample_key() -> Key {
    Key {
        actions: vec![Action::Search],
        created_at: Timestamp { unix_seconds: 0 },
        description: Some(String::from("test")),
        name: None,
        expires_at: None,
        indexes: vec![String::from("*")],
        key: String::from("abc"),
        updated_at: Timestamp { unix_seconds: 60 },
    }
}

#[test]
fn decimal_rendering_is_exact() {
    assert_eq!(dec_u64(0), "0");
    assert_eq!(dec_u64(7), "7");
    assert_eq!(dec_u64(1234567890), "1234567890");
}

#[test]
fn decimal_parsing_is_exact_and_bounded() {
    assert_eq!(parse_u32("4294967295x", 0), Some((4294967295, 10)));
    assert_eq!(parse_u32("4294967296", 0), None);
    assert_eq!(parse_u32("abc", 0), None);
    assert_eq!(parse_u32("12,", 0), Some((12, 2)));
}

#[test]
fn timestamps_render_as_rfc3339() {
    assert_eq!(
        Timestamp { unix_seconds: 0 }.to_rfc3339(),
        "1970-01-01T00:00:00Z"
    );
    assert_eq!(
        Timestamp { unix_seconds: TS_MAX }.to_rfc3339(),
        "9999-12-31T23:59:59Z"
    );
}

#[test]
fn timestamps_parse_back_from_rfc3339() {
    assert_eq!(
        parse_timestamp("1970-01-01T00:00:00Z"),
        Some(Timestamp { unix_seconds: 0 })
    );
    assert_eq!(
        parse_timestamp("1970-01-01T00:00:01+00:00"),
        Some(Timestamp { unix_seconds: 1 })
    );
    assert_eq!(parse_timestamp("not a date"), None);
    assert_eq!(parse_timestamp("1970-01-01"), None);
}

#[test]
fn key_write_payload_omits_empty_actions_and_indexes() {
    let key = Key {
        actions: Vec::new(),
        created_at: Timestamp { unix_seconds: 0 },
        description: Some(String::from("A")),
        name: None,
        expires_at: None,
        indexes: Vec::new(),
        key: String::from("secret"),
        updated_at: Timestamp { unix_seconds: 0 },
    };
    assert_eq!(key.to_write_json(), "{\"description\":\"A\",\"name\":null}");
}

#[test]
fn key_write_payload_keeps_nonempty_arrays_and_never_sends_key() {
    let key = sample_key();
    assert_eq!(
        key.to_write_json(),
        "{\"actions\":[\"search\"],\"description\":\"test\",\"name\":null,\"indexes\":[\"*\"]}"
    );
}

#[test]
fn builder_create_payload_is_exact() {
    let b = KeyBuilder::new()
        .with_action(Action::Search)
        .with_index("*");
    assert_eq!(
        b.to_create_json(),
        "{\"actions\":[\"search\"],\"description\":null,\"indexes\":[\"*\"]}"
    );
}

#[test]
fn key_write_payload_includes_expiry_only_when_set() {
    let mut key = sample_key();
    assert!(!key.to_write_json().contains("expiresAt"));
    key.expires_at = Some(Timestamp { unix_seconds: 0 });
    assert_eq!(
        key.to_write_json(),
        "{\"actions\":[\"search\"],\"description\":\"test\",\"name\":null,\"expiresAt\":\"1970-01-01T00:00:00Z\",\"indexes\":[\"*\"]}"
    );
}

#[test]
fn builder_create_payload_renders_expiry_as_rfc3339() {
    let b = KeyBuilder::new().with_expires_at(Timestamp { unix_seconds: 0 });
    assert_eq!(
        b.to_create_json(),
        "{\"description\":null,\"expiresAt\":\"1970-01-01T00:00:00Z\"}"
    );
}

#[test]
fn parsing_a_payload_without_actions_or_indexes_gives_empty_sequences() {
    let payload = "{\"createdAt\":\"2021-01-01T00:00:00Z\",\"description\":null,\"name\":null,\"expiresAt\":null,\"key\":\"k\",\"updatedAt\":\"2021-01-01T00:00:00Z\"}";
    let key = parse_key(payload).unwrap();
    assert!(key.actions.is_empty());
    assert!(key.indexes.is_empty());
    assert_eq!(key.description, None);
    assert_eq!(key.expires_at, None);
    assert_eq!(key.key, "k");
    assert_eq!(key.created_at, Timestamp { unix_seconds: 1609459200 });
}

#[test]
fn parsing_a_payload_without_expires_at_means_non_expiring() {
    let payload = "{\"createdAt\":\"2021-01-01T00:00:00Z\",\"description\":null,\"name\":null,\"key\":\"k\",\"updatedAt\":\"2021-01-01T00:00:00Z\"}";
    let key = parse_key(payload).unwrap();
    assert_eq!(key.expires_at, None);
    assert_eq!(key.key, "k");
}

#[test]
fn parsing_an_unknown_action_token_is_a_decode_error() {
    let payload = "{\"actions\":[\"frobnicate\"],\"createdAt\":\"2021-01-01T00:00:00Z\",\"description\":null,\"name\":null,\"expiresAt\":null,\"key\":\"k\",\"updatedAt\":\"2021-01-01T00:00:00Z\"}";
    assert_eq!(parse_key(payload), Err(Error::Decode));
}

#[test]
fn parsing_garbage_is_a_decode_error() {
    assert_eq!(parse_key(""), Err(Error::Decode));
    assert_eq!(parse_key("{}"), Err(Error::Decode));
    assert_eq!(parse_key("not json"), Err(Error::Decode));
    let truncated = "{\"createdAt\":\"2021-01-01T00:00:00Z\",\"description\":null";
    assert_eq!(parse_key(truncated), Err(Error::Decode));
}

#[test]
fn render_then_parse_returns_the_same_key() {
    let key = sample_key();
    let rendered = key.to_server_json();
    assert_eq!(
        rendered,
        "{\"actions\":[\"search\"],\"createdAt\":\"1970-01-01T00:00:00Z\",\"description\":\"test\",\"name\":null,\"expiresAt\":null,\"indexes\":[\"*\"],\"key\":\"abc\",\"updatedAt\":\"1970-01-01T00:01:00Z\"}"
    );
    assert_eq!(parse_key(rendered.as_str()).unwrap(), key);
}

#[test]
fn quotes_and_backslashes_in_strings_survive_the_round_trip() {
    let mut key = sample_key();
    key.description = Some(String::from("he said \"hi\" \\ done"));
    key.indexes = vec![String::from("a\"b"), String::from("c\\d")];
    let rendered = key.to_server_json();
    assert!(rendered.contains("\"description\":\"he said \\\"hi\\\" \\\\ done\""));
    assert_eq!(parse_key(rendered.as_str()).unwrap(), key);
}

#[test]
fn query_with_nothing_set_serializes_with_both_fields_absent() {
    let q = KeysQuery::new();
    assert_eq!(q.to_query_string(), "");
}

#[test]
fn query_serializes_whichever_fields_are_set() {
    assert_eq!(KeysQuery::new().with_offset(1).to_query_string(), "?offset=1");
    assert_eq!(KeysQuery::new().with_limit(20).to_query_string(), "?limit=20");
    assert_eq!(
        KeysQuery::new().with_offset(1).with_limit(2).to_query_string(),
        "?offset=1&limit=2"
    );
}

#[test]
fn error_variants_carry_their_payloads() {
    let server = Error::Server {
        status_code: 404,
        body: String::from("{\"code\":\"api_key_not_found\"}"),
    };
    match &server {
        Error::Server { status_code, body } => {
            assert_eq!(*status_code, 404);
            assert!(body.contains("api_key_not_found"));
        }
        _ => unreachable!(),
    }
    let transport = Error::Transport { message: String::from("connection refused") };
    assert_ne!(transport, Error::Decode);
}
