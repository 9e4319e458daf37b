use meili_keys::action::Action;
use meili_keys::key::{Key, KeyBuilder, KeysQuery};
use meili_keys::parse::{parse_key, parse_keys_results};
use meili_keys::timestamp::Timestamp;

#[test]
fn new_builder_is_zero_valued() {
    let b = KeyBuilder::new();
    assert!(b.actions.is_empty());
    assert!(b.indexes.is_empty());
    assert_eq!(b.description, None);
    assert_eq!(b.expires_at, None);
}

#[test]
fn with_indexes_replaces_prior_contents() {
    let b = KeyBuilder::new()
        .with_indexes(vec![String::from("a"), String::from("b")])
        .with_indexes(vec![String::from("c")]);
    assert_eq!(b.indexes, vec![String::from("c")]);
}

#[test]
fn with_index_appends_to_prior_contents() {
    let b = KeyBuilder::new()
        .with_indexes(vec![String::from("a"), String::from("b")])
        .with_index("x");
    assert_eq!(
        b.indexes,
        vec![String::from("a"), String::from("b"), String::from("x")]
    );
}

#[test]
fn with_action_appends_without_deduplicating() {
    let b = KeyBuilder::new()
        .with_action(Action::Search)
        .with_action(Action::Search);
    assert_eq!(b.actions, vec![Action::Search, Action::Search]);
}

#[test]
fn with_actions_appends_to_prior_contents() {
    let b = KeyBuilder::new()
        .with_action(Action::Search)
        .with_actions(vec![Action::DocumentsAdd, Action::Search]);
    assert_eq!(
        b.actions,
        vec![Action::Search, Action::DocumentsAdd, Action::Search]
    );
}

#[test]
fn with_expires_at_replaces_the_prior_value() {
    let b = KeyBuilder::new()
        .with_expires_at(Timestamp { unix_seconds: 1 })
        .with_expires_at(Timestamp { unix_seconds: 2 });
    assert_eq!(b.expires_at, Some(Timestamp { unix_seconds: 2 }));
}

#[test]
fn query_mutators_overwrite_previous_values() {
    let q = KeysQuery::new().with_offset(3).with_offset(5).with_limit(9);
    assert_eq!(q.offset, Some(5));
    assert_eq!(q.limit, Some(9));
}

/// A stand-in for the service: it answers a create request with the key it
/// minted for the submitted builder.
fn fake_create(body: &str, minted: &Key) -> String {
    assert!(body.starts_with('{'));
    minted.to_server_json()
}

#[test]
fn submitted_builder_comes_back_as_a_full_key() {
    let builder = KeyBuilder::new().with_action(Action::Search).with_index("*");
    let body = builder.to_create_json();
    let minted = Key {
        actions: builder.actions.clone(),
        created_at: Timestamp { unix_seconds: 1609459200 },
        description: None,
        name: None,
        expires_at: None,
        indexes: builder.indexes.clone(),
        key: String::from("generated-secret-token"),
        updated_at: Timestamp { unix_seconds: 1609459200 },
    };
    let response = fake_create(body.as_str(), &minted);
    let key = parse_key(response.as_str()).unwrap();
    assert_eq!(key.actions, vec![Action::Search]);
    assert_eq!(key.indexes, vec![String::from("*")]);
    assert!(!key.key.is_empty());
    assert_eq!(key.created_at, Timestamp { unix_seconds: 1609459200 });
    assert_eq!(key.updated_at, Timestamp { unix_seconds: 1609459200 });
    assert_eq!(key.expires_at, None);
}

#[test]
fn updating_a_description_returns_the_new_state_with_a_later_updated_at() {
    let original = Key {
        actions: vec![Action::Search],
        created_at: Timestamp { unix_seconds: 1609459200 },
        description: Some(String::from("A")),
        name: None,
        expires_at: None,
        indexes: vec![String::from("*")],
        key: String::from("abc"),
        updated_at: Timestamp { unix_seconds: 1609459200 },
    };
    let changed = original.clone().with_description("B");
    let body = changed.to_write_json();
    assert!(body.contains("\"description\":\"B\""));
    // The service applies the patch and refreshes updatedAt.
    let after_update = Key { updated_at: Timestamp { unix_seconds: 1609459260 }, ..changed };
    let response = after_update.to_server_json();
    let fresh = parse_key(response.as_str()).unwrap();
    assert_eq!(fresh.description, Some(String::from("B")));
    assert!(fresh.updated_at.unix_seconds > original.updated_at.unix_seconds);
}

#[test]
fn listing_with_offset_and_limit_returns_the_requested_page() {
    // A server holding 5 keys answers offset=1, limit=2 with two of them.
    let q = KeysQuery::new().with_offset(1).with_limit(2);
    assert_eq!(q.to_query_string(), "?offset=1&limit=2");
    let k1 = Key {
        actions: vec![Action::Search],
        created_at: Timestamp { unix_seconds: 0 },
        description: None,
        name: Some(String::from("second")),
        expires_at: None,
        indexes: Vec::new(),
        key: String::from("key-1"),
        updated_at: Timestamp { unix_seconds: 0 },
    };
    let k2 = Key {
        actions: Vec::new(),
        created_at: Timestamp { unix_seconds: 5 },
        description: None,
        name: Some(String::from("third")),
        expires_at: Some(Timestamp { unix_seconds: 100 }),
        indexes: vec![String::from("movies")],
        key: String::from("key-2"),
        updated_at: Timestamp { unix_seconds: 7 },
    };
    let response = format!(
        "{{\"results\":[{},{}],\"limit\":2,\"offset\":1}}",
        k1.to_server_json(),
        k2.to_server_json()
    );
    let page = parse_keys_results(response.as_str()).unwrap();
    assert_eq!(page.results.len(), 2);
    assert_eq!(page.limit, 2);
    assert_eq!(page.offset, 1);
    assert_eq!(page.results[0], k1);
    assert_eq!(page.results[1], k2);
}

#[test]
fn listing_an_empty_page_parses() {
    let page = parse_keys_results("{\"results\":[],\"limit\":20,\"offset\":0}").unwrap();
    assert!(page.results.is_empty());
    assert_eq!(page.limit, 20);
    assert_eq!(page.offset, 0);
}
