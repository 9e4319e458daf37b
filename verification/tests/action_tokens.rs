use meili_keys::action::Action;

const ALL_ACTIONS: [Action; 16] = [
    Action::All,
    Action::Search,
    Action::DocumentsAdd,
    Action::DocumentsGet,
    Action::DocumentsDelete,
    Action::IndexesCreate,
    Action::IndexesGet,
    Action::IndexesUpdate,
    Action::IndexesDelete,
    Action::TasksGet,
    Action::SettingsGet,
    Action::SettingsUpdate,
    Action::StatsGet,
    Action::DumpsCreate,
    Action::DumpsGet,
    Action::Version,
];

#[test]
fn action_tokens_are_the_wire_table() {
    assert_eq!(Action::All.to_token(), "*");
    assert_eq!(Action::Search.to_token(), "search");
    assert_eq!(Action::DocumentsAdd.to_token(), "documents.add");
    assert_eq!(Action::DocumentsGet.to_token(), "documents.get");
    assert_eq!(Action::DocumentsDelete.to_token(), "documents.delete");
    assert_eq!(Action::IndexesCreate.to_token(), "indexes.create");
    assert_eq!(Action::IndexesGet.to_token(), "indexes.get");
    assert_eq!(Action::IndexesUpdate.to_token(), "indexes.update");
    assert_eq!(Action::IndexesDelete.to_token(), "indexes.delete");
    assert_eq!(Action::TasksGet.to_token(), "tasks.get");
    assert_eq!(Action::SettingsGet.to_token(), "settings.get");
    assert_eq!(Action::SettingsUpdate.to_token(), "settings.update");
    assert_eq!(Action::StatsGet.to_token(), "stats.get");
    assert_eq!(Action::DumpsCreate.to_token(), "dumps.create");
    assert_eq!(Action::DumpsGet.to_token(), "dumps.get");
    assert_eq!(Action::Version.to_token(), "version");
}

#[test]
fn action_encode_then_decode_is_identity() {
    for a in ALL_ACTIONS {
        let tok = a.to_token();
        assert_eq!(Action::from_token(tok.as_str()), Some(a));
    }
}

#[test]
fn unknown_action_tokens_fail_to_decode() {
    assert_eq!(Action::from_token("frobnicate"), None);
    assert_eq!(Action::from_token(""), None);
    assert_eq!(Action::from_token("Search"), None);
    assert_eq!(Action::from_token("documents.add "), None);
    assert_eq!(Action::from_token("**"), None);
}
