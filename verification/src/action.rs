//! The closed enumeration of permission scopes a key may grant, with its
//! fixed bidirectional mapping to wire-format string tokens.

use vstd::prelude::*;
use vstd::string::StringExecFns;

verus! {

broadcast use vstd::string::group_string_axioms;

/// One permission scope a key may grant. The enumeration is closed: an
/// unrecognized wire token fails decoding instead of mapping to a catch-all.
#[derive(Debug, Copy, Clone, Eq, PartialEq, Structural)]
pub enum Action {
    /// Access to everything.
    All,
    /// Access to the search endpoints on authorized indexes.
    Search,
    /// Access to the add/update documents endpoints on authorized indexes.
    DocumentsAdd,
    /// Access to the get document(s) endpoints on authorized indexes.
    DocumentsGet,
    /// Access to the delete document(s) endpoints on authorized indexes.
    DocumentsDelete,
    /// Access to the create index endpoint.
    IndexesCreate,
    /// Access to the get/list index endpoints.
    IndexesGet,
    /// Access to the update index endpoint.
    IndexesUpdate,
    /// Access to the delete index endpoint.
    IndexesDelete,
    /// Access to the get task(s) endpoints.
    TasksGet,
    /// Access to the get settings endpoints on authorized indexes.
    SettingsGet,
    /// Access to the update/reset settings endpoints on authorized indexes.
    SettingsUpdate,
    /// Access to the stats endpoints.
    StatsGet,
    /// Access to the create dump endpoint.
    DumpsCreate,
    /// Access to the get dump status endpoint.
    DumpsGet,
    /// Access to the service version endpoint.
    Version,
}

/// The fixed wire token of each action.
pub open spec fn token_of(a: Action) -> Seq<char> {
    match a {
        Action::All => "*"@,
        Action::Search => "search"@,
        Action::DocumentsAdd => "documents.add"@,
        Action::DocumentsGet => "documents.get"@,
        Action::DocumentsDelete => "documents.delete"@,
        Action::IndexesCreate => "indexes.create"@,
        Action::IndexesGet => "indexes.get"@,
        Action::IndexesUpdate => "indexes.update"@,
        Action::IndexesDelete => "indexes.delete"@,
        Action::TasksGet => "tasks.get"@,
        Action::SettingsGet => "settings.get"@,
        Action::SettingsUpdate => "settings.update"@,
        Action::StatsGet => "stats.get"@,
        Action::DumpsCreate => "dumps.create"@,
        Action::DumpsGet => "dumps.get"@,
        Action::Version => "version"@,
    }
}

/// The action a wire token decodes to; `None` for every unknown token.
pub open spec fn action_of_token(s: Seq<char>) -> Option<Action> {
    if s == "*"@ {
        Some(Action::All)
    } else if s == "search"@ {
        Some(Action::Search)
    } else if s == "documents.add"@ {
        Some(Action::DocumentsAdd)
    } else if s == "documents.get"@ {
        Some(Action::DocumentsGet)
    } else if s == "documents.delete"@ {
        Some(Action::DocumentsDelete)
    } else if s == "indexes.create"@ {
        Some(Action::IndexesCreate)
    } else if s == "indexes.get"@ {
        Some(Action::IndexesGet)
    } else if s == "indexes.update"@ {
        Some(Action::IndexesUpdate)
    } else if s == "indexes.delete"@ {
        Some(Action::IndexesDelete)
    } else if s == "tasks.get"@ {
        Some(Action::TasksGet)
    } else if s == "settings.get"@ {
        Some(Action::SettingsGet)
    } else if s == "settings.update"@ {
        Some(Action::SettingsUpdate)
    } else if s == "stats.get"@ {
        Some(Action::StatsGet)
    } else if s == "dumps.create"@ {
        Some(Action::DumpsCreate)
    } else if s == "dumps.get"@ {
        Some(Action::DumpsGet)
    } else if s == "version"@ {
        Some(Action::Version)
    } else {
        None
    }
}

/// String equality by contents.
pub fn str_eq(a: &str, b: &str) -> (r: bool)
    ensures
        r == (a@ == b@),
{
    let sa = String::from_str(a);
    let sb = String::from_str(b);
    sa == sb
}

impl Action {
    /// Encode the action as its wire token.
    pub fn to_token(&self) -> (r: String)
        ensures
            r@ == token_of(*self),
    {
        match self {
            Action::All => String::from_str("*"),
            Action::Search => String::from_str("search"),
            Action::DocumentsAdd => String::from_str("documents.add"),
            Action::DocumentsGet => String::from_str("documents.get"),
            Action::DocumentsDelete => String::from_str("documents.delete"),
            Action::IndexesCreate => String::from_str("indexes.create"),
            Action::IndexesGet => String::from_str("indexes.get"),
            Action::IndexesUpdate => String::from_str("indexes.update"),
            Action::IndexesDelete => String::from_str("indexes.delete"),
            Action::TasksGet => String::from_str("tasks.get"),
            Action::SettingsGet => String::from_str("settings.get"),
            Action::SettingsUpdate => String::from_str("settings.update"),
            Action::StatsGet => String::from_str("stats.get"),
            Action::DumpsCreate => String::from_str("dumps.create"),
            Action::DumpsGet => String::from_str("dumps.get"),
            Action::Version => String::from_str("version"),
        }
    }

    /// Decode a wire token; unknown tokens fail.
    pub fn from_token(s: &str) -> (r: Option<Action>)
        ensures
            r == action_of_token(s@),
    {
        if str_eq(s, "*") {
            Some(Action::All)
        } else if str_eq(s, "search") {
            Some(Action::Search)
        } else if str_eq(s, "documents.add") {
            Some(Action::DocumentsAdd)
        } else if str_eq(s, "documents.get") {
            Some(Action::DocumentsGet)
        } else if str_eq(s, "documents.delete") {
            Some(Action::DocumentsDelete)
        } else if str_eq(s, "indexes.create") {
            Some(Action::IndexesCreate)
        } else if str_eq(s, "indexes.get") {
            Some(Action::IndexesGet)
        } else if str_eq(s, "indexes.update") {
            Some(Action::IndexesUpdate)
        } else if str_eq(s, "indexes.delete") {
            Some(Action::IndexesDelete)
        } else if str_eq(s, "tasks.get") {
            Some(Action::TasksGet)
        } else if str_eq(s, "settings.get") {
            Some(Action::SettingsGet)
        } else if str_eq(s, "settings.update") {
            Some(Action::SettingsUpdate)
        } else if str_eq(s, "stats.get") {
            Some(Action::StatsGet)
        } else if str_eq(s, "dumps.create") {
            Some(Action::DumpsCreate)
        } else if str_eq(s, "dumps.get") {
            Some(Action::DumpsGet)
        } else if str_eq(s, "version") {
            Some(Action::Version)
        } else {
            None
        }
    }
}

/// Law: only the sixteen table tokens decode; on every other string the
/// decoder fails. (Whenever decoding succeeds, the input was the encoding
/// of the decoded action.)
pub proof fn lemma_only_known_tokens_decode(s: Seq<char>)
    ensures
        action_of_token(s) matches Some(a) ==> s == token_of(a),
{
}

/// Law: encode-then-decode is the identity on every action.
pub proof fn lemma_action_token_round_trip(a: Action)
    ensures
        action_of_token(token_of(a)) == Some(a),
{
    reveal_strlit("*");
    reveal_strlit("search");
    reveal_strlit("documents.add");
    reveal_strlit("documents.get");
    reveal_strlit("documents.delete");
    reveal_strlit("indexes.create");
    reveal_strlit("indexes.get");
    reveal_strlit("indexes.update");
    reveal_strlit("indexes.delete");
    reveal_strlit("tasks.get");
    reveal_strlit("settings.get");
    reveal_strlit("settings.update");
    reveal_strlit("stats.get");
    reveal_strlit("dumps.create");
    reveal_strlit("dumps.get");
    reveal_strlit("version");
    assert("*"@.len() == 1);
    assert("search"@.len() == 6);
    assert("documents.add"@.len() == 13);
    assert("documents.get"@.len() == 13);
    assert("documents.delete"@.len() == 16);
    assert("indexes.create"@.len() == 14);
    assert("indexes.get"@.len() == 11);
    assert("indexes.update"@.len() == 14);
    assert("indexes.delete"@.len() == 14);
    assert("tasks.get"@.len() == 9);
    assert("settings.get"@.len() == 12);
    assert("settings.update"@.len() == 15);
    assert("stats.get"@.len() == 9);
    assert("dumps.create"@.len() == 12);
    assert("dumps.get"@.len() == 9);
    assert("version"@.len() == 7);
    assert("documents.add"@[10] == 'a');
    assert("documents.get"@[10] == 'g');
    assert("indexes.create"@[8] == 'c');
    assert("indexes.update"@[8] == 'u');
    assert("indexes.delete"@[8] == 'd');
    assert("tasks.get"@[0] == 't');
    assert("stats.get"@[0] == 's');
    assert("dumps.get"@[0] == 'd');
    assert("settings.get"@[0] == 's');
    assert("dumps.create"@[0] == 'd');
    match a {
        Action::All => assert(action_of_token(token_of(a)) == Some(Action::All)),
        Action::Search => assert(action_of_token(token_of(a)) == Some(Action::Search)),
        Action::DocumentsAdd => assert(action_of_token(token_of(a)) == Some(Action::DocumentsAdd)),
        Action::DocumentsGet => assert(action_of_token(token_of(a)) == Some(Action::DocumentsGet)),
        Action::DocumentsDelete => assert(action_of_token(token_of(a)) == Some(
            Action::DocumentsDelete,
        )),
        Action::IndexesCreate => assert(action_of_token(token_of(a)) == Some(
            Action::IndexesCreate,
        )),
        Action::IndexesGet => assert(action_of_token(token_of(a)) == Some(Action::IndexesGet)),
        Action::IndexesUpdate => assert(action_of_token(token_of(a)) == Some(
            Action::IndexesUpdate,
        )),
        Action::IndexesDelete => assert(action_of_token(token_of(a)) == Some(
            Action::IndexesDelete,
        )),
        Action::TasksGet => assert(action_of_token(token_of(a)) == Some(Action::TasksGet)),
        Action::SettingsGet => assert(action_of_token(token_of(a)) == Some(Action::SettingsGet)),
        Action::SettingsUpdate => assert(action_of_token(token_of(a)) == Some(
            Action::SettingsUpdate,
        )),
        Action::StatsGet => assert(action_of_token(token_of(a)) == Some(Action::StatsGet)),
        Action::DumpsCreate => assert(action_of_token(token_of(a)) == Some(Action::DumpsCreate)),
        Action::DumpsGet => assert(action_of_token(token_of(a)) == Some(Action::DumpsGet)),
        Action::Version => assert(action_of_token(token_of(a)) == Some(Action::Version)),
    }
}

} // verus!
