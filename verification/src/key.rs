//! The key resource model: the server-authoritative `Key`, the client-side
//! `KeyBuilder`, the paginated `KeysQuery`, and the `KeysResults` envelope,
//! with the write-path wire serialization.
//!
//! Write path (create and update requests): field names are lower camelCase,
//! `actions` and `indexes` are omitted entirely when empty, the
//! server-managed `key`, `createdAt` and `updatedAt` are never sent, and
//! `expiresAt` stands in the body, as RFC 3339, only when an expiry is set.

use vstd::prelude::*;
use vstd::string::StringExecFns;

use crate::action::Action;
use crate::action::token_of;
use crate::codec::dec_of;
use crate::codec::dec_u64;
use crate::codec::json_string;
use crate::codec::push_char;
use crate::codec::write_json_string;
use crate::timestamp::Timestamp;
use crate::timestamp::rfc3339_of;
use crate::timestamp::spec_parse_timestamp;

verus! {

broadcast use vstd::string::group_string_axioms;

/// Mathematical model of a `Key`.
pub struct KeyView {
    pub actions: Seq<Action>,
    pub created_at: Timestamp,
    pub description: Option<Seq<char>>,
    pub name: Option<Seq<char>>,
    pub expires_at: Option<Timestamp>,
    pub indexes: Seq<Seq<char>>,
    pub key: Seq<char>,
    pub updated_at: Timestamp,
}

impl KeyView {
    /// Every timestamp lies in the range RFC 3339 can render.
    pub open spec fn wf(self) -> bool {
        &&& self.created_at.wf()
        &&& self.updated_at.wf()
        &&& (self.expires_at matches Some(e) ==> e.wf())
    }
}

/// A key resource as the service holds it. `key` is the secret token that
/// identifies the resource; `created_at` and `updated_at` are
/// server-assigned and never sent back.
#[derive(Debug, Clone, PartialEq)]
pub struct Key {
    pub actions: Vec<Action>,
    pub created_at: Timestamp,
    pub description: Option<String>,
    pub name: Option<String>,
    pub expires_at: Option<Timestamp>,
    pub indexes: Vec<String>,
    pub key: String,
    pub updated_at: Timestamp,
}

impl View for Key {
    type V = KeyView;

    open spec fn view(&self) -> KeyView {
        KeyView {
            actions: self.actions@,
            created_at: self.created_at,
            description: self.description.deep_view(),
            name: self.name.deep_view(),
            expires_at: self.expires_at,
            indexes: self.indexes.deep_view(),
            key: self.key@,
            updated_at: self.updated_at,
        }
    }
}

impl DeepView for Key {
    type V = KeyView;

    open spec fn deep_view(&self) -> KeyView {
        self.view()
    }
}

impl Key {
    pub open spec fn wf(self) -> bool {
        self@.wf()
    }

    /// Set the description, replacing any prior value.
    pub fn with_description(self, desc: &str) -> (r: Key)
        ensures
            r@ == (KeyView { description: Some(desc@), ..self@ }),
    {
        Key { description: Some(String::from_str(desc)), ..self }
    }

    /// Set the name, replacing any prior value.
    pub fn with_name(self, desc: &str) -> (r: Key)
        ensures
            r@ == (KeyView { name: Some(desc@), ..self@ }),
    {
        Key { name: Some(String::from_str(desc)), ..self }
    }

    /// The body of a partial-update request for this key: the write-path
    /// serialization; `key`, `createdAt` and `updatedAt` stay out.
    pub fn to_write_json(&self) -> (r: String)
        requires
            self.wf(),
        ensures
            r@ == key_write_json(self@),
    {
        let mut out = String::new();
        push_char(&mut out, '{');
        write_actions_segment(&mut out, &self.actions);
        out.append("\"description\":");
        write_opt_string(&mut out, &self.description);
        out.append(",\"name\":");
        write_opt_string(&mut out, &self.name);
        write_expires_segment(&mut out, &self.expires_at);
        write_indexes_segment(&mut out, &self.indexes);
        push_char(&mut out, '}');
        proof {
            assert(out@ =~= key_write_json(self@));
        }
        out
    }
}

/// Mathematical model of a `KeyBuilder`.
pub struct KeyBuilderView {
    pub actions: Seq<Action>,
    pub description: Option<Seq<char>>,
    pub expires_at: Option<Timestamp>,
    pub indexes: Seq<Seq<char>>,
}

impl KeyBuilderView {
    pub open spec fn wf(self) -> bool {
        self.expires_at matches Some(e) ==> e.wf()
    }
}

/// What a client sends to create a `Key`: a `Key` minus the server-managed
/// fields. Built by value-returning fluent mutators and submitted once.
#[derive(Debug, Clone, PartialEq)]
pub struct KeyBuilder {
    pub actions: Vec<Action>,
    pub description: Option<String>,
    pub expires_at: Option<Timestamp>,
    pub indexes: Vec<String>,
}

impl View for KeyBuilder {
    type V = KeyBuilderView;

    open spec fn view(&self) -> KeyBuilderView {
        KeyBuilderView {
            actions: self.actions@,
            description: self.description.deep_view(),
            expires_at: self.expires_at,
            indexes: self.indexes.deep_view(),
        }
    }
}

impl KeyBuilder {
    pub open spec fn wf(self) -> bool {
        self@.wf()
    }

    /// The zero-valued builder: no actions, no indexes, no description,
    /// no expiry.
    pub fn new() -> (r: KeyBuilder)
        ensures
            r@ == (KeyBuilderView {
                actions: Seq::<Action>::empty(),
                description: None,
                expires_at: None,
                indexes: Seq::<Seq<char>>::empty(),
            }),
    {
        let r = KeyBuilder {
            actions: Vec::new(),
            description: None,
            expires_at: None,
            indexes: Vec::new(),
        };
        proof {
            assert(r@.actions =~= Seq::<Action>::empty());
            assert(r@.indexes =~= Seq::<Seq<char>>::empty());
        }
        r
    }

    /// Append the given actions to the existing ones; duplicates are kept.
    pub fn with_actions(self, actions: Vec<Action>) -> (r: KeyBuilder)
        ensures
            r@ == (KeyBuilderView { actions: self@.actions + actions@, ..self@ }),
    {
        let mut this = self;
        let mut rest = actions;
        this.actions.append(&mut rest);
        this
    }

    /// Append one action; duplicates are kept.
    pub fn with_action(self, action: Action) -> (r: KeyBuilder)
        ensures
            r@ == (KeyBuilderView { actions: self@.actions.push(action), ..self@ }),
    {
        let mut this = self;
        this.actions.push(action);
        this
    }

    /// Set the expiry, replacing any prior value.
    pub fn with_expires_at(self, expires_at: Timestamp) -> (r: KeyBuilder)
        ensures
            r@ == (KeyBuilderView { expires_at: Some(expires_at), ..self@ }),
    {
        KeyBuilder { expires_at: Some(expires_at), ..self }
    }

    /// Replace the whole indexes sequence (unlike `with_actions`, which
    /// appends).
    pub fn with_indexes(self, indexes: Vec<String>) -> (r: KeyBuilder)
        ensures
            r@ == (KeyBuilderView { indexes: indexes.deep_view(), ..self@ }),
    {
        KeyBuilder { indexes, ..self }
    }

    /// Append one index pattern to the existing sequence.
    pub fn with_index(self, index: &str) -> (r: KeyBuilder)
        ensures
            r@ == (KeyBuilderView { indexes: self@.indexes.push(index@), ..self@ }),
    {
        let mut this = self;
        this.indexes.push(String::from_str(index));
        proof {
            assert(this@.indexes =~= self@.indexes.push(index@));
        }
        this
    }

    /// The body of the create request for this builder.
    pub fn to_create_json(&self) -> (r: String)
        requires
            self.wf(),
        ensures
            r@ == builder_write_json(self@),
    {
        let mut out = String::new();
        push_char(&mut out, '{');
        write_actions_segment(&mut out, &self.actions);
        out.append("\"description\":");
        write_opt_string(&mut out, &self.description);
        write_expires_segment(&mut out, &self.expires_at);
        write_indexes_segment(&mut out, &self.indexes);
        push_char(&mut out, '}');
        proof {
            assert(out@ =~= builder_write_json(self@));
        }
        out
    }
}

/// A paginated listing request: whichever of offset and limit are unset
/// stay out of the request, and the server applies its defaults.
#[derive(Debug, Clone, PartialEq, Eq)]
pub struct KeysQuery {
    pub offset: Option<usize>,
    pub limit: Option<usize>,
}

/// The query string a listing request carries: empty when neither field is
/// set, otherwise `?offset=…`, `?limit=…` or `?offset=…&limit=…`.
pub open spec fn query_string_of(offset: Option<usize>, limit: Option<usize>) -> Seq<char> {
    match (offset, limit) {
        (None, None) => Seq::<char>::empty(),
        (Some(o), None) => "?offset="@ + dec_of(o as int),
        (None, Some(l)) => "?limit="@ + dec_of(l as int),
        (Some(o), Some(l)) => "?offset="@ + dec_of(o as int) + "&limit="@ + dec_of(l as int),
    }
}

impl KeysQuery {
    /// A query with offset and limit unset.
    pub fn new() -> (r: KeysQuery)
        ensures
            r.offset is None,
            r.limit is None,
    {
        KeysQuery { offset: None, limit: None }
    }

    /// Set the skip-count, overwriting any previous value.
    pub fn with_offset(self, offset: usize) -> (r: KeysQuery)
        ensures
            r.offset == Some(offset),
            r.limit == self.limit,
    {
        KeysQuery { offset: Some(offset), ..self }
    }

    /// Set the page size, overwriting any previous value.
    pub fn with_limit(self, limit: usize) -> (r: KeysQuery)
        ensures
            r.limit == Some(limit),
            r.offset == self.offset,
    {
        KeysQuery { limit: Some(limit), ..self }
    }

    /// The query string of the request this query describes.
    pub fn to_query_string(&self) -> (r: String)
        ensures
            r@ == query_string_of(self.offset, self.limit),
    {
        let mut out = String::new();
        match (&self.offset, &self.limit) {
            (None, None) => {},
            (Some(o), None) => {
                out.append("?offset=");
                let d = dec_u64(*o as u64);
                out.append(d.as_str());
            },
            (None, Some(l)) => {
                out.append("?limit=");
                let d = dec_u64(*l as u64);
                out.append(d.as_str());
            },
            (Some(o), Some(l)) => {
                out.append("?offset=");
                let d = dec_u64(*o as u64);
                out.append(d.as_str());
                out.append("&limit=");
                let d2 = dec_u64(*l as u64);
                out.append(d2.as_str());
            },
        }
        proof {
            assert(out@ =~= query_string_of(self.offset, self.limit));
        }
        out
    }
}

/// Mathematical model of a `KeysResults` page.
pub struct KeysResultsView {
    pub results: Seq<KeyView>,
    pub limit: u32,
    pub offset: u32,
}

/// One page of keys with the limit and offset the server echoed back; a
/// read-only response envelope, never built by the client.
#[derive(Debug, Clone, PartialEq)]
pub struct KeysResults {
    pub results: Vec<Key>,
    pub limit: u32,
    pub offset: u32,
}

impl View for KeysResults {
    type V = KeysResultsView;

    open spec fn view(&self) -> KeysResultsView {
        KeysResultsView { results: self.results.deep_view(), limit: self.limit, offset: self.offset }
    }
}

// ---- write-path serialization ----------------------------------------

/// The action array items from index `i` on, comma separated.
pub open spec fn action_items_from(acts: Seq<Action>, i: int) -> Seq<char>
    decreases acts.len() - i,
{
    if i < 0 || i >= acts.len() {
        Seq::<char>::empty()
    } else if i == acts.len() - 1 {
        json_string(token_of(acts[i]))
    } else {
        json_string(token_of(acts[i])) + seq![','] + action_items_from(acts, i + 1)
    }
}

/// A JSON array of action tokens.
pub open spec fn action_array_json(acts: Seq<Action>) -> Seq<char> {
    seq!['['] + action_items_from(acts, 0) + seq![']']
}

/// The string array items from index `i` on, comma separated.
pub open spec fn string_items_from(items: Seq<Seq<char>>, i: int) -> Seq<char>
    decreases items.len() - i,
{
    if i < 0 || i >= items.len() {
        Seq::<char>::empty()
    } else if i == items.len() - 1 {
        json_string(items[i])
    } else {
        json_string(items[i]) + seq![','] + string_items_from(items, i + 1)
    }
}

/// A JSON array of strings.
pub open spec fn string_array_json(items: Seq<Seq<char>>) -> Seq<char> {
    seq!['['] + string_items_from(items, 0) + seq![']']
}

/// An optional string field value: `null` or a JSON string.
pub open spec fn opt_string_json(o: Option<Seq<char>>) -> Seq<char> {
    match o {
        None => "null"@,
        Some(s) => json_string(s),
    }
}

/// A timestamp field value: its RFC 3339 rendering as a JSON string.
pub open spec fn ts_json(t: Timestamp) -> Seq<char> {
    json_string(rfc3339_of(t.unix_seconds))
}

/// An optional timestamp field value: `null` or RFC 3339.
pub open spec fn opt_ts_json(o: Option<Timestamp>) -> Seq<char> {
    match o {
        None => "null"@,
        Some(t) => ts_json(t),
    }
}

/// The leading `actions` member with its trailing comma; empty sequences
/// are omitted from the payload entirely.
pub open spec fn actions_segment(acts: Seq<Action>) -> Seq<char> {
    if acts.len() == 0 {
        Seq::<char>::empty()
    } else {
        "\"actions\":"@ + action_array_json(acts) + seq![',']
    }
}

/// The `indexes` member with its leading comma; empty sequences are
/// omitted from the payload entirely.
pub open spec fn indexes_segment(items: Seq<Seq<char>>) -> Seq<char> {
    if items.len() == 0 {
        Seq::<char>::empty()
    } else {
        ",\"indexes\":"@ + string_array_json(items)
    }
}

/// The `expiresAt` member with its leading comma; on the write path it is
/// included only when an expiry is present.
pub open spec fn expires_segment(o: Option<Timestamp>) -> Seq<char> {
    match o {
        None => Seq::<char>::empty(),
        Some(t) => ",\"expiresAt\":"@ + ts_json(t),
    }
}

/// The write-path body of a `Key`: what a partial-update request carries.
/// Empty `actions`/`indexes` are absent; `key`, `createdAt` and
/// `updatedAt` never appear.
pub open spec fn key_write_json(v: KeyView) -> Seq<char> {
    seq!['{'] + actions_segment(v.actions) + "\"description\":"@ + opt_string_json(v.description)
        + ",\"name\":"@ + opt_string_json(v.name) + expires_segment(v.expires_at)
        + indexes_segment(v.indexes) + seq!['}']
}

/// The write-path body of a `KeyBuilder`: what a create request carries.
pub open spec fn builder_write_json(v: KeyBuilderView) -> Seq<char> {
    seq!['{'] + actions_segment(v.actions) + "\"description\":"@ + opt_string_json(v.description)
        + expires_segment(v.expires_at) + indexes_segment(v.indexes) + seq!['}']
}

/// The canonical rendering the service sends for a key: the read-path
/// shape, which also carries `createdAt`, `updatedAt` and `key`.
pub open spec fn key_read_json(v: KeyView) -> Seq<char> {
    seq!['{'] + (actions_segment(v.actions) + ("\"createdAt\":"@ + (ts_json(v.created_at)
        + (",\"description\":"@ + (opt_string_json(v.description) + (",\"name\":"@
        + (opt_string_json(v.name) + (",\"expiresAt\":"@ + (opt_ts_json(v.expires_at)
        + (indexes_segment(v.indexes) + (",\"key\":"@ + (json_string(v.key)
        + (",\"updatedAt\":"@ + (ts_json(v.updated_at) + seq!['}']))))))))))))))
}

/// Law: a write-path payload with no actions and no indexes carries only
/// the always-present members -- the empty sequences are absent rather than
/// serialized as empty arrays -- and with no expiry set the `expiresAt`
/// member is absent too, not `null`.
pub proof fn lemma_write_omits_empty(v: KeyView)
    requires
        v.actions.len() == 0,
        v.indexes.len() == 0,
    ensures
        key_write_json(v) == seq!['{'] + "\"description\":"@ + opt_string_json(v.description)
            + ",\"name\":"@ + opt_string_json(v.name) + expires_segment(v.expires_at)
            + seq!['}'],
        v.expires_at is None ==> key_write_json(v) == seq!['{'] + "\"description\":"@
            + opt_string_json(v.description) + ",\"name\":"@ + opt_string_json(v.name)
            + seq!['}'],
{
    assert(key_write_json(v) =~= seq!['{'] + "\"description\":"@ + opt_string_json(v.description)
        + ",\"name\":"@ + opt_string_json(v.name) + expires_segment(v.expires_at) + seq!['}']);
    if v.expires_at is None {
        assert(key_write_json(v) =~= seq!['{'] + "\"description\":"@ + opt_string_json(
            v.description,
        ) + ",\"name\":"@ + opt_string_json(v.name) + seq!['}']);
    }
}

pub(crate) fn write_opt_string(out: &mut String, o: &Option<String>)
    ensures
        final(out)@ == old(out)@ + opt_string_json(o.deep_view()),
{
    match o {
        None => {
            out.append("null");
        },
        Some(s) => {
            write_json_string(out, s.as_str());
        },
    }
}

pub(crate) fn write_ts(out: &mut String, t: &Timestamp)
    requires
        t.wf(),
    ensures
        final(out)@ == old(out)@ + ts_json(*t),
        spec_parse_timestamp(rfc3339_of(t.unix_seconds)) == Some(*t),
{
    let f = t.to_rfc3339();
    write_json_string(out, f.as_str());
}

pub(crate) fn write_opt_ts(out: &mut String, o: &Option<Timestamp>)
    requires
        o matches Some(t) ==> t.wf(),
    ensures
        final(out)@ == old(out)@ + opt_ts_json(o.deep_view()),
        o matches Some(t) ==> spec_parse_timestamp(rfc3339_of(t.unix_seconds)) == Some(*t),
{
    match o {
        None => {
            out.append("null");
        },
        Some(t) => {
            write_ts(out, t);
        },
    }
}

pub(crate) fn write_expires_segment(out: &mut String, o: &Option<Timestamp>)
    requires
        o matches Some(t) ==> t.wf(),
    ensures
        final(out)@ == old(out)@ + expires_segment(*o),
{
    match o {
        None => {},
        Some(t) => {
            out.append(",\"expiresAt\":");
            write_ts(out, t);
            proof {
                assert(out@ =~= old(out)@ + expires_segment(*o));
            }
        },
    }
}

fn write_action_items(out: &mut String, acts: &Vec<Action>, i: usize)
    requires
        i <= acts@.len(),
    ensures
        final(out)@ == old(out)@ + action_items_from(acts@, i as int),
    decreases acts@.len() - i,
{
    if i < acts.len() {
        let tok = acts[i].to_token();
        write_json_string(out, tok.as_str());
        if i + 1 < acts.len() {
            push_char(out, ',');
            write_action_items(out, acts, i + 1);
            proof {
                assert(out@ =~= old(out)@ + action_items_from(acts@, i as int));
            }
        }
    }
}

fn write_string_items(out: &mut String, items: &Vec<String>, i: usize)
    requires
        i <= items@.len(),
    ensures
        final(out)@ == old(out)@ + string_items_from(items.deep_view(), i as int),
    decreases items@.len() - i,
{
    if i < items.len() {
        proof {
            assert(items.deep_view()[i as int] == items@[i as int]@);
        }
        write_json_string(out, items[i].as_str());
        if i + 1 < items.len() {
            push_char(out, ',');
            write_string_items(out, items, i + 1);
            proof {
                assert(out@ =~= old(out)@ + string_items_from(items.deep_view(), i as int));
            }
        }
    }
}

pub(crate) fn write_actions_segment(out: &mut String, acts: &Vec<Action>)
    ensures
        final(out)@ == old(out)@ + actions_segment(acts@),
{
    if acts.len() > 0 {
        out.append("\"actions\":");
        push_char(out, '[');
        write_action_items(out, acts, 0);
        push_char(out, ']');
        push_char(out, ',');
        proof {
            assert(out@ =~= old(out)@ + actions_segment(acts@));
        }
    } else {
        proof {
            assert(out@ =~= old(out)@ + actions_segment(acts@));
        }
    }
}

pub(crate) fn write_indexes_segment(out: &mut String, items: &Vec<String>)
    ensures
        final(out)@ == old(out)@ + indexes_segment(items.deep_view()),
{
    if items.len() > 0 {
        out.append(",\"indexes\":");
        push_char(out, '[');
        write_string_items(out, items, 0);
        push_char(out, ']');
        proof {
            assert(items.deep_view().len() == items@.len());
            assert(out@ =~= old(out)@ + indexes_segment(items.deep_view()));
        }
    } else {
        proof {
            assert(items.deep_view().len() == items@.len());
            assert(out@ =~= old(out)@ + indexes_segment(items.deep_view()));
        }
    }
}

} // verus!
