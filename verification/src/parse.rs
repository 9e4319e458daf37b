//! The read-path wire codec: parsing the canonical server rendering of a
//! `Key` and of a `KeysResults` page.
//!
//! Read path: the server always supplies `key`, `createdAt` and `updatedAt`;
//! `expiresAt` may be `null` or absent, meaning non-expiring; a payload
//! lacking `actions` or `indexes` decodes to empty sequences rather than an
//! error.

use vstd::prelude::*;
use vstd::string::StrSliceExecFns;
use vstd::string::StringExecFns;

use crate::action::Action;
use crate::action::action_of_token;
use crate::action::lemma_action_token_round_trip;
use crate::action::token_of;
use crate::codec::escape;
use crate::codec::push_char;
use crate::codec::write_json_string;
use crate::codec::json_string;
use crate::codec::lemma_scan_escaped;
use crate::codec::lit_at;
use crate::codec::parse_u32;
use crate::codec::scan_string;
use crate::codec::spec_parse_u32;
use crate::codec::spec_scan;
use crate::codec::try_lit;
use crate::error::Error;
use crate::key::Key;
use crate::key::write_actions_segment;
use crate::key::write_indexes_segment;
use crate::key::write_opt_string;
use crate::key::write_opt_ts;
use crate::key::write_ts;
use crate::key::KeyView;
use crate::key::KeysResults;
use crate::key::KeysResultsView;
use crate::key::action_array_json;
use crate::key::action_items_from;
use crate::key::actions_segment;
use crate::key::indexes_segment;
use crate::key::key_read_json;
use crate::key::opt_string_json;
use crate::key::opt_ts_json;
use crate::key::string_array_json;
use crate::key::string_items_from;
use crate::key::ts_json;
use crate::timestamp::Timestamp;
use crate::timestamp::parse_timestamp;
use crate::timestamp::rfc3339_of;
use crate::timestamp::spec_parse_timestamp;

verus! {

broadcast use vstd::string::group_string_axioms;

// ---- spec-level parsers ------------------------------------------------

/// Bound on a scan result: it always advances and stays within the text.
pub proof fn lemma_scan_bounds(s: Seq<char>, pos: int)
    ensures
        spec_scan(s, pos) matches Some(p) ==> pos + 1 <= p.1 <= s.len(),
    decreases s.len() - pos,
{
    if 0 <= pos < s.len() {
        if s[pos] == '"' {
        } else if s[pos] == '\\' {
            if pos + 1 < s.len() {
                lemma_scan_bounds(s, pos + 2);
            }
        } else {
            lemma_scan_bounds(s, pos + 1);
        }
    }
}

/// A JSON string value: an opening quote, then a scanned body.
pub open spec fn spec_parse_string_value(s: Seq<char>, pos: int) -> Option<(Seq<char>, int)> {
    if lit_at(s, pos, "\""@) {
        spec_scan(s, pos + "\""@.len())
    } else {
        None
    }
}

pub proof fn lemma_string_value_bounds(s: Seq<char>, pos: int)
    ensures
        spec_parse_string_value(s, pos) matches Some(p) ==> pos + 1 <= p.1 <= s.len(),
{
    lemma_scan_bounds(s, pos + "\""@.len());
}

/// An optional string value: `null`, or a JSON string.
pub open spec fn spec_parse_opt_string(s: Seq<char>, pos: int) -> Option<
    (Option<Seq<char>>, int),
> {
    if lit_at(s, pos, "null"@) {
        Some((None, pos + "null"@.len()))
    } else {
        match spec_parse_string_value(s, pos) {
            Some(p) => Some((Some(p.0), p.1)),
            None => None,
        }
    }
}

/// A timestamp value: a JSON string holding RFC 3339 in the library's range.
pub open spec fn spec_parse_ts_value(s: Seq<char>, pos: int) -> Option<(Timestamp, int)> {
    match spec_parse_string_value(s, pos) {
        Some(p) => match spec_parse_timestamp(p.0) {
            Some(t) => Some((t, p.1)),
            None => None,
        },
        None => None,
    }
}

/// An optional timestamp value: `null`, or a timestamp.
pub open spec fn spec_parse_opt_ts(s: Seq<char>, pos: int) -> Option<(Option<Timestamp>, int)> {
    if lit_at(s, pos, "null"@) {
        Some((None, pos + "null"@.len()))
    } else {
        match spec_parse_ts_value(s, pos) {
            Some(p) => Some((Some(p.0), p.1)),
            None => None,
        }
    }
}

/// One or more comma-separated action tokens, ending at `]`.
pub open spec fn spec_parse_action_items(s: Seq<char>, pos: int) -> Option<(Seq<Action>, int)>
    decreases s.len() - pos,
    via spec_parse_action_items_dec
{
    match spec_parse_string_value(s, pos) {
        None => None,
        Some(p) => match action_of_token(p.0) {
            None => None,
            Some(a) => if lit_at(s, p.1, ","@) {
                match spec_parse_action_items(s, p.1 + ","@.len()) {
                    Some(q) => Some((seq![a] + q.0, q.1)),
                    None => None,
                }
            } else if lit_at(s, p.1, "]"@) {
                Some((seq![a], p.1 + "]"@.len()))
            } else {
                None
            },
        },
    }
}

#[via_fn]
proof fn spec_parse_action_items_dec(s: Seq<char>, pos: int) {
    lemma_string_value_bounds(s, pos);
}

/// A whole action array, `[` through `]`; `[]` is the empty sequence.
pub open spec fn spec_parse_action_array(s: Seq<char>, pos: int) -> Option<(Seq<Action>, int)> {
    if !lit_at(s, pos, "["@) {
        None
    } else if lit_at(s, pos + "["@.len(), "]"@) {
        Some((Seq::<Action>::empty(), pos + "["@.len() + "]"@.len()))
    } else {
        spec_parse_action_items(s, pos + "["@.len())
    }
}

/// One or more comma-separated strings, ending at `]`.
pub open spec fn spec_parse_string_items(s: Seq<char>, pos: int) -> Option<(Seq<Seq<char>>, int)>
    decreases s.len() - pos,
    via spec_parse_string_items_dec
{
    match spec_parse_string_value(s, pos) {
        None => None,
        Some(p) => if lit_at(s, p.1, ","@) {
            match spec_parse_string_items(s, p.1 + ","@.len()) {
                Some(q) => Some((seq![p.0] + q.0, q.1)),
                None => None,
            }
        } else if lit_at(s, p.1, "]"@) {
            Some((seq![p.0], p.1 + "]"@.len()))
        } else {
            None
        },
    }
}

#[via_fn]
proof fn spec_parse_string_items_dec(s: Seq<char>, pos: int) {
    lemma_string_value_bounds(s, pos);
}

/// A whole string array, `[` through `]`; `[]` is the empty sequence.
pub open spec fn spec_parse_string_array(s: Seq<char>, pos: int) -> Option<(Seq<Seq<char>>, int)> {
    if !lit_at(s, pos, "["@) {
        None
    } else if lit_at(s, pos + "["@.len(), "]"@) {
        Some((Seq::<Seq<char>>::empty(), pos + "["@.len() + "]"@.len()))
    } else {
        spec_parse_string_items(s, pos + "["@.len())
    }
}

/// The optional leading `actions` member (with its trailing comma); absent
/// means the empty sequence.
pub open spec fn spec_parse_actions_field(s: Seq<char>, pos: int) -> Option<(Seq<Action>, int)> {
    if lit_at(s, pos, "\"actions\":"@) {
        match spec_parse_action_array(s, pos + "\"actions\":"@.len()) {
            Some(p) => if lit_at(s, p.1, ","@) {
                Some((p.0, p.1 + ","@.len()))
            } else {
                None
            },
            None => None,
        }
    } else {
        Some((Seq::<Action>::empty(), pos))
    }
}

/// The optional `indexes` member (with its leading comma); absent means the
/// empty sequence.
pub open spec fn spec_parse_indexes_field(s: Seq<char>, pos: int) -> Option<
    (Seq<Seq<char>>, int),
> {
    if lit_at(s, pos, ",\"indexes\":"@) {
        spec_parse_string_array(s, pos + ",\"indexes\":"@.len())
    } else {
        Some((Seq::<Seq<char>>::empty(), pos))
    }
}

/// The optional `expiresAt` member (with its leading comma); absent or
/// `null` both mean non-expiring.
pub open spec fn spec_parse_expires_field(s: Seq<char>, pos: int) -> Option<
    (Option<Timestamp>, int),
> {
    if lit_at(s, pos, ",\"expiresAt\":"@) {
        spec_parse_opt_ts(s, pos + ",\"expiresAt\":"@.len())
    } else {
        Some((None, pos))
    }
}

/// A whole `Key` object in the canonical server rendering, starting at `pos`.
pub open spec fn spec_parse_key_at(s: Seq<char>, pos: int) -> Option<(KeyView, int)> {
    if !lit_at(s, pos, "{"@) {
        None
    } else {
        match spec_parse_actions_field(s, pos + "{"@.len()) {
            None => None,
            Some((actions, pa)) => if !lit_at(s, pa, "\"createdAt\":"@) {
                None
            } else {
                match spec_parse_ts_value(s, pa + "\"createdAt\":"@.len()) {
                    None => None,
                    Some((created_at, pc)) => if !lit_at(s, pc, ",\"description\":"@) {
                        None
                    } else {
                        match spec_parse_opt_string(s, pc + ",\"description\":"@.len()) {
                            None => None,
                            Some((description, pd)) => if !lit_at(s, pd, ",\"name\":"@) {
                                None
                            } else {
                                match spec_parse_opt_string(s, pd + ",\"name\":"@.len()) {
                                    None => None,
                                    Some((name, pn)) => {
                                        match spec_parse_expires_field(s, pn) {
                                            None => None,
                                            Some((expires_at, pe)) => match spec_parse_indexes_field(
                                                s,
                                                pe,
                                            ) {
                                                None => None,
                                                Some((indexes, pi)) => if !lit_at(
                                                    s,
                                                    pi,
                                                    ",\"key\":"@,
                                                ) {
                                                    None
                                                } else {
                                                    match spec_parse_string_value(
                                                        s,
                                                        pi + ",\"key\":"@.len(),
                                                    ) {
                                                        None => None,
                                                        Some((key, pk)) => if !lit_at(
                                                            s,
                                                            pk,
                                                            ",\"updatedAt\":"@,
                                                        ) {
                                                            None
                                                        } else {
                                                            match spec_parse_ts_value(
                                                                s,
                                                                pk + ",\"updatedAt\":"@.len(),
                                                            ) {
                                                                None => None,
                                                                Some((updated_at, pu)) => if !lit_at(
                                                                    s,
                                                                    pu,
                                                                    "}"@,
                                                                ) {
                                                                    None
                                                                } else {
                                                                    Some(
                                                                        (
                                                                            KeyView {
                                                                                actions,
                                                                                created_at,
                                                                                description,
                                                                                name,
                                                                                expires_at,
                                                                                indexes,
                                                                                key,
                                                                                updated_at,
                                                                            },
                                                                            pu + "}"@.len(),
                                                                        ),
                                                                    )
                                                                },
                                                            }
                                                        },
                                                    }
                                                },
                                            },
                                        }
                                    },
                                }
                            },
                        }
                    },
                }
            },
        }
    }
}

// ---- exec parsers ------------------------------------------------------

/// Parse a JSON string value.
fn parse_string_value(s: &str, pos: usize) -> (r: Option<(String, usize)>)
    requires
        pos <= s@.len(),
    ensures
        r is Some <==> spec_parse_string_value(s@, pos as int) is Some,
        r matches Some(p) ==> spec_parse_string_value(s@, pos as int) == Some((p.0@, p.1 as int))
            && pos < p.1 <= s@.len(),
{
    match try_lit(s, pos, "\"") {
        Some(q) => scan_string(s, q),
        None => None,
    }
}

/// Parse `null` or a JSON string.
fn parse_opt_string(s: &str, pos: usize) -> (r: Option<(Option<String>, usize)>)
    requires
        pos <= s@.len(),
    ensures
        r is Some <==> spec_parse_opt_string(s@, pos as int) is Some,
        r matches Some(p) ==> spec_parse_opt_string(s@, pos as int) == Some(
            (p.0.deep_view(), p.1 as int),
        ) && pos < p.1 <= s@.len(),
{
    proof {
        reveal_strlit("null");
    }
    match try_lit(s, pos, "null") {
        Some(q) => Some((None, q)),
        None => match parse_string_value(s, pos) {
            Some((v, e)) => Some((Some(v), e)),
            None => None,
        },
    }
}

/// Parse a timestamp value.
fn parse_ts_value(s: &str, pos: usize) -> (r: Option<(Timestamp, usize)>)
    requires
        pos <= s@.len(),
    ensures
        r is Some <==> spec_parse_ts_value(s@, pos as int) is Some,
        r matches Some(p) ==> spec_parse_ts_value(s@, pos as int) == Some((p.0, p.1 as int))
            && p.0.wf() && pos < p.1 <= s@.len(),
{
    match parse_string_value(s, pos) {
        Some((v, e)) => match parse_timestamp(v.as_str()) {
            Some(t) => Some((t, e)),
            None => None,
        },
        None => None,
    }
}

/// Parse `null` or a timestamp value.
fn parse_opt_ts(s: &str, pos: usize) -> (r: Option<(Option<Timestamp>, usize)>)
    requires
        pos <= s@.len(),
    ensures
        r is Some <==> spec_parse_opt_ts(s@, pos as int) is Some,
        r matches Some(p) ==> spec_parse_opt_ts(s@, pos as int) == Some((p.0, p.1 as int)) && (
        p.0 matches Some(t) ==> t.wf()) && pos < p.1 <= s@.len(),
{
    proof {
        reveal_strlit("null");
    }
    match try_lit(s, pos, "null") {
        Some(q) => Some((None, q)),
        None => match parse_ts_value(s, pos) {
            Some((t, e)) => Some((Some(t), e)),
            None => None,
        },
    }
}

fn parse_action_items(s: &str, pos: usize) -> (r: Option<(Vec<Action>, usize)>)
    requires
        pos <= s@.len(),
    ensures
        r is Some <==> spec_parse_action_items(s@, pos as int) is Some,
        r matches Some(p) ==> spec_parse_action_items(s@, pos as int) == Some(
            (p.0@, p.1 as int),
        ) && pos < p.1 <= s@.len(),
    decreases s@.len() - pos,
{
    match parse_string_value(s, pos) {
        None => None,
        Some((tok, e)) => match Action::from_token(tok.as_str()) {
            None => None,
            Some(a) => match try_lit(s, e, ",") {
                Some(e1) => match parse_action_items(s, e1) {
                    Some((rest, e2)) => {
                        let ghost r0 = rest@;
                        let mut v = rest;
                        v.insert(0, a);
                        proof {
                            assert(v@ =~= seq![a] + r0);
                        }
                        Some((v, e2))
                    },
                    None => None,
                },
                None => match try_lit(s, e, "]") {
                    Some(e1) => {
                        let mut v: Vec<Action> = Vec::new();
                        v.push(a);
                        proof {
                            assert(v@ =~= seq![a]);
                        }
                        Some((v, e1))
                    },
                    None => None,
                },
            },
        },
    }
}

fn parse_action_array(s: &str, pos: usize) -> (r: Option<(Vec<Action>, usize)>)
    requires
        pos <= s@.len(),
    ensures
        r is Some <==> spec_parse_action_array(s@, pos as int) is Some,
        r matches Some(p) ==> spec_parse_action_array(s@, pos as int) == Some(
            (p.0@, p.1 as int),
        ) && pos < p.1 <= s@.len(),
{
    proof {
        reveal_strlit("[");
        reveal_strlit("]");
    }
    match try_lit(s, pos, "[") {
        None => None,
        Some(q) => match try_lit(s, q, "]") {
            Some(e) => {
                let v: Vec<Action> = Vec::new();
                proof {
                    assert(v@ =~= Seq::<Action>::empty());
                }
                Some((v, e))
            },
            None => parse_action_items(s, q),
        },
    }
}

fn parse_string_items(s: &str, pos: usize) -> (r: Option<(Vec<String>, usize)>)
    requires
        pos <= s@.len(),
    ensures
        r is Some <==> spec_parse_string_items(s@, pos as int) is Some,
        r matches Some(p) ==> spec_parse_string_items(s@, pos as int) == Some(
            (p.0.deep_view(), p.1 as int),
        ) && pos < p.1 <= s@.len(),
    decreases s@.len() - pos,
{
    match parse_string_value(s, pos) {
        None => None,
        Some((item, e)) => match try_lit(s, e, ",") {
            Some(e1) => match parse_string_items(s, e1) {
                Some((rest, e2)) => {
                    let ghost r0 = rest.deep_view();
                    let ghost i0 = item@;
                    let mut v = rest;
                    v.insert(0, item);
                    proof {
                        assert(v.deep_view() =~= seq![i0] + r0);
                    }
                    Some((v, e2))
                },
                None => None,
            },
            None => match try_lit(s, e, "]") {
                Some(e1) => {
                    let ghost i0 = item@;
                    let mut v: Vec<String> = Vec::new();
                    v.push(item);
                    proof {
                        assert(v.deep_view() =~= seq![i0]);
                    }
                    Some((v, e1))
                },
                None => None,
            },
        },
    }
}

fn parse_string_array(s: &str, pos: usize) -> (r: Option<(Vec<String>, usize)>)
    requires
        pos <= s@.len(),
    ensures
        r is Some <==> spec_parse_string_array(s@, pos as int) is Some,
        r matches Some(p) ==> spec_parse_string_array(s@, pos as int) == Some(
            (p.0.deep_view(), p.1 as int),
        ) && pos < p.1 <= s@.len(),
{
    proof {
        reveal_strlit("[");
        reveal_strlit("]");
    }
    match try_lit(s, pos, "[") {
        None => None,
        Some(q) => match try_lit(s, q, "]") {
            Some(e) => {
                let v: Vec<String> = Vec::new();
                proof {
                    assert(v.deep_view() =~= Seq::<Seq<char>>::empty());
                }
                Some((v, e))
            },
            None => parse_string_items(s, q),
        },
    }
}

fn parse_actions_field(s: &str, pos: usize) -> (r: Option<(Vec<Action>, usize)>)
    requires
        pos <= s@.len(),
    ensures
        r is Some <==> spec_parse_actions_field(s@, pos as int) is Some,
        r matches Some(p) ==> spec_parse_actions_field(s@, pos as int) == Some(
            (p.0@, p.1 as int),
        ) && pos <= p.1 <= s@.len(),
{
    match try_lit(s, pos, "\"actions\":") {
        Some(q) => match parse_action_array(s, q) {
            Some((v, e)) => match try_lit(s, e, ",") {
                Some(e1) => Some((v, e1)),
                None => None,
            },
            None => None,
        },
        None => {
            let v: Vec<Action> = Vec::new();
            proof {
                assert(v@ =~= Seq::<Action>::empty());
            }
            Some((v, pos))
        },
    }
}

fn parse_indexes_field(s: &str, pos: usize) -> (r: Option<(Vec<String>, usize)>)
    requires
        pos <= s@.len(),
    ensures
        r is Some <==> spec_parse_indexes_field(s@, pos as int) is Some,
        r matches Some(p) ==> spec_parse_indexes_field(s@, pos as int) == Some(
            (p.0.deep_view(), p.1 as int),
        ) && pos <= p.1 <= s@.len(),
{
    match try_lit(s, pos, ",\"indexes\":") {
        Some(q) => parse_string_array(s, q),
        None => {
            let v: Vec<String> = Vec::new();
            proof {
                assert(v.deep_view() =~= Seq::<Seq<char>>::empty());
            }
            Some((v, pos))
        },
    }
}

fn parse_expires_field(s: &str, pos: usize) -> (r: Option<(Option<Timestamp>, usize)>)
    requires
        pos <= s@.len(),
    ensures
        r is Some <==> spec_parse_expires_field(s@, pos as int) is Some,
        r matches Some(p) ==> spec_parse_expires_field(s@, pos as int) == Some(
            (p.0, p.1 as int),
        ) && (p.0 matches Some(t) ==> t.wf()) && pos <= p.1 <= s@.len(),
{
    match try_lit(s, pos, ",\"expiresAt\":") {
        Some(q) => parse_opt_ts(s, q),
        None => Some((None, pos)),
    }
}

/// Parse one `Key` object at `pos`.
pub(crate) fn parse_key_at(s: &str, pos: usize) -> (r: Option<(Key, usize)>)
    requires
        pos <= s@.len(),
    ensures
        r is Some <==> spec_parse_key_at(s@, pos as int) is Some,
        r matches Some(p) ==> spec_parse_key_at(s@, pos as int) == Some((p.0@, p.1 as int))
            && p.0.wf() && pos < p.1 <= s@.len(),
{
    let p0 = match try_lit(s, pos, "{") {
        Some(q) => q,
        None => {
            return None;
        },
    };
    let (actions, pa) = match parse_actions_field(s, p0) {
        Some(p) => p,
        None => {
            return None;
        },
    };
    let ca = match try_lit(s, pa, "\"createdAt\":") {
        Some(q) => q,
        None => {
            return None;
        },
    };
    let (created_at, pc) = match parse_ts_value(s, ca) {
        Some(p) => p,
        None => {
            return None;
        },
    };
    let d0 = match try_lit(s, pc, ",\"description\":") {
        Some(q) => q,
        None => {
            return None;
        },
    };
    let (description, pd) = match parse_opt_string(s, d0) {
        Some(p) => p,
        None => {
            return None;
        },
    };
    let n0 = match try_lit(s, pd, ",\"name\":") {
        Some(q) => q,
        None => {
            return None;
        },
    };
    let (name, pn) = match parse_opt_string(s, n0) {
        Some(p) => p,
        None => {
            return None;
        },
    };
    let (expires_at, pe) = match parse_expires_field(s, pn) {
        Some(p) => p,
        None => {
            return None;
        },
    };
    let (indexes, pi) = match parse_indexes_field(s, pe) {
        Some(p) => p,
        None => {
            return None;
        },
    };
    let k0 = match try_lit(s, pi, ",\"key\":") {
        Some(q) => q,
        None => {
            return None;
        },
    };
    let (key, pk) = match parse_string_value(s, k0) {
        Some(p) => p,
        None => {
            return None;
        },
    };
    let u0 = match try_lit(s, pk, ",\"updatedAt\":") {
        Some(q) => q,
        None => {
            return None;
        },
    };
    let (updated_at, pu) = match parse_ts_value(s, u0) {
        Some(p) => p,
        None => {
            return None;
        },
    };
    let end = match try_lit(s, pu, "}") {
        Some(q) => q,
        None => {
            return None;
        },
    };
    Some(
        (
            Key { actions, created_at, description, name, expires_at, indexes, key, updated_at },
            end,
        ),
    )
}

/// Decode the server's rendering of a single `Key`. Exactly the payloads the
/// canonical grammar accepts, consumed to the end, decode; everything else
/// is a decode error.
pub fn parse_key(s: &str) -> (r: Result<Key, Error>)
    ensures
        (match spec_parse_key_at(s@, 0) {
            Some(p) => if p.1 == s@.len() {
                r matches Ok(k) && k@ == p.0 && k.wf()
            } else {
                r == Err::<Key, Error>(Error::Decode)
            },
            None => r == Err::<Key, Error>(Error::Decode),
        }),
{
    let n = s.unicode_len();
    match parse_key_at(s, 0) {
        Some((k, e)) => if e == n {
            Ok(k)
        } else {
            Err(Error::Decode)
        },
        None => Err(Error::Decode),
    }
}

// ---- position bounds of the spec parsers -------------------------------

pub proof fn lemma_opt_string_bounds(s: Seq<char>, pos: int)
    ensures
        spec_parse_opt_string(s, pos) matches Some(p) ==> pos <= p.1 <= s.len(),
{
    lemma_string_value_bounds(s, pos);
}

pub proof fn lemma_ts_value_bounds(s: Seq<char>, pos: int)
    ensures
        spec_parse_ts_value(s, pos) matches Some(p) ==> pos + 1 <= p.1 <= s.len(),
{
    lemma_string_value_bounds(s, pos);
}

pub proof fn lemma_opt_ts_bounds(s: Seq<char>, pos: int)
    ensures
        spec_parse_opt_ts(s, pos) matches Some(p) ==> pos <= p.1 <= s.len(),
{
    lemma_ts_value_bounds(s, pos);
}

pub proof fn lemma_action_items_bounds(s: Seq<char>, pos: int)
    ensures
        spec_parse_action_items(s, pos) matches Some(p) ==> pos + 1 <= p.1 <= s.len(),
    decreases s.len() - pos,
{
    lemma_string_value_bounds(s, pos);
    match spec_parse_string_value(s, pos) {
        Some(p) => {
            if action_of_token(p.0) is Some && lit_at(s, p.1, ","@) {
                lemma_action_items_bounds(s, p.1 + ","@.len());
            }
        },
        None => {},
    }
}

pub proof fn lemma_action_array_bounds(s: Seq<char>, pos: int)
    ensures
        spec_parse_action_array(s, pos) matches Some(p) ==> pos <= p.1 <= s.len(),
{
    lemma_action_items_bounds(s, pos + "["@.len());
}

pub proof fn lemma_actions_field_bounds(s: Seq<char>, pos: int)
    requires
        pos <= s.len(),
    ensures
        spec_parse_actions_field(s, pos) matches Some(p) ==> pos <= p.1 <= s.len(),
{
    lemma_action_array_bounds(s, pos + "\"actions\":"@.len());
}

pub proof fn lemma_string_items_bounds(s: Seq<char>, pos: int)
    ensures
        spec_parse_string_items(s, pos) matches Some(p) ==> pos + 1 <= p.1 <= s.len(),
    decreases s.len() - pos,
{
    lemma_string_value_bounds(s, pos);
    match spec_parse_string_value(s, pos) {
        Some(p) => {
            if lit_at(s, p.1, ","@) {
                lemma_string_items_bounds(s, p.1 + ","@.len());
            }
        },
        None => {},
    }
}

pub proof fn lemma_string_array_bounds(s: Seq<char>, pos: int)
    ensures
        spec_parse_string_array(s, pos) matches Some(p) ==> pos <= p.1 <= s.len(),
{
    lemma_string_items_bounds(s, pos + "["@.len());
}

pub proof fn lemma_indexes_field_bounds(s: Seq<char>, pos: int)
    requires
        pos <= s.len(),
    ensures
        spec_parse_indexes_field(s, pos) matches Some(p) ==> pos <= p.1 <= s.len(),
{
    lemma_string_array_bounds(s, pos + ",\"indexes\":"@.len());
}

pub proof fn lemma_expires_field_bounds(s: Seq<char>, pos: int)
    requires
        pos <= s.len(),
    ensures
        spec_parse_expires_field(s, pos) matches Some(p) ==> pos <= p.1 <= s.len(),
{
    lemma_opt_ts_bounds(s, pos + ",\"expiresAt\":"@.len());
}

/// A parsed key object always advances and stays within the text.
pub proof fn lemma_key_at_bounds(s: Seq<char>, pos: int)
    ensures
        spec_parse_key_at(s, pos) matches Some(p) ==> pos < p.1 <= s.len(),
{
    if lit_at(s, pos, "{"@) {
        let p1 = pos + "{"@.len();
        lemma_actions_field_bounds(s, p1);
        if spec_parse_actions_field(s, p1) is Some {
            let pa = spec_parse_actions_field(s, p1)->Some_0.1;
            if lit_at(s, pa, "\"createdAt\":"@) {
                let ca: int = pa + "\"createdAt\":"@.len() as int;
                lemma_ts_value_bounds(s, ca);
                if spec_parse_ts_value(s, ca) is Some {
                    let pc = spec_parse_ts_value(s, ca)->Some_0.1;
                    if lit_at(s, pc, ",\"description\":"@) {
                        let d0: int = pc + ",\"description\":"@.len() as int;
                        lemma_opt_string_bounds(s, d0);
                        if spec_parse_opt_string(s, d0) is Some {
                            let pd = spec_parse_opt_string(s, d0)->Some_0.1;
                            if lit_at(s, pd, ",\"name\":"@) {
                                let n0: int = pd + ",\"name\":"@.len() as int;
                                lemma_opt_string_bounds(s, n0);
                                if spec_parse_opt_string(s, n0) is Some {
                                    let pn = spec_parse_opt_string(s, n0)->Some_0.1;
                                    lemma_expires_field_bounds(s, pn);
                                    {
                                        if spec_parse_expires_field(s, pn) is Some {
                                            let pe = spec_parse_expires_field(s, pn)->Some_0.1;
                                            lemma_indexes_field_bounds(s, pe);
                                            if spec_parse_indexes_field(s, pe) is Some {
                                                let pi = spec_parse_indexes_field(s, pe)->Some_0.1;
                                                if lit_at(s, pi, ",\"key\":"@) {
                                                    let k0: int = pi + ",\"key\":"@.len() as int;
                                                    lemma_string_value_bounds(s, k0);
                                                    if spec_parse_string_value(s, k0) is Some {
                                                        let pk = spec_parse_string_value(
                                                            s,
                                                            k0,
                                                        )->Some_0.1;
                                                        if lit_at(s, pk, ",\"updatedAt\":"@) {
                                                            let u0: int = pk + ",\"updatedAt\":"@.len() as int;
                                                            lemma_ts_value_bounds(s, u0);
                                                        }
                                                    }
                                                }
                                            }
                                        }
                                    }
                                }
                            }
                        }
                    }
                }
            }
        }
    }
}

// ---- the KeysResults envelope ------------------------------------------

/// One or more comma-separated key objects, ending at `]`.
pub open spec fn spec_parse_results_items(s: Seq<char>, pos: int) -> Option<(Seq<KeyView>, int)>
    decreases s.len() - pos,
    via spec_parse_results_items_dec
{
    match spec_parse_key_at(s, pos) {
        None => None,
        Some(p) => if lit_at(s, p.1, ","@) {
            match spec_parse_results_items(s, p.1 + ","@.len()) {
                Some(q) => Some((seq![p.0] + q.0, q.1)),
                None => None,
            }
        } else if lit_at(s, p.1, "]"@) {
            Some((seq![p.0], p.1 + "]"@.len()))
        } else {
            None
        },
    }
}

#[via_fn]
proof fn spec_parse_results_items_dec(s: Seq<char>, pos: int) {
    lemma_key_at_bounds(s, pos);
}

/// A whole `KeysResults` envelope: the page of keys and the limit and
/// offset the server echoed back.
pub open spec fn spec_parse_keys_results(s: Seq<char>, pos: int) -> Option<
    (KeysResultsView, int),
> {
    if !lit_at(s, pos, "{\"results\":["@) {
        None
    } else {
        let q0 = pos + "{\"results\":["@.len();
        let inner = if lit_at(s, q0, "]"@) {
            Some((Seq::<KeyView>::empty(), q0 + "]"@.len()))
        } else {
            spec_parse_results_items(s, q0)
        };
        match inner {
            None => None,
            Some((results, pr)) => if !lit_at(s, pr, ",\"limit\":"@) {
                None
            } else {
                match spec_parse_u32(s, pr + ",\"limit\":"@.len()) {
                    None => None,
                    Some((limit, pl)) => if !lit_at(s, pl, ",\"offset\":"@) {
                        None
                    } else {
                        match spec_parse_u32(s, pl + ",\"offset\":"@.len()) {
                            None => None,
                            Some((offset, po)) => if !lit_at(s, po, "}"@) {
                                None
                            } else {
                                Some(
                                    (
                                        KeysResultsView {
                                            results,
                                            limit: limit as u32,
                                            offset: offset as u32,
                                        },
                                        po + "}"@.len(),
                                    ),
                                )
                            },
                        }
                    },
                }
            },
        }
    }
}

fn parse_results_items(s: &str, pos: usize) -> (r: Option<(Vec<Key>, usize)>)
    requires
        pos <= s@.len(),
    ensures
        r is Some <==> spec_parse_results_items(s@, pos as int) is Some,
        r matches Some(p) ==> spec_parse_results_items(s@, pos as int) == Some(
            (p.0.deep_view(), p.1 as int),
        ) && pos < p.1 <= s@.len() && (forall|j: int| 0 <= j < p.0@.len() ==> p.0@[j].wf()),
    decreases s@.len() - pos,
{
    match parse_key_at(s, pos) {
        None => None,
        Some((k, e)) => match try_lit(s, e, ",") {
            Some(e1) => match parse_results_items(s, e1) {
                Some((rest, e2)) => {
                    let ghost r0 = rest.deep_view();
                    let ghost k0 = k@;
                    let ghost kwf = k.wf();
                    let mut v = rest;
                    v.insert(0, k);
                    proof {
                        assert(v.deep_view() =~= seq![k0] + r0);
                    }
                    Some((v, e2))
                },
                None => None,
            },
            None => match try_lit(s, e, "]") {
                Some(e1) => {
                    let ghost k0 = k@;
                    let mut v: Vec<Key> = Vec::new();
                    v.push(k);
                    proof {
                        assert(v.deep_view() =~= seq![k0]);
                    }
                    Some((v, e1))
                },
                None => None,
            },
        },
    }
}

/// Decode the server's rendering of a listing response. Exactly the
/// payloads the canonical grammar accepts, consumed to the end, decode;
/// everything else is a decode error.
pub fn parse_keys_results(s: &str) -> (r: Result<KeysResults, Error>)
    ensures
        (match spec_parse_keys_results(s@, 0) {
            Some(p) => if p.1 == s@.len() {
                r matches Ok(kr) && kr@ == p.0 && (forall|j: int|
                    0 <= j < kr.results@.len() ==> kr.results@[j].wf())
            } else {
                r == Err::<KeysResults, Error>(Error::Decode)
            },
            None => r == Err::<KeysResults, Error>(Error::Decode),
        }),
{
    let n = s.unicode_len();
    let q0 = match try_lit(s, 0, "{\"results\":[") {
        Some(q) => q,
        None => {
            return Err(Error::Decode);
        },
    };
    let (results, pr) = match try_lit(s, q0, "]") {
        Some(e) => {
            let v: Vec<Key> = Vec::new();
            proof {
                assert(v.deep_view() =~= Seq::<KeyView>::empty());
            }
            (v, e)
        },
        None => match parse_results_items(s, q0) {
            Some(p) => p,
            None => {
                return Err(Error::Decode);
            },
        },
    };
    let l0 = match try_lit(s, pr, ",\"limit\":") {
        Some(q) => q,
        None => {
            return Err(Error::Decode);
        },
    };
    let (limit, pl) = match parse_u32(s, l0) {
        Some(p) => p,
        None => {
            return Err(Error::Decode);
        },
    };
    let o0 = match try_lit(s, pl, ",\"offset\":") {
        Some(q) => q,
        None => {
            return Err(Error::Decode);
        },
    };
    let (offset, po) = match parse_u32(s, o0) {
        Some(p) => p,
        None => {
            return Err(Error::Decode);
        },
    };
    let end = match try_lit(s, po, "}") {
        Some(q) => q,
        None => {
            return Err(Error::Decode);
        },
    };
    if end == n {
        Ok(KeysResults { results, limit, offset })
    } else {
        Err(Error::Decode)
    }
}


// ---- inversion: parsing recovers the canonical rendering ---------------

/// Scanning a rendered JSON string recovers its contents.
proof fn lemma_invert_string_value(s: Seq<char>, pos: int, t: Seq<char>, rest: Seq<char>)
    requires
        0 <= pos <= s.len(),
        s.subrange(pos, s.len() as int) == json_string(t) + rest,
    ensures
        spec_parse_string_value(s, pos) == Some((t, pos + json_string(t).len())),
{
    reveal_strlit("\"");
    let suffix = s.subrange(pos, s.len() as int);
    assert(suffix.len() == s.len() - pos);
    assert(suffix.len() == json_string(t).len() + rest.len());
    assert(json_string(t).len() == escape(t).len() + 2);
    assert(suffix[0] == '"');
    assert(s.subrange(pos, pos + 1) =~= "\""@);
    assert(suffix.subrange(1, suffix.len() as int) =~= escape(t) + seq!['"'] + rest);
    assert(s.subrange(pos + 1, s.len() as int) =~= suffix.subrange(1, suffix.len() as int));
    lemma_scan_escaped(s, pos + 1, t, rest);
}

/// `null` or a rendered JSON string parses back to the optional value.
proof fn lemma_invert_opt_string(s: Seq<char>, pos: int, o: Option<Seq<char>>, rest: Seq<char>)
    requires
        0 <= pos <= s.len(),
        s.subrange(pos, s.len() as int) == opt_string_json(o) + rest,
    ensures
        spec_parse_opt_string(s, pos) == Some((o, pos + opt_string_json(o).len())),
{
    reveal_strlit("null");
    reveal_strlit("\"");
    let suffix = s.subrange(pos, s.len() as int);
    assert(suffix.len() == s.len() - pos);
    assert(suffix.len() == opt_string_json(o).len() + rest.len());
    match o {
        None => {
            assert(s.subrange(pos, pos + 4) =~= "null"@);
        },
        Some(t) => {
            assert(suffix[0] == '"');
            assert(!lit_at(s, pos, "null"@)) by {
                if lit_at(s, pos, "null"@) {
                    assert(s.subrange(pos, pos + 4)[0] == 'n');
                    assert(s[pos] == 'n');
                    assert(s[pos] == suffix[0]);
                }
            }
            lemma_invert_string_value(s, pos, t, rest);
        },
    }
}

/// A rendered timestamp parses back to the same instant.
proof fn lemma_invert_ts_value(s: Seq<char>, pos: int, t: Timestamp, rest: Seq<char>)
    requires
        0 <= pos <= s.len(),
        s.subrange(pos, s.len() as int) == ts_json(t) + rest,
        spec_parse_timestamp(rfc3339_of(t.unix_seconds)) == Some(t),
    ensures
        spec_parse_ts_value(s, pos) == Some((t, pos + ts_json(t).len())),
{
    lemma_invert_string_value(s, pos, rfc3339_of(t.unix_seconds), rest);
}

/// `null` or a rendered timestamp parses back to the optional value.
proof fn lemma_invert_opt_ts(s: Seq<char>, pos: int, o: Option<Timestamp>, rest: Seq<char>)
    requires
        0 <= pos <= s.len(),
        s.subrange(pos, s.len() as int) == opt_ts_json(o) + rest,
        o matches Some(t) ==> spec_parse_timestamp(rfc3339_of(t.unix_seconds)) == Some(t),
    ensures
        spec_parse_opt_ts(s, pos) == Some((o, pos + opt_ts_json(o).len())),
{
    reveal_strlit("null");
    reveal_strlit("\"");
    let suffix = s.subrange(pos, s.len() as int);
    assert(suffix.len() == s.len() - pos);
    assert(suffix.len() == opt_ts_json(o).len() + rest.len());
    match o {
        None => {
            assert(s.subrange(pos, pos + 4) =~= "null"@);
        },
        Some(t) => {
            assert(suffix[0] == '"');
            assert(!lit_at(s, pos, "null"@)) by {
                if lit_at(s, pos, "null"@) {
                    assert(s.subrange(pos, pos + 4)[0] == 'n');
                    assert(s[pos] == 'n');
                    assert(s[pos] == suffix[0]);
                }
            }
            lemma_invert_ts_value(s, pos, t, rest);
        },
    }
}

/// Rendered action items (from index `i`) parse back to the actions.
proof fn lemma_invert_action_items(
    s: Seq<char>,
    pos: int,
    acts: Seq<Action>,
    i: int,
    rest: Seq<char>,
)
    requires
        0 <= pos <= s.len(),
        0 <= i < acts.len(),
        s.subrange(pos, s.len() as int) == action_items_from(acts, i) + seq![']'] + rest,
    ensures
        spec_parse_action_items(s, pos) == Some(
            (acts.skip(i), pos + action_items_from(acts, i).len() + 1),
        ),
    decreases acts.len() - i,
{
    reveal_strlit(",");
    reveal_strlit("]");
    reveal_strlit("\"");
    let suffix = s.subrange(pos, s.len() as int);
    let item = json_string(token_of(acts[i]));
    lemma_action_token_round_trip(acts[i]);
    assert(suffix.len() == s.len() - pos);
    assert(suffix.len() == action_items_from(acts, i).len() + 1 + rest.len());
    if i == acts.len() - 1 {
        assert(suffix =~= item + (seq![']'] + rest));
        lemma_invert_string_value(s, pos, token_of(acts[i]), seq![']'] + rest);
        let e = pos + item.len();
        assert(s[e] == suffix[item.len() as int]);
        assert(s[e] == ']');
        assert(!lit_at(s, e, ","@)) by {
            if lit_at(s, e, ","@) {
                assert(s.subrange(e, e + 1)[0] == ',');
            }
        }
        assert(s.subrange(e, e + 1) =~= "]"@);
        assert(acts.skip(i) =~= seq![acts[i]]);
    } else {
        let tail = action_items_from(acts, i + 1);
        assert(action_items_from(acts, i) == item + seq![','] + tail);
        assert(action_items_from(acts, i).len() == item.len() + 1 + tail.len());
        assert(suffix =~= item + (seq![','] + tail + seq![']'] + rest));
        lemma_invert_string_value(s, pos, token_of(acts[i]), seq![','] + tail + seq![']'] + rest);
        let e = pos + item.len();
        assert(s[e] == suffix[item.len() as int]);
        assert(s[e] == ',');
        assert(s.subrange(e, e + 1) =~= ","@);
        assert(suffix.subrange(item.len() + 1 as int, suffix.len() as int) =~= tail + seq![']']
            + rest);
        assert(s.subrange(e + 1, s.len() as int) =~= suffix.subrange(
            item.len() + 1 as int,
            suffix.len() as int,
        ));
        lemma_invert_action_items(s, e + 1, acts, i + 1, rest);
        assert(seq![acts[i]] + acts.skip(i + 1) =~= acts.skip(i));
    }
}

/// A rendered non-empty action array parses back to the actions.
proof fn lemma_invert_action_array(s: Seq<char>, pos: int, acts: Seq<Action>, rest: Seq<char>)
    requires
        0 <= pos <= s.len(),
        acts.len() > 0,
        s.subrange(pos, s.len() as int) == action_array_json(acts) + rest,
    ensures
        spec_parse_action_array(s, pos) == Some((acts, pos + action_array_json(acts).len())),
{
    reveal_strlit("[");
    reveal_strlit("]");
    reveal_strlit("\"");
    let suffix = s.subrange(pos, s.len() as int);
    assert(suffix.len() == s.len() - pos);
    assert(suffix.len() == action_array_json(acts).len() + rest.len());
    assert(action_array_json(acts).len() == 1 + action_items_from(acts, 0).len() + 1);
    assert(suffix[0] == '[');
    assert(s.subrange(pos, pos + 1) =~= "["@);
    assert(action_items_from(acts, 0)[0] == '"');
    assert(suffix[1] == '"');
    assert(!lit_at(s, pos + 1, "]"@)) by {
        if lit_at(s, pos + 1, "]"@) {
            assert(s.subrange(pos + 1, pos + 2)[0] == ']');
            assert(s[pos + 1] == suffix[1]);
        }
    }
    assert(suffix.subrange(1, suffix.len() as int) =~= action_items_from(acts, 0) + seq![']']
        + rest);
    assert(s.subrange(pos + 1, s.len() as int) =~= suffix.subrange(1, suffix.len() as int));
    lemma_invert_action_items(s, pos + 1, acts, 0, rest);
    assert(acts.skip(0) =~= acts);
}

/// The actions member (possibly absent) parses back to the actions.
proof fn lemma_invert_actions_field(s: Seq<char>, pos: int, acts: Seq<Action>, rest: Seq<char>)
    requires
        0 <= pos <= s.len(),
        s.subrange(pos, s.len() as int) == actions_segment(acts) + "\"createdAt\":"@ + rest,
    ensures
        spec_parse_actions_field(s, pos) == Some((acts, pos + actions_segment(acts).len())),
{
    reveal_strlit("\"actions\":");
    reveal_strlit("\"createdAt\":");
    reveal_strlit(",");
    let suffix = s.subrange(pos, s.len() as int);
    assert(suffix.len() == s.len() - pos);
    assert(suffix.len() == actions_segment(acts).len() + 12 + rest.len());
    if acts.len() == 0 {
        assert(suffix[1] == 'c');
        assert(!lit_at(s, pos, "\"actions\":"@)) by {
            if lit_at(s, pos, "\"actions\":"@) {
                assert(s.subrange(pos, pos + 10)[1] == 'a');
                assert(s[pos + 1] == 'a');
                assert(s[pos + 1] == suffix[1]);
            }
        }
        assert(acts =~= Seq::<Action>::empty());
    } else {
        let arr = action_array_json(acts);
        assert(actions_segment(acts).len() == 10 + arr.len() + 1);
        assert(s.subrange(pos, pos + 10) =~= "\"actions\":"@);
        assert(suffix.subrange(10, suffix.len() as int) =~= arr + (seq![','] + "\"createdAt\":"@
            + rest));
        assert(s.subrange(pos + 10, s.len() as int) =~= suffix.subrange(10, suffix.len() as int));
        lemma_invert_action_array(s, pos + 10, acts, seq![','] + "\"createdAt\":"@ + rest);
        let e = pos + 10 + arr.len();
        assert(s[e] == suffix[10 + arr.len() as int]);
        assert(s[e] == ',');
        assert(s.subrange(e, e + 1) =~= ","@);
    }
}

/// Rendered string items (from index `i`) parse back to the strings.
proof fn lemma_invert_string_items(
    s: Seq<char>,
    pos: int,
    items: Seq<Seq<char>>,
    i: int,
    rest: Seq<char>,
)
    requires
        0 <= pos <= s.len(),
        0 <= i < items.len(),
        s.subrange(pos, s.len() as int) == string_items_from(items, i) + seq![']'] + rest,
    ensures
        spec_parse_string_items(s, pos) == Some(
            (items.skip(i), pos + string_items_from(items, i).len() + 1),
        ),
    decreases items.len() - i,
{
    reveal_strlit(",");
    reveal_strlit("]");
    reveal_strlit("\"");
    let suffix = s.subrange(pos, s.len() as int);
    let item = json_string(items[i]);
    assert(suffix.len() == s.len() - pos);
    assert(suffix.len() == string_items_from(items, i).len() + 1 + rest.len());
    if i == items.len() - 1 {
        assert(suffix =~= item + (seq![']'] + rest));
        lemma_invert_string_value(s, pos, items[i], seq![']'] + rest);
        let e = pos + item.len();
        assert(s[e] == suffix[item.len() as int]);
        assert(s[e] == ']');
        assert(!lit_at(s, e, ","@)) by {
            if lit_at(s, e, ","@) {
                assert(s.subrange(e, e + 1)[0] == ',');
            }
        }
        assert(s.subrange(e, e + 1) =~= "]"@);
        assert(items.skip(i) =~= seq![items[i]]);
    } else {
        let tail = string_items_from(items, i + 1);
        assert(string_items_from(items, i) == item + seq![','] + tail);
        assert(string_items_from(items, i).len() == item.len() + 1 + tail.len());
        assert(suffix =~= item + (seq![','] + tail + seq![']'] + rest));
        lemma_invert_string_value(s, pos, items[i], seq![','] + tail + seq![']'] + rest);
        let e = pos + item.len();
        assert(s[e] == suffix[item.len() as int]);
        assert(s[e] == ',');
        assert(s.subrange(e, e + 1) =~= ","@);
        assert(suffix.subrange(item.len() + 1 as int, suffix.len() as int) =~= tail + seq![']']
            + rest);
        assert(s.subrange(e + 1, s.len() as int) =~= suffix.subrange(
            item.len() + 1 as int,
            suffix.len() as int,
        ));
        lemma_invert_string_items(s, e + 1, items, i + 1, rest);
        assert(seq![items[i]] + items.skip(i + 1) =~= items.skip(i));
    }
}

/// A rendered non-empty string array parses back to the strings.
proof fn lemma_invert_string_array(s: Seq<char>, pos: int, items: Seq<Seq<char>>, rest: Seq<char>)
    requires
        0 <= pos <= s.len(),
        items.len() > 0,
        s.subrange(pos, s.len() as int) == string_array_json(items) + rest,
    ensures
        spec_parse_string_array(s, pos) == Some((items, pos + string_array_json(items).len())),
{
    reveal_strlit("[");
    reveal_strlit("]");
    reveal_strlit("\"");
    let suffix = s.subrange(pos, s.len() as int);
    assert(suffix.len() == s.len() - pos);
    assert(suffix.len() == string_array_json(items).len() + rest.len());
    assert(string_array_json(items).len() == 1 + string_items_from(items, 0).len() + 1);
    assert(suffix[0] == '[');
    assert(s.subrange(pos, pos + 1) =~= "["@);
    assert(string_items_from(items, 0)[0] == '"');
    assert(suffix[1] == '"');
    assert(!lit_at(s, pos + 1, "]"@)) by {
        if lit_at(s, pos + 1, "]"@) {
            assert(s.subrange(pos + 1, pos + 2)[0] == ']');
            assert(s[pos + 1] == suffix[1]);
        }
    }
    assert(suffix.subrange(1, suffix.len() as int) =~= string_items_from(items, 0) + seq![']']
        + rest);
    assert(s.subrange(pos + 1, s.len() as int) =~= suffix.subrange(1, suffix.len() as int));
    lemma_invert_string_items(s, pos + 1, items, 0, rest);
    assert(items.skip(0) =~= items);
}

/// The indexes member (possibly absent) parses back to the strings.
proof fn lemma_invert_indexes_field(
    s: Seq<char>,
    pos: int,
    items: Seq<Seq<char>>,
    rest: Seq<char>,
)
    requires
        0 <= pos <= s.len(),
        s.subrange(pos, s.len() as int) == indexes_segment(items) + ",\"key\":"@ + rest,
    ensures
        spec_parse_indexes_field(s, pos) == Some((items, pos + indexes_segment(items).len())),
{
    reveal_strlit(",\"indexes\":");
    reveal_strlit(",\"key\":");
    let suffix = s.subrange(pos, s.len() as int);
    assert(suffix.len() == s.len() - pos);
    assert(suffix.len() == indexes_segment(items).len() + 7 + rest.len());
    if items.len() == 0 {
        assert(suffix[2] == 'k');
        assert(!lit_at(s, pos, ",\"indexes\":"@)) by {
            if lit_at(s, pos, ",\"indexes\":"@) {
                assert(s.subrange(pos, pos + 11)[2] == 'i');
                assert(s[pos + 2] == 'i');
                assert(s[pos + 2] == suffix[2]);
            }
        }
        assert(items =~= Seq::<Seq<char>>::empty());
    } else {
        assert(indexes_segment(items).len() == 11 + string_array_json(items).len());
        assert(s.subrange(pos, pos + 11) =~= ",\"indexes\":"@);
        assert(suffix.subrange(11, suffix.len() as int) =~= string_array_json(items)
            + (",\"key\":"@ + rest));
        assert(s.subrange(pos + 11, s.len() as int) =~= suffix.subrange(11, suffix.len() as int));
        lemma_invert_string_array(s, pos + 11, items, ",\"key\":"@ + rest);
    }
}

/// Consuming a leading piece of a suffix: what follows it is the rest.
proof fn lemma_concat_suffix(s: Seq<char>, pos: int, a: Seq<char>, b: Seq<char>)
    requires
        0 <= pos <= s.len(),
        s.subrange(pos, s.len() as int) == a + b,
    ensures
        pos + a.len() <= s.len(),
        s.subrange(pos + a.len(), s.len() as int) == b,
{
    let suffix = s.subrange(pos, s.len() as int);
    assert(suffix.len() == s.len() - pos);
    assert(suffix.subrange(a.len() as int, suffix.len() as int) =~= b);
    assert(s.subrange(pos + a.len(), s.len() as int) =~= suffix.subrange(
        a.len() as int,
        suffix.len() as int,
    ));
}

/// Consuming two leading pieces of a suffix at once.
proof fn lemma_concat_suffix3(s: Seq<char>, pos: int, a: Seq<char>, b: Seq<char>, c: Seq<char>)
    requires
        0 <= pos <= s.len(),
        s.subrange(pos, s.len() as int) == a + b + c,
    ensures
        pos + a.len() + b.len() <= s.len(),
        s.subrange(pos + a.len(), s.len() as int) == b + c,
        s.subrange(pos + a.len() + b.len(), s.len() as int) == c,
{
    assert(a + b + c =~= a + (b + c));
    lemma_concat_suffix(s, pos, a, b + c);
    lemma_concat_suffix(s, pos + a.len(), b, c);
}

/// A literal standing at the head of a suffix matches there.
proof fn lemma_lit_prefix(s: Seq<char>, pos: int, lit: Seq<char>, rest: Seq<char>)
    requires
        0 <= pos <= s.len(),
        s.subrange(pos, s.len() as int) == lit + rest,
    ensures
        lit_at(s, pos, lit),
        pos + lit.len() <= s.len(),
        s.subrange(pos + lit.len(), s.len() as int) == rest,
{
    let suffix = s.subrange(pos, s.len() as int);
    assert(suffix.len() == s.len() - pos);
    assert(suffix.subrange(0, lit.len() as int) =~= lit);
    assert(s.subrange(pos, pos + lit.len()) =~= suffix.subrange(0, lit.len() as int));
    lemma_concat_suffix(s, pos, lit, rest);
}

/// Law: parsing inverts the canonical server rendering. Provided the RFC
/// 3339 encoding round-trips on the key's instants (which rendering them
/// establishes), the rendering of any well-formed key parses back to
/// exactly that key, consuming the whole payload. In particular a payload
/// whose `actions`/`indexes` members are absent parses to empty sequences.
#[verifier::rlimit(100)]
#[verifier::spinoff_prover]
pub proof fn lemma_key_read_round_trip(v: KeyView)
    requires
        v.wf(),
        spec_parse_timestamp(rfc3339_of(v.created_at.unix_seconds)) == Some(v.created_at),
        spec_parse_timestamp(rfc3339_of(v.updated_at.unix_seconds)) == Some(v.updated_at),
        v.expires_at matches Some(e) ==> spec_parse_timestamp(rfc3339_of(e.unix_seconds)) == Some(
            e,
        ),
    ensures
        spec_parse_key_at(key_read_json(v), 0) == Some((v, key_read_json(v).len() as int)),
{
    reveal_strlit("{");
    reveal_strlit("}");
    let s = key_read_json(v);
    let seg_a = actions_segment(v.actions);
    let t_c = ts_json(v.created_at);
    let o_d = opt_string_json(v.description);
    let o_n = opt_string_json(v.name);
    let o_e = opt_ts_json(v.expires_at);
    let seg_i = indexes_segment(v.indexes);
    let k_s = json_string(v.key);
    let t_u = ts_json(v.updated_at);
    let u15 = seq!['}'];
    let u14 = t_u + u15;
    let u13 = ",\"updatedAt\":"@ + u14;
    let u12 = k_s + u13;
    let u11 = ",\"key\":"@ + u12;
    let u10 = seg_i + u11;
    let u9 = o_e + u10;
    let u8 = ",\"expiresAt\":"@ + u9;
    let u7 = o_n + u8;
    let u6 = ",\"name\":"@ + u7;
    let u5 = o_d + u6;
    let u4 = ",\"description\":"@ + u5;
    let u3 = t_c + u4;
    let u2 = "\"createdAt\":"@ + u3;
    let u1 = seg_a + u2;
    assert(s == seq!['{'] + u1);
    assert(seq!['{'] =~= "{"@);
    assert(s.subrange(0, s.len() as int) =~= s);
    lemma_lit_prefix(s, 0, "{"@, u1);
    let p1: int = 0 + "{"@.len() as int;
    assert(u1 =~= seg_a + "\"createdAt\":"@ + u3);
    lemma_invert_actions_field(s, p1, v.actions, u3);
    lemma_concat_suffix(s, p1, seg_a, u2);
    let pa: int = p1 + seg_a.len() as int;
    lemma_lit_prefix(s, pa, "\"createdAt\":"@, u3);
    let ca: int = pa + "\"createdAt\":"@.len() as int;
    lemma_invert_ts_value(s, ca, v.created_at, u4);
    lemma_concat_suffix(s, ca, t_c, u4);
    let pc: int = ca + t_c.len() as int;
    lemma_lit_prefix(s, pc, ",\"description\":"@, u5);
    let d0: int = pc + ",\"description\":"@.len() as int;
    lemma_invert_opt_string(s, d0, v.description, u6);
    lemma_concat_suffix(s, d0, o_d, u6);
    let pd: int = d0 + o_d.len() as int;
    lemma_lit_prefix(s, pd, ",\"name\":"@, u7);
    let n0: int = pd + ",\"name\":"@.len() as int;
    lemma_invert_opt_string(s, n0, v.name, u8);
    lemma_concat_suffix(s, n0, o_n, u8);
    let pn: int = n0 + o_n.len() as int;
    lemma_lit_prefix(s, pn, ",\"expiresAt\":"@, u9);
    let e0: int = pn + ",\"expiresAt\":"@.len() as int;
    lemma_invert_opt_ts(s, e0, v.expires_at, u10);
    lemma_concat_suffix(s, e0, o_e, u10);
    let pe: int = e0 + o_e.len() as int;
    assert(u10 =~= seg_i + ",\"key\":"@ + u12);
    lemma_invert_indexes_field(s, pe, v.indexes, u12);
    lemma_concat_suffix(s, pe, seg_i, u11);
    let pi: int = pe + seg_i.len() as int;
    lemma_lit_prefix(s, pi, ",\"key\":"@, u12);
    let k0: int = pi + ",\"key\":"@.len() as int;
    lemma_invert_string_value(s, k0, v.key, u13);
    lemma_concat_suffix(s, k0, k_s, u13);
    let pk: int = k0 + k_s.len() as int;
    lemma_lit_prefix(s, pk, ",\"updatedAt\":"@, u14);
    let u0: int = pk + ",\"updatedAt\":"@.len() as int;
    lemma_invert_ts_value(s, u0, v.updated_at, u15);
    lemma_concat_suffix(s, u0, t_u, u15);
    let pu: int = u0 + t_u.len() as int;
    assert(u15 =~= "}"@ + Seq::<char>::empty());
    lemma_lit_prefix(s, pu, "}"@, Seq::<char>::empty());
    assert(pu + 1 == s.len());
    assert(spec_parse_key_at(s, 0) == Some((v, s.len() as int)));
}

impl Key {
    /// The canonical rendering the service would send for this key: the
    /// read-path shape. Useful to fakes and tests; rendering then parsing
    /// gives back exactly this key.
    #[verifier::rlimit(100)]
    #[verifier::spinoff_prover]
    pub fn to_server_json(&self) -> (r: String)
        requires
            self.wf(),
        ensures
            r@ == key_read_json(self@),
            spec_parse_key_at(r@, 0) == Some((self@, r@.len() as int)),
    {
        let mut out = String::new();
        let ghost g0 = out@;
        push_char(&mut out, '{');
        let ghost g1 = out@;
        write_actions_segment(&mut out, &self.actions);
        let ghost g2 = out@;
        out.append("\"createdAt\":");
        let ghost g3 = out@;
        write_ts(&mut out, &self.created_at);
        let ghost g4 = out@;
        out.append(",\"description\":");
        let ghost g5 = out@;
        write_opt_string(&mut out, &self.description);
        let ghost g6 = out@;
        out.append(",\"name\":");
        let ghost g7 = out@;
        write_opt_string(&mut out, &self.name);
        let ghost g8 = out@;
        out.append(",\"expiresAt\":");
        let ghost g9 = out@;
        write_opt_ts(&mut out, &self.expires_at);
        let ghost g10 = out@;
        write_indexes_segment(&mut out, &self.indexes);
        let ghost g11 = out@;
        out.append(",\"key\":");
        let ghost g12 = out@;
        write_json_string(&mut out, self.key.as_str());
        let ghost g13 = out@;
        out.append(",\"updatedAt\":");
        let ghost g14 = out@;
        write_ts(&mut out, &self.updated_at);
        let ghost g15 = out@;
        push_char(&mut out, '}');
        let ghost g16 = out@;
        proof {
            let v16 = seq!['}'];
            let v15 = ts_json(self.updated_at) + v16;
            let v14 = ",\"updatedAt\":"@ + v15;
            let v13 = json_string(self.key@) + v14;
            let v12 = ",\"key\":"@ + v13;
            let v11 = indexes_segment(self.indexes.deep_view()) + v12;
            let v10 = opt_ts_json(self.expires_at.deep_view()) + v11;
            let v9 = ",\"expiresAt\":"@ + v10;
            let v8 = opt_string_json(self.name.deep_view()) + v9;
            let v7 = ",\"name\":"@ + v8;
            let v6 = opt_string_json(self.description.deep_view()) + v7;
            let v5 = ",\"description\":"@ + v6;
            let v4 = ts_json(self.created_at) + v5;
            let v3 = "\"createdAt\":"@ + v4;
            let v2 = actions_segment(self.actions@) + v3;
            let v1 = seq!['{'] + v2;
            assert(g16 == g15 + v16);
            assert((g14 + ts_json(self.updated_at)) + v16 =~= g14 + v15);
            assert((g13 + ",\"updatedAt\":"@) + v15 =~= g13 + v14);
            assert((g12 + json_string(self.key@)) + v14 =~= g12 + v13);
            assert((g11 + ",\"key\":"@) + v13 =~= g11 + v12);
            assert((g10 + indexes_segment(self.indexes.deep_view())) + v12 =~= g10 + v11);
            assert((g9 + opt_ts_json(self.expires_at.deep_view())) + v11 =~= g9 + v10);
            assert((g8 + ",\"expiresAt\":"@) + v10 =~= g8 + v9);
            assert((g7 + opt_string_json(self.name.deep_view())) + v9 =~= g7 + v8);
            assert((g6 + ",\"name\":"@) + v8 =~= g6 + v7);
            assert((g5 + opt_string_json(self.description.deep_view())) + v7 =~= g5 + v6);
            assert((g4 + ",\"description\":"@) + v6 =~= g4 + v5);
            assert((g3 + ts_json(self.created_at)) + v5 =~= g3 + v4);
            assert((g2 + "\"createdAt\":"@) + v4 =~= g2 + v3);
            assert((g1 + actions_segment(self.actions@)) + v3 =~= g1 + v2);
            assert((g0 + seq!['{']) + v2 =~= g0 + v1);
            assert(Seq::<char>::empty() + v1 =~= v1);
            assert(out@ == v1);
            assert(v1 == key_read_json(self@));
            lemma_key_read_round_trip(self@);
        }
        out
    }
}

} // verus!

