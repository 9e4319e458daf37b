//! Timestamps as whole Unix seconds, with RFC 3339 rendering and parsing
//! delegated to the `time` crate.

use vstd::prelude::*;

verus! {

/// Earliest instant this library handles: 0000-01-01T00:00:00Z.
/// RFC 3339 renders years 0000 through 9999 only.
pub const TS_MIN: i64 = -62167219200;

/// Latest instant this library handles: 9999-12-31T23:59:59Z.
pub const TS_MAX: i64 = 253402300799;

/// The RFC 3339 rendering that `time` gives a UTC instant of `unix_seconds`
/// whole seconds (no fractional part), e.g. `1970-01-01T00:00:00Z`.
pub uninterp spec fn rfc3339_of(unix_seconds: i64) -> Seq<char>;

/// The instant, in whole Unix seconds, that `time` reads out of an RFC 3339
/// string; `None` where the string is not valid RFC 3339.
pub uninterp spec fn rfc3339_parse_of(s: Seq<char>) -> Option<i64>;

/// A Unix timestamp in whole seconds: the library's representation of the
/// service's RFC 3339 timestamps.
#[derive(Debug, Clone, Copy, PartialEq, Eq, Structural)]
pub struct Timestamp {
    pub unix_seconds: i64,
}

impl View for Timestamp {
    type V = Timestamp;

    open spec fn view(&self) -> Timestamp {
        *self
    }
}

impl DeepView for Timestamp {
    type V = Timestamp;

    open spec fn deep_view(&self) -> Timestamp {
        *self
    }
}

impl Timestamp {
    /// The timestamp lies in the range RFC 3339 can render (year 0000-9999).
    pub open spec fn wf(self) -> bool {
        TS_MIN <= self.unix_seconds <= TS_MAX
    }

    /// Render the timestamp as an RFC 3339 string.
    pub fn to_rfc3339(&self) -> (r: String)
        requires
            self.wf(),
        ensures
            r@ == rfc3339_of(self.unix_seconds),
            rfc3339_parse_of(r@) == Some(self.unix_seconds),
    {
        format_rfc3339(self.unix_seconds)
    }
}

/// Relies on time's `OffsetDateTime::from_unix_timestamp` (succeeds for every
/// year-0000-to-9999 instant) and its RFC 3339 `format`, which renders a UTC
/// instant with zero nanoseconds as `YYYY-MM-DDThh:mm:ssZ`; parsing that
/// rendering with time's RFC 3339 parser returns the same instant.
#[verifier::external_body]
fn format_rfc3339(unix_seconds: i64) -> (r: String)
    requires
        TS_MIN <= unix_seconds <= TS_MAX,
    ensures
        r@ == rfc3339_of(unix_seconds),
        rfc3339_parse_of(r@) == Some(unix_seconds),
{
    let odt = time::OffsetDateTime::from_unix_timestamp(unix_seconds).unwrap();
    odt.format(&time::format_description::well_known::Rfc3339).unwrap()
}

/// Relies on time's `OffsetDateTime::parse` with the RFC 3339 description
/// and `unix_timestamp`: a deterministic function of the input string that
/// inverts time's own RFC 3339 rendering.
#[verifier::external_body]
fn parse_rfc3339_seconds(s: &str) -> (r: Option<i64>)
    ensures
        r == rfc3339_parse_of(s@),
        forall|x: i64| TS_MIN <= x <= TS_MAX && s@ == rfc3339_of(x) ==> r == Some(x),
{
    match time::OffsetDateTime::parse(s, &time::format_description::well_known::Rfc3339) {
        Ok(odt) => Some(odt.unix_timestamp()),
        Err(_) => None,
    }
}

/// What `parse_timestamp` returns: the parsed instant, kept only when it lies
/// in the range the library handles.
pub open spec fn spec_parse_timestamp(s: Seq<char>) -> Option<Timestamp> {
    match rfc3339_parse_of(s) {
        Some(x) => if TS_MIN <= x <= TS_MAX {
            Some(Timestamp { unix_seconds: x })
        } else {
            None
        },
        None => None,
    }
}

/// Read an RFC 3339 string back into a `Timestamp`.
pub fn parse_timestamp(s: &str) -> (r: Option<Timestamp>)
    ensures
        r == spec_parse_timestamp(s@),
        r matches Some(t) ==> t.wf(),
        forall|x: i64|
            TS_MIN <= x <= TS_MAX && s@ == rfc3339_of(x) ==> r == Some(
                Timestamp { unix_seconds: x },
            ),
{
    match parse_rfc3339_seconds(s) {
        Some(x) => if TS_MIN <= x && x <= TS_MAX {
            Some(Timestamp { unix_seconds: x })
        } else {
            None
        },
        None => None,
    }
}

} // verus!
