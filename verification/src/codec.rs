//! Character-level building blocks of the wire codec: JSON string escaping
//! and scanning, literal matching, and decimal numbers.

use vstd::prelude::*;
use vstd::string::StrSliceExecFns;
use vstd::string::StringExecFns;

verus! {

broadcast use vstd::string::group_string_axioms;

/// Relies on std's `String::push`: appends exactly the given character.
#[verifier::external_body]
pub(crate) fn push_char(s: &mut String, c: char)
    ensures
        final(s)@ == old(s)@.push(c),
{
    s.push(c);
}

/// How one character is written inside a JSON string: quote and backslash
/// get a backslash prefix, everything else stands as it is.
pub open spec fn escape_char(c: char) -> Seq<char> {
    if c == '"' || c == '\\' {
        seq!['\\', c]
    } else {
        seq![c]
    }
}

/// The escaped body of a JSON string.
pub open spec fn escape(s: Seq<char>) -> Seq<char>
    decreases s.len(),
{
    if s.len() == 0 {
        Seq::empty()
    } else {
        escape_char(s[0]) + escape(s.drop_first())
    }
}

/// A complete JSON string: quote, escaped body, quote.
pub open spec fn json_string(s: Seq<char>) -> Seq<char> {
    seq!['"'] + escape(s) + seq!['"']
}

pub proof fn lemma_escape_push(s: Seq<char>, c: char)
    ensures
        escape(s.push(c)) == escape(s) + escape_char(c),
    decreases s.len(),
{
    if s.len() == 0 {
        assert(s.push(c)[0] == c);
        assert(s.push(c).drop_first() =~= Seq::<char>::empty());
        assert(escape(s.push(c)) == escape_char(c) + escape(Seq::<char>::empty()));
        assert(escape_char(c) + Seq::<char>::empty() =~= escape_char(c));
        assert(escape(s) + escape_char(c) =~= escape_char(c));
    } else {
        assert(s.push(c).drop_first() =~= s.drop_first().push(c));
        lemma_escape_push(s.drop_first(), c);
        assert(escape(s.push(c)) =~= escape_char(s[0]) + (escape(s.drop_first())
            + escape_char(c)));
        assert(escape_char(s[0]) + (escape(s.drop_first()) + escape_char(c)) =~= (escape_char(s[0])
            + escape(s.drop_first())) + escape_char(c));
    }
}

/// Escape a string for embedding in a JSON string body.
pub fn escape_string(s: &str) -> (r: String)
    ensures
        r@ == escape(s@),
{
    let n = s.unicode_len();
    let mut out = String::new();
    let mut i: usize = 0;
    while i < n
        invariant
            n == s@.len(),
            i <= n,
            out@ == escape(s@.take(i as int)),
        decreases n - i,
    {
        let c = s.get_char(i);
        proof {
            lemma_escape_push(s@.take(i as int), c);
            assert(s@.take(i + 1) =~= s@.take(i as int).push(c));
        }
        if c == '"' || c == '\\' {
            push_char(&mut out, '\\');
        }
        push_char(&mut out, c);
        i = i + 1;
    }
    proof {
        assert(s@.take(n as int) =~= s@);
    }
    out
}

/// Append `json_string(s@)` to `out`.
pub fn write_json_string(out: &mut String, s: &str)
    ensures
        final(out)@ == old(out)@ + json_string(s@),
{
    push_char(out, '"');
    let es = escape_string(s);
    out.append(es.as_str());
    push_char(out, '"');
    proof {
        assert(old(out)@.push('"') + escape(s@) =~= old(out)@ + (seq!['"'] + escape(s@)));
        assert((old(out)@ + (seq!['"'] + escape(s@))).push('"') =~= old(out)@ + json_string(s@));
    }
}

/// The decimal rendering of a non-negative integer.
pub open spec fn dec_of(n: int) -> Seq<char>
    decreases n,
{
    if n < 10 {
        seq![((48 + n) as u8) as char]
    } else {
        dec_of(n / 10).push(((48 + n % 10) as u8) as char)
    }
}

/// Render an integer in decimal.
pub fn dec_u64(n: u64) -> (r: String)
    ensures
        r@ == dec_of(n as int),
    decreases n,
{
    if n < 10 {
        let mut s = String::new();
        push_char(&mut s, (48 + (n as u8)) as char);
        proof {
            assert(Seq::<char>::empty().push((48 + (n as u8)) as char) =~= dec_of(n as int));
        }
        s
    } else {
        let mut s = dec_u64(n / 10);
        push_char(&mut s, (48 + ((n % 10) as u8)) as char);
        s
    }
}

pub open spec fn is_digit(c: char) -> bool {
    48 <= c as int <= 57
}

pub open spec fn digit_val(c: char) -> int {
    c as int - 48
}

/// Greedy decimal scan from `pos` with accumulator `acc`; `None` once the
/// value would no longer fit in a `u32`.
pub open spec fn spec_parse_u32_loop(s: Seq<char>, pos: int, acc: int) -> Option<(int, int)>
    decreases s.len() - pos,
{
    if pos < 0 || pos >= s.len() || !is_digit(s[pos]) {
        Some((acc, pos))
    } else if acc * 10 + digit_val(s[pos]) > u32::MAX {
        None
    } else {
        spec_parse_u32_loop(s, pos + 1, acc * 10 + digit_val(s[pos]))
    }
}

/// A decimal `u32` read at `pos`: at least one digit, value within `u32`.
pub open spec fn spec_parse_u32(s: Seq<char>, pos: int) -> Option<(int, int)> {
    if 0 <= pos < s.len() && is_digit(s[pos]) {
        spec_parse_u32_loop(s, pos, 0)
    } else {
        None
    }
}

/// Parse a decimal `u32` at `pos`.
pub fn parse_u32(s: &str, pos: usize) -> (r: Option<(u32, usize)>)
    requires
        pos <= s@.len(),
    ensures
        r is Some <==> spec_parse_u32(s@, pos as int) is Some,
        r matches Some(p) ==> spec_parse_u32(s@, pos as int) == Some((p.0 as int, p.1 as int))
            && pos < p.1 <= s@.len(),
{
    let n = s.unicode_len();
    if pos >= n {
        return None;
    }
    let c0 = s.get_char(pos);
    if !(48 <= c0 as u32 && c0 as u32 <= 57) {
        return None;
    }
    let mut i: usize = pos;
    let mut acc: u32 = 0;
    while i < n && 48 <= s.get_char(i) as u32 && s.get_char(i) as u32 <= 57
        invariant
            pos <= i <= n,
            n == s@.len(),
            spec_parse_u32(s@, pos as int) == spec_parse_u32_loop(s@, i as int, acc as int),
            pos < i ==> i <= s@.len(),
            0 <= pos < s@.len() && is_digit(s@[pos as int]),
        decreases n - i,
    {
        let c = s.get_char(i);
        let d: u32 = c as u32 - 48;
        let wide: u64 = (acc as u64) * 10 + (d as u64);
        if wide > u32::MAX as u64 {
            return None;
        }
        acc = wide as u32;
        i = i + 1;
    }
    Some((acc, i))
}

/// The literal `lit` stands in `s` at position `pos`.
pub open spec fn lit_at(s: Seq<char>, pos: int, lit: Seq<char>) -> bool {
    0 <= pos && pos + lit.len() <= s.len() && s.subrange(pos, pos + lit.len()) == lit
}

/// Match the literal `lit` at `pos`; on success return the position after it.
pub fn try_lit(s: &str, pos: usize, lit: &str) -> (r: Option<usize>)
    requires
        pos <= s@.len(),
    ensures
        r matches Some(p) ==> lit_at(s@, pos as int, lit@) && p == pos + lit@.len(),
        r is None ==> !lit_at(s@, pos as int, lit@),
{
    let n = s.unicode_len();
    let m = lit.unicode_len();
    if n - pos < m {
        return None;
    }
    let mut i: usize = 0;
    while i < m
        invariant
            i <= m,
            m == lit@.len(),
            n == s@.len(),
            pos + m <= n,
            forall|j: int| 0 <= j < i ==> s@[pos + j] == lit@[j],
        decreases m - i,
    {
        if s.get_char(pos + i) != lit.get_char(i) {
            proof {
                assert(s@.subrange(pos as int, pos + lit@.len()) != lit@) by {
                    assert(s@.subrange(pos as int, pos + lit@.len())[i as int] == s@[pos + i]);
                }
            }
            return None;
        }
        i = i + 1;
    }
    proof {
        assert(s@.subrange(pos as int, pos + lit@.len()) =~= lit@);
    }
    Some(pos + m)
}

/// Scan the body of a JSON string starting after its opening quote:
/// unescape `\"` and `\\`, stop at the closing quote. `None` on any other
/// escape or a missing closing quote.
pub open spec fn spec_scan(s: Seq<char>, pos: int) -> Option<(Seq<char>, int)>
    decreases s.len() - pos,
{
    if pos < 0 || pos >= s.len() {
        None
    } else if s[pos] == '"' {
        Some((Seq::empty(), pos + 1))
    } else if s[pos] == '\\' {
        if pos + 1 < s.len() && (s[pos + 1] == '"' || s[pos + 1] == '\\') {
            match spec_scan(s, pos + 2) {
                Some(p) => Some((seq![s[pos + 1]] + p.0, p.1)),
                None => None,
            }
        } else {
            None
        }
    } else {
        match spec_scan(s, pos + 1) {
            Some(p) => Some((seq![s[pos]] + p.0, p.1)),
            None => None,
        }
    }
}

/// Scan a JSON string body at `pos` (the opening quote already consumed).
pub fn scan_string(s: &str, pos: usize) -> (r: Option<(String, usize)>)
    requires
        pos <= s@.len(),
    ensures
        r is Some <==> spec_scan(s@, pos as int) is Some,
        r matches Some(p) ==> spec_scan(s@, pos as int) == Some((p.0@, p.1 as int)) && pos < p.1
            <= s@.len(),
{
    let n = s.unicode_len();
    let mut out = String::new();
    let mut i: usize = pos;
    loop
        invariant
            pos <= i <= n,
            n == s@.len(),
            forall|t: Seq<char>, e: int|
                spec_scan(s@, i as int) == Some((t, e)) ==> spec_scan(s@, pos as int) == Some(
                    (out@ + t, e),
                ),
            spec_scan(s@, i as int) is None ==> spec_scan(s@, pos as int) is None,
        decreases n - i,
    {
        if i >= n {
            return None;
        }
        let c = s.get_char(i);
        if c == '"' {
            proof {
                assert(spec_scan(s@, i as int) == Some((Seq::<char>::empty(), i + 1)));
                assert(spec_scan(s@, pos as int) == Some((out@ + Seq::<char>::empty(), i + 1)));
                assert(out@ + Seq::<char>::empty() =~= out@);
            }
            return Some((out, i + 1));
        } else if c == '\\' {
            if i + 1 < n {
                let c2 = s.get_char(i + 1);
                if c2 == '"' || c2 == '\\' {
                    proof {
                        assert forall|t: Seq<char>, e: int|
                            spec_scan(s@, i + 2) == Some((t, e)) implies spec_scan(
                            s@,
                            pos as int,
                        ) == Some((out@.push(c2) + t, e)) by {
                            assert(spec_scan(s@, i as int) == Some((seq![c2] + t, e)));
                            assert(out@ + (seq![c2] + t) =~= out@.push(c2) + t);
                        }
                    }
                    push_char(&mut out, c2);
                    i = i + 2;
                } else {
                    return None;
                }
            } else {
                return None;
            }
        } else {
            proof {
                assert forall|t: Seq<char>, e: int|
                    spec_scan(s@, i + 1) == Some((t, e)) implies spec_scan(s@, pos as int) == Some(
                    (out@.push(c) + t, e),
                ) by {
                    assert(spec_scan(s@, i as int) == Some((seq![c] + t, e)));
                    assert(out@ + (seq![c] + t) =~= out@.push(c) + t);
                }
            }
            push_char(&mut out, c);
            i = i + 1;
        }
    }
}

/// Law: scanning recovers what escaping wrote. If the text at `pos` is the
/// escaped body of `t`, a closing quote, and anything after, the scan yields
/// `t` and stops just past the quote.
pub proof fn lemma_scan_escaped(s: Seq<char>, pos: int, t: Seq<char>, rest: Seq<char>)
    requires
        0 <= pos <= s.len(),
        s.subrange(pos, s.len() as int) == escape(t) + seq!['"'] + rest,
    ensures
        spec_scan(s, pos) == Some((t, pos + escape(t).len() + 1)),
    decreases t.len(),
{
    let suffix = s.subrange(pos, s.len() as int);
    assert(suffix.len() == escape(t).len() + 1 + rest.len());
    if t.len() == 0 {
        assert(escape(t) =~= Seq::<char>::empty());
        assert(s[pos] == suffix[0]);
        assert(suffix[0] == '"');
    } else {
        let c = t[0];
        let t2 = t.drop_first();
        assert(escape(t) == escape_char(c) + escape(t2));
        if c == '"' || c == '\\' {
            assert(escape(t).len() == 2 + escape(t2).len());
            assert(s[pos] == suffix[0] && suffix[0] == '\\');
            assert(s[pos + 1] == suffix[1] && suffix[1] == c);
            assert(suffix.subrange(2, suffix.len() as int) =~= escape(t2) + seq!['"'] + rest);
            assert(s.subrange(pos + 2, s.len() as int) =~= suffix.subrange(
                2,
                suffix.len() as int,
            ));
            lemma_scan_escaped(s, pos + 2, t2, rest);
            assert(seq![c] + t2 =~= t);
        } else {
            assert(escape(t).len() == 1 + escape(t2).len());
            assert(s[pos] == suffix[0] && suffix[0] == c);
            assert(suffix.subrange(1, suffix.len() as int) =~= escape(t2) + seq!['"'] + rest);
            assert(s.subrange(pos + 1, s.len() as int) =~= suffix.subrange(
                1,
                suffix.len() as int,
            ));
            lemma_scan_escaped(s, pos + 1, t2, rest);
            assert(seq![c] + t2 =~= t);
        }
    }
}

} // verus!
