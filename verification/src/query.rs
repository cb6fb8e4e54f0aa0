//! Extraction of the `ticket` parameter from a request's query string,
//! with form-urlencoded decoding: parts are separated by `&`, a part
//! splits at its first `=`, `+` stands for a space and `%XX` for the
//! character with that code. When the same key appears more than once
//! the last occurrence decides. A malformed escape — truncated, not
//! hexadecimal, or above `%7F` — yields no ticket: the caller then
//! treats the request as unticketed and falls back to the login
//! redirect.

use vstd::prelude::*;

use crate::strutil::{chars_of, string_of};

verus! {

pub open spec fn is_hex_digit(c: char) -> bool {
    ('0' <= c && c <= '9') || ('a' <= c && c <= 'f') || ('A' <= c && c <= 'F')
}

pub open spec fn hex_val(c: char) -> int {
    if '0' <= c && c <= '9' {
        c as u32 - '0' as u32
    } else if 'a' <= c && c <= 'f' {
        c as u32 - 'a' as u32 + 10
    } else {
        c as u32 - 'A' as u32 + 10
    }
}

/// Form-urlencoded decoding of one key or value: `+` is a space, `%XX`
/// the character with code `XX` (at most `%7F`); anything else stands
/// for itself. `None` on a malformed escape.
pub open spec fn pct_decode(s: Seq<char>) -> Option<Seq<char>>
    decreases s.len(),
{
    if s.len() == 0 {
        Some(Seq::empty())
    } else if s[0] == '%' {
        if s.len() >= 3 && is_hex_digit(s[1]) && is_hex_digit(s[2]) && hex_val(s[1]) * 16 + hex_val(
            s[2],
        ) < 128 {
            match pct_decode(s.skip(3)) {
                Some(r) => Some(
                    seq![((hex_val(s[1]) * 16 + hex_val(s[2])) as u8) as char] + r,
                ),
                None => None,
            }
        } else {
            None
        }
    } else if s[0] == '+' {
        match pct_decode(s.drop_first()) {
            Some(r) => Some(seq![' '] + r),
            None => None,
        }
    } else {
        match pct_decode(s.drop_first()) {
            Some(r) => Some(seq![s[0]] + r),
            None => None,
        }
    }
}

/// The index of the first occurrence of `sep`, or the length.
pub open spec fn first_index(s: Seq<char>, sep: char) -> nat
    decreases s.len(),
{
    if s.len() == 0 {
        0
    } else if s[0] == sep {
        0
    } else {
        (first_index(s.drop_first(), sep) + 1) as nat
    }
}

/// What one `key[=value]` part says about the ticket: `None` when its
/// decoded key is not `ticket`, otherwise the decode of its value (a
/// part without `=` has the empty value).
pub open spec fn part_ticket(part: Seq<char>) -> Option<Option<Seq<char>>> {
    let i = first_index(part, '=') as int;
    let key = part.take(i);
    let value = if i == part.len() {
        Seq::<char>::empty()
    } else {
        part.skip(i + 1)
    };
    if pct_decode(key) == Some("ticket"@) {
        Some(pct_decode(value))
    } else {
        None
    }
}

pub proof fn lemma_first_index_le(s: Seq<char>, sep: char)
    ensures
        first_index(s, sep) <= s.len(),
    decreases s.len(),
{
    if s.len() > 0 && s[0] != sep {
        lemma_first_index_le(s.drop_first(), sep);
    }
}

/// The ticket the whole query string carries: the last part keyed
/// `ticket` decides; `None` when no part is.
pub open spec fn query_ticket(s: Seq<char>) -> Option<Option<Seq<char>>>
    decreases s.len(),
{
    let i = first_index(s, '&') as int;
    if i == s.len() {
        part_ticket(s)
    } else {
        proof {
            lemma_first_index_le(s, '&');
        }
        match query_ticket(s.skip(i + 1)) {
            Some(v) => Some(v),
            None => part_ticket(s.take(i)),
        }
    }
}

/// The value of the `ticket` query parameter, decoded.
pub open spec fn ticket_spec(q: Seq<char>) -> Option<Seq<char>> {
    match query_ticket(q) {
        Some(v) => v,
        None => None,
    }
}

proof fn lemma_first_index_is(s: Seq<char>, sep: char, i: int)
    requires
        0 <= i <= s.len(),
        forall|k: int| 0 <= k < i ==> s[k] != sep,
        i < s.len() ==> s[i] == sep,
    ensures
        first_index(s, sep) == i,
    decreases i,
{
    if i == 0 {
    } else {
        assert(s[0] != sep);
        lemma_first_index_is(s.drop_first(), sep, i - 1);
        assert(forall|k: int| 0 <= k < i - 1 ==> s.drop_first()[k] == s[k + 1]);
    }
}

/// The first occurrence of `sep` in `v` at or after `start`, or the
/// length; it equals `start` plus the specified first index of the
/// suffix.
fn find_from(v: &Vec<char>, start: usize, sep: char) -> (r: usize)
    requires
        start <= v@.len(),
    ensures
        start <= r <= v@.len(),
        r - start == first_index(v@.skip(start as int), sep),
        r < v@.len() ==> v@[r as int] == sep,
{
    let n = v.len();
    let mut j = start;
    while j < n && v[j] != sep
        invariant
            start <= j <= n,
            n == v@.len(),
            forall|k: int| start <= k < j ==> v@[k] != sep,
        decreases n - j,
    {
        j = j + 1;
    }
    proof {
        let suffix = v@.skip(start as int);
        assert(forall|k: int| 0 <= k < j - start ==> suffix[k] == v@[k + start]);
        if j < n {
            assert(suffix[j - start] == v@[j as int]);
        }
        lemma_first_index_is(suffix, sep, j - start);
    }
    j
}

fn hex_digit_value(c: char) -> (r: Option<u32>)
    ensures
        r is Some <==> is_hex_digit(c),
        r matches Some(v) ==> v == hex_val(c) && v < 16,
{
    if '0' <= c && c <= '9' {
        Some(c as u32 - '0' as u32)
    } else if 'a' <= c && c <= 'f' {
        Some(c as u32 - 'a' as u32 + 10)
    } else if 'A' <= c && c <= 'F' {
        Some(c as u32 - 'A' as u32 + 10)
    } else {
        None
    }
}

/// Decodes `v[start..end]` as one form-urlencoded field.
fn decode_range(v: &Vec<char>, start: usize, end: usize) -> (r: Option<Vec<char>>)
    requires
        start <= end <= v@.len(),
    ensures
        r is Some <==> pct_decode(v@.subrange(start as int, end as int)) is Some,
        r matches Some(out) ==> pct_decode(v@.subrange(start as int, end as int)) == Some(out@),
{
    let ghost whole = v@.subrange(start as int, end as int);
    let mut out: Vec<char> = Vec::new();
    let mut j = start;
    while j < end
        invariant
            start <= j <= end <= v@.len(),
            whole == v@.subrange(start as int, end as int),
            pct_decode(whole) == match pct_decode(v@.subrange(j as int, end as int)) {
                Some(r) => Some(out@ + r),
                None => None::<Seq<char>>,
            },
        decreases end - j,
    {
        let ghost rest = v@.subrange(j as int, end as int);
        proof {
            assert(rest[0] == v@[j as int]);
            assert(rest.drop_first() =~= v@.subrange(j + 1, end as int));
        }
        let c = v[j];
        if c == '%' {
            if end - j > 2 {
                proof {
                    assert(rest[1] == v@[j + 1]);
                    assert(rest[2] == v@[j + 2]);
                    assert(rest.skip(3) =~= v@.subrange(j + 3, end as int));
                }
                let h1 = hex_digit_value(v[j + 1]);
                let h2 = hex_digit_value(v[j + 2]);
                match (h1, h2) {
                    (Some(a), Some(b)) => {
                        let code = a * 16 + b;
                        if code < 128 {
                            out.push((code as u8) as char);
                            j = j + 3;
                        } else {
                            return None;
                        }
                    },
                    _ => {
                        return None;
                    },
                }
            } else {
                proof {
                    assert(rest.len() < 3);
                }
                return None;
            }
        } else if c == '+' {
            out.push(' ');
            j = j + 1;
        } else {
            out.push(c);
            j = j + 1;
        }
        proof {
            assert(pct_decode(whole) == match pct_decode(v@.subrange(j as int, end as int)) {
                Some(r) => Some(out@ + r),
                None => None::<Seq<char>>,
            });
        }
    }
    proof {
        assert(v@.subrange(end as int, end as int) =~= Seq::<char>::empty());
        assert(out@ + Seq::<char>::empty() =~= out@);
    }
    Some(out)
}

/// What the part `v[start..end]` says about the ticket.
fn part_ticket_exec(v: &Vec<char>, start: usize, end: usize) -> (r: Option<Option<Vec<char>>>)
    requires
        start <= end <= v@.len(),
    ensures
        ({
            let spec_r = part_ticket(v@.subrange(start as int, end as int));
            match r {
                None => spec_r is None,
                Some(None) => spec_r == Some(None::<Seq<char>>),
                Some(Some(out)) => spec_r == Some(Some(out@)),
            }
        }),
{
    let ghost part = v@.subrange(start as int, end as int);
    let eq = find_in_range(v, start, end, '=');
    proof {
        assert(part =~= v@.subrange(start as int, end as int));
        assert(v@.subrange(start as int, end as int).skip(eq - start) =~= v@.subrange(
            eq as int,
            end as int,
        ));
        assert(part.take(eq - start) =~= v@.subrange(start as int, eq as int));
        if eq < end {
            assert(part.skip(eq - start + 1) =~= v@.subrange(eq + 1, end as int));
        }
    }
    let key = decode_range(v, start, eq);
    match key {
        Some(k) => {
            let ks = string_of(&k);
            if crate::strutil::str_eq(ks.as_str(), "ticket") {
                let (vs, ve) = if eq < end {
                    (eq + 1, end)
                } else {
                    (end, end)
                };
                proof {
                    if eq == end {
                        assert(v@.subrange(end as int, end as int) =~= Seq::<char>::empty());
                    }
                }
                match decode_range(v, vs, ve) {
                    Some(val) => Some(Some(val)),
                    None => Some(None),
                }
            } else {
                None
            }
        },
        None => None,
    }
}

/// `find_from`, bounded to `end`: the first `sep` in `v[start..end]`.
fn find_in_range(v: &Vec<char>, start: usize, end: usize, sep: char) -> (r: usize)
    requires
        start <= end <= v@.len(),
    ensures
        start <= r <= end,
        r - start == first_index(v@.subrange(start as int, end as int), sep),
        r < end ==> v@[r as int] == sep,
{
    let mut j = start;
    while j < end && v[j] != sep
        invariant
            start <= j <= end <= v@.len(),
            forall|k: int| start <= k < j ==> v@[k] != sep,
        decreases end - j,
    {
        j = j + 1;
    }
    proof {
        let part = v@.subrange(start as int, end as int);
        assert(forall|k: int| 0 <= k < j - start ==> part[k] == v@[k + start]);
        if j < end {
            assert(part[j - start] == v@[j as int]);
        }
        lemma_first_index_is(part, sep, j - start);
    }
    j
}

/// The ticket in `v[start..]`, the last `ticket`-keyed part deciding.
fn query_ticket_exec(v: &Vec<char>, start: usize) -> (r: Option<Option<Vec<char>>>)
    requires
        start <= v@.len(),
    ensures
        ({
            let spec_r = query_ticket(v@.skip(start as int));
            match r {
                None => spec_r is None,
                Some(None) => spec_r == Some(None::<Seq<char>>),
                Some(Some(out)) => spec_r == Some(Some(out@)),
            }
        }),
    decreases v@.len() - start,
{
    let ghost suffix = v@.skip(start as int);
    let amp = find_from(v, start, '&');
    proof {
        assert(suffix =~= v@.subrange(start as int, v@.len() as int));
        assert(suffix.take(amp - start) =~= v@.subrange(start as int, amp as int));
        if amp < v.len() {
            assert(suffix.skip(amp - start + 1) =~= v@.skip(amp + 1));
        }
    }
    if amp == v.len() {
        proof {
            assert(v@.subrange(start as int, amp as int) =~= suffix);
        }
        part_ticket_exec(v, start, amp)
    } else {
        match query_ticket_exec(v, amp + 1) {
            Some(found) => Some(found),
            None => part_ticket_exec(v, start, amp),
        }
    }
}

/// The decoded value of the `ticket` query parameter, if the query
/// string carries one; when the same key appears more than once the
/// last occurrence decides. A part with a malformed escape under the
/// `ticket` key yields `None`: a request with an unreadable ticket is
/// treated as having none.
pub fn ticket_for_query_string(query_string: &str) -> (r: Option<String>)
    ensures
        match r {
            Some(t) => ticket_spec(query_string@) == Some(t@),
            None => ticket_spec(query_string@) is None,
        },
{
    let v = chars_of(query_string);
    proof {
        assert(v@.skip(0) =~= query_string@);
    }
    match query_ticket_exec(&v, 0) {
        Some(Some(t)) => Some(string_of(&t)),
        Some(None) => None,
        None => None,
    }
}

} // verus!
