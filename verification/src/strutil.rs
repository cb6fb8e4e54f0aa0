//! Small executable helpers over `String` and `&str` that the rest of the
//! library builds on: pushing a single character, comparing string slices,
//! and collecting the characters of a slice into a vector.

use vstd::prelude::*;

verus! {

/// Relies on `String::push`: appends exactly the given character.
#[verifier::external_body]
pub fn push_char(s: &mut String, c: char)
    ensures
        final(s)@ == old(s)@.push(c),
{
    s.push(c);
}

/// Relies on `str`'s `PartialEq`: two slices are equal exactly when their
/// character sequences are.
#[verifier::external_body]
pub fn str_eq(a: &str, b: &str) -> (r: bool)
    ensures
        r == (a@ == b@),
{
    a == b
}

/// The characters of `s`, in order, as a vector.
pub fn chars_of(s: &str) -> (r: Vec<char>)
    ensures
        r@ == s@,
{
    let n: usize = s.unicode_len();
    let mut r: Vec<char> = Vec::new();
    let mut i: usize = 0;
    while i < n
        invariant
            n == s@.len(),
            i <= n,
            r@ == s@.take(i as int),
        decreases n - i,
    {
        r.push(s.get_char(i));
        i = i + 1;
        proof {
            assert(s@.take(i as int) =~= s@.take(i - 1).push(s@[i - 1]));
        }
    }
    proof {
        assert(s@.take(n as int) =~= s@);
    }
    r
}

/// `s` without its leading `/` characters.
pub open spec fn strip_leading_slashes(s: Seq<char>) -> Seq<char>
    decreases s.len(),
{
    if s.len() > 0 && s[0] == '/' {
        strip_leading_slashes(s.drop_first())
    } else {
        s
    }
}

/// `s` without its trailing `/` characters.
pub open spec fn strip_trailing_slashes(s: Seq<char>) -> Seq<char>
    decreases s.len(),
{
    if s.len() > 0 && s[s.len() - 1] == '/' {
        strip_trailing_slashes(s.drop_last())
    } else {
        s
    }
}

/// A path segment with neither leading nor trailing `/`.
pub open spec fn normalize_segment_spec(s: Seq<char>) -> Seq<char> {
    strip_trailing_slashes(strip_leading_slashes(s))
}

/// `s`, given a trailing `/` if it does not already end with one.
pub open spec fn with_trailing_slash_spec(s: Seq<char>) -> Seq<char> {
    if s.len() > 0 && s[s.len() - 1] == '/' {
        s
    } else {
        s.push('/')
    }
}

/// `s` with every leading and trailing `/` removed.
pub fn normalize_segment(s: &str) -> (r: String)
    ensures
        r@ == normalize_segment_spec(s@),
{
    let v = chars_of(s);
    let n: usize = v.len();
    proof {
        assert(s@.skip(0) =~= s@);
    }
    let mut a: usize = 0;
    while a < n && v[a] == '/'
        invariant
            n == s@.len(),
            v@ == s@,
            a <= n,
            strip_leading_slashes(s@) == strip_leading_slashes(s@.skip(a as int)),
        decreases n - a,
    {
        proof {
            assert(s@.skip(a as int)[0] == s@[a as int]);
            assert(s@.skip(a as int).drop_first() =~= s@.skip(a + 1));
        }
        a = a + 1;
    }
    proof {
        if a < n {
            assert(s@.skip(a as int)[0] == s@[a as int]);
        } else {
            assert(s@.skip(a as int) =~= Seq::<char>::empty());
        }
        assert(strip_leading_slashes(s@) =~= s@.skip(a as int));
    }
    let ghost t = s@.skip(a as int);
    proof {
        assert(t.take(n - a) =~= t);
    }
    let mut b: usize = n;
    while b > a && v[b - 1] == '/'
        invariant
            n == s@.len(),
            v@ == s@,
            a <= b <= n,
            t == s@.skip(a as int),
            strip_trailing_slashes(t) == strip_trailing_slashes(t.take(b - a)),
        decreases b,
    {
        proof {
            assert(t.take(b - a)[b - a - 1] == s@[b - 1]);
            assert(t.take(b - a).drop_last() =~= t.take(b - a - 1));
        }
        b = b - 1;
    }
    proof {
        if b > a {
            assert(t.take(b - a)[b - a - 1] == s@[b - 1]);
        }
        assert(strip_trailing_slashes(t) =~= t.take(b - a));
    }
    let mut out: Vec<char> = Vec::new();
    let mut i: usize = a;
    while i < b
        invariant
            v@ == s@,
            a <= i <= b <= s@.len(),
            t == s@.skip(a as int),
            out@ == t.take(i - a),
        decreases b - i,
    {
        out.push(v[i]);
        i = i + 1;
        proof {
            assert(t.take(i - a) =~= t.take(i - a - 1).push(t[i - a - 1]));
            assert(t[i - a - 1] == s@[i - 1]);
        }
    }
    string_of(&out)
}

/// `s` with every trailing `/` removed.
pub fn strip_trailing(s: &str) -> (r: String)
    ensures
        r@ == strip_trailing_slashes(s@),
{
    let v = chars_of(s);
    let n: usize = v.len();
    proof {
        assert(s@.take(n as int) =~= s@);
    }
    let mut b: usize = n;
    while b > 0 && v[b - 1] == '/'
        invariant
            n == s@.len(),
            v@ == s@,
            b <= n,
            strip_trailing_slashes(s@) == strip_trailing_slashes(s@.take(b as int)),
        decreases b,
    {
        proof {
            assert(s@.take(b as int)[b - 1] == s@[b - 1]);
            assert(s@.take(b as int).drop_last() =~= s@.take(b - 1));
        }
        b = b - 1;
    }
    proof {
        if b > 0 {
            assert(s@.take(b as int)[b - 1] == s@[b - 1]);
        }
        assert(strip_trailing_slashes(s@) =~= s@.take(b as int));
    }
    let mut out: Vec<char> = Vec::new();
    let mut i: usize = 0;
    while i < b
        invariant
            v@ == s@,
            i <= b <= s@.len(),
            out@ == s@.take(i as int),
        decreases b - i,
    {
        out.push(v[i]);
        i = i + 1;
        proof {
            assert(s@.take(i as int) =~= s@.take(i - 1).push(s@[i - 1]));
        }
    }
    string_of(&out)
}

/// `s` with a trailing `/` appended when it lacks one.
pub fn with_trailing_slash(s: &str) -> (r: String)
    ensures
        r@ == with_trailing_slash_spec(s@),
{
    let n: usize = s.unicode_len();
    let mut r = s.to_owned();
    if n == 0 || s.get_char(n - 1) != '/' {
        push_char(&mut r, '/');
    }
    r
}

/// A string holding exactly the characters of `v`, in order.
pub fn string_of(v: &Vec<char>) -> (r: String)
    ensures
        r@ == v@,
{
    let mut r = String::new();
    let mut i: usize = 0;
    while i < v.len()
        invariant
            i <= v@.len(),
            r@ == v@.take(i as int),
        decreases v@.len() - i,
    {
        push_char(&mut r, v[i]);
        i = i + 1;
        proof {
            assert(v@.take(i as int) =~= v@.take(i - 1).push(v@[i - 1]));
        }
    }
    proof {
        assert(v@.take(v@.len() as int) =~= v@);
    }
    r
}

} // verus!
