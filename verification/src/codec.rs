//! Lossless text encoding of a [`CasUser`] for storage in opaque session
//! state. Fields (username, then key/value pairs in order) are separated
//! by a newline; newlines and backslashes inside a field are escaped with
//! a backslash. Decoding inverts encoding exactly; see
//! [`lemma_raw_round_trip`].

use vstd::prelude::*;

use crate::strutil::{chars_of, string_of};
use crate::user::{attrs_unique_keys, Attributes, CasUser, UserView};

verus! {

// ---------------------------------------------------------------------------
// Encoding, specification level
// ---------------------------------------------------------------------------

/// The escaped form of one character.
pub open spec fn esc_char(c: char) -> Seq<char> {
    if c == '\n' {
        seq!['\\', 'n']
    } else if c == '\\' {
        seq!['\\', '\\']
    } else {
        seq![c]
    }
}

/// A field with every separator and escape character escaped.
pub open spec fn enc_field(s: Seq<char>) -> Seq<char>
    decreases s.len(),
{
    if s.len() == 0 {
        Seq::empty()
    } else {
        esc_char(s[0]) + enc_field(s.drop_first())
    }
}

/// The attribute pairs, each key and value a separated field.
pub open spec fn enc_pairs(ps: Seq<(Seq<char>, Seq<char>)>) -> Seq<char>
    decreases ps.len(),
{
    if ps.len() == 0 {
        Seq::empty()
    } else {
        seq!['\n'] + enc_field(ps[0].0) + seq!['\n'] + enc_field(ps[0].1) + enc_pairs(
            ps.drop_first(),
        )
    }
}

/// The serialized form of a user.
pub open spec fn enc_user(u: UserView) -> Seq<char> {
    enc_field(u.username) + enc_pairs(u.attributes)
}

// ---------------------------------------------------------------------------
// Decoding, specification level: a character-at-a-time scanner
// ---------------------------------------------------------------------------

/// The scanner's state: completed fields, the field being read, whether
/// the last character was an unconsumed escape, and whether an invalid
/// escape was seen.
pub ghost struct ScanState {
    pub fields: Seq<Seq<char>>,
    pub cur: Seq<char>,
    pub esc: bool,
    pub bad: bool,
}

pub open spec fn scan_init() -> ScanState {
    ScanState { fields: Seq::empty(), cur: Seq::empty(), esc: false, bad: false }
}

pub open spec fn scan_clean(st: ScanState) -> bool {
    !st.esc && !st.bad
}

pub open spec fn scan_step(st: ScanState, c: char) -> ScanState {
    if st.bad {
        st
    } else if st.esc {
        if c == 'n' {
            ScanState { cur: st.cur.push('\n'), esc: false, ..st }
        } else if c == '\\' {
            ScanState { cur: st.cur.push('\\'), esc: false, ..st }
        } else {
            ScanState { bad: true, ..st }
        }
    } else if c == '\\' {
        ScanState { esc: true, ..st }
    } else if c == '\n' {
        ScanState { fields: st.fields.push(st.cur), cur: Seq::empty(), ..st }
    } else {
        ScanState { cur: st.cur.push(c), ..st }
    }
}

pub open spec fn scan(s: Seq<char>, st: ScanState) -> ScanState
    decreases s.len(),
{
    if s.len() == 0 {
        st
    } else {
        scan(s.drop_first(), scan_step(st, s[0]))
    }
}

/// The fields of `s`, or `None` when `s` ends inside an escape or holds
/// an invalid one. The field being read when the input ends is the last
/// field, so there is always at least one.
pub open spec fn fields_of(s: Seq<char>) -> Option<Seq<Seq<char>>> {
    let st = scan(s, scan_init());
    if st.bad || st.esc {
        None
    } else {
        Some(st.fields.push(st.cur))
    }
}

/// Consecutive fields grouped into pairs.
pub open spec fn pairs_of_fields(fs: Seq<Seq<char>>) -> Seq<(Seq<char>, Seq<char>)>
    decreases fs.len(),
{
    if fs.len() < 2 {
        Seq::empty()
    } else {
        seq![(fs[0], fs[1])] + pairs_of_fields(fs.skip(2))
    }
}

/// The user a serialized string stands for, if any: an odd number of
/// well-scanned fields (username, then pairs) with unique keys.
pub open spec fn dec_user(s: Seq<char>) -> Option<UserView> {
    match fields_of(s) {
        None => None,
        Some(fs) => {
            if fs.len() % 2 == 1 {
                let ps = pairs_of_fields(fs.drop_first());
                if attrs_unique_keys(ps) {
                    Some(UserView { username: fs[0], attributes: ps })
                } else {
                    None
                }
            } else {
                None
            }
        },
    }
}

// ---------------------------------------------------------------------------
// Lemmas about the scanner
// ---------------------------------------------------------------------------

proof fn lemma_scan_app(a: Seq<char>, b: Seq<char>, st: ScanState)
    ensures
        scan(a + b, st) == scan(b, scan(a, st)),
    decreases a.len(),
{
    if a.len() == 0 {
        assert(a + b =~= b);
    } else {
        assert((a + b).drop_first() =~= a.drop_first() + b);
        lemma_scan_app(a.drop_first(), b, scan_step(st, a[0]));
    }
}

proof fn lemma_scan_snoc(s: Seq<char>, c: char, st: ScanState)
    ensures
        scan(s.push(c), st) == scan_step(scan(s, st), c),
{
    reveal_with_fuel(scan, 3);
    assert(s.push(c) =~= s + seq![c]);
    lemma_scan_app(s, seq![c], st);
    assert(seq![c].drop_first() =~= Seq::<char>::empty());
    assert(seq![c][0] == c);
}

proof fn lemma_scan_bad(s: Seq<char>, st: ScanState)
    requires
        st.bad,
    ensures
        scan(s, st) == st,
    decreases s.len(),
{
    if s.len() > 0 {
        lemma_scan_bad(s.drop_first(), st);
    }
}

proof fn lemma_scan_esc_char(c: char, st: ScanState)
    requires
        scan_clean(st),
    ensures
        scan(esc_char(c), st) == (ScanState { cur: st.cur.push(c), ..st }),
{
    reveal_with_fuel(scan, 3);
    if c == '\n' || c == '\\' {
        assert(esc_char(c).len() == 2);
        assert(esc_char(c)[0] == '\\');
        assert(esc_char(c)[1] == (if c == '\n' { 'n' } else { '\\' }));
        assert(esc_char(c).drop_first() =~= seq![if c == '\n' { 'n' } else { '\\' }]);
        assert(esc_char(c).drop_first().drop_first() =~= Seq::<char>::empty());
    } else {
        assert(esc_char(c)[0] == c);
        assert(esc_char(c).drop_first() =~= Seq::<char>::empty());
    }
}

proof fn lemma_scan_enc_field(s: Seq<char>, st: ScanState)
    requires
        scan_clean(st),
    ensures
        scan(enc_field(s), st) == (ScanState { cur: st.cur + s, ..st }),
    decreases s.len(),
{
    if s.len() == 0 {
        assert(st.cur + s =~= st.cur);
    } else {
        lemma_scan_app(esc_char(s[0]), enc_field(s.drop_first()), st);
        lemma_scan_esc_char(s[0], st);
        let st1 = ScanState { cur: st.cur.push(s[0]), ..st };
        lemma_scan_enc_field(s.drop_first(), st1);
        assert(st.cur.push(s[0]) + s.drop_first() =~= st.cur + s);
    }
}

/// The fields `[k1, v1, k2, v2, ...]` of a pair list, flattened.
spec fn flat_pairs(ps: Seq<(Seq<char>, Seq<char>)>) -> Seq<Seq<char>>
    decreases ps.len(),
{
    if ps.len() == 0 {
        Seq::empty()
    } else {
        seq![ps[0].0, ps[0].1] + flat_pairs(ps.drop_first())
    }
}

proof fn lemma_scan_enc_pairs(ps: Seq<(Seq<char>, Seq<char>)>, st: ScanState)
    requires
        scan_clean(st),
    ensures
        scan_clean(scan(enc_pairs(ps), st)),
        scan(enc_pairs(ps), st).fields.push(scan(enc_pairs(ps), st).cur) == st.fields.push(
            st.cur,
        ) + flat_pairs(ps),
    decreases ps.len(),
{
    reveal_with_fuel(scan, 3);
    if ps.len() == 0 {
        assert(st.fields.push(st.cur) + flat_pairs(ps) =~= st.fields.push(st.cur));
    } else {
        let k = ps[0].0;
        let v = ps[0].1;
        let tail = seq!['\n'] + enc_field(v) + enc_pairs(ps.drop_first());
        assert(enc_pairs(ps) =~= seq!['\n'] + (enc_field(k) + tail));
        lemma_scan_app(seq!['\n'], enc_field(k) + tail, st);
        assert(seq!['\n'].drop_first() =~= Seq::<char>::empty());
        assert(seq!['\n'][0] == '\n');
        let st1 = scan_step(st, '\n');
        assert(scan(seq!['\n'], st) == st1);
        lemma_scan_app(enc_field(k), tail, st1);
        lemma_scan_enc_field(k, st1);
        let st2 = ScanState { cur: st1.cur + k, ..st1 };
        assert(st2.cur =~= k);
        assert(tail =~= seq!['\n'] + (enc_field(v) + enc_pairs(ps.drop_first())));
        lemma_scan_app(seq!['\n'], enc_field(v) + enc_pairs(ps.drop_first()), st2);
        let st3 = scan_step(st2, '\n');
        assert(scan(seq!['\n'], st2) == st3);
        lemma_scan_app(enc_field(v), enc_pairs(ps.drop_first()), st3);
        lemma_scan_enc_field(v, st3);
        let st4 = ScanState { cur: st3.cur + v, ..st3 };
        assert(st4.cur =~= v);
        lemma_scan_enc_pairs(ps.drop_first(), st4);
        assert(st4.fields =~= st.fields.push(st.cur).push(k));
        assert(st4.fields.push(st4.cur) + flat_pairs(ps.drop_first()) =~= st.fields.push(st.cur)
            + flat_pairs(ps));
    }
}

proof fn lemma_flat_pairs_len(ps: Seq<(Seq<char>, Seq<char>)>)
    ensures
        flat_pairs(ps).len() == 2 * ps.len(),
    decreases ps.len(),
{
    if ps.len() > 0 {
        lemma_flat_pairs_len(ps.drop_first());
    }
}

proof fn lemma_pairs_of_flat(ps: Seq<(Seq<char>, Seq<char>)>)
    ensures
        pairs_of_fields(flat_pairs(ps)) == ps,
    decreases ps.len(),
{
    if ps.len() == 0 {
        assert(pairs_of_fields(flat_pairs(ps)) =~= ps);
    } else {
        lemma_flat_pairs_len(ps.drop_first());
        assert(flat_pairs(ps).skip(2) =~= flat_pairs(ps.drop_first()));
        lemma_pairs_of_flat(ps.drop_first());
        assert(pairs_of_fields(flat_pairs(ps)) =~= ps);
    }
}

/// Law: decoding inverts encoding. For every user value whose attribute
/// keys are unique, the serialized form decodes to exactly that value.
pub proof fn lemma_raw_round_trip(u: UserView)
    requires
        attrs_unique_keys(u.attributes),
    ensures
        dec_user(enc_user(u)) == Some(u),
{
    lemma_scan_app(enc_field(u.username), enc_pairs(u.attributes), scan_init());
    lemma_scan_enc_field(u.username, scan_init());
    let st1 = scan(enc_field(u.username), scan_init());
    assert(st1.cur =~= u.username);
    lemma_scan_enc_pairs(u.attributes, st1);
    let st2 = scan(enc_user(u), scan_init());
    lemma_flat_pairs_len(u.attributes);
    let fs = st2.fields.push(st2.cur);
    assert(fs == seq![u.username] + flat_pairs(u.attributes)) by {
        assert(st1.fields.push(st1.cur) =~= seq![u.username]);
    }
    assert(fs.len() % 2 == 1);
    assert(fs.drop_first() =~= flat_pairs(u.attributes));
    lemma_pairs_of_flat(u.attributes);
    assert(fs[0] == u.username);
}

// ---------------------------------------------------------------------------
// Lemmas that step the specification along with the executable loops
// ---------------------------------------------------------------------------

proof fn lemma_enc_field_push(s: Seq<char>, c: char)
    ensures
        enc_field(s.push(c)) == enc_field(s) + esc_char(c),
    decreases s.len(),
{
    reveal_with_fuel(enc_field, 3);
    if s.len() == 0 {
        assert(s.push(c)[0] == c);
        assert(s.push(c).drop_first() =~= Seq::<char>::empty());
        assert(enc_field(s.push(c)) =~= enc_field(s) + esc_char(c));
    } else {
        assert(s.push(c)[0] == s[0]);
        assert(s.push(c).drop_first() =~= s.drop_first().push(c));
        lemma_enc_field_push(s.drop_first(), c);
        assert(enc_field(s.push(c)) =~= enc_field(s) + esc_char(c));
    }
}

proof fn lemma_enc_pairs_push(ps: Seq<(Seq<char>, Seq<char>)>, p: (Seq<char>, Seq<char>))
    ensures
        enc_pairs(ps.push(p)) == enc_pairs(ps) + (seq!['\n'] + enc_field(p.0) + seq!['\n']
            + enc_field(p.1)),
    decreases ps.len(),
{
    reveal_with_fuel(enc_pairs, 3);
    if ps.len() == 0 {
        assert(ps.push(p)[0] == p);
        assert(ps.push(p).drop_first() =~= Seq::<(Seq<char>, Seq<char>)>::empty());
        assert(enc_pairs(ps.push(p)) =~= enc_pairs(ps) + (seq!['\n'] + enc_field(p.0) + seq!['\n']
            + enc_field(p.1)));
    } else {
        assert(ps.push(p)[0] == ps[0]);
        assert(ps.push(p).drop_first() =~= ps.drop_first().push(p));
        lemma_enc_pairs_push(ps.drop_first(), p);
        assert(enc_pairs(ps.push(p)) =~= enc_pairs(ps) + (seq!['\n'] + enc_field(p.0) + seq!['\n']
            + enc_field(p.1)));
    }
}

proof fn lemma_pairs_split(a: Seq<Seq<char>>, b: Seq<Seq<char>>)
    requires
        a.len() % 2 == 0,
    ensures
        pairs_of_fields(a + b) == pairs_of_fields(a) + pairs_of_fields(b),
    decreases a.len(),
{
    reveal_with_fuel(pairs_of_fields, 3);
    if a.len() == 0 {
        assert(a + b =~= b);
        assert(pairs_of_fields(a) + pairs_of_fields(b) =~= pairs_of_fields(b));
    } else {
        assert((a + b)[0] == a[0]);
        assert((a + b)[1] == a[1]);
        assert((a + b).skip(2) =~= a.skip(2) + b);
        lemma_pairs_split(a.skip(2), b);
        assert(pairs_of_fields(a + b) =~= pairs_of_fields(a) + pairs_of_fields(b));
    }
}

proof fn lemma_scan_bad_prefix(s: Seq<char>, i: int)
    requires
        0 <= i <= s.len(),
        scan(s.take(i), scan_init()).bad,
    ensures
        scan(s, scan_init()).bad,
{
    assert(s =~= s.take(i) + s.skip(i));
    lemma_scan_app(s.take(i), s.skip(i), scan_init());
    lemma_scan_bad(s.skip(i), scan(s.take(i), scan_init()));
}

// ---------------------------------------------------------------------------
// Executable encoding and decoding
// ---------------------------------------------------------------------------

/// Appends the escaped form of `s` to `out`.
fn encode_field_into(out: &mut Vec<char>, s: &str)
    ensures
        final(out)@ == old(out)@ + enc_field(s@),
{
    let n: usize = s.unicode_len();
    proof {
        assert(out@ =~= old(out)@ + enc_field(s@.take(0)));
    }
    let mut i: usize = 0;
    while i < n
        invariant
            n == s@.len(),
            i <= n,
            out@ == old(out)@ + enc_field(s@.take(i as int)),
        decreases n - i,
    {
        let c = s.get_char(i);
        if c == '\n' {
            out.push('\\');
            out.push('n');
        } else if c == '\\' {
            out.push('\\');
            out.push('\\');
        } else {
            out.push(c);
        }
        i = i + 1;
        proof {
            assert(s@.take(i as int) =~= s@.take(i - 1).push(s@[i - 1]));
            lemma_enc_field_push(s@.take(i - 1), s@[i - 1]);
            assert(out@ =~= old(out)@ + enc_field(s@.take(i as int)));
        }
    }
    proof {
        assert(s@.take(n as int) =~= s@);
    }
}

impl CasUser {
    /// The serialized session form of this user.
    pub fn to_raw(&self) -> (r: String)
        ensures
            r@ == enc_user(self@),
    {
        let mut out: Vec<char> = Vec::new();
        encode_field_into(&mut out, self.username());
        proof {
            assert(out@ =~= enc_field(self@.username) + enc_pairs(self@.attributes.take(0)));
        }
        let attrs = self.attributes();
        let n: usize = attrs.len();
        let mut i: usize = 0;
        while i < n
            invariant
                n == attrs@.len(),
                attrs@ == self@.attributes,
                i <= n,
                out@ == enc_field(self@.username) + enc_pairs(attrs@.take(i as int)),
            decreases n - i,
        {
            out.push('\n');
            let (k, v) = attrs.pair_at(i);
            encode_field_into(&mut out, k.as_str());
            out.push('\n');
            encode_field_into(&mut out, v.as_str());
            i = i + 1;
            proof {
                assert(attrs@.take(i as int) =~= attrs@.take(i - 1).push(attrs@[i - 1]));
                lemma_enc_pairs_push(attrs@.take(i - 1), attrs@[i - 1]);
                assert(out@ =~= enc_field(self@.username) + enc_pairs(attrs@.take(i as int)));
            }
        }
        proof {
            assert(attrs@.take(n as int) =~= attrs@);
        }
        string_of(&out)
    }

    /// The serialized session form of this user.
    pub fn into_raw(&self) -> (r: String)
        ensures
            r@ == enc_user(self@),
    {
        self.to_raw()
    }

    /// The user a serialized string stands for, or `None` when the string
    /// is not a well-formed encoding.
    pub fn from_raw(raw: &str) -> (r: Option<CasUser>)
        ensures
            match r {
                Some(u) => dec_user(raw@) == Some(u@) && u.wf(),
                None => dec_user(raw@) is None,
            },
    {
        let chars = chars_of(raw);
        let n: usize = chars.len();
        let mut fields: Vec<String> = Vec::new();
        let mut cur: Vec<char> = Vec::new();
        let mut esc: bool = false;
        proof {
            assert(raw@.take(0) =~= Seq::<char>::empty());
            assert(fields.deep_view() =~= Seq::<Seq<char>>::empty());
        }
        let mut i: usize = 0;
        while i < n
            invariant
                chars@ == raw@,
                n == raw@.len(),
                i <= n,
                ({
                    let st = scan(raw@.take(i as int), scan_init());
                    &&& !st.bad
                    &&& st.esc == esc
                    &&& st.cur == cur@
                    &&& st.fields == fields.deep_view()
                }),
            decreases n - i,
        {
            let c = chars[i];
            proof {
                assert(raw@.take(i + 1) =~= raw@.take(i as int).push(raw@[i as int]));
                lemma_scan_snoc(raw@.take(i as int), raw@[i as int], scan_init());
            }
            if esc {
                if c == 'n' {
                    cur.push('\n');
                    esc = false;
                } else if c == '\\' {
                    cur.push('\\');
                    esc = false;
                } else {
                    proof {
                        lemma_scan_bad_prefix(raw@, i + 1);
                    }
                    return None;
                }
            } else if c == '\\' {
                esc = true;
            } else if c == '\n' {
                let ghost prior_fields = fields.deep_view();
                let done = string_of(&cur);
                fields.push(done);
                cur = Vec::new();
                proof {
                    assert(fields.deep_view() =~= prior_fields.push(
                        scan(raw@.take(i as int), scan_init()).cur,
                    ));
                }
            } else {
                cur.push(c);
            }
            i = i + 1;
        }
        proof {
            assert(raw@.take(n as int) =~= raw@);
        }
        if esc {
            return None;
        }
        let ghost prior_fields = fields.deep_view();
        let done = string_of(&cur);
        fields.push(done);
        proof {
            assert(fields.deep_view() =~= prior_fields.push(scan(raw@, scan_init()).cur));
        }
        let ghost fs = fields.deep_view();
        proof {
            assert(fields_of(raw@) == Some(fs));
        }
        if fields.len() % 2 == 0 {
            return None;
        }
        let ghost ps_full = pairs_of_fields(fs.drop_first());
        let username = fields[0].clone();
        let mut attrs = Attributes::new();
        let mut j: usize = 1;
        proof {
            assert(fs.subrange(1, 1) =~= Seq::<Seq<char>>::empty());
        }
        while j < fields.len() - 1
            invariant
                fields.deep_view() == fs,
                fields@.len() == fs.len(),
                fs.len() % 2 == 1,
                fields_of(raw@) == Some(fs),
                username@ == fs[0],
                ps_full == pairs_of_fields(fs.drop_first()),
                j % 2 == 1,
                1 <= j <= fs.len(),
                attrs@ == pairs_of_fields(fs.subrange(1, j as int)),
                attrs.wf(),
            decreases fields@.len() - j,
        {
            let k = fields[j].clone();
            let v = fields[j + 1].clone();
            proof {
                reveal_with_fuel(pairs_of_fields, 2);
                assert(k@ == fs[j as int]);
                assert(v@ == fs[j + 1]);
                assert(fs.subrange(1, fs.len() as int) =~= fs.subrange(1, j as int) + fs.subrange(
                    j as int,
                    fs.len() as int,
                ));
                lemma_pairs_split(
                    fs.subrange(1, j as int),
                    fs.subrange(j as int, fs.len() as int),
                );
                assert(fs.subrange(1, fs.len() as int) =~= fs.drop_first());
                assert(fs.subrange(j as int, fs.len() as int)[0] == fs[j as int]);
                assert(fs.subrange(j as int, fs.len() as int)[1] == fs[j + 1]);
            }
            if attrs.contains_key(k.as_str()) {
                proof {
                    reveal_with_fuel(pairs_of_fields, 2);
                    let i0 = choose|i0: int|
                        0 <= i0 < attrs@.len() && attrs@[i0].0 == k@;
                    let half = attrs@.len() as int;
                    assert(ps_full[i0].0 == k@);
                    assert(0 <= i0 < half < ps_full.len());
                    assert(ps_full[half] == (fs[j as int], fs[j + 1]));
                    assert(!attrs_unique_keys(ps_full));
                }
                return None;
            }
            attrs.insert_if_absent(k, v);
            j = j + 2;
            proof {
                reveal_with_fuel(pairs_of_fields, 3);
                let prefix = fs.subrange(1, j - 2);
                let pair_fields = fs.subrange(j - 2, j as int);
                assert(fs.subrange(1, j as int) =~= prefix + pair_fields);
                lemma_pairs_split(prefix, pair_fields);
                assert(pair_fields.skip(2) =~= Seq::<Seq<char>>::empty());
                assert(pairs_of_fields(pair_fields) =~= seq![(fs[j - 2], fs[j - 1])]);
                assert(attrs@ =~= pairs_of_fields(fs.subrange(1, j as int)));
            }
        }
        proof {
            assert(j == fs.len());
            assert(fs.subrange(1, j as int) =~= fs.drop_first());
        }
        let user = CasUser::new(username.as_str(), Some(attrs));
        proof {
            assert(user@ == UserView { username: fs[0], attributes: ps_full });
        }
        Some(user)
    }
}

} // verus!
