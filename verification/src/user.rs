//! The authenticated identity: a username together with an ordered
//! attribute list whose keys are unique (the first occurrence of a key
//! wins, later ones are ignored).

use vstd::prelude::*;

use crate::strutil::str_eq;

verus! {

/// True when `s` holds a pair whose key is `k`.
pub open spec fn attrs_contains_key(s: Seq<(Seq<char>, Seq<char>)>, k: Seq<char>) -> bool {
    exists|i: int| 0 <= i < s.len() && s[i].0 == k
}

/// True when no two pairs of `s` share a key.
pub open spec fn attrs_unique_keys(s: Seq<(Seq<char>, Seq<char>)>) -> bool {
    forall|i: int, j: int| 0 <= i < j < s.len() ==> s[i].0 != s[j].0
}

/// The value under key `k`, if any (the first occurrence decides).
pub open spec fn attrs_value_of(s: Seq<(Seq<char>, Seq<char>)>, k: Seq<char>) -> Option<Seq<char>>
    decreases s.len(),
{
    if s.len() == 0 {
        None
    } else if s[0].0 == k {
        Some(s[0].1)
    } else {
        attrs_value_of(s.drop_first(), k)
    }
}

/// Attribute mapping, kept in insertion order with unique keys.
#[derive(Clone, Debug, PartialEq, Eq)]
pub struct Attributes {
    pairs: Vec<(String, String)>,
}

impl View for Attributes {
    type V = Seq<(Seq<char>, Seq<char>)>;

    closed spec fn view(&self) -> Seq<(Seq<char>, Seq<char>)> {
        self.pairs.deep_view()
    }
}

impl Attributes {
    /// The key-uniqueness invariant; constructors establish it and
    /// insertions preserve it.
    pub open spec fn wf(&self) -> bool {
        attrs_unique_keys(self@)
    }

    pub fn new() -> (r: Attributes)
        ensures
            r@ == Seq::<(Seq<char>, Seq<char>)>::empty(),
            r.wf(),
    {
        Attributes { pairs: Vec::new() }
    }

    pub fn len(&self) -> (r: usize)
        ensures
            r == self@.len(),
    {
        self.pairs.len()
    }

    /// The key and value at position `i`, in insertion order.
    pub fn pair_at(&self, i: usize) -> (r: (&String, &String))
        requires
            i < self@.len(),
        ensures
            r.0@ == self@[i as int].0,
            r.1@ == self@[i as int].1,
    {
        let p = &self.pairs[i];
        (&p.0, &p.1)
    }

    pub fn contains_key(&self, k: &str) -> (r: bool)
        ensures
            r == attrs_contains_key(self@, k@),
    {
        let mut i: usize = 0;
        while i < self.pairs.len()
            invariant
                i <= self@.len(),
                forall|j: int| 0 <= j < i ==> self@[j].0 != k@,
            decreases self@.len() - i,
        {
            proof {
                assert(self@[i as int].0 == self.pairs@[i as int].0@);
            }
            if str_eq(self.pairs[i].0.as_str(), k) {
                return true;
            }
            i = i + 1;
        }
        false
    }

    /// First occurrence wins: a pair under an already-present key is ignored.
    pub fn insert_if_absent(&mut self, k: String, v: String)
        ensures
            final(self)@ == if attrs_contains_key(old(self)@, k@) {
                old(self)@
            } else {
                old(self)@.push((k@, v@))
            },
            old(self).wf() ==> final(self).wf(),
    {
        if !self.contains_key(k.as_str()) {
            let ghost prior = self@;
            let ghost key = k@;
            self.pairs.push((k, v));
            proof {
                assert(self@ =~= prior.push((key, v@)));
            }
        }
    }

    /// A copy with the same pairs in the same order.
    pub fn duplicate(&self) -> (r: Attributes)
        ensures
            r@ == self@,
    {
        let mut pairs: Vec<(String, String)> = Vec::new();
        let mut i: usize = 0;
        while i < self.pairs.len()
            invariant
                i <= self@.len(),
                pairs.deep_view() == self@.take(i as int),
            decreases self@.len() - i,
        {
            pairs.push((self.pairs[i].0.clone(), self.pairs[i].1.clone()));
            i = i + 1;
            proof {
                assert(self@.take(i as int) =~= self@.take(i - 1).push(self@[i - 1]));
                assert(pairs.deep_view() =~= self@.take(i as int));
            }
        }
        proof {
            assert(self@.take(self@.len() as int) =~= self@);
        }
        Attributes { pairs }
    }

    /// The value stored under `k`, if any.
    pub fn get(&self, k: &str) -> (r: Option<&String>)
        ensures
            match r {
                Some(v) => attrs_value_of(self@, k@) == Some(v@),
                None => attrs_value_of(self@, k@) is None,
            },
    {
        proof {
            assert(self@.skip(0) =~= self@);
        }
        let mut i: usize = 0;
        while i < self.pairs.len()
            invariant
                i <= self@.len(),
                attrs_value_of(self@, k@) == attrs_value_of(self@.skip(i as int), k@),
                forall|j: int| 0 <= j < i ==> self@[j].0 != k@,
            decreases self@.len() - i,
        {
            proof {
                assert(self@.skip(i as int).drop_first() =~= self@.skip(i + 1));
                assert(self@.skip(i as int)[0] == self@[i as int]);
                assert(self@[i as int].0 == self.pairs@[i as int].0@);
                assert(self@[i as int].1 == self.pairs@[i as int].1@);
            }
            if str_eq(self.pairs[i].0.as_str(), k) {
                return Some(&self.pairs[i].1);
            }
            i = i + 1;
        }
        proof {
            assert(self@.skip(self@.len() as int) =~= Seq::<(Seq<char>, Seq<char>)>::empty());
        }
        None
    }
}

/// The mathematical value of a [`CasUser`].
pub ghost struct UserView {
    pub username: Seq<char>,
    pub attributes: Seq<(Seq<char>, Seq<char>)>,
}

/// A CAS identity. An empty username never stands for an authenticated
/// user; the protocol client only builds a `CasUser` from a response
/// that named one.
#[derive(Clone, Debug, PartialEq, Eq)]
pub struct CasUser {
    username: String,
    attributes: Attributes,
}

impl View for CasUser {
    type V = UserView;

    closed spec fn view(&self) -> UserView {
        UserView { username: self.username@, attributes: self.attributes@ }
    }
}

impl CasUser {
    pub open spec fn wf(&self) -> bool {
        attrs_unique_keys(self@.attributes)
    }

    pub fn new(username: &str, attributes: Option<Attributes>) -> (r: CasUser)
        ensures
            r@.username == username@,
            r@.attributes == match attributes {
                Some(a) => a@,
                None => Seq::<(Seq<char>, Seq<char>)>::empty(),
            },
    {
        CasUser {
            username: username.to_owned(),
            attributes: match attributes {
                Some(a) => a,
                None => Attributes::new(),
            },
        }
    }

    pub fn username(&self) -> (r: &str)
        ensures
            r@ == self@.username,
    {
        self.username.as_str()
    }

    pub fn attributes(&self) -> (r: Attributes)
        ensures
            r@ == self@.attributes,
    {
        self.attributes.duplicate()
    }
}

} // verus!
