//! Parsing of the CAS serviceValidate XML response into a username and
//! attribute map. The XML tree itself comes from `roxmltree`; the walk
//! over its elements — tag-name dispatch, username collection, and
//! first-occurrence-wins attribute gathering — is the library's own.

use vstd::prelude::*;

use crate::client::CasClient;
use crate::strutil::str_eq;
use crate::user::{attrs_contains_key, Attributes, CasUser};

verus! {

/// What `roxmltree` finds in `body`: `None` when the body is not
/// well-formed XML, otherwise, for every node of the tree in document
/// order, whether it is an element, its local tag name (namespace
/// prefix dropped), and the text of its first child, if that child
/// carries text. A function of the body alone.
pub uninterp spec fn xml_nodes(body: Seq<char>) -> Option<
    Seq<(bool, Seq<char>, Option<Seq<char>>)>,
>;

/// Relies on `roxmltree::Document::parse` and its node accessors
/// (`descendants`, `is_element`, `tag_name`, `first_child`, `text`):
/// deterministic in the body, `None` exactly on a parse error.
#[verifier::external_body]
fn nodes_of(body: &str) -> (r: Option<Vec<(bool, String, Option<String>)>>)
    ensures
        r is Some <==> xml_nodes(body@) is Some,
        r matches Some(v) ==> xml_nodes(body@) == Some(v.deep_view()),
{
    match roxmltree::Document::parse(body) {
        Ok(doc) => Some(
            doc.root().descendants().map(
                |n|
                    (
                        n.is_element(),
                        n.tag_name().name().to_string(),
                        n.first_child().and_then(|c| c.text()).map(|t| t.to_string()),
                    ),
            ).collect(),
        ),
        Err(_) => None,
    }
}

/// One walk step over the node list: non-elements and structural tags
/// produce nothing, `user` text extends the username, any other tag's
/// text is recorded as an attribute under its tag name — first
/// occurrence wins.
pub open spec fn walk(
    nodes: Seq<(bool, Seq<char>, Option<Seq<char>>)>,
    user: Seq<char>,
    attrs: Seq<(Seq<char>, Seq<char>)>,
) -> (Seq<char>, Seq<(Seq<char>, Seq<char>)>)
    decreases nodes.len(),
{
    if nodes.len() == 0 {
        (user, attrs)
    } else {
        let is_element = nodes[0].0;
        let name = nodes[0].1;
        let text = nodes[0].2;
        let rest = nodes.drop_first();
        if !is_element {
            walk(rest, user, attrs)
        } else if name == "serviceResponse"@ || name == "authenticationSuccess"@ || name
            == "authenticationFailure"@ || name == "attributes"@ {
            walk(rest, user, attrs)
        } else if name == "user"@ {
            match text {
                Some(t) => walk(rest, user + t, attrs),
                None => walk(rest, user, attrs),
            }
        } else {
            match text {
                Some(t) => {
                    if attrs_contains_key(attrs, name) {
                        walk(rest, user, attrs)
                    } else {
                        walk(rest, user, attrs.push((name, t)))
                    }
                },
                None => walk(rest, user, attrs),
            }
        }
    }
}

/// The username and attributes a response body yields: empty on
/// malformed XML, otherwise the walk over its elements.
pub open spec fn parse_outcome(body: Seq<char>) -> (Seq<char>, Seq<(Seq<char>, Seq<char>)>) {
    match xml_nodes(body) {
        None => (Seq::empty(), Seq::empty()),
        Some(nodes) => walk(nodes, Seq::empty(), Seq::empty()),
    }
}

/// The walk over an already-listed node sequence.
fn collect_response(nodes: &Vec<(bool, String, Option<String>)>) -> (r: (String, Attributes))
    ensures
        r.0@ == walk(nodes.deep_view(), Seq::empty(), Seq::empty()).0,
        r.1@ == walk(nodes.deep_view(), Seq::empty(), Seq::empty()).1,
        r.1.wf(),
{
    let ghost all = nodes.deep_view();
    let mut user = String::new();
    let mut attrs = Attributes::new();
    proof {
        assert(all.skip(0) =~= all);
    }
    let mut i: usize = 0;
    while i < nodes.len()
        invariant
            all == nodes.deep_view(),
            nodes@.len() == all.len(),
            i <= all.len(),
            walk(all, Seq::empty(), Seq::empty()) == walk(all.skip(i as int), user@, attrs@),
            attrs.wf(),
        decreases all.len() - i,
    {
        proof {
            assert(all.skip(i as int)[0] == all[i as int]);
            assert(all.skip(i as int).drop_first() =~= all.skip(i + 1));
            assert(all[i as int].0 == nodes@[i as int].0);
            assert(all[i as int].1 == nodes@[i as int].1@);
            assert(all[i as int].2 == match nodes@[i as int].2 {
                Some(t) => Some(t@),
                None => None::<Seq<char>>,
            });
        }
        let is_element = nodes[i].0;
        let name = &nodes[i].1;
        let text = &nodes[i].2;
        if !is_element {
        } else if str_eq(name.as_str(), "serviceResponse") || str_eq(
            name.as_str(),
            "authenticationSuccess",
        ) || str_eq(name.as_str(), "authenticationFailure") || str_eq(
            name.as_str(),
            "attributes",
        ) {
        } else if str_eq(name.as_str(), "user") {
            match text {
                Some(t) => {
                    user.append(t.as_str());
                },
                None => {},
            }
        } else {
            match text {
                Some(t) => {
                    attrs.insert_if_absent(name.clone(), t.clone());
                },
                None => {},
            }
        }
        i = i + 1;
    }
    proof {
        assert(all.skip(all.len() as int) =~= Seq::<(bool, Seq<char>, Option<Seq<char>>)>::empty());
    }
    (user, attrs)
}

impl CasClient {
    /// The username and attributes of a CAS validation response body.
    /// Malformed XML yields an empty username and no attributes; an
    /// empty username means the validation failed, whatever attributes
    /// were collected.
    pub fn parse_saml_response(&self, resp: String) -> (r: (String, Attributes))
        ensures
            r.0@ == parse_outcome(resp@).0,
            r.1@ == parse_outcome(resp@).1,
            r.1.wf(),
    {
        match nodes_of(resp.as_str()) {
            Some(nodes) => collect_response(&nodes),
            None => (String::new(), Attributes::new()),
        }
    }

    /// The authenticated user a validation response stands for: `Some`
    /// exactly when the response names a non-empty username.
    pub fn response_user(&self, resp: String) -> (r: Option<CasUser>)
        ensures
            match r {
                Some(u) => {
                    &&& parse_outcome(resp@).0.len() > 0
                    &&& u@.username == parse_outcome(resp@).0
                    &&& u@.attributes == parse_outcome(resp@).1
                    &&& u.wf()
                },
                None => parse_outcome(resp@).0.len() == 0,
            },
    {
        let (user, attrs) = self.parse_saml_response(resp);
        if user.as_str().is_empty() {
            None
        } else {
            Some(CasUser::new(user.as_str(), Some(attrs)))
        }
    }
}

} // verus!
