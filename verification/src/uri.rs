//! The request line: a URI of the `gemini` scheme, split into host name,
//! path and query without decoding any of them.
use crate::error::{ErrorView, GeminiError, BAD_REQUEST};
use crate::text::{chars_of, find_from, first_index, trim, trim_bounds};
use vstd::prelude::*;
use vstd::string::StrSliceExecFns;

verus! {

/// The scheme prefix that every request must carry.
pub const GEMINI_SCHEME: &'static str = "gemini://";

/// The characters of the scheme prefix.
pub open spec fn scheme() -> Seq<char> {
    seq!['g', 'e', 'm', 'i', 'n', 'i', ':', '/', '/']
}

/// What follows the scheme prefix in `uri`, if `uri` starts with it.
pub open spec fn after_scheme(uri: Seq<char>) -> Option<Seq<char>> {
    if scheme().is_prefix_of(uri) {
        Some(uri.skip(scheme().len() as int))
    } else {
        None
    }
}

/// The parts of a parsed request line.
pub ghost struct UriView {
    pub hostname: Seq<char>,
    pub path: Seq<char>,
    pub query: Seq<char>,
}

/// The parts of the text that follows the scheme prefix: the host name runs
/// up to the first `/`; the path from there up to the first `?`; the query
/// is what follows that `?`. Without a `/` the path is `/` and the query is
/// empty. There is no result for an empty host name.
pub open spec fn split_authority(rest: Seq<char>) -> Option<UriView> {
    let slash = first_index(rest, '/');
    let tail = rest.skip(slash);
    let mark = first_index(tail, '?');
    if slash == 0 {
        None
    } else if slash == rest.len() {
        Some(UriView { hostname: rest, path: seq!['/'], query: Seq::empty() })
    } else {
        Some(
            UriView {
                hostname: rest.take(slash),
                path: tail.take(mark),
                query: if mark == tail.len() {
                    Seq::empty()
                } else {
                    tail.skip(mark + 1)
                },
            },
        )
    }
}

/// The parts of the request line `raw`, or `None` where it is rejected:
/// surrounding white space is dropped, the scheme prefix must follow, and
/// the rest is split by `split_authority`.
pub open spec fn parse_uri(raw: Seq<char>) -> Option<UriView> {
    match after_scheme(trim(raw)) {
        Some(rest) => split_authority(rest),
        None => None,
    }
}

/// A parsed request line. Its parts are slices of the text it was parsed
/// from; none of them is decoded.
#[derive(Debug, PartialEq)]
pub struct Uri<'a> {
    pub hostname: &'a str,
    pub path: &'a str,
    pub query: &'a str,
}

impl<'a> View for Uri<'a> {
    type V = UriView;

    open spec fn view(&self) -> UriView {
        UriView { hostname: self.hostname@, path: self.path@, query: self.query@ }
    }
}

/// What a parser hands out: a host name that is not empty, and a path that
/// starts with `/` and holds no `?`.
pub open spec fn well_formed(uri: UriView) -> bool {
    &&& uri.hostname.len() > 0
    &&& uri.path.len() > 0
    &&& uri.path[0] == '/'
    &&& !uri.path.contains('?')
    &&& !uri.hostname.contains('/')
}

/// What follows the scheme prefix in `uri`, if `uri` starts with it.
pub fn is_uri_gemini(uri: &str) -> (rest: Option<&str>)
    ensures
        match rest {
            Some(r) => after_scheme(uri@) == Some(r@),
            None => after_scheme(uri@) is None,
        },
{
    let text = chars_of(uri);
    let prefix = chars_of(GEMINI_SCHEME);
    proof {
        reveal_strlit("gemini://");
        assert(prefix@ =~= scheme());
    }
    if text.len() < prefix.len() {
        return None;
    }
    let mut i: usize = 0;
    while i < prefix.len()
        invariant
            i <= prefix.len() <= text.len(),
            prefix@ == scheme(),
            text@ == uri@,
            forall|j: int| 0 <= j < i ==> text@[j] == prefix@[j],
        decreases prefix.len() - i,
    {
        if text[i] != prefix[i] {
            proof {
                assert(uri@.subrange(0, 9)[i as int] == uri@[i as int]);
            }
            return None;
        }
        i += 1;
    }
    assert(scheme() =~= uri@.subrange(0, 9));
    assert(uri@.skip(9) =~= uri@.subrange(9, text.len() as int));
    Some(uri.substring_char(prefix.len(), text.len()))
}

impl<'a> Uri<'a> {
    fn _new(uri: &'a str) -> (parsed: Option<Uri<'a>>)
        ensures
            match parsed {
                Some(u) => parse_uri(uri@) == Some(u@),
                None => parse_uri(uri@) is None,
            },
    {
        let text = chars_of(uri);
        let (start, end) = trim_bounds(&text);
        let rest = match is_uri_gemini(uri.substring_char(start, end)) {
            Some(rest) => rest,
            None => {
                return None;
            },
        };
        let tail = chars_of(rest);
        let slash = find_from(&tail, 0, '/');
        assert(rest@.skip(0) =~= rest@);
        if slash == 0 {
            None
        } else if slash == tail.len() {
            proof {
                reveal_strlit("/");
                reveal_strlit("");
                assert("/"@ =~= seq!['/']);
                assert(""@ =~= Seq::<char>::empty());
            }
            Some(Uri { hostname: rest, path: "/", query: "" })
        } else {
            let mark = find_from(&tail, slash, '?');
            let hostname = rest.substring_char(0, slash);
            let path = rest.substring_char(slash, mark);
            let query = if mark == tail.len() {
                proof {
                    reveal_strlit("");
                    assert(""@ =~= Seq::<char>::empty());
                }
                ""
            } else {
                rest.substring_char(mark + 1, tail.len())
            };
            proof {
                let after = rest@.skip(slash as int);
                assert(path@ =~= after.take(mark - slash));
                if mark < tail.len() {
                    assert(query@ =~= after.skip(mark - slash + 1));
                }
            }
            Some(Uri { hostname, path, query })
        }
    }

    /// Parses the request line `uri`. A line that is rejected gives the
    /// bad-request error with an empty meta text.
    pub fn new(uri: &'a str) -> (parsed: Result<Uri<'a>, GeminiError>)
        ensures
            match parsed {
                Ok(u) => parse_uri(uri@) == Some(u@) && well_formed(u@),
                Err(e) => parse_uri(uri@) is None && e@ == (ErrorView {
                    code: BAD_REQUEST,
                    meta: Seq::empty(),
                }),
            },
    {
        proof {
            lemma_parse_uri_well_formed(uri@);
        }
        match Self::_new(uri) {
            Some(u) => Ok(u),
            None => {
                proof {
                    reveal_strlit("");
                    assert(""@ =~= Seq::<char>::empty());
                }
                Err(GeminiError::bad_request(""))
            },
        }
    }
}

/// Every request line that parses gives well-formed parts.
pub proof fn lemma_parse_uri_well_formed(raw: Seq<char>)
    ensures
        parse_uri(raw) matches Some(uri) ==> well_formed(uri),
{
    if let Some(rest) = after_scheme(trim(raw)) {
        lemma_split_authority_well_formed(rest);
    }
}

/// Every text with a host name splits into well-formed parts.
pub proof fn lemma_split_authority_well_formed(rest: Seq<char>)
    ensures
        split_authority(rest) matches Some(uri) ==> well_formed(uri),
{
    let slash = first_index(rest, '/');
    let tail = rest.skip(slash);
    let mark = first_index(tail, '?');
    crate::text::lemma_leading_bounds(rest, crate::text::other_than('/'));
    crate::text::lemma_leading_bounds(tail, crate::text::other_than('?'));
    if slash != 0 && slash != rest.len() {
        assert(tail[0] == rest[slash]);
        assert(mark > 0);
        assert(tail.take(mark)[0] == tail[0]);
    }
}

} // verus!
