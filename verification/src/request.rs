//! The typed request model: an immutable descriptor of one operation against
//! the store, and its deterministic translation to a wire-level HTTP request.
#![allow(unused_imports)]
use vstd::prelude::*;
use vstd::string::*;

use crate::text::{dec_of, digit_char};

pub mod caches;
pub mod counters;
pub mod entries;

verus! {

/// The HTTP method of a request.
#[derive(Clone, Copy, PartialEq, Eq, Structural, Debug)]
pub enum Method {
    Get,
    Post,
    Put,
    Delete,
    Head,
}

/// An immutable description of one request: resource path, method, query
/// parameters in a fixed order, headers, and an optional body. Built once by
/// a builder; never mutated afterwards.
pub struct RequestDescriptor {
    pub method: Method,
    pub path: String,
    pub params: Vec<(String, String)>,
    pub headers: Vec<(String, String)>,
    pub body: Option<String>,
}

/// A canonical wire-level HTTP request: method, absolute URI, headers, body.
pub struct HttpRequest {
    pub method: Method,
    pub uri: String,
    pub headers: Vec<(String, String)>,
    pub body: Option<String>,
}

/// The views of a list of name/value pairs.
pub open spec fn pairs_view(v: Seq<(String, String)>) -> Seq<(Seq<char>, Seq<char>)> {
    Seq::new(v.len(), |i: int| (v[i].0@, v[i].1@))
}

/// The view of an optional body.
pub open spec fn body_view(b: Option<String>) -> Option<Seq<char>> {
    match b {
        Some(s) => Some(s@),
        None => None,
    }
}

/// One `name=value` pair as it appears in a query string.
pub open spec fn pair_text(p: (Seq<char>, Seq<char>)) -> Seq<char> {
    p.0 + seq!['='] + p.1
}

/// The `&`-joined pairs that follow the first one.
pub open spec fn query_tail(ps: Seq<(Seq<char>, Seq<char>)>) -> Seq<char>
    decreases ps.len(),
{
    if ps.len() == 0 {
        Seq::empty()
    } else {
        seq!['&'] + pair_text(ps[0]) + query_tail(ps.drop_first())
    }
}

/// The query string for a parameter list: empty for no parameters, else
/// `?` followed by the `&`-joined `name=value` pairs in the given order.
pub open spec fn query_of(ps: Seq<(Seq<char>, Seq<char>)>) -> Seq<char> {
    if ps.len() == 0 {
        Seq::empty()
    } else {
        seq!['?'] + pair_text(ps[0]) + query_tail(ps.drop_first())
    }
}

proof fn lemma_query_tail_snoc(ps: Seq<(Seq<char>, Seq<char>)>, p: (Seq<char>, Seq<char>))
    ensures
        query_tail(ps.push(p)) =~= query_tail(ps) + seq!['&'] + pair_text(p),
    decreases ps.len(),
{
    if ps.len() == 0 {
        assert(ps.push(p).drop_first() =~= Seq::<(Seq<char>, Seq<char>)>::empty());
        assert(query_tail(Seq::<(Seq<char>, Seq<char>)>::empty()) == Seq::<char>::empty());
        assert(ps.push(p)[0] == p);
    } else {
        assert(ps.push(p).drop_first() =~= ps.drop_first().push(p));
        assert(ps.push(p)[0] == ps[0]);
        lemma_query_tail_snoc(ps.drop_first(), p);
    }
}

/// Appending one pair extends the query string by `?` or `&` and the pair.
pub proof fn lemma_query_snoc(ps: Seq<(Seq<char>, Seq<char>)>, p: (Seq<char>, Seq<char>))
    ensures
        ps.len() == 0 ==> query_of(ps.push(p)) =~= seq!['?'] + pair_text(p),
        ps.len() > 0 ==> query_of(ps.push(p)) =~= query_of(ps) + seq!['&'] + pair_text(p),
{
    if ps.len() == 0 {
        assert(ps.push(p).drop_first() =~= Seq::<(Seq<char>, Seq<char>)>::empty());
        assert(query_tail(Seq::<(Seq<char>, Seq<char>)>::empty()) == Seq::<char>::empty());
        assert(ps.push(p)[0] == p);
    } else {
        assert(ps.push(p).drop_first() =~= ps.drop_first().push(p));
        assert(ps.push(p)[0] == ps[0]);
        lemma_query_tail_snoc(ps.drop_first(), p);
    }
}

/// True for the bytes that a URL component carries unescaped: ASCII letters
/// and digits and `-`, `.`, `_`, `~`.
pub open spec fn is_unreserved(b: u8) -> bool {
    (48 <= b && b <= 57) || (65 <= b && b <= 90) || (97 <= b && b <= 122) || b == 45 || b == 46
        || b == 95 || b == 126
}

/// The character for one hexadecimal digit value, upper case.
pub open spec fn hex_char(d: nat) -> char {
    if d < 10 {
        digit_char(d)
    } else if d == 10 {
        'A'
    } else if d == 11 {
        'B'
    } else if d == 12 {
        'C'
    } else if d == 13 {
        'D'
    } else if d == 14 {
        'E'
    } else {
        'F'
    }
}

/// The escaped spelling of one byte: itself when unreserved, else `%HH`.
pub open spec fn escape_byte(b: u8) -> Seq<char> {
    if is_unreserved(b) {
        seq![b as char]
    } else {
        seq!['%', hex_char((b / 16) as nat), hex_char((b % 16) as nat)]
    }
}

/// The percent-escaped spelling of a byte string.
pub open spec fn escape_bytes(bs: Seq<u8>) -> Seq<char>
    decreases bs.len(),
{
    if bs.len() == 0 {
        Seq::empty()
    } else {
        escape_byte(bs[0]) + escape_bytes(bs.drop_first())
    }
}

/// The percent-escaped spelling of a string, over its UTF-8 bytes.
pub open spec fn escaped(s: Seq<char>) -> Seq<char> {
    escape_bytes(vstd::utf8::encode_utf8(s))
}

proof fn lemma_escape_bytes_snoc(bs: Seq<u8>, b: u8)
    ensures
        escape_bytes(bs.push(b)) =~= escape_bytes(bs) + escape_byte(b),
    decreases bs.len(),
{
    if bs.len() == 0 {
        assert(bs.push(b).drop_first() =~= Seq::<u8>::empty());
        assert(escape_bytes(Seq::<u8>::empty()) == Seq::<char>::empty());
        assert(bs.push(b)[0] == b);
    } else {
        assert(bs.push(b).drop_first() =~= bs.drop_first().push(b));
        assert(bs.push(b)[0] == bs[0]);
        lemma_escape_bytes_snoc(bs.drop_first(), b);
    }
}

fn hex_digit(d: u8) -> (c: char)
    requires
        d < 16,
    ensures
        c == hex_char(d as nat),
{
    if d < 10 {
        crate::text::digit_to_char(d as u64)
    } else if d == 10 {
        'A'
    } else if d == 11 {
        'B'
    } else if d == 12 {
        'C'
    } else if d == 13 {
        'D'
    } else if d == 14 {
        'E'
    } else {
        'F'
    }
}

fn byte_is_unreserved(b: u8) -> (r: bool)
    ensures
        r == is_unreserved(b),
{
    (48 <= b && b <= 57) || (65 <= b && b <= 90) || (97 <= b && b <= 122) || b == 45 || b == 46
        || b == 95 || b == 126
}

/// The character with the code of `b`.
fn byte_to_char(b: u8) -> (c: char)
    ensures
        c == b as char,
{
    b as char
}

/// Percent-escapes `s` for use as one URL path or query component.
pub fn escape_component(s: &str) -> (r: String)
    ensures
        r@ == escaped(s@),
{
    let bs = s.as_bytes();
    let n = bs.len();
    let mut out = String::new();
    let mut i: usize = 0;
    while i < n
        invariant
            n == bs@.len(),
            bs@ == s.spec_bytes(),
            i <= n,
            out@ == escape_bytes(bs@.take(i as int)),
        decreases n - i,
    {
        let b = *vstd::slice::slice_index_get(bs, i);
        proof {
            assert(bs@.take(i + 1) =~= bs@.take(i as int).push(bs@[i as int]));
            lemma_escape_bytes_snoc(bs@.take(i as int), bs@[i as int]);
        }
        if byte_is_unreserved(b) {
            crate::text::push_char(&mut out, byte_to_char(b));
        } else {
            crate::text::push_char(&mut out, '%');
            crate::text::push_char(&mut out, hex_digit(b / 16));
            crate::text::push_char(&mut out, hex_digit(b % 16));
        }
        proof {
            assert(out@ =~= escape_bytes(bs@.take(i + 1)));
        }
        i += 1;
    }
    proof {
        assert(bs@.take(n as int) =~= bs@);
    }
    out
}

impl RequestDescriptor {
    /// The absolute URI this descriptor translates to, under a base URL.
    pub open spec fn spec_uri(&self, base_url: Seq<char>) -> Seq<char> {
        base_url + self.path@ + query_of(pairs_view(self.params@))
    }

    /// Translates the descriptor into a canonical HTTP request under the
    /// given base server URL. The result is a function of the descriptor
    /// and the base URL alone: translating the same descriptor twice yields
    /// identical requests.
    pub fn to_http_req(&self, base_url: &str) -> (r: HttpRequest)
        ensures
            r.method == self.method,
            r.uri@ == self.spec_uri(base_url@),
            pairs_view(r.headers@) == pairs_view(self.headers@),
            body_view(r.body) == body_view(self.body),
    {
        let mut uri = String::from_str(base_url);
        uri.append(self.path.as_str());
        let n = self.params.len();
        let mut i: usize = 0;
        while i < n
            invariant
                n == self.params@.len(),
                i <= n,
                uri@ == base_url@ + self.path@ + query_of(pairs_view(self.params@.take(i as int))),
            decreases n - i,
        {
            proof {
                assert(pairs_view(self.params@.take(i + 1)) =~= pairs_view(
                    self.params@.take(i as int),
                ).push((self.params@[i as int].0@, self.params@[i as int].1@)));
                lemma_query_snoc(
                    pairs_view(self.params@.take(i as int)),
                    (self.params@[i as int].0@, self.params@[i as int].1@),
                );
            }
            if i == 0 {
                uri.append("?");
            } else {
                uri.append("&");
            }
            let pair = &self.params[i];
            uri.append(pair.0.as_str());
            uri.append("=");
            uri.append(pair.1.as_str());
            proof {
                reveal_strlit("?");
                reveal_strlit("&");
                reveal_strlit("=");
                assert(uri@ =~= base_url@ + self.path@ + query_of(
                    pairs_view(self.params@.take(i + 1)),
                ));
            }
            i += 1;
        }
        proof {
            assert(self.params@.take(n as int) =~= self.params@);
        }
        let mut headers: Vec<(String, String)> = Vec::new();
        let m = self.headers.len();
        let mut j: usize = 0;
        while j < m
            invariant
                m == self.headers@.len(),
                j <= m,
                pairs_view(headers@) == pairs_view(self.headers@.take(j as int)),
            decreases m - j,
        {
            let ghost hs = headers@;
            let h = &self.headers[j];
            headers.push((h.0.clone(), h.1.clone()));
            proof {
                assert(pairs_view(hs).len() == hs.len());
                assert(self.headers@.take(j as int).len() == j);
                assert(hs.len() == j);
                assert(headers@.len() == j + 1);
                assert forall|i: int| 0 <= i < j + 1 implies pairs_view(headers@)[i] == pairs_view(
                    self.headers@.take(j + 1),
                )[i] by {
                    if i < j {
                        assert(headers@[i] == hs[i]);
                        assert(pairs_view(hs)[i] == pairs_view(self.headers@.take(j as int))[i]);
                        assert(self.headers@.take(j as int)[i] == self.headers@.take(j + 1)[i]);
                    } else {
                        assert(headers@[i].0@ == self.headers@[j as int].0@);
                        assert(headers@[i].1@ == self.headers@[j as int].1@);
                    }
                }
                assert(pairs_view(headers@) =~= pairs_view(self.headers@.take(j + 1)));
            }
            j += 1;
        }
        proof {
            assert(self.headers@.take(m as int) =~= self.headers@);
            assert(pairs_view(headers@) == pairs_view(self.headers@));
        }
        let body: Option<String> = match &self.body {
            Some(b) => Some(b.clone()),
            None => None,
        };
        HttpRequest { method: self.method, uri, headers, body }
    }

    /// The descriptor with one more header appended.
    pub fn with_header(self, name: &str, value: &str) -> (r: RequestDescriptor)
        ensures
            r.method == self.method,
            r.path@ == self.path@,
            pairs_view(r.params@) == pairs_view(self.params@),
            pairs_view(r.headers@) == pairs_view(self.headers@).push((name@, value@)),
            body_view(r.body) == body_view(self.body),
    {
        let mut headers = self.headers;
        headers.push((name.to_owned(), value.to_owned()));
        proof {
            assert(pairs_view(headers@) =~= pairs_view(self.headers@).push((name@, value@)));
        }
        RequestDescriptor {
            method: self.method,
            path: self.path,
            params: self.params,
            headers,
            body: self.body,
        }
    }
}

/// A descriptor with the given method and path and nothing else: no
/// parameters, no headers, no body.
pub open spec fn is_plain_request(r: RequestDescriptor, method: Method, path: Seq<char>) -> bool {
    &&& r.method == method
    &&& r.path@ == path
    &&& pairs_view(r.params@) == Seq::<(Seq<char>, Seq<char>)>::empty()
    &&& pairs_view(r.headers@) == Seq::<(Seq<char>, Seq<char>)>::empty()
    &&& r.body is None
}

/// A descriptor with the given method and path and a single `action` query
/// parameter: no headers, no body.
pub open spec fn is_action_request(
    r: RequestDescriptor,
    method: Method,
    path: Seq<char>,
    action: Seq<char>,
) -> bool {
    &&& r.method == method
    &&& r.path@ == path
    &&& pairs_view(r.params@) == seq![("action"@, action)]
    &&& pairs_view(r.headers@) == Seq::<(Seq<char>, Seq<char>)>::empty()
    &&& r.body is None
}

/// A descriptor with the given method and path, no parameters, no headers
/// and no body.
pub fn bare_request(method: Method, path: String) -> (r: RequestDescriptor)
    ensures
        is_plain_request(r, method, path@),
{
    proof {
        assert(pairs_view(Seq::<(String, String)>::empty()) =~= Seq::<(
            Seq<char>,
            Seq<char>,
        )>::empty());
    }
    RequestDescriptor { method, path, params: Vec::new(), headers: Vec::new(), body: None }
}

/// A descriptor for an action on a resource: the given method and path with
/// the single query parameter `action=<action>`.
pub fn action_request(method: Method, path: String, action: &str) -> (r: RequestDescriptor)
    ensures
        is_action_request(r, method, path@, action@),
{
    let mut params: Vec<(String, String)> = Vec::new();
    params.push((String::from_str("action"), action.to_owned()));
    proof {
        assert(pairs_view(params@) =~= seq![("action"@, action@)]);
        assert(pairs_view(Seq::<(String, String)>::empty()) =~= Seq::<(
            Seq<char>,
            Seq<char>,
        )>::empty());
    }
    RequestDescriptor { method, path, params, headers: Vec::new(), body: None }
}

} // verus!
