//! The digest authentication handshake: parsing a `WWW-Authenticate`
//! challenge, computing the `Authorization` answer from the stored
//! credentials, and the per-call state machine that guarantees exactly one
//! retry and no challenge loop.
#![allow(unused_imports)]
use vstd::prelude::*;
use vstd::string::*;
use vstd::utf8::encode_utf8;

use crate::request::{
    body_view, pairs_view, query_of, HttpRequest, Method, RequestDescriptor,
};

verus! {

/// What the MD5 digest of a byte string spells in lowercase hexadecimal.
/// The value is a function of the bytes alone.
pub uninterp spec fn md5_hex_of(bytes: Seq<u8>) -> Seq<char>;

/// Relies on `md5::compute`: the digest depends on the input bytes alone,
/// and its lower-hex formatting spells the sixteen digest bytes.
#[verifier::external_body]
fn md5_hex(data: &str) -> (r: String)
    ensures
        r@ == md5_hex_of(data.spec_bytes()),
{
    format!("{:x}", md5::compute(data.as_bytes()))
}

/// The first index at or after `i` that does not hold a space.
pub open spec fn skip_sp(s: Seq<char>, i: int) -> int
    decreases s.len() - i,
{
    if 0 <= i < s.len() && s[i] == ' ' {
        skip_sp(s, i + 1)
    } else {
        i
    }
}

/// The first index at or after `i` that holds `c`, or the length.
pub open spec fn find_at(s: Seq<char>, i: int, c: char) -> int
    decreases s.len() - i,
{
    if 0 <= i < s.len() {
        if s[i] == c {
            i
        } else {
            find_at(s, i + 1, c)
        }
    } else {
        i
    }
}

proof fn lemma_skip_sp_bounds(s: Seq<char>, i: int)
    requires
        0 <= i <= s.len(),
    ensures
        i <= skip_sp(s, i) <= s.len(),
        skip_sp(s, i) < s.len() ==> s[skip_sp(s, i)] != ' ',
    decreases s.len() - i,
{
    if 0 <= i < s.len() && s[i] == ' ' {
        lemma_skip_sp_bounds(s, i + 1);
    }
}

proof fn lemma_find_at_bounds(s: Seq<char>, i: int, c: char)
    requires
        0 <= i <= s.len(),
    ensures
        i <= find_at(s, i, c) <= s.len(),
        find_at(s, i, c) < s.len() ==> s[find_at(s, i, c)] == c,
    decreases s.len() - i,
{
    if 0 <= i < s.len() && s[i] != c {
        lemma_find_at_bounds(s, i + 1, c);
    }
}

fn skip_sp_exec(s: &str, sl: usize, i: usize) -> (r: usize)
    requires
        sl == s@.len(),
        i <= sl,
    ensures
        r == skip_sp(s@, i as int),
        i <= r <= sl,
    decreases sl - i,
{
    proof {
        lemma_skip_sp_bounds(s@, i as int);
    }
    if i < sl && s.get_char(i) == ' ' {
        skip_sp_exec(s, sl, i + 1)
    } else {
        i
    }
}

fn find_exec(s: &str, sl: usize, i: usize, c: char) -> (r: usize)
    requires
        sl == s@.len(),
        i <= sl,
    ensures
        r == find_at(s@, i as int, c),
        i <= r <= sl,
        r < sl ==> s@[r as int] == c,
    decreases sl - i,
{
    proof {
        lemma_find_at_bounds(s@, i as int, c);
    }
    if i < sl {
        if s.get_char(i) == c {
            i
        } else {
            find_exec(s, sl, i + 1, c)
        }
    } else {
        i
    }
}

/// One `key=value` parameter read at index `i`: the key, the value (with
/// quotes stripped when present), and the index just past it.
pub open spec fn spec_param_at(s: Seq<char>, i: int) -> Option<(Seq<char>, Seq<char>, int)> {
    let eq = find_at(s, i, '=');
    let com = find_at(s, i, ',');
    if eq >= s.len() || com < eq || eq == i {
        None
    } else {
        let key = s.subrange(i, eq);
        if eq + 1 < s.len() && s[eq + 1] == '"' {
            let q = find_at(s, eq + 2, '"');
            if q >= s.len() {
                None
            } else {
                Some((key, s.subrange(eq + 2, q), q + 1))
            }
        } else {
            let e = find_at(s, eq + 1, ',');
            Some((key, s.subrange(eq + 1, e), e))
        }
    }
}

/// The comma-separated `key=value` parameters of a challenge from index
/// `i` on, or `None` where the text does not follow that shape.
pub open spec fn spec_params_from(s: Seq<char>, i: int) -> Option<Seq<(Seq<char>, Seq<char>)>>
    decreases s.len() - i,
{
    match spec_param_at(s, i) {
        None => None,
        Some((k, v, n0)) => {
            let j = skip_sp(s, n0);
            if j >= s.len() {
                Some(seq![(k, v)])
            } else if s[j] == ',' {
                let j2 = skip_sp(s, j + 1);
                if i < j2 <= s.len() {
                    match spec_params_from(s, j2) {
                        None => None,
                        Some(rest) => Some(seq![(k, v)] + rest),
                    }
                } else {
                    None
                }
            } else {
                None
            }
        },
    }
}

/// The value of the first parameter named `k`, if any.
pub open spec fn lookup_from(ps: Seq<(Seq<char>, Seq<char>)>, i: int, k: Seq<char>) -> Option<
    Seq<char>,
>
    decreases ps.len() - i,
{
    if 0 <= i < ps.len() {
        if ps[i].0 == k {
            Some(ps[i].1)
        } else {
            lookup_from(ps, i + 1, k)
        }
    } else {
        None
    }
}

/// Whether the comma-separated list in `v`, read from index `i`, offers
/// the token `auth`.
pub open spec fn qop_lists_auth(v: Seq<char>, i: int) -> bool
    decreases v.len() - i,
{
    let e = find_at(v, i, ',');
    if 0 <= i <= v.len() && v.subrange(i, e) == "auth"@ {
        true
    } else if 0 <= i && e < v.len() && i < e + 1 <= v.len() {
        qop_lists_auth(v, e + 1)
    } else {
        false
    }
}

/// A parsed, supported digest challenge: realm, nonce, the opaque value to
/// echo if one was given, and whether the `auth` quality of protection was
/// negotiated.
pub open spec fn spec_challenge(s: Seq<char>) -> Option<
    (Seq<char>, Seq<char>, Option<Seq<char>>, bool),
> {
    if !(s.len() >= "Digest "@.len() && s.subrange(0, "Digest "@.len() as int) == "Digest "@) {
        None
    } else {
        match spec_params_from(s, skip_sp(s, "Digest "@.len() as int)) {
            None => None,
            Some(ps) => {
                let realm = lookup_from(ps, 0, "realm"@);
                let nonce = lookup_from(ps, 0, "nonce"@);
                let algo = lookup_from(ps, 0, "algorithm"@);
                let qop = lookup_from(ps, 0, "qop"@);
                let opq = lookup_from(ps, 0, "opaque"@);
                if realm is None || nonce is None {
                    None
                } else if algo is Some && algo->0 != "MD5"@ {
                    None
                } else if qop is Some && !qop_lists_auth(qop->0, 0) {
                    None
                } else {
                    Some((realm->0, nonce->0, opq, qop is Some))
                }
            },
        }
    }
}

fn param_at_exec(s: &str, sl: usize, i: usize) -> (r: Option<(String, String, usize)>)
    requires
        sl == s@.len(),
        i <= sl,
    ensures
        match (r, spec_param_at(s@, i as int)) {
            (Some(p), Some(q)) => p.0@ == q.0 && p.1@ == q.1 && p.2 as int == q.2 && i < p.2
                <= sl,
            (None, None) => true,
            _ => false,
        },
{
    let eq = find_exec(s, sl, i, '=');
    let com = find_exec(s, sl, i, ',');
    if eq >= sl || com < eq || eq == i {
        return None;
    }
    let key = s.substring_char(i, eq).to_owned();
    if eq + 1 < sl && s.get_char(eq + 1) == '"' {
        let q = find_exec(s, sl, eq + 2, '"');
        if q >= sl {
            None
        } else {
            let val = s.substring_char(eq + 2, q).to_owned();
            Some((key, val, q + 1))
        }
    } else {
        let e = find_exec(s, sl, eq + 1, ',');
        let val = s.substring_char(eq + 1, e).to_owned();
        Some((key, val, e))
    }
}

fn params_from_exec(s: &str, sl: usize, i: usize) -> (r: Option<Vec<(String, String)>>)
    requires
        sl == s@.len(),
        i <= sl,
    ensures
        match (r, spec_params_from(s@, i as int)) {
            (Some(v), Some(ps)) => pairs_view(v@) == ps,
            (None, None) => true,
            _ => false,
        },
    decreases sl - i,
{
    match param_at_exec(s, sl, i) {
        None => None,
        Some((k, v, n0)) => {
            let j = skip_sp_exec(s, sl, n0);
            if j >= sl {
                let mut out: Vec<(String, String)> = Vec::new();
                out.push((k, v));
                proof {
                    assert(pairs_view(out@) =~= spec_params_from(s@, i as int)->0);
                }
                Some(out)
            } else if s.get_char(j) == ',' {
                let j2 = skip_sp_exec(s, sl, j + 1);
                if i < j2 && j2 <= sl {
                    match params_from_exec(s, sl, j2) {
                        None => None,
                        Some(rest) => {
                            let mut out: Vec<(String, String)> = Vec::new();
                            let ghost kv = (k@, v@);
                            out.push((k, v));
                            proof {
                                assert(pairs_view(out@) =~= seq![kv] + pairs_view(
                                    rest@.take(0),
                                ));
                            }
                            let mut idx: usize = 0;
                            let n = rest.len();
                            while idx < n
                                invariant
                                    n == rest@.len(),
                                    idx <= n,
                                    out@.len() == idx + 1,
                                    pairs_view(out@) == seq![kv] + pairs_view(
                                        rest@.take(idx as int),
                                    ),
                                decreases n - idx,
                            {
                                let ghost os = out@;
                                let p = &rest[idx];
                                out.push((p.0.clone(), p.1.clone()));
                                proof {
                                    assert(pairs_view(os).len() == os.len());
                                    assert(out@.len() == idx + 2);
                                    assert forall|t: int| 0 <= t < idx + 2 implies pairs_view(
                                        out@,
                                    )[t] == (seq![kv] + pairs_view(rest@.take(idx + 1)))[t] by {
                                        if t < idx + 1 {
                                            assert(out@[t] == os[t]);
                                            assert(pairs_view(os)[t] == (seq![kv] + pairs_view(
                                                rest@.take(idx as int),
                                            ))[t]);
                                            if t >= 1 {
                                                assert(rest@.take(idx as int)[t - 1]
                                                    == rest@.take(idx + 1)[t - 1]);
                                            }
                                        } else {
                                            assert(out@[t].0@ == rest@[idx as int].0@);
                                            assert(out@[t].1@ == rest@[idx as int].1@);
                                            assert(rest@.take(idx + 1)[t - 1] == rest@[idx as int]);
                                        }
                                    }
                                    assert(pairs_view(out@) =~= seq![kv] + pairs_view(
                                        rest@.take(idx + 1),
                                    ));
                                }
                                idx += 1;
                            }
                            proof {
                                assert(rest@.take(n as int) =~= rest@);
                                assert(pairs_view(out@) =~= seq![kv] + pairs_view(rest@));
                            }
                            Some(out)
                        },
                    }
                } else {
                    None
                }
            } else {
                None
            }
        },
    }
}

fn lookup_exec(ps: &Vec<(String, String)>, i: usize, key: &str) -> (r: Option<String>)
    requires
        i <= ps@.len(),
    ensures
        match (r, lookup_from(pairs_view(ps@), i as int, key@)) {
            (Some(v), Some(w)) => v@ == w,
            (None, None) => true,
            _ => false,
        },
    decreases ps@.len() - i,
{
    if i >= ps.len() {
        return None;
    }
    let p = &ps[i];
    if crate::text::str_eq(p.0.as_str(), key) {
        Some(p.1.clone())
    } else {
        lookup_exec(ps, i + 1, key)
    }
}

fn qop_lists_auth_exec(v: &str, sl: usize, i: usize) -> (r: bool)
    requires
        sl == v@.len(),
        i <= sl,
    ensures
        r == qop_lists_auth(v@, i as int),
    decreases sl - i,
{
    let e = find_exec(v, sl, i, ',');
    let seg = v.substring_char(i, e);
    if crate::text::str_eq(seg, "auth") {
        proof {
            assert(v@.subrange(i as int, find_at(v@, i as int, ',')) == "auth"@);
        }
        true
    } else if e < sl {
        qop_lists_auth_exec(v, sl, e + 1)
    } else {
        false
    }
}

/// A parsed digest challenge that this client can answer.
pub struct Challenge {
    pub realm: String,
    pub nonce: String,
    pub opaque: Option<String>,
    pub qop_auth: bool,
}

/// The view of a parsed challenge.
pub open spec fn challenge_view(c: &Challenge) -> (Seq<char>, Seq<char>, Option<Seq<char>>, bool) {
    (
        c.realm@,
        c.nonce@,
        match c.opaque {
            Some(ref o) => Some(o@),
            None => None,
        },
        c.qop_auth,
    )
}

/// Parses a `WWW-Authenticate` header value as a digest challenge,
/// returning it exactly when the challenge is well-formed and uses only
/// what this client supports: the MD5 algorithm and, if a quality of
/// protection is offered, one that includes `auth`.
pub fn parse_challenge(h: &str) -> (r: Option<Challenge>)
    ensures
        match (r, spec_challenge(h@)) {
            (Some(c), Some(q)) => challenge_view(&c) == q,
            (None, None) => true,
            _ => false,
        },
{
    let sl = h.unicode_len();
    proof {
        reveal_strlit("Digest ");
    }
    if !crate::text::has_lit_at(h, "Digest ", 0) {
        return None;
    }
    let start = skip_sp_exec(h, sl, 7);
    let params = match params_from_exec(h, sl, start) {
        None => {
            return None;
        },
        Some(ps) => ps,
    };
    let realm = lookup_exec(&params, 0, "realm");
    let nonce = lookup_exec(&params, 0, "nonce");
    let algo = lookup_exec(&params, 0, "algorithm");
    let qop = lookup_exec(&params, 0, "qop");
    let opaque = lookup_exec(&params, 0, "opaque");
    let realm = match realm {
        None => {
            return None;
        },
        Some(x) => x,
    };
    let nonce = match nonce {
        None => {
            return None;
        },
        Some(x) => x,
    };
    match algo {
        Some(a) => {
            if !crate::text::str_eq(a.as_str(), "MD5") {
                return None;
            }
        },
        None => {},
    }
    let qop_auth: bool = match &qop {
        Some(q) => {
            let ql = q.as_str().unicode_len();
            if !qop_lists_auth_exec(q.as_str(), ql, 0) {
                return None;
            }
            true
        },
        None => false,
    };
    Some(Challenge { realm, nonce, opaque, qop_auth })
}

/// The wire spelling of an HTTP method.
pub open spec fn spec_method_text(m: Method) -> Seq<char> {
    match m {
        Method::Get => "GET"@,
        Method::Post => "POST"@,
        Method::Put => "PUT"@,
        Method::Delete => "DELETE"@,
        Method::Head => "HEAD"@,
    }
}

/// The wire spelling of an HTTP method.
pub fn method_text(m: Method) -> (r: String)
    ensures
        r@ == spec_method_text(m),
{
    match m {
        Method::Get => String::from_str("GET"),
        Method::Post => String::from_str("POST"),
        Method::Put => String::from_str("PUT"),
        Method::Delete => String::from_str("DELETE"),
        Method::Head => String::from_str("HEAD"),
    }
}

/// The first digest operand: hash of `username:realm:password`.
pub open spec fn spec_ha1(user: Seq<char>, realm: Seq<char>, pass: Seq<char>) -> Seq<char> {
    md5_hex_of(encode_utf8(user + ":"@ + realm + ":"@ + pass))
}

/// The second digest operand: hash of `method:uri`.
pub open spec fn spec_ha2(method: Seq<char>, uri: Seq<char>) -> Seq<char> {
    md5_hex_of(encode_utf8(method + ":"@ + uri))
}

/// The digest response: with `auth` quality of protection the nonce count
/// and client nonce take part; without it the bare legacy form is used.
pub open spec fn spec_response(
    ha1: Seq<char>,
    nonce: Seq<char>,
    cnonce: Seq<char>,
    qop_auth: bool,
    ha2: Seq<char>,
) -> Seq<char> {
    if qop_auth {
        md5_hex_of(encode_utf8(ha1 + ":"@ + nonce + ":00000001:"@ + cnonce + ":auth:"@ + ha2))
    } else {
        md5_hex_of(encode_utf8(ha1 + ":"@ + nonce + ":"@ + ha2))
    }
}

/// The full `Authorization` header value answering a digest challenge.
pub open spec fn spec_authorization(
    user: Seq<char>,
    pass: Seq<char>,
    method: Seq<char>,
    uri: Seq<char>,
    ch: (Seq<char>, Seq<char>, Option<Seq<char>>, bool),
    cnonce: Seq<char>,
) -> Seq<char> {
    let response = spec_response(
        spec_ha1(user, ch.0, pass),
        ch.1,
        cnonce,
        ch.3,
        spec_ha2(method, uri),
    );
    "Digest username=\""@ + user + "\", realm=\""@ + ch.0 + "\", nonce=\""@ + ch.1 + "\", uri=\""@
        + uri + "\", response=\""@ + response + "\""@ + (if ch.3 {
        ", qop=auth, nc=00000001, cnonce=\""@ + cnonce + "\""@
    } else {
        Seq::<char>::empty()
    }) + (match ch.2 {
        Some(o) => ", opaque=\""@ + o + "\""@,
        None => Seq::<char>::empty(),
    })
}

fn build_authorization(
    user: &str,
    pass: &str,
    method: Method,
    uri: &str,
    ch: &Challenge,
    cnonce: &str,
) -> (r: String)
    ensures
        r@ == spec_authorization(user@, pass@, spec_method_text(method), uri@, challenge_view(ch), cnonce@),
{
    let mut a1 = String::from_str(user);
    a1.append(":");
    a1.append(ch.realm.as_str());
    a1.append(":");
    a1.append(pass);
    let ha1 = md5_hex(a1.as_str());
    proof {
        assert(a1@ =~= user@ + ":"@ + ch.realm@ + ":"@ + pass@);
    }
    let mt = method_text(method);
    let mut a2 = mt;
    a2.append(":");
    a2.append(uri);
    let ha2 = md5_hex(a2.as_str());
    proof {
        assert(a2@ =~= spec_method_text(method) + ":"@ + uri@);
    }
    let mut rsp_in = ha1.clone();
    rsp_in.append(":");
    rsp_in.append(ch.nonce.as_str());
    if ch.qop_auth {
        rsp_in.append(":00000001:");
        rsp_in.append(cnonce);
        rsp_in.append(":auth:");
    } else {
        rsp_in.append(":");
    }
    rsp_in.append(ha2.as_str());
    let response = md5_hex(rsp_in.as_str());
    proof {
        if ch.qop_auth {
            assert(rsp_in@ =~= ha1@ + ":"@ + ch.nonce@ + ":00000001:"@ + cnonce@ + ":auth:"@
                + ha2@);
        } else {
            assert(rsp_in@ =~= ha1@ + ":"@ + ch.nonce@ + ":"@ + ha2@);
        }
        assert(response@ == spec_response(ha1@, ch.nonce@, cnonce@, ch.qop_auth, ha2@));
    }
    let mut out = String::from_str("Digest username=\"");
    out.append(user);
    out.append("\", realm=\"");
    out.append(ch.realm.as_str());
    out.append("\", nonce=\"");
    out.append(ch.nonce.as_str());
    out.append("\", uri=\"");
    out.append(uri);
    out.append("\", response=\"");
    out.append(response.as_str());
    out.append("\"");
    if ch.qop_auth {
        out.append(", qop=auth, nc=00000001, cnonce=\"");
        out.append(cnonce);
        out.append("\"");
    }
    match &ch.opaque {
        Some(o) => {
            out.append(", opaque=\"");
            out.append(o.as_str());
            out.append("\"");
        },
        None => {},
    }
    proof {
        assert(out@ =~= spec_authorization(
            user@,
            pass@,
            spec_method_text(method),
            uri@,
            challenge_view(ch),
            cnonce@,
        ));
    }
    out
}

/// The next step of an exchange: finish with the response in hand, or send
/// the same request once more with the given `Authorization` header.
pub enum Step {
    Done,
    Resend { authorization: String },
}

/// The view of an optional header value.
pub open spec fn opt_view(h: Option<&str>) -> Option<Seq<char>> {
    match h {
        Some(s) => Some(s@),
        None => None,
    }
}

/// Whether a response calls for an authenticated resend: only a first
/// response, with status 401 and a parseable, supported digest challenge.
pub open spec fn spec_wants_retry(retried: bool, status: u16, h: Option<Seq<char>>) -> bool {
    &&& !retried
    &&& status == 401
    &&& h is Some
    &&& spec_challenge(h->0) is Some
}

/// One authenticated exchange: the per-call state of the handshake. No
/// state survives the call; every call negotiates afresh.
pub struct Exchange {
    pub username: String,
    pub password: String,
    pub method: Method,
    pub uri_path: String,
    pub retried: bool,
}

impl Exchange {
    /// Starts an exchange for one translated request: returns the exchange
    /// state and the initial request, which carries no `Authorization`
    /// header.
    pub fn begin(client: &crate::Infinispan, desc: &RequestDescriptor) -> (r: (
        Exchange,
        HttpRequest,
    ))
        ensures
            r.0.username@ == client.username@,
            r.0.password@ == client.password@,
            r.0.method == desc.method,
            r.0.uri_path@ == desc.path@ + query_of(pairs_view(desc.params@)),
            r.0.retried == false,
            r.1.method == desc.method,
            r.1.uri@ == desc.spec_uri(client.base_url@),
            pairs_view(r.1.headers@) == pairs_view(desc.headers@),
            body_view(r.1.body) == body_view(desc.body),
    {
        let http = desc.to_http_req(client.base_url.as_str());
        let rel = desc.to_http_req("");
        proof {
            reveal_strlit("");
            assert(rel.uri@ =~= desc.path@ + query_of(pairs_view(desc.params@)));
        }
        (
            Exchange {
                username: client.username.clone(),
                password: client.password.clone(),
                method: desc.method,
                uri_path: rel.uri,
                retried: false,
            },
            http,
        )
    }

    /// Decides what follows a response. A first response with status 401
    /// and a parseable digest challenge is answered by one resend carrying
    /// the computed `Authorization` header; every other response, and every
    /// response after the one retry, is final and returned to the caller
    /// unchanged. `cnonce` is the client nonce to use in the answer.
    pub fn on_response(&mut self, status: u16, www_authenticate: Option<&str>, cnonce: &str) -> (r:
        Step)
        ensures
            final(self).username == old(self).username,
            final(self).password == old(self).password,
            final(self).method == old(self).method,
            final(self).uri_path == old(self).uri_path,
            r is Resend <==> spec_wants_retry(
                old(self).retried,
                status,
                opt_view(www_authenticate),
            ),
            final(self).retried == (old(self).retried || spec_wants_retry(
                old(self).retried,
                status,
                opt_view(www_authenticate),
            )),
            match r {
                Step::Resend { authorization } => authorization@ == spec_authorization(
                    old(self).username@,
                    old(self).password@,
                    spec_method_text(old(self).method),
                    old(self).uri_path@,
                    spec_challenge(opt_view(www_authenticate)->0)->0,
                    cnonce@,
                ),
                Step::Done => true,
            },
    {
        if self.retried {
            return Step::Done;
        }
        if status != 401 {
            return Step::Done;
        }
        let header = match www_authenticate {
            None => {
                return Step::Done;
            },
            Some(h) => h,
        };
        match parse_challenge(header) {
            None => Step::Done,
            Some(ch) => {
                let auth = build_authorization(
                    self.username.as_str(),
                    self.password.as_str(),
                    self.method,
                    self.uri_path.as_str(),
                    &ch,
                    cnonce,
                );
                self.retried = true;
                Step::Resend { authorization: auth }
            },
        }
    }
}

/// At most one resend per exchange: whatever two responses arrive, if the
/// first one provoked a resend, the second is always final. Together with
/// `on_response`'s other clauses this pins the whole handshake: one
/// network call for an unchallenged request, exactly two for a challenged
/// one.
pub proof fn lemma_single_retry(
    retried0: bool,
    status1: u16,
    h1: Option<Seq<char>>,
    status2: u16,
    h2: Option<Seq<char>>,
)
    ensures
        spec_wants_retry(retried0, status1, h1) ==> !spec_wants_retry(
            retried0 || spec_wants_retry(retried0, status1, h1),
            status2,
            h2,
        ),
{
}

} // verus!
