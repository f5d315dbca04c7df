use infinispan::auth::{parse_challenge, Exchange, Step};
use infinispan::request::caches;
use infinispan::Infinispan;

fn md5_hex(s: &str) -> String {
    format!("{:x}", md5::compute(s.as_bytes()))
}

fn expected_auth_header(
    user: &str,
    pass: &str,
    method: &str,
    uri: &str,
    realm: &str,
    nonce: &str,
    cnonce: &str,
    qop_auth: bool,
    opaque: Option<&str>,
) -> String {
    let ha1 = md5_hex(&format!("{}:{}:{}", user, realm, pass));
    let ha2 = md5_hex(&format!("{}:{}", method, uri));
    let response = if qop_auth {
        md5_hex(&format!("{}:{}:00000001:{}:auth:{}", ha1, nonce, cnonce, ha2))
    } else {
        md5_hex(&format!("{}:{}:{}", ha1, nonce, ha2))
    };
    let mut out = format!(
        "Digest username=\"{}\", realm=\"{}\", nonce=\"{}\", uri=\"{}\", response=\"{}\"",
        user, realm, nonce, uri, response
    );
    if qop_auth {
        out.push_str(&format!(", qop=auth, nc=00000001, cnonce=\"{}\"", cnonce));
    }
    if let Some(o) = opaque {
        out.push_str(&format!(", opaque=\"{}\"", o));
    }
    out
}

#[test]
fn single_retry_on_digest_challenge() {
    let client = Infinispan::new("http://localhost:11222", "user", "pass");
    let desc = caches::get("some_cache");
    let (mut exchange, first) = Exchange::begin(&client, &desc);
    assert_eq!(first.uri, "http://localhost:11222/v2/caches/some_cache");
    assert!(first.headers.iter().all(|h| h.0 != "Authorization"));
    let mut sends = 1;

    let challenge = "Digest realm=\"testrealm\", nonce=\"dcd98b71\", qop=\"auth\"";
    let step = exchange.on_response(401, Some(challenge), "0a4f113b");
    match step {
        Step::Resend { authorization } => {
            sends += 1;
            let expected = expected_auth_header(
                "user",
                "pass",
                "GET",
                "/v2/caches/some_cache",
                "testrealm",
                "dcd98b71",
                "0a4f113b",
                true,
                None,
            );
            assert_eq!(authorization, expected);
        },
        Step::Done => panic!("a valid digest challenge must be answered"),
    }

    // the answer to the resend is final, whatever it is
    match exchange.on_response(200, None, "0a4f113b") {
        Step::Done => {},
        Step::Resend { .. } => panic!("only one retry may happen"),
    }
    assert_eq!(sends, 2);
}

#[test]
fn second_challenge_is_returned_unanswered() {
    let client = Infinispan::new("http://h", "u", "p");
    let desc = caches::get("c");
    let (mut exchange, _first) = Exchange::begin(&client, &desc);
    let challenge = "Digest realm=\"r\", nonce=\"n\", qop=\"auth\"";
    assert!(matches!(
        exchange.on_response(401, Some(challenge), "x"),
        Step::Resend { .. }
    ));
    // a second 401, even with a valid challenge, is final
    assert!(matches!(exchange.on_response(401, Some(challenge), "x"), Step::Done));
}

#[test]
fn no_retry_without_digest_challenge() {
    let client = Infinispan::new("http://h", "u", "p");
    let desc = caches::get("c");
    let (mut exchange, _first) = Exchange::begin(&client, &desc);
    let mut sends = 1;
    match exchange.on_response(401, Some("Basic realm=\"r\""), "x") {
        Step::Done => {},
        Step::Resend { .. } => {
            sends += 1;
            panic!("a non-digest 401 must be returned unchanged")
        },
    }
    assert_eq!(sends, 1);
}

#[test]
fn no_retry_on_bare_401_or_success() {
    let client = Infinispan::new("http://h", "u", "p");
    let desc = caches::get("c");
    let (mut exchange, _first) = Exchange::begin(&client, &desc);
    assert!(matches!(exchange.on_response(401, None, "x"), Step::Done));

    let (mut fresh, _first) = Exchange::begin(&client, &desc);
    assert!(matches!(fresh.on_response(200, None, "x"), Step::Done));
    let (mut fresh, _first) = Exchange::begin(&client, &desc);
    assert!(matches!(fresh.on_response(404, None, "x"), Step::Done));
}

#[test]
fn unsupported_challenges_are_not_answered() {
    let client = Infinispan::new("http://h", "u", "p");
    let desc = caches::get("c");

    let (mut e, _) = Exchange::begin(&client, &desc);
    let sha = "Digest realm=\"r\", nonce=\"n\", algorithm=SHA-256";
    assert!(matches!(e.on_response(401, Some(sha), "x"), Step::Done));

    let (mut e, _) = Exchange::begin(&client, &desc);
    let int_only = "Digest realm=\"r\", nonce=\"n\", qop=\"auth-int\"";
    assert!(matches!(e.on_response(401, Some(int_only), "x"), Step::Done));

    let (mut e, _) = Exchange::begin(&client, &desc);
    let both = "Digest realm=\"r\", nonce=\"n\", qop=\"auth-int,auth\"";
    assert!(matches!(e.on_response(401, Some(both), "x"), Step::Resend { .. }));

    let (mut e, _) = Exchange::begin(&client, &desc);
    let missing_nonce = "Digest realm=\"r\"";
    assert!(matches!(e.on_response(401, Some(missing_nonce), "x"), Step::Done));
}

#[test]
fn opaque_and_legacy_challenges() {
    let client = Infinispan::new("http://h", "user", "pass");
    let desc = caches::get("c");

    let (mut e, _) = Exchange::begin(&client, &desc);
    let with_opaque = "Digest realm=\"r\", nonce=\"n\", qop=\"auth\", opaque=\"xyz\"";
    match e.on_response(401, Some(with_opaque), "cn") {
        Step::Resend { authorization } => {
            let expected = expected_auth_header(
                "user",
                "pass",
                "GET",
                "/v2/caches/c",
                "r",
                "n",
                "cn",
                true,
                Some("xyz"),
            );
            assert_eq!(authorization, expected);
        },
        Step::Done => panic!("challenge with opaque must be answered"),
    }

    // no qop offered: the legacy response shape, without nc and cnonce
    let (mut e, _) = Exchange::begin(&client, &desc);
    let legacy = "Digest realm=\"r\", nonce=\"n\"";
    match e.on_response(401, Some(legacy), "cn") {
        Step::Resend { authorization } => {
            let expected = expected_auth_header(
                "user",
                "pass",
                "GET",
                "/v2/caches/c",
                "r",
                "n",
                "cn",
                false,
                None,
            );
            assert_eq!(authorization, expected);
            assert!(!authorization.contains("cnonce"));
        },
        Step::Done => panic!("legacy digest challenge must be answered"),
    }
}

#[test]
fn challenge_parsing_reads_all_parameters() {
    let c = parse_challenge(
        "Digest realm=\"testrealm@host.com\", qop=\"auth,auth-int\", nonce=\"dcd98b7102dd\", opaque=\"5ccc069c403e\"",
    )
    .expect("well-formed challenge");
    assert_eq!(c.realm, "testrealm@host.com");
    assert_eq!(c.nonce, "dcd98b7102dd");
    assert_eq!(c.opaque.as_deref(), Some("5ccc069c403e"));
    assert!(c.qop_auth);

    assert!(parse_challenge("Basic realm=\"r\"").is_none());
    assert!(parse_challenge("Digest ").is_none());
    assert!(parse_challenge("Digest realm=\"unterminated").is_none());
}
