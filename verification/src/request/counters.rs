//! Counter requests: the counter configuration model, its JSON codec
//! against the server's configuration schema, and one builder per counter
//! operation.
#![allow(unused_imports)]
use vstd::prelude::*;
use vstd::string::*;

use crate::request::{
    action_request, bare_request, body_view, escape_component, escaped, is_action_request,
    is_plain_request, pairs_view, Method, RequestDescriptor,
};
use crate::text::{
    all_digits, dec_int_of, dec_of, digits_val, has_lit_at, i64_dec, is_digit,
    lemma_dec_of_digits, lemma_digits_val_dec_of, scan_digits, u64_dec,
};

verus! {

/// A counter configuration: weak counters favor throughput, strong
/// counters favor linearizable reads. The initial value defaults to zero
/// when unspecified.
#[derive(Clone, Copy, PartialEq, Eq, Structural, Debug)]
pub enum CounterConfig {
    Weak { initial_value: i64, concurrency: u32 },
    Strong { initial_value: i64 },
}

/// The opening of a weak counter's JSON schema, up to the initial value.
pub open spec fn weak_prefix() -> Seq<char> {
    "{\"weak-counter\":{\"initial-value\":"@
}

/// The opening of a strong counter's JSON schema, up to the initial value.
pub open spec fn strong_prefix() -> Seq<char> {
    "{\"strong-counter\":{\"initial-value\":"@
}

/// The middle of a weak counter's JSON schema, between the two numbers.
pub open spec fn weak_mid() -> Seq<char> {
    ",\"concurrency-level\":"@
}

/// The closing braces of the configuration JSON.
pub open spec fn json_close() -> Seq<char> {
    "}}"@
}

/// The exact JSON configuration the server uses for each counter kind.
pub open spec fn spec_counter_json(c: CounterConfig) -> Seq<char> {
    match c {
        CounterConfig::Weak { initial_value, concurrency } => weak_prefix() + dec_int_of(
            initial_value as int,
        ) + weak_mid() + dec_of(concurrency as nat) + json_close(),
        CounterConfig::Strong { initial_value } => strong_prefix() + dec_int_of(
            initial_value as int,
        ) + json_close(),
    }
}

/// Serializes a counter configuration to the server's JSON schema.
pub fn serialize_counter_config(c: &CounterConfig) -> (r: String)
    ensures
        r@ == spec_counter_json(*c),
{
    match c {
        CounterConfig::Weak { initial_value, concurrency } => {
            let mut out = String::from_str("{\"weak-counter\":{\"initial-value\":");
            let iv = i64_dec(*initial_value);
            out.append(iv.as_str());
            out.append(",\"concurrency-level\":");
            let cv = u64_dec(*concurrency as u64);
            out.append(cv.as_str());
            out.append("}}");
            proof {
                assert(out@ =~= spec_counter_json(*c));
            }
            out
        },
        CounterConfig::Strong { initial_value } => {
            let mut out = String::from_str("{\"strong-counter\":{\"initial-value\":");
            let iv = i64_dec(*initial_value);
            out.append(iv.as_str());
            out.append("}}");
            proof {
                assert(out@ =~= spec_counter_json(*c));
            }
            out
        },
    }
}

proof fn lemma_digit_run(s: Seq<char>, a: int, d: Seq<char>, end: int)
    requires
        0 <= a,
        a + d.len() <= s.len(),
        all_digits(d),
        forall|j: int| 0 <= j < d.len() ==> s[a + j] == d[j],
        a + d.len() < s.len() ==> !is_digit(s[a + d.len()]),
        a <= end <= s.len(),
        forall|j: int| a <= j < end ==> is_digit(#[trigger] s[j]),
        end < s.len() ==> !is_digit(s[end]),
    ensures
        end == a + d.len(),
        s.subrange(a, end) =~= d,
{
    if end < a + d.len() {
        assert(s[end] == d[end - a]);
        assert(is_digit(d[end - a]));
        assert(false);
    }
    if end > a + d.len() {
        assert(is_digit(s[a + d.len()]));
        assert(false);
    }
    assert(s.subrange(a, end) =~= d);
}

/// The magnitude of a signed value.
pub open spec fn magnitude(v: int) -> nat {
    if v >= 0 {
        v as nat
    } else {
        (-v) as nat
    }
}

/// Each configuration's spelling starts with the prefix of its kind.
proof fn lemma_counter_json_prefix(c: CounterConfig)
    ensures
        c is Weak ==> weak_prefix().len() <= spec_counter_json(c).len() && spec_counter_json(
            c,
        ).subrange(0, weak_prefix().len() as int) == weak_prefix(),
        c is Strong ==> strong_prefix().len() <= spec_counter_json(c).len() && spec_counter_json(
            c,
        ).subrange(0, strong_prefix().len() as int) == strong_prefix(),
{
    match c {
        CounterConfig::Weak { initial_value, concurrency } => {
            let sv = spec_counter_json(c);
            assert(sv =~= weak_prefix() + (dec_int_of(initial_value as int) + (weak_mid() + (
            dec_of(concurrency as nat) + json_close()))));
            assert(sv.subrange(0, weak_prefix().len() as int) =~= weak_prefix());
        },
        CounterConfig::Strong { initial_value } => {
            let sv = spec_counter_json(c);
            assert(sv =~= strong_prefix() + (dec_int_of(initial_value as int) + json_close()));
            assert(sv.subrange(0, strong_prefix().len() as int) =~= strong_prefix());
        },
    }
}

/// A text cannot start with both kinds' prefixes: they differ at index 2.
proof fn lemma_prefixes_differ(sv: Seq<char>)
    requires
        strong_prefix().len() <= sv.len(),
        sv.subrange(0, strong_prefix().len() as int) == strong_prefix(),
    ensures
        !(weak_prefix().len() <= sv.len() && sv.subrange(0, weak_prefix().len() as int)
            == weak_prefix()),
{
    reveal_strlit("{\"weak-counter\":{\"initial-value\":");
    reveal_strlit("{\"strong-counter\":{\"initial-value\":");
    assert(sv.subrange(0, strong_prefix().len() as int)[2] == sv[2]);
    if weak_prefix().len() <= sv.len() && sv.subrange(0, weak_prefix().len() as int)
        == weak_prefix() {
        assert(sv.subrange(0, weak_prefix().len() as int)[2] == sv[2]);
        assert(false);
    }
}

/// Under the hypothesis that `sv` spells a weak configuration, the scan of
/// the initial value is pinned: the sign is read correctly, the digit run
/// ends exactly where the spelling's digits end, its value is the
/// magnitude, and the middle literal follows.
#[verifier::rlimit(100)]
proof fn lemma_weak_case(
    sv: Seq<char>,
    civ: i64,
    cc: u32,
    p0: int,
    neg: bool,
    start: int,
    end1: int,
    v1opt: Option<u64>,
)
    requires
        spec_counter_json(CounterConfig::Weak { initial_value: civ, concurrency: cc }) == sv,
        p0 == weak_prefix().len(),
        neg == (p0 < sv.len() && sv[p0] == '-'),
        start == if neg {
            p0 + 1
        } else {
            p0
        },
        start <= end1 <= sv.len(),
        forall|j: int| start <= j < end1 ==> is_digit(#[trigger] sv[j]),
        end1 < sv.len() ==> !is_digit(sv[end1]),
        match v1opt {
            Some(v) => v == digits_val(sv.subrange(start, end1)),
            None => digits_val(sv.subrange(start, end1)) > u64::MAX,
        },
    ensures
        neg == (civ < 0),
        v1opt is Some,
        (v1opt->0) as nat == magnitude(civ as int),
        end1 == weak_prefix().len() + dec_int_of(civ as int).len(),
        end1 + weak_mid().len() <= sv.len(),
        sv.subrange(end1, end1 + weak_mid().len() as int) == weak_mid(),
{
    let wp = weak_prefix();
    let md = weak_mid();
    let cl = json_close();
    let mag = magnitude(civ as int);
    let di = dec_of(mag);
    let di2 = dec_of(cc as nat);
    let sgn: Seq<char> = if civ >= 0 {
        Seq::<char>::empty()
    } else {
        seq!['-']
    };
    lemma_dec_of_digits(mag);
    lemma_digits_val_dec_of(mag);
    assert(dec_int_of(civ as int) =~= sgn + di);
    assert(sv =~= ((wp + sgn) + di) + (md + (di2 + cl)));
    assert(sv.len() == wp.len() + sgn.len() + di.len() + md.len() + di2.len() + cl.len());
    let a = p0 + sgn.len();
    if civ >= 0 {
        assert(sv[p0] == di[0]);
        assert(is_digit(di[0]));
        assert(!neg);
    } else {
        assert(sv[p0] == '-');
        assert(neg);
    }
    assert(start == a);
    assert forall|j: int| 0 <= j < di.len() implies sv[a + j] == di[j] by {
        assert(sv[a + j] == (((wp + sgn) + di) + (md + (di2 + cl)))[a + j]);
    }
    reveal_strlit(",\"concurrency-level\":");
    assert(sv[(a + di.len()) as int] == md[0]);
    assert(md[0] == ',');
    assert(!is_digit(','));
    lemma_digit_run(sv, a, di, end1);
    assert(sv.subrange(start, end1) =~= di);
    assert(digits_val(sv.subrange(start, end1)) == mag);
    assert(mag <= 9223372036854775808);
    assert(v1opt is Some);
    assert forall|j: int| 0 <= j < md.len() implies sv[end1 + j] == md[j] by {
        assert(sv[end1 + j] == (((wp + sgn) + di) + (md + (di2 + cl)))[end1 + j]);
    }
    assert(sv.subrange(end1, end1 + md.len() as int) =~= md);
}

/// Under the same hypothesis, the scan of the concurrency level is pinned
/// in the same way.
#[verifier::rlimit(100)]
proof fn lemma_weak_case2(
    sv: Seq<char>,
    civ: i64,
    cc: u32,
    p2: int,
    end2: int,
    v2opt: Option<u64>,
)
    requires
        spec_counter_json(CounterConfig::Weak { initial_value: civ, concurrency: cc }) == sv,
        p2 == weak_prefix().len() + dec_int_of(civ as int).len() + weak_mid().len(),
        p2 <= end2 <= sv.len(),
        forall|j: int| p2 <= j < end2 ==> is_digit(#[trigger] sv[j]),
        end2 < sv.len() ==> !is_digit(sv[end2]),
        match v2opt {
            Some(v) => v == digits_val(sv.subrange(p2, end2)),
            None => digits_val(sv.subrange(p2, end2)) > u64::MAX,
        },
    ensures
        v2opt is Some,
        (v2opt->0) as nat == cc as nat,
{
    let wp = weak_prefix();
    let md = weak_mid();
    let cl = json_close();
    let di2 = dec_of(cc as nat);
    lemma_dec_of_digits(cc as nat);
    lemma_digits_val_dec_of(cc as nat);
    let head = wp + dec_int_of(civ as int) + md;
    assert(head.len() == p2);
    assert(sv =~= head + (di2 + cl));
    assert(sv.len() == p2 + di2.len() + cl.len());
    assert forall|j: int| 0 <= j < di2.len() implies sv[p2 + j] == di2[j] by {
        assert(sv[p2 + j] == (head + (di2 + cl))[p2 + j]);
    }
    reveal_strlit("}}");
    assert(sv[(p2 + di2.len()) as int] == cl[0]);
    assert(cl[0] == '}');
    assert(!is_digit('}'));
    lemma_digit_run(sv, p2, di2, end2);
    assert(sv.subrange(p2, end2) =~= di2);
    assert(digits_val(sv.subrange(p2, end2)) == cc as nat);
}

/// Under the hypothesis that `sv` spells a strong configuration, the scan
/// of the initial value is pinned.
#[verifier::rlimit(100)]
proof fn lemma_strong_case(
    sv: Seq<char>,
    civ: i64,
    p0: int,
    neg: bool,
    start: int,
    end1: int,
    v1opt: Option<u64>,
)
    requires
        spec_counter_json(CounterConfig::Strong { initial_value: civ }) == sv,
        p0 == strong_prefix().len(),
        neg == (p0 < sv.len() && sv[p0] == '-'),
        start == if neg {
            p0 + 1
        } else {
            p0
        },
        start <= end1 <= sv.len(),
        forall|j: int| start <= j < end1 ==> is_digit(#[trigger] sv[j]),
        end1 < sv.len() ==> !is_digit(sv[end1]),
        match v1opt {
            Some(v) => v == digits_val(sv.subrange(start, end1)),
            None => digits_val(sv.subrange(start, end1)) > u64::MAX,
        },
    ensures
        neg == (civ < 0),
        v1opt is Some,
        (v1opt->0) as nat == magnitude(civ as int),
{
    let sp = strong_prefix();
    let cl = json_close();
    let mag = magnitude(civ as int);
    let di = dec_of(mag);
    let sgn: Seq<char> = if civ >= 0 {
        Seq::<char>::empty()
    } else {
        seq!['-']
    };
    lemma_dec_of_digits(mag);
    lemma_digits_val_dec_of(mag);
    assert(dec_int_of(civ as int) =~= sgn + di);
    assert(sv =~= ((sp + sgn) + di) + cl);
    assert(sv.len() == sp.len() + sgn.len() + di.len() + cl.len());
    let a = p0 + sgn.len();
    if civ >= 0 {
        assert(sv[p0] == di[0]);
        assert(is_digit(di[0]));
        assert(!neg);
    } else {
        assert(sv[p0] == '-');
        assert(neg);
    }
    assert(start == a);
    assert forall|j: int| 0 <= j < di.len() implies sv[a + j] == di[j] by {
        assert(sv[a + j] == (((sp + sgn) + di) + cl)[a + j]);
    }
    reveal_strlit("}}");
    assert(sv[a + di.len()] == cl[0]);
    assert(cl[0] == '}');
    assert(!is_digit('}'));
    lemma_digit_run(sv, a, di, end1);
    assert(sv.subrange(start, end1) =~= di);
    assert(digits_val(sv.subrange(start, end1)) == mag);
    assert(mag <= 9223372036854775808);
    assert(v1opt is Some);
}

/// The length a sign contributes to a decimal spelling.
pub open spec fn sign_len(v: int) -> nat {
    if v < 0 {
        1
    } else {
        0
    }
}

proof fn lemma_embedded_run_unique(sv: Seq<char>, a: int, d1: Seq<char>, d2: Seq<char>)
    requires
        0 <= a,
        a + d1.len() <= sv.len(),
        a + d2.len() <= sv.len(),
        all_digits(d1),
        all_digits(d2),
        forall|j: int| 0 <= j < d1.len() ==> sv[a + j] == #[trigger] d1[j],
        forall|j: int| 0 <= j < d2.len() ==> sv[a + j] == #[trigger] d2[j],
        a + d1.len() == sv.len() || !is_digit(sv[a + d1.len()]),
        a + d2.len() == sv.len() || !is_digit(sv[a + d2.len()]),
    ensures
        d1 =~= d2,
{
    if d1.len() < d2.len() {
        assert(sv[a + d1.len()] == d2[d1.len() as int]);
        assert(is_digit(d2[d1.len() as int]));
        assert(false);
    }
    if d2.len() < d1.len() {
        assert(sv[a + d2.len()] == d1[d2.len() as int]);
        assert(is_digit(d1[d2.len() as int]));
        assert(false);
    }
    assert forall|j: int| 0 <= j < d1.len() implies d1[j] == d2[j] by {
        assert(sv[a + j] == d1[j]);
        assert(sv[a + j] == d2[j]);
    }
}

#[verifier::rlimit(100)]
proof fn lemma_weak_embedding(sv: Seq<char>, civ: i64, cc: u32)
    requires
        spec_counter_json(CounterConfig::Weak { initial_value: civ, concurrency: cc }) == sv,
    ensures
        sv.len() == weak_prefix().len() + sign_len(civ as int) + dec_of(
            magnitude(civ as int),
        ).len() + weak_mid().len() + dec_of(cc as nat).len() + json_close().len(),
        civ < 0 ==> sv[weak_prefix().len() as int] == '-',
        civ >= 0 ==> sv[weak_prefix().len() as int] == dec_of(magnitude(civ as int))[0],
        forall|j: int|
            0 <= j < dec_of(magnitude(civ as int)).len() ==> sv[weak_prefix().len() + sign_len(
                civ as int,
            ) + j] == #[trigger] dec_of(magnitude(civ as int))[j],
        sv[(weak_prefix().len() + sign_len(civ as int) + dec_of(magnitude(civ as int)).len()) as int]
            == ',',
        forall|j: int|
            0 <= j < dec_of(cc as nat).len() ==> sv[weak_prefix().len() + sign_len(civ as int)
                + dec_of(magnitude(civ as int)).len() + weak_mid().len() + j] == #[trigger] dec_of(
                cc as nat,
            )[j],
        sv[(weak_prefix().len() + sign_len(civ as int) + dec_of(magnitude(civ as int)).len()
            + weak_mid().len() + dec_of(cc as nat).len()) as int] == '}',
{
    let wp = weak_prefix();
    let md = weak_mid();
    let cl = json_close();
    let mag = magnitude(civ as int);
    let di = dec_of(mag);
    let di2 = dec_of(cc as nat);
    let sgn: Seq<char> = if civ >= 0 {
        Seq::<char>::empty()
    } else {
        seq!['-']
    };
    lemma_dec_of_digits(mag);
    assert(sgn.len() == sign_len(civ as int));
    assert(dec_int_of(civ as int) =~= sgn + di);
    assert(sv =~= ((wp + sgn) + di) + (md + (di2 + cl)));
    assert(sv.len() == wp.len() + sgn.len() + di.len() + md.len() + di2.len() + cl.len());
    let a = wp.len() + sgn.len();
    if civ < 0 {
        assert(sv[wp.len() as int] == '-');
    } else {
        assert(sv[wp.len() as int] == di[0]);
    }
    assert forall|j: int| 0 <= j < di.len() implies sv[a + j] == di[j] by {
        assert(sv[a + j] == (((wp + sgn) + di) + (md + (di2 + cl)))[a + j]);
    }
    reveal_strlit(",\"concurrency-level\":");
    reveal_strlit("}}");
    assert(sv[(a + di.len()) as int] == md[0]);
    assert(md[0] == ',');
    let p2 = a + di.len() + md.len();
    assert forall|j: int| 0 <= j < di2.len() implies sv[p2 + j] == di2[j] by {
        assert(sv[p2 + j] == (((wp + sgn) + di) + (md + (di2 + cl)))[p2 + j]);
    }
    assert(sv[(p2 + di2.len()) as int] == cl[0]);
    assert(cl[0] == '}');
}

#[verifier::rlimit(100)]
proof fn lemma_strong_embedding(sv: Seq<char>, civ: i64)
    requires
        spec_counter_json(CounterConfig::Strong { initial_value: civ }) == sv,
    ensures
        sv.len() == strong_prefix().len() + sign_len(civ as int) + dec_of(
            magnitude(civ as int),
        ).len() + json_close().len(),
        civ < 0 ==> sv[strong_prefix().len() as int] == '-',
        civ >= 0 ==> sv[strong_prefix().len() as int] == dec_of(magnitude(civ as int))[0],
        forall|j: int|
            0 <= j < dec_of(magnitude(civ as int)).len() ==> sv[strong_prefix().len() + sign_len(
                civ as int,
            ) + j] == #[trigger] dec_of(magnitude(civ as int))[j],
        sv[(strong_prefix().len() + sign_len(civ as int) + dec_of(magnitude(civ as int)).len()) as int]
            == '}',
{
    let sp = strong_prefix();
    let cl = json_close();
    let mag = magnitude(civ as int);
    let di = dec_of(mag);
    let sgn: Seq<char> = if civ >= 0 {
        Seq::<char>::empty()
    } else {
        seq!['-']
    };
    lemma_dec_of_digits(mag);
    assert(sgn.len() == sign_len(civ as int));
    assert(dec_int_of(civ as int) =~= sgn + di);
    assert(sv =~= ((sp + sgn) + di) + cl);
    assert(sv.len() == sp.len() + sgn.len() + di.len() + cl.len());
    let a = sp.len() + sgn.len();
    if civ < 0 {
        assert(sv[sp.len() as int] == '-');
    } else {
        assert(sv[sp.len() as int] == di[0]);
    }
    assert forall|j: int| 0 <= j < di.len() implies sv[a + j] == di[j] by {
        assert(sv[a + j] == (((sp + sgn) + di) + cl)[a + j]);
    }
    reveal_strlit("}}");
    assert(sv[(a + di.len()) as int] == cl[0]);
    assert(cl[0] == '}');
}

/// Round trip: distinct counter configurations have distinct JSON
/// spellings, so reading a serialized configuration back can only yield
/// the configuration that was serialized.
#[verifier::rlimit(100)]
pub proof fn lemma_counter_config_round_trip(a: CounterConfig, b: CounterConfig)
    requires
        spec_counter_json(a) == spec_counter_json(b),
    ensures
        a == b,
{
    let sv = spec_counter_json(a);
    lemma_counter_json_prefix(a);
    lemma_counter_json_prefix(b);
    match (a, b) {
        (
            CounterConfig::Weak { initial_value: iva, concurrency: cca },
            CounterConfig::Weak { initial_value: ivb, concurrency: ccb },
        ) => {
            lemma_weak_embedding(sv, iva, cca);
            lemma_weak_embedding(sv, ivb, ccb);
            lemma_dec_of_digits(magnitude(iva as int));
            lemma_dec_of_digits(magnitude(ivb as int));
            lemma_dec_of_digits(cca as nat);
            lemma_dec_of_digits(ccb as nat);
            if iva >= 0 && ivb < 0 {
                assert(is_digit(sv[weak_prefix().len() as int]));
                assert(false);
            }
            if iva < 0 && ivb >= 0 {
                assert(is_digit(sv[weak_prefix().len() as int]));
                assert(false);
            }
            assert(sign_len(iva as int) == sign_len(ivb as int));
            let h = weak_prefix().len() + sign_len(iva as int);
            assert(!is_digit(','));
            lemma_embedded_run_unique(
                sv,
                h as int,
                dec_of(magnitude(iva as int)),
                dec_of(magnitude(ivb as int)),
            );
            lemma_digits_val_dec_of(magnitude(iva as int));
            lemma_digits_val_dec_of(magnitude(ivb as int));
            assert(magnitude(iva as int) == magnitude(ivb as int));
            assert(iva == ivb);
            let p2 = h + dec_of(magnitude(iva as int)).len() + weak_mid().len();
            assert(!is_digit('}'));
            lemma_embedded_run_unique(sv, p2 as int, dec_of(cca as nat), dec_of(ccb as nat));
            lemma_digits_val_dec_of(cca as nat);
            lemma_digits_val_dec_of(ccb as nat);
            assert(cca == ccb);
        },
        (CounterConfig::Weak { .. }, CounterConfig::Strong { .. }) => {
            lemma_prefixes_differ(sv);
            assert(false);
        },
        (CounterConfig::Strong { .. }, CounterConfig::Weak { .. }) => {
            lemma_prefixes_differ(sv);
            assert(false);
        },
        (
            CounterConfig::Strong { initial_value: iva },
            CounterConfig::Strong { initial_value: ivb },
        ) => {
            lemma_strong_embedding(sv, iva);
            lemma_strong_embedding(sv, ivb);
            lemma_dec_of_digits(magnitude(iva as int));
            lemma_dec_of_digits(magnitude(ivb as int));
            if iva >= 0 && ivb < 0 {
                assert(is_digit(sv[strong_prefix().len() as int]));
                assert(false);
            }
            if iva < 0 && ivb >= 0 {
                assert(is_digit(sv[strong_prefix().len() as int]));
                assert(false);
            }
            assert(sign_len(iva as int) == sign_len(ivb as int));
            let h = strong_prefix().len() + sign_len(iva as int);
            assert(!is_digit('}'));
            lemma_embedded_run_unique(
                sv,
                h as int,
                dec_of(magnitude(iva as int)),
                dec_of(magnitude(ivb as int)),
            );
            lemma_digits_val_dec_of(magnitude(iva as int));
            lemma_digits_val_dec_of(magnitude(ivb as int));
            assert(magnitude(iva as int) == magnitude(ivb as int));
            assert(iva == ivb);
        },
    }
}

/// Reads a counter configuration back from the server's JSON schema.
/// Succeeds exactly on the spellings that `serialize_counter_config`
/// emits, and losslessly: the configuration read back is the one
/// serialized.
#[verifier::rlimit(100)]
pub fn deserialize_counter_config(s: &str) -> (r: Option<CounterConfig>)
    ensures
        r is Some ==> spec_counter_json(r->0) == s@,
        forall|c: CounterConfig| spec_counter_json(c) == s@ ==> r == Some(c),
{
    let owned: String = s.to_owned();
    let sl = s.unicode_len();
    let is_weak = has_lit_at(s, "{\"weak-counter\":{\"initial-value\":", 0);
    let is_strong = has_lit_at(s, "{\"strong-counter\":{\"initial-value\":", 0);
    let mut good = false;
    let mut cand = CounterConfig::Strong { initial_value: 0 };
    if is_weak || is_strong {
        let p0 = if is_weak {
            "{\"weak-counter\":{\"initial-value\":".unicode_len()
        } else {
            "{\"strong-counter\":{\"initial-value\":".unicode_len()
        };
        let neg = p0 < sl && s.get_char(p0) == '-';
        let start = if neg {
            p0 + 1
        } else {
            p0
        };
        let (end1, v1opt) = scan_digits(s, start);
        let mut iv_ok = false;
        let mut iv_val: i64 = 0;
        match v1opt {
            Some(m) => {
                if neg {
                    if m == 9223372036854775808u64 {
                        iv_val = i64::MIN;
                        iv_ok = true;
                    } else if m < 9223372036854775808u64 {
                        iv_val = -(m as i64);
                        iv_ok = true;
                    }
                } else {
                    if m <= 9223372036854775807u64 {
                        iv_val = m as i64;
                        iv_ok = true;
                    }
                }
            },
            None => {},
        }
        let mid_ok = iv_ok && has_lit_at(s, ",\"concurrency-level\":", end1);
        let p2 = if mid_ok {
            end1 + ",\"concurrency-level\":".unicode_len()
        } else {
            end1
        };
        let (end2, v2opt) = scan_digits(s, p2);
        if is_weak {
            if mid_ok {
                match v2opt {
                    Some(m2) => {
                        if m2 <= 4294967295u64 {
                            cand = CounterConfig::Weak {
                                initial_value: iv_val,
                                concurrency: m2 as u32,
                            };
                            good = true;
                        }
                    },
                    None => {},
                }
            }
        } else {
            if iv_ok {
                cand = CounterConfig::Strong { initial_value: iv_val };
                good = true;
            }
        }
        proof {
            let sv = s@;
            assert forall|c: CounterConfig| spec_counter_json(c) == sv implies good && cand == c by {
                match c {
                    CounterConfig::Weak { initial_value: civ, concurrency: cc } => {
                        lemma_counter_json_prefix(c);
                        assert(is_weak);
                        assert(p0 == weak_prefix().len());
                        lemma_weak_case(
                            sv,
                            civ,
                            cc,
                            p0 as int,
                            neg,
                            start as int,
                            end1 as int,
                            v1opt,
                        );
                        let m = v1opt->0;
                        assert(m as nat == magnitude(civ as int));
                        if civ >= 0 {
                            assert(m <= 9223372036854775807u64);
                            assert(iv_ok && iv_val == civ);
                        } else {
                            if m == 9223372036854775808u64 {
                                assert(civ as int == -9223372036854775808);
                                assert(iv_ok && iv_val == civ);
                            } else {
                                assert(iv_ok && iv_val == civ);
                            }
                        }
                        assert(mid_ok);
                        assert(p2 == end1 + weak_mid().len());
                        lemma_weak_case2(sv, civ, cc, p2 as int, end2 as int, v2opt);
                        let m2 = v2opt->0;
                        assert(m2 as nat == cc as nat);
                        assert(m2 <= 4294967295u64);
                        assert(good && cand == c);
                    },
                    CounterConfig::Strong { initial_value: civ } => {
                        lemma_counter_json_prefix(c);
                        assert(is_strong);
                        lemma_prefixes_differ(sv);
                        assert(!is_weak);
                        assert(p0 == strong_prefix().len());
                        lemma_strong_case(
                            sv,
                            civ,
                            p0 as int,
                            neg,
                            start as int,
                            end1 as int,
                            v1opt,
                        );
                        let m = v1opt->0;
                        assert(m as nat == magnitude(civ as int));
                        if civ >= 0 {
                            assert(m <= 9223372036854775807u64);
                            assert(iv_ok && iv_val == civ);
                        } else {
                            if m == 9223372036854775808u64 {
                                assert(civ as int == -9223372036854775808);
                                assert(iv_ok && iv_val == civ);
                            } else {
                                assert(iv_ok && iv_val == civ);
                            }
                        }
                        assert(good && cand == c);
                    },
                }
            }
        }
    } else {
        proof {
            let sv = s@;
            assert forall|c: CounterConfig| spec_counter_json(c) == sv implies good && cand == c by {
                lemma_counter_json_prefix(c);
                match c {
                    CounterConfig::Weak { .. } => {
                        assert(is_weak);
                        assert(false);
                    },
                    CounterConfig::Strong { .. } => {
                        assert(is_strong);
                        assert(false);
                    },
                }
            }
        }
    }
    if good {
        let rebuilt = serialize_counter_config(&cand);
        if rebuilt == owned {
            return Some(cand);
        }
        proof {
            assert forall|c: CounterConfig| spec_counter_json(c) == s@ implies false by {
                assert(good && cand == c);
                assert(rebuilt@ == s@);
            }
        }
        return None;
    }
    proof {
        assert forall|c: CounterConfig| spec_counter_json(c) == s@ implies false by {
            assert(good && cand == c);
        }
    }
    None
}

/// The resource path of a named counter: the fixed segment and the escaped
/// name.
pub open spec fn counter_path(name: Seq<char>) -> Seq<char> {
    "/v2/counters/"@ + escaped(name)
}

fn counter_path_of(name: &str) -> (r: String)
    ensures
        r@ == counter_path(name@),
{
    let mut p = String::from_str("/v2/counters/");
    let e = escape_component(name);
    p.append(e.as_str());
    p
}

/// The counter configuration with its initial value replaced.
pub open spec fn spec_with_initial(c: CounterConfig, value: i64) -> CounterConfig {
    match c {
        CounterConfig::Weak { initial_value, concurrency } => CounterConfig::Weak {
            initial_value: value,
            concurrency,
        },
        CounterConfig::Strong { .. } => CounterConfig::Strong { initial_value: value },
    }
}

/// A partially built counter-creation request: the counter's name and its
/// configuration so far.
pub struct CreateCounter {
    pub name: String,
    pub config: CounterConfig,
}

/// The descriptor that creates a counter: it posts the configuration JSON.
pub open spec fn is_counter_create(r: RequestDescriptor, name: Seq<char>, c: CounterConfig) -> bool {
    &&& r.method == Method::Post
    &&& r.path@ == counter_path(name)
    &&& pairs_view(r.params@) == Seq::<(Seq<char>, Seq<char>)>::empty()
    &&& pairs_view(r.headers@) == seq![("Content-Type"@, "application/json"@)]
    &&& body_view(r.body) == Some(spec_counter_json(c))
}

/// Begins creation of a weak counter, with initial value zero and the
/// server's default concurrency level.
pub fn create_weak(name: &str) -> (r: CreateCounter)
    requires
        name@.len() > 0,
    ensures
        r.name@ == name@,
        r.config == (CounterConfig::Weak { initial_value: 0, concurrency: 16u32 }),
{
    CreateCounter {
        name: name.to_owned(),
        config: CounterConfig::Weak { initial_value: 0, concurrency: 16 },
    }
}

/// Begins creation of a strong counter, with initial value zero.
pub fn create_strong(name: &str) -> (r: CreateCounter)
    requires
        name@.len() > 0,
    ensures
        r.name@ == name@,
        r.config == (CounterConfig::Strong { initial_value: 0 }),
{
    CreateCounter { name: name.to_owned(), config: CounterConfig::Strong { initial_value: 0 } }
}

impl CreateCounter {
    /// Returns the builder with the counter's initial value set.
    pub fn with_value(self, value: i64) -> (r: CreateCounter)
        ensures
            r.name == self.name,
            r.config == spec_with_initial(self.config, value),
    {
        CreateCounter { name: self.name, config: with_initial(self.config, value) }
    }

    /// The finished descriptor: a function of the builder state alone.
    pub fn request(&self) -> (r: RequestDescriptor)
        ensures
            is_counter_create(r, self.name@, self.config),
    {
        let body = serialize_counter_config(&self.config);
        let mut headers: Vec<(String, String)> = Vec::new();
        headers.push((String::from_str("Content-Type"), String::from_str("application/json")));
        proof {
            assert(pairs_view(headers@) =~= seq![("Content-Type"@, "application/json"@)]);
            assert(pairs_view(Seq::<(String, String)>::empty()) =~= Seq::<(
                Seq<char>,
                Seq<char>,
            )>::empty());
        }
        RequestDescriptor {
            method: Method::Post,
            path: counter_path_of(self.name.as_str()),
            params: Vec::new(),
            headers,
            body: Some(body),
        }
    }
}

fn with_initial(c: CounterConfig, value: i64) -> (r: CounterConfig)
    ensures
        r == spec_with_initial(c, value),
{
    match c {
        CounterConfig::Weak { initial_value: _, concurrency } => CounterConfig::Weak {
            initial_value: value,
            concurrency,
        },
        CounterConfig::Strong { .. } => CounterConfig::Strong { initial_value: value },
    }
}

/// Reads a counter's value.
pub fn get(name: &str) -> (r: RequestDescriptor)
    requires
        name@.len() > 0,
    ensures
        is_plain_request(r, Method::Get, counter_path(name@)),
{
    bare_request(Method::Get, counter_path_of(name))
}

/// Reads a counter's configuration.
pub fn get_config(name: &str) -> (r: RequestDescriptor)
    requires
        name@.len() > 0,
    ensures
        is_plain_request(r, Method::Get, counter_path(name@) + "/config"@),
{
    let mut p = counter_path_of(name);
    p.append("/config");
    bare_request(Method::Get, p)
}

/// Deletes a counter.
pub fn delete(name: &str) -> (r: RequestDescriptor)
    requires
        name@.len() > 0,
    ensures
        is_plain_request(r, Method::Delete, counter_path(name@)),
{
    bare_request(Method::Delete, counter_path_of(name))
}

/// Lists the names of all counters.
pub fn list() -> (r: RequestDescriptor)
    ensures
        is_plain_request(r, Method::Get, "/v2/counters"@),
{
    bare_request(Method::Get, String::from_str("/v2/counters"))
}

/// Resets a counter to its initial value.
pub fn reset(name: &str) -> (r: RequestDescriptor)
    requires
        name@.len() > 0,
    ensures
        is_action_request(r, Method::Post, counter_path(name@), "reset"@),
{
    action_request(Method::Post, counter_path_of(name), "reset")
}

/// Decrements a counter by one.
pub fn decrement(name: &str) -> (r: RequestDescriptor)
    requires
        name@.len() > 0,
    ensures
        is_action_request(r, Method::Post, counter_path(name@), "decrement"@),
{
    action_request(Method::Post, counter_path_of(name), "decrement")
}

/// A partially built increment request: the counter's name and the
/// optional delta refinement.
pub struct IncrementCounter {
    pub name: String,
    pub delta: Option<i64>,
}

/// The query parameters of an increment: the action alone, or the action
/// and the delta.
pub open spec fn spec_increment_params(delta: Option<i64>) -> Seq<(Seq<char>, Seq<char>)> {
    match delta {
        None => seq![("action"@, "increment"@)],
        Some(d) => seq![("action"@, "increment"@), ("delta"@, dec_int_of(d as int))],
    }
}

/// Begins an increment request; without a delta the server adds one.
pub fn increment(name: &str) -> (r: IncrementCounter)
    requires
        name@.len() > 0,
    ensures
        r.name@ == name@,
        r.delta is None,
{
    IncrementCounter { name: name.to_owned(), delta: None }
}

impl IncrementCounter {
    /// Returns the builder with the increment's delta set.
    pub fn by_delta(self, delta: i64) -> (r: IncrementCounter)
        ensures
            r.name == self.name,
            r.delta == Some(delta),
    {
        IncrementCounter { name: self.name, delta: Some(delta) }
    }

    /// The finished descriptor: a function of the builder state alone.
    pub fn request(&self) -> (r: RequestDescriptor)
        ensures
            r.method == Method::Post,
            r.path@ == counter_path(self.name@),
            pairs_view(r.params@) == spec_increment_params(self.delta),
            pairs_view(r.headers@) == Seq::<(Seq<char>, Seq<char>)>::empty(),
            r.body is None,
    {
        let mut params: Vec<(String, String)> = Vec::new();
        params.push((String::from_str("action"), String::from_str("increment")));
        match &self.delta {
            Some(d) => {
                params.push((String::from_str("delta"), i64_dec(*d)));
            },
            None => {},
        }
        proof {
            assert(pairs_view(params@) =~= spec_increment_params(self.delta));
            assert(pairs_view(Seq::<(String, String)>::empty()) =~= Seq::<(
                Seq<char>,
                Seq<char>,
            )>::empty());
        }
        RequestDescriptor {
            method: Method::Post,
            path: counter_path_of(self.name.as_str()),
            params,
            headers: Vec::new(),
            body: None,
        }
    }
}

/// The parameters of a conditional replacement: the action, the expected
/// value, and the new value.
pub open spec fn spec_compare_params(
    action: Seq<char>,
    expect: i64,
    update: i64,
) -> Seq<(Seq<char>, Seq<char>)> {
    seq![
        ("action"@, action),
        ("expect"@, dec_int_of(expect as int)),
        ("update"@, dec_int_of(update as int)),
    ]
}

fn compare_request(name: &str, action: &str, expect: i64, update: i64) -> (r: RequestDescriptor)
    requires
        name@.len() > 0,
    ensures
        r.method == Method::Get,
        r.path@ == counter_path(name@),
        pairs_view(r.params@) == spec_compare_params(action@, expect, update),
        pairs_view(r.headers@) == Seq::<(Seq<char>, Seq<char>)>::empty(),
        r.body is None,
{
    let mut params: Vec<(String, String)> = Vec::new();
    params.push((String::from_str("action"), action.to_owned()));
    params.push((String::from_str("expect"), i64_dec(expect)));
    params.push((String::from_str("update"), i64_dec(update)));
    proof {
        assert(pairs_view(params@) =~= spec_compare_params(action@, expect, update));
        assert(pairs_view(Seq::<(String, String)>::empty()) =~= Seq::<(
            Seq<char>,
            Seq<char>,
        )>::empty());
    }
    RequestDescriptor {
        method: Method::Get,
        path: counter_path_of(name),
        params,
        headers: Vec::new(),
        body: None,
    }
}

/// Replaces the counter's value with `update` if it currently equals
/// `expect`; the server answers whether the replacement happened.
pub fn compare_and_set(name: &str, expect: i64, update: i64) -> (r: RequestDescriptor)
    requires
        name@.len() > 0,
    ensures
        r.method == Method::Get,
        r.path@ == counter_path(name@),
        pairs_view(r.params@) == spec_compare_params("compareAndSet"@, expect, update),
        pairs_view(r.headers@) == Seq::<(Seq<char>, Seq<char>)>::empty(),
        r.body is None,
{
    compare_request(name, "compareAndSet", expect, update)
}

/// Replaces the counter's value with `update` if it currently equals
/// `expect`; the server answers with the value that was compared.
pub fn compare_and_swap(name: &str, expect: i64, update: i64) -> (r: RequestDescriptor)
    requires
        name@.len() > 0,
    ensures
        r.method == Method::Get,
        r.path@ == counter_path(name@),
        pairs_view(r.params@) == spec_compare_params("compareAndSwap"@, expect, update),
        pairs_view(r.headers@) == Seq::<(Seq<char>, Seq<char>)>::empty(),
        r.body is None,
{
    compare_request(name, "compareAndSwap", expect, update)
}

} // verus!
