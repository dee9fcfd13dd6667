//! Header rewriting for the forwarded request and response augmentation.
//!
//! The caller's own credential and hop-by-hop headers never leak upstream:
//! Authorization, Connection, Host, Transfer-Encoding, Upgrade (and the
//! HTTP/2-forbidden Keep-Alive and Proxy-Connection) are stripped, then
//! Host and the proxy's own bot credential are set.  A forwarded response
//! gains two diagnostic headers carrying whole-millisecond timings.

use vstd::prelude::*;
use vstd::string::*;
use crate::routing::{all_digits, digits_val, is_digit};

verus! {

/// A flat string-to-string header list, order kept.
pub type HeaderList = Vec<(String, String)>;

pub type HeaderSeq = Seq<(Seq<char>, Seq<char>)>;

// ---------------------------------------------------------------------------
// Case-insensitive header names
// ---------------------------------------------------------------------------

/// The code point of a character with an ASCII capital folded to lower case.
pub open spec fn lower_code(c: char) -> int {
    if 'A' <= c && c <= 'Z' {
        c as int + 32
    } else {
        c as int
    }
}

pub open spec fn lowered(s: Seq<char>) -> Seq<int> {
    s.map_values(|c: char| lower_code(c))
}

/// Header-name equality: ASCII-case-insensitive.
pub open spec fn name_matches(a: Seq<char>, b: Seq<char>) -> bool {
    lowered(a) == lowered(b)
}

/// Header names that must not reach the upstream API: the caller's own
/// credential, the routing headers the proxy re-derives, and hop-by-hop
/// headers forbidden for proxy relay.
pub open spec fn forbidden_name(n: Seq<char>) -> bool {
    ||| name_matches(n, "authorization"@)
    ||| name_matches(n, "connection"@)
    ||| name_matches(n, "host"@)
    ||| name_matches(n, "transfer-encoding"@)
    ||| name_matches(n, "upgrade"@)
    ||| name_matches(n, "keep-alive"@)
    ||| name_matches(n, "proxy-connection"@)
}

fn lower_code_exec(c: char) -> (r: u32)
    ensures
        r as int == lower_code(c),
{
    if 'A' <= c && c <= 'Z' {
        c as u32 + 32
    } else {
        c as u32
    }
}

/// Compares two header names, ignoring ASCII case.
pub fn name_matches_exec(a: &str, b: &str) -> (r: bool)
    ensures
        r == name_matches(a@, b@),
{
    let na = a.unicode_len();
    let nb = b.unicode_len();
    if na != nb {
        proof {
            assert(lowered(a@).len() == na);
            assert(lowered(b@).len() == nb);
        }
        return false;
    }
    let mut i: usize = 0;
    while i < na
        invariant
            na == a@.len(),
            na == b@.len(),
            0 <= i <= na,
            forall|k: int| 0 <= k < i ==> lower_code(a@[k]) == lower_code(b@[k]),
        decreases na - i,
    {
        if lower_code_exec(a.get_char(i)) != lower_code_exec(b.get_char(i)) {
            proof {
                assert(lowered(a@)[i as int] != lowered(b@)[i as int]);
            }
            return false;
        }
        i += 1;
    }
    proof {
        assert(lowered(a@) =~= lowered(b@));
    }
    true
}

/// Is this header name one that rewriting strips?
pub fn forbidden_name_exec(n: &str) -> (r: bool)
    ensures
        r == forbidden_name(n@),
{
    name_matches_exec(n, "authorization") || name_matches_exec(n, "connection")
        || name_matches_exec(n, "host") || name_matches_exec(n, "transfer-encoding")
        || name_matches_exec(n, "upgrade") || name_matches_exec(n, "keep-alive")
        || name_matches_exec(n, "proxy-connection")
}

// ---------------------------------------------------------------------------
// Rewriting the outbound request headers
// ---------------------------------------------------------------------------

pub open spec fn keep_name(kv: (Seq<char>, Seq<char>)) -> bool {
    !forbidden_name(kv.0)
}

pub open spec fn filter_kept(h: HeaderSeq) -> HeaderSeq {
    h.filter(|kv: (Seq<char>, Seq<char>)| keep_name(kv))
}

/// The proxy's own credential line: `Bot <token>`.
pub open spec fn bot_auth(token: Seq<char>) -> Seq<char> {
    "Bot "@ + token
}

/// What header rewriting produces: the original headers without the
/// forbidden names, then Host pinned to the upstream origin and the
/// proxy's own Authorization.
pub open spec fn spec_rewrite(h: HeaderSeq, token: Seq<char>) -> HeaderSeq {
    filter_kept(h) + seq![("host"@, "discord.com"@), ("authorization"@, bot_auth(token))]
}

/// Rewrites the inbound request headers for upstream forwarding.
pub fn rewrite_headers(headers: &HeaderList, token: &str) -> (r: HeaderList)
    ensures
        r.deep_view() == spec_rewrite(headers.deep_view(), token@),
{
    let ghost hv = headers.deep_view();
    let mut out: HeaderList = Vec::new();
    proof {
        assert(out.deep_view() =~= Seq::<(Seq<char>, Seq<char>)>::empty());
        assert(hv.subrange(0, 0) =~= Seq::<(Seq<char>, Seq<char>)>::empty());
        assert(filter_kept(hv.subrange(0, 0)) =~= Seq::<(Seq<char>, Seq<char>)>::empty());
    }
    let n = headers.len();
    let mut i: usize = 0;
    while i < n
        invariant
            n == headers.len(),
            hv == headers.deep_view(),
            hv.len() == n,
            0 <= i <= n,
            out.deep_view() == filter_kept(hv.subrange(0, i as int)),
        decreases n - i,
    {
        let kv = &headers[i];
        let ghost prev = out.deep_view();
        proof {
            broadcast use Seq::lemma_filter_push;

            assert(hv[i as int] == (kv.0@, kv.1@));
            assert(hv.subrange(0, i as int + 1) =~= hv.subrange(0, i as int).push(hv[i as int]));
        }
        if !forbidden_name_exec(kv.0.as_str()) {
            out.push((kv.0.clone(), kv.1.clone()));
            proof {
                assert(out.deep_view() =~= prev.push((kv.0@, kv.1@)));
            }
        }
        i += 1;
    }
    proof {
        assert(hv.subrange(0, n as int) =~= hv);
    }
    let mut host_name = String::new();
    host_name.append("host");
    let mut host_value = String::new();
    host_value.append("discord.com");
    let mut auth_name = String::new();
    auth_name.append("authorization");
    let mut auth_value = String::new();
    auth_value.append("Bot ");
    auth_value.append(token);
    let ghost before_tail = out.deep_view();
    out.push((host_name, host_value));
    out.push((auth_name, auth_value));
    proof {
        assert(out.deep_view() =~= before_tail + seq![
            ("host"@, "discord.com"@),
            ("authorization"@, bot_auth(token@)),
        ]);
    }
    out
}

// ---------------------------------------------------------------------------
// Decimal rendering of millisecond timings
// ---------------------------------------------------------------------------

/// The decimal digit character for a value below ten.
pub open spec fn digit_char(d: int) -> char {
    if d == 0 {
        '0'
    } else if d == 1 {
        '1'
    } else if d == 2 {
        '2'
    } else if d == 3 {
        '3'
    } else if d == 4 {
        '4'
    } else if d == 5 {
        '5'
    } else if d == 6 {
        '6'
    } else if d == 7 {
        '7'
    } else if d == 8 {
        '8'
    } else {
        '9'
    }
}

/// The decimal representation of a non-negative integer, most significant
/// digit first, without leading zeroes (a single `0` for zero).
pub open spec fn dec_str(n: int) -> Seq<char>
    decreases n,
{
    if n < 10 {
        seq![digit_char(n)]
    } else {
        dec_str(n / 10).push(digit_char(n % 10))
    }
}

/// The decimal representation consists of digits and reads back as the
/// number itself: the diagnostic timing headers always carry a
/// non-negative integer.
pub proof fn lemma_dec_str_digits(n: int)
    requires
        n >= 0,
    ensures
        dec_str(n).len() >= 1,
        all_digits(dec_str(n)),
        digits_val(dec_str(n)) == n,
    decreases n,
{
    if n < 10 {
        let s = dec_str(n);
        assert(s.len() == 1);
        assert(s.last() == digit_char(n));
        assert(s.drop_last() =~= Seq::<char>::empty());
        assert(digits_val(Seq::<char>::empty()) == 0);
        assert(digits_val(s) == 0 * 10 + digit_val_of(n));
    } else {
        lemma_dec_str_digits(n / 10);
        let s = dec_str(n);
        let prefix = dec_str(n / 10);
        assert(s.drop_last() =~= prefix);
        assert(s.last() == digit_char(n % 10));
        assert(digits_val(s) == digits_val(prefix) * 10 + digit_val_of(n % 10));
        assert forall|i: int| 0 <= i < s.len() implies is_digit(#[trigger] s[i]) by {
            if i < prefix.len() {
                assert(s[i] == prefix[i]);
            }
        }
    }
}

/// The numeric value of `digit_char(d)` is `d` again.
pub open spec fn digit_val_of(d: int) -> int {
    digit_char(d) as int - '0' as int
}

fn digit_str(d: u64) -> (r: &'static str)
    requires
        d < 10,
    ensures
        r@ =~= seq![digit_char(d as int)],
{
    proof {
        reveal_strlit("0");
        reveal_strlit("1");
        reveal_strlit("2");
        reveal_strlit("3");
        reveal_strlit("4");
        reveal_strlit("5");
        reveal_strlit("6");
        reveal_strlit("7");
        reveal_strlit("8");
        reveal_strlit("9");
    }
    if d == 0 {
        "0"
    } else if d == 1 {
        "1"
    } else if d == 2 {
        "2"
    } else if d == 3 {
        "3"
    } else if d == 4 {
        "4"
    } else if d == 5 {
        "5"
    } else if d == 6 {
        "6"
    } else if d == 7 {
        "7"
    } else if d == 8 {
        "8"
    } else {
        "9"
    }
}

/// Renders a millisecond count as decimal digits.
pub fn u64_to_dec(n: u64) -> (s: String)
    ensures
        s@ == dec_str(n as int),
    decreases n,
{
    if n < 10 {
        let mut s = String::new();
        s.append(digit_str(n));
        s
    } else {
        let mut s = u64_to_dec(n / 10);
        s.append(digit_str(n % 10));
        proof {
            assert(s@ =~= dec_str((n / 10) as int).push(digit_char((n % 10) as int)));
        }
        s
    }
}

// ---------------------------------------------------------------------------
// Response augmentation
// ---------------------------------------------------------------------------

/// What response augmentation produces: the upstream headers with the two
/// diagnostic timing headers appended.
pub open spec fn spec_attach(h: HeaderSeq, ticket_ms: u64, upstream_ms: u64) -> HeaderSeq {
    h + seq![
        ("x-ticketrequest-ms"@, dec_str(ticket_ms as int)),
        ("x-upstream-ms"@, dec_str(upstream_ms as int)),
    ]
}

/// Appends the ticket-wait and upstream-latency diagnostic headers, in
/// whole milliseconds, to a forwarded response's headers.
pub fn attach_timing_headers(headers: &mut HeaderList, ticket_ms: u64, upstream_ms: u64)
    ensures
        final(headers).deep_view() == spec_attach(old(headers).deep_view(), ticket_ms, upstream_ms),
{
    let ghost before = headers.deep_view();
    let t = u64_to_dec(ticket_ms);
    let u = u64_to_dec(upstream_ms);
    let mut tn = String::new();
    tn.append("x-ticketrequest-ms");
    let mut un = String::new();
    un.append("x-upstream-ms");
    headers.push((tn, t));
    headers.push((un, u));
    proof {
        assert(headers.deep_view() =~= spec_attach(before, ticket_ms, upstream_ms));
    }
}

/// A forwarded response always carries `x-ticketrequest-ms` and
/// `x-upstream-ms` as decimal digit strings whose values are the measured
/// (non-negative) millisecond timings.
pub proof fn lemma_timing_headers_integers(h: HeaderSeq, ticket_ms: u64, upstream_ms: u64)
    ensures
        ({
            let r = spec_attach(h, ticket_ms, upstream_ms);
            &&& r.len() == h.len() + 2
            &&& r[r.len() - 2].0 == "x-ticketrequest-ms"@
            &&& all_digits(r[r.len() - 2].1)
            &&& digits_val(r[r.len() - 2].1) == ticket_ms
            &&& r[r.len() - 1].0 == "x-upstream-ms"@
            &&& all_digits(r[r.len() - 1].1)
            &&& digits_val(r[r.len() - 1].1) == upstream_ms
        }),
{
    lemma_dec_str_digits(ticket_ms as int);
    lemma_dec_str_digits(upstream_ms as int);
}

// ---------------------------------------------------------------------------
// Laws of rewriting
// ---------------------------------------------------------------------------

/// How often a name occurs among the headers, ignoring ASCII case.
pub open spec fn count_name(h: HeaderSeq, name: Seq<char>) -> int {
    h.filter(|kv: (Seq<char>, Seq<char>)| name_matches(kv.0, name)).len() as int
}

proof fn lemma_filter_none<A>(s: Seq<A>, pred: spec_fn(A) -> bool)
    requires
        forall|i: int| 0 <= i < s.len() ==> !pred(s[i]),
    ensures
        s.filter(pred) =~= Seq::<A>::empty(),
    decreases s.len(),
{
    reveal(Seq::filter);
    if s.len() > 0 {
        lemma_filter_none(s.drop_last(), pred);
    }
}

/// Header rewriting strips Authorization, Connection, Host,
/// Transfer-Encoding and Upgrade from the original request, and the final
/// outbound header list carries exactly one Authorization header, set to
/// the proxy's own credential.
pub proof fn lemma_rewrite_strips_and_authorizes(h: HeaderSeq, token: Seq<char>)
    ensures
        ({
            let r = spec_rewrite(h, token);
            &&& r.len() >= 2
            &&& forall|i: int| 0 <= i < r.len() - 2 ==> !forbidden_name(#[trigger] r[i].0)
            &&& r[r.len() - 2] == ("host"@, "discord.com"@)
            &&& r[r.len() - 1] == ("authorization"@, bot_auth(token))
            &&& r.filter(|kv: (Seq<char>, Seq<char>)| name_matches(kv.0, "authorization"@))
                =~= seq![("authorization"@, bot_auth(token))]
            &&& count_name(r, "authorization"@) == 1
        }),
{
    broadcast use Seq::lemma_filter_pred;

    let r = spec_rewrite(h, token);
    let kept = filter_kept(h);
    let tail = seq![("host"@, "discord.com"@), ("authorization"@, bot_auth(token))];
    assert forall|i: int| 0 <= i < r.len() - 2 implies !forbidden_name(#[trigger] r[i].0) by {
        assert(r[i] == kept[i]);
        assert(keep_name(kept[i]));
    }
    let am = |kv: (Seq<char>, Seq<char>)| name_matches(kv.0, "authorization"@);
    Seq::filter_distributes_over_add(kept, tail, am);
    assert forall|i: int| 0 <= i < kept.len() implies !am(kept[i]) by {
        assert(keep_name(kept[i]));
    }
    lemma_filter_none(kept, am);
    reveal_strlit("host");
    reveal_strlit("authorization");
    assert(lowered("host"@).len() == 4);
    assert(lowered("authorization"@).len() == 13);
    assert(!am(tail[0]));
    assert(am(tail[1]));
    reveal_with_fuel(Seq::<_>::filter, 4);
    assert(tail.drop_last() =~= seq![("host"@, "discord.com"@)]);
    assert(tail.drop_last().drop_last() =~= Seq::<(Seq<char>, Seq<char>)>::empty());
    assert(tail.drop_last().filter(am) =~= Seq::<(Seq<char>, Seq<char>)>::empty());
    assert(tail.filter(am) =~= seq![("authorization"@, bot_auth(token))]);
    assert(r.filter(am) =~= seq![("authorization"@, bot_auth(token))]);
}

} // verus!
