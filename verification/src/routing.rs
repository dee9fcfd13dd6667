//! Path normalization and bucket-key derivation.
//!
//! An inbound path such as `/api/v10/channels/123/messages` is split into a
//! stripped prefix (`/api/v10`) and a remainder (`/channels/123/messages`);
//! the remainder plus the HTTP method is classified into a deterministic
//! numeric bucket key that routes the request to a rate-limiter replica.

use vstd::prelude::*;
use vstd::string::*;
use std::collections::hash_map::DefaultHasher;
use std::hash::{Hash, Hasher};
use twilight_http_ratelimiting::request::Method as RouteMethod;
use twilight_http_ratelimiting::request::Path as RoutePath;

verus! {

// ---------------------------------------------------------------------------
// Characters and digit strings
// ---------------------------------------------------------------------------

pub open spec fn is_digit(c: char) -> bool {
    '0' <= c && c <= '9'
}

pub open spec fn digit_val(c: char) -> int {
    c as int - '0' as int
}

pub open spec fn all_digits(s: Seq<char>) -> bool {
    forall|i: int| 0 <= i < s.len() ==> is_digit(#[trigger] s[i])
}

/// The numeric value of a digit string, most significant digit first.
pub open spec fn digits_val(s: Seq<char>) -> int
    decreases s.len(),
{
    if s.len() == 0 {
        0
    } else {
        digits_val(s.drop_last()) * 10 + digit_val(s.last())
    }
}

/// The index of the first `/` in `s` at or after `i`, or `s.len()` if none.
pub open spec fn seg_end(s: Seq<char>, i: int) -> int
    decreases s.len() - i,
{
    if i < 0 || i >= s.len() {
        s.len() as int
    } else if s[i] == '/' {
        i
    } else {
        seg_end(s, i + 1)
    }
}

pub proof fn lemma_seg_end_bounds(s: Seq<char>, i: int)
    requires
        0 <= i <= s.len(),
    ensures
        i <= seg_end(s, i) <= s.len(),
        forall|k: int| i <= k < seg_end(s, i) ==> s[k] != '/',
        seg_end(s, i) < s.len() ==> s[seg_end(s, i)] == '/',
    decreases s.len() - i,
{
    if i < s.len() && s[i] != '/' {
        lemma_seg_end_bounds(s, i + 1);
    }
}

// ---------------------------------------------------------------------------
// Path normalization
// ---------------------------------------------------------------------------

/// Does the path begin with `/api`?
pub open spec fn api_prefix(p: Seq<char>) -> bool {
    p.len() >= 4 && p[0] == '/' && p[1] == 'a' && p[2] == 'p' && p[3] == 'i'
}

/// If the path (already known to begin with `/api`) continues with a
/// version segment `/v<digits>`, the index just past that segment;
/// otherwise `0`.
pub open spec fn version_split(p: Seq<char>) -> int {
    if p.len() >= 7 && p[4] == '/' && p[5] == 'v' && seg_end(p, 6) > 6 && all_digits(
        p.subrange(6, seg_end(p, 6)),
    ) {
        seg_end(p, 6)
    } else {
        0
    }
}

/// What normalization returns: the stripped prefix and the remainder.
///
/// A path without the `/api` prefix is passed through unchanged, with the
/// implicit `/api` prefix assumed; with the prefix, a version segment
/// `/v<digits>` is stripped into the prefix as well.
pub open spec fn spec_normalize(p: Seq<char>) -> (Seq<char>, Seq<char>) {
    if !api_prefix(p) {
        ("/api"@, p)
    } else if version_split(p) > 0 {
        (p.subrange(0, version_split(p)), p.subrange(version_split(p), p.len() as int))
    } else {
        ("/api"@, p.subrange(4, p.len() as int))
    }
}

/// For all inputs without the `/api` prefix, normalization returns
/// `("/api", <input unchanged>)`.
pub proof fn lemma_normalize_without_api_prefix(p: Seq<char>)
    requires
        !api_prefix(p),
    ensures
        spec_normalize(p).0 == "/api"@,
        spec_normalize(p).1 == p,
{
}

/// Splits a request path into the stripped `/api[/vN]` prefix and the
/// remainder used for bucket classification.
pub fn normalize_path<'a>(request_path: &'a str) -> (r: (&'a str, &'a str))
    ensures
        r.0@ == spec_normalize(request_path@).0,
        r.1@ == spec_normalize(request_path@).1,
{
    let n: usize = request_path.unicode_len();
    if n < 4 || request_path.get_char(0) != '/' || request_path.get_char(1) != 'a'
        || request_path.get_char(2) != 'p' || request_path.get_char(3) != 'i' {
        return ("/api", request_path);
    }
    if n >= 7 && request_path.get_char(4) == '/' && request_path.get_char(5) == 'v' {
        let ghost p = request_path@;
        let mut j: usize = 6;
        let mut all_dig: bool = true;
        loop
            invariant
                n == p.len(),
                n == request_path@.len(),
                p == request_path@,
                n >= 7,
                6 <= j <= n,
                seg_end(p, 6) == seg_end(p, j as int),
                all_dig == all_digits(p.subrange(6, j as int)),
            ensures
                6 <= j <= n,
                seg_end(p, 6) == j as int,
                all_dig == all_digits(p.subrange(6, j as int)),
            decreases n - j,
        {
            if j >= n {
                proof {
                    assert(seg_end(p, j as int) == n);
                }
                break ;
            }
            let c = request_path.get_char(j);
            if c == '/' {
                proof {
                    assert(seg_end(p, j as int) == j as int);
                }
                break ;
            }
            proof {
                assert(seg_end(p, j as int) == seg_end(p, j as int + 1));
                assert(p.subrange(6, j as int + 1).drop_last() =~= p.subrange(6, j as int));
                assert(p.subrange(6, j as int + 1).last() == p[j as int]);
                assert(p.subrange(6, j as int + 1) =~= p.subrange(6, j as int).push(p[j as int]));
            }
            if !('0' <= c && c <= '9') {
                all_dig = false;
            }
            j += 1;
        }
        if all_dig && j > 6 {
            return (request_path.substring_char(0, j), request_path.substring_char(j, n));
        }
        proof {
            assert(version_split(p) == 0);
        }
        return ("/api", request_path.substring_char(4, n));
    }
    return ("/api", request_path.substring_char(4, n));
}

// ---------------------------------------------------------------------------
// HTTP methods
// ---------------------------------------------------------------------------

/// The HTTP methods the proxy forwards; everything else is rejected
/// before any network activity.
#[derive(Clone, Copy, PartialEq, Eq, Structural, Debug)]
pub enum Method {
    Delete,
    Get,
    Patch,
    Post,
    Put,
}

pub open spec fn method_name(m: Method) -> Seq<char> {
    match m {
        Method::Delete => "DELETE"@,
        Method::Get => "GET"@,
        Method::Patch => "PATCH"@,
        Method::Post => "POST"@,
        Method::Put => "PUT"@,
    }
}

/// Which supported method a method string denotes, if any.
pub open spec fn spec_classify(s: Seq<char>) -> Option<Method> {
    if s == "DELETE"@ {
        Some(Method::Delete)
    } else if s == "GET"@ {
        Some(Method::Get)
    } else if s == "PATCH"@ {
        Some(Method::Patch)
    } else if s == "POST"@ {
        Some(Method::Post)
    } else if s == "PUT"@ {
        Some(Method::Put)
    } else {
        None
    }
}

/// Compares two strings character for character.
pub fn str_eq(a: &str, b: &str) -> (r: bool)
    ensures
        r == (a@ == b@),
{
    let na = a.unicode_len();
    let nb = b.unicode_len();
    if na != nb {
        return false;
    }
    let mut i: usize = 0;
    while i < na
        invariant
            na == a@.len(),
            na == b@.len(),
            0 <= i <= na,
            forall|k: int| 0 <= k < i ==> a@[k] == b@[k],
        decreases na - i,
    {
        if a.get_char(i) != b.get_char(i) {
            return false;
        }
        i += 1;
    }
    proof {
        assert(a@ =~= b@);
    }
    true
}

/// Classifies a method string, rejecting methods outside the supported
/// set.
pub fn classify_method(s: &str) -> (r: Option<Method>)
    ensures
        r == spec_classify(s@),
{
    if str_eq(s, "DELETE") {
        Some(Method::Delete)
    } else if str_eq(s, "GET") {
        Some(Method::Get)
    } else if str_eq(s, "PATCH") {
        Some(Method::Patch)
    } else if str_eq(s, "POST") {
        Some(Method::Post)
    } else if str_eq(s, "PUT") {
        Some(Method::Put)
    } else {
        None
    }
}

// ---------------------------------------------------------------------------
// Upstream URL
// ---------------------------------------------------------------------------

/// The full upstream URL: the fixed origin, the normalized path, and the
/// original query string verbatim.
pub open spec fn spec_uri(prefix: Seq<char>, rem: Seq<char>, q: Option<Seq<char>>) -> Seq<char> {
    match q {
        Some(qs) => "https://discord.com"@ + prefix + rem + "?"@ + qs,
        None => "https://discord.com"@ + prefix + rem,
    }
}

/// Builds the upstream URL for a normalized path and the original query.
pub fn build_uri(prefix: &str, rem: &str, query: Option<&str>) -> (r: String)
    ensures
        match query {
            Some(q) => r@ == spec_uri(prefix@, rem@, Some(q@)),
            None => r@ == spec_uri(prefix@, rem@, None),
        },
{
    let mut s = String::new();
    s.append("https://discord.com");
    s.append(prefix);
    s.append(rem);
    match query {
        Some(q) => {
            s.append("?");
            s.append(q);
        },
        None => {},
    }
    s
}

// ---------------------------------------------------------------------------
// Bucket keys
// ---------------------------------------------------------------------------

/// The bucket key of a classified route: a fixed-width integer that two
/// requests share exactly when the upstream API's bucketing rules put
/// them in the same rate-limit bucket; nothing when the method and path
/// match no known route pattern.
pub uninterp spec fn route_class(method: Seq<char>, path: Seq<char>) -> Option<u64>;

/// Relies on `twilight_http_ratelimiting::request::Path::try_from` to
/// abstract the path's numeric resource identifiers into Discord's route
/// pattern (failing exactly when no pattern matches), and on
/// `std::collections::hash_map::DefaultHasher` (all hashers created by
/// `new` are documented to be identical) together with the pattern's
/// derived `Hash` to reduce the pattern to a fixed-width integer: the
/// result depends on the method and path alone.
#[verifier::external_body]
pub(crate) fn derive_bucket_key(method: Method, path: &str) -> (r: Option<u64>)
    ensures
        r == route_class(method_name(method), path@),
{
    let m = match method {
        Method::Delete => RouteMethod::Delete,
        Method::Get => RouteMethod::Get,
        Method::Patch => RouteMethod::Patch,
        Method::Post => RouteMethod::Post,
        Method::Put => RouteMethod::Put,
    };
    let mut h = DefaultHasher::new();
    match RoutePath::try_from((m, path)) {
        Ok(p) => { p.hash(&mut h); Some(h.finish()) },
        Err(_) => None,
    }
}

} // verus!
