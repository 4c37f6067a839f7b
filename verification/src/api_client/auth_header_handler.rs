//! The credential header: building the cookie value that carries the session
//! token on every authenticated call, and recovering a freshly issued token
//! from the login response's cookie headers.
//!
//! A cookie header carries the token when, anywhere in its text, `token_v2=`
//! is followed — with no line break between — by `; Domain=`. The token is
//! what stands between the earliest such `token_v2=` and the last `; Domain=`
//! that still works for it (the widest read). Exactly one header of the login
//! response may carry a token; zero or several is a protocol error, and the
//! client refuses to guess.
use vstd::prelude::*;
use vstd::string::StringExecFns;

use crate::api_client::AuthError;
use crate::json_text::chars_to_string;
use crate::json_text::str_to_chars;

verus! {

broadcast use vstd::string::group_string_axioms;

/// The text that announces the token inside a cookie header.
pub open spec fn cookie_prefix() -> Seq<char> {
    "token_v2="@
}

/// The text that closes the token inside a cookie header.
pub open spec fn domain_marker() -> Seq<char> {
    "; Domain="@
}

/// The pattern `p` stands at position `i` of `s`.
pub open spec fn matches_at(s: Seq<char>, p: Seq<char>, i: int) -> bool {
    0 <= i && i + p.len() <= s.len() && s.subrange(i, i + p.len()) == p
}

/// No line break anywhere in `s[from..to]`.
pub open spec fn newline_free(s: Seq<char>, from: int, to: int) -> bool {
    forall|k: int| from <= k < to ==> s[k] != '\n'
}

/// Position `j` closes a token that opens at position `p`: the closing text
/// stands at `j` and the token between never breaks the line.
pub open spec fn domain_at(s: Seq<char>, p: int, j: int) -> bool {
    &&& p + cookie_prefix().len() <= j
    &&& matches_at(s, domain_marker(), j)
    &&& newline_free(s, p + cookie_prefix().len(), j)
}

/// A token opens at position `p` and some position closes it.
pub open spec fn start_matches(s: Seq<char>, p: int) -> bool {
    &&& matches_at(s, cookie_prefix(), p)
    &&& exists|j: int| domain_at(s, p, j)
}

/// The header carries a token.
pub open spec fn header_matches(s: Seq<char>) -> bool {
    exists|p: int| start_matches(s, p)
}

/// `p` is the earliest position where a token opens.
pub open spec fn leftmost_start(s: Seq<char>, p: int) -> bool {
    &&& start_matches(s, p)
    &&& forall|q: int| 0 <= q < p ==> !start_matches(s, q)
}

/// `j` is the last position that closes the token opening at `p`.
pub open spec fn greedy_domain(s: Seq<char>, p: int, j: int) -> bool {
    &&& domain_at(s, p, j)
    &&& forall|k: int| k > j ==> !domain_at(s, p, k)
}

/// The token a matching header carries: from the earliest opening to the last
/// close that works for it. Meaningful only when `header_matches(s)`.
pub open spec fn captured_token(s: Seq<char>) -> Seq<char> {
    let p = choose|p: int| leftmost_start(s, p);
    let j = choose|j: int| greedy_domain(s, p, j);
    s.subrange(p + cookie_prefix().len(), j)
}

/// Only one position can be the earliest opening.
proof fn lemma_leftmost_unique(s: Seq<char>, p1: int, p2: int)
    requires
        leftmost_start(s, p1),
        leftmost_start(s, p2),
    ensures
        p1 == p2,
{
}

/// Only one position can be the last close for a given opening.
proof fn lemma_greedy_unique(s: Seq<char>, p: int, j1: int, j2: int)
    requires
        greedy_domain(s, p, j1),
        greedy_domain(s, p, j2),
    ensures
        j1 == j2,
{
}

/// Witnesses for the earliest opening and its last close pin the captured
/// token down to the text between them.
proof fn lemma_captured_token(s: Seq<char>, p: int, j: int)
    requires
        leftmost_start(s, p),
        greedy_domain(s, p, j),
    ensures
        header_matches(s),
        captured_token(s) == s.subrange(p + cookie_prefix().len(), j),
{
    let p0 = choose|p0: int| leftmost_start(s, p0);
    lemma_leftmost_unique(s, p, p0);
    let j0 = choose|j0: int| greedy_domain(s, p0, j0);
    lemma_greedy_unique(s, p0, j, j0);
}

/// The full cookie line that a server builds for a token: the built header
/// value, then the domain attribute.
pub open spec fn cookie_line(token: Seq<char>, domain: Seq<char>) -> Seq<char> {
    cookie_prefix() + token + domain_marker() + domain
}

/// Round trip: a cookie line formed for a token parses back to exactly that
/// token, whenever the token has no line break and the trailing domain text
/// does not itself repeat the closing text.
pub proof fn lemma_header_round_trip(token: Seq<char>, domain: Seq<char>)
    requires
        forall|k: int| 0 <= k < token.len() ==> token[k] != '\n',
        forall|q: int| 1 <= q ==> !matches_at(domain_marker() + domain, domain_marker(), q),
    ensures
        header_matches(cookie_line(token, domain)),
        captured_token(cookie_line(token, domain)) == token,
{
    reveal_strlit("token_v2=");
    reveal_strlit("; Domain=");
    let s = cookie_line(token, domain);
    let plen = cookie_prefix().len() as int;
    let mlen = domain_marker().len() as int;
    let j0 = plen + token.len() as int;
    assert(s.subrange(0, plen) =~= cookie_prefix());
    assert(s.subrange(j0, j0 + mlen) =~= domain_marker());
    assert(forall|k: int| plen <= k < j0 ==> s[k] == token[k - plen]);
    assert(domain_at(s, 0, j0));
    assert(leftmost_start(s, 0));
    let md = domain_marker() + domain;
    assert(s.subrange(j0, s.len() as int) =~= md);
    assert forall|k: int| k > j0 implies !domain_at(s, 0, k) by {
        if matches_at(s, domain_marker(), k) {
            let q = k - j0;
            assert(md.subrange(q, q + mlen) =~= s.subrange(k, k + mlen));
            assert(matches_at(md, domain_marker(), q));
        }
    }
    assert(greedy_domain(s, 0, j0));
    lemma_captured_token(s, 0, j0);
    assert(s.subrange(plen, j0) =~= token);
}

/// Builds and reads the credential headers of the remote protocol.
pub struct AuthHeaderHandler {}

impl AuthHeaderHandler {
    pub fn new() -> (h: AuthHeaderHandler) {
        AuthHeaderHandler {  }
    }

    /// The value of the credential header sent on every authenticated call:
    /// the token announced by the cookie prefix.
    pub fn build_auth_header(&self, token: &str) -> (r: String)
        ensures
            r@ == cookie_prefix() + token@,
    {
        String::from_str("token_v2=").concat(token)
    }

    /// Whether a response header carries a token.
    pub fn is_match(&self, header: &str) -> (b: bool)
        ensures
            b == header_matches(header@),
    {
        let chars = str_to_chars(header);
        find_pattern(&chars).is_some()
    }

    /// The token a response header carries, when it carries one.
    pub fn parse_token(&self, header: &str) -> (r: Option<String>)
        ensures
            match r {
                Some(t) => header_matches(header@) && t@ == captured_token(header@),
                None => !header_matches(header@),
            },
    {
        let chars = str_to_chars(header);
        match find_pattern(&chars) {
            Some((p, j)) => {
                proof {
                    lemma_captured_token(chars@, p as int, j as int);
                    reveal_strlit("token_v2=");
                }
                let mut token_chars: Vec<char> = Vec::new();
                let mut k: usize = p + 9;
                while k < j
                    invariant
                        chars@ == header@,
                        cookie_prefix().len() == 9,
                        p + 9 <= k <= j,
                        j <= chars@.len(),
                        token_chars@ == chars@.subrange(p + 9, k as int),
                    decreases j - k,
                {
                    token_chars.push(chars[k]);
                    k = k + 1;
                    proof {
                        assert(token_chars@ =~= chars@.subrange(p + 9, k as int));
                    }
                }
                Some(chars_to_string(&token_chars))
            },
            None => None,
        }
    }

    /// How many of the given headers carry a token.
    pub open spec fn match_count(hs: Seq<String>) -> nat
        decreases hs.len(),
    {
        if hs.len() == 0 {
            0
        } else {
            Self::match_count(hs.drop_last()) + if header_matches(hs.last()@) {
                1nat
            } else {
                0nat
            }
        }
    }

    /// The position of the one header that carries a token. A count other
    /// than one is ambiguous: the client must not guess which credential to
    /// trust, so it reports a protocol error.
    pub fn find_token_header(&self, headers: &Vec<String>) -> (r: Result<usize, AuthError>)
        ensures
            match r {
                Ok(idx) => {
                    &&& Self::match_count(headers@) == 1
                    &&& idx < headers@.len()
                    &&& header_matches(headers@[idx as int]@)
                },
                Err(e) => e == AuthError::Protocol && Self::match_count(headers@) != 1,
            },
    {
        let n = headers.len();
        let mut count: usize = 0;
        let mut found: usize = 0;
        let mut i: usize = 0;
        while i < n
            invariant
                n == headers@.len(),
                i <= n,
                count <= i,
                count as nat == Self::match_count(headers@.subrange(0, i as int)),
                count > 0 ==> found < i && header_matches(headers@[found as int]@),
            decreases n - i,
        {
            let ghost pre = headers@.subrange(0, i as int);
            if self.is_match(headers[i].as_str()) {
                if count == 0 {
                    found = i;
                }
                count = count + 1;
            }
            proof {
                let cur = headers@.subrange(0, i + 1 as int);
                assert(cur.drop_last() =~= pre);
                assert(cur.last() == headers@[i as int]);
            }
            i = i + 1;
        }
        proof {
            assert(headers@.subrange(0, n as int) =~= headers@);
        }
        if count == 1 {
            Ok(found)
        } else {
            Err(AuthError::Protocol)
        }
    }

    /// Extracts the one token the response headers carry; a count of zero or
    /// of two or more is a protocol error.
    pub fn parse_auth_header(&self, headers: &Vec<String>) -> (r: Result<String, AuthError>)
        ensures
            match r {
                Ok(t) => {
                    &&& Self::match_count(headers@) == 1
                    &&& exists|i: int|
                        0 <= i < headers@.len() && header_matches(#[trigger] headers@[i]@) && t@
                            == captured_token(headers@[i]@)
                },
                Err(e) => e == AuthError::Protocol && Self::match_count(headers@) != 1,
            },
    {
        let idx = match self.find_token_header(headers) {
            Ok(idx) => idx,
            Err(e) => {
                return Err(e);
            },
        };
        match self.parse_token(headers[idx].as_str()) {
            Some(token) => Ok(token),
            None => vstd::pervasive::unreached(),
        }
    }
}

/// Looks for the earliest opening of a token and the last close that works
/// for it.
#[verifier::loop_isolation(false)]
fn find_pattern(chars: &Vec<char>) -> (r: Option<(usize, usize)>)
    ensures
        match r {
            Some(pj) => leftmost_start(chars@, pj.0 as int) && greedy_domain(
                chars@,
                pj.0 as int,
                pj.1 as int,
            ),
            None => !header_matches(chars@),
        },
{
    proof {
        reveal_strlit("token_v2=");
        reveal_strlit("; Domain=");
    }
    let prefix = str_to_chars("token_v2=");
    let marker = str_to_chars("; Domain=");
    let n = chars.len();
    let mut p: usize = 0;
    while p < n
        invariant
            forall|q: int| 0 <= q < p ==> !start_matches(chars@, q),
        decreases n - p,
    {
        if pattern_at(chars, &prefix, p) {
            match greedy_domain_search(chars, &marker, p) {
                Some(j) => {
                    return Some((p, j));
                },
                None => {
                    proof {
                        assert(!start_matches(chars@, p as int));
                    }
                },
            }
        } else {
            proof {
                assert(!start_matches(chars@, p as int));
            }
        }
        p = p + 1;
    }
    proof {
        assert forall|q: int| !start_matches(chars@, q) by {
            if q < 0 || q >= n {
                assert(!matches_at(chars@, cookie_prefix(), q));
            }
        }
    }
    None
}

/// Decides whether the pattern stands at position `i`.
#[verifier::loop_isolation(false)]
fn pattern_at(chars: &Vec<char>, pat: &Vec<char>, i: usize) -> (b: bool)
    ensures
        b == matches_at(chars@, pat@, i as int),
{
    let m = pat.len();
    let n = chars.len();
    if n < m || i > n - m {
        proof {
            assert(!matches_at(chars@, pat@, i as int));
        }
        return false;
    }
    let mut k: usize = 0;
    while k < m
        invariant
            forall|t: int| 0 <= t < k ==> chars@[i + t] == pat@[t],
        decreases m - k,
    {
        if chars[i + k] != pat[k] {
            proof {
                assert(chars@.subrange(i as int, i + pat@.len())[k as int] != pat@[k as int]);
            }
            return false;
        }
        k = k + 1;
    }
    proof {
        assert(chars@.subrange(i as int, i + pat@.len()) =~= pat@);
    }
    true
}

/// Finds the last position that closes a token opening at `p`, if any does.
#[verifier::loop_isolation(false)]
fn greedy_domain_search(chars: &Vec<char>, marker: &Vec<char>, p: usize) -> (r: Option<usize>)
    requires
        marker@ == domain_marker(),
        cookie_prefix().len() == 9,
        domain_marker().len() == 9,
        p + 9 <= chars@.len(),
        p + 9 <= usize::MAX,
    ensures
        match r {
            Some(j) => greedy_domain(chars@, p as int, j as int),
            None => forall|j: int| !domain_at(chars@, p as int, j),
        },
{
    let n = chars.len();
    let body_start = p + 9;
    // The first line break at or after the token body decides how far a
    // close may stand: nothing beyond it still reads as one line.
    let mut nl = body_start;
    while nl < n && chars[nl] != '\n'
        invariant
            body_start <= nl <= n,
            newline_free(chars@, body_start as int, nl as int),
        decreases n - nl,
    {
        nl = nl + 1;
    }
    // Scan for the close from the latest workable position downwards; the
    // first hit is the widest read.
    let mut j = if nl > n - 9 {
        if n >= 9 && body_start <= n - 9 {
            n - 9
        } else {
            proof {
                assert forall|k: int| !domain_at(chars@, p as int, k) by {
                    if matches_at(chars@, domain_marker(), k) {
                        assert(k + 9 <= n);
                    }
                }
            }
            return None;
        }
    } else {
        nl
    };
    proof {
        assert forall|k: int| k > j implies !domain_at(chars@, p as int, k) by {
            if matches_at(chars@, domain_marker(), k) && k + 9 <= n && nl < k {
                assert(nl < n);
                assert(chars@[nl as int] == '\n');
                assert(!newline_free(chars@, p + 9, k));
            }
        }
    }
    loop
        invariant
            body_start <= j <= n,
            j + 9 <= n,
            forall|k: int| k > j ==> !domain_at(chars@, p as int, k),
            newline_free(chars@, body_start as int, j as int),
        decreases j,
    {
        if pattern_at(chars, marker, j) {
            return Some(j);
        }
        if j == body_start {
            proof {
                assert forall|k: int| !domain_at(chars@, p as int, k) by {
                    if p + 9 <= k <= j {
                        assert(k == j);
                    }
                }
            }
            return None;
        }
        j = j - 1;
        proof {
            assert(newline_free(chars@, body_start as int, j as int));
        }
    }
}

} // verus!
