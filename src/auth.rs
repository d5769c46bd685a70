//! Authentication rules: API bearer tokens, allowed origins, one-shot
//! WebSocket tokens and their lifetimes.

use vstd::prelude::*;
use crate::pool::fresh_id;
use crate::text::{chars_of, contains, contains_chars, has_prefix, prefix_to, same_text, starts_with_text, string_of, suffix_from, trim, trim_text};

verus! {

/// Prefix that every API and WebSocket token carries.
pub open spec fn token_prefix() -> Seq<char> {
    "lightd_"@
}

/// Shortest API token accepted in the configuration, in characters.
pub const MIN_API_TOKEN_CHARS: usize = 20;

/// Settings of the API authentication layer.
#[derive(Debug)]
pub struct AuthConfig {
    pub api_token: String,
    pub allowed_origins: Vec<String>,
}

/// A WebSocket token record.
#[derive(Debug)]
pub struct TokenData {
    pub token: String,
    pub created_at: u64,
    pub expires_at: u64,
    pub remove_on_use: bool,
    pub used: bool,
}

/// The outcome of presenting a WebSocket token.
#[derive(Debug, Clone, Copy, PartialEq, Eq, Structural)]
pub enum TokenCheck {
    /// Accepted; the record stays.
    Valid,
    /// Accepted; the record is used up and must be removed.
    Consumed,
    /// Refused because it expired; the record must be removed.
    Expired,
    /// Refused because it was used already; the record must be removed.
    AlreadyUsed,
}

impl TokenCheck {
    /// The token is accepted.
    pub fn accepted(&self) -> (r: bool)
        ensures
            r == (*self == TokenCheck::Valid || *self == TokenCheck::Consumed),
    {
        matches!(self, TokenCheck::Valid | TokenCheck::Consumed)
    }

    /// The record must be removed afterwards.
    pub fn removes_record(&self) -> (r: bool)
        ensures
            r == (*self != TokenCheck::Valid),
    {
        !matches!(self, TokenCheck::Valid)
    }
}

/// What presenting a token with record `t` at time `now` yields.
pub open spec fn token_check(t: TokenData, now: u64, mark_used: bool) -> TokenCheck {
    if now > t.expires_at {
        TokenCheck::Expired
    } else if t.used && t.remove_on_use {
        TokenCheck::AlreadyUsed
    } else if mark_used && t.remove_on_use {
        TokenCheck::Consumed
    } else {
        TokenCheck::Valid
    }
}

/// Judges a presented token against its record at time `now`; `mark_used`
/// spends a one-shot token.
pub fn check_token(data: &TokenData, now: u64, mark_used: bool) -> (r: TokenCheck)
    ensures
        r == token_check(*data, now, mark_used),
{
    if now > data.expires_at {
        TokenCheck::Expired
    } else if data.used && data.remove_on_use {
        TokenCheck::AlreadyUsed
    } else if mark_used && data.remove_on_use {
        TokenCheck::Consumed
    } else {
        TokenCheck::Valid
    }
}

/// `s` without its hyphens.
pub open spec fn without_hyphens(s: Seq<char>) -> Seq<char> {
    s.filter(|c: char| c != '-')
}

/// `s` without its hyphens.
pub fn strip_hyphens(s: &str) -> (r: String)
    ensures
        r@ == without_hyphens(s@),
{
    let cs = chars_of(s);
    let mut out: Vec<char> = Vec::new();
    let mut i: usize = 0;
    while i < cs.len()
        invariant
            cs@ == s@,
            i <= cs@.len(),
            out@ == cs@.subrange(0, i as int).filter(|c: char| c != '-'),
        decreases cs.len() - i,
    {
        proof {
            reveal(Seq::filter);
            assert(cs@.subrange(0, i + 1).drop_last() =~= cs@.subrange(0, i as int));
        }
        if cs[i] != '-' {
            out.push(cs[i]);
        }
        i = i + 1;
    }
    assert(cs@.subrange(0, cs@.len() as int) =~= cs@);
    string_of(out.as_slice())
}

/// A fresh token record: "lightd_" and random hex, valid from `now` for
/// `ttl_seconds`, not used.
pub fn generate_token(now: u64, ttl_seconds: u64, remove_on_use: bool) -> (r: TokenData)
    requires
        now + ttl_seconds <= u64::MAX,
    ensures
        has_prefix(r.token@, token_prefix()),
        r.created_at == now,
        r.expires_at == now + ttl_seconds,
        r.remove_on_use == remove_on_use,
        !r.used,
{
    let id = fresh_id();
    let hex = strip_hyphens(id.as_str());
    let token = String::from_str("lightd_").concat(hex.as_str());
    proof {
        reveal_strlit("lightd_");
        assert(token@.subrange(0, 7) =~= "lightd_"@);
    }
    TokenData { token, created_at: now, expires_at: now + ttl_seconds, remove_on_use, used: false }
}

/// The listed origin `allowed` lets `origin` pass.
pub open spec fn admits(allowed: String, origin: Seq<char>) -> bool {
    allowed@ == "*"@ || allowed@ == origin
}

/// Whether a request from `origin` may pass: any request without an
/// origin, or one whose origin is listed or "*" is listed.
pub fn is_origin_allowed(origin: Option<&str>, allowed_origins: &Vec<String>) -> (r: bool)
    ensures
        origin.is_none() ==> r,
        origin.is_some() ==> r == exists|i: int| 0 <= i < allowed_origins@.len() && admits(#[trigger] allowed_origins@[i], origin.unwrap()@),
{
    match origin {
        None => true,
        Some(o) => {
            let mut i: usize = 0;
            while i < allowed_origins.len()
                invariant
                    i <= allowed_origins@.len(),
                    origin == Some(o),
                    forall|k: int| 0 <= k < i ==> !admits(#[trigger] allowed_origins@[k], o@),
                decreases allowed_origins.len() - i,
            {
                if same_text(allowed_origins[i].as_str(), "*") || same_text(allowed_origins[i].as_str(), o) {
                    assert(admits(allowed_origins@[i as int], o@));
                    return true;
                }
                i = i + 1;
            }
            false
        },
    }
}

/// Whether an `Authorization` header value carries the API token:
/// "Bearer " followed by a token that starts with "lightd_" and equals
/// `api_token`.
pub fn validate_bearer_token(authorization: Option<&str>, api_token: &str) -> (r: bool)
    ensures
        r == (authorization.is_some() && has_prefix(authorization.unwrap()@, "Bearer "@) && {
            let token = authorization.unwrap()@.subrange(7, authorization.unwrap()@.len() as int);
            has_prefix(token, token_prefix()) && token == api_token@
        }),
{
    match authorization {
        None => false,
        Some(h) => {
            proof {
                reveal_strlit("Bearer ");
            }
            if !starts_with_text(h, "Bearer ") {
                return false;
            }
            let token = suffix_from(h, 7);
            starts_with_text(token.as_str(), "lightd_") && same_text(token.as_str(), api_token)
        },
    }
}

/// Whether an `Accept` header value names the daemon's vendor media type.
pub fn validate_vendor(accept: Option<&str>) -> (r: bool)
    ensures
        r == (accept.is_some() && contains(accept.unwrap()@, "Application/vnd.pkglat"@)),
{
    match accept {
        None => false,
        Some(a) => {
            let hay = chars_of(a);
            let needle = chars_of("Application/vnd.pkglat");
            contains_chars(hay.as_slice(), needle.as_slice())
        },
    }
}

/// Whether `token` may serve as the API token: it starts with "lightd_"
/// and has at least `MIN_API_TOKEN_CHARS` characters.
pub fn validate_api_token(token: &str) -> (r: bool)
    ensures
        r == (has_prefix(token@, token_prefix()) && token@.len() >= MIN_API_TOKEN_CHARS),
{
    starts_with_text(token, "lightd_") && chars_of(token).len() >= MIN_API_TOKEN_CHARS
}

/// An ASCII decimal digit.
pub open spec fn is_digit(c: char) -> bool {
    '0' <= c && c <= '9'
}

/// Value of the decimal digits `s`.
pub open spec fn digits_value(s: Seq<char>) -> nat
    decreases s.len(),
{
    if s.len() == 0 {
        0
    } else {
        digits_value(s.drop_last()) * 10 + ((s.last() as u32) - 48) as nat
    }
}

/// What `u64::from_str` gives for `s`: an optional "+" and at least one
/// digit, of a value that fits.
pub open spec fn parsed_u64(s: Seq<char>) -> Option<u64> {
    let d = if s.len() > 0 && s[0] == '+' { s.drop_first() } else { s };
    if d.len() > 0 && (forall|i: int| 0 <= i < d.len() ==> is_digit(#[trigger] d[i])) && digits_value(d) <= u64::MAX {
        Some(digits_value(d) as u64)
    } else {
        None
    }
}

/// Relies on `u64::from_str`: an optional "+" followed by decimal digits,
/// refused when empty, when another character occurs, or on overflow.
#[verifier::external_body]
fn parse_u64(s: &str) -> (r: Option<u64>)
    ensures
        r == parsed_u64(s@),
{
    s.parse::<u64>().ok()
}

/// What `usize::from_str` gives for `s`: an optional "+" and at least one
/// digit, of a value that fits.
pub open spec fn parsed_usize(s: Seq<char>) -> Option<usize> {
    let d = if s.len() > 0 && s[0] == '+' { s.drop_first() } else { s };
    if d.len() > 0 && (forall|i: int| 0 <= i < d.len() ==> is_digit(#[trigger] d[i])) && digits_value(d) <= usize::MAX {
        Some(digits_value(d) as usize)
    } else {
        None
    }
}

/// Relies on `usize::from_str`: an optional "+" followed by decimal
/// digits, refused when empty, when another character occurs, or on
/// overflow.
#[verifier::external_body]
pub(crate) fn parse_usize(s: &str) -> (r: Option<usize>)
    ensures
        r == parsed_usize(s@),
{
    s.parse::<usize>().ok()
}

/// `v` seconds scaled by `k`, if it fits.
pub open spec fn scaled(v: Option<u64>, k: u64) -> Option<u64> {
    match v {
        Some(x) => if x * k <= u64::MAX { Some((x * k) as u64) } else { None },
        None => None,
    }
}

/// Seconds meant by a lifetime such as "30m", "2h", "45s" or "90", after
/// trimming; `None` when malformed or too large.
pub open spec fn ttl_seconds(s: Seq<char>) -> Option<u64> {
    let t = trim(s);
    if t.len() > 0 && t.last() == 'm' {
        scaled(parsed_u64(t.drop_last()), 60)
    } else if t.len() > 0 && t.last() == 'h' {
        scaled(parsed_u64(t.drop_last()), 3600)
    } else if t.len() > 0 && t.last() == 's' {
        parsed_u64(t.drop_last())
    } else {
        parsed_u64(t)
    }
}

/// A lifetime is malformed or too large.
#[derive(Debug, Clone, Copy, PartialEq, Eq, Structural)]
pub struct InvalidTtl;

/// Seconds meant by a lifetime: minutes with "m", hours with "h",
/// seconds with "s" or no suffix.
pub fn parse_ttl(ttl: &str) -> (r: Result<u64, InvalidTtl>)
    ensures
        ttl_seconds(ttl@).is_some() ==> r == Ok::<u64, InvalidTtl>(ttl_seconds(ttl@).unwrap()),
        ttl_seconds(ttl@).is_none() ==> r is Err,
{
    let t = trim_text(ttl);
    let tc = chars_of(t.as_str());
    let n = tc.len();
    if n == 0 || (tc[n - 1] != 'm' && tc[n - 1] != 'h' && tc[n - 1] != 's') {
        return match parse_u64(t.as_str()) {
            Some(v) => Ok(v),
            None => Err(InvalidTtl),
        };
    }
    let body = prefix_to(t.as_str(), n - 1);
    assert(body@ =~= trim(ttl@).drop_last());
    let v = match parse_u64(body.as_str()) {
        Some(v) => v,
        None => return Err(InvalidTtl),
    };
    if tc[n - 1] == 's' {
        return Ok(v);
    }
    let k: u64 = if tc[n - 1] == 'm' { 60 } else { 3600 };
    assert(ttl_seconds(ttl@) == scaled(Some(v), k));
    match v.checked_mul(k) {
        Some(x) => Ok(x),
        None => Err(InvalidTtl),
    }
}

/// Some record of `v` is for token `t`.
pub open spec fn has_token(v: Seq<TokenData>, t: Seq<char>) -> bool {
    exists|i: int| 0 <= i < v.len() && (#[trigger] v[i]).token@ == t
}

/// Position of the record for token `t`.
pub open spec fn token_index(v: Seq<TokenData>, t: Seq<char>) -> int {
    choose|i: int| 0 <= i < v.len() && (#[trigger] v[i]).token@ == t
}

/// No two records are for the same token.
pub open spec fn tokens_unique(v: Seq<TokenData>) -> bool {
    forall|i: int, j: int| 0 <= i < v.len() && 0 <= j < v.len() && i != j ==> (#[trigger] v[i]).token@ != (#[trigger] v[j]).token@
}

/// The records of `v` still valid at `now`, in order.
pub open spec fn unexpired(v: Seq<TokenData>, now: u64) -> Seq<TokenData> {
    v.filter(|t: TokenData| now <= t.expires_at)
}

/// The WebSocket tokens in force.
pub struct TokenManager {
    tokens: Vec<TokenData>,
}

impl TokenManager {
    /// The records, in issue order.
    pub closed spec fn records(&self) -> Seq<TokenData> {
        self.tokens@
    }

    /// No two records are for the same token.
    pub open spec fn wf(&self) -> bool {
        tokens_unique(self.records())
    }

    /// A store without tokens.
    pub fn new() -> (r: Self)
        ensures
            r.wf(),
            r.records().len() == 0,
    {
        TokenManager { tokens: Vec::new() }
    }

    /// Position of the record for `token`.
    fn find(&self, token: &str) -> (r: Option<usize>)
        requires
            self.wf(),
        ensures
            r.is_none() == !has_token(self.records(), token@),
            r.is_some() ==> r.unwrap() < self.records().len() && r.unwrap() == token_index(self.records(), token@),
    {
        let mut i: usize = 0;
        while i < self.tokens.len()
            invariant
                i <= self.tokens@.len(),
                self.wf(),
                forall|k: int| 0 <= k < i ==> (#[trigger] self.tokens@[k]).token@ != token@,
            decreases self.tokens.len() - i,
        {
            if same_text(self.tokens[i].token.as_str(), token) {
                proof {
                    assert(has_token(self.records(), token@));
                    let j = token_index(self.records(), token@);
                    assert(self.records()[j].token@ == token@);
                }
                return Some(i);
            }
            i = i + 1;
        }
        None
    }

    /// Stores `data`; false, and nothing changes, when its token is issued already.
    pub fn insert_token(&mut self, data: TokenData) -> (r: bool)
        requires
            old(self).wf(),
        ensures
            final(self).wf(),
            r == !has_token(old(self).records(), data.token@),
            r ==> final(self).records() == old(self).records().push(data),
            !r ==> final(self).records() == old(self).records(),
    {
        if self.find(data.token.as_str()).is_some() {
            return false;
        }
        let ghost before = self.tokens@;
        self.tokens.push(data);
        proof {
            assert forall|a: int, b: int| 0 <= a < self.tokens@.len() && 0 <= b < self.tokens@.len() && a != b
                implies (#[trigger] self.tokens@[a]).token@ != (#[trigger] self.tokens@[b]).token@ by {
                if a < before.len() { assert(before[a] == self.tokens@[a]); }
                if b < before.len() { assert(before[b] == self.tokens@[b]); }
            }
        }
        true
    }

    /// Issues a token valid from `now` for `ttl_seconds` and returns it.
    /// Succeeds on an empty store; `None` only when the random token is
    /// already issued.
    pub fn generate_token(&mut self, now: u64, ttl_seconds: u64, remove_on_use: bool) -> (r: Option<String>)
        requires
            old(self).wf(),
            now + ttl_seconds <= u64::MAX,
        ensures
            final(self).wf(),
            old(self).records().len() == 0 ==> r.is_some(),
            r.is_none() ==> final(self).records() == old(self).records(),
            r.is_some() ==> {
                let t = final(self).records().last();
                &&& final(self).records().drop_last() == old(self).records()
                &&& final(self).records().len() == old(self).records().len() + 1
                &&& t.token@ == r.unwrap()@
                &&& has_prefix(t.token@, token_prefix())
                &&& t.created_at == now && t.expires_at == now + ttl_seconds
                &&& t.remove_on_use == remove_on_use && !t.used
            },
    {
        let data = generate_token(now, ttl_seconds, remove_on_use);
        let token = data.token.clone();
        let ghost d = data;
        if self.insert_token(data) {
            assert(self.records().drop_last() =~= old(self).records());
            assert(self.records().last() == d);
            Some(token)
        } else {
            None
        }
    }

    /// Judges `token` at time `now`; `mark_used` spends a one-shot token.
    /// A refused record, and a spent one-shot record, are removed. An
    /// unknown token is refused.
    pub fn validate_token(&mut self, token: &str, mark_used: bool, now: u64) -> (r: bool)
        requires
            old(self).wf(),
        ensures
            final(self).wf(),
            !has_token(old(self).records(), token@) ==> !r && final(self).records() == old(self).records(),
            has_token(old(self).records(), token@) ==> {
                let i = token_index(old(self).records(), token@);
                let check = token_check(old(self).records()[i], now, mark_used);
                &&& r == (check == TokenCheck::Valid || check == TokenCheck::Consumed)
                &&& check == TokenCheck::Valid ==> final(self).records() == old(self).records()
                &&& check != TokenCheck::Valid ==> final(self).records() == old(self).records().remove(i)
            },
    {
        let i = match self.find(token) {
            Some(i) => i,
            None => return false,
        };
        let check = check_token(&self.tokens[i], now, mark_used);
        if check.removes_record() {
            let ghost before = self.tokens@;
            self.tokens.remove(i);
            proof {
                assert forall|a: int, b: int| 0 <= a < self.tokens@.len() && 0 <= b < self.tokens@.len() && a != b
                    implies (#[trigger] self.tokens@[a]).token@ != (#[trigger] self.tokens@[b]).token@ by {
                    let a2 = if a < i { a } else { a + 1 };
                    let b2 = if b < i { b } else { b + 1 };
                    assert(before[a2] == self.tokens@[a]);
                    assert(before[b2] == self.tokens@[b]);
                }
            }
        }
        check.accepted()
    }

    /// Removes every record expired at `now`; returns how many left.
    pub fn cleanup_expired(&mut self, now: u64) -> (r: usize)
        requires
            old(self).wf(),
        ensures
            final(self).wf(),
            final(self).records() == unexpired(old(self).records(), now),
            r == old(self).records().len() - final(self).records().len(),
    {
        let ghost orig = self.tokens@;
        let mut kept: Vec<TokenData> = Vec::new();
        let mut removed: usize = 0;
        let mut i: usize = 0;
        while i < self.tokens.len()
            invariant
                self.tokens@ == orig,
                tokens_unique(orig),
                i <= orig.len(),
                kept@ == unexpired(orig.subrange(0, i as int), now),
                kept@.len() + removed == i,
                forall|k: int| 0 <= k < kept@.len() ==> exists|j: int| 0 <= j < i && #[trigger] kept@[k] == orig[j],
                tokens_unique(kept@),
            decreases self.tokens.len() - i,
        {
            proof {
                reveal(Seq::filter);
                assert(orig.subrange(0, i + 1).drop_last() =~= orig.subrange(0, i as int));
            }
            if now <= self.tokens[i].expires_at {
                let t = TokenData {
                    token: self.tokens[i].token.clone(),
                    created_at: self.tokens[i].created_at,
                    expires_at: self.tokens[i].expires_at,
                    remove_on_use: self.tokens[i].remove_on_use,
                    used: self.tokens[i].used,
                };
                let ghost before = kept@;
                assert(t == orig[i as int]);
                kept.push(t);
                proof {
                    assert forall|k: int| 0 <= k < kept@.len() implies exists|j: int| 0 <= j < i + 1 && #[trigger] kept@[k] == orig[j] by {
                        if k < before.len() {
                            assert(before[k] == kept@[k]);
                        } else {
                            assert(kept@[k] == orig[i as int]);
                        }
                    }
                    assert forall|a: int, b: int| 0 <= a < kept@.len() && 0 <= b < kept@.len() && a != b
                        implies (#[trigger] kept@[a]).token@ != (#[trigger] kept@[b]).token@ by {
                        if a < before.len() && b < before.len() {
                            assert(before[a] == kept@[a]);
                            assert(before[b] == kept@[b]);
                        } else if a < before.len() {
                            assert(before[a] == kept@[a]);
                            let j = choose|j: int| 0 <= j < i && #[trigger] before[a] == orig[j];
                        } else {
                            assert(before[b] == kept@[b]);
                            let j = choose|j: int| 0 <= j < i && #[trigger] before[b] == orig[j];
                        }
                    }
                }
            } else {
                removed = removed + 1;
            }
            i = i + 1;
        }
        assert(orig.subrange(0, orig.len() as int) =~= orig);
        self.tokens = kept;
        removed
    }
}

} // verus!
