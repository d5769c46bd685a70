//! File-transfer accounts and request paths.

use vstd::prelude::*;
use crate::text::{chars_of, has_prefix, string_of};

verus! {

/// The login of one container's file-transfer account.
#[derive(Debug, Clone)]
pub struct SftpCredentials {
    pub container_id: String,
    pub username: String,
    pub password_hash: String,
    pub volume_id: String,
    pub created_at: u64,
    pub updated_at: u64,
}

/// `s` without its leading slashes.
pub open spec fn without_leading_slashes(s: Seq<char>) -> Seq<char>
    decreases s.len(),
{
    if s.len() > 0 && s[0] == '/' {
        without_leading_slashes(s.drop_first())
    } else {
        s
    }
}

/// A requested path relative to the volume: leading slashes dropped, a
/// leading volume-id component dropped, and "." for the volume itself.
pub open spec fn normalized_request(volume_id: Option<Seq<char>>, requested: Seq<char>) -> Seq<char> {
    let p = without_leading_slashes(requested);
    if p.len() == 0 {
        "."@
    } else if volume_id.is_some() && (p == volume_id.unwrap() || has_prefix(p, volume_id.unwrap() + "/"@)) {
        let rest = without_leading_slashes(p.subrange(volume_id.unwrap().len() as int, p.len() as int));
        if rest.len() == 0 { "."@ } else { rest }
    } else {
        p
    }
}

/// The characters of `s` from `from` on, after any slashes there.
fn skip_slashes(s: &Vec<char>, from: usize) -> (r: Vec<char>)
    requires
        from <= s@.len(),
    ensures
        r@ == without_leading_slashes(s@.subrange(from as int, s@.len() as int)),
{
    let mut k: usize = from;
    while k < s.len() && s[k] == '/'
        invariant
            from <= k <= s@.len(),
            without_leading_slashes(s@.subrange(from as int, s@.len() as int))
                == without_leading_slashes(s@.subrange(k as int, s@.len() as int)),
        decreases s.len() - k,
    {
        assert(s@.subrange(k as int, s@.len() as int).drop_first() =~= s@.subrange(k + 1, s@.len() as int));
        k = k + 1;
    }
    let mut out: Vec<char> = Vec::new();
    let mut i: usize = k;
    while i < s.len()
        invariant
            k <= i <= s@.len(),
            out@ == s@.subrange(k as int, i as int),
        decreases s.len() - i,
    {
        out.push(s[i]);
        assert(out@ =~= s@.subrange(k as int, i + 1));
        i = i + 1;
    }
    assert(out@ == without_leading_slashes(s@.subrange(k as int, s@.len() as int)));
    out
}

/// Whether `v` starts with `prefix` followed by "/", or equals it.
fn is_volume_prefixed(v: &Vec<char>, prefix: &Vec<char>) -> (r: bool)
    ensures
        r == (v@ == prefix@ || has_prefix(v@, prefix@ + "/"@)),
{
    proof {
        reveal_strlit("/");
    }
    let n = prefix.len();
    if v.len() < n {
        assert(v@ != prefix@);
        return false;
    }
    let mut i: usize = 0;
    while i < n
        invariant
            n == prefix@.len(),
            n <= v@.len(),
            i <= n,
            forall|k: int| 0 <= k < i ==> v@[k] == prefix@[k],
        decreases n - i,
    {
        if v[i] != prefix[i] {
            assert((prefix@ + "/"@)[i as int] == prefix@[i as int]);
            assert(v@.len() >= (prefix@ + "/"@).len() ==> v@.subrange(0, (prefix@ + "/"@).len() as int)[i as int] != (prefix@ + "/"@)[i as int]);
            assert(v@ != prefix@);
            return false;
        }
        i = i + 1;
    }
    assert(v@.subrange(0, n as int) =~= prefix@);
    if v.len() == n {
        assert(v@ =~= prefix@);
        true
    } else {
        let slash = v[n] == '/';
        proof {
            assert((prefix@ + "/"@).len() == n + 1);
            if slash {
                assert(v@.subrange(0, n + 1) =~= prefix@ + "/"@);
            } else {
                assert(v@.subrange(0, n + 1)[n as int] != (prefix@ + "/"@)[n as int]);
            }
        }
        slash
    }
}

/// The requested path relative to the volume `volume_id`.
pub fn normalize_requested_path(volume_id: Option<&str>, requested: &str) -> (r: String)
    ensures
        r@ == normalized_request(
            match volume_id {
                Some(v) => Some(v@),
                None => None,
            },
            requested@,
        ),
{
    let req = chars_of(requested);
    let p = skip_slashes(&req, 0);
    assert(req@.subrange(0, req@.len() as int) =~= req@);
    if p.len() == 0 {
        return String::from_str(".");
    }
    if let Some(v) = volume_id {
        let vc = chars_of(v);
        if is_volume_prefixed(&p, &vc) {
            let rest = skip_slashes(&p, vc.len());
            if rest.len() == 0 {
                return String::from_str(".");
            }
            return string_of(rest.as_slice());
        }
    }
    string_of(p.as_slice())
}

} // verus!
