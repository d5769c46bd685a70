//! Text helpers of the server listing.

use vstd::prelude::*;
use crate::text::{chars_of, decimal, decimal_string, string_of};

verus! {

/// How long ago `ts` was at time `now`, in words.
pub open spec fn age_text(ts: u64, now: u64) -> Seq<char> {
    let e: int = if now >= ts { now - ts } else { 0 };
    if e < 60 {
        "Just now"@
    } else if e < 3600 {
        decimal((e / 60) as nat) + " minutes ago"@
    } else if e < 86400 {
        decimal((e / 3600) as nat) + " hours ago"@
    } else {
        decimal((e / 86400) as nat) + " days ago"@
    }
}

/// How long ago `ts` was at time `now`, in words; a time in the future
/// counts as now.
pub fn format_timestamp(ts: u64, now: u64) -> (r: String)
    ensures
        r@ == age_text(ts, now),
{
    let e: u64 = if now >= ts { now - ts } else { 0 };
    if e < 60 {
        String::from_str("Just now")
    } else if e < 3600 {
        decimal_string(e / 60).concat(" minutes ago")
    } else if e < 86400 {
        decimal_string(e / 3600).concat(" hours ago")
    } else {
        decimal_string(e / 86400).concat(" days ago")
    }
}

/// `s` cut to `max_len` characters, the last three of which become "...".
pub open spec fn truncated(s: Seq<char>, max_len: nat) -> Seq<char> {
    if s.len() <= max_len { s } else { s.subrange(0, max_len - 3) + "..."@ }
}

/// `s` cut to `max_len` characters, ending in "..." when it was longer.
pub fn truncate(s: &str, max_len: usize) -> (r: String)
    requires
        max_len >= 3,
    ensures
        r@ == truncated(s@, max_len as nat),
{
    let cs = chars_of(s);
    if cs.len() <= max_len {
        return String::from_str(s);
    }
    let mut out: Vec<char> = Vec::new();
    let mut i: usize = 0;
    while i < max_len - 3
        invariant
            cs@ == s@,
            max_len >= 3,
            max_len < cs@.len(),
            i <= max_len - 3,
            out@ == cs@.subrange(0, i as int),
        decreases max_len - 3 - i,
    {
        out.push(cs[i]);
        assert(out@ =~= cs@.subrange(0, i + 1));
        i = i + 1;
    }
    string_of(out.as_slice()).concat("...")
}

/// Servers shown on one page of the listing.
pub const PAGE_SIZE: usize = 5;

/// The page shown for a request of `page` among `total` servers (at least
/// one): pages count from 1, a request below 1 shows the first page and
/// one past the end shows the last.
pub open spec fn shown_page(total: nat, page: int) -> nat {
    let pages: int = (total + PAGE_SIZE - 1) / (PAGE_SIZE as int);
    if page < 1 { 1 } else if page > pages { pages as nat } else { page as nat }
}

/// For a non-empty listing of `total` servers and a requested `page`:
/// the page shown, the number of pages, and the range of positions
/// `[start, end)` on it.
pub fn page_bounds(total: usize, page: i64) -> (r: (usize, usize, usize, usize))
    requires
        0 < total <= usize::MAX - PAGE_SIZE,
    ensures
        r.1 == (total + PAGE_SIZE - 1) / (PAGE_SIZE as int),
        r.0 == shown_page(total as nat, page as int),
        r.2 == (r.0 - 1) * PAGE_SIZE,
        r.3 == if r.2 + PAGE_SIZE < total { r.2 + PAGE_SIZE } else { total as int },
        r.2 < r.3 <= total,
{
    let pages = (total + PAGE_SIZE - 1) / PAGE_SIZE;
    let shown: usize = if page < 1 {
        1
    } else if page as i128 > pages as i128 {
        pages
    } else {
        page as usize
    };
    assert(pages >= 1);
    assert((shown - 1) * 5 < total) by (nonlinear_arith)
        requires shown <= pages, pages == (total + 4) / 5, shown >= 1, total > 0;
    let start = (shown - 1) * PAGE_SIZE;
    let end = if start + PAGE_SIZE < total { start + PAGE_SIZE } else { total };
    (shown, pages, start, end)
}

} // verus!
