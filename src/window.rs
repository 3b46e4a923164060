use vstd::prelude::*;
use crate::text::{decimal, push_decimal, push_str, string_of};

verus! {

/// How far back, in seconds, a poll looks for new stories: five hours, to
/// tolerate clock skew and indexing lag.
pub const SKEW_SECS: u64 = 18000;

/// The oldest creation time, in seconds since the epoch, that a poll made at
/// `now` asks for.
pub fn lower_bound(now: u64) -> (r: u64)
    requires
        now >= SKEW_SECS,
    ensures
        r == now - SKEW_SECS,
{
    now - SKEW_SECS
}

/// The query that selects stories holding `keyword` created after `lower`,
/// newest first.
pub open spec fn search_url_text(keyword: Seq<char>, lower: nat) -> Seq<char> {
    "https://hn.algolia.com/api/v1/search_by_date?tags=story&query="@ + keyword
        + "&numericFilters=created_at_i>"@ + decimal(lower)
}

/// Builds the search request for `keyword` and the window's lower bound.
pub fn search_url(keyword: &str, lower: u64) -> (r: String)
    ensures
        r@ == search_url_text(keyword@, lower as nat),
{
    let mut out: Vec<char> = Vec::new();
    push_str(&mut out, "https://hn.algolia.com/api/v1/search_by_date?tags=story&query=");
    push_str(&mut out, keyword);
    push_str(&mut out, "&numericFilters=created_at_i>");
    push_decimal(lower, &mut out);
    string_of(&out)
}

} // verus!
