use vstd::prelude::*;
use crate::text::{push_str, string_of};

verus! {

/// One page of search results.
pub struct Search {
    pub hits: Vec<Hit>,
}

/// One story of the index.
pub struct Hit {
    pub title: String,
    /// The link that the story points to, where it has one.
    pub url: Option<String>,
    /// The story's identifier in the index.
    pub object_id: String,
    pub author: String,
    /// Creation time, in seconds since the epoch.
    pub created_at_i: i64,
}

/// The discussion page of the story with identifier `id`.
pub open spec fn post_link_text(id: Seq<char>) -> Seq<char> {
    "https://news.ycombinator.com/item?id="@ + id
}

/// The external link of a story, seen as a sequence of characters.
pub open spec fn external_of(hit: &Hit) -> Option<Seq<char>> {
    match &hit.url {
        Some(u) => Some(u@),
        None => None,
    }
}

/// The page whose text a story's notification shows: its external link if it
/// has one, else its discussion page.
pub open spec fn fetch_target(hit: &Hit) -> Seq<char> {
    match &hit.url {
        Some(u) => u@,
        None => post_link_text(hit.object_id@),
    }
}

/// Why no page text could be had for a story.
#[derive(PartialEq, Eq, Structural, Clone, Copy, Debug)]
pub enum FetchFailure {
    /// The story's external link gave no text.
    ExternalUrl,
    /// The story's discussion page gave no text.
    PostUrl,
}

/// The text shown in place of a page that gave none.
pub open spec fn placeholder_text(f: FetchFailure) -> Seq<char> {
    match f {
        FetchFailure::ExternalUrl => "failed to scrape text with hit url"@,
        FetchFailure::PostUrl => "failed to scrape text with post url"@,
    }
}

/// The failure that a story's fetch reports.
pub open spec fn failure_of(hit: &Hit) -> FetchFailure {
    if hit.url is Some { FetchFailure::ExternalUrl } else { FetchFailure::PostUrl }
}

impl FetchFailure {
    /// The text shown in place of the missing page text.
    pub fn placeholder(&self) -> (r: String)
        ensures
            r@ == placeholder_text(*self),
    {
        match self {
            FetchFailure::ExternalUrl => String::from_str("failed to scrape text with hit url"),
            FetchFailure::PostUrl => String::from_str("failed to scrape text with post url"),
        }
    }
}

/// Builds the discussion page link of a story identifier.
pub fn post_link(object_id: &str) -> (r: String)
    ensures
        r@ == post_link_text(object_id@),
{
    let mut out: Vec<char> = Vec::new();
    push_str(&mut out, "https://news.ycombinator.com/item?id=");
    push_str(&mut out, object_id);
    string_of(&out)
}

impl Hit {
    /// The link to this story's discussion page.
    pub fn post_url(&self) -> (r: String)
        ensures
            r@ == post_link_text(self.object_id@),
    {
        post_link(self.object_id.as_str())
    }

    /// The page to fetch for this story: the external link, else the
    /// discussion page.
    pub fn fetch_url(&self) -> (r: String)
        ensures
            r@ == fetch_target(self),
    {
        match &self.url {
            Some(u) => u.clone(),
            None => self.post_url(),
        }
    }

    /// The failure reported when this story's page gives no text.
    pub fn fetch_failure(&self) -> (r: FetchFailure)
        ensures
            r == failure_of(self),
    {
        if self.url.is_some() {
            FetchFailure::ExternalUrl
        } else {
            FetchFailure::PostUrl
        }
    }
}

/// The page text of a story: what the fetch gave, or the placeholder that
/// names which link failed.
pub fn page_text(hit: &Hit, fetched: Option<String>) -> (r: String)
    ensures
        match fetched {
            Some(t) => r@ == t@,
            None => r@ == placeholder_text(failure_of(hit)),
        },
{
    match fetched {
        Some(t) => t,
        None => hit.fetch_failure().placeholder(),
    }
}

/// The stories of a search: none where the request or its parsing failed.
pub fn search_hits(response: Option<Search>) -> (r: Vec<Hit>)
    ensures
        match response {
            Some(s) => r@ == s.hits@,
            None => r@.len() == 0,
        },
{
    match response {
        Some(s) => s.hits,
        None => Vec::new(),
    }
}

} // verus!
