//! Absolute URLs, as far as this crate reads them.
//!
//! Parsing and joining are the work of the `url` crate, which `reqwest`
//! re-exports. A parsed URL is kept here as plain strings: its normalised
//! text and the components the dispatcher and the plugins look at.

use crate::text::opt_view;
use vstd::prelude::*;

verus! {

/// What a parsed URL is made of.
pub struct UrlParts {
    /// The normalised text of the whole URL.
    pub text: Seq<char>,
    /// The scheme, without the colon.
    pub scheme: Seq<char>,
    /// The user name, empty if there is none.
    pub username: Seq<char>,
    /// The host, if it is a domain name (not an IP address).
    pub domain: Option<Seq<char>>,
    /// The path.
    pub path: Seq<char>,
    /// The query as decoded key and value pairs, in order.
    pub query: Seq<(Seq<char>, Seq<char>)>,
}

/// A parsed absolute URL.
#[derive(Clone, Debug)]
pub struct Url {
    text: String,
    scheme: String,
    username: String,
    domain: Option<String>,
    path: String,
    query: Vec<(String, String)>,
}

/// The views of the pairs of `q`.
pub open spec fn pair_views(q: Seq<(String, String)>) -> Seq<(Seq<char>, Seq<char>)> {
    Seq::new(q.len(), |i: int| (q[i].0@, q[i].1@))
}

impl View for Url {
    type V = UrlParts;

    closed spec fn view(&self) -> UrlParts {
        UrlParts {
            text: self.text@,
            scheme: self.scheme@,
            username: self.username@,
            domain: opt_view(self.domain),
            path: self.path@,
            query: pair_views(self.query@),
        }
    }
}

/// What `Url::parse` of the `url` crate makes of `input`: the parts of the
/// URL, or `None` where `input` is not an absolute URL.
pub uninterp spec fn parsed_url(input: Seq<char>) -> Option<UrlParts>;

/// What `Url::join` of the `url` crate makes of `reference` read against the
/// absolute URL `base`: the text of the resulting URL, or `None` where `base`
/// is not an absolute URL or `reference` cannot be resolved against it.
pub uninterp spec fn joined_url(base: Seq<char>, reference: Seq<char>) -> Option<Seq<char>>;

/// Calls `reqwest::Url::parse` and copies out the serialisation, scheme,
/// user name, domain, path and decoded query pairs of the result. The
/// contract claims only that the outcome is a function of `input`.
#[verifier::external_body]
fn parse_absolute(input: &str) -> (r: Option<Url>)
    ensures
        r.is_some() == parsed_url(input@).is_some(),
        r matches Some(u) ==> Some(u@) == parsed_url(input@),
{
    match reqwest::Url::parse(input) {
        Ok(u) => Some(Url {
            text: u.as_str().to_string(),
            scheme: u.scheme().to_string(),
            username: u.username().to_string(),
            domain: u.domain().map(|d| d.to_string()),
            path: u.path().to_string(),
            query: u.query_pairs().map(|(k, v)| (k.into_owned(), v.into_owned())).collect(),
        }),
        Err(_) => None,
    }
}

/// Calls `reqwest::Url::parse` on `base` and `Url::join` on the result with
/// `reference`, and returns the serialisation. The contract claims only that
/// the outcome is a function of the two strings.
#[verifier::external_body]
fn join_absolute(base: &str, reference: &str) -> (r: Option<String>)
    ensures
        opt_view(r) == joined_url(base@, reference@),
{
    match reqwest::Url::parse(base) {
        Ok(b) => match b.join(reference) {
            Ok(u) => Some(u.as_str().to_string()),
            Err(_) => None,
        },
        Err(_) => None,
    }
}

impl Url {
    /// Parses an absolute URL.
    pub fn parse(input: &str) -> (r: Option<Url>)
        ensures
            r.is_some() == parsed_url(input@).is_some(),
            r matches Some(u) ==> Some(u@) == parsed_url(input@),
    {
        parse_absolute(input)
    }

    /// The normalised text of the URL. Two URLs are the same URL exactly when
    /// their texts are equal.
    pub fn as_str(&self) -> (r: &str)
        ensures
            r@ == self@.text,
    {
        self.text.as_str()
    }

    /// The scheme, without the colon.
    pub fn scheme(&self) -> (r: &str)
        ensures
            r@ == self@.scheme,
    {
        self.scheme.as_str()
    }

    /// The user name, empty if there is none.
    pub fn username(&self) -> (r: &str)
        ensures
            r@ == self@.username,
    {
        self.username.as_str()
    }

    /// The host, if it is a domain name.
    pub fn domain(&self) -> (r: Option<&str>)
        ensures
            r.is_some() == self@.domain.is_some(),
            r matches Some(d) ==> Some(d@) == self@.domain,
    {
        match &self.domain {
            Some(d) => Some(d.as_str()),
            None => None,
        }
    }

    /// The path.
    pub fn path(&self) -> (r: &str)
        ensures
            r@ == self@.path,
    {
        self.path.as_str()
    }

    /// The decoded key and value pairs of the query, in order.
    pub fn query_pairs(&self) -> (r: &Vec<(String, String)>)
        ensures
            pair_views(r@) == self@.query,
    {
        &self.query
    }
}

/// Resolves `reference`, absolute or relative, against the absolute URL
/// `base`, and gives the text of the result.
pub fn join(base: &str, reference: &str) -> (r: Option<String>)
    ensures
        opt_view(r) == joined_url(base@, reference@),
{
    join_absolute(base, reference)
}

/// The text of the absolute URL `base` after the key and value pairs
/// `pairs` have been added, in order, to its query by
/// `Serializer::extend_pairs` of the `url` crate; `None` where `base` is
/// not an absolute URL.
pub uninterp spec fn url_with_query(
    base: Seq<char>,
    pairs: Seq<(Seq<char>, Seq<char>)>,
) -> Option<Seq<char>>;

/// The text of the absolute URL `base` after the segments `segments` have
/// been added, in order, to its path by `PathSegmentsMut::extend` of the
/// `url` crate; `None` where `base` is not an absolute URL or cannot have
/// a path.
pub uninterp spec fn url_with_segments(base: Seq<char>, segments: Seq<Seq<char>>) -> Option<
    Seq<char>,
>;

/// Calls `reqwest::Url::parse`, then `Url::query_pairs_mut` and
/// `Serializer::extend_pairs` with `pairs`, and returns the serialisation.
/// The contract claims only that the outcome is a function of the
/// arguments.
#[verifier::external_body]
fn append_query(base: &str, pairs: &Vec<(String, String)>) -> (r: Option<String>)
    ensures
        opt_view(r) == url_with_query(base@, pair_views(pairs@)),
{
    match reqwest::Url::parse(base) {
        Ok(mut u) => {
            u.query_pairs_mut().extend_pairs(pairs.iter());
            Some(u.as_str().to_string())
        },
        Err(_) => None,
    }
}

/// Calls `reqwest::Url::parse`, then `Url::path_segments_mut` and
/// `PathSegmentsMut::extend` with `segments`, and returns the
/// serialisation. The contract claims only that the outcome is a function
/// of the arguments.
#[verifier::external_body]
fn append_segments(base: &str, segments: &Vec<String>) -> (r: Option<String>)
    ensures
        opt_view(r) == url_with_segments(base@, crate::config::texts(segments@)),
{
    match reqwest::Url::parse(base) {
        Ok(mut u) => {
            let added = u.path_segments_mut().map(|mut path| {
                path.extend(segments.iter());
            });
            match added {
                Ok(_) => Some(u.as_str().to_string()),
                Err(_) => None,
            }
        },
        Err(_) => None,
    }
}

/// The text of the absolute URL `base` with `pairs` added to its query.
pub fn with_query(base: &str, pairs: &Vec<(String, String)>) -> (r: Option<String>)
    ensures
        opt_view(r) == url_with_query(base@, pair_views(pairs@)),
{
    append_query(base, pairs)
}

/// The text of the absolute URL `base` with `segments` added to its path.
pub fn with_segments(base: &str, segments: &Vec<String>) -> (r: Option<String>)
    ensures
        opt_view(r) == url_with_segments(base@, crate::config::texts(segments@)),
{
    append_segments(base, segments)
}

} // verus!
