//! Titles of YouTube videos, from the YouTube data API.

use crate::config::Rtd;
use crate::plugins::{
    after_first, domain_is, has_domain, json_array_len, json_array_len_at, json_text,
    json_text_at, skip_first, ApiRequest, ApiRequestView, PluginConfig, PluginError, TitlePlugin,
};
use crate::text::{decimal, from_chars, push_decimal, push_str, same_text};
use crate::url::{pair_views, url_with_query, with_query, Url, UrlParts};
use vstd::prelude::*;

verus! {

/// The address of the YouTube data API's video listing.
pub const REQUEST_URL: &'static str = "https://www.googleapis.com/youtube/v3/videos?part=snippet";

/// The YouTube credential: an API key.
#[derive(Clone, Debug)]
pub struct Config {
    pub api_key: String,
}

impl Default for Config {
    fn default() -> (r: Self)
        ensures
            r.api_key@.len() == 0,
    {
        Config { api_key: String::new() }
    }
}

/// The YouTube title plugin.
#[derive(Clone, Copy, Debug)]
pub struct YouTubePlugin {}

/// The values of the pairs of `query` whose key is `key`, one after the
/// other.
pub open spec fn values_of(query: Seq<(Seq<char>, Seq<char>)>, key: Seq<char>) -> Seq<char>
    decreases query.len(),
{
    if query.len() == 0 {
        Seq::empty()
    } else if query.last().0 == key {
        values_of(query.drop_last(), key) + query.last().1
    } else {
        values_of(query.drop_last(), key)
    }
}

/// The values of the pairs of `query` whose key is `key`, one after the
/// other.
pub fn collect_values(query: &Vec<(String, String)>, key: &str) -> (r: String)
    ensures
        r@ == values_of(pair_views(query@), key@),
{
    let mut out = String::new();
    let mut i: usize = 0;
    while i < query.len()
        invariant
            i <= query.len(),
            out@ == values_of(pair_views(query@).take(i as int), key@),
        decreases query.len() - i,
    {
        proof {
            let now = pair_views(query@).take(i + 1);
            assert(now.drop_last() =~= pair_views(query@).take(i as int));
            assert(now.last() == (query@[i as int].0@, query@[i as int].1@));
        }
        if same_text(query[i].0.as_str(), key) {
            out.append(query[i].1.as_str());
        }
        i += 1;
    }
    assert(pair_views(query@).take(query.len() as int) =~= pair_views(query@));
    out
}

/// The id of the video that `url` shows: the path of a `youtu.be` link
/// without its slash, the values of `v` in the query of a link to one of
/// YouTube's other hosts.
pub open spec fn video_id(url: UrlParts) -> Result<Seq<char>, PluginError> {
    if domain_is(url.domain, "youtu.be"@) {
        Ok(after_first(url.path))
    } else if domain_is(url.domain, "www.youtube.com"@) || domain_is(url.domain, "youtube.com"@)
        || domain_is(url.domain, "music.youtube.com"@) {
        Ok(values_of(url.query, "v"@))
    } else {
        Err(PluginError::UnknownDomain)
    }
}

/// The JSON pointer to the title of item `index` of a video listing.
pub open spec fn item_title_pointer(index: nat) -> Seq<char> {
    "/items/"@ + decimal(index) + "/snippet/title"@
}

/// The views of the optional strings of `v`.
pub open spec fn opt_views(v: Seq<Option<String>>) -> Seq<Option<Seq<char>>> {
    Seq::new(v.len(), |i: int| crate::text::opt_view(v[i]))
}

/// What was found for the title of each of the first `count` items of the
/// listing `body`.
pub open spec fn item_titles(body: Seq<char>, count: nat) -> Seq<Option<Seq<char>>> {
    Seq::new(count, |i: int| json_text_at(body, item_title_pointer(i as nat)))
}

/// The title that a listing holds, where `titles` is what was found for
/// the title of each of its items, in order, or nothing where no listing
/// was found. The answer is bad without a listing, and bad if any item
/// lacks its title; a listing without items is an empty list; else the
/// title is that of the last item.
pub open spec fn listed_title(titles: Option<Seq<Option<Seq<char>>>>) -> Result<
    Seq<char>,
    PluginError,
> {
    match titles {
        None => Err(PluginError::BadResponse),
        Some(found) => if exists|i: int| 0 <= i < found.len() && (#[trigger] found[i]).is_none() {
            Err(PluginError::BadResponse)
        } else if found.len() == 0 {
            Err(PluginError::NoListItems)
        } else {
            Ok(found.last().unwrap())
        },
    }
}

impl TitlePlugin for YouTubePlugin {
    open spec fn label(&self) -> Seq<char> {
        "youtube"@
    }

    open spec fn key(&self, config: PluginConfig) -> Seq<char> {
        config.youtube.api_key@
    }

    /// Anything on `youtube.com`, `www.youtube.com`, `youtu.be` or
    /// `music.youtube.com`.
    open spec fn owns(&self, url: UrlParts) -> bool {
        domain_is(url.domain, "youtube.com"@) || domain_is(url.domain, "www.youtube.com"@)
            || domain_is(url.domain, "youtu.be"@) || domain_is(url.domain, "music.youtube.com"@)
    }

    /// The listing's address with the video's id and the API key added to
    /// its query.
    open spec fn plan(&self, rtd: Rtd, url: UrlParts) -> Result<ApiRequestView, PluginError> {
        match video_id(url) {
            Err(e) => Err(e),
            Ok(id) => match url_with_query(
                REQUEST_URL@,
                seq![("id"@, id), ("key"@, rtd.conf.plugins.youtube.api_key@)],
            ) {
                None => Err(PluginError::BadRequestUrl),
                Some(address) => if rtd.client.is_none() {
                    Err(PluginError::NoClient)
                } else {
                    Ok(ApiRequestView { url: address, headers: Seq::empty() })
                },
            },
        }
    }

    /// The string at `snippet.title` of the last of `items`, where every
    /// item has such a string.
    open spec fn answer(&self, body: Seq<char>) -> Result<Seq<char>, PluginError> {
        listed_title(
            match json_array_len_at(body, "/items"@) {
                Some(n) => Some(item_titles(body, n)),
                None => None,
            },
        )
    }

    fn name(&self) -> (r: &'static str) {
        "youtube"
    }

    fn check(&self, config: &PluginConfig, url: &Url) -> (r: bool) {
        if config.youtube.api_key.as_str().is_empty() {
            false
        } else {
            has_domain(url, "youtube.com") || has_domain(url, "www.youtube.com") || has_domain(
                url,
                "youtu.be",
            ) || has_domain(url, "music.youtube.com")
        }
    }

    fn evaluate(&self, rtd: &Rtd, url: &Url) -> (r: Result<ApiRequest, PluginError>) {
        let id = if has_domain(url, "youtu.be") {
            skip_first(url.path())
        } else if has_domain(url, "www.youtube.com") || has_domain(url, "youtube.com")
            || has_domain(url, "music.youtube.com") {
            collect_values(url.query_pairs(), "v")
        } else {
            return Err(PluginError::UnknownDomain);
        };
        let mut pairs: Vec<(String, String)> = Vec::new();
        pairs.push(("id".to_owned(), id));
        pairs.push(("key".to_owned(), rtd.conf.plugins.youtube.api_key.clone()));
        assert(pair_views(pairs@) =~= seq![
            ("id"@, id@),
            ("key"@, rtd.conf.plugins.youtube.api_key@),
        ]);
        let address = match with_query(REQUEST_URL, &pairs) {
            Some(a) => a,
            None => {
                return Err(PluginError::BadRequestUrl);
            },
        };
        if rtd.client.is_none() {
            return Err(PluginError::NoClient);
        }
        let request = ApiRequest { url: address, headers: Vec::new() };
        assert(request@.headers =~= Seq::empty());
        Ok(request)
    }

    fn title(&self, body: &str) -> (r: Result<String, PluginError>) {
        match json_array_len(body, "/items") {
            None => pick_listed_title(None),
            Some(n) => {
                let mut found: Vec<Option<String>> = Vec::new();
                let mut i: usize = 0;
                while i < n
                    invariant
                        i <= n,
                        opt_views(found@) == item_titles(body@, i as nat),
                    decreases n - i,
                {
                    let mut pointer: Vec<char> = Vec::new();
                    push_str(&mut pointer, "/items/");
                    push_decimal(&mut pointer, i as u64);
                    push_str(&mut pointer, "/snippet/title");
                    assert(pointer@ =~= item_title_pointer(i as nat));
                    let pointer = from_chars(&pointer);
                    let title = json_text(body, pointer.as_str());
                    let ghost before = opt_views(found@);
                    found.push(title);
                    assert(opt_views(found@) =~= before.push(crate::text::opt_view(title)));
                    assert(opt_views(found@) =~= item_titles(body@, (i + 1) as nat));
                    i += 1;
                }
                pick_listed_title(Some(found))
            },
        }
    }
}

/// The title that a listing holds, where `titles` is what was found for
/// the title of each of its items, in order, or nothing where no listing
/// was found.
pub fn pick_listed_title(titles: Option<Vec<Option<String>>>) -> (r: Result<String, PluginError>)
    ensures
        crate::plugins::title_view(r) == listed_title(
            match titles {
                Some(found) => Some(opt_views(found@)),
                None => None,
            },
        ),
{
    match titles {
        None => Err(PluginError::BadResponse),
        Some(found) => {
            let mut found = found;
            let ghost all = opt_views(found@);
            let mut i: usize = 0;
            while i < found.len()
                invariant
                    i <= found.len(),
                    all == opt_views(found@),
                    titles matches Some(given) && opt_views(given@) == all,
                    forall|k: int| 0 <= k < i ==> (#[trigger] all[k]).is_some(),
                decreases found.len() - i,
            {
                if found[i].is_none() {
                    assert(all[i as int].is_none());
                    return Err(PluginError::BadResponse);
                }
                i += 1;
            }
            match found.pop() {
                None => Err(PluginError::NoListItems),
                Some(last) => {
                    assert(crate::text::opt_view(last) == all.last());
                    match last {
                        Some(t) => Ok(t),
                        None => Err(PluginError::BadResponse),
                    }
                },
            }
        },
    }
}

} // verus!
