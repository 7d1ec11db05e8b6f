//! Title resolvers for sites that answer better through their own API.
//!
//! A plugin says whether a link is its own (`check`), which request to its
//! provider answers it (`evaluate`), and which title the provider's answer
//! holds (`title`). The request itself is made by the caller.

use crate::config::Rtd;
use crate::text::opt_view;
use crate::url::{Url, UrlParts};
use vstd::prelude::*;

pub mod imgur;
pub mod vimeo;
pub mod youtube;

verus! {

/// The credentials of the plugins, one key each. A plugin whose key is
/// empty is switched off.
#[derive(Clone, Debug)]
pub struct PluginConfig {
    pub imgur: imgur::Config,
    pub youtube: youtube::Config,
    pub vimeo: vimeo::Config,
}

impl Default for PluginConfig {
    fn default() -> (r: Self)
        ensures
            r.imgur.api_key@.len() == 0,
            r.youtube.api_key@.len() == 0,
            r.vimeo.api_key@.len() == 0,
    {
        PluginConfig {
            imgur: imgur::Config { api_key: String::new() },
            youtube: youtube::Config { api_key: String::new() },
            vimeo: vimeo::Config { api_key: String::new() },
        }
    }
}

/// Why a plugin gave no title.
#[derive(Clone, Copy, Debug, PartialEq, Eq, Structural)]
pub enum PluginError {
    /// No retriever was built before the plugin was run.
    NoClient,
    /// The link is on a host that the plugin does not know.
    UnknownDomain,
    /// The address of the provider's API could not be put together.
    BadRequestUrl,
    /// The credential cannot be sent in a header.
    BadHeader,
    /// The provider answered with an empty list.
    NoListItems,
    /// The provider's answer is not JSON, or holds no title where one is due.
    BadResponse,
    /// The request to the provider failed on the way.
    Transport,
}

impl PluginError {
    /// The error in words.
    pub fn message(&self) -> (r: String)
        ensures
            r@ == match *self {
                PluginError::NoClient => "Can't get http client"@,
                PluginError::UnknownDomain => "Unknown domain"@,
                PluginError::BadRequestUrl => "Can't build the request address"@,
                PluginError::BadHeader => "Can't send the API key in a header"@,
                PluginError::NoListItems => "No list items in response"@,
                PluginError::BadResponse => "Can't read the response"@,
                PluginError::Transport => "Can't reach the API"@,
            },
    {
        match self {
            PluginError::NoClient => "Can't get http client".to_owned(),
            PluginError::UnknownDomain => "Unknown domain".to_owned(),
            PluginError::BadRequestUrl => "Can't build the request address".to_owned(),
            PluginError::BadHeader => "Can't send the API key in a header".to_owned(),
            PluginError::NoListItems => "No list items in response".to_owned(),
            PluginError::BadResponse => "Can't read the response".to_owned(),
            PluginError::Transport => "Can't reach the API".to_owned(),
        }
    }
}

/// The one request that answers a link: the address of the provider's API
/// and the headers that go with it, beyond those of every request.
#[derive(Clone, Debug)]
pub struct ApiRequest {
    pub url: String,
    pub headers: Vec<(String, String)>,
}

/// What a request to a provider is made of.
pub struct ApiRequestView {
    pub url: Seq<char>,
    pub headers: Seq<(Seq<char>, Seq<char>)>,
}

impl View for ApiRequest {
    type V = ApiRequestView;

    open spec fn view(&self) -> ApiRequestView {
        ApiRequestView { url: self.url@, headers: crate::url::pair_views(self.headers@) }
    }
}

/// The view of the outcome of `evaluate`.
pub open spec fn request_view(r: Result<ApiRequest, PluginError>) -> Result<
    ApiRequestView,
    PluginError,
> {
    match r {
        Ok(q) => Ok(q@),
        Err(e) => Err(e),
    }
}

/// The view of the outcome of `title`.
pub open spec fn title_view(r: Result<String, PluginError>) -> Result<Seq<char>, PluginError> {
    match r {
        Ok(t) => Ok(t@),
        Err(e) => Err(e),
    }
}

/// The string that `serde_json` finds in the JSON document `body` at the
/// JSON pointer `pointer`; `None` where `body` is not JSON, nothing is at
/// the pointer, or what is there is no string.
pub uninterp spec fn json_text_at(body: Seq<char>, pointer: Seq<char>) -> Option<Seq<char>>;

/// The length of the array that `serde_json` finds in the JSON document
/// `body` at the JSON pointer `pointer`; `None` where `body` is not JSON,
/// nothing is at the pointer, or what is there is no array.
pub uninterp spec fn json_array_len_at(body: Seq<char>, pointer: Seq<char>) -> Option<nat>;

/// Calls `serde_json::from_str` for a `Value`, then `Value::pointer` and
/// `Value::as_str`. The contract claims only that the outcome is a function
/// of the two strings.
#[verifier::external_body]
pub(crate) fn json_text(body: &str, pointer: &str) -> (r: Option<String>)
    ensures
        opt_view(r) == json_text_at(body@, pointer@),
{
    match serde_json::from_str::<serde_json::Value>(body) {
        Ok(v) => v.pointer(pointer).and_then(|t| t.as_str()).map(|t| t.to_string()),
        Err(_) => None,
    }
}

/// Calls `serde_json::from_str` for a `Value`, then `Value::pointer` and
/// `Value::as_array`, and takes the length. The contract claims only that
/// the outcome is a function of the two strings.
#[verifier::external_body]
pub(crate) fn json_array_len(body: &str, pointer: &str) -> (r: Option<usize>)
    ensures
        r.is_some() == json_array_len_at(body@, pointer@).is_some(),
        r matches Some(n) ==> Some(n as nat) == json_array_len_at(body@, pointer@),
{
    match serde_json::from_str::<serde_json::Value>(body) {
        Ok(v) => v.pointer(pointer).and_then(|a| a.as_array()).map(|a| a.len()),
        Err(_) => None,
    }
}

/// `s` without its first character.
pub open spec fn after_first(s: Seq<char>) -> Seq<char> {
    if s.len() > 0 {
        s.skip(1)
    } else {
        s
    }
}

/// `s` without its first character.
pub fn skip_first(s: &str) -> (r: String)
    ensures
        r@ == after_first(s@),
{
    let n = s.unicode_len();
    if n > 0 {
        let rest = s.substring_char(1, n);
        assert(rest@ == s@.skip(1));
        rest.to_owned()
    } else {
        String::new()
    }
}

/// Whether `domain` is the domain name `name`.
pub open spec fn domain_is(domain: Option<Seq<char>>, name: Seq<char>) -> bool {
    domain == Some(name)
}

/// Whether the host of `url` is the domain name `name`.
pub fn has_domain(url: &Url, name: &str) -> (r: bool)
    ensures
        r == domain_is(url@.domain, name@),
{
    match url.domain() {
        Some(d) => crate::text::same_text(d, name),
        None => false,
    }
}

/// A title resolver for the links of one site.
pub trait TitlePlugin {
    /// The name of the plugin.
    spec fn label(&self) -> Seq<char>;

    /// The credential of this plugin in `config`.
    spec fn key(&self, config: PluginConfig) -> Seq<char>;

    /// Whether `url` is a link of this plugin's site.
    spec fn owns(&self, url: UrlParts) -> bool;

    /// The request that answers `url`, or why there is none.
    spec fn plan(&self, rtd: Rtd, url: UrlParts) -> Result<ApiRequestView, PluginError>;

    /// The title in the provider's answer `body`, or why there is none.
    spec fn answer(&self, body: Seq<char>) -> Result<Seq<char>, PluginError>;

    /// The name of the plugin.
    fn name(&self) -> (r: &'static str)
        ensures
            r@ == self.label(),
    ;

    /// Whether the plugin takes `url`: it has a credential, and the link is
    /// of its site. Without a credential it takes no link at all.
    fn check(&self, config: &PluginConfig, url: &Url) -> (r: bool)
        ensures
            r == (self.key(*config).len() > 0 && self.owns(url@)),
    ;

    /// The request to the provider that answers `url`.
    fn evaluate(&self, rtd: &Rtd, url: &Url) -> (r: Result<ApiRequest, PluginError>)
        ensures
            request_view(r) == self.plan(*rtd, url@),
    ;

    /// The title in the provider's answer.
    fn title(&self, body: &str) -> (r: Result<String, PluginError>)
        ensures
            title_view(r) == self.answer(body@),
    ;
}

/// One of the plugins.
#[derive(Clone, Copy, Debug, PartialEq, Eq, Structural)]
pub enum Plugin {
    Imgur,
    YouTube,
    Vimeo,
}

impl TitlePlugin for Plugin {
    open spec fn label(&self) -> Seq<char> {
        match self {
            Plugin::Imgur => (imgur::ImgurPlugin {  }).label(),
            Plugin::YouTube => (youtube::YouTubePlugin {  }).label(),
            Plugin::Vimeo => (vimeo::VimeoPlugin {  }).label(),
        }
    }

    open spec fn key(&self, config: PluginConfig) -> Seq<char> {
        match self {
            Plugin::Imgur => (imgur::ImgurPlugin {  }).key(config),
            Plugin::YouTube => (youtube::YouTubePlugin {  }).key(config),
            Plugin::Vimeo => (vimeo::VimeoPlugin {  }).key(config),
        }
    }

    open spec fn owns(&self, url: UrlParts) -> bool {
        match self {
            Plugin::Imgur => (imgur::ImgurPlugin {  }).owns(url),
            Plugin::YouTube => (youtube::YouTubePlugin {  }).owns(url),
            Plugin::Vimeo => (vimeo::VimeoPlugin {  }).owns(url),
        }
    }

    open spec fn plan(&self, rtd: Rtd, url: UrlParts) -> Result<ApiRequestView, PluginError> {
        match self {
            Plugin::Imgur => (imgur::ImgurPlugin {  }).plan(rtd, url),
            Plugin::YouTube => (youtube::YouTubePlugin {  }).plan(rtd, url),
            Plugin::Vimeo => (vimeo::VimeoPlugin {  }).plan(rtd, url),
        }
    }

    open spec fn answer(&self, body: Seq<char>) -> Result<Seq<char>, PluginError> {
        match self {
            Plugin::Imgur => (imgur::ImgurPlugin {  }).answer(body),
            Plugin::YouTube => (youtube::YouTubePlugin {  }).answer(body),
            Plugin::Vimeo => (vimeo::VimeoPlugin {  }).answer(body),
        }
    }

    fn name(&self) -> (r: &'static str) {
        match self {
            Plugin::Imgur => (imgur::ImgurPlugin {  }).name(),
            Plugin::YouTube => (youtube::YouTubePlugin {  }).name(),
            Plugin::Vimeo => (vimeo::VimeoPlugin {  }).name(),
        }
    }

    fn check(&self, config: &PluginConfig, url: &Url) -> (r: bool) {
        match self {
            Plugin::Imgur => (imgur::ImgurPlugin {  }).check(config, url),
            Plugin::YouTube => (youtube::YouTubePlugin {  }).check(config, url),
            Plugin::Vimeo => (vimeo::VimeoPlugin {  }).check(config, url),
        }
    }

    fn evaluate(&self, rtd: &Rtd, url: &Url) -> (r: Result<ApiRequest, PluginError>) {
        match self {
            Plugin::Imgur => (imgur::ImgurPlugin {  }).evaluate(rtd, url),
            Plugin::YouTube => (youtube::YouTubePlugin {  }).evaluate(rtd, url),
            Plugin::Vimeo => (vimeo::VimeoPlugin {  }).evaluate(rtd, url),
        }
    }

    fn title(&self, body: &str) -> (r: Result<String, PluginError>) {
        match self {
            Plugin::Imgur => (imgur::ImgurPlugin {  }).title(body),
            Plugin::YouTube => (youtube::YouTubePlugin {  }).title(body),
            Plugin::Vimeo => (vimeo::VimeoPlugin {  }).title(body),
        }
    }
}

/// The plugins in the order in which they are asked.
pub open spec fn registered() -> Seq<Plugin> {
    seq![Plugin::Imgur, Plugin::YouTube, Plugin::Vimeo]
}

/// The plugins in the order in which they are asked.
pub fn title_plugins() -> (r: Vec<Plugin>)
    ensures
        r@ == registered(),
{
    let mut v: Vec<Plugin> = Vec::new();
    v.push(Plugin::Imgur);
    v.push(Plugin::YouTube);
    v.push(Plugin::Vimeo);
    assert(v@ =~= registered());
    v
}

/// Whether `plugin` takes `url` under `config`.
pub open spec fn takes(plugin: Plugin, config: PluginConfig, url: UrlParts) -> bool {
    plugin.key(config).len() > 0 && plugin.owns(url)
}

/// The plugins that take `url`, in the order in which they are asked.
pub open spec fn claimants(config: PluginConfig, url: UrlParts) -> Seq<Plugin> {
    registered().filter(|p: Plugin| takes(p, config, url))
}

/// The plugins that take `url`, in the order in which they are asked.
pub fn matching_plugins(config: &PluginConfig, url: &Url) -> (r: Vec<Plugin>)
    ensures
        r@ == claimants(*config, url@),
{
    let all = title_plugins();
    let mut out: Vec<Plugin> = Vec::new();
    let ghost keep = |p: Plugin| takes(p, *config, url@);
    let mut i: usize = 0;
    assert(all@.take(0).filter(keep) =~= Seq::<Plugin>::empty()) by {
        reveal(Seq::filter);
    }
    while i < all.len()
        invariant
            i <= all.len(),
            all@ == registered(),
            keep == |p: Plugin| takes(p, *config, url@),
            out@ == all@.take(i as int).filter(keep),
        decreases all.len() - i,
    {
        proof {
            let now = all@.take(i + 1);
            assert(now.drop_last() =~= all@.take(i as int));
            reveal(Seq::filter);
        }
        if all[i].check(config, url) {
            out.push(all[i]);
        }
        i += 1;
    }
    assert(all@.take(all.len() as int) =~= all@);
    out
}

/// A plugin without a credential takes no link: whatever the link, it is
/// not among the claimants.
pub proof fn lemma_no_key_no_claim(config: PluginConfig, url: UrlParts, plugin: Plugin)
    requires
        plugin.key(config).len() == 0,
    ensures
        !takes(plugin, config, url),
        !claimants(config, url).contains(plugin),
{
    let keep = |p: Plugin| takes(p, config, url);
    if claimants(config, url).contains(plugin) {
        registered().lemma_filter_contains_rev(keep, plugin);
    }
}

/// Which way a link is resolved next.
#[derive(Clone, Copy, Debug, PartialEq, Eq, Structural)]
pub enum Route {
    /// Through this plugin.
    Through(Plugin),
    /// By retrieving the link itself.
    Generic,
    /// No way is left: every plugin that took the link failed, the last
    /// with this error.
    Failed(PluginError),
}

/// The way a link is resolved next. A link that no plugin takes is
/// retrieved itself. One that plugins take goes to them in order, each
/// after the one before has failed, and to nothing else: `tried` of them
/// have failed so far, the last with `last_error`.
pub open spec fn route(
    config: PluginConfig,
    url: UrlParts,
    tried: nat,
    last_error: Option<PluginError>,
) -> Route {
    let takers = claimants(config, url);
    if takers.len() == 0 {
        Route::Generic
    } else if tried < takers.len() {
        Route::Through(takers[tried as int])
    } else {
        match last_error {
            Some(e) => Route::Failed(e),
            None => Route::Failed(PluginError::BadResponse),
        }
    }
}

/// The way a link is resolved next, after `tried` of the plugins that take
/// it have failed, the last with `last_error`. The first plugin that
/// succeeds ends the matter; the caller asks no further.
pub fn next_route(
    config: &PluginConfig,
    url: &Url,
    tried: usize,
    last_error: Option<PluginError>,
) -> (r: Route)
    ensures
        r == route(*config, url@, tried as nat, last_error),
{
    let takers = matching_plugins(config, url);
    if takers.len() == 0 {
        Route::Generic
    } else if tried < takers.len() {
        Route::Through(takers[tried])
    } else {
        match last_error {
            Some(e) => Route::Failed(e),
            None => Route::Failed(PluginError::BadResponse),
        }
    }
}

} // verus!
