//! Titles of Vimeo videos, from the Vimeo API.

use crate::config::{texts, Rtd};
use crate::http::{is_header_value, valid_header_value};
use crate::plugins::{
    after_first, domain_is, has_domain, json_text, json_text_at, skip_first, ApiRequest,
    ApiRequestView, PluginConfig, PluginError, TitlePlugin,
};
use crate::url::{url_with_segments, with_segments, Url, UrlParts};
use vstd::prelude::*;

verus! {

/// The address of the Vimeo API.
pub const REQUEST_URL: &'static str = "https://api.vimeo.com/";

/// The Vimeo credential: a bearer token.
#[derive(Clone, Debug)]
pub struct Config {
    pub api_key: String,
}

impl Default for Config {
    fn default() -> (r: Self)
        ensures
            r.api_key@.len() == 0,
    {
        Config { api_key: String::new() }
    }
}

/// The Vimeo title plugin.
#[derive(Clone, Copy, Debug)]
pub struct VimeoPlugin {}

impl TitlePlugin for VimeoPlugin {
    open spec fn label(&self) -> Seq<char> {
        "vimeo"@
    }

    open spec fn key(&self, config: PluginConfig) -> Seq<char> {
        config.vimeo.api_key@
    }

    /// Anything on `vimeo.com` or `www.vimeo.com`.
    open spec fn owns(&self, url: UrlParts) -> bool {
        domain_is(url.domain, "vimeo.com"@) || domain_is(url.domain, "www.vimeo.com"@)
    }

    /// The API's address with the segments `videos` and the link's path,
    /// and the token in the `authorization` header.
    open spec fn plan(&self, rtd: Rtd, url: UrlParts) -> Result<ApiRequestView, PluginError> {
        let header = "bearer "@ + rtd.conf.plugins.vimeo.api_key@;
        match url_with_segments(REQUEST_URL@, seq!["videos"@, after_first(url.path)]) {
            None => Err(PluginError::BadRequestUrl),
            Some(address) => if rtd.client.is_none() {
                Err(PluginError::NoClient)
            } else if !is_header_value(header) {
                Err(PluginError::BadHeader)
            } else {
                Ok(ApiRequestView { url: address, headers: seq![("authorization"@, header)] })
            },
        }
    }

    /// The string at `name`.
    open spec fn answer(&self, body: Seq<char>) -> Result<Seq<char>, PluginError> {
        match json_text_at(body, "/name"@) {
            Some(t) => Ok(t),
            None => Err(PluginError::BadResponse),
        }
    }

    fn name(&self) -> (r: &'static str) {
        "vimeo"
    }

    fn check(&self, config: &PluginConfig, url: &Url) -> (r: bool) {
        if config.vimeo.api_key.as_str().is_empty() {
            false
        } else {
            has_domain(url, "vimeo.com") || has_domain(url, "www.vimeo.com")
        }
    }

    fn evaluate(&self, rtd: &Rtd, url: &Url) -> (r: Result<ApiRequest, PluginError>) {
        let video_id = skip_first(url.path());
        let mut segments: Vec<String> = Vec::new();
        segments.push("videos".to_owned());
        segments.push(video_id);
        assert(texts(segments@) =~= seq!["videos"@, after_first(url@.path)]);
        let address = match with_segments(REQUEST_URL, &segments) {
            Some(a) => a,
            None => {
                return Err(PluginError::BadRequestUrl);
            },
        };
        if rtd.client.is_none() {
            return Err(PluginError::NoClient);
        }
        let mut header = "bearer ".to_owned();
        header.append(rtd.conf.plugins.vimeo.api_key.as_str());
        if !valid_header_value(header.as_str()) {
            return Err(PluginError::BadHeader);
        }
        let mut headers: Vec<(String, String)> = Vec::new();
        headers.push(("authorization".to_owned(), header));
        let request = ApiRequest { url: address, headers };
        assert(request@.headers =~= seq![
            ("authorization"@, "bearer "@ + rtd.conf.plugins.vimeo.api_key@),
        ]);
        Ok(request)
    }

    fn title(&self, body: &str) -> (r: Result<String, PluginError>) {
        match json_text(body, "/name") {
            Some(t) => Ok(t),
            None => Err(PluginError::BadResponse),
        }
    }
}

} // verus!
