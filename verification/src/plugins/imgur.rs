//! Titles of Imgur galleries, from the Imgur API.

use crate::config::Rtd;
use crate::http::{is_header_value, valid_header_value};
use crate::plugins::{
    after_first, domain_is, has_domain, json_text, json_text_at, skip_first, ApiRequest,
    ApiRequestView, PluginConfig, PluginError, TitlePlugin,
};
use crate::text::{has_prefix, starts_with, to_chars};
use crate::url::{join, joined_url, Url, UrlParts};
use vstd::prelude::*;

verus! {

/// The address of the Imgur API.
pub const REQUEST_URL: &'static str = "https://api.imgur.com/3/";

/// The Imgur credential: a client id.
#[derive(Clone, Debug)]
pub struct Config {
    pub api_key: String,
}

impl Default for Config {
    fn default() -> (r: Self)
        ensures
            r.api_key@.len() == 0,
    {
        Config { api_key: String::new() }
    }
}

/// The Imgur title plugin.
#[derive(Clone, Copy, Debug)]
pub struct ImgurPlugin {}

impl TitlePlugin for ImgurPlugin {
    open spec fn label(&self) -> Seq<char> {
        "imgur"@
    }

    open spec fn key(&self, config: PluginConfig) -> Seq<char> {
        config.imgur.api_key@
    }

    /// A gallery on `imgur.com`.
    open spec fn owns(&self, url: UrlParts) -> bool {
        domain_is(url.domain, "imgur.com"@) && has_prefix(url.path, "/gallery/"@)
    }

    /// The gallery's path, read against the address of the API, with the
    /// client id in the `authorization` header.
    open spec fn plan(&self, rtd: Rtd, url: UrlParts) -> Result<ApiRequestView, PluginError> {
        let header = "Client-ID "@ + rtd.conf.plugins.imgur.api_key@;
        match joined_url(REQUEST_URL@, after_first(url.path)) {
            None => Err(PluginError::BadRequestUrl),
            Some(address) => if !is_header_value(header) {
                Err(PluginError::BadHeader)
            } else if rtd.client.is_none() {
                Err(PluginError::NoClient)
            } else {
                Ok(ApiRequestView { url: address, headers: seq![("authorization"@, header)] })
            },
        }
    }

    /// The string at `data.title`.
    open spec fn answer(&self, body: Seq<char>) -> Result<Seq<char>, PluginError> {
        match json_text_at(body, "/data/title"@) {
            Some(t) => Ok(t),
            None => Err(PluginError::BadResponse),
        }
    }

    fn name(&self) -> (r: &'static str) {
        "imgur"
    }

    fn check(&self, config: &PluginConfig, url: &Url) -> (r: bool) {
        if config.imgur.api_key.as_str().is_empty() {
            false
        } else {
            has_domain(url, "imgur.com") && starts_with(
                &to_chars(url.path()),
                &to_chars("/gallery/"),
            )
        }
    }

    fn evaluate(&self, rtd: &Rtd, url: &Url) -> (r: Result<ApiRequest, PluginError>) {
        let rest = skip_first(url.path());
        let address = match join(REQUEST_URL, rest.as_str()) {
            Some(a) => a,
            None => {
                return Err(PluginError::BadRequestUrl);
            },
        };
        let mut header = "Client-ID ".to_owned();
        header.append(rtd.conf.plugins.imgur.api_key.as_str());
        if !valid_header_value(header.as_str()) {
            return Err(PluginError::BadHeader);
        }
        if rtd.client.is_none() {
            return Err(PluginError::NoClient);
        }
        let mut headers: Vec<(String, String)> = Vec::new();
        headers.push(("authorization".to_owned(), header));
        let request = ApiRequest { url: address, headers };
        assert(request@.headers =~= seq![
            ("authorization"@, "Client-ID "@ + rtd.conf.plugins.imgur.api_key@),
        ]);
        Ok(request)
    }

    fn title(&self, body: &str) -> (r: Result<String, PluginError>) {
        match json_text(body, "/data/title") {
            Some(t) => Ok(t),
            None => Err(PluginError::BadResponse),
        }
    }
}

} // verus!
