use url_bot_rs::plugins::{matching_plugins, next_route, title_plugins, Plugin, PluginConfig, PluginError, Route, TitlePlugin};
use url_bot_rs::tld::is_tld;
use url_bot_rs::url::{join, with_query, with_segments, Url};

#[test]
fn a_url_is_parsed_into_its_parts() {
    let url = Url::parse("HTTP://User@Example.COM:80/a/../b%20c?x=1&y=a%26b&x=2#frag").unwrap();
    assert_eq!(url.as_str(), "http://User@example.com/b%20c?x=1&y=a%26b&x=2#frag");
    assert_eq!(url.scheme(), "http");
    assert_eq!(url.username(), "User");
    assert_eq!(url.domain(), Some("example.com"));
    assert_eq!(url.path(), "/b%20c");
    assert_eq!(
        url.query_pairs(),
        &vec![
            ("x".to_string(), "1".to_string()),
            ("y".to_string(), "a&b".to_string()),
            ("x".to_string(), "2".to_string()),
        ]
    );
}

#[test]
fn an_address_in_numbers_is_no_domain() {
    let url = Url::parse("https://127.0.0.1:8084/").unwrap();
    assert_eq!(url.domain(), None);
    assert_eq!(url.username(), "");
    assert!(url.query_pairs().is_empty());
}

#[test]
fn what_is_no_url_is_not_parsed() {
    assert!(Url::parse("").is_none());
    assert!(Url::parse("docs.rs").is_none());
    assert!(Url::parse("/just/a/path").is_none());
    assert!(Url::parse("http://").is_none());
}

#[test]
fn references_are_read_against_their_base() {
    let base = "https://example.net/a/b.html";
    assert_eq!(join(base, "c.png"), Some("https://example.net/a/c.png".to_string()));
    assert_eq!(join(base, "/v1/meta"), Some("https://example.net/v1/meta".to_string()));
    assert_eq!(join(base, "//eve.com/b"), Some("https://eve.com/b".to_string()));
    assert_eq!(join(base, "http://eve.com/b"), Some("http://eve.com/b".to_string()));
    assert_eq!(join(base, ""), Some("https://example.net/a/b.html".to_string()));
    assert_eq!(join("not a base", "c.png"), None);
    assert_eq!(join(base, "http://[broken"), None);
}

#[test]
fn pairs_and_segments_are_added_encoded() {
    let pairs = vec![("id".to_string(), "a b".to_string()), ("key".to_string(), "k/&".to_string())];
    assert_eq!(
        with_query("https://api.example/v?part=x", &pairs),
        Some("https://api.example/v?part=x&id=a+b&key=k%2F%26".to_string())
    );
    assert_eq!(with_query("nonsense", &pairs), None);
    let segments = vec!["videos".to_string(), "12/3 4".to_string()];
    assert_eq!(
        with_segments("https://api.example/", &segments),
        Some("https://api.example/videos/12%2F3%204".to_string())
    );
    assert_eq!(with_segments("mailto:a@b.example", &segments), None);
    assert_eq!(with_segments("nonsense", &segments), None);
}

#[test]
fn top_level_domains_are_known() {
    for tld in ["com", "net", "org", "uk", "rs", "xyz", "horse", "zip", "de", "io"] {
        assert!(is_tld(tld), "{}", tld);
    }
    for tld in ["cheese", "limes", "", "co", "COM", "com ", "co.uk", "c"] {
        assert_eq!(is_tld(tld), tld == "co", "{}", tld);
    }
}

#[test]
fn plugins_are_asked_in_order() {
    let names: Vec<&str> = title_plugins().iter().map(|p| p.name()).collect();
    assert_eq!(names, vec!["imgur", "youtube", "vimeo"]);
}

#[test]
fn a_plugin_without_a_key_takes_no_link() {
    let mut config = PluginConfig::default();
    let links = [
        "https://imgur.com/gallery/foo",
        "https://www.youtube.com/watch?v=abc123def78",
        "https://youtu.be/abc123def78",
        "https://vimeo.com/53603603",
        "https://example.com/",
    ];
    for link in links {
        let url = Url::parse(link).unwrap();
        assert!(matching_plugins(&config, &url).is_empty());
        assert_eq!(next_route(&config, &url, 0, None), Route::Generic);
        for plugin in title_plugins() {
            assert!(!plugin.check(&config, &url));
        }
    }

    config.youtube.api_key = "key".to_string();
    let url = Url::parse("https://youtu.be/abc123def78").unwrap();
    assert_eq!(matching_plugins(&config, &url), vec![Plugin::YouTube]);
    assert!(matching_plugins(&config, &Url::parse(links[0]).unwrap()).is_empty());
    assert!(matching_plugins(&config, &Url::parse(links[3]).unwrap()).is_empty());

    config.imgur.api_key = "key".to_string();
    config.vimeo.api_key = "key".to_string();
    assert_eq!(matching_plugins(&config, &Url::parse(links[0]).unwrap()), vec![Plugin::Imgur]);
    assert_eq!(matching_plugins(&config, &Url::parse(links[3]).unwrap()), vec![Plugin::Vimeo]);
    assert!(matching_plugins(&config, &Url::parse(links[4]).unwrap()).is_empty());
}

#[test]
fn a_link_that_a_plugin_takes_goes_to_nothing_else() {
    let mut config = PluginConfig::default();
    config.vimeo.api_key = "key".to_string();
    let url = Url::parse("https://vimeo.com/53603603").unwrap();
    assert_eq!(next_route(&config, &url, 0, None), Route::Through(Plugin::Vimeo));
    assert_eq!(
        next_route(&config, &url, 1, Some(PluginError::BadResponse)),
        Route::Failed(PluginError::BadResponse)
    );
    assert_eq!(
        next_route(&config, &url, 1, Some(PluginError::NoClient)),
        Route::Failed(PluginError::NoClient)
    );
    let other = Url::parse("https://example.com/").unwrap();
    assert_eq!(next_route(&config, &other, 3, Some(PluginError::NoClient)), Route::Generic);
}
