use url_bot_rs::config::{
    contains_text, first_index_of, Conf, ConfSet, Database, DbPath, DbType, Features, Http,
    Network, Parameters, Paths, Reconnect, Rtd,
};
use url_bot_rs::http::HttpError;

fn check_channels(rtd: &Rtd, contains: &str, len: usize) {
    let c = rtd.conf.client.channels.clone().unwrap();
    println!("{:?}", c);

    assert!(c.contains(&contains.to_string()));
    assert_eq!(len, c.len());
}

#[test]
fn conf_add_remove_channel() {
    let mut rtd = Rtd::default();
    check_channels(&rtd, "#url-bot-rs", 1);

    rtd.conf.add_channel("#cheese".to_string());
    check_channels(&rtd, "#cheese", 2);

    rtd.conf.add_channel("#cheese-2".to_string());
    check_channels(&rtd, "#cheese-2", 3);

    rtd.conf.remove_channel(&"#cheese-2".to_string());
    let c = rtd.conf.client.channels.clone().unwrap();

    assert!(!c.contains(&"#cheese-2".to_string()));
    assert_eq!(2, c.len());
}

#[test]
fn add_channel_twice_adds_once() {
    let mut conf = Conf::default();
    conf.add_channel("#cheese".to_string());
    conf.add_channel("#cheese".to_string());
    assert_eq!(
        conf.client.channels,
        Some(vec!["#url-bot-rs".to_string(), "#cheese".to_string()])
    );
}

#[test]
fn remove_channel_takes_the_first_only() {
    let mut conf = Conf::default();
    conf.client.channels = Some(vec![
        "#a".to_string(),
        "#b".to_string(),
        "#a".to_string(),
    ]);
    conf.remove_channel("#a");
    assert_eq!(conf.client.channels, Some(vec!["#b".to_string(), "#a".to_string()]));
    conf.remove_channel("#none");
    assert_eq!(conf.client.channels, Some(vec!["#b".to_string(), "#a".to_string()]));
}

#[test]
fn channels_that_are_not_set_stay_unset() {
    let mut conf = Conf::default();
    conf.client.channels = None;
    conf.add_channel("#cheese".to_string());
    assert_eq!(conf.client.channels, None);
    conf.remove_channel("#cheese");
    assert_eq!(conf.client.channels, None);
}

#[test]
fn test_macros() {
    let mut rtd = Rtd::default();
    assert_eq!(10, rtd.conf.params.url_limit);
    assert_eq!(10, rtd.conf.http_params.max_redirections);
    assert!(!rtd.conf.features.reconnect);

    rtd.conf.params.url_limit = 100;
    assert_eq!(100, rtd.conf.params.url_limit);

    rtd.conf.http_params.max_redirections = 100;
    assert_eq!(100, rtd.conf.http_params.max_redirections);

    rtd.conf.features.reconnect = true;
    assert!(rtd.conf.features.reconnect);
}

#[test]
fn defaults_are_as_documented() {
    let network = Network::default();
    assert_eq!(network.name, "default");
    assert!(network.enable);

    let features = Features::default();
    assert!(!features.report_metadata && !features.report_mime && !features.history);
    assert!(!features.mask_highlights && !features.send_notice && !features.invite);
    assert!(!features.cross_channel_history && !features.autosave && !features.reconnect);
    assert!(!features.send_errors_to_poster && !features.reply_with_errors);
    assert!(!features.partial_urls && !features.nick_response);

    assert_eq!(DbType::default(), DbType::InMemory);
    let database = Database::default();
    assert_eq!(database.db_type, DbType::InMemory);
    assert_eq!(database.path, None);

    let params = Parameters::default();
    assert_eq!(params.url_limit, 10);
    assert!(params.status_channels.is_empty());
    assert_eq!(params.nick_response_str, "");
    assert_eq!(params.reconnect_timeout, 10);

    let http = Http::default();
    assert_eq!(http.timeout_s, 10);
    assert_eq!(http.max_redirections, 10);
    assert_eq!(http.max_retries, 3);
    assert_eq!(http.retry_delay_s, 5);
    assert_eq!(http.accept_lang, "en");
    assert_eq!(http.user_agent, None);

    assert_eq!(Paths::default().db, None);

    let conf = Conf::default();
    assert_eq!(conf.client.nickname, Some("url-bot-rs".to_string()));
    assert_eq!(conf.client.alt_nicks, Some(vec!["url-bot-rs_".to_string()]));
    assert_eq!(conf.client.server, Some("127.0.0.1".to_string()));
    assert_eq!(conf.client.port, Some(6667));
    assert_eq!(conf.client.use_ssl, Some(false));
    assert_eq!(conf.client.channels, Some(vec!["#url-bot-rs".to_string()]));
    assert_eq!(conf.client.user_info, Some("Feed me URLs.".to_string()));
    assert_eq!(conf.path, None);

    assert!(ConfSet::new().configs.is_empty());
}

#[test]
fn rtd_without_a_client_has_none() {
    let rtd = Rtd::new();
    assert!(matches!(rtd.get_client(), Err(HttpError::NoClient)));
    let rtd = rtd.init_http_client().unwrap();
    assert!(rtd.get_client().is_ok());
}

#[test]
fn rtd_refuses_a_language_that_is_no_header() {
    let mut rtd = Rtd::new();
    rtd.conf.http_params.accept_lang = String::from("en\r\nx: y");
    assert!(matches!(rtd.init_http_client(), Err(HttpError::InvalidHeader)));

    let mut rtd = Rtd::new();
    rtd.conf.http_params.user_agent = Some(String::from("agent\u{7f}"));
    assert!(matches!(rtd.init_http_client(), Err(HttpError::InvalidHeader)));

    let mut rtd = Rtd::new();
    rtd.conf.http_params.user_agent = Some(String::from("tab\tis fine, so is \u{e9}"));
    assert!(rtd.init_http_client().is_ok());
}

#[test]
fn rtd_conf_and_db_set_what_they_say() {
    let mut conf = Conf::default();
    conf.network.name = String::from("test_net");
    let rtd = Rtd::new().conf(conf).db(Some("/tmp/test.db"));
    assert_eq!(rtd.conf.network.name, "test_net");
    assert_eq!(rtd.paths.db, Some(String::from("/tmp/test.db")));
    let rtd = rtd.db(None);
    assert_eq!(rtd.paths.db, None);
}

fn db_path(rtd: &Rtd) -> String {
    match rtd.get_db_path() {
        DbPath::Memory => String::from("memory"),
        DbPath::File(p) => format!("file {}", p),
        DbPath::DefaultDir(n) => format!("default {}", n),
    }
}

#[test]
fn sqlite_path_explicit() {
    let mut cfg = Conf::default();
    cfg.features.history = true;
    cfg.database.db_type = DbType::Sqlite;
    let rtd = Rtd::new().conf(cfg).db(Some("/tmp/x/test.db"));
    assert_eq!(db_path(&rtd), "file /tmp/x/test.db");
}

#[test]
fn sqlite_path_config_overrides_explicit() {
    let mut cfg = Conf::default();
    cfg.features.history = true;
    cfg.database.db_type = DbType::Sqlite;
    cfg.database.path = Some(String::from("/tmp/x/cfg.test.db"));
    let rtd = Rtd::new().conf(cfg).db(Some("/tmp/x/test.db"));
    assert_eq!(db_path(&rtd), "file /tmp/x/cfg.test.db");
}

#[test]
fn sqlite_path_empty_config_path_does_not_override_explicit() {
    let mut cfg = Conf::default();
    cfg.features.history = true;
    cfg.database.db_type = DbType::Sqlite;
    cfg.database.path = Some(String::new());
    let rtd = Rtd::new().conf(cfg).db(Some("/tmp/x/cfg.test.db"));
    assert_eq!(db_path(&rtd), "file /tmp/x/cfg.test.db");
}

#[test]
fn sqlite_path_default() {
    let mut cfg = Conf::default();
    cfg.features.history = true;
    cfg.database.db_type = DbType::Sqlite;
    let rtd = Rtd::new().conf(cfg.clone());
    assert_eq!(db_path(&rtd), "default history.default.db");

    cfg.network.name = "test_net".to_string();
    let rtd = Rtd::new().conf(cfg.clone());
    assert_eq!(db_path(&rtd), "default history.test_net.db");

    cfg.database.path = Some("".to_string());
    let rtd = Rtd::new().conf(cfg);
    assert_eq!(db_path(&rtd), "default history.test_net.db");
}

#[test]
fn sqlite_path_config_overrides_default() {
    let mut cfg = Conf::default();
    cfg.features.history = true;
    cfg.database.db_type = DbType::Sqlite;
    cfg.database.path = Some(String::from("/tmp/x/cfg.test.db"));
    let rtd = Rtd::new().conf(cfg);
    assert_eq!(db_path(&rtd), "file /tmp/x/cfg.test.db");
}

#[test]
fn no_history_file_without_history() {
    let mut cfg = Conf::default();
    cfg.database.db_type = DbType::Sqlite;
    cfg.database.path = Some(String::from("/tmp/x/cfg.test.db"));
    let rtd = Rtd::new().conf(cfg.clone());
    assert_eq!(db_path(&rtd), "memory");
    cfg.features.history = true;
    cfg.database.db_type = DbType::InMemory;
    let rtd = Rtd::new().conf(cfg);
    assert_eq!(db_path(&rtd), "memory");
}

#[test]
fn reconnect_only_where_asked_for() {
    let mut rtd = Rtd::new();
    assert_eq!(rtd.after_disconnect(), Reconnect::Stop);
    rtd.conf.features.reconnect = true;
    rtd.conf.params.reconnect_timeout = 42;
    assert_eq!(rtd.after_disconnect(), Reconnect::After(42));
}

#[test]
fn a_switched_off_network_read_from_a_file_is_ignored() {
    let mut conf = Conf::default();
    assert!(!conf.is_ignored());
    conf.network.enable = false;
    assert!(!conf.is_ignored());
    conf.path = Some(String::from("/etc/bot.toml"));
    assert!(conf.is_ignored());
    conf.network.enable = true;
    assert!(!conf.is_ignored());
}

#[test]
fn strings_are_found_in_lists() {
    let list = vec!["a".to_string(), "b".to_string(), "a".to_string()];
    assert!(contains_text(&list, "b"));
    assert!(!contains_text(&list, "c"));
    assert_eq!(first_index_of(&list, "a"), Some(0));
    assert_eq!(first_index_of(&list, "b"), Some(1));
    assert_eq!(first_index_of(&list, "c"), None);
}
