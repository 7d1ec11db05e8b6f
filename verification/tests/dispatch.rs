use url_bot_rs::config::Rtd;
use url_bot_rs::history::{timestamp, Database};
use url_bot_rs::http::{get_title, HttpError};
use url_bot_rs::message::{
    candidate_links, find_link, handle_message, ignore_message, invite, joined, kick,
    msg_status_chans, privmsg, respond, respond_error, Action, Handling, InboundEvent, Msg,
    TitleResp, TitleScan,
};
use url_bot_rs::message::TitleResp::{ERROR, TITLE};

/// What the server on 127.0.0.1:8084 would send for `url`.
fn served(url: &str) -> &'static str {
    if url.ends_with("/empty") {
        ""
    } else if url.ends_with("/blank") {
        "<title></title>"
    } else {
        "<title>|t|</title>"
    }
}

fn resolve(rtd: &Rtd, url: &str) -> Result<String, String> {
    get_title(rtd, None, None, served(url).as_bytes()).map_err(|e: HttpError| e.message(url))
}

fn process_titles(rtd: &Rtd, db: &mut Database, msg: &Msg, secs: i64) -> Vec<TitleResp> {
    let now = timestamp(secs).unwrap();
    let mut scan = TitleScan::new(rtd, msg);
    loop {
        let url = match scan.pending() {
            Some(link) => link.token.clone(),
            None => break,
        };
        let outcome = resolve(rtd, &url);
        scan = scan.resolved(rtd, db, msg, &now, outcome);
    }
    scan.responses().clone()
}

fn pt(m: &str) -> Vec<TitleResp> {
    let rtd = Rtd::default();
    let msg = Msg::new(&rtd, "testnick", "#testchannel", m);
    let mut db = Database::open_in_memory().unwrap();
    let ret = process_titles(&rtd, &mut db, &msg, 1594717507);
    println!("message: \"{}\"", m);
    println!("{:?}", ret);
    ret
}

fn pt_n(n: usize) -> Vec<TitleResp> {
    let mut c = 0;
    let m = std::iter::repeat("http://127.0.0.1:8084/")
        .take(n)
        .map(|t| {
            c += 1;
            format!("{}{}", t, c)
        })
        .collect::<Vec<String>>()
        .join(" ");
    pt(&m)
}

#[test]
fn test_process_titles_count() {
    assert_eq!(0, pt("").len());
    assert_eq!(1, pt("http://127.0.0.1:8084/").len());
    assert_eq!(2, pt("http://127.0.0.1:8084/1 http://127.0.0.1:8084/2").len());
    assert_eq!(4, pt_n(4).len());
    assert_eq!(8, pt_n(8).len());
}

#[test]
fn test_process_titles_deduplicate() {
    assert_eq!(1, pt("http://127.0.0.1:8084 http://127.0.0.1:8084").len());
    let m = std::iter::repeat("http://127.0.0.1:8084/")
        .take(10)
        .collect::<Vec<&str>>()
        .join(" ");
    assert_eq!(1, pt(&m).len());
}

#[test]
fn deduplicate_by_address_not_by_spelling() {
    assert_eq!(1, pt("http://127.0.0.1:8084 HTTP://127.0.0.1:8084/").len());
    assert_eq!(1, pt("http://example.com/a/../b http://example.com/b").len());
    assert_eq!(2, pt("http://example.com/b http://example.com/B").len());
    // a link that fails is answered once as well
    assert_eq!(1, pt("http://127.0.0.1:8084/empty http://127.0.0.1:8084/empty").len());
}

#[test]
fn test_process_titles_limit() {
    // default limit is 10
    assert_eq!(10, pt_n(10).len());
    assert_eq!(10, pt_n(11).len());
    assert_eq!(10, pt_n(16).len());
    assert_eq!(10, pt_n(32).len());
}

#[test]
fn the_limit_counts_titles_and_zero_is_no_limit() {
    let mut rtd = Rtd::default();
    rtd.conf.params.url_limit = 2;
    let mut db = Database::open_in_memory().unwrap();
    let text = "http://a.example/empty http://b.example/ http://c.example/blank \
                http://d.example/ http://e.example/";
    let msg = Msg::new(&rtd, "testnick", "#testchannel", text);
    let ret = process_titles(&rtd, &mut db, &msg, 0);
    assert_eq!(
        ret,
        vec![
            ERROR("http://a.example/empty: failed to parse title".to_string()),
            TITLE("\u{2937} |t|".to_string()),
            ERROR("http://c.example/blank: failed to parse title".to_string()),
            TITLE("\u{2937} |t|".to_string()),
        ]
    );

    rtd.conf.params.url_limit = 0;
    let ret = process_titles(&rtd, &mut db, &msg, 0);
    assert_eq!(ret.len(), 5);
}

#[test]
fn test_process_titles_value() {
    pt("http://127.0.0.1:8084/")
        .iter()
        .for_each(|v| assert_eq!(&TITLE("⤷ |t|".to_string()), v));
    assert_eq!(pt("http://127.0.0.1:8084/"), vec![TITLE("⤷ |t|".to_string())]);
}

#[test]
fn answers_come_in_the_order_of_the_links() {
    assert_eq!(
        pt("see http://127.0.0.1:8084/blank and http://127.0.0.1:8084/ too"),
        vec![
            ERROR("http://127.0.0.1:8084/blank: failed to parse title".to_string()),
            TITLE("⤷ |t|".to_string()),
        ]
    );
}

#[test]
fn test_process_titles_repost() {
    let mut rtd = Rtd::default();
    rtd.conf.features.history = true;

    let msg = Msg::new(&rtd, "testnick", "#test", "http://127.0.0.1:8084/");
    let mut db = Database::open_in_memory().unwrap();

    let d = r#"( [[:alpha:]]{3}){2} [\s\d]{2} \d{2}:\d{2}:\d{2} \d{4}"#;
    let date = regex::Regex::new(&d).unwrap();

    process_titles(&rtd, &mut db, &msg, 1594717507)
        .into_iter()
        .for_each(|v| assert_eq!(TITLE("⤷ |t|".to_string()), v));

    let second = process_titles(&rtd, &mut db, &msg, 1594800000);
    assert_eq!(second.len(), 1);
    second.into_iter().for_each(|v| {
        println!("{:?}", v);
        if let TITLE(s) = v {
            assert!(s.starts_with("⤷ |t| → "));
            assert!(date.is_match(&s));
            assert!(s.ends_with(" testnick (#test)"));
            assert_eq!(s, "⤷ |t| → Tue Jul 14 09:05:07 2020 testnick (#test)");
        } else {
            assert!(false);
        }
    });

    rtd.conf.features.mask_highlights = true;

    let third = process_titles(&rtd, &mut db, &msg, 1594900000);
    assert_eq!(third.len(), 1);
    third.into_iter().for_each(|v| {
        println!("{:?}", v);
        if let TITLE(s) = v {
            assert!(s.starts_with("⤷ |t| → "));
            assert!(date.is_match(&s));
            assert!(s.ends_with(" t\u{200d}estnick (#test)"));
        } else {
            assert!(false);
        }
    });

    // the first post is the only one that was recorded
    assert_eq!(db.len(), 1);
}

#[test]
fn history_is_kept_by_channel_unless_it_is_shared() {
    let mut rtd = Rtd::default();
    rtd.conf.features.history = true;
    let mut db = Database::open_in_memory().unwrap();
    let link = "http://127.0.0.1:8084/";

    let in_a = Msg::new(&rtd, "alice", "#a", link);
    let in_b = Msg::new(&rtd, "bob", "#b", link);
    assert_eq!(process_titles(&rtd, &mut db, &in_a, 0), vec![TITLE("⤷ |t|".to_string())]);
    // another channel knows nothing of it, and records its own post
    assert_eq!(process_titles(&rtd, &mut db, &in_b, 60), vec![TITLE("⤷ |t|".to_string())]);
    assert_eq!(db.len(), 2);
    // each channel is told its own first post
    assert_eq!(
        process_titles(&rtd, &mut db, &in_a, 120),
        vec![TITLE("⤷ |t| → Thu Jan 1 00:00:00 1970 alice (#a)".to_string())]
    );
    assert_eq!(
        process_titles(&rtd, &mut db, &in_b, 120),
        vec![TITLE("⤷ |t| → Thu Jan 1 00:01:00 1970 bob (#b)".to_string())]
    );

    // shared: the most recent post, wherever it was made
    rtd.conf.features.cross_channel_history = true;
    let in_c = Msg::new(&rtd, "carol", "#c", link);
    assert_eq!(
        process_titles(&rtd, &mut db, &in_c, 180),
        vec![TITLE("⤷ |t| → Thu Jan 1 00:01:00 1970 bob (#b)".to_string())]
    );
    assert_eq!(db.len(), 2);
}

#[test]
fn a_query_is_answered_but_not_recorded() {
    let mut rtd = Rtd::default();
    rtd.conf.features.history = true;
    let mut db = Database::open_in_memory().unwrap();
    let msg = Msg::new(&rtd, "alice", "alice", "http://127.0.0.1:8084/");
    assert!(!msg.is_chanmsg);
    assert_eq!(process_titles(&rtd, &mut db, &msg, 0), vec![TITLE("⤷ |t|".to_string())]);
    assert_eq!(process_titles(&rtd, &mut db, &msg, 0), vec![TITLE("⤷ |t|".to_string())]);
    assert_eq!(db.len(), 0);
}

#[test]
fn nothing_is_recorded_without_history() {
    let rtd = Rtd::default();
    let mut db = Database::open_in_memory().unwrap();
    let msg = Msg::new(&rtd, "alice", "#a", "http://127.0.0.1:8084/");
    process_titles(&rtd, &mut db, &msg, 0);
    assert_eq!(db.len(), 0);
}

#[test]
fn test_process_titles_http_https_only() {
    assert_eq!(0, pt("git://127.0.0.1:8084/").len());
    assert_eq!(0, pt("ssh://127.0.0.1:8084/").len());
    assert_eq!(0, pt("ftp://127.0.0.1:8084/").len());
    assert_eq!(1, pt("https://127.0.0.1:8084/").len());
}

#[test]
fn test_process_titles_unsafe_chars() {
    assert_eq!(0, pt("http://127.0.0.1:8084/{}").len());
}

fn err_val(r: &TitleResp, s: &str) -> bool {
    if let ERROR(st) = r {
        st == s
    } else {
        false
    }
}

#[test]
fn test_process_titles_resolve_error() {
    assert!(err_val(
        &pt("http://127.0.0.1:8084/empty")[0],
        "http://127.0.0.1:8084/empty: failed to parse title"
    ));
    assert!(err_val(
        &pt("http://127.0.0.1:8084/blank")[0],
        "http://127.0.0.1:8084/blank: failed to parse title"
    ));
}

#[test]
fn test_process_titles_partial() {
    let mut rtd = Rtd::default();
    rtd.conf.features.partial_urls = true;

    let mut db = Database::open_in_memory().unwrap();

    let msg = Msg::new(&rtd, "testnick", "#test", "google.com");
    println!("{:?}", msg);
    assert_eq!(1, process_titles(&rtd, &mut db, &msg, 0).len());

    let msg = Msg::new(&rtd, "testnick", "#test", "docs.rs");
    println!("{:?}", msg);
    assert_eq!(1, process_titles(&rtd, &mut db, &msg, 0).len());

    // not without the feature
    rtd.conf.features.partial_urls = false;
    let msg = Msg::new(&rtd, "testnick", "#test", "docs.rs");
    assert_eq!(0, process_titles(&rtd, &mut db, &msg, 0).len());
}

#[test]
fn links_are_found_among_the_words() {
    let links = candidate_links(true, "look: docs.rs, http://a.example/x and docs.rs @user.horse");
    let tokens: Vec<&str> = links.iter().map(|l| l.token.as_str()).collect();
    assert_eq!(tokens, vec!["http://a.example/x", "http://docs.rs"]);
    assert_eq!(links[1].url.as_str(), "http://docs.rs/");
    assert!(find_link(true, "word.word@gmail.com").is_none());
    assert!(find_link(false, "docs.rs").is_none());
    assert!(find_link(true, "http://z/|").is_none());
    assert!(find_link(true, "mailto:someone@example.com").is_none());
    assert_eq!(find_link(false, "https://example.com").unwrap().url.scheme(), "https");
}

#[test]
fn a_long_title_is_cut_to_the_wire_limit() {
    let rtd = Rtd::default();
    let mut db = Database::open_in_memory().unwrap();
    let msg = Msg::new(&rtd, "alice", "#a", "http://example.com/");
    let mut scan = TitleScan::new(&rtd, &msg);
    let long = "\u{2665}".repeat(400);
    scan = scan.resolved(&rtd, &mut db, &msg, "now", Ok(long));
    match &scan.responses()[0] {
        TITLE(said) => {
            assert_eq!(said.len(), 508);
            assert!(said.starts_with("\u{2937} \u{2665}"));
            assert_eq!(said.chars().count(), 2 + 168);
        }
        other => panic!("{:?}", other),
    }
    // an error is cut as well
    let msg = Msg::new(&rtd, "alice", "#a", "http://example.com/ http://example.org/");
    let mut scan = TitleScan::new(&rtd, &msg);
    scan = scan.resolved(&rtd, &mut db, &msg, "now", Err("e".repeat(600)));
    assert_eq!(scan.responses()[0], ERROR("e".repeat(510)));
    // feeding more outcomes than there are links changes nothing
    scan = scan.resolved(&rtd, &mut db, &msg, "now", Ok("one".to_string()));
    assert!(scan.pending().is_none());
    scan = scan.resolved(&rtd, &mut db, &msg, "now", Ok("two".to_string()));
    assert_eq!(scan.responses().len(), 2);
}

fn said(target: &str, text: &str) -> Action {
    Action::Privmsg { target: target.to_string(), text: text.to_string() }
}

fn noticed(target: &str, text: &str) -> Action {
    Action::Notice { target: target.to_string(), text: text.to_string() }
}

fn join(channel: &str) -> Action {
    Action::Join { channel: channel.to_string() }
}

#[test]
fn replies_go_to_the_channel_or_the_sender() {
    let mut rtd = Rtd::default();
    let chan = Msg::new(&rtd, "alice", "#a", "hi");
    let query = Msg::new(&rtd, "alice", "alice", "hi");
    assert_eq!(respond(&rtd, &chan, "x"), said("#a", "x"));
    assert_eq!(respond(&rtd, &query, "x"), said("alice", "x"));
    rtd.conf.features.send_notice = true;
    assert_eq!(respond(&rtd, &chan, "x"), noticed("#a", "x"));
    assert_eq!(respond(&rtd, &query, "x"), said("alice", "x"));
}

#[test]
fn status_channels_are_joined_then_told() {
    let mut rtd = Rtd::default();
    assert!(msg_status_chans(&rtd, "x").is_empty());
    rtd.conf.params.status_channels = vec!["#s1".to_string(), "#s2".to_string()];
    assert_eq!(
        msg_status_chans(&rtd, "x"),
        vec![join("#s1"), join("#s2"), said("#s1", "x"), said("#s2", "x")]
    );
}

#[test]
fn errors_go_where_the_configuration_sends_them() {
    let mut rtd = Rtd::default();
    let chan = Msg::new(&rtd, "alice", "#a", "hi");
    let query = Msg::new(&rtd, "alice", "alice", "hi");

    // in a channel nothing is said by default; a query is always answered
    assert!(respond_error(&rtd, &chan, "e").is_empty());
    assert_eq!(respond_error(&rtd, &query, "e"), vec![said("alice", "e")]);

    rtd.conf.features.reply_with_errors = true;
    assert_eq!(respond_error(&rtd, &chan, "e"), vec![said("#a", "e")]);

    rtd.conf.features.send_errors_to_poster = true;
    assert_eq!(respond_error(&rtd, &chan, "e"), vec![said("#a", "e"), said("alice", "e")]);
    assert_eq!(respond_error(&rtd, &query, "e"), vec![said("alice", "e")]);

    rtd.conf.features.reply_with_errors = false;
    rtd.conf.params.status_channels = vec!["#s".to_string()];
    assert_eq!(
        respond_error(&rtd, &chan, "e"),
        vec![said("alice", "e"), join("#s"), said("#s", "e")]
    );
    assert_eq!(respond_error(&rtd, &query, "e"), vec![said("alice", "e")]);
}

#[test]
fn a_message_is_answered_link_by_link() {
    let mut rtd = Rtd::default();
    rtd.conf.features.reply_with_errors = true;
    rtd.conf.params.nick_response_str = "hello".to_string();
    let msg = Msg::new(&rtd, "alice", "#a", "url-bot-rs: look");
    assert!(msg.is_ping);
    let titles = vec![TITLE("t1".to_string()), ERROR("e".to_string()), TITLE("t2".to_string())];
    assert_eq!(
        privmsg(&rtd, &msg, &titles),
        vec![said("#a", "t1"), said("#a", "e"), said("#a", "t2")]
    );
    // nothing to answer: the bot answers to its name
    assert_eq!(privmsg(&rtd, &msg, &vec![]), vec![said("#a", "hello")]);
    // but only to its name
    let msg = Msg::new(&rtd, "alice", "#a", "nothing for the bot");
    assert!(!msg.is_ping);
    assert!(privmsg(&rtd, &msg, &vec![]).is_empty());
    // an error that is not sent anywhere still counts as an answer
    rtd.conf.features.reply_with_errors = false;
    let msg = Msg::new(&rtd, "alice", "#a", "url-bot-rs: http://x.example/");
    assert!(privmsg(&rtd, &msg, &vec![ERROR("e".to_string())]).is_empty());
}

#[test]
fn a_bot_without_a_nick_is_never_addressed() {
    let mut rtd = Rtd::default();
    rtd.conf.client.nickname = None;
    let msg = Msg::new(&rtd, "alice", "#a", "url-bot-rs: hi");
    assert!(!msg.is_ping);
    assert!(msg.is_chanmsg);
    assert!(!Msg::new(&rtd, "alice", "", "hi").is_chanmsg);
}

#[test]
fn messages_in_status_channels_are_ignored() {
    let mut rtd = Rtd::default();
    rtd.conf.params.status_channels = vec!["#status".to_string()];
    let quiet = Msg::new(&rtd, "alice", "#status", "just talking");
    assert!(ignore_message(&quiet).is_empty());
    let link = Msg::new(&rtd, "alice", "#status", "see http://example.com/");
    assert_eq!(
        ignore_message(&link),
        vec![said("alice", "ignoring messages in channel #status")]
    );
    let ping = Msg::new(&rtd, "alice", "#status", "url-bot-rs?");
    assert_eq!(
        ignore_message(&ping),
        vec![said("alice", "ignoring messages in channel #status")]
    );

    let event = InboundEvent::Privmsg {
        sender: "alice".to_string(),
        target: "#status".to_string(),
        text: "see http://example.com/".to_string(),
    };
    match handle_message(&event, &mut rtd, "url-bot-rs") {
        Handling::Done(actions) => {
            assert_eq!(actions, vec![said("alice", "ignoring messages in channel #status")])
        }
        other => panic!("{:?}", other),
    }
}

#[test]
fn a_message_elsewhere_has_its_links_found() {
    let mut rtd = Rtd::default();
    let event = InboundEvent::Privmsg {
        sender: "alice".to_string(),
        target: "#a".to_string(),
        text: "http://example.com/ and http://example.org/".to_string(),
    };
    match handle_message(&event, &mut rtd, "url-bot-rs") {
        Handling::Scan(msg, scan) => {
            assert_eq!(msg.sender, "alice");
            assert_eq!(msg.target, "#a");
            assert!(msg.is_chanmsg);
            assert_eq!(scan.pending().unwrap().token, "http://example.com/");
            assert!(scan.responses().is_empty());
        }
        other => panic!("{:?}", other),
    }
    assert!(matches!(
        handle_message(&InboundEvent::Other, &mut rtd, "url-bot-rs"),
        Handling::Done(actions) if actions.is_empty()
    ));
}

#[test]
fn a_kick_is_noted_where_the_configuration_is_kept() {
    let mut rtd = Rtd::default();
    let channels = |rtd: &Rtd| rtd.conf.client.channels.clone().unwrap();

    // not kept up to date: nothing happens
    assert!(kick(&mut rtd, "bot", "#url-bot-rs", "bot").is_empty());
    assert_eq!(channels(&rtd), vec!["#url-bot-rs".to_string()]);

    rtd.conf.features.autosave = true;
    // somebody else was kicked
    assert!(kick(&mut rtd, "bot", "#url-bot-rs", "alice").is_empty());
    assert_eq!(channels(&rtd), vec!["#url-bot-rs".to_string()]);
    // the bot was kicked
    assert_eq!(kick(&mut rtd, "bot", "#url-bot-rs", "bot"), vec![Action::SaveConfig]);
    assert!(channels(&rtd).is_empty());

    let event = InboundEvent::Kick {
        channel: "#gone".to_string(),
        kicked_nick: "bot".to_string(),
    };
    rtd.conf.client.channels = Some(vec!["#gone".to_string(), "#stays".to_string()]);
    match handle_message(&event, &mut rtd, "bot") {
        Handling::Done(actions) => assert_eq!(actions, vec![Action::SaveConfig]),
        other => panic!("{:?}", other),
    }
    assert_eq!(channels(&rtd), vec!["#stays".to_string()]);
}

#[test]
fn an_invitation_is_followed_where_it_is_allowed() {
    let mut rtd = Rtd::default();
    assert!(invite(&rtd, "bot", "bot", "#new").is_empty());
    rtd.conf.features.invite = true;
    assert!(invite(&rtd, "bot", "alice", "#new").is_empty());
    assert_eq!(invite(&rtd, "bot", "bot", "#new"), vec![join("#new")]);

    let event = InboundEvent::Invite { nick: "bot".to_string(), channel: "#new".to_string() };
    match handle_message(&event, &mut rtd, "bot") {
        Handling::Done(actions) => assert_eq!(actions, vec![join("#new")]),
        other => panic!("{:?}", other),
    }

    // once joined, the channel is kept where the configuration is kept
    assert!(joined(&mut rtd, "#new").is_empty());
    assert_eq!(rtd.conf.client.channels, Some(vec!["#url-bot-rs".to_string()]));
    rtd.conf.features.autosave = true;
    assert_eq!(joined(&mut rtd, "#new"), vec![Action::SaveConfig]);
    assert_eq!(
        rtd.conf.client.channels,
        Some(vec!["#url-bot-rs".to_string(), "#new".to_string()])
    );
    assert_eq!(joined(&mut rtd, "#new"), vec![Action::SaveConfig]);
    assert_eq!(
        rtd.conf.client.channels,
        Some(vec!["#url-bot-rs".to_string(), "#new".to_string()])
    );
}
