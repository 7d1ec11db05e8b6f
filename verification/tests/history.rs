use url_bot_rs::history::{timestamp, Database, NewLogEntry, PostRecord, TIME_FORMAT};

fn entry<'a>(url: &'a str, user: &'a str, channel: &'a str) -> NewLogEntry<'a> {
    NewLogEntry { title: "a title", url, user, channel }
}

#[test]
fn empty_history_knows_no_post() {
    let db = Database::open_in_memory().unwrap();
    assert_eq!(db.len(), 0);
    assert!(db.check_prepost("http://example.com/").unwrap().is_none());
    assert!(db.get(0).is_none());
}

#[test]
fn a_logged_post_is_found_again() {
    let mut db = Database::open_in_memory().unwrap();
    db.add_log(&entry("http://example.com/", "alice", "#a"), "Tue Jul 14 09:05:07 2020")
        .unwrap();
    assert_eq!(db.len(), 1);
    let prev = db.check_prepost("http://example.com/").unwrap().unwrap();
    assert_eq!(prev.user, "alice");
    assert_eq!(prev.channel, "#a");
    assert_eq!(prev.time_created, "Tue Jul 14 09:05:07 2020");
    let record = db.get(0).unwrap();
    assert_eq!(record.title, "a title");
    assert_eq!(record.url, "http://example.com/");
}

#[test]
fn the_most_recent_post_is_told() {
    let mut db = Database::open_in_memory().unwrap();
    db.add_log(&entry("http://example.com/", "alice", "#a"), "first").unwrap();
    db.add_log(&entry("http://other.example/", "bob", "#a"), "second").unwrap();
    db.add_log(&entry("http://example.com/", "carol", "#b"), "third").unwrap();
    let prev = db.check_prepost("http://example.com/").unwrap().unwrap();
    assert_eq!(prev.user, "carol");
    assert_eq!(prev.time_created, "third");
    let prev = db.check_prepost_in("http://example.com/", "#a").unwrap().unwrap();
    assert_eq!(prev.user, "alice");
    assert_eq!(prev.time_created, "first");
    assert!(db.check_prepost_in("http://example.com/", "#c").unwrap().is_none());
}

#[test]
fn a_link_is_matched_as_it_is_written() {
    let mut db = Database::open_in_memory().unwrap();
    db.add_log(&entry("http://example.com/a_b", "alice", "#a"), "t").unwrap();
    assert!(db.check_prepost("http://example.com/a%b").unwrap().is_none());
    assert!(db.check_prepost("http://example.com/a_").unwrap().is_none());
    assert!(db.check_prepost("http://example.com/aXb").unwrap().is_none());
    assert!(db.check_prepost("%").unwrap().is_none());
    assert!(db.check_prepost("http://example.com/a_b").unwrap().is_some());
}

#[test]
fn records_come_back_as_they_were_given() {
    let records = vec![
        PostRecord {
            title: String::from("one"),
            url: String::from("http://one.example/"),
            user: String::from("u1"),
            channel: String::from("#c"),
            time_created: String::from("t1"),
        },
        PostRecord {
            title: String::from("two"),
            url: String::from("http://two.example/"),
            user: String::from("u2"),
            channel: String::from("#c"),
            time_created: String::from("t2"),
        },
    ];
    let db = Database::from_records(records);
    assert_eq!(db.len(), 2);
    assert_eq!(db.get(1).unwrap().title, "two");
    assert_eq!(db.check_prepost("http://one.example/").unwrap().unwrap().user, "u1");
}

#[test]
fn timestamp_is_written_in_words() {
    assert_eq!(timestamp(0), Some(String::from("Thu Jan 1 00:00:00 1970")));
    assert_eq!(timestamp(1594717507), Some(String::from("Tue Jul 14 09:05:07 2020")));
    assert_eq!(timestamp(1000000000), Some(String::from("Sun Sep 9 01:46:40 2001")));
    assert_eq!(timestamp(i64::MAX), None);
    assert_eq!(TIME_FORMAT, "%a %b %-d %H:%M:%S %-Y");
}
