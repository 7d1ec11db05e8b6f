//! The history of announced links: every post that was answered with a
//! title, and the question whether a link was posted before.
//!
//! The store is a list in memory, oldest first. Nothing is ever changed in
//! it or taken out of it; whoever wants it on disk writes down each new
//! record and hands the records back at the next start.

use crate::text::{opt_view, same_text};
use std::fmt::Write;
use vstd::prelude::*;

verus! {

/// A post about to be recorded.
#[derive(Clone, Copy, Debug)]
pub struct NewLogEntry<'a> {
    pub title: &'a str,
    pub url: &'a str,
    pub user: &'a str,
    pub channel: &'a str,
}

/// An earlier post of a link: who posted it, when, and where.
#[derive(Clone, Debug)]
pub struct PrevPost {
    pub user: String,
    pub time_created: String,
    pub channel: String,
}

impl Default for PrevPost {
    fn default() -> (r: Self)
        ensures
            r.user@.len() == 0,
            r.time_created@.len() == 0,
            r.channel@.len() == 0,
    {
        PrevPost { user: String::new(), time_created: String::new(), channel: String::new() }
    }
}

/// A recorded post.
#[derive(Clone, Debug)]
pub struct PostRecord {
    pub title: String,
    pub url: String,
    pub user: String,
    pub channel: String,
    pub time_created: String,
}

/// What a recorded post holds.
pub struct Post {
    pub title: Seq<char>,
    pub url: Seq<char>,
    pub user: Seq<char>,
    pub channel: Seq<char>,
    pub time_created: Seq<char>,
}

/// What is told of an earlier post.
pub struct Earlier {
    pub user: Seq<char>,
    pub time_created: Seq<char>,
    pub channel: Seq<char>,
}

impl View for PostRecord {
    type V = Post;

    open spec fn view(&self) -> Post {
        Post {
            title: self.title@,
            url: self.url@,
            user: self.user@,
            channel: self.channel@,
            time_created: self.time_created@,
        }
    }
}

impl View for PrevPost {
    type V = Earlier;

    open spec fn view(&self) -> Earlier {
        Earlier { user: self.user@, time_created: self.time_created@, channel: self.channel@ }
    }
}

impl<'a> View for NewLogEntry<'a> {
    type V = Post;

    /// The record of the entry, but for its time.
    open spec fn view(&self) -> Post {
        Post {
            title: self.title@,
            url: self.url@,
            user: self.user@,
            channel: self.channel@,
            time_created: Seq::empty(),
        }
    }
}

/// The view of an optional earlier post.
pub open spec fn earlier_view(p: Option<PrevPost>) -> Option<Earlier> {
    match p {
        Some(q) => Some(q@),
        None => None,
    }
}

/// What is told of the post `p`.
pub open spec fn told_of(p: Post) -> Earlier {
    Earlier { user: p.user, time_created: p.time_created, channel: p.channel }
}

/// Whether the post `p` counts as an earlier post of `url`; with a channel
/// given, only a post in that channel counts.
pub open spec fn counts(p: Post, url: Seq<char>, channel: Option<Seq<char>>) -> bool {
    p.url == url && match channel {
        Some(c) => p.channel == c,
        None => true,
    }
}

/// The most recent post in `posts`, which is oldest first, that counts as
/// an earlier post of `url`.
pub open spec fn latest(posts: Seq<Post>, url: Seq<char>, channel: Option<Seq<char>>) -> Option<
    Earlier,
>
    decreases posts.len(),
{
    if posts.len() == 0 {
        None
    } else if counts(posts.last(), url, channel) {
        Some(told_of(posts.last()))
    } else {
        latest(posts.drop_last(), url, channel)
    }
}

/// Why the store failed.
#[derive(Clone, Copy, Debug, PartialEq, Eq, Structural)]
pub enum StoreError {
    /// The store could not be read or written.
    Unavailable,
}

/// The history store.
#[derive(Clone, Debug)]
pub struct Database {
    posts: Vec<PostRecord>,
}

/// The views of the records of `v`.
pub open spec fn posts_view(v: Seq<PostRecord>) -> Seq<Post> {
    Seq::new(v.len(), |i: int| v[i]@)
}

impl View for Database {
    type V = Seq<Post>;

    /// The recorded posts, oldest first.
    closed spec fn view(&self) -> Seq<Post> {
        posts_view(self.posts@)
    }
}

impl Database {
    /// An empty store.
    pub fn open_in_memory() -> (r: Result<Self, StoreError>)
        ensures
            r matches Ok(db) && db@.len() == 0,
    {
        let db = Database { posts: Vec::new() };
        assert(db@ =~= Seq::empty());
        Ok(db)
    }

    /// A store that holds `records`, oldest first.
    pub fn from_records(records: Vec<PostRecord>) -> (db: Self)
        ensures
            db@ == posts_view(records@),
    {
        Database { posts: records }
    }

    /// The number of recorded posts.
    pub fn len(&self) -> (n: usize)
        ensures
            n == self@.len(),
    {
        self.posts.len()
    }

    /// The post recorded as number `i`, counted from the oldest.
    pub fn get(&self, i: usize) -> (r: Option<&PostRecord>)
        ensures
            i < self@.len() ==> (r matches Some(p) && p@ == self@[i as int]),
            i >= self@.len() ==> r.is_none(),
    {
        if i < self.posts.len() {
            Some(&self.posts[i])
        } else {
            None
        }
    }

    /// Records the post `entry` as made at `time_created`. Exactly one
    /// record is added, as the most recent; the others stay as they are.
    pub fn add_log(&mut self, entry: &NewLogEntry, time_created: &str) -> (r: Result<
        (),
        StoreError,
    >)
        ensures
            r.is_ok(),
            final(self)@ == old(self)@.push(Post { time_created: time_created@, ..entry@ }),
    {
        let record = PostRecord {
            title: entry.title.to_owned(),
            url: entry.url.to_owned(),
            user: entry.user.to_owned(),
            channel: entry.channel.to_owned(),
            time_created: time_created.to_owned(),
        };
        self.posts.push(record);
        assert(self@ =~= old(self)@.push(Post { time_created: time_created@, ..entry@ }));
        Ok(())
    }

    /// The most recent post of `url`, in any channel.
    pub fn check_prepost(&self, url: &str) -> (r: Result<Option<PrevPost>, StoreError>)
        ensures
            r matches Ok(p) && earlier_view(p) == latest(self@, url@, None),
    {
        Ok(self.find_latest(url, None))
    }

    /// The most recent post of `url` in `channel`.
    pub fn check_prepost_in(&self, url: &str, channel: &str) -> (r: Result<
        Option<PrevPost>,
        StoreError,
    >)
        ensures
            r matches Ok(p) && earlier_view(p) == latest(self@, url@, Some(channel@)),
    {
        Ok(self.find_latest(url, Some(channel)))
    }

    /// The most recent post that counts as an earlier post of `url`.
    fn find_latest(&self, url: &str, channel: Option<&str>) -> (r: Option<PrevPost>)
        ensures
            earlier_view(r) == latest(
                self@,
                url@,
                match channel {
                    Some(c) => Some(c@),
                    None => None,
                },
            ),
    {
        let ghost wanted: Option<Seq<char>> = match channel {
            Some(c) => Some(c@),
            None => None,
        };
        let mut i: usize = self.posts.len();
        assert(self@.take(i as int) =~= self@);
        while i > 0
            invariant
                i <= self.posts.len(),
                wanted == match channel {
                    Some(c) => Some(c@),
                    None => None,
                },
                latest(self@, url@, wanted) == latest(self@.take(i as int), url@, wanted),
            decreases i,
        {
            let p = &self.posts[i - 1];
            let ghost now = self@.take(i as int);
            assert(now.last() == p@);
            assert(now.drop_last() =~= self@.take(i - 1));
            let in_channel = match channel {
                Some(c) => same_text(p.channel.as_str(), c),
                None => true,
            };
            if same_text(p.url.as_str(), url) && in_channel {
                return Some(
                    PrevPost {
                        user: p.user.clone(),
                        time_created: p.time_created.clone(),
                        channel: p.channel.clone(),
                    },
                );
            }
            i -= 1;
        }
        None
    }
}

/// The format in which the time of a post is written, as `chrono` reads
/// it: the day of the week, the month, the day, the time of day and the
/// year, as in `Tue Jul 14 09:05:07 2020`.
pub const TIME_FORMAT: &'static str = "%a %b %-d %H:%M:%S %-Y";

/// The time `secs` seconds after the start of 1970, in UTC, as `chrono`
/// writes it in the format `format`; `None` where `chrono` cannot hold the
/// time or cannot write it in that format.
pub uninterp spec fn formatted_utc(secs: i64, format: Seq<char>) -> Option<Seq<char>>;

/// The time `secs` seconds after the start of 1970, in UTC, written in
/// `TIME_FORMAT`.
pub open spec fn utc_time_text(secs: i64) -> Option<Seq<char>> {
    formatted_utc(secs, TIME_FORMAT@)
}

/// Calls `chrono::DateTime::from_timestamp` and `DateTime::format`, and
/// writes what comes of it into a string. The contract claims only that
/// the outcome is a function of `secs` and `format`.
#[verifier::external_body]
fn format_utc(secs: i64, format: &str) -> (r: Option<String>)
    ensures
        opt_view(r) == formatted_utc(secs, format@),
{
    let mut out = String::new();
    match chrono::DateTime::from_timestamp(secs, 0) {
        Some(t) => match write!(out, "{}", t.format(format)) {
            Ok(_) => Some(out),
            Err(_) => None,
        },
        None => None,
    }
}

/// The time of a post as it is recorded and told: the time `secs` seconds
/// after the start of 1970, in UTC, written in `TIME_FORMAT`.
pub fn timestamp(secs: i64) -> (r: Option<String>)
    ensures
        opt_view(r) == utc_time_text(secs),
{
    format_utc(secs, TIME_FORMAT)
}

} // verus!
