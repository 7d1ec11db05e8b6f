//! The retriever: one bounded chain of HTTP requests for one link.
//!
//! The library decides; the caller performs. A `Session` says which request
//! to send, takes the head of each response, and answers with what to do
//! next: follow a redirect, wait and try again, hand the response on, or
//! give up with an error.

use crate::config::{texts, Features, Rtd};
use crate::cookies::{
    cookie_header, cookie_pair, lemma_cookie_is_kept, noted, received, CookieJar,
};
use crate::text::{decimal, from_chars, opt_view, push_decimal, same_text, to_chars};
use crate::title::{
    get_image_metadata, get_mime, image_metadata, mime_line, page_title, parse_title, parsed_mime,
    Mime, MimeParts,
};
use crate::url::{join, joined_url, pair_views};
use vstd::prelude::*;

verus! {

/// The user agent that is sent where the configuration names none.
pub const DEFAULT_USER_AGENT: &'static str = "Mozilla/5.0 url-bot-rs/0.4.3";

/// The number of redirects that are followed, one after the other, where
/// the configuration sets no limit.
pub const DEFAULT_REDIRECT_LIMIT: usize = 10;

/// Why a retrieval failed.
#[derive(Clone, Copy, Debug, PartialEq, Eq, Structural)]
pub enum HttpError {
    /// A configured header value holds a character that no header may hold.
    InvalidHeader,
    /// No retriever was built before a request was made.
    NoClient,
    /// A redirect named no target, or one that cannot be resolved.
    NoRedirectTarget(u16),
    /// The chain of redirects is longer than the limit allows.
    TooManyRedirects,
    /// A status that is neither success, redirect nor server error.
    Status(u16),
    /// Nothing in the response could be turned into a title.
    NoTitle,
}

impl HttpError {
    /// The error in words, for the link `url`.
    pub fn message(&self, url: &str) -> (r: String)
        ensures
            r@ == match *self {
                HttpError::InvalidHeader => "invalid header value"@,
                HttpError::NoClient => "HTTP client not initialised"@,
                HttpError::NoRedirectTarget(status) => "redirect without a target: "@ + decimal(
                    status as nat,
                ),
                HttpError::TooManyRedirects => "too many redirects"@,
                HttpError::Status(status) => "unhandled request status: "@ + decimal(
                    status as nat,
                ),
                HttpError::NoTitle => url@ + ": failed to parse title"@,
            },
    {
        match self {
            HttpError::InvalidHeader => "invalid header value".to_owned(),
            HttpError::NoClient => "HTTP client not initialised".to_owned(),
            HttpError::NoRedirectTarget(status) => {
                let mut out = to_chars("redirect without a target: ");
                push_decimal(&mut out, *status as u64);
                from_chars(&out)
            },
            HttpError::TooManyRedirects => "too many redirects".to_owned(),
            HttpError::Status(status) => {
                let mut out = to_chars("unhandled request status: ");
                push_decimal(&mut out, *status as u64);
                from_chars(&out)
            },
            HttpError::NoTitle => {
                let mut out = url.to_owned();
                out.append(": failed to parse title");
                out
            },
        }
    }
}

/// Whether `c` may stand in the value of a header: any character but the
/// ASCII control characters, of which only the tab is let through.
pub open spec fn is_header_char(c: char) -> bool {
    ((c as u32) >= 32 && (c as u32) != 127) || c == '\t'
}

/// Whether `s` can be the value of a header.
pub open spec fn is_header_value(s: Seq<char>) -> bool {
    forall|i: int| 0 <= i < s.len() ==> is_header_char(#[trigger] s[i])
}

/// Calls `reqwest::header::HeaderValue::from_str` and tells whether it
/// accepted the string. That function refuses a string exactly when one of
/// its bytes is below 32 and no tab, or is 127; the bytes of a character
/// outside ASCII are all above 127.
#[verifier::external_body]
fn header_value_ok(s: &str) -> (r: bool)
    ensures
        r == is_header_value(s@),
{
    reqwest::header::HeaderValue::from_str(s).is_ok()
}

/// Whether `s` can be sent as the value of a header.
pub fn valid_header_value(s: &str) -> (r: bool)
    ensures
        r == is_header_value(s@),
{
    header_value_ok(s)
}

/// What a builder has been told so far.
pub struct BuilderView {
    pub timeout: Option<u64>,
    pub retry_limit: nat,
    pub retry_delay: Option<u64>,
    pub user_agent: Option<Seq<char>>,
    pub accept_lang: Seq<char>,
    pub redirect_limit: Option<nat>,
}

/// Collects the limits and headers of a retriever.
#[derive(Clone, Debug)]
pub struct RetrieverBuilder {
    timeout: Option<u64>,
    retry_limit: usize,
    retry_delay: Option<u64>,
    user_agent: Option<String>,
    accept_lang: String,
    redirect_limit: Option<usize>,
}

/// The limits and headers of a retriever.
pub struct RetrieverView {
    pub timeout: Option<u64>,
    pub retry_limit: nat,
    pub retry_delay: u64,
    pub user_agent: Seq<char>,
    pub accept_lang: Seq<char>,
    pub redirect_limit: nat,
}

/// Holds the limits and headers under which requests are made.
#[derive(Clone, Debug)]
pub struct Retriever {
    timeout: Option<u64>,
    retry_limit: usize,
    retry_delay: u64,
    user_agent: String,
    accept_lang: String,
    redirect_limit: usize,
}

impl View for RetrieverBuilder {
    type V = BuilderView;

    closed spec fn view(&self) -> BuilderView {
        BuilderView {
            timeout: self.timeout,
            retry_limit: self.retry_limit as nat,
            retry_delay: self.retry_delay,
            user_agent: match self.user_agent {
                Some(u) => Some(u@),
                None => None,
            },
            accept_lang: self.accept_lang@,
            redirect_limit: match self.redirect_limit {
                Some(n) => Some(n as nat),
                None => None,
            },
        }
    }
}

impl View for Retriever {
    type V = RetrieverView;

    closed spec fn view(&self) -> RetrieverView {
        RetrieverView {
            timeout: self.timeout,
            retry_limit: self.retry_limit as nat,
            retry_delay: self.retry_delay,
            user_agent: self.user_agent@,
            accept_lang: self.accept_lang@,
            redirect_limit: self.redirect_limit as nat,
        }
    }
}

impl BuilderView {
    /// A builder that has been told nothing.
    pub open spec fn fresh() -> BuilderView {
        BuilderView {
            timeout: None,
            retry_limit: 0,
            retry_delay: None,
            user_agent: None,
            accept_lang: Seq::empty(),
            redirect_limit: None,
        }
    }

    /// Whether a retriever can be built: the header values are fit to send.
    pub open spec fn buildable(self) -> bool {
        is_header_value(self.accept_lang) && match self.user_agent {
            Some(u) => is_header_value(u),
            None => true,
        }
    }

    /// The retriever that is built: unset values take their defaults.
    pub open spec fn built(self) -> RetrieverView {
        RetrieverView {
            timeout: self.timeout,
            retry_limit: self.retry_limit,
            retry_delay: match self.retry_delay {
                Some(d) => d,
                None => 0,
            },
            user_agent: match self.user_agent {
                Some(u) => u,
                None => DEFAULT_USER_AGENT@,
            },
            accept_lang: self.accept_lang,
            redirect_limit: match self.redirect_limit {
                Some(n) => n,
                None => DEFAULT_REDIRECT_LIMIT as nat,
            },
        }
    }
}

impl RetrieverBuilder {
    /// A builder with nothing set: no timeout, no retries, the default user
    /// agent and redirect limit, an empty language header.
    pub fn new() -> (r: Self)
        ensures
            r@ == BuilderView::fresh(),
    {
        RetrieverBuilder {
            timeout: None,
            retry_limit: 0,
            retry_delay: None,
            user_agent: None,
            accept_lang: String::new(),
            redirect_limit: None,
        }
    }

    /// Sets the time, in seconds, that one attempt may take.
    pub fn timeout(self, timeout_secs: u64) -> (r: Self)
        ensures
            r@ == (BuilderView { timeout: Some(timeout_secs), ..self@ }),
    {
        let mut b = self;
        b.timeout = Some(timeout_secs);
        b
    }

    /// Sets how often a request is made again after a server error, and the
    /// seconds to wait before each such attempt.
    pub fn retry(self, limit: usize, delay_s: u64) -> (r: Self)
        ensures
            r@ == (BuilderView { retry_limit: limit as nat, retry_delay: Some(delay_s), ..self@ }),
    {
        let mut b = self;
        b.retry_limit = limit;
        b.retry_delay = Some(delay_s);
        b
    }

    /// Sets the user agent.
    pub fn user_agent(self, user_agent: &str) -> (r: Self)
        ensures
            r@ == (BuilderView { user_agent: Some(user_agent@), ..self@ }),
    {
        let mut b = self;
        b.user_agent = Some(user_agent.to_owned());
        b
    }

    /// Sets the value of the `Accept-Language` header.
    pub fn accept_lang(self, accept_lang: &str) -> (r: Self)
        ensures
            r@ == (BuilderView { accept_lang: accept_lang@, ..self@ }),
    {
        let mut b = self;
        b.accept_lang = accept_lang.to_owned();
        b
    }

    /// Sets the number of redirects that are followed, one after the other:
    /// with the limit `n`, a chain of `n` redirects is followed to its end,
    /// and the redirect after that fails the retrieval.
    pub fn redirect_limit(self, redirect_limit: usize) -> (r: Self)
        ensures
            r@ == (BuilderView { redirect_limit: Some(redirect_limit as nat), ..self@ }),
    {
        let mut b = self;
        b.redirect_limit = Some(redirect_limit);
        b
    }

    /// Builds the retriever, unless a header value cannot be sent.
    pub fn build(&self) -> (r: Result<Retriever, HttpError>)
        ensures
            self@.buildable() ==> (r matches Ok(c) && c@ == self@.built()),
            !self@.buildable() ==> (r matches Err(HttpError::InvalidHeader)),
    {
        if !header_value_ok(self.accept_lang.as_str()) {
            return Err(HttpError::InvalidHeader);
        }
        let user_agent = match &self.user_agent {
            Some(u) => {
                if !header_value_ok(u.as_str()) {
                    return Err(HttpError::InvalidHeader);
                }
                u.clone()
            },
            None => DEFAULT_USER_AGENT.to_owned(),
        };
        Ok(
            Retriever {
                timeout: self.timeout,
                retry_limit: self.retry_limit,
                retry_delay: match self.retry_delay {
                    Some(d) => d,
                    None => 0,
                },
                user_agent,
                accept_lang: self.accept_lang.clone(),
                redirect_limit: match self.redirect_limit {
                    Some(n) => n,
                    None => DEFAULT_REDIRECT_LIMIT,
                },
            },
        )
    }
}

/// One request: where to, and with which headers.
#[derive(Clone, Debug, PartialEq, Eq)]
pub struct Request {
    pub url: String,
    pub headers: Vec<(String, String)>,
}

/// What a request is made of.
pub struct RequestView {
    pub url: Seq<char>,
    pub headers: Seq<(Seq<char>, Seq<char>)>,
}

impl View for Request {
    type V = RequestView;

    open spec fn view(&self) -> RequestView {
        RequestView { url: self.url@, headers: pair_views(self.headers@) }
    }
}

/// The head of a response, as far as the retriever reads it.
#[derive(Clone, Debug)]
pub struct ResponseHead {
    /// The status code.
    pub status: u16,
    /// The value of the `Location` header, if there is one.
    pub location: Option<String>,
    /// The values of the `Set-Cookie` headers, in order.
    pub set_cookies: Vec<String>,
}

/// What the head of a response holds.
pub struct HeadView {
    pub status: u16,
    pub location: Option<Seq<char>>,
    pub set_cookies: Seq<Seq<char>>,
}

impl View for ResponseHead {
    type V = HeadView;

    open spec fn view(&self) -> HeadView {
        HeadView {
            status: self.status,
            location: crate::text::opt_view(self.location),
            set_cookies: texts(self.set_cookies@),
        }
    }
}

/// Whether `status` tells of success.
pub open spec fn is_success(status: u16) -> bool {
    200 <= status < 300
}

/// Whether `status` sends the client elsewhere.
pub open spec fn is_redirect(status: u16) -> bool {
    status == 301 || status == 302 || status == 303 || status == 307 || status == 308
}

/// Whether `status` tells of an error on the server's side.
pub open spec fn is_server_error(status: u16) -> bool {
    500 <= status < 600
}

/// Where one retrieval stands.
pub struct SessionView {
    /// The limits and headers it runs under.
    pub limits: RetrieverView,
    /// The link that is being retrieved.
    pub origin: Seq<char>,
    /// The headers that the caller asked for beyond the usual ones.
    pub extra: Seq<(Seq<char>, Seq<char>)>,
    /// The address of the request that is due or under way.
    pub url: Seq<char>,
    /// The cookies received so far.
    pub cookies: Seq<(Seq<char>, Seq<char>)>,
    /// How often the request was made again after a server error.
    pub retries: nat,
    /// How many redirects were followed since the first request or, if the
    /// request was made again, since the last time it was.
    pub hops: nat,
}

/// What follows from a response.
pub enum Outcome {
    /// Another request is due, after `delay` seconds.
    Again { session: SessionView, delay: u64 },
    /// The response is the one to hand on.
    Done,
    /// The retrieval has failed.
    Failed(HttpError),
}

impl SessionView {
    /// The retrieval of `url` before its first request.
    pub open spec fn fresh(
        limits: RetrieverView,
        url: Seq<char>,
        extra: Seq<(Seq<char>, Seq<char>)>,
    ) -> SessionView {
        SessionView {
            limits,
            origin: url,
            extra,
            url,
            cookies: Seq::empty(),
            retries: 0,
            hops: 0,
        }
    }

    /// The request that is due: to the current address, with the user agent,
    /// the accepted language, no compression, the cookies received so far,
    /// if any, and the caller's own headers.
    pub open spec fn request(self) -> RequestView {
        RequestView {
            url: self.url,
            headers: seq![
                ("user-agent"@, self.limits.user_agent),
                ("accept-language"@, self.limits.accept_lang),
                ("accept-encoding"@, "identity"@),
            ] + (if self.cookies.len() > 0 {
                seq![("cookie"@, cookie_header(self.cookies))]
            } else {
                Seq::empty()
            }) + self.extra,
        }
    }

    /// What follows from a redirect with the status `status` whose target,
    /// read against the current address, is `target`. Where as many
    /// redirects as the limit allows have been followed already, the
    /// redirect fails the retrieval, and so does one whose target could not
    /// be read; else the next request goes to the target, and one more
    /// redirect has been followed.
    pub open spec fn redirected(self, status: u16, target: Option<Seq<char>>) -> Outcome {
        if self.hops >= self.limits.redirect_limit {
            Outcome::Failed(HttpError::TooManyRedirects)
        } else {
            match target {
                None => Outcome::Failed(HttpError::NoRedirectTarget(status)),
                Some(next) => Outcome::Again {
                    session: SessionView { url: next, hops: self.hops + 1, ..self },
                    delay: 0,
                },
            }
        }
    }

    /// What follows from the response with the head `head`.
    ///
    /// Success ends the retrieval with that response. A redirect is
    /// followed to its target, read against the current address, as long as
    /// fewer redirects than the limit allows have been followed; one
    /// without a target that can be read fails. After a server error the request is made
    /// again to the first address, after the delay, as long as retries are
    /// left; when none is left the response is handed on as it is. Any
    /// other status fails with that status. The cookies that the response
    /// sets go along to the next request.
    pub open spec fn step(self, head: HeadView) -> Outcome {
        let cookies = received(self.cookies, head.set_cookies);
        if is_success(head.status) {
            Outcome::Done
        } else if is_redirect(head.status) {
            match head.location {
                None => Outcome::Failed(HttpError::NoRedirectTarget(head.status)),
                Some(location) => (SessionView { cookies, ..self }).redirected(
                    head.status,
                    joined_url(self.url, location),
                ),
            }
        } else if is_server_error(head.status) {
            if self.retries < self.limits.retry_limit {
                Outcome::Again {
                    session: SessionView {
                        url: self.origin,
                        hops: 0,
                        retries: self.retries + 1,
                        cookies,
                        ..self
                    },
                    delay: self.limits.retry_delay,
                }
            } else {
                Outcome::Done
            }
        } else {
            Outcome::Failed(HttpError::Status(head.status))
        }
    }
}

/// One retrieval: the chain of requests made for one link.
#[derive(Debug)]
pub struct Session {
    limits: Retriever,
    origin: String,
    extra: Vec<(String, String)>,
    url: String,
    cookies: CookieJar,
    retries: usize,
    hops: usize,
}

impl View for Session {
    type V = SessionView;

    closed spec fn view(&self) -> SessionView {
        SessionView {
            limits: self.limits@,
            origin: self.origin@,
            extra: pair_views(self.extra@),
            url: self.url@,
            cookies: self.cookies@,
            retries: self.retries as nat,
            hops: self.hops as nat,
        }
    }
}

/// What to do after a response.
#[derive(Debug)]
pub enum Step {
    /// Wait `delay_s` seconds, then send the request of `session`.
    Again { session: Session, delay_s: u64 },
    /// Hand the response on.
    Done,
    /// Give up.
    Failed(HttpError),
}

impl View for Step {
    type V = Outcome;

    open spec fn view(&self) -> Outcome {
        match self {
            Step::Again { session, delay_s } => Outcome::Again {
                session: session@,
                delay: *delay_s,
            },
            Step::Done => Outcome::Done,
            Step::Failed(e) => Outcome::Failed(*e),
        }
    }
}

/// A copy of the pairs of `v`.
pub fn copy_pairs(v: &Vec<(String, String)>) -> (r: Vec<(String, String)>)
    ensures
        pair_views(r@) == pair_views(v@),
{
    let mut out: Vec<(String, String)> = Vec::new();
    let mut i: usize = 0;
    while i < v.len()
        invariant
            i <= v.len(),
            pair_views(out@) == pair_views(v@).take(i as int),
        decreases v.len() - i,
    {
        let name = v[i].0.clone();
        let value = v[i].1.clone();
        let ghost before = pair_views(out@);
        out.push((name, value));
        assert(pair_views(out@) =~= before.push((name@, value@)));
        assert(pair_views(out@) =~= pair_views(v@).take(i + 1));
        i += 1;
    }
    assert(pair_views(v@).take(v.len() as int) =~= pair_views(v@));
    out
}

impl Retriever {
    /// A copy of the retriever.
    pub fn duplicate(&self) -> (r: Retriever)
        ensures
            r@ == self@,
    {
        Retriever {
            timeout: self.timeout,
            retry_limit: self.retry_limit,
            retry_delay: self.retry_delay,
            user_agent: self.user_agent.clone(),
            accept_lang: self.accept_lang.clone(),
            redirect_limit: self.redirect_limit,
        }
    }

    /// The time, in seconds, that one attempt may take, if it is limited.
    pub fn timeout_secs(&self) -> (r: Option<u64>)
        ensures
            r == self@.timeout,
    {
        self.timeout
    }

    /// Begins the retrieval of `url`.
    pub fn request(&self, url: &str) -> (session: Session)
        ensures
            session@ == SessionView::fresh(self@, url@, Seq::empty()),
    {
        let none: Vec<(String, String)> = Vec::new();
        assert(pair_views(none@) =~= Seq::empty());
        self.request_with_headers(url, none)
    }

    /// Begins the retrieval of `url`, where each request is to carry the
    /// headers `header_map` beyond the usual ones.
    pub fn request_with_headers(&self, url: &str, header_map: Vec<(String, String)>) -> (session:
        Session)
        ensures
            session@ == SessionView::fresh(self@, url@, pair_views(header_map@)),
    {
        let session = Session {
            limits: self.duplicate(),
            origin: url.to_owned(),
            extra: header_map,
            url: url.to_owned(),
            cookies: CookieJar::new(),
            retries: 0,
            hops: 0,
        };
        assert(session@.cookies =~= Seq::empty());
        session
    }
}

impl Session {
    /// The request that is due. The cookies that go with it are those
    /// received so far, each name once.
    pub fn request(&self) -> (r: Request)
        ensures
            r@ == self@.request(),
            crate::cookies::distinct_names(self@.cookies),
    {
        let mut headers: Vec<(String, String)> = Vec::new();
        headers.push(("user-agent".to_owned(), self.limits.user_agent.clone()));
        headers.push(("accept-language".to_owned(), self.limits.accept_lang.clone()));
        headers.push(("accept-encoding".to_owned(), "identity".to_owned()));
        if !self.cookies.is_empty() {
            headers.push(("cookie".to_owned(), self.cookies.header()));
        }
        let ghost usual = pair_views(headers@);
        let mut extra = copy_pairs(&self.extra);
        let ghost more = pair_views(extra@);
        headers.append(&mut extra);
        assert(pair_views(headers@) =~= usual + more);
        let r = Request { url: self.url.clone(), headers };
        assert(r@.headers =~= self@.request().headers);
        r
    }

    /// Follows a redirect with the status `status` whose target, read
    /// against the current address, is `target`.
    pub fn redirected(self, status: u16, target: Option<String>) -> (r: Step)
        ensures
            r@ == self@.redirected(status, opt_view(target)),
    {
        if self.hops >= self.limits.redirect_limit {
            return Step::Failed(HttpError::TooManyRedirects);
        }
        match target {
            None => Step::Failed(HttpError::NoRedirectTarget(status)),
            Some(next) => {
                let mut session = self;
                session.url = next;
                session.hops = session.hops + 1;
                Step::Again { session, delay_s: 0 }
            },
        }
    }

    /// Takes the head of the response to the request that was due, and
    /// tells what follows from it.
    pub fn receive(self, head: &ResponseHead) -> (r: Step)
        ensures
            r@ == self@.step(head@),
    {
        let status = head.status;
        let mut session = self;
        session.cookies.receive(&head.set_cookies);
        if 200 <= status && status < 300 {
            Step::Done
        } else if status == 301 || status == 302 || status == 303 || status == 307 || status
            == 308 {
            match &head.location {
                None => Step::Failed(HttpError::NoRedirectTarget(status)),
                Some(location) => {
                    let target = join(session.url.as_str(), location.as_str());
                    session.redirected(status, target)
                },
            }
        } else if 500 <= status && status < 600 {
            if session.retries < session.limits.retry_limit {
                session.url = session.origin.clone();
                session.hops = 0;
                session.retries = session.retries + 1;
                let delay_s = session.limits.retry_delay;
                Step::Again { session, delay_s }
            } else {
                Step::Done
            }
        } else {
            Step::Failed(HttpError::Status(status))
        }
    }
}

/// How a retrieval ends when the responses `heads` come in, in order.
pub enum Ending {
    /// The response with this place in `heads` is handed on.
    Delivered(int),
    /// The retrieval failed at the response with this place in `heads`.
    Failed(HttpError, int),
    /// Every response was taken and another request is due.
    Waiting(SessionView),
}

/// How the retrieval `s` ends when the responses `heads[at..]` come in.
pub open spec fn run_from(s: SessionView, heads: Seq<HeadView>, at: int) -> Ending
    decreases heads.len() - at,
{
    if at < 0 || at >= heads.len() {
        Ending::Waiting(s)
    } else {
        match s.step(heads[at]) {
            Outcome::Done => Ending::Delivered(at),
            Outcome::Failed(e) => Ending::Failed(e, at),
            Outcome::Again { session, delay } => run_from(session, heads, at + 1),
        }
    }
}

/// How a retrieval ended.
#[derive(Debug)]
pub enum Replay {
    /// The response with this place among those given is handed on.
    Delivered(usize),
    /// The retrieval failed at the response with this place.
    Failed(HttpError, usize),
    /// Every response was taken and another request is due.
    Waiting(Session),
}

impl View for Replay {
    type V = Ending;

    open spec fn view(&self) -> Ending {
        match self {
            Replay::Delivered(i) => Ending::Delivered(*i as int),
            Replay::Failed(e, i) => Ending::Failed(*e, *i as int),
            Replay::Waiting(s) => Ending::Waiting(s@),
        }
    }
}

/// The views of the heads of `v`.
pub open spec fn heads_view(v: Seq<ResponseHead>) -> Seq<HeadView> {
    Seq::new(v.len(), |i: int| v[i]@)
}

/// Runs the retrieval `session` against the recorded responses `heads`.
pub fn replay(session: Session, heads: &Vec<ResponseHead>) -> (r: Replay)
    ensures
        r@ == run_from(session@, heads_view(heads@), 0),
{
    let mut current = session;
    let mut at: usize = 0;
    while at < heads.len()
        invariant
            at <= heads.len(),
            run_from(session@, heads_view(heads@), 0) == run_from(
                current@,
                heads_view(heads@),
                at as int,
            ),
        decreases heads.len() - at,
    {
        assert(heads_view(heads@)[at as int] == heads@[at as int]@);
        match current.receive(&heads[at]) {
            Step::Done => {
                return Replay::Delivered(at);
            },
            Step::Failed(e) => {
                return Replay::Failed(e, at);
            },
            Step::Again { session: next, delay_s: _ } => {
                current = next;
            },
        }
        at += 1;
    }
    Replay::Waiting(current)
}

/// Whether `heads` is a chain of redirects: every response but the last
/// is a redirect that names a target, and the last tells of success.
pub open spec fn is_redirect_chain(heads: Seq<HeadView>) -> bool {
    &&& heads.len() >= 1
    &&& is_success(heads.last().status)
    &&& forall|i: int|
        0 <= i < heads.len() - 1 ==> is_redirect((#[trigger] heads[i]).status)
            && heads[i].location.is_some()
}

/// Whether each target from `heads[at]` on can be read against the address
/// that the redirect before it led to, beginning with `url`.
pub open spec fn resolves(url: Seq<char>, heads: Seq<HeadView>, at: int) -> bool
    decreases heads.len() - at,
{
    if at < 0 || at >= heads.len() - 1 || heads[at].location.is_none() {
        true
    } else {
        match joined_url(url, heads[at].location.unwrap()) {
            Some(next) => resolves(next, heads, at + 1),
            None => false,
        }
    }
}

/// A chain of redirects, entered at `at` after `s.hops` redirects, is
/// followed to its end if no redirect is still to come or those to come,
/// with those already followed, are no more than the limit allows, and
/// else fails for too many redirects; this where every target can be read
/// against the address before it.
pub proof fn lemma_chain_from(s: SessionView, heads: Seq<HeadView>, at: int)
    requires
        is_redirect_chain(heads),
        0 <= at < heads.len(),
    ensures
        resolves(s.url, heads, at) && (at == heads.len() - 1 || s.hops + (heads.len() - 1 - at)
            <= s.limits.redirect_limit) ==> run_from(s, heads, at) == Ending::Delivered(
            heads.len() - 1,
        ),
        resolves(s.url, heads, at) && at < heads.len() - 1 && s.hops + (heads.len() - 1 - at)
            > s.limits.redirect_limit ==> (run_from(s, heads, at) matches Ending::Failed(
            HttpError::TooManyRedirects,
            _,
        )),
    decreases heads.len() - at,
{
    if at < heads.len() - 1 && resolves(s.url, heads, at) {
        assert(is_redirect(heads[at].status) && heads[at].location.is_some());
        if s.hops < s.limits.redirect_limit {
            match s.step(heads[at]) {
                Outcome::Again { session, delay } => {
                    lemma_chain_from(session, heads, at + 1);
                },
                _ => {},
            }
        }
    }
}

/// A chain of no more redirects than the limit allows is followed to the
/// response at its end; a chain of more fails for too many redirects, and
/// so already a chain of one more. With the limit 10, ten redirects and
/// then a success are a success, and eleven redirects fail. This holds
/// where every target can be read against the address before it.
pub proof fn lemma_redirect_limit(
    limits: RetrieverView,
    url: Seq<char>,
    extra: Seq<(Seq<char>, Seq<char>)>,
    heads: Seq<HeadView>,
)
    requires
        is_redirect_chain(heads),
    ensures
        resolves(url, heads, 0) && heads.len() - 1 <= limits.redirect_limit ==> run_from(
            SessionView::fresh(limits, url, extra),
            heads,
            0,
        ) == Ending::Delivered(heads.len() - 1),
        resolves(url, heads, 0) && heads.len() - 1 > limits.redirect_limit ==> (run_from(
            SessionView::fresh(limits, url, extra),
            heads,
            0,
        ) matches Ending::Failed(HttpError::TooManyRedirects, _)),
{
    lemma_chain_from(SessionView::fresh(limits, url, extra), heads, 0);
}

/// Whether `heads` is a run of server errors: every response but the last
/// tells of an error on the server's side, and the last of success.
pub open spec fn is_error_run(heads: Seq<HeadView>) -> bool {
    &&& heads.len() >= 1
    &&& is_success(heads.last().status)
    &&& forall|i: int| 0 <= i < heads.len() - 1 ==> is_server_error((#[trigger] heads[i]).status)
}

/// The retries that `s` has left.
pub open spec fn retries_left(s: SessionView) -> int {
    if s.retries < s.limits.retry_limit {
        s.limits.retry_limit - s.retries
    } else {
        0
    }
}

/// A run of server errors, entered at `at`, ends with the success at its
/// end if no more errors are to come than retries are left; else with the
/// error at which no retry was left, which is handed on as it is.
pub proof fn lemma_errors_from(s: SessionView, heads: Seq<HeadView>, at: int)
    requires
        is_error_run(heads),
        0 <= at < heads.len(),
    ensures
        heads.len() - 1 - at <= retries_left(s) ==> run_from(s, heads, at) == Ending::Delivered(
            heads.len() - 1,
        ),
        heads.len() - 1 - at > retries_left(s) ==> run_from(s, heads, at) == Ending::Delivered(
            at + retries_left(s),
        ),
    decreases heads.len() - at,
{
    if at < heads.len() - 1 {
        assert(is_server_error(heads[at].status));
        match s.step(heads[at]) {
            Outcome::Again { session, delay } => {
                lemma_errors_from(session, heads, at + 1);
            },
            _ => {},
        }
    }
}

/// After no more server errors than the retry limit allows, a success is
/// handed on. After more, the retrieval stops at the first error for
/// which no retry is left and hands that response on: it makes one request
/// and then as many again as the limit says, and no more.
pub proof fn lemma_retry_limit(
    limits: RetrieverView,
    url: Seq<char>,
    extra: Seq<(Seq<char>, Seq<char>)>,
    heads: Seq<HeadView>,
)
    requires
        is_error_run(heads),
    ensures
        heads.len() - 1 <= limits.retry_limit ==> run_from(
            SessionView::fresh(limits, url, extra),
            heads,
            0,
        ) == Ending::Delivered(heads.len() - 1),
        heads.len() - 1 > limits.retry_limit ==> run_from(
            SessionView::fresh(limits, url, extra),
            heads,
            0,
        ) == Ending::Delivered(limits.retry_limit as int) && is_server_error(
            heads[limits.retry_limit as int].status,
        ),
{
    lemma_errors_from(SessionView::fresh(limits, url, extra), heads, 0);
}

/// The most requests that one chain of redirects takes: the first, and
/// one for each redirect that the limit allows.
pub open spec fn chain_bound(limits: RetrieverView) -> nat {
    limits.redirect_limit + 1
}

/// The most requests that one retrieval takes: a chain of redirects for
/// the first attempt and one for each retry.
pub open spec fn request_bound(limits: RetrieverView) -> nat {
    (limits.retry_limit + 1) * chain_bound(limits)
}

/// Whether `s` is within its limits: it has made no more retries and
/// followed no more redirects than allowed.
pub open spec fn within_limits(s: SessionView) -> bool {
    s.retries <= s.limits.retry_limit && s.hops < chain_bound(s.limits)
}

/// The most requests that `s` still takes after the one that is due.
pub open spec fn requests_left(s: SessionView) -> int {
    (s.limits.retry_limit - s.retries) * chain_bound(s.limits) + (chain_bound(s.limits) - 1
        - s.hops)
}

/// A retrieval within its limits stays within them, under the same limits,
/// and each further request brings it nearer to its end.
pub proof fn lemma_step_spends(s: SessionView, head: HeadView)
    requires
        within_limits(s),
    ensures
        s.step(head) matches Outcome::Again { session, delay } ==> within_limits(session)
            && session.limits == s.limits && 0 <= requests_left(session) < requests_left(s),
{
    let m = chain_bound(s.limits) as int;
    let left = s.limits.retry_limit - s.retries;
    match s.step(head) {
        Outcome::Again { session, delay } => {
            if is_server_error(head.status) {
                assert((left - 1) * m == left * m - m) by (nonlinear_arith);
                assert((left - 1) * m >= 0) by (nonlinear_arith)
                    requires
                        left >= 1,
                        m >= 1,
                ;
            } else {
                assert(left * m >= 0) by (nonlinear_arith)
                    requires
                        left >= 0,
                        m >= 1,
                ;
            }
        },
        _ => {},
    }
}

/// A retrieval within its limits ends before it has taken more responses
/// than it has requests left.
pub proof fn lemma_run_ends(s: SessionView, heads: Seq<HeadView>, at: int)
    requires
        within_limits(s),
        0 <= at,
        heads.len() - at > requests_left(s),
    ensures
        run_from(s, heads, at) matches Ending::Delivered(i) ==> at <= i <= at + requests_left(
            s,
        ),
        run_from(s, heads, at) matches Ending::Failed(_, i) ==> at <= i <= at + requests_left(
            s,
        ),
        !(run_from(s, heads, at) is Waiting),
    decreases heads.len() - at,
{
    let m = chain_bound(s.limits) as int;
    let left = s.limits.retry_limit - s.retries;
    assert(left * m >= 0) by (nonlinear_arith)
        requires
            left >= 0,
            m >= 1,
    ;
    lemma_step_spends(s, heads[at]);
    match s.step(heads[at]) {
        Outcome::Again { session, delay } => {
            lemma_run_ends(session, heads, at + 1);
        },
        _ => {},
    }
}

/// Every retrieval comes to an end: it takes no more requests than a chain
/// of redirects for the first attempt and one for each retry. Whatever the
/// server answers, after that many responses it has handed one on or has
/// failed.
pub proof fn lemma_requests_are_bounded(
    limits: RetrieverView,
    url: Seq<char>,
    extra: Seq<(Seq<char>, Seq<char>)>,
    heads: Seq<HeadView>,
)
    requires
        heads.len() >= request_bound(limits),
    ensures
        !(run_from(SessionView::fresh(limits, url, extra), heads, 0) is Waiting),
        run_from(SessionView::fresh(limits, url, extra), heads, 0) matches Ending::Delivered(i)
            ==> 0 <= i < request_bound(limits),
        run_from(SessionView::fresh(limits, url, extra), heads, 0) matches Ending::Failed(_, i)
            ==> 0 <= i < request_bound(limits),
{
    let s = SessionView::fresh(limits, url, extra);
    let m = chain_bound(limits) as int;
    assert((limits.retry_limit + 1) * m == limits.retry_limit * m + m) by (nonlinear_arith);
    lemma_run_ends(s, heads, 0);
}

/// Whether header `k` of `headers` is among those taken note of, sets a
/// cookie, and is the last of them to set that cookie.
pub open spec fn is_last_to_set(headers: Seq<Seq<char>>, k: int) -> bool {
    &&& 0 <= k < noted(headers).len()
    &&& cookie_pair(headers[k]).is_some()
    &&& forall|j: int|
        k < j < noted(headers).len() && cookie_pair(#[trigger] headers[j]).is_some()
            ==> cookie_pair(headers[j]).unwrap().0 != cookie_pair(headers[k]).unwrap().0
}

/// A cookie that a response sets goes out with the next request. Where a
/// response is answered with another request, be it a redirect that is
/// followed or a new attempt, the cookies of that request are those held
/// before with those of the response taken note of; the request carries
/// them in its `cookie` header; and a cookie that one of the first
/// `COOKIES_PER_RESPONSE` headers sets, and none of these after it sets
/// again, is among them with the value it was set to.
pub proof fn lemma_cookies_go_along(s: SessionView, head: HeadView, k: int)
    ensures
        s.step(head) matches Outcome::Again { session, delay } ==> {
            &&& session.cookies == received(s.cookies, head.set_cookies)
            &&& session.cookies.len() > 0 ==> session.request().headers.contains(
                ("cookie"@, cookie_header(session.cookies)),
            )
            &&& is_last_to_set(head.set_cookies, k) ==> session.cookies.contains(
                cookie_pair(head.set_cookies[k]).unwrap(),
            )
        },
{
    match s.step(head) {
        Outcome::Again { session, delay } => {
            if session.cookies.len() > 0 {
                assert(session.request().headers[3] == ("cookie"@, cookie_header(session.cookies)));
            }
        },
        _ => {},
    }
    let headers = noted(head.set_cookies);
    if is_last_to_set(head.set_cookies, k) {
        assert(headers[k] == head.set_cookies[k]);
        assert forall|j: int|
            k < j < headers.len() && cookie_pair(#[trigger] headers[j]).is_some() implies cookie_pair(
            headers[j],
        ).unwrap().0 != cookie_pair(headers[k]).unwrap().0 by {
            assert(headers[j] == head.set_cookies[j]);
        }
        lemma_cookie_is_kept(s.cookies, headers, k);
    }
}

/// The most bytes that are downloaded at a time.
pub const CHUNK_BYTES: usize = 100 * 1024;

/// The most chunks that are downloaded of one response.
pub const CHUNKS_MAX: usize = 10;

/// The text that `String::from_utf8_lossy` makes of `bytes`: their reading
/// as UTF-8, with the replacement character for what is none.
pub uninterp spec fn utf8_lossy(bytes: Seq<u8>) -> Seq<char>;

/// Calls `String::from_utf8_lossy`. The contract claims only that the
/// outcome is a function of `body`.
#[verifier::external_body]
fn lossy_text(body: &[u8]) -> (r: String)
    ensures
        r@ == utf8_lossy(body@),
{
    String::from_utf8_lossy(body).into_owned()
}

/// The size `len`, in bytes, as `humansize` writes it in its conventional
/// form, such as `16 B` or `1.31 KB`.
pub uninterp spec fn file_size_text(len: u64) -> Seq<char>;

/// Calls `humansize::FileSize::file_size` with the options `CONVENTIONAL`;
/// an error, which it gives for no unsigned size, would be the empty
/// string. The contract claims only that the outcome is a function of
/// `len`.
#[verifier::external_body]
fn human_size(len: u64) -> (r: String)
    ensures
        r@ == file_size_text(len),
{
    humansize::FileSize::file_size(&len, humansize::file_size_opts::CONVENTIONAL).unwrap_or_default()
}

/// What a response can be by its declared type.
#[derive(Clone, Copy, Debug, PartialEq, Eq, Structural)]
pub enum ContentKind {
    /// `text/html`, or no type that can be read.
    Page,
    /// `image/*`.
    Image,
    /// Anything else.
    Other,
}

/// The kind of a response of the declared type `mime`.
pub open spec fn kind_of(mime: Option<MimeParts>) -> ContentKind {
    match mime {
        None => ContentKind::Page,
        Some(m) => if m.type_ == "text"@ && m.subtype == "html"@ {
            ContentKind::Page
        } else if m.type_ == "image"@ {
            ContentKind::Image
        } else {
            ContentKind::Other
        },
    }
}

/// The kind of a response of the declared type `mime`.
pub fn classify(mime: &Option<Mime>) -> (k: ContentKind)
    ensures
        k == kind_of(crate::title::mime_view(*mime)),
{
    match mime {
        None => ContentKind::Page,
        Some(m) => {
            if same_text(m.type_(), "text") && same_text(m.subtype(), "html") {
                ContentKind::Page
            } else if same_text(m.type_(), "image") {
                ContentKind::Image
            } else {
                ContentKind::Other
            }
        },
    }
}

/// The type and size of a response in words, where the configuration asks
/// for them.
pub open spec fn mime_report(report_mime: bool, mime: Option<MimeParts>, size: Seq<char>) -> Option<
    Seq<char>,
> {
    match mime {
        Some(m) => if report_mime {
            Some(mime_line(m.text, size))
        } else {
            None
        },
        None => None,
    }
}

/// What is announced of a response of the kind `kind`, where `page` is the
/// title of the page that its bytes hold, `image` what is said of them as
/// an image, and `report` what is said of its type and size, each if there
/// is such a thing. The title of a page comes first whatever the kind.
/// Without one, a page has nothing to announce; an image is announced as
/// an image, and failing that, like anything else, by type and size.
pub open spec fn chosen(
    kind: ContentKind,
    page: Option<Seq<char>>,
    image: Option<Seq<char>>,
    report: Option<Seq<char>>,
) -> Option<Seq<char>> {
    if page.is_some() {
        page
    } else {
        match kind {
            ContentKind::Page => None,
            ContentKind::Image => if image.is_some() {
                image
            } else {
                report
            },
            ContentKind::Other => report,
        }
    }
}

/// What is announced of a response of the kind `kind`, given what its
/// bytes hold as a page, what is said of them as an image, and what is
/// said of its type and size.
pub fn choose_title(
    kind: ContentKind,
    page: Option<String>,
    image: Option<String>,
    report: Option<String>,
) -> (r: Option<String>)
    ensures
        opt_view(r) == chosen(kind, opt_view(page), opt_view(image), opt_view(report)),
{
    if page.is_some() {
        page
    } else {
        match kind {
            ContentKind::Page => None,
            ContentKind::Image => {
                if image.is_some() {
                    image
                } else {
                    report
                }
            },
            ContentKind::Other => report,
        }
    }
}

/// What the bytes `body`, downloaded so far from a response of the
/// declared type `mime` and the size `size`, are announced as: the title
/// of the page that they hold, what they are as an image, or the type and
/// size of the response, as `chosen` says, the last two only where the
/// configuration asks for them.
pub open spec fn found_title(
    features: Features,
    mime: Option<MimeParts>,
    size: Seq<char>,
    body: Seq<u8>,
) -> Option<Seq<char>> {
    chosen(
        kind_of(mime),
        page_title(utf8_lossy(body)),
        image_metadata(features.report_metadata, body),
        mime_report(features.report_mime, mime, size),
    )
}

/// What the bytes `body`, downloaded so far, are announced as.
pub fn title_in(rtd: &Rtd, content_type: &Option<Mime>, size: &str, body: &[u8]) -> (r: Option<
    String,
>)
    ensures
        opt_view(r) == found_title(
            rtd.conf.features,
            crate::title::mime_view(*content_type),
            size@,
            body@,
        ),
{
    let contents = lossy_text(body);
    let page = parse_title(contents.as_str());
    if page.is_some() {
        return page;
    }
    let kind = classify(content_type);
    let image = match kind {
        ContentKind::Image => get_image_metadata(rtd, body),
        _ => None,
    };
    let report = match content_type {
        Some(mime) => get_mime(rtd, mime, size),
        None => None,
    };
    choose_title(kind, None, image, report)
}

/// The part of a chunk that is taken: its first `CHUNK_BYTES` bytes.
pub open spec fn taken(chunk: Seq<u8>) -> Seq<u8> {
    if chunk.len() <= CHUNK_BYTES {
        chunk
    } else {
        chunk.take(CHUNK_BYTES as int)
    }
}

/// Where the download of one response stands.
pub struct DownloadView {
    /// The declared type of the response, if it can be read.
    pub content_type: Option<MimeParts>,
    /// The declared size of the response, in words.
    pub size: Seq<char>,
    /// The bytes downloaded so far.
    pub body: Seq<u8>,
    /// The number of chunks downloaded so far.
    pub chunks: nat,
}

/// What follows from a chunk.
pub enum ProgressView {
    /// This is to be announced; nothing more is downloaded.
    Found(Seq<char>),
    /// Nothing to announce yet; another chunk is due.
    More(DownloadView),
    /// Nothing to announce, and no chunk is left.
    GiveUp,
}

impl DownloadView {
    /// The download of a response of the declared type `content_type` and
    /// length `content_length`, before its first chunk.
    pub open spec fn fresh(content_type: Option<Seq<char>>, content_length: Option<u64>) -> DownloadView {
        DownloadView {
            content_type: match content_type {
                Some(t) => parsed_mime(t),
                None => None,
            },
            size: file_size_text(
                match content_length {
                    Some(n) => n,
                    None => 0,
                },
            ),
            body: Seq::empty(),
            chunks: 0,
        }
    }

    /// What follows from the chunk `chunk`: if the bytes so far, with those
    /// of the chunk, hold something to announce, that is announced and the
    /// download ends; if not, another chunk is due unless this was the last
    /// that may be taken.
    pub open spec fn fed(self, features: Features, chunk: Seq<u8>) -> ProgressView {
        let body = self.body + taken(chunk);
        match found_title(features, self.content_type, self.size, body) {
            Some(t) => ProgressView::Found(t),
            None => if self.chunks + 1 >= CHUNKS_MAX {
                ProgressView::GiveUp
            } else {
                ProgressView::More(DownloadView { body, chunks: self.chunks + 1, ..self })
            },
        }
    }
}

/// The download of one response, chunk by chunk.
#[derive(Debug)]
pub struct Download {
    content_type: Option<Mime>,
    size: String,
    body: Vec<u8>,
    chunks: usize,
}

impl View for Download {
    type V = DownloadView;

    closed spec fn view(&self) -> DownloadView {
        DownloadView {
            content_type: crate::title::mime_view(self.content_type),
            size: self.size@,
            body: self.body@,
            chunks: self.chunks as nat,
        }
    }
}

/// What to do after a chunk.
#[derive(Debug)]
pub enum Progress {
    /// Announce this; download nothing more.
    Found(String),
    /// Download another chunk and feed it.
    More(Download),
    /// Give up: nothing to announce, and no chunk is left.
    GiveUp,
}

impl View for Progress {
    type V = ProgressView;

    open spec fn view(&self) -> ProgressView {
        match self {
            Progress::Found(t) => ProgressView::Found(t@),
            Progress::More(d) => ProgressView::More(d@),
            Progress::GiveUp => ProgressView::GiveUp,
        }
    }
}

impl Download {
    #[verifier::type_invariant]
    spec fn bounded(self) -> bool {
        self.chunks < CHUNKS_MAX && self.body@.len() <= self.chunks * CHUNK_BYTES
    }

    /// Begins the download of a response with the `Content-Type` header
    /// `content_type` and the declared length `content_length`.
    pub fn new(content_type: Option<&str>, content_length: Option<u64>) -> (d: Download)
        ensures
            d@ == DownloadView::fresh(
                match content_type {
                    Some(t) => Some(t@),
                    None => None,
                },
                content_length,
            ),
    {
        let mime = match content_type {
            Some(t) => Mime::parse(t),
            None => None,
        };
        let len = match content_length {
            Some(n) => n,
            None => 0,
        };
        Download { content_type: mime, size: human_size(len), body: Vec::new(), chunks: 0 }
    }

    /// The number of bytes downloaded so far, which never exceeds what
    /// `CHUNKS_MAX` chunks of `CHUNK_BYTES` bytes hold.
    pub fn buffered(&self) -> (n: usize)
        ensures
            n == self@.body.len(),
            n <= CHUNKS_MAX * CHUNK_BYTES,
            self@.chunks < CHUNKS_MAX,
            n <= self@.chunks * CHUNK_BYTES,
    {
        proof {
            use_type_invariant(self);
            assert(self.chunks * CHUNK_BYTES <= CHUNKS_MAX * CHUNK_BYTES) by (nonlinear_arith)
                requires
                    self.chunks < CHUNKS_MAX,
            ;
        }
        self.body.len()
    }

    /// Takes the next chunk of the response, of which no more than
    /// `CHUNK_BYTES` bytes are used, and tells what follows from it.
    pub fn feed(self, rtd: &Rtd, chunk: &[u8]) -> (r: Progress)
        ensures
            r@ == self@.fed(rtd.conf.features, chunk@),
    {
        proof {
            use_type_invariant(&self);
        }
        let Download { content_type, size, body, chunks } = self;
        let mut body = body;
        let n = if chunk.len() <= CHUNK_BYTES {
            chunk.len()
        } else {
            CHUNK_BYTES
        };
        let ghost before = body@;
        assert(chunks * CHUNK_BYTES + CHUNK_BYTES <= CHUNKS_MAX * CHUNK_BYTES) by (nonlinear_arith)
            requires
                chunks < CHUNKS_MAX,
        ;
        let mut i: usize = 0;
        while i < n
            invariant
                i <= n <= chunk.len(),
                n <= CHUNK_BYTES,
                before.len() <= chunks * CHUNK_BYTES,
                chunks * CHUNK_BYTES + CHUNK_BYTES <= CHUNKS_MAX * CHUNK_BYTES,
                body@ == before + chunk@.take(i as int),
            decreases n - i,
        {
            body.push(chunk[i]);
            assert(chunk@.take(i + 1) =~= chunk@.take(i as int).push(chunk@[i as int]));
            assert(body@ =~= before + chunk@.take(i + 1));
            i += 1;
        }
        assert(chunk@.take(n as int) =~= taken(chunk@));
        match title_in(rtd, &content_type, size.as_str(), body.as_slice()) {
            Some(t) => Progress::Found(t),
            None => {
                if chunks + 1 >= CHUNKS_MAX {
                    Progress::GiveUp
                } else {
                    assert((chunks + 1) * CHUNK_BYTES == chunks * CHUNK_BYTES + CHUNK_BYTES)
                        by (nonlinear_arith);
                    Progress::More(Download { content_type, size, body, chunks: chunks + 1 })
                }
            },
        }
    }
}

/// The chunk of `body` that begins at `at`.
pub open spec fn chunk_at(body: Seq<u8>, at: int) -> Seq<u8> {
    let from = if at <= body.len() {
        at
    } else {
        body.len() as int
    };
    let to = if at + CHUNK_BYTES <= body.len() {
        at + CHUNK_BYTES
    } else {
        body.len() as int
    };
    body.subrange(from, to)
}

/// What a response whose whole body is `body` is announced as when it is
/// downloaded chunk by chunk, from the chunk that begins at `at` on.
pub open spec fn extraction(d: DownloadView, features: Features, body: Seq<u8>, at: int) -> Option<
    Seq<char>,
>
    decreases CHUNKS_MAX - d.chunks,
{
    match d.fed(features, chunk_at(body, at)) {
        ProgressView::Found(t) => Some(t),
        ProgressView::GiveUp => None,
        ProgressView::More(next) => if next.chunks > d.chunks && next.chunks < CHUNKS_MAX {
            extraction(next, features, body, at + CHUNK_BYTES)
        } else {
            None
        },
    }
}

/// What a response with the `Content-Type` header `content_type`, the
/// declared length `content_length` and the body `body` is announced as.
/// The body is gone through in chunks of `CHUNK_BYTES` bytes, and what has
/// been gone through is looked at after each; the first chunk at which
/// there is something to announce ends the work. After `CHUNKS_MAX` chunks
/// without, the response has no title.
pub fn get_title(
    rtd: &Rtd,
    content_type: Option<&str>,
    content_length: Option<u64>,
    body: &[u8],
) -> (r: Result<String, HttpError>)
    ensures
        match extraction(
            DownloadView::fresh(
                match content_type {
                    Some(t) => Some(t@),
                    None => None,
                },
                content_length,
            ),
            rtd.conf.features,
            body@,
            0,
        ) {
            Some(t) => r matches Ok(title) && title@ == t,
            None => r matches Err(HttpError::NoTitle),
        },
{
    let mut download = Download::new(content_type, content_length);
    let ghost first = download@;
    let mut at: usize = 0;
    loop
        invariant
            first == DownloadView::fresh(
                match content_type {
                    Some(t) => Some(t@),
                    None => None,
                },
                content_length,
            ),
            at == download@.chunks * CHUNK_BYTES,
            download@.chunks < CHUNKS_MAX,
            extraction(first, rtd.conf.features, body@, 0) == extraction(
                download@,
                rtd.conf.features,
                body@,
                at as int,
            ),
        decreases CHUNKS_MAX - download@.chunks,
    {
        assert(download@.chunks * CHUNK_BYTES + CHUNK_BYTES <= CHUNKS_MAX * CHUNK_BYTES)
            by (nonlinear_arith)
            requires
                download@.chunks < CHUNKS_MAX,
        ;
        let from = if at <= body.len() {
            at
        } else {
            body.len()
        };
        let to = if at + CHUNK_BYTES <= body.len() {
            at + CHUNK_BYTES
        } else {
            body.len()
        };
        let chunk = vstd::slice::slice_subrange(body, from, to);
        assert(chunk@ == chunk_at(body@, at as int));
        let ghost before = download@;
        match download.feed(rtd, chunk) {
            Progress::Found(t) => {
                return Ok(t);
            },
            Progress::GiveUp => {
                return Err(HttpError::NoTitle);
            },
            Progress::More(next) => {
                assert((before.chunks + 1) * CHUNK_BYTES == before.chunks * CHUNK_BYTES
                    + CHUNK_BYTES) by (nonlinear_arith);
                download = next;
                at = at + CHUNK_BYTES;
            },
        }
    }
}

/// A title that stands in the first chunk of a response is announced at
/// that chunk, whatever the type of the response and whatever follows: no
/// second chunk is asked for.
pub proof fn lemma_early_exit(
    content_type: Option<Seq<char>>,
    content_length: Option<u64>,
    features: Features,
    chunk: Seq<u8>,
    body: Seq<u8>,
)
    ensures
        page_title(utf8_lossy(taken(chunk))) matches Some(title) ==> {
            &&& DownloadView::fresh(content_type, content_length).fed(features, chunk)
                == ProgressView::Found(title)
            &&& chunk_at(body, 0) == taken(chunk) ==> extraction(
                DownloadView::fresh(content_type, content_length),
                features,
                body,
                0,
            ) == Some(title)
        },
{
    let d = DownloadView::fresh(content_type, content_length);
    assert(d.body + taken(chunk) =~= taken(chunk));
    if chunk_at(body, 0) == taken(chunk) {
        assert(taken(taken(chunk)) =~= taken(chunk));
    }
}

/// One answer of a server, whole: the head of the response, what it
/// declares of its body, and the body.
#[derive(Clone, Debug)]
pub struct Answer {
    /// The head of the response.
    pub head: ResponseHead,
    /// The value of the `Content-Type` header, if there is one.
    pub content_type: Option<String>,
    /// The declared length of the body, if it is declared.
    pub content_length: Option<u64>,
    /// The body.
    pub body: Vec<u8>,
}

/// What an answer holds.
pub struct AnswerView {
    pub head: HeadView,
    pub content_type: Option<Seq<char>>,
    pub content_length: Option<u64>,
    pub body: Seq<u8>,
}

impl View for Answer {
    type V = AnswerView;

    open spec fn view(&self) -> AnswerView {
        AnswerView {
            head: self.head@,
            content_type: opt_view(self.content_type),
            content_length: self.content_length,
            body: self.body@,
        }
    }
}

/// The views of the answers of `v`.
pub open spec fn answers_view(v: Seq<Answer>) -> Seq<AnswerView> {
    Seq::new(v.len(), |i: int| v[i]@)
}

/// The heads of `answers`.
pub open spec fn heads_of(answers: Seq<AnswerView>) -> Seq<HeadView> {
    Seq::new(answers.len(), |i: int| answers[i].head)
}

/// What the answer `answer` is announced as, or that it has no title.
pub open spec fn announced(features: Features, answer: AnswerView) -> Result<Seq<char>, HttpError> {
    match extraction(
        DownloadView::fresh(answer.content_type, answer.content_length),
        features,
        answer.body,
        0,
    ) {
        Some(t) => Ok(t),
        None => Err(HttpError::NoTitle),
    }
}

/// How the link `url` resolves against a server that gives the answers
/// `answers`, one to each request: the retrieval runs as `run_from` says;
/// the answer that is handed on is announced, a failed retrieval is the
/// failure of the whole, and where the answers run out before the
/// retrieval ends nothing is resolved.
pub open spec fn resolved(
    limits: RetrieverView,
    features: Features,
    url: Seq<char>,
    answers: Seq<AnswerView>,
) -> Option<Result<Seq<char>, HttpError>> {
    match run_from(SessionView::fresh(limits, url, Seq::empty()), heads_of(answers), 0) {
        Ending::Delivered(i) => if 0 <= i < answers.len() {
            Some(announced(features, answers[i]))
        } else {
            None
        },
        Ending::Failed(e, _) => Some(Err(e)),
        Ending::Waiting(_) => None,
    }
}

/// The view of a resolution.
pub open spec fn resolution_view(r: Option<Result<String, HttpError>>) -> Option<
    Result<Seq<char>, HttpError>,
> {
    match r {
        Some(Ok(t)) => Some(Ok(t@)),
        Some(Err(e)) => Some(Err(e)),
        None => None,
    }
}

/// Resolves the link `url` against a server whose answers are at hand, one
/// to each request that the retrieval makes, in order. Without a retriever
/// nothing is asked and the resolution fails.
pub fn resolve_url(url: &str, rtd: &Rtd, answers: &Vec<Answer>) -> (r: Option<
    Result<String, HttpError>,
>)
    ensures
        rtd.client.is_none() ==> r == Some(Err::<String, HttpError>(HttpError::NoClient)),
        rtd.client matches Some(c) ==> resolution_view(r) == resolved(
            c@,
            rtd.conf.features,
            url@,
            answers_view(answers@),
        ),
{
    let retriever = match rtd.get_client() {
        Ok(c) => c,
        Err(e) => {
            return Some(Err(e));
        },
    };
    let ghost heads = heads_of(answers_view(answers@));
    let ghost first = SessionView::fresh(retriever@, url@, Seq::empty());
    let mut current = retriever.request(url);
    let mut at: usize = 0;
    while at < answers.len()
        invariant
            at <= answers.len(),
            rtd.client.is_some(),
            first == SessionView::fresh(rtd.client.unwrap()@, url@, Seq::empty()),
            heads == heads_of(answers_view(answers@)),
            run_from(first, heads, 0) == run_from(current@, heads, at as int),
        decreases answers.len() - at,
    {
        let answer = &answers[at];
        assert(heads[at as int] == answer.head@);
        match current.receive(&answer.head) {
            Step::Done => {
                assert(answers_view(answers@)[at as int] == answer@);
                let content_type = match &answer.content_type {
                    Some(t) => Some(t.as_str()),
                    None => None,
                };
                let title = get_title(
                    rtd,
                    content_type,
                    answer.content_length,
                    answer.body.as_slice(),
                );
                return Some(title);
            },
            Step::Failed(e) => {
                return Some(Err(e));
            },
            Step::Again { session: next, delay_s: _ } => {
                current = next;
            },
        }
        at += 1;
    }
    None
}

/// After no more server errors than the retry limit allows, the link
/// resolves as the success that follows them is announced. After more, it
/// resolves as the error at which no retry was left is announced: to an
/// error exactly if that response holds nothing to announce, which is so
/// of an empty one unless its type and size are to be reported.
pub proof fn lemma_retry_limit_resolved(
    limits: RetrieverView,
    features: Features,
    url: Seq<char>,
    answers: Seq<AnswerView>,
)
    requires
        is_error_run(heads_of(answers)),
    ensures
        answers.len() - 1 <= limits.retry_limit ==> resolved(limits, features, url, answers)
            == Some(announced(features, answers.last())),
        answers.len() - 1 > limits.retry_limit ==> resolved(limits, features, url, answers)
            == Some(announced(features, answers[limits.retry_limit as int])) && is_server_error(
            answers[limits.retry_limit as int].head.status,
        ),
{
    lemma_retry_limit(limits, url, Seq::empty(), heads_of(answers));
}

/// A chain of no more redirects than the limit allows resolves as the
/// success at its end is announced; a longer chain fails for too many
/// redirects. This holds where every target can be read against the
/// address before it.
pub proof fn lemma_redirect_limit_resolved(
    limits: RetrieverView,
    features: Features,
    url: Seq<char>,
    answers: Seq<AnswerView>,
)
    requires
        is_redirect_chain(heads_of(answers)),
    ensures
        resolves(url, heads_of(answers), 0) && answers.len() - 1 <= limits.redirect_limit
            ==> resolved(limits, features, url, answers) == Some(
            announced(features, answers.last()),
        ),
        resolves(url, heads_of(answers), 0) && answers.len() - 1 > limits.redirect_limit
            ==> resolved(limits, features, url, answers) == Some(
            Err::<Seq<char>, HttpError>(HttpError::TooManyRedirects),
        ),
{
    lemma_redirect_limit(limits, url, Seq::empty(), heads_of(answers));
}

/// Whether neither the kind and size of an image nor the type and size of
/// a response are to be reported.
pub open spec fn reports_nothing(features: Features) -> bool {
    !features.report_metadata && !features.report_mime
}

/// Where nothing but titles is reported, the download of an empty body,
/// wherever it stands, ends with the title that the empty text holds as a
/// page, if it holds one, and else with nothing.
pub proof fn lemma_empty_from(d: DownloadView, features: Features, at: int)
    requires
        reports_nothing(features),
        d.body.len() == 0,
        d.chunks < CHUNKS_MAX,
        0 <= at,
    ensures
        extraction(d, features, Seq::empty(), at) == page_title(utf8_lossy(Seq::empty())),
    decreases CHUNKS_MAX - d.chunks,
{
    let nothing = Seq::<u8>::empty();
    assert(chunk_at(nothing, at) =~= nothing);
    assert(taken(nothing) =~= nothing);
    assert(d.body + nothing =~= nothing);
    match d.fed(features, chunk_at(nothing, at)) {
        ProgressView::More(next) => {
            lemma_empty_from(next, features, at + CHUNK_BYTES);
        },
        _ => {},
    }
}

/// An answer with an empty body has no title, unless the empty text holds
/// one as a page or the type and size of the answer are to be reported.
pub proof fn lemma_empty_answer(features: Features, answer: AnswerView)
    requires
        reports_nothing(features),
        answer.body.len() == 0,
    ensures
        page_title(utf8_lossy(Seq::empty())).is_none() ==> announced(features, answer) == Err::<
            Seq<char>,
            HttpError,
        >(HttpError::NoTitle),
        page_title(utf8_lossy(Seq::empty())) matches Some(t) ==> announced(features, answer)
            == Ok::<Seq<char>, HttpError>(t),
{
    assert(answer.body =~= Seq::empty());
    lemma_empty_from(
        DownloadView::fresh(answer.content_type, answer.content_length),
        features,
        0,
    );
}

/// When the server goes on failing beyond the retry limit and its last
/// answer is empty, the link does not resolve: the answer at which no
/// retry was left is handed on, and being empty it has no title. This
/// holds where nothing but titles is reported and the empty text holds no
/// title as a page.
pub proof fn lemma_spent_retries_fail(
    limits: RetrieverView,
    features: Features,
    url: Seq<char>,
    answers: Seq<AnswerView>,
)
    requires
        is_error_run(heads_of(answers)),
        answers.len() - 1 > limits.retry_limit,
        answers[limits.retry_limit as int].body.len() == 0,
        reports_nothing(features),
    ensures
        page_title(utf8_lossy(Seq::empty())).is_none() ==> resolved(limits, features, url, answers)
            == Some(Err::<Seq<char>, HttpError>(HttpError::NoTitle)),
{
    lemma_retry_limit_resolved(limits, features, url, answers);
    lemma_empty_answer(features, answers[limits.retry_limit as int]);
}

} // verus!
