use url_bot_rs::config::Rtd;
use url_bot_rs::http;
use url_bot_rs::http::{
    choose_title, Answer, classify, get_title, replay, valid_header_value, ContentKind, Download,
    HttpError, Progress, Replay, Request, ResponseHead, RetrieverBuilder, Step, CHUNKS_MAX,
    CHUNK_BYTES, DEFAULT_USER_AGENT,
};
use url_bot_rs::title::Mime;

/// One recorded answer of a server: the head, and the body after it.
fn answer(status: u16, location: Option<&str>, cookies: &[&str], body: &str) -> (ResponseHead, String) {
    (
        ResponseHead {
            status,
            location: location.map(String::from),
            set_cookies: cookies.iter().map(|c| c.to_string()).collect(),
        },
        body.to_string(),
    )
}

/// Resolves `url` against a server that gives the recorded answers, one per
/// request.
fn resolve_url(url: &str, rtd: &Rtd, answers: &[(ResponseHead, String)]) -> Result<String, HttpError> {
    let answers: Vec<Answer> = answers
        .iter()
        .map(|a| Answer {
            head: a.0.clone(),
            content_type: None,
            content_length: None,
            body: a.1.clone().into_bytes(),
        })
        .collect();
    match http::resolve_url(url, rtd, &answers) {
        Some(outcome) => outcome,
        None => panic!("the server was asked more often than it was to answer"),
    }
}

fn redirect_limit_n(n: u8, status: u16) -> Result<String, HttpError> {
    let url = "http://127.0.0.1:28270/rlim";
    let mut answers = Vec::new();

    // send redirections
    for _ in 1..n {
        answers.push(answer(status, Some(url), &[], ""));
    }

    // send success
    answers.push(answer(200, None, &[], "<title>hello<title>"));

    resolve_url(url, &Rtd::new().init_http_client().unwrap(), &answers)
}

fn redirect_limit_with_status(status: u16) {
    redirect_limit_n(1, status).unwrap();
    redirect_limit_n(10, status).unwrap();
    // ten redirects, then the success: the limit of ten allows them
    redirect_limit_n(11, status).unwrap();
    // the eleventh redirect is one too many
    assert!(redirect_limit_n(12, status).is_err());
}

#[test]
fn redirect_limit() {
    redirect_limit_with_status(301); // 301 Moved Permanently https://http.cat/301
    redirect_limit_with_status(302); // 302 Found https://http.cat/302
    redirect_limit_with_status(307); // 307 Temporary Redirect https://http.cat/307
}

#[test]
fn redirect_limit_fails_for_too_many_redirects() {
    assert_eq!(redirect_limit_n(12, 301), Err(HttpError::TooManyRedirects));
    assert_eq!(redirect_limit_n(13, 308), Err(HttpError::TooManyRedirects));
    assert_eq!(redirect_limit_n(11, 303), Ok(String::from("hello<title>")));
    assert_eq!(redirect_limit_n(9, 303), Ok(String::from("hello<title>")));
}

#[test]
fn redirect_absolute_location() {
    let url = "http://127.0.0.1:28280/r_abs";
    let url2 = "http://127.0.0.1:28280/r_abs_r";
    let rtd = Rtd::new().init_http_client().unwrap();

    let session = rtd.get_client().unwrap().request(url);
    assert_eq!(session.request().url, url);
    let head = answer(301, Some(url2), &[], "").0;
    match session.receive(&head) {
        Step::Again { session, delay_s } => {
            assert_eq!(delay_s, 0);
            assert_eq!(session.request().url, url2);
        }
        other => panic!("{:?}", other),
    }

    let answers = [
        answer(301, Some(url2), &[], ""),
        answer(200, None, &[], "<title>hello</title>"),
    ];
    assert_eq!(resolve_url(url, &rtd, &answers), Ok(String::from("hello")));
}

#[test]
fn redirect_relative_location() {
    let url = "http://127.0.0.1:28278/r_rel";
    let rtd = Rtd::new().init_http_client().unwrap();

    let session = rtd.get_client().unwrap().request(url);
    let head = answer(301, Some("/r_rel_r"), &[], "").0;
    match session.receive(&head) {
        Step::Again { session, .. } => {
            assert_eq!(session.request().url, "http://127.0.0.1:28278/r_rel_r");
        }
        other => panic!("{:?}", other),
    }

    let session = rtd.get_client().unwrap().request("http://example.com/a/b/c?d=e");
    let head = answer(302, Some("../x"), &[], "").0;
    match session.receive(&head) {
        Step::Again { session, .. } => {
            assert_eq!(session.request().url, "http://example.com/a/x");
        }
        other => panic!("{:?}", other),
    }

    let answers = [
        answer(301, Some("/r_rel_r"), &[], ""),
        answer(200, None, &[], "<title>hello</title>"),
    ];
    resolve_url(url, &rtd, &answers).unwrap();
}

#[test]
fn redirect_no_redirection_location_provided() {
    let url = "http://127.0.0.1:28288/rerr";
    let answers = [answer(301, None, &[], "<title>hello</title>")];

    assert!(resolve_url(url, &Rtd::new().init_http_client().unwrap(), &answers).is_err());
    assert_eq!(
        resolve_url(url, &Rtd::new().init_http_client().unwrap(), &answers),
        Err(HttpError::NoRedirectTarget(301))
    );
}

#[test]
fn redirect_to_what_is_no_address() {
    let rtd = Rtd::new().init_http_client().unwrap();
    let answers = [answer(301, Some("http://[nonsense"), &[], "")];
    assert_eq!(
        resolve_url("http://example.com/", &rtd, &answers),
        Err(HttpError::NoRedirectTarget(301))
    );
}

fn cookie_of(request: &Request) -> Option<String> {
    request
        .headers
        .iter()
        .find(|h| h.0 == "cookie")
        .map(|h| h.1.clone())
}

#[test]
fn redirect_with_cookie() {
    let url = "http://127.0.0.1:28286/rcookie";
    let rtd = Rtd::new().init_http_client().unwrap();

    let session = rtd.get_client().unwrap().request(url);
    assert_eq!(cookie_of(&session.request()), None);
    let head = answer(301, Some(url), &["c00k13=data"], "").0;
    match session.receive(&head) {
        Step::Again { session, .. } => {
            assert_eq!(cookie_of(&session.request()), Some(String::from("c00k13=data")));
        }
        other => panic!("{:?}", other),
    }

    let answers = [
        answer(301, Some(url), &["c00k13=data"], ""),
        answer(200, None, &[], "<title>hello<title>"),
    ];
    resolve_url(url, &rtd, &answers).unwrap();
}

fn test_retry_server_errors_n_status(n: usize, status: u16) -> Result<String, HttpError> {
    let url = "http://127.0.0.1:28268/serr";
    let mut rtd = Rtd::new();
    rtd.conf.http_params.max_retries = 2;
    rtd.conf.http_params.retry_delay_s = 1;
    rtd = rtd.init_http_client().unwrap();

    let mut answers = Vec::new();

    // return server errors
    for _ in 0..n {
        answers.push(answer(status, None, &[], ""));
    }

    // send success
    answers.push(answer(200, None, &[], "<title>hello<title>"));

    resolve_url(url, &rtd, &answers)
}

#[test]
fn test_retry_server_errors() {
    // 500 Internal Server Error https://http.cat/500
    test_retry_server_errors_n_status(1, 500).unwrap();
    test_retry_server_errors_n_status(2, 500).unwrap();
    assert!(test_retry_server_errors_n_status(3, 500).is_err());

    // 503 Service Unavailable https://http.cat/503
    test_retry_server_errors_n_status(1, 503).unwrap();
    test_retry_server_errors_n_status(2, 503).unwrap();
    assert!(test_retry_server_errors_n_status(3, 503).is_err());

    // 504 Gateway Timeout https://http.cat/504
    test_retry_server_errors_n_status(1, 504).unwrap();
    test_retry_server_errors_n_status(2, 504).unwrap();
    assert!(test_retry_server_errors_n_status(3, 504).is_err());
}

#[test]
fn retry_waits_and_asks_the_first_address_again() {
    let rtd = Rtd::new().init_http_client().unwrap();
    let url = "http://example.com/start";
    let session = rtd.get_client().unwrap().request(url);
    let moved = answer(302, Some("/moved"), &[], "").0;
    let session = match session.receive(&moved) {
        Step::Again { session, delay_s } => {
            assert_eq!(delay_s, 0);
            session
        }
        other => panic!("{:?}", other),
    };
    assert_eq!(session.request().url, "http://example.com/moved");
    let broken = answer(503, None, &["seen=yes; Path=/"], "").0;
    let session = match session.receive(&broken) {
        Step::Again { session, delay_s } => {
            assert_eq!(delay_s, 5);
            session
        }
        other => panic!("{:?}", other),
    };
    assert_eq!(session.request().url, url);
    assert_eq!(cookie_of(&session.request()), Some(String::from("seen=yes")));
}

#[test]
fn an_error_page_is_handed_on_when_no_retry_is_left() {
    let url = "http://example.com/";
    let rtd = Rtd::new().init_http_client().unwrap();
    let heads: Vec<ResponseHead> = (0..4).map(|_| answer(500, None, &[], "").0).collect();
    assert!(matches!(
        replay(rtd.get_client().unwrap().request(url), &heads),
        Replay::Delivered(3)
    ));
    let answers = [
        answer(500, None, &[], ""),
        answer(500, None, &[], ""),
        answer(500, None, &[], ""),
        answer(500, None, &[], "<title>sorry</title>"),
    ];
    assert_eq!(resolve_url(url, &rtd, &answers), Ok(String::from("sorry")));
}

#[test]
fn other_statuses_fail_with_the_status() {
    let rtd = Rtd::new().init_http_client().unwrap();
    for status in [100u16, 199, 300, 304, 305, 400, 404, 418, 499, 600, 999] {
        let answers = [answer(status, Some("/x"), &[], "<title>t</title>")];
        assert_eq!(
            resolve_url("http://example.com/", &rtd, &answers),
            Err(HttpError::Status(status))
        );
    }
    for status in [200u16, 204, 299] {
        let answers = [answer(status, None, &[], "<title>t</title>")];
        assert_eq!(resolve_url("http://example.com/", &rtd, &answers), Ok(String::from("t")));
    }
}

#[test]
fn verify_request_headers() {
    let rtd = Rtd::new().init_http_client().unwrap();
    let request = rtd.get_client().unwrap().request("http://127.0.0.1:28282/test").request();
    assert_eq!(request.url, "http://127.0.0.1:28282/test");
    assert_eq!(
        request.headers,
        vec![
            (String::from("user-agent"), String::from(DEFAULT_USER_AGENT)),
            (String::from("accept-language"), String::from("en")),
            (String::from("accept-encoding"), String::from("identity")),
        ]
    );
}

#[test]
fn request_with_headers_sends_them_last() {
    let retriever = RetrieverBuilder::new()
        .user_agent("agent/1")
        .accept_lang("de")
        .build()
        .unwrap();
    let extra = vec![(String::from("authorization"), String::from("bearer x"))];
    let session = retriever.request_with_headers("http://example.com/", extra);
    let head = answer(301, Some("/next"), &["a=1", "b=2", "a=3"], "").0;
    let session = match session.receive(&head) {
        Step::Again { session, .. } => session,
        other => panic!("{:?}", other),
    };
    assert_eq!(
        session.request().headers,
        vec![
            (String::from("user-agent"), String::from("agent/1")),
            (String::from("accept-language"), String::from("de")),
            (String::from("accept-encoding"), String::from("identity")),
            (String::from("cookie"), String::from("a=3; b=2")),
            (String::from("authorization"), String::from("bearer x")),
        ]
    );
}

#[test]
fn builder_sets_what_it_says() {
    let retriever = RetrieverBuilder::new()
        .timeout(7)
        .retry(1, 9)
        .redirect_limit(2)
        .accept_lang("en")
        .build()
        .unwrap();
    assert_eq!(retriever.timeout_secs(), Some(7));
    assert_eq!(RetrieverBuilder::new().build().unwrap().timeout_secs(), None);

    // a limit of two redirects: two are followed, a third is not
    let moved = answer(301, Some("/next"), &[], "").0;
    let heads = vec![moved.clone(), answer(200, None, &[], "").0];
    assert!(matches!(replay(retriever.request("http://e.com/"), &heads), Replay::Delivered(1)));
    let heads = vec![moved.clone(), moved.clone(), answer(200, None, &[], "").0];
    assert!(matches!(replay(retriever.request("http://e.com/"), &heads), Replay::Delivered(2)));
    let heads = vec![moved.clone(), moved.clone(), moved.clone(), answer(200, None, &[], "").0];
    assert!(matches!(
        replay(retriever.request("http://e.com/"), &heads),
        Replay::Failed(HttpError::TooManyRedirects, 2)
    ));

    // one retry, after nine seconds
    let broken = answer(500, None, &[], "").0;
    match retriever.request("http://e.com/").receive(&broken) {
        Step::Again { session, delay_s } => {
            assert_eq!(delay_s, 9);
            assert!(matches!(session.receive(&broken), Step::Done));
        }
        other => panic!("{:?}", other),
    }

    // without retries a server error is handed on at once
    let plain = RetrieverBuilder::new().build().unwrap();
    assert!(matches!(plain.request("http://e.com/").receive(&broken), Step::Done));

    // a limit of no redirect at all still lets a plain answer through
    let none = RetrieverBuilder::new().redirect_limit(0).build().unwrap();
    let heads = vec![answer(200, None, &[], "").0];
    assert!(matches!(replay(none.request("http://e.com/"), &heads), Replay::Delivered(0)));
    let heads = vec![moved, answer(200, None, &[], "").0];
    assert!(matches!(
        replay(none.request("http://e.com/"), &heads),
        Replay::Failed(HttpError::TooManyRedirects, 0)
    ));
}

#[test]
fn builder_refuses_values_that_are_no_headers() {
    assert!(matches!(
        RetrieverBuilder::new().accept_lang("e\nn").build(),
        Err(HttpError::InvalidHeader)
    ));
    assert!(matches!(
        RetrieverBuilder::new().user_agent("\u{0}").build(),
        Err(HttpError::InvalidHeader)
    ));
    assert!(valid_header_value("plain, with a\ttab and \u{fc}"));
    assert!(valid_header_value(""));
    assert!(!valid_header_value("del\u{7f}"));
    assert!(!valid_header_value("line\r"));
}

#[test]
fn replay_without_answers_waits() {
    let rtd = Rtd::new().init_http_client().unwrap();
    let heads: Vec<ResponseHead> = Vec::new();
    match replay(rtd.get_client().unwrap().request("http://example.com/"), &heads) {
        Replay::Waiting(session) => assert_eq!(session.request().url, "http://example.com/"),
        other => panic!("{:?}", other),
    }
}

#[test]
fn errors_in_words() {
    let url = "http://127.0.0.1:8084/empty";
    assert_eq!(
        HttpError::NoTitle.message(url),
        "http://127.0.0.1:8084/empty: failed to parse title"
    );
    assert_eq!(HttpError::Status(404).message(url), "unhandled request status: 404");
    assert_eq!(HttpError::NoRedirectTarget(301).message(url), "redirect without a target: 301");
    assert_eq!(HttpError::TooManyRedirects.message(url), "too many redirects");
    assert_eq!(HttpError::NoClient.message(url), "HTTP client not initialised");
    assert_eq!(HttpError::InvalidHeader.message(url), "invalid header value");
}

#[test]
fn content_is_told_apart_by_its_type() {
    assert_eq!(classify(&None), ContentKind::Page);
    assert_eq!(classify(&Mime::parse("text/html")), ContentKind::Page);
    assert_eq!(classify(&Mime::parse("text/html; charset=utf8")), ContentKind::Page);
    assert_eq!(classify(&Mime::parse("TEXT/HTML")), ContentKind::Page);
    assert_eq!(classify(&Mime::parse("text/plain")), ContentKind::Other);
    assert_eq!(classify(&Mime::parse("image/png")), ContentKind::Image);
    assert_eq!(classify(&Mime::parse("image/svg+xml")), ContentKind::Image);
    assert_eq!(classify(&Mime::parse("application/pdf")), ContentKind::Other);
}

#[test]
fn title_comes_first_whatever_the_type() {
    let mut rtd = Rtd::new();
    rtd.conf.features.report_mime = true;
    rtd.conf.features.report_metadata = true;
    let page = b"<html><title>basic</title></html>";
    for ctype in [None, Some("text/html"), Some("image/png"), Some("application/pdf")] {
        assert_eq!(get_title(&rtd, ctype, Some(33), page), Ok(String::from("basic")));
    }
}

#[test]
fn what_is_no_page_is_told_by_type_and_size() {
    let mut rtd = Rtd::new();
    let body = b"%PDF-1.4 and so on";
    assert_eq!(
        get_title(&rtd, Some("application/pdf"), Some(1341), body),
        Err(HttpError::NoTitle)
    );
    rtd.conf.features.report_mime = true;
    assert_eq!(
        get_title(&rtd, Some("application/pdf"), Some(1341), body),
        Ok(String::from("application/pdf 1.31KB"))
    );
    assert_eq!(
        get_title(&rtd, Some("text/plain; charset=utf8"), Some(16), b"sixteen bytes...".as_slice()),
        Ok(String::from("text/plain; charset=utf8 16B"))
    );
    assert_eq!(
        get_title(&rtd, Some("application/zip"), None, b"PK".as_slice()),
        Ok(String::from("application/zip 0B"))
    );
    // a page without a title stays without one, and so does an unknown type
    assert_eq!(get_title(&rtd, Some("text/html"), Some(4), b"text".as_slice()), Err(HttpError::NoTitle));
    assert_eq!(get_title(&rtd, None, Some(4), b"text".as_slice()), Err(HttpError::NoTitle));
    assert_eq!(get_title(&rtd, Some("nonsense"), Some(4), b"text".as_slice()), Err(HttpError::NoTitle));
}

#[test]
fn an_image_is_told_by_kind_and_size_then_by_type() {
    let picture = image::DynamicImage::new_rgb8(40, 20);
    let mut bytes = std::io::Cursor::new(Vec::new());
    picture.write_to(&mut bytes, image::ImageFormat::Png).unwrap();
    let body = bytes.into_inner();
    let len = body.len() as u64;

    let mut rtd = Rtd::new();
    assert_eq!(get_title(&rtd, Some("image/png"), Some(len), &body), Err(HttpError::NoTitle));
    rtd.conf.features.report_metadata = true;
    assert_eq!(
        get_title(&rtd, Some("image/png"), Some(len), &body),
        Ok(String::from("image/png 40\u{d7}20"))
    );
    // the kind is read from the bytes, not from the declared type
    assert_eq!(
        get_title(&rtd, Some("image/gif"), Some(len), &body),
        Ok(String::from("image/png 40\u{d7}20"))
    );
    // an image that cannot be read falls back to its declared type
    rtd.conf.features.report_mime = true;
    assert_eq!(
        get_title(&rtd, Some("image/svg+xml"), Some(100), b"<svg/>".as_slice()),
        Ok(String::from("image/svg+xml 100B"))
    );
    // what is no image is not looked at as one
    assert_eq!(
        get_title(&rtd, Some("application/octet-stream"), Some(len), &body),
        Ok(format!("application/octet-stream {}B", len))
    );
}

#[test]
fn bytes_that_are_no_text_do_not_hide_a_title() {
    let rtd = Rtd::new();
    let mut body = vec![0xff, 0xfe, 0x80];
    body.extend_from_slice(b"<title>caf\xe9 \xc3\xa9</title>");
    assert_eq!(
        get_title(&rtd, None, None, &body),
        Ok(String::from("caf\u{fffd} \u{e9}"))
    );
}

#[test]
fn a_title_in_the_first_chunk_ends_the_download() {
    let rtd = Rtd::new();
    let download = Download::new(Some("text/html"), None);
    assert_eq!(download.buffered(), 0);
    match download.feed(&rtd, b"<html><head><title>early</title>") {
        Progress::Found(t) => assert_eq!(t, "early"),
        other => panic!("{:?}", other),
    }
}

#[test]
fn a_title_in_a_later_chunk_is_found_there() {
    let rtd = Rtd::new();
    let mut download = Download::new(Some("text/html"), None);
    for _ in 0..3 {
        download = match download.feed(&rtd, b"<!-- nothing yet -->") {
            Progress::More(d) => d,
            other => panic!("{:?}", other),
        };
    }
    assert_eq!(download.buffered(), 60);
    match download.feed(&rtd, b"<title>late</title>") {
        Progress::Found(t) => assert_eq!(t, "late"),
        other => panic!("{:?}", other),
    }
}

#[test]
fn a_title_split_over_two_chunks_is_found_in_the_second() {
    let rtd = Rtd::new();
    let download = Download::new(None, None);
    let download = match download.feed(&rtd, b"<html><head><meta charset") {
        Progress::More(d) => d,
        other => panic!("{:?}", other),
    };
    match download.feed(&rtd, b"=\"utf8\"><title>whole</title>") {
        Progress::Found(t) => assert_eq!(t, "whole"),
        other => panic!("{:?}", other),
    }
}

#[test]
fn the_download_gives_up_after_the_last_chunk() {
    let rtd = Rtd::new();
    let mut download = Download::new(None, None);
    for i in 1..CHUNKS_MAX {
        download = match download.feed(&rtd, b"x") {
            Progress::More(d) => d,
            other => panic!("{:?}", other),
        };
        assert_eq!(download.buffered(), i);
    }
    assert!(matches!(download.feed(&rtd, b"x"), Progress::GiveUp));
}

#[test]
fn no_more_than_a_chunk_is_taken_at_a_time() {
    let rtd = Rtd::new();
    let download = Download::new(None, None);
    let mut big = vec![b' '; CHUNK_BYTES];
    big.extend_from_slice(b"<title>beyond</title>");
    match download.feed(&rtd, &big) {
        Progress::More(d) => assert_eq!(d.buffered(), CHUNK_BYTES),
        other => panic!("{:?}", other),
    }
}

#[test]
fn get_title_goes_through_the_body_in_chunks() {
    let rtd = Rtd::new();
    // in the third chunk
    let mut body = vec![b' '; 2 * CHUNK_BYTES + 5];
    body.extend_from_slice(b"<title>third</title>");
    assert_eq!(get_title(&rtd, None, None, &body), Ok(String::from("third")));
    // beyond the last chunk
    let mut body = vec![b' '; CHUNKS_MAX * CHUNK_BYTES];
    body.extend_from_slice(b"<title>never</title>");
    assert_eq!(get_title(&rtd, None, None, &body), Err(HttpError::NoTitle));
    // nothing at all
    assert_eq!(get_title(&rtd, None, None, b"".as_slice()), Err(HttpError::NoTitle));
}

/// What a file server would send for a file: its type by its name, and its
/// bytes.
fn served_file(name: &str) -> (&'static str, Vec<u8>) {
    let picture = |format: image::ImageFormat, width: u32, height: u32| {
        let mut bytes = std::io::Cursor::new(Vec::new());
        image::DynamicImage::new_rgb8(width, height)
            .write_to(&mut bytes, format)
            .unwrap();
        bytes.into_inner()
    };
    match name {
        "test/img/test.png" => ("image/png", picture(image::ImageFormat::Png, 800, 400)),
        "test/img/test.jpg" => ("image/jpeg", picture(image::ImageFormat::Jpeg, 400, 200)),
        "test/img/test.gif" => {
            let mut bytes = b"GIF89a".to_vec();
            bytes.extend_from_slice(&1920u16.to_le_bytes());
            bytes.extend_from_slice(&1080u16.to_le_bytes());
            bytes.extend_from_slice(&[0x80, 0, 0, 0, 0, 0, 0xff, 0xff, 0xff]);
            bytes.extend_from_slice(&[0x2c, 0, 0, 0, 0, 1, 0, 1, 0, 0]);
            bytes.extend_from_slice(&[2, 2, 0x44, 1, 0, 0x3b]);
            ("image/gif", bytes)
        }
        "test/html/basic.html" => (
            "text/html; charset=utf8",
            b"<!DOCTYPE html>\n<html>\n<head>\n<title>basic</title>\n</head>\n</html>\n".to_vec(),
        ),
        "test/other/test.pdf" => {
            let mut bytes = b"%PDF-1.4\n".to_vec();
            bytes.resize(1341, b' ');
            ("application/pdf", bytes)
        }
        "test/other/test.txt" => ("text/plain; charset=utf8", b"sixteen bytes..\n".to_vec()),
        _ => panic!("no such file: {}", name),
    }
}

fn resolve_file(name: &str, rtd: &Rtd) -> Result<String, HttpError> {
    let (ctype, body) = served_file(name);
    let url = format!("http://127.0.0.1:28482/{}", name);
    let session = rtd.get_client()?.request(&url);
    let head = answer(200, None, &[], "").0;
    match session.receive(&head) {
        Step::Done => get_title(rtd, Some(ctype), Some(body.len() as u64), &body),
        other => panic!("{:?}", other),
    }
}

#[test]
fn resolve_locally_served_files() {
    let files_no_meta = vec![
        "test/img/test.gif",
        "test/other/test.txt",
        "test/other/test.pdf",
    ];

    let files_meta = vec![
        ("test/img/test.png", "image/png 800\u{d7}400"),
        ("test/img/test.jpg", "image/jpeg 400\u{d7}200"),
        ("test/img/test.gif", "image/gif 1920\u{d7}1080"),
        ("test/html/basic.html", "basic"),
        ("test/other/test.pdf", "application/pdf 1.31KB"),
        ("test/other/test.txt", "text/plain; charset=utf8 16B"),
    ];

    let mut rtd: Rtd = Rtd::new().init_http_client().unwrap();

    // metadata and mime disabled
    rtd.conf.features.report_metadata = false;
    rtd.conf.features.report_mime = false;

    for t in files_no_meta {
        assert!(resolve_file(t, &rtd).is_err());
    }

    // metadata and mime enabled
    rtd.conf.features.report_metadata = true;
    rtd.conf.features.report_mime = true;

    for t in files_meta {
        assert_eq!(resolve_file(t.0, &rtd).unwrap(), String::from(t.1))
    }
}

#[test]
fn a_redirect_is_followed_to_the_target_that_was_read() {
    let retriever = RetrieverBuilder::new().redirect_limit(3).build().unwrap();
    let session = retriever.request("http://example.com/");
    let session = match session.redirected(301, Some(String::from("http://example.org/a"))) {
        Step::Again { session, delay_s } => {
            assert_eq!(delay_s, 0);
            assert_eq!(session.request().url, "http://example.org/a");
            session
        }
        other => panic!("{:?}", other),
    };
    let session = match session.redirected(302, Some(String::from("http://example.org/b"))) {
        Step::Again { session, .. } => session,
        other => panic!("{:?}", other),
    };
    let session = match session.redirected(302, Some(String::from("http://example.org/c"))) {
        Step::Again { session, .. } => session,
        other => panic!("{:?}", other),
    };
    // three redirects are the limit: the fourth fails
    assert!(matches!(
        session.redirected(301, Some(String::from("http://example.org/d"))),
        Step::Failed(HttpError::TooManyRedirects)
    ));
    // a target that was not read
    let session = retriever.request("http://example.com/");
    assert!(matches!(
        session.redirected(307, None),
        Step::Failed(HttpError::NoRedirectTarget(307))
    ));
}

#[test]
fn every_retrieval_comes_to_an_end() {
    // chains of two redirects, two retries: three requests to a chain,
    // three chains, nine requests at most
    let retriever = RetrieverBuilder::new()
        .redirect_limit(2)
        .retry(2, 0)
        .build()
        .unwrap();
    let moved = answer(302, Some("/on"), &[], "").0;
    let broken = answer(500, None, &[], "").0;

    // the longest way: each attempt is redirected twice before it breaks,
    // and the last is redirected once too often
    let mut heads = Vec::new();
    for _ in 0..2 {
        heads.extend([moved.clone(), moved.clone(), broken.clone()]);
    }
    heads.extend([moved.clone(), moved.clone(), moved.clone(), moved.clone()]);
    assert!(matches!(
        replay(retriever.request("http://example.com/"), &heads),
        Replay::Failed(HttpError::TooManyRedirects, 8)
    ));

    // nothing but errors: the third is handed on
    let heads = vec![broken.clone(); 9];
    assert!(matches!(
        replay(retriever.request("http://example.com/"), &heads),
        Replay::Delivered(2)
    ));

    // nothing but redirects: the third fails
    let heads = vec![moved.clone(); 9];
    assert!(matches!(
        replay(retriever.request("http://example.com/"), &heads),
        Replay::Failed(HttpError::TooManyRedirects, 2)
    ));
}

#[test]
fn what_is_announced_is_chosen_by_kind() {
    let t = |s: &str| Some(s.to_string());
    for kind in [ContentKind::Page, ContentKind::Image, ContentKind::Other] {
        assert_eq!(choose_title(kind, t("page"), t("image"), t("report")), t("page"));
        assert_eq!(choose_title(kind, t("page"), None, None), t("page"));
    }
    assert_eq!(choose_title(ContentKind::Page, None, t("image"), t("report")), None);
    assert_eq!(choose_title(ContentKind::Image, None, t("image"), t("report")), t("image"));
    assert_eq!(choose_title(ContentKind::Image, None, None, t("report")), t("report"));
    assert_eq!(choose_title(ContentKind::Image, None, None, None), None);
    assert_eq!(choose_title(ContentKind::Other, None, t("image"), t("report")), t("report"));
    assert_eq!(choose_title(ContentKind::Other, None, t("image"), None), None);
}

#[test]
fn a_link_resolves_against_answers_at_hand() {
    let rtd = Rtd::new().init_http_client().unwrap();
    let page = |status: u16, location: Option<&str>, ctype: Option<&str>, body: &[u8]| Answer {
        head: answer(status, location, &[], "").0,
        content_type: ctype.map(String::from),
        content_length: Some(body.len() as u64),
        body: body.to_vec(),
    };
    let answers = vec![
        page(302, Some("/a"), None, b"<title>moved</title>"),
        page(503, None, Some("text/html"), b"<title>down</title>"),
        page(301, Some("/b"), None, b""),
        page(200, None, Some("text/html"), b"<title>there</title>"),
        page(200, None, Some("text/html"), b"<title>never asked</title>"),
    ];
    assert_eq!(
        http::resolve_url("http://example.com/", &rtd, &answers),
        Some(Ok(String::from("there")))
    );
    // the answers run out before the retrieval ends
    assert_eq!(http::resolve_url("http://example.com/", &rtd, &answers[..3].to_vec()), None);
    assert_eq!(http::resolve_url("http://example.com/", &rtd, &vec![]), None);
    // a failure of the retrieval is the failure of the whole
    let answers = vec![page(404, None, Some("text/html"), b"<title>not found</title>")];
    assert_eq!(
        http::resolve_url("http://example.com/", &rtd, &answers),
        Some(Err(HttpError::Status(404)))
    );
    // without a retriever nothing is asked
    assert_eq!(
        http::resolve_url("http://example.com/", &Rtd::new(), &answers),
        Some(Err(HttpError::NoClient))
    );
}

#[test]
fn spent_retries_end_in_the_last_error() {
    let mut rtd = Rtd::new();
    rtd.conf.http_params.max_retries = 2;
    let rtd = rtd.init_http_client().unwrap();
    let broken = |body: &[u8]| Answer {
        head: answer(500, None, &[], "").0,
        content_type: Some(String::from("text/html")),
        content_length: Some(body.len() as u64),
        body: body.to_vec(),
    };
    let fine = Answer {
        head: answer(200, None, &[], "").0,
        content_type: Some(String::from("text/html")),
        content_length: None,
        body: b"<title>hello</title>".to_vec(),
    };
    // within the budget: the success is announced
    let answers = vec![broken(b""), broken(b""), fine.clone()];
    assert_eq!(
        http::resolve_url("http://example.com/", &rtd, &answers),
        Some(Ok(String::from("hello")))
    );
    // beyond it: the third error is handed on, and an empty one has no title
    let answers = vec![broken(b""), broken(b""), broken(b""), fine.clone()];
    assert_eq!(
        http::resolve_url("http://example.com/", &rtd, &answers),
        Some(Err(HttpError::NoTitle))
    );
    // an error page with a title is announced by it
    let answers = vec![broken(b""), broken(b""), broken(b"<title>sorry</title>"), fine];
    assert_eq!(
        http::resolve_url("http://example.com/", &rtd, &answers),
        Some(Ok(String::from("sorry")))
    );
}
