//! What a response says of itself: the title of a page, the size of an
//! image, or the bare type and length.

use crate::config::Rtd;
use crate::text::{
    decimal, from_chars, is_blank, is_tidy, join_with_spaces, lemma_blank_has_no_words,
    lemma_single_spaced, opt_view, push_decimal, single_spaced, split_words, to_chars, words,
};
use vstd::prelude::*;

verus! {

/// What a media type is made of.
pub struct MimeParts {
    /// The whole type as it is written, parameters included.
    pub text: Seq<char>,
    /// The top-level type, such as `text`.
    pub type_: Seq<char>,
    /// The subtype, such as `html`.
    pub subtype: Seq<char>,
}

/// A parsed media type.
#[derive(Clone, Debug)]
pub struct Mime {
    text: String,
    type_: String,
    subtype: String,
}

impl View for Mime {
    type V = MimeParts;

    closed spec fn view(&self) -> MimeParts {
        MimeParts { text: self.text@, type_: self.type_@, subtype: self.subtype@ }
    }
}

/// The view of an optional media type.
pub open spec fn mime_view(m: Option<Mime>) -> Option<MimeParts> {
    match m {
        Some(t) => Some(t@),
        None => None,
    }
}

/// What the `mime` crate makes of a media type written as `s`: its parts,
/// or `None` where `s` is no media type.
pub uninterp spec fn parsed_mime(s: Seq<char>) -> Option<MimeParts>;

/// Calls `str::parse::<mime::Mime>` and copies out the text, the top-level
/// type and the subtype of the result. The contract claims only that the
/// outcome is a function of `s`.
#[verifier::external_body]
fn parse_media_type(s: &str) -> (r: Option<Mime>)
    ensures
        mime_view(r) == parsed_mime(s@),
{
    match s.parse::<mime::Mime>() {
        Ok(m) => Some(Mime {
            text: m.to_string(),
            type_: m.type_().as_str().to_string(),
            subtype: m.subtype().as_str().to_string(),
        }),
        Err(_) => None,
    }
}

impl Mime {
    /// Parses a media type, such as the value of a `Content-Type` header.
    pub fn parse(s: &str) -> (r: Option<Mime>)
        ensures
            r.is_some() == parsed_mime(s@).is_some(),
            r matches Some(m) ==> Some(m@) == parsed_mime(s@),
    {
        parse_media_type(s)
    }

    /// The whole type as it is written.
    pub fn as_str(&self) -> (r: &str)
        ensures
            r@ == self@.text,
    {
        self.text.as_str()
    }

    /// The top-level type.
    pub fn type_(&self) -> (r: &str)
        ensures
            r@ == self@.type_,
    {
        self.type_.as_str()
    }

    /// The subtype.
    pub fn subtype(&self) -> (r: &str)
        ensures
            r@ == self@.subtype,
    {
        self.subtype.as_str()
    }
}

/// `s` without its spaces.
pub open spec fn without_spaces(s: Seq<char>) -> Seq<char> {
    s.filter(|c: char| c != ' ')
}

/// The type and size of a response in words: the media type, a space, and
/// the size without its spaces.
pub open spec fn mime_line(mime: Seq<char>, size: Seq<char>) -> Seq<char> {
    mime + seq![' '] + without_spaces(size)
}

/// The type and size of a response in words.
pub fn format_mime(mime: &str, size: &str) -> (r: String)
    ensures
        r@ == mime_line(mime@, size@),
{
    let mut out = to_chars(mime);
    out.push(' ');
    let chars = to_chars(size);
    let ghost head = out@;
    let ghost keep = |c: char| c != ' ';
    let mut i: usize = 0;
    assert(chars@.take(0).filter(keep) =~= Seq::<char>::empty()) by {
        reveal(Seq::filter);
    }
    while i < chars.len()
        invariant
            i <= chars.len(),
            chars@ == size@,
            head == mime@ + seq![' '],
            keep == |c: char| c != ' ',
            out@ == head + chars@.take(i as int).filter(keep),
        decreases chars.len() - i,
    {
        proof {
            let now = chars@.take(i + 1);
            assert(now.drop_last() == chars@.take(i as int));
            reveal(Seq::filter);
        }
        if chars[i] != ' ' {
            out.push(chars[i]);
        }
        i += 1;
    }
    assert(chars@.take(chars.len() as int) == chars@);
    from_chars(&out)
}

/// The type and size of a response in words, where the configuration asks
/// for them.
pub fn get_mime(rtd: &Rtd, mime: &Mime, size: &str) -> (r: Option<String>)
    ensures
        opt_view(r) == if rtd.conf.features.report_mime {
            Some(mime_line(mime@.text, size@))
        } else {
            None
        },
{
    if rtd.conf.features.report_mime {
        Some(format_mime(mime.as_str(), size))
    } else {
        None
    }
}

/// The title as it is announced: the words of the title's text with one
/// space between each two; none where the text has no word.
pub open spec fn tidy(raw: Seq<char>) -> Option<Seq<char>> {
    if words(raw).len() == 0 {
        None
    } else {
        Some(single_spaced(raw))
    }
}

/// The title as it is announced: any run of white space in `raw`, line
/// breaks included, becomes one space, and none stays at either end. A
/// text without a word gives no title.
pub fn tidy_title(raw: &str) -> (r: Option<String>)
    ensures
        opt_view(r) == tidy(raw@),
{
    let ws = split_words(&to_chars(raw));
    if ws.len() == 0 {
        None
    } else {
        let line = join_with_spaces(&ws);
        Some(from_chars(&line))
    }
}

/// The selector that finds the title of a page.
pub const TITLE_SELECTOR: &'static str = "title";

/// The text inside the first element of the HTML document `page` that the
/// selector `selector` selects, as the `scraper` crate reads it, entities
/// decoded; `None` where the document has no such element or `selector` is
/// no selector.
pub uninterp spec fn selected_text(page: Seq<char>, selector: Seq<char>) -> Option<Seq<char>>;

/// The text inside the first `title` element of the HTML document `page`;
/// `None` where the document has no such element.
pub open spec fn html_title_text(page: Seq<char>) -> Option<Seq<char>> {
    selected_text(page, TITLE_SELECTOR@)
}

/// Calls `scraper::Html::parse_document` and `scraper::Selector::parse`,
/// selects, and collects the text of the first element found. The contract
/// claims only that the outcome is a function of `page` and `selector`.
#[verifier::external_body]
fn first_selected_text(page: &str, selector: &str) -> (r: Option<String>)
    ensures
        opt_view(r) == selected_text(page@, selector@),
{
    let document = scraper::Html::parse_document(page);
    match scraper::Selector::parse(selector) {
        Ok(selector) => document.select(&selector).next().map(|n| n.text().collect()),
        Err(_) => None,
    }
}

/// The title of an HTML page, as it is announced.
pub open spec fn page_title(page: Seq<char>) -> Option<Seq<char>> {
    match html_title_text(page) {
        Some(raw) => tidy(raw),
        None => None,
    }
}

/// The title of the HTML page `page_contents`: the text of its first
/// `title` element, tidied; none where there is no such element or its
/// text has no word.
pub fn parse_title(page_contents: &str) -> (r: Option<String>)
    ensures
        opt_view(r) == page_title(page_contents@),
{
    match first_selected_text(page_contents, TITLE_SELECTOR) {
        Some(raw) => tidy_title(raw.as_str()),
        None => None,
    }
}

/// The kinds of image that are told apart.
#[derive(Clone, Copy, Debug, PartialEq, Eq, Structural)]
pub enum ImageFormat {
    Png,
    Jpeg,
    Gif,
    Pnm,
    Tiff,
    Bmp,
    /// Any other kind that the decoder knows by its first bytes.
    Other,
}

/// The kind of image that `image::guess_format` takes the bytes `body`
/// for, by their beginning; `None` where it knows no kind that begins so.
pub uninterp spec fn guessed_format(body: Seq<u8>) -> Option<ImageFormat>;

/// The width and height that the `image` crate reads from the image
/// `body`, decoded as the kind that its beginning tells; `None` where it
/// knows no such kind or cannot read the size.
pub uninterp spec fn read_dimensions(body: Seq<u8>) -> Option<(u32, u32)>;

/// Calls `image::guess_format`, which compares the beginning of `body` with
/// a fixed table, and names the kind it finds. The contract claims only
/// that the outcome is a function of `body`.
#[verifier::external_body]
fn guess_image_format(body: &[u8]) -> (r: Option<ImageFormat>)
    ensures
        r == guessed_format(body@),
{
    image::guess_format(body).ok().map(|f| match f {
        image::ImageFormat::Png => ImageFormat::Png,
        image::ImageFormat::Jpeg => ImageFormat::Jpeg,
        image::ImageFormat::Gif => ImageFormat::Gif,
        image::ImageFormat::Pnm => ImageFormat::Pnm,
        image::ImageFormat::Tiff => ImageFormat::Tiff,
        image::ImageFormat::Bmp => ImageFormat::Bmp,
        _ => ImageFormat::Other,
    })
}

/// Calls `image::guess_format` and, with the kind it finds,
/// `image::ImageReader::with_format` on a cursor over `body` and
/// `ImageReader::into_dimensions`. The contract claims only that the
/// outcome is a function of `body`.
#[verifier::external_body]
fn image_dimensions(body: &[u8]) -> (r: Option<(u32, u32)>)
    ensures
        r == read_dimensions(body@),
{
    match image::guess_format(body) {
        Ok(format) => image::ImageReader::with_format(std::io::Cursor::new(body), format)
            .into_dimensions()
            .ok(),
        Err(_) => None,
    }
}

/// The media type of an image of the kind `format`.
pub open spec fn image_mime(format: ImageFormat) -> Option<Seq<char>> {
    match format {
        ImageFormat::Png => Some("image/png"@),
        ImageFormat::Jpeg => Some("image/jpeg"@),
        ImageFormat::Gif => Some("image/gif"@),
        ImageFormat::Pnm => Some("image/x-portable-anymap"@),
        ImageFormat::Tiff => Some("image/tiff"@),
        ImageFormat::Bmp => Some("image/bmp"@),
        ImageFormat::Other => None,
    }
}

/// The media type of an image of the kind `format`.
pub fn get_image_mime(format: ImageFormat) -> (r: Option<&'static str>)
    ensures
        r.is_some() == image_mime(format).is_some(),
        r matches Some(m) ==> Some(m@) == image_mime(format),
{
    match format {
        ImageFormat::Png => Some("image/png"),
        ImageFormat::Jpeg => Some("image/jpeg"),
        ImageFormat::Gif => Some("image/gif"),
        ImageFormat::Pnm => Some("image/x-portable-anymap"),
        ImageFormat::Tiff => Some("image/tiff"),
        ImageFormat::Bmp => Some("image/bmp"),
        ImageFormat::Other => None,
    }
}

/// What is said of an image of a known kind and size: its media type, a
/// space, and its width and height in pixels with the sign `×` between.
pub open spec fn image_line(format: Option<ImageFormat>, dimensions: Option<(u32, u32)>) -> Option<
    Seq<char>,
> {
    match (format, dimensions) {
        (Some(f), Some(d)) => match image_mime(f) {
            Some(m) => Some(
                m + seq![' '] + decimal(d.0 as nat) + seq!['\u{d7}'] + decimal(d.1 as nat),
            ),
            None => None,
        },
        _ => None,
    }
}

/// What is said of an image whose kind and size were read as `format` and
/// `dimensions`; nothing where either is missing or the kind is none of
/// those that are told.
pub fn describe_image(format: Option<ImageFormat>, dimensions: Option<(u32, u32)>) -> (r: Option<
    String,
>)
    ensures
        opt_view(r) == image_line(format, dimensions),
{
    match (format, dimensions) {
        (Some(f), Some(d)) => match get_image_mime(f) {
            Some(m) => {
                let mut out = to_chars(m);
                out.push(' ');
                push_decimal(&mut out, d.0 as u64);
                out.push('\u{d7}');
                push_decimal(&mut out, d.1 as u64);
                Some(from_chars(&out))
            },
            None => None,
        },
        _ => None,
    }
}

/// What is said of the image `body`, where the configuration asks for it.
pub open spec fn image_metadata(report_metadata: bool, body: Seq<u8>) -> Option<Seq<char>> {
    if report_metadata {
        image_line(guessed_format(body), read_dimensions(body))
    } else {
        None
    }
}

/// The kind and size of the image `body` in words, where the configuration
/// asks for them and they can be read.
pub fn get_image_metadata(rtd: &Rtd, body: &[u8]) -> (r: Option<String>)
    ensures
        opt_view(r) == image_metadata(rtd.conf.features.report_metadata, body@),
{
    if !rtd.conf.features.report_metadata {
        return None;
    }
    let format = guess_image_format(body);
    let dimensions = image_dimensions(body);
    describe_image(format, dimensions)
}

/// A title is never empty and always tidy: every run of white space in
/// the text it was made from, line breaks included, is one space in it,
/// none is left at its ends, and its words are the words of that text.
/// A text that is empty or all white space gives no title; any other text
/// gives one. Tidying a title again changes nothing.
pub proof fn lemma_tidy(raw: Seq<char>)
    ensures
        tidy(raw) matches Some(t) ==> t.len() > 0 && is_tidy(t) && words(t) == words(raw) && tidy(t)
            == Some(t),
        tidy(raw).is_none() == (words(raw).len() == 0),
        is_blank(raw) ==> tidy(raw).is_none(),
{
    lemma_single_spaced(raw);
    if is_blank(raw) {
        lemma_blank_has_no_words(raw);
    }
}

/// The title of a page is the tidied text of its first `title` element:
/// never empty, always tidy, with the words of that text. A page whose
/// `title` element is empty or all white space has no title, as one
/// without such an element has none.
pub proof fn lemma_page_title(page: Seq<char>)
    ensures
        page_title(page) matches Some(t) ==> t.len() > 0 && is_tidy(t) && html_title_text(
            page,
        ).is_some() && words(t) == words(html_title_text(page).unwrap()),
        html_title_text(page).is_none() ==> page_title(page).is_none(),
        html_title_text(page).is_some() && is_blank(html_title_text(page).unwrap()) ==> page_title(
            page,
        ).is_none(),
{
    match html_title_text(page) {
        Some(raw) => {
            lemma_tidy(raw);
        },
        None => {},
    }
}

} // verus!
