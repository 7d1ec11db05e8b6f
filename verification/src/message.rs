//! The message dispatcher: from one incoming chat line to the replies it
//! is owed.

use crate::text::{
    alphabetic, from_chars, has_prefix, push_all, push_str, slice_chars, split_words, to_chars,
    views, words,
};
use crate::config::{contains_text, texts, with_added, without_first, Conf, Connection, Features, Rtd};
use crate::history::{latest, Database, Earlier, NewLogEntry, Post, PrevPost};
use crate::text::same_text;
use crate::tld::{is_tld, tld_table};
use crate::url::{parsed_url, Url, UrlParts};
use vstd::prelude::*;
use vstd::utf8::{encode_scalar, encode_utf8};

verus! {

/// Whether `c` is one of the characters that may not stand in a URL on the
/// wire: `{ } | \ ^ ~ [ ] ` < > "`.
pub open spec fn is_unsafe_char(c: char) -> bool {
    c == '{' || c == '}' || c == '|' || c == '\\' || c == '^' || c == '~' || c == '[' || c == ']'
        || c == '`' || c == '<' || c == '>' || c == '"'
}

/// Whether `token` holds a character that may not stand in a URL.
pub fn contains_unsafe_chars(token: &str) -> (r: bool)
    ensures
        r == exists|i: int| 0 <= i < token@.len() && is_unsafe_char(#[trigger] token@[i]),
{
    let chars = to_chars(token);
    let mut i: usize = 0;
    while i < chars.len()
        invariant
            i <= chars.len(),
            chars@ == token@,
            forall|j: int| 0 <= j < i ==> !is_unsafe_char(#[trigger] token@[j]),
        decreases chars.len() - i,
    {
        let c = chars[i];
        if c == '{' || c == '}' || c == '|' || c == '\\' || c == '^' || c == '~' || c == '['
            || c == ']' || c == '`' || c == '<' || c == '>' || c == '"' {
            assert(is_unsafe_char(token@[i as int]));
            return true;
        }
        i += 1;
    }
    false
}

/// The number of bytes that `c` takes in UTF-8.
pub open spec fn utf8_width(c: char) -> nat {
    encode_scalar(c as u32).len()
}

/// The number of bytes that `s` takes in UTF-8.
pub open spec fn utf8_len(s: Seq<char>) -> nat {
    encode_utf8(s).len()
}

/// A character takes one to four bytes, by its code point.
pub proof fn lemma_utf8_width(c: char)
    ensures
        utf8_width(c) == if (c as u32) < 0x80 {
            1nat
        } else if (c as u32) < 0x800 {
            2nat
        } else if (c as u32) < 0x10000 {
            3nat
        } else {
            4nat
        },
{
    broadcast use vstd::utf8::char_is_scalar;

    assert(vstd::utf8::is_scalar(c as u32));
}

/// The bytes of a string with one more character are those of the string,
/// then those of the character.
pub proof fn lemma_utf8_len_push(s: Seq<char>, c: char)
    ensures
        encode_utf8(s.push(c)) == encode_utf8(s) + encode_scalar(c as u32),
        utf8_len(s.push(c)) == utf8_len(s) + utf8_width(c),
    decreases s.len(),
{
    reveal_with_fuel(encode_utf8, 2);
    if s.len() == 0 {
        assert(s.push(c).drop_first() =~= Seq::<char>::empty());
        assert(s.push(c)[0] == c);
        assert(encode_utf8(s.push(c)) =~= encode_utf8(s) + encode_scalar(c as u32));
    } else {
        lemma_utf8_len_push(s.drop_first(), c);
        assert(s.push(c).drop_first() =~= s.drop_first().push(c));
        assert(encode_utf8(s.push(c)) =~= encode_utf8(s) + encode_scalar(c as u32));
    }
}

/// The number of bytes that `c` takes in UTF-8.
pub fn char_width(c: char) -> (w: usize)
    ensures
        w == utf8_width(c),
        1 <= w <= 4,
{
    proof {
        lemma_utf8_width(c);
    }
    let u: u32 = c as u32;
    if u < 0x80 {
        1
    } else if u < 0x800 {
        2
    } else if u < 0x10000 {
        3
    } else {
        4
    }
}

/// How many characters of `s` can be kept, from its start, without taking
/// more than `n` bytes in UTF-8: all of them if `s` fits, else as many as
/// of `s` without its last character.
pub open spec fn fitting(s: Seq<char>, n: nat) -> nat
    decreases s.len(),
{
    if s.len() == 0 {
        0
    } else if utf8_len(s) <= n {
        s.len()
    } else {
        fitting(s.drop_last(), n)
    }
}

/// The longest prefix of `s`, in whole characters, that takes at most `n`
/// bytes in UTF-8.
pub open spec fn truncated(s: Seq<char>, n: nat) -> Seq<char> {
    s.take(fitting(s, n) as int)
}

/// A truncated string is a prefix of the string, made of whole characters
/// of it; it takes no more than `n` bytes; and it is the longest such
/// prefix: with one more character it would take more.
pub proof fn lemma_truncated(s: Seq<char>, n: nat)
    ensures
        fitting(s, n) <= s.len(),
        truncated(s, n) == s.take(truncated(s, n).len() as int),
        utf8_len(truncated(s, n)) <= n,
        fitting(s, n) < s.len() ==> utf8_len(s.take(fitting(s, n) as int + 1)) > n,
    decreases s.len(),
{
    if s.len() == 0 {
        assert(s.take(0) =~= s);
        assert(encode_utf8(s).len() == 0);
    } else if utf8_len(s) <= n {
        assert(s.take(s.len() as int) =~= s);
    } else {
        let t = s.drop_last();
        lemma_truncated(t, n);
        let k = fitting(t, n) as int;
        assert(t.take(k) =~= s.take(k));
        if k < t.len() {
            assert(t.take(k + 1) =~= s.take(k + 1));
        } else {
            assert(s.take(k + 1) =~= s);
        }
    }
}

/// The longest prefix of `s`, in whole characters, that takes at most `n`
/// bytes in UTF-8.
pub fn utf8_truncate(s: &str, n: usize) -> (r: String)
    ensures
        r@ == truncated(s@, n as nat),
        r@.len() <= s@.len(),
        r@ == s@.take(r@.len() as int),
        utf8_len(r@) <= n,
        r@.len() < s@.len() ==> utf8_len(s@.take(r@.len() as int + 1)) > n,
{
    let chars = to_chars(s);
    let mut out: Vec<char> = Vec::new();
    let mut used: usize = 0;
    let mut i: usize = 0;
    assert(encode_utf8(Seq::<char>::empty()).len() == 0);
    assert(s@.take(0) =~= Seq::<char>::empty());
    while i < chars.len()
        invariant
            i <= chars.len(),
            chars@ == s@,
            out@ == truncated(s@.take(i as int), n as nat),
            out@.len() == fitting(s@.take(i as int), n as nat),
            out@.len() <= i,
            used == utf8_len(out@),
            used <= n,
            out@.len() < i ==> utf8_len(s@.take(i as int)) > n,
        decreases chars.len() - i,
    {
        let c = chars[i];
        let w = char_width(c);
        let ghost before = s@.take(i as int);
        let ghost now = s@.take(i + 1);
        proof {
            assert(now.drop_last() =~= before);
            assert(now =~= before.push(c));
            lemma_utf8_len_push(before, c);
            lemma_truncated(before, n as nat);
            assert(before.take(out@.len() as int) =~= now.take(out@.len() as int));
        }
        if out.len() == i && w <= n - used {
            proof {
                assert(out@ =~= before);
            }
            out.push(c);
            used += w;
            proof {
                assert(now.take(now.len() as int) =~= now);
            }
        }
        i += 1;
    }
    proof {
        assert(s@.take(chars.len() as int) =~= s@);
        lemma_truncated(s@, n as nat);
    }
    from_chars(&out)
}

/// The zero-width joiner, which is put into a nick to keep it from
/// highlighting its owner.
pub const ZERO_WIDTH_JOINER: char = '\u{200D}';

/// The first grapheme cluster of `name`, as `unicode_segmentation` finds
/// it: an extended cluster where `extended` is set, else a legacy one;
/// `None` for the empty string.
pub uninterp spec fn leading_cluster(name: Seq<char>, extended: bool) -> Option<Seq<char>>;

/// The first extended grapheme cluster of `name`; `None` for the empty
/// string.
pub open spec fn first_grapheme(name: Seq<char>) -> Option<Seq<char>> {
    leading_cluster(name, true)
}

/// Calls `UnicodeSegmentation::graphemes` and takes the first item. The
/// iterator gives `None` only for the empty string, and else a slice of
/// the string that starts at its beginning and is not empty.
#[verifier::external_body]
fn leading_grapheme(name: &str, extended: bool) -> (r: Option<String>)
    ensures
        r.is_some() == (name@.len() > 0),
        crate::text::opt_view(r) == leading_cluster(name@, extended),
        r matches Some(g) ==> g@.len() >= 1 && has_prefix(name@, g@),
{
    unicode_segmentation::UnicodeSegmentation::graphemes(name, extended).next().map(
        |g| g.to_string(),
    )
}

/// The number of characters in the first grapheme cluster of `name`.
pub open spec fn first_grapheme_len(name: Seq<char>) -> nat {
    match first_grapheme(name) {
        Some(g) => g.len(),
        None => 0,
    }
}

/// `name` with the joiner put in after its first `at` characters, or at its
/// end where it has fewer.
pub open spec fn with_joiner(name: Seq<char>, at: nat) -> Seq<char> {
    let k = if at <= name.len() {
        at as int
    } else {
        name.len() as int
    };
    name.take(k).push(ZERO_WIDTH_JOINER) + name.skip(k)
}

/// `name` with the joiner put in after its first `at` characters, or at its
/// end where it has fewer.
pub fn insert_joiner(name: &str, at: usize) -> (r: String)
    ensures
        r@ == with_joiner(name@, at as nat),
{
    let chars = to_chars(name);
    let k = if at <= chars.len() {
        at
    } else {
        chars.len()
    };
    let mut out = slice_chars(&chars, 0, k);
    out.push(ZERO_WIDTH_JOINER);
    let rest = slice_chars(&chars, k, chars.len());
    push_all(&mut out, &rest);
    assert(chars@.subrange(0, k as int) == name@.take(k as int));
    assert(chars@.subrange(k as int, chars.len() as int) == name@.skip(k as int));
    from_chars(&out)
}

/// A nick that no longer highlights its owner: the joiner stands after
/// its first grapheme cluster. The result is one character longer than
/// `name`, begins with the same cluster and continues, after the new
/// character, as `name` does.
pub fn create_non_highlighting_name(name: &str) -> (r: String)
    ensures
        r@ == with_joiner(name@, first_grapheme_len(name@)),
        first_grapheme_len(name@) <= name@.len(),
        r@.len() == name@.len() + 1,
        r@.take(first_grapheme_len(name@) as int) == name@.take(first_grapheme_len(name@) as int),
        r@[first_grapheme_len(name@) as int] == ZERO_WIDTH_JOINER,
        r@.skip(first_grapheme_len(name@) as int + 1) == name@.skip(first_grapheme_len(name@) as int),
{
    let first = leading_grapheme(name, true);
    let at = match first {
        Some(g) => {
            let n = g.as_str().unicode_len();
            n
        },
        None => 0,
    };
    let r = insert_joiner(name, at);
    proof {
        let k = first_grapheme_len(name@) as int;
        assert(k == at);
        assert(r@.take(k) =~= name@.take(k));
        assert(r@.skip(k + 1) =~= name@.skip(k));
    }
    r
}

/// What `Regex::new` and `Regex::is_match` of the `regex` crate make of a
/// pattern and a text: `None` where the pattern does not compile, else
/// whether it matches somewhere in the text.
pub uninterp spec fn regex_search(pattern: Seq<char>, text: Seq<char>) -> Option<bool>;

/// Calls `regex::Regex::new` on `pattern` and, where that compiles,
/// `Regex::is_match` on `text`. The contract claims only that the outcome is
/// a function of the two strings.
#[verifier::external_body]
fn regex_is_match(pattern: &str, text: &str) -> (r: Option<bool>)
    ensures
        r == regex_search(pattern@, text@),
{
    match regex::Regex::new(pattern) {
        Ok(re) => Some(re.is_match(text)),
        Err(_) => None,
    }
}

/// The pattern that finds `nick` between two word boundaries.
pub open spec fn ping_pattern(nick: Seq<char>) -> Seq<char> {
    seq!['\\', 'b'] + nick + seq!['\\', 'b']
}

/// The pattern that finds `nick` between two word boundaries.
pub fn make_ping_pattern(nick: &str) -> (r: String)
    ensures
        r@ == ping_pattern(nick@),
{
    let mut out: Vec<char> = Vec::new();
    out.push('\\');
    out.push('b');
    push_str(&mut out, nick);
    out.push('\\');
    out.push('b');
    assert(out@ =~= ping_pattern(nick@));
    from_chars(&out)
}

/// Whether `message` addresses `nick`: the nick stands in it as a word of
/// its own. A nick that does not make a pattern addresses nobody.
pub fn is_ping(nick: &str, message: &str) -> (r: bool)
    ensures
        r == (regex_search(ping_pattern(nick@), message@) == Some(true)),
{
    let pattern = make_ping_pattern(nick);
    match regex_is_match(pattern.as_str(), message) {
        Some(found) => found,
        None => false,
    }
}

/// The part of `domain` after its last dot; all of it where it has none.
pub open spec fn last_label(domain: Seq<char>) -> Seq<char>
    decreases domain.len(),
{
    if domain.len() == 0 || domain.last() == '.' {
        Seq::empty()
    } else {
        last_label(domain.drop_last()).push(domain.last())
    }
}

/// The part of `domain` after its last dot; all of it where it has none.
pub fn get_last_label(domain: &str) -> (r: String)
    ensures
        r@ == last_label(domain@),
{
    let chars = to_chars(domain);
    let mut cur: Vec<char> = Vec::new();
    let mut i: usize = 0;
    while i < chars.len()
        invariant
            i <= chars.len(),
            chars@ == domain@,
            cur@ == last_label(domain@.take(i as int)),
        decreases chars.len() - i,
    {
        let c = chars[i];
        proof {
            let now = domain@.take(i + 1);
            assert(now.drop_last() == domain@.take(i as int));
            assert(now.last() == c);
        }
        if c == '.' {
            cur = Vec::new();
        } else {
            cur.push(c);
        }
        i += 1;
    }
    assert(domain@.take(chars.len() as int) == domain@);
    from_chars(&cur)
}

/// Whether a URL made by putting `http://` before a bare token counts as
/// a link: its host is a domain name with a dot in it that ends in a
/// recognised top-level domain, and it names no user.
pub open spec fn completes(u: UrlParts) -> bool {
    match u.domain {
        Some(d) => d.contains('.') && u.username.len() == 0 && tld_table().contains(
            last_label(d),
        ),
        None => false,
    }
}

/// Whether `url`, made by putting `http://` before a bare token, counts as
/// a link.
pub fn accepts_partial(url: &Url) -> (r: bool)
    ensures
        r == completes(url@),
{
    match url.domain() {
        Some(d) => {
            let chars = to_chars(d);
            if !crate::text::contains_char(&chars, '.') {
                return false;
            }
            if url.username().unicode_len() != 0 {
                return false;
            }
            let label = get_last_label(d);
            is_tld(label.as_str())
        },
        None => false,
    }
}

/// The scheme that is put before a bare token.
pub open spec fn http_prefix() -> Seq<char> {
    seq!['h', 't', 't', 'p', ':', '/', '/']
}

/// The link that a bare token stands for, if it stands for one: a token
/// that is no URL by itself, begins with a letter, and with `http://`
/// before it is a URL that `completes`.
pub open spec fn completion(token: Seq<char>) -> Option<Seq<char>> {
    if parsed_url(token).is_some() {
        None
    } else if token.len() > 0 && !alphabetic(token[0]) {
        None
    } else {
        match parsed_url(http_prefix() + token) {
            Some(u) => if completes(u) {
                Some(http_prefix() + token)
            } else {
                None
            },
            None => None,
        }
    }
}

/// If `token` has a recognised top-level domain but no scheme, the token
/// with `http://` before it.
pub fn add_scheme_for_tld(token: &str) -> (r: Option<String>)
    ensures
        r.is_some() == completion(token@).is_some(),
        r matches Some(t) ==> Some(t@) == completion(token@),
{
    if Url::parse(token).is_some() {
        return None;
    }
    let chars = to_chars(token);
    if chars.len() > 0 && !chars[0].is_alphabetic() {
        return None;
    }
    let mut full: Vec<char> = Vec::new();
    full.push('h');
    full.push('t');
    full.push('t');
    full.push('p');
    full.push(':');
    full.push('/');
    full.push('/');
    push_all(&mut full, &chars);
    assert(full@ =~= http_prefix() + token@);
    let new_token = from_chars(&full);
    match Url::parse(new_token.as_str()) {
        Some(url) => {
            if accepts_partial(&url) {
                Some(new_token)
            } else {
                None
            }
        },
        None => None,
    }
}

/// Whether one of the words of `text` is an absolute URL.
pub fn contains_urls(text: &str) -> (r: bool)
    ensures
        r == exists|i: int|
            0 <= i < words(text@).len() && parsed_url(#[trigger] words(text@)[i]).is_some(),
{
    let tokens = split_words(&to_chars(text));
    let mut i: usize = 0;
    while i < tokens.len()
        invariant
            i <= tokens.len(),
            views(tokens@) == words(text@),
            forall|j: int| 0 <= j < i ==> parsed_url(#[trigger] words(text@)[j]).is_none(),
        decreases tokens.len() - i,
    {
        let token = from_chars(&tokens[i]);
        assert(token@ == words(text@)[i as int]);
        if Url::parse(token.as_str()).is_some() {
            return true;
        }
        i += 1;
    }
    false
}

/// A link found in a message: the token that is resolved and recorded, and
/// the URL it parses to.
#[derive(Clone, Debug)]
pub struct Link {
    pub token: String,
    pub url: Url,
}

/// What a link is made of.
pub struct LinkView {
    pub token: Seq<char>,
    pub url: UrlParts,
}

impl View for Link {
    type V = LinkView;

    open spec fn view(&self) -> LinkView {
        LinkView { token: self.token@, url: self.url@ }
    }
}

/// The views of the links of `v`.
pub open spec fn links_view(v: Seq<Link>) -> Seq<LinkView> {
    Seq::new(v.len(), |i: int| v[i]@)
}

/// Whether `token` holds a character that may not stand in a URL.
pub open spec fn has_unsafe_char(token: Seq<char>) -> bool {
    exists|i: int| 0 <= i < token.len() && is_unsafe_char(#[trigger] token[i])
}

/// Whether `scheme` is `http` or `https`.
pub open spec fn is_web_scheme(scheme: Seq<char>) -> bool {
    scheme == "http"@ || scheme == "https"@
}

/// The link that `token` stands for, if any. A token with an unsafe
/// character stands for none. Where bare links are looked for, a token
/// with a completion is read as its completion. What is left must be an
/// absolute URL with the scheme `http` or `https`.
pub open spec fn link_of(partial_urls: bool, token: Seq<char>) -> Option<LinkView> {
    if has_unsafe_char(token) {
        None
    } else {
        let full = if partial_urls && completion(token).is_some() {
            completion(token).unwrap()
        } else {
            token
        };
        match parsed_url(full) {
            Some(u) => if is_web_scheme(u.scheme) {
                Some(LinkView { token: full, url: u })
            } else {
                None
            },
            None => None,
        }
    }
}

/// The link that `token` stands for, if any.
pub fn find_link(partial_urls: bool, token: &str) -> (r: Option<Link>)
    ensures
        r.is_some() == link_of(partial_urls, token@).is_some(),
        r matches Some(l) ==> Some(l@) == link_of(partial_urls, token@),
{
    if contains_unsafe_chars(token) {
        return None;
    }
    let completed = if partial_urls {
        add_scheme_for_tld(token)
    } else {
        None
    };
    let full = match completed {
        Some(c) => c,
        None => token.to_owned(),
    };
    match Url::parse(full.as_str()) {
        Some(url) => {
            if same_text(url.scheme(), "http") || same_text(url.scheme(), "https") {
                Some(Link { token: full, url })
            } else {
                None
            }
        },
        None => None,
    }
}

/// Whether one of `links` has the URL whose normalised text is `text`.
pub open spec fn has_url(links: Seq<LinkView>, text: Seq<char>) -> bool {
    exists|i: int| 0 <= i < links.len() && (#[trigger] links[i]).url.text == text
}

/// The links that `tokens` stand for, in order, each URL once: a token
/// whose URL an earlier token already gave is passed over.
pub open spec fn links_of(partial_urls: bool, tokens: Seq<Seq<char>>) -> Seq<LinkView>
    decreases tokens.len(),
{
    if tokens.len() == 0 {
        Seq::empty()
    } else {
        let before = links_of(partial_urls, tokens.drop_last());
        match link_of(partial_urls, tokens.last()) {
            Some(l) => if has_url(before, l.url.text) {
                before
            } else {
                before.push(l)
            },
            None => before,
        }
    }
}

/// No two of the links of a message have the same URL.
pub proof fn lemma_links_are_distinct(partial_urls: bool, tokens: Seq<Seq<char>>)
    ensures
        forall|i: int, j: int|
            #![trigger links_of(partial_urls, tokens)[i], links_of(partial_urls, tokens)[j]]
            0 <= i < j < links_of(partial_urls, tokens).len() ==> links_of(
                partial_urls,
                tokens,
            )[i].url.text != links_of(partial_urls, tokens)[j].url.text,
    decreases tokens.len(),
{
    if tokens.len() > 0 {
        lemma_links_are_distinct(partial_urls, tokens.drop_last());
    }
}

/// Every link of a message comes from one of its tokens, and there are no
/// more links than tokens.
pub proof fn lemma_links_follow_tokens(partial_urls: bool, tokens: Seq<Seq<char>>)
    ensures
        links_of(partial_urls, tokens).len() <= tokens.len(),
        forall|i: int|
            0 <= i < links_of(partial_urls, tokens).len() ==> exists|k: int|
                0 <= k < tokens.len() && link_of(partial_urls, tokens[k]) == Some(
                    #[trigger] links_of(partial_urls, tokens)[i],
                ),
    decreases tokens.len(),
{
    if tokens.len() > 0 {
        let init = tokens.drop_last();
        lemma_links_follow_tokens(partial_urls, init);
        let all = links_of(partial_urls, tokens);
        assert forall|i: int| 0 <= i < all.len() implies exists|k: int|
            0 <= k < tokens.len() && link_of(partial_urls, tokens[k]) == Some(#[trigger] all[i]) by {
            if i < links_of(partial_urls, init).len() {
                let k = choose|k: int|
                    0 <= k < init.len() && link_of(partial_urls, init[k]) == Some(
                        links_of(partial_urls, init)[i],
                    );
                assert(tokens[k] == init[k]);
            } else {
                assert(link_of(partial_urls, tokens[tokens.len() - 1]) == Some(all[i]));
            }
        }
    }
}

/// Whether one of `links` has the URL whose normalised text is `text`.
pub fn holds_url(links: &Vec<Link>, text: &str) -> (r: bool)
    ensures
        r == has_url(links_view(links@), text@),
{
    let mut i: usize = 0;
    while i < links.len()
        invariant
            i <= links.len(),
            forall|j: int| 0 <= j < i ==> (#[trigger] links_view(links@)[j]).url.text != text@,
        decreases links.len() - i,
    {
        if same_text(links[i].url.as_str(), text) {
            assert(links_view(links@)[i as int].url.text == text@);
            return true;
        }
        i += 1;
    }
    false
}

/// The links in the message text `text`, in order, each URL once.
pub fn candidate_links(partial_urls: bool, text: &str) -> (r: Vec<Link>)
    ensures
        links_view(r@) == links_of(partial_urls, words(text@)),
{
    let tokens = split_words(&to_chars(text));
    let mut out: Vec<Link> = Vec::new();
    let mut i: usize = 0;
    assert(links_view(out@) =~= Seq::empty());
    while i < tokens.len()
        invariant
            i <= tokens.len(),
            views(tokens@) == words(text@),
            links_view(out@) == links_of(partial_urls, words(text@).take(i as int)),
        decreases tokens.len() - i,
    {
        let token = from_chars(&tokens[i]);
        proof {
            let now = words(text@).take(i + 1);
            assert(now.drop_last() =~= words(text@).take(i as int));
            assert(now.last() == token@);
        }
        match find_link(partial_urls, token.as_str()) {
            Some(link) => {
                if !holds_url(&out, link.url.as_str()) {
                    let ghost before = links_view(out@);
                    out.push(link);
                    assert(links_view(out@) =~= before.push(link@));
                }
            },
            None => {},
        }
        i += 1;
    }
    assert(words(text@).take(tokens.len() as int) =~= words(text@));
    out
}

/// The most bytes that a reply may take on the wire.
pub const WIRE_LIMIT: usize = 510;

/// The answer to one link of a message.
#[derive(Clone, Debug, PartialEq, Eq)]
pub enum TitleResp {
    /// What is announced for the link.
    TITLE(String),
    /// Why nothing could be announced.
    ERROR(String),
}

/// What an answer holds.
pub enum Reply {
    Title(Seq<char>),
    Error(Seq<char>),
}

impl View for TitleResp {
    type V = Reply;

    open spec fn view(&self) -> Reply {
        match self {
            TitleResp::TITLE(t) => Reply::Title(t@),
            TitleResp::ERROR(e) => Reply::Error(e@),
        }
    }
}

/// The views of the answers of `v`.
pub open spec fn replies_view(v: Seq<TitleResp>) -> Seq<Reply> {
    Seq::new(v.len(), |i: int| v[i]@)
}

/// One message as the dispatcher sees it.
#[derive(Clone, Debug)]
pub struct Msg {
    /// Whether it was sent to a channel, not to the bot alone.
    pub is_chanmsg: bool,
    /// Whether it addresses the bot by its nick.
    pub is_ping: bool,
    /// Where replies go: the channel, or the sender of a query.
    pub target: String,
    /// Who sent it.
    pub sender: String,
    /// What it says.
    pub text: String,
}

/// What a message holds.
pub struct MsgView {
    pub is_chanmsg: bool,
    pub is_ping: bool,
    pub target: Seq<char>,
    pub sender: Seq<char>,
    pub text: Seq<char>,
}

impl View for Msg {
    type V = MsgView;

    open spec fn view(&self) -> MsgView {
        MsgView {
            is_chanmsg: self.is_chanmsg,
            is_ping: self.is_ping,
            target: self.target@,
            sender: self.sender@,
            text: self.text@,
        }
    }
}

/// Whether `target` names a channel: it begins with `#`.
pub open spec fn is_channel(target: Seq<char>) -> bool {
    target.len() > 0 && target[0] == '#'
}

/// Whether a message with the text `text` addresses the bot, whose nick,
/// if it has one, is `nick`.
pub open spec fn pings(nick: Option<Seq<char>>, text: Seq<char>) -> bool {
    match nick {
        Some(n) => regex_search(ping_pattern(n), text) == Some(true),
        None => false,
    }
}

impl Msg {
    /// The message `text` from `sender` with replies due to `target`.
    pub fn new(rtd: &Rtd, sender: &str, target: &str, text: &str) -> (m: Msg)
        ensures
            m@ == (MsgView {
                is_chanmsg: is_channel(target@),
                is_ping: pings(crate::text::opt_view(rtd.conf.client.nickname), text@),
                target: target@,
                sender: sender@,
                text: text@,
            }),
    {
        let is_chanmsg = target.unicode_len() > 0 && target.get_char(0) == '#';
        let is_ping = match &rtd.conf.client.nickname {
            Some(nick) => is_ping(nick.as_str(), text),
            None => false,
        };
        Msg {
            is_chanmsg,
            is_ping,
            sender: sender.to_owned(),
            target: target.to_owned(),
            text: text.to_owned(),
        }
    }
}

/// The announcement of a title that was not posted before.
pub open spec fn plain_reply(title: Seq<char>) -> Seq<char> {
    seq!['\u{2937}', ' '] + title
}

/// The announcement of a title that was posted before, at `time`, by `user`,
/// in `channel`.
pub open spec fn repost_reply(
    title: Seq<char>,
    time: Seq<char>,
    user: Seq<char>,
    channel: Seq<char>,
) -> Seq<char> {
    seq!['\u{2937}', ' '] + title + seq![' ', '\u{2192}', ' '] + time + seq![' '] + user + seq![
        ' ',
        '(',
    ] + channel + seq![')']
}

/// The name of an earlier poster as it is shown: with the joiner after
/// its first grapheme cluster where highlights are masked.
pub open spec fn shown_user(mask_highlights: bool, user: Seq<char>) -> Seq<char> {
    if mask_highlights {
        with_joiner(user, first_grapheme_len(user))
    } else {
        user
    }
}

/// The earlier post that the history holds of the link of a message: none
/// where no history is kept; the most recent post of the link in any
/// channel where the history is shared among channels, else the most
/// recent in the channel the message was sent to.
pub open spec fn earlier_post(
    features: Features,
    posts: Seq<Post>,
    target: Seq<char>,
    url: Seq<char>,
) -> Option<Earlier> {
    if !features.history {
        None
    } else if features.cross_channel_history {
        latest(posts, url, None)
    } else {
        latest(posts, url, Some(target))
    }
}

/// What is said of a link with the title `title`: that it was posted
/// before, if `earlier` is such a post, else the title alone; cut to the
/// wire limit.
pub open spec fn announcement(
    mask_highlights: bool,
    title: Seq<char>,
    earlier: Option<Earlier>,
) -> Seq<char> {
    truncated(
        match earlier {
            Some(p) => repost_reply(
                title,
                p.time_created,
                shown_user(mask_highlights, p.user),
                p.channel,
            ),
            None => plain_reply(title),
        },
        WIRE_LIMIT as nat,
    )
}

/// Whether a post is recorded: the link was not posted before, a history
/// is kept, and the message was sent to a channel.
pub open spec fn is_recorded(features: Features, is_chanmsg: bool, earlier: Option<Earlier>) -> bool {
    earlier.is_none() && features.history && is_chanmsg
}

/// The history after the link `url` of the message `msg` was answered with
/// `title` at the time `now`.
pub open spec fn history_after(
    features: Features,
    posts: Seq<Post>,
    msg: MsgView,
    url: Seq<char>,
    title: Seq<char>,
    now: Seq<char>,
) -> Seq<Post> {
    if is_recorded(features, msg.is_chanmsg, earlier_post(features, posts, msg.target, url)) {
        posts.push(
            Post { title, url, user: msg.sender, channel: msg.target, time_created: now },
        )
    } else {
        posts
    }
}

/// What is said of a link with the title `title`, given what the history
/// holds of it.
pub fn format_announcement(mask_highlights: bool, title: &str, earlier: &Option<PrevPost>) -> (r:
    String)
    ensures
        r@ == announcement(mask_highlights, title@, crate::history::earlier_view(*earlier)),
{
    let mut out: Vec<char> = Vec::new();
    out.push('\u{2937}');
    out.push(' ');
    push_str(&mut out, title);
    match earlier {
        Some(p) => {
            let user = if mask_highlights {
                create_non_highlighting_name(p.user.as_str())
            } else {
                p.user.clone()
            };
            out.push(' ');
            out.push('\u{2192}');
            out.push(' ');
            push_str(&mut out, p.time_created.as_str());
            out.push(' ');
            push_str(&mut out, user.as_str());
            out.push(' ');
            out.push('(');
            push_str(&mut out, p.channel.as_str());
            out.push(')');
            assert(out@ =~= repost_reply(
                title@,
                p.time_created@,
                shown_user(mask_highlights, p.user@),
                p.channel@,
            ));
        },
        None => {
            assert(out@ =~= plain_reply(title@));
        },
    }
    let line = from_chars(&out);
    utf8_truncate(line.as_str(), WIRE_LIMIT)
}

/// Answers the link `url` of the message `msg`, which resolved to `title`:
/// looks the link up in the history, says what is to be said, and records
/// the post, made at `now`, where one is to be recorded. A history that
/// cannot be read does not keep the title from being announced.
pub fn announce(
    rtd: &Rtd,
    db: &mut Database,
    msg: &Msg,
    url: &str,
    title: &str,
    now: &str,
) -> (r: String)
    ensures
        r@ == announcement(
            rtd.conf.features.mask_highlights,
            title@,
            earlier_post(rtd.conf.features, old(db)@, msg@.target, url@),
        ),
        final(db)@ == history_after(rtd.conf.features, old(db)@, msg@, url@, title@, now@),
{
    let looked = if !rtd.conf.features.history {
        Ok(None)
    } else if rtd.conf.features.cross_channel_history {
        db.check_prepost(url)
    } else {
        db.check_prepost_in(url, msg.target.as_str())
    };
    let earlier = match looked {
        Ok(p) => p,
        Err(_) => None,
    };
    if earlier.is_none() && rtd.conf.features.history && msg.is_chanmsg {
        let entry = NewLogEntry {
            title,
            url,
            user: msg.sender.as_str(),
            channel: msg.target.as_str(),
        };
        let _ = db.add_log(&entry, now);
    }
    format_announcement(rtd.conf.features.mask_highlights, title, &earlier)
}

/// The number of titles among `replies`.
pub open spec fn title_count(replies: Seq<Reply>) -> nat
    decreases replies.len(),
{
    if replies.len() == 0 {
        0
    } else {
        title_count(replies.drop_last()) + if replies.last() is Title {
            1nat
        } else {
            0nat
        }
    }
}

/// The work on the links of one message: which links there are, how far
/// the work has come, and the answers so far.
#[derive(Debug)]
pub struct TitleScan {
    links: Vec<Link>,
    titles: usize,
    limit: usize,
    responses: Vec<TitleResp>,
}

/// What the work on one message has come to.
pub struct ScanView {
    /// The links of the message, in order, each URL once.
    pub links: Seq<LinkView>,
    /// How many links were answered with a title.
    pub titles: nat,
    /// After how many titles the work stops; zero for never.
    pub limit: nat,
    /// The answers so far: answer `k` is that to link `k`.
    pub responses: Seq<Reply>,
}

impl ScanView {
    /// Whether a link is waiting to be resolved: one is left, and the limit
    /// of titles has not been reached.
    pub open spec fn open(self) -> bool {
        self.responses.len() < self.links.len() && !(self.limit > 0 && self.titles == self.limit)
    }

    /// The work after the link that was waiting failed to resolve, with the
    /// error `error`, which is cut to the wire limit.
    pub open spec fn after_error(self, error: Seq<char>) -> ScanView {
        ScanView {
            responses: self.responses.push(Reply::Error(truncated(error, WIRE_LIMIT as nat))),
            ..self
        }
    }

    /// The work after the link that was waiting was answered with `said`.
    pub open spec fn after_title(self, said: Seq<char>) -> ScanView {
        ScanView {
            responses: self.responses.push(Reply::Title(said)),
            titles: self.titles + 1,
            ..self
        }
    }
}

impl View for TitleScan {
    type V = ScanView;

    closed spec fn view(&self) -> ScanView {
        ScanView {
            links: links_view(self.links@),
            titles: self.titles as nat,
            limit: self.limit as nat,
            responses: replies_view(self.responses@),
        }
    }
}

impl TitleScan {
    #[verifier::type_invariant]
    spec fn well_formed(self) -> bool {
        &&& self.responses@.len() <= self.links@.len()
        &&& self.titles == title_count(replies_view(self.responses@))
        &&& self.titles <= self.responses@.len()
        &&& self.limit > 0 ==> self.titles <= self.limit
    }

    /// Begins the work on the message `msg`: finds its links.
    pub fn new(rtd: &Rtd, msg: &Msg) -> (scan: TitleScan)
        ensures
            scan@ == (ScanView {
                links: links_of(rtd.conf.features.partial_urls, words(msg@.text)),
                titles: 0,
                limit: rtd.conf.params.url_limit as nat,
                responses: Seq::empty(),
            }),
    {
        let links = candidate_links(rtd.conf.features.partial_urls, msg.text.as_str());
        let scan = TitleScan {
            links,
            titles: 0,
            limit: rtd.conf.params.url_limit as usize,
            responses: Vec::new(),
        };
        assert(scan@.responses =~= Seq::empty());
        scan
    }

    /// The link to resolve next; none when the work is done. There is never
    /// more than one answer to a link, and answer `k` is that to link `k`:
    /// when no link is pending and the limit of titles was not reached,
    /// there are as many answers as links. The titles among the answers are
    /// counted, and where there is a limit they never exceed it.
    pub fn pending(&self) -> (r: Option<&Link>)
        ensures
            self@.open() ==> (r matches Some(l) && l@ == self@.links[self@.responses.len() as int]),
            !self@.open() ==> r.is_none(),
            self@.responses.len() <= self@.links.len(),
            self@.titles == title_count(self@.responses),
            self@.limit > 0 ==> title_count(self@.responses) <= self@.limit,
            r.is_none() && !(self@.limit > 0 && self@.titles == self@.limit)
                ==> self@.responses.len() == self@.links.len(),
    {
        proof {
            use_type_invariant(self);
        }
        if self.responses.len() < self.links.len() && !(self.limit > 0 && self.titles
            == self.limit) {
            Some(&self.links[self.responses.len()])
        } else {
            None
        }
    }

    /// Takes the outcome of resolving the pending link: a title, or an error
    /// in words. A title is announced as `announce` says, and the history
    /// changes as it says there; an error becomes the answer, cut to the
    /// wire limit, and does not count towards the limit of titles. Without
    /// a pending link nothing changes.
    pub fn resolved(
        self,
        rtd: &Rtd,
        db: &mut Database,
        msg: &Msg,
        now: &str,
        outcome: Result<String, String>,
    ) -> (next: TitleScan)
        ensures
            !self@.open() ==> next@ == self@ && final(db)@ == old(db)@,
            self@.open() ==> match outcome {
                Err(e) => next@ == self@.after_error(e@) && final(db)@ == old(db)@,
                Ok(title) => {
                    let url = self@.links[self@.responses.len() as int].token;
                    &&& next@ == self@.after_title(
                        announcement(
                            rtd.conf.features.mask_highlights,
                            title@,
                            earlier_post(rtd.conf.features, old(db)@, msg@.target, url),
                        ),
                    )
                    &&& final(db)@ == history_after(
                        rtd.conf.features,
                        old(db)@,
                        msg@,
                        url,
                        title@,
                        now@,
                    )
                },
            },
    {
        proof {
            use_type_invariant(&self);
        }
        if !(self.responses.len() < self.links.len() && !(self.limit > 0 && self.titles
            == self.limit)) {
            return self;
        }
        let ghost before = replies_view(self.responses@);
        let TitleScan { links, titles, limit, responses } = self;
        let mut responses = responses;
        match outcome {
            Err(e) => {
                let cut = utf8_truncate(e.as_str(), WIRE_LIMIT);
                responses.push(TitleResp::ERROR(cut));
                assert(replies_view(responses@) =~= before.push(Reply::Error(cut@)));
                assert(before.push(Reply::Error(cut@)).drop_last() =~= before);
                TitleScan { links, titles, limit, responses }
            },
            Ok(title) => {
                let said = announce(
                    rtd,
                    db,
                    msg,
                    links[responses.len()].token.as_str(),
                    title.as_str(),
                    now,
                );
                responses.push(TitleResp::TITLE(said));
                assert(replies_view(responses@) =~= before.push(Reply::Title(said@)));
                assert(before.push(Reply::Title(said@)).drop_last() =~= before);
                TitleScan { links, titles: titles + 1, limit, responses }
            },
        }
    }

    /// The answers so far, in the order of the links.
    pub fn responses(&self) -> (r: &Vec<TitleResp>)
        ensures
            replies_view(r@) == self@.responses,
    {
        &self.responses
    }
}

/// Something the dispatcher wants done on the chat connection or to the
/// configuration on disk.
#[derive(Clone, Debug, PartialEq, Eq)]
pub enum Action {
    /// Send `text` to `target` as a message.
    Privmsg { target: String, text: String },
    /// Send `text` to `target` as a notice.
    Notice { target: String, text: String },
    /// Join `channel`.
    Join { channel: String },
    /// Write the configuration, which has changed, to where it came from.
    SaveConfig,
}

/// What an action holds.
pub enum Effect {
    Privmsg { target: Seq<char>, text: Seq<char> },
    Notice { target: Seq<char>, text: Seq<char> },
    Join { channel: Seq<char> },
    SaveConfig,
}

impl View for Action {
    type V = Effect;

    open spec fn view(&self) -> Effect {
        match self {
            Action::Privmsg { target, text } => Effect::Privmsg { target: target@, text: text@ },
            Action::Notice { target, text } => Effect::Notice { target: target@, text: text@ },
            Action::Join { channel } => Effect::Join { channel: channel@ },
            Action::SaveConfig => Effect::SaveConfig,
        }
    }
}

/// The views of the actions of `v`.
pub open spec fn actions_view(v: Seq<Action>) -> Seq<Effect> {
    Seq::new(v.len(), |i: int| v[i]@)
}

/// How `text` is sent in answer to `msg`: as a notice where notices are
/// asked for and the message came through a channel, else as a message;
/// either way to where the message's replies go.
pub open spec fn response(send_notice: bool, msg: MsgView, text: Seq<char>) -> Effect {
    if send_notice && msg.is_chanmsg {
        Effect::Notice { target: msg.target, text }
    } else {
        Effect::Privmsg { target: msg.target, text }
    }
}

/// How `text` is sent in answer to `msg`.
pub fn respond(rtd: &Rtd, msg: &Msg, text: &str) -> (a: Action)
    ensures
        a@ == response(rtd.conf.features.send_notice, msg@, text@),
{
    if rtd.conf.features.send_notice && msg.is_chanmsg {
        Action::Notice { target: msg.target.clone(), text: text.to_owned() }
    } else {
        Action::Privmsg { target: msg.target.clone(), text: text.to_owned() }
    }
}

/// Joining each of `channels`, in order.
pub open spec fn joins(channels: Seq<Seq<char>>) -> Seq<Effect> {
    Seq::new(channels.len(), |i: int| Effect::Join { channel: channels[i] })
}

/// Sending `text` to each of `channels`, in order.
pub open spec fn tellings(channels: Seq<Seq<char>>, text: Seq<char>) -> Seq<Effect> {
    Seq::new(channels.len(), |i: int| Effect::Privmsg { target: channels[i], text })
}

/// Telling the status channels `text`: first each of them is joined, then
/// each is sent the text.
pub open spec fn status_effects(channels: Seq<Seq<char>>, text: Seq<char>) -> Seq<Effect> {
    joins(channels) + tellings(channels, text)
}

/// Joins the status channels and sends each of them `msg`. Without status
/// channels nothing is done.
pub fn msg_status_chans(rtd: &Rtd, msg: &str) -> (r: Vec<Action>)
    ensures
        actions_view(r@) == status_effects(texts(rtd.conf.params.status_channels@), msg@),
{
    let channels = &rtd.conf.params.status_channels;
    let mut out: Vec<Action> = Vec::new();
    let mut i: usize = 0;
    while i < channels.len()
        invariant
            i <= channels.len(),
            channels == &rtd.conf.params.status_channels,
            actions_view(out@) == joins(texts(channels@).take(i as int)),
        decreases channels.len() - i,
    {
        let ghost before = actions_view(out@);
        out.push(Action::Join { channel: channels[i].clone() });
        assert(actions_view(out@) =~= before.push(Effect::Join { channel: channels@[i as int]@ }));
        assert(actions_view(out@) =~= joins(texts(channels@).take(i + 1)));
        i += 1;
    }
    assert(texts(channels@).take(channels.len() as int) =~= texts(channels@));
    let mut j: usize = 0;
    while j < channels.len()
        invariant
            j <= channels.len(),
            channels == &rtd.conf.params.status_channels,
            actions_view(out@) == joins(texts(channels@)) + tellings(
                texts(channels@).take(j as int),
                msg@,
            ),
        decreases channels.len() - j,
    {
        let ghost before = actions_view(out@);
        out.push(Action::Privmsg { target: channels[j].clone(), text: msg.to_owned() });
        assert(actions_view(out@) =~= before.push(
            Effect::Privmsg { target: channels@[j as int]@, text: msg@ },
        ));
        assert(actions_view(out@) =~= joins(texts(channels@)) + tellings(
            texts(channels@).take(j + 1),
            msg@,
        ));
        j += 1;
    }
    out
}

/// What is done about a link of `msg` that failed with the error `text`.
/// The error is sent in answer where the message was a query or errors are
/// to be answered in channels. For a message from a channel it is also
/// sent to the poster alone, where that is asked for, and to the status
/// channels.
pub open spec fn error_effects(rtd: Rtd, msg: MsgView, text: Seq<char>) -> Seq<Effect> {
    (if !msg.is_chanmsg || rtd.conf.features.reply_with_errors {
        seq![response(rtd.conf.features.send_notice, msg, text)]
    } else {
        Seq::empty()
    }) + (if msg.is_chanmsg && rtd.conf.features.send_errors_to_poster {
        seq![Effect::Privmsg { target: msg.sender, text }]
    } else {
        Seq::empty()
    }) + (if msg.is_chanmsg {
        status_effects(texts(rtd.conf.params.status_channels@), text)
    } else {
        Seq::empty()
    })
}

/// Appends the actions of `more` to `out`.
pub fn push_actions(out: &mut Vec<Action>, more: Vec<Action>)
    ensures
        actions_view(final(out)@) == actions_view(old(out)@) + actions_view(more@),
{
    let mut more = more;
    let ghost added = actions_view(more@);
    let ghost before = actions_view(out@);
    out.append(&mut more);
    assert(actions_view(out@) =~= before + added);
}

/// What is done about a link of `msg` that failed with the error `text`.
pub fn respond_error(rtd: &Rtd, msg: &Msg, text: &str) -> (r: Vec<Action>)
    ensures
        actions_view(r@) == error_effects(*rtd, msg@, text@),
{
    let mut out: Vec<Action> = Vec::new();
    if !msg.is_chanmsg || rtd.conf.features.reply_with_errors {
        out.push(respond(rtd, msg, text));
    }
    if msg.is_chanmsg && rtd.conf.features.send_errors_to_poster {
        out.push(Action::Privmsg { target: msg.sender.clone(), text: text.to_owned() });
    }
    if msg.is_chanmsg {
        let ghost before = actions_view(out@);
        push_actions(&mut out, msg_status_chans(rtd, text));
    }
    assert(actions_view(out@) =~= error_effects(*rtd, msg@, text@));
    out
}

/// What is done about one answer: a title is sent in answer to the
/// message, an error goes the way of errors.
pub open spec fn answer_effects(rtd: Rtd, msg: MsgView, reply: Reply) -> Seq<Effect> {
    match reply {
        Reply::Title(t) => seq![response(rtd.conf.features.send_notice, msg, t)],
        Reply::Error(e) => error_effects(rtd, msg, e),
    }
}

/// What is done about the answers `replies`, one after the other.
pub open spec fn answers_effects(rtd: Rtd, msg: MsgView, replies: Seq<Reply>) -> Seq<Effect>
    decreases replies.len(),
{
    if replies.len() == 0 {
        Seq::empty()
    } else {
        answers_effects(rtd, msg, replies.drop_last()) + answer_effects(rtd, msg, replies.last())
    }
}

/// What is done about a message once its links are answered. Each answer
/// is dealt with in turn. A message without any answer that addresses the
/// bot is answered with the configured words.
pub open spec fn message_effects(rtd: Rtd, msg: MsgView, replies: Seq<Reply>) -> Seq<Effect> {
    if replies.len() == 0 && msg.is_ping {
        seq![response(rtd.conf.features.send_notice, msg, rtd.conf.params.nick_response_str@)]
    } else {
        answers_effects(rtd, msg, replies)
    }
}

/// What is done about the message `msg` once its links are answered with
/// `titles`.
pub fn privmsg(rtd: &Rtd, msg: &Msg, titles: &Vec<TitleResp>) -> (r: Vec<Action>)
    ensures
        actions_view(r@) == message_effects(*rtd, msg@, replies_view(titles@)),
{
    let mut out: Vec<Action> = Vec::new();
    if titles.len() == 0 && msg.is_ping {
        out.push(respond(rtd, msg, rtd.conf.params.nick_response_str.as_str()));
        assert(actions_view(out@) =~= message_effects(*rtd, msg@, replies_view(titles@)));
        return out;
    }
    let mut i: usize = 0;
    assert(actions_view(out@) =~= Seq::empty());
    while i < titles.len()
        invariant
            i <= titles.len(),
            actions_view(out@) == answers_effects(
                *rtd,
                msg@,
                replies_view(titles@).take(i as int),
            ),
        decreases titles.len() - i,
    {
        proof {
            let now = replies_view(titles@).take(i + 1);
            assert(now.drop_last() =~= replies_view(titles@).take(i as int));
            assert(now.last() == titles@[i as int]@);
        }
        let ghost before = actions_view(out@);
        match &titles[i] {
            TitleResp::TITLE(t) => {
                out.push(respond(rtd, msg, t.as_str()));
                assert(actions_view(out@) =~= before + answer_effects(
                    *rtd,
                    msg@,
                    titles@[i as int]@,
                ));
            },
            TitleResp::ERROR(e) => {
                push_actions(&mut out, respond_error(rtd, msg, e.as_str()));
            },
        }
        i += 1;
    }
    assert(replies_view(titles@).take(titles.len() as int) =~= replies_view(titles@));
    out
}

/// Whether one of the words of `text` is an absolute URL.
pub open spec fn has_urls(text: Seq<char>) -> bool {
    exists|i: int| 0 <= i < words(text).len() && parsed_url(#[trigger] words(text)[i]).is_some()
}

/// What is done about a message sent to a status channel: its links are
/// not looked at; its sender is told so if it addressed the bot or held a
/// URL.
pub open spec fn ignored_effects(msg: MsgView) -> Seq<Effect> {
    if msg.is_ping || has_urls(msg.text) {
        seq![
            Effect::Privmsg {
                target: msg.sender,
                text: "ignoring messages in channel "@ + msg.target,
            },
        ]
    } else {
        Seq::empty()
    }
}

/// What is done about a message sent to a status channel.
pub fn ignore_message(msg: &Msg) -> (r: Vec<Action>)
    ensures
        actions_view(r@) == ignored_effects(msg@),
{
    let mut out: Vec<Action> = Vec::new();
    if msg.is_ping || contains_urls(msg.text.as_str()) {
        let mut text = "ignoring messages in channel ".to_owned();
        text.append(msg.target.as_str());
        out.push(Action::Privmsg { target: msg.sender.clone(), text });
    }
    assert(actions_view(out@) =~= ignored_effects(msg@));
    out
}

/// `rtd` with the list of channels to join replaced by `channels`.
pub open spec fn with_channels(rtd: Rtd, channels: Option<Vec<String>>) -> Rtd {
    Rtd { conf: Conf { client: Connection { channels, ..rtd.conf.client }, ..rtd.conf }, ..rtd }
}

/// Whether the bot, known to the server as `current_nick`, takes note of
/// having been kicked: the configuration is kept up to date, and it is the
/// bot that was kicked.
pub open spec fn notes_kick(rtd: Rtd, current_nick: Seq<char>, nick: Seq<char>) -> bool {
    rtd.conf.features.autosave && nick == current_nick
}

/// Takes note that `nick` was kicked from `chan`. Where that is the bot
/// and the configuration is kept up to date, the channel leaves the list
/// of channels to join and the configuration is to be written; else
/// nothing is done.
pub fn kick(rtd: &mut Rtd, current_nick: &str, chan: &str, nick: &str) -> (r: Vec<Action>)
    ensures
        !notes_kick(*old(rtd), current_nick@, nick@) ==> *final(rtd) == *old(rtd) && r@.len()
            == 0,
        notes_kick(*old(rtd), current_nick@, nick@) ==> {
            &&& *final(rtd) == with_channels(*old(rtd), final(rtd).conf.client.channels)
            &&& final(rtd).conf.channel_names() == match old(rtd).conf.channel_names() {
                Some(c) => Some(without_first(c, chan@)),
                None => None,
            }
            &&& actions_view(r@) == seq![Effect::SaveConfig]
        },
{
    let mut out: Vec<Action> = Vec::new();
    if !rtd.conf.features.autosave {
        return out;
    }
    if !same_text(nick, current_nick) {
        return out;
    }
    rtd.conf.remove_channel(chan);
    out.push(Action::SaveConfig);
    assert(actions_view(out@) =~= seq![Effect::SaveConfig]);
    out
}

/// Whether the bot, known to the server as `current_nick`, follows an
/// invitation of `nick`: invitations are followed, and it is the bot that
/// was invited.
pub open spec fn follows_invite(rtd: Rtd, current_nick: Seq<char>, nick: Seq<char>) -> bool {
    rtd.conf.features.invite && nick == current_nick
}

/// Answers the invitation of `nick` to `chan`: the bot joins the channel
/// where it is the one invited and follows invitations.
pub fn invite(rtd: &Rtd, current_nick: &str, nick: &str, chan: &str) -> (r: Vec<Action>)
    ensures
        actions_view(r@) == if follows_invite(*rtd, current_nick@, nick@) {
            seq![Effect::Join { channel: chan@ }]
        } else {
            Seq::empty()
        },
{
    let mut out: Vec<Action> = Vec::new();
    if rtd.conf.features.invite && same_text(nick, current_nick) {
        out.push(Action::Join { channel: chan.to_owned() });
        assert(actions_view(out@) =~= seq![Effect::Join { channel: chan@ }]);
    } else {
        assert(actions_view(out@) =~= Seq::empty());
    }
    out
}

/// Takes note that the channel `chan`, to which the bot was invited, has
/// been joined. Where the configuration is kept up to date, the channel
/// enters the list of channels to join, unless it is there already, and
/// the configuration is to be written; else nothing is done.
pub fn joined(rtd: &mut Rtd, chan: &str) -> (r: Vec<Action>)
    ensures
        !old(rtd).conf.features.autosave ==> *final(rtd) == *old(rtd) && r@.len() == 0,
        old(rtd).conf.features.autosave ==> {
            &&& *final(rtd) == with_channels(*old(rtd), final(rtd).conf.client.channels)
            &&& final(rtd).conf.channel_names() == match old(rtd).conf.channel_names() {
                Some(c) => Some(with_added(c, chan@)),
                None => None,
            }
            &&& actions_view(r@) == seq![Effect::SaveConfig]
        },
{
    let mut out: Vec<Action> = Vec::new();
    if rtd.conf.features.autosave {
        rtd.conf.add_channel(chan.to_owned());
        out.push(Action::SaveConfig);
        assert(actions_view(out@) =~= seq![Effect::SaveConfig]);
    }
    out
}

/// What the chat connection delivers.
#[derive(Clone, Debug)]
pub enum InboundEvent {
    /// `sender` said `text`; replies are due to `target`, which is the
    /// channel it was said in, or the sender where it was said to the bot
    /// alone.
    Privmsg { sender: String, target: String, text: String },
    /// `kicked_nick` was kicked from `channel`.
    Kick { channel: String, kicked_nick: String },
    /// `nick` was invited to `channel`.
    Invite { nick: String, channel: String },
    /// Anything else.
    Other,
}

/// What is to be done about an event.
#[derive(Debug)]
pub enum Handling {
    /// These actions, and nothing more.
    Done(Vec<Action>),
    /// The links of this message are to be resolved; `privmsg` then tells
    /// what to send.
    Scan(Msg, TitleScan),
}

/// Whether replies to `target` are withheld because it is a status
/// channel.
pub open spec fn is_status_channel(rtd: Rtd, target: Seq<char>) -> bool {
    texts(rtd.conf.params.status_channels@).contains(target)
}

/// Handles one event, for the bot known to the server as `current_nick`.
/// A kick or an invitation is seen to at once, as `kick` and `invite` say.
/// A message sent to a status channel is ignored, as `ignore_message`
/// says. For any other message the links are found and wait to be
/// resolved. Nothing is done about other events.
pub fn handle_message(event: &InboundEvent, rtd: &mut Rtd, current_nick: &str) -> (r: Handling)
    ensures
        match *event {
            InboundEvent::Kick { channel, kicked_nick } => {
                &&& r matches Handling::Done(actions)
                &&& !notes_kick(*old(rtd), current_nick@, kicked_nick@) ==> *final(rtd) == *old(
                    rtd,
                ) && actions@.len() == 0
                &&& notes_kick(*old(rtd), current_nick@, kicked_nick@) ==> {
                    &&& *final(rtd) == with_channels(*old(rtd), final(rtd).conf.client.channels)
                    &&& final(rtd).conf.channel_names() == match old(rtd).conf.channel_names() {
                        Some(c) => Some(without_first(c, channel@)),
                        None => None,
                    }
                    &&& actions_view(actions@) == seq![Effect::SaveConfig]
                }
            },
            InboundEvent::Invite { nick, channel } => {
                &&& r matches Handling::Done(actions)
                &&& *final(rtd) == *old(rtd)
                &&& actions_view(actions@) == if follows_invite(*old(rtd), current_nick@, nick@) {
                    seq![Effect::Join { channel: channel@ }]
                } else {
                    Seq::empty()
                }
            },
            InboundEvent::Privmsg { sender, target, text } => {
                let msg = MsgView {
                    is_chanmsg: is_channel(target@),
                    is_ping: pings(crate::text::opt_view(old(rtd).conf.client.nickname), text@),
                    target: target@,
                    sender: sender@,
                    text: text@,
                };
                &&& *final(rtd) == *old(rtd)
                &&& is_status_channel(*old(rtd), target@) ==> (r matches Handling::Done(actions)
                    && actions_view(actions@) == ignored_effects(msg))
                &&& !is_status_channel(*old(rtd), target@) ==> (r matches Handling::Scan(m, scan)
                    && m@ == msg && scan@ == (ScanView {
                    links: links_of(old(rtd).conf.features.partial_urls, words(text@)),
                    titles: 0,
                    limit: old(rtd).conf.params.url_limit as nat,
                    responses: Seq::empty(),
                }))
            },
            InboundEvent::Other => {
                &&& r matches Handling::Done(actions)
                &&& actions@.len() == 0
                &&& *final(rtd) == *old(rtd)
            },
        },
{
    match event {
        InboundEvent::Kick { channel, kicked_nick } => Handling::Done(
            kick(rtd, current_nick, channel.as_str(), kicked_nick.as_str()),
        ),
        InboundEvent::Invite { nick, channel } => Handling::Done(
            invite(rtd, current_nick, nick.as_str(), channel.as_str()),
        ),
        InboundEvent::Privmsg { sender, target, text } => {
            let msg = Msg::new(rtd, sender.as_str(), target.as_str(), text.as_str());
            if contains_text(&rtd.conf.params.status_channels, target.as_str()) {
                Handling::Done(ignore_message(&msg))
            } else {
                let scan = TitleScan::new(rtd, &msg);
                Handling::Scan(msg, scan)
            }
        },
        InboundEvent::Other => Handling::Done(Vec::new()),
    }
}

/// The links of the first tokens of a message are the first links of the
/// message: links stand in the order of the tokens they come from.
pub proof fn lemma_links_in_token_order(partial_urls: bool, tokens: Seq<Seq<char>>, k: int)
    requires
        0 <= k <= tokens.len(),
    ensures
        links_of(partial_urls, tokens.take(k)).len() <= links_of(partial_urls, tokens).len(),
        links_of(partial_urls, tokens.take(k)) == links_of(partial_urls, tokens).take(
            links_of(partial_urls, tokens.take(k)).len() as int,
        ),
    decreases tokens.len() - k,
{
    if k == tokens.len() {
        assert(tokens.take(k) =~= tokens);
        assert(links_of(partial_urls, tokens).take(links_of(partial_urls, tokens).len() as int)
            =~= links_of(partial_urls, tokens));
    } else {
        lemma_links_in_token_order(partial_urls, tokens, k + 1);
        let more = tokens.take(k + 1);
        assert(more.drop_last() =~= tokens.take(k));
        let a = links_of(partial_urls, tokens.take(k));
        let b = links_of(partial_urls, more);
        let all = links_of(partial_urls, tokens);
        assert(a =~= b.take(a.len() as int));
        assert(b.take(a.len() as int) =~= all.take(b.len() as int).take(a.len() as int));
        assert(all.take(b.len() as int).take(a.len() as int) =~= all.take(a.len() as int));
    }
}

/// A message that names the same link twice has one link, and one that
/// names two different links has both, in the order it names them.
pub proof fn lemma_same_link_once(partial_urls: bool, first: Seq<char>, second: Seq<char>)
    ensures
        link_of(partial_urls, first).is_some() && link_of(partial_urls, second).is_some() ==> {
            let a = link_of(partial_urls, first).unwrap();
            let b = link_of(partial_urls, second).unwrap();
            links_of(partial_urls, seq![first, second]) == if a.url.text == b.url.text {
                seq![a]
            } else {
                seq![a, b]
            }
        },
{
    let both = seq![first, second];
    let one = both.drop_last();
    assert(one =~= seq![first]);
    assert(one.drop_last() =~= Seq::<Seq<char>>::empty());
    reveal_with_fuel(links_of, 3);
    if link_of(partial_urls, first).is_some() && link_of(partial_urls, second).is_some() {
        let a = link_of(partial_urls, first).unwrap();
        let b = link_of(partial_urls, second).unwrap();
        assert(links_of(partial_urls, one) =~= seq![a]);
        assert(links_of(partial_urls, one)[0] == a);
        assert(both.last() == second);
        if a.url.text == b.url.text {
            assert(has_url(links_of(partial_urls, one), b.url.text));
            assert(links_of(partial_urls, both) =~= seq![a]);
        } else {
            assert(links_of(partial_urls, both) =~= seq![a, b]);
        }
    }
}

/// What is announced never takes more bytes than the wire allows, and is
/// what would have been said without the limit or a part of it that ends
/// between two characters.
pub proof fn lemma_announcement_fits(mask_highlights: bool, title: Seq<char>, earlier: Option<Earlier>)
    ensures
        utf8_len(announcement(mask_highlights, title, earlier)) <= WIRE_LIMIT,
        earlier.is_none() ==> has_prefix(
            plain_reply(title),
            announcement(mask_highlights, title, earlier),
        ),
        earlier matches Some(p) ==> has_prefix(
            repost_reply(title, p.time_created, shown_user(mask_highlights, p.user), p.channel),
            announcement(mask_highlights, title, earlier),
        ),
{
    match earlier {
        Some(p) => {
            lemma_truncated(
                repost_reply(title, p.time_created, shown_user(mask_highlights, p.user), p.channel),
                WIRE_LIMIT as nat,
            );
        },
        None => {
            lemma_truncated(plain_reply(title), WIRE_LIMIT as nat);
        },
    }
}

/// A link that is posted again is answered with the first post. Where a
/// history is kept and a link that the history does not hold for a
/// channel is answered in that channel, the history then holds that post
/// of it: whoever posts the link next, in the same channel or, where the
/// history is shared, in any, is told the first poster, the channel, and
/// the time that was recorded.
pub proof fn lemma_repost_tells_first_post(
    features: Features,
    posts: Seq<Post>,
    first: MsgView,
    second_target: Seq<char>,
    url: Seq<char>,
    title: Seq<char>,
    now: Seq<char>,
    second_title: Seq<char>,
)
    requires
        features.history,
        first.is_chanmsg,
        earlier_post(features, posts, first.target, url).is_none(),
        features.cross_channel_history || second_target == first.target,
    ensures
        earlier_post(
            features,
            history_after(features, posts, first, url, title, now),
            second_target,
            url,
        ) == Some(Earlier { user: first.sender, time_created: now, channel: first.target }),
        announcement(
            features.mask_highlights,
            second_title,
            earlier_post(
                features,
                history_after(features, posts, first, url, title, now),
                second_target,
                url,
            ),
        ) == truncated(
            repost_reply(
                second_title,
                now,
                shown_user(features.mask_highlights, first.sender),
                first.target,
            ),
            WIRE_LIMIT as nat,
        ),
        history_after(
            features,
            history_after(features, posts, first, url, title, now),
            MsgView { target: second_target, ..first },
            url,
            second_title,
            now,
        ) == history_after(features, posts, first, url, title, now),
{
    let after = history_after(features, posts, first, url, title, now);
    assert(after.last() == Post {
        title,
        url,
        user: first.sender,
        channel: first.target,
        time_created: now,
    });
}

} // verus!
