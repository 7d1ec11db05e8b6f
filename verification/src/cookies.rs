//! The cookies of one retrieval: what the responses set, by name, and what
//! goes back with the next request.

use crate::text::{find_char, first_of, from_chars, slice_chars, to_chars, trim, trimmed};
use crate::url::pair_views;
use vstd::prelude::*;

verus! {

/// How many `Set-Cookie` headers of one response are taken note of.
pub const COOKIES_PER_RESPONSE: usize = 16;

/// The name and value that a `Set-Cookie` header sets: what stands before
/// and after the first `=` in the part of the header before its first `;`,
/// each without white space around it. A header without `=` there, or with
/// nothing before it, sets nothing.
pub open spec fn cookie_pair(header: Seq<char>) -> Option<(Seq<char>, Seq<char>)> {
    let pair = header.take(first_of(header, ';'));
    let eq = first_of(pair, '=');
    if eq >= pair.len() {
        None
    } else {
        let name = trimmed(pair.take(eq));
        let value = trimmed(pair.skip(eq + 1));
        if name.len() == 0 {
            None
        } else {
            Some((name, value))
        }
    }
}

/// The name and value that a `Set-Cookie` header sets.
pub fn parse_cookie(header: &str) -> (r: Option<(String, String)>)
    ensures
        r.is_some() == cookie_pair(header@).is_some(),
        r matches Some(p) ==> Some((p.0@, p.1@)) == cookie_pair(header@),
{
    let chars = to_chars(header);
    let end = find_char(&chars, ';');
    let pair = slice_chars(&chars, 0, end);
    assert(pair@ == header@.take(end as int));
    let eq = find_char(&pair, '=');
    if eq >= pair.len() {
        return None;
    }
    let before = slice_chars(&pair, 0, eq);
    let after = slice_chars(&pair, eq + 1, pair.len());
    assert(before@ == pair@.take(eq as int));
    assert(after@ == pair@.skip(eq + 1));
    let name = trim(&before);
    let value = trim(&after);
    if name.len() == 0 {
        None
    } else {
        Some((from_chars(&name), from_chars(&value)))
    }
}

/// Whether `i` is the place of the first cookie named `name` in `jar`.
pub open spec fn is_first_named(jar: Seq<(Seq<char>, Seq<char>)>, name: Seq<char>, i: int) -> bool {
    0 <= i < jar.len() && jar[i].0 == name && forall|j: int| 0 <= j < i ==> jar[j].0 != name
}

/// Whether `jar` holds a cookie named `name`.
pub open spec fn has_cookie(jar: Seq<(Seq<char>, Seq<char>)>, name: Seq<char>) -> bool {
    exists|i: int| 0 <= i < jar.len() && (#[trigger] jar[i]).0 == name
}

/// `jar` after the cookie `name` was set to `value`: the first cookie of
/// that name has the new value, or, if there was none, the cookie stands
/// at the end.
pub open spec fn jar_put(jar: Seq<(Seq<char>, Seq<char>)>, name: Seq<char>, value: Seq<char>) -> Seq<
    (Seq<char>, Seq<char>),
> {
    if has_cookie(jar, name) {
        jar.update(choose|i: int| is_first_named(jar, name, i), (name, value))
    } else {
        jar.push((name, value))
    }
}

/// `jar` after each of the headers `headers` was taken note of, in order.
pub open spec fn merged(jar: Seq<(Seq<char>, Seq<char>)>, headers: Seq<Seq<char>>) -> Seq<
    (Seq<char>, Seq<char>),
>
    decreases headers.len(),
{
    if headers.len() == 0 {
        jar
    } else {
        let before = merged(jar, headers.drop_last());
        match cookie_pair(headers.last()) {
            Some(p) => jar_put(before, p.0, p.1),
            None => before,
        }
    }
}

/// The headers of a response that are taken note of: the first
/// `COOKIES_PER_RESPONSE`.
pub open spec fn noted(headers: Seq<Seq<char>>) -> Seq<Seq<char>> {
    if headers.len() <= COOKIES_PER_RESPONSE {
        headers
    } else {
        headers.take(COOKIES_PER_RESPONSE as int)
    }
}

/// `jar` after a response with the `Set-Cookie` headers `headers`.
pub open spec fn received(jar: Seq<(Seq<char>, Seq<char>)>, headers: Seq<Seq<char>>) -> Seq<
    (Seq<char>, Seq<char>),
> {
    merged(jar, noted(headers))
}

/// Whether no two cookies of `jar` have the same name.
pub open spec fn distinct_names(jar: Seq<(Seq<char>, Seq<char>)>) -> bool {
    forall|i: int, j: int|
        #![trigger jar[i], jar[j]]
        0 <= i < j < jar.len() ==> jar[i].0 != jar[j].0
}

/// Setting a cookie leaves it in the jar with its new value, keeps every
/// cookie of another name as it was and where it was, and keeps the names
/// distinct.
pub proof fn lemma_jar_put(jar: Seq<(Seq<char>, Seq<char>)>, name: Seq<char>, value: Seq<char>)
    ensures
        jar_put(jar, name, value).contains((name, value)),
        jar.len() <= jar_put(jar, name, value).len() <= jar.len() + 1,
        forall|i: int|
            0 <= i < jar.len() && (#[trigger] jar[i]).0 != name ==> jar_put(jar, name, value)[i]
                == jar[i],
        distinct_names(jar) ==> distinct_names(jar_put(jar, name, value)),
{
    let after = jar_put(jar, name, value);
    if has_cookie(jar, name) {
        let k = choose|i: int| 0 <= i < jar.len() && (#[trigger] jar[i]).0 == name;
        lemma_first_named_exists(jar, name, k);
        let i = choose|i: int| is_first_named(jar, name, i);
        assert(after[i] == (name, value));
    } else {
        assert(after[jar.len() as int] == (name, value));
    }
}

/// Where a cookie named `name` stands at `k`, a first one stands at or
/// before `k`.
pub proof fn lemma_first_named_exists(jar: Seq<(Seq<char>, Seq<char>)>, name: Seq<char>, k: int)
    requires
        0 <= k < jar.len(),
        jar[k].0 == name,
    ensures
        exists|i: int| is_first_named(jar, name, i),
    decreases k,
{
    if exists|j: int| 0 <= j < k && jar[j].0 == name {
        let j = choose|j: int| 0 <= j < k && jar[j].0 == name;
        lemma_first_named_exists(jar, name, j);
    } else {
        assert(is_first_named(jar, name, k));
    }
}

/// The jar stays a jar: taking note of headers keeps the names distinct.
pub proof fn lemma_merged_distinct(jar: Seq<(Seq<char>, Seq<char>)>, headers: Seq<Seq<char>>)
    requires
        distinct_names(jar),
    ensures
        distinct_names(merged(jar, headers)),
    decreases headers.len(),
{
    if headers.len() > 0 {
        lemma_merged_distinct(jar, headers.drop_last());
        match cookie_pair(headers.last()) {
            Some(p) => {
                lemma_jar_put(merged(jar, headers.drop_last()), p.0, p.1);
            },
            None => {},
        }
    }
}

/// A cookie that one of the headers sets, and that no later header sets
/// again, is in the jar afterwards with the value it was set to.
pub proof fn lemma_cookie_is_kept(
    jar: Seq<(Seq<char>, Seq<char>)>,
    headers: Seq<Seq<char>>,
    k: int,
)
    requires
        0 <= k < headers.len(),
        cookie_pair(headers[k]).is_some(),
        forall|j: int|
            k < j < headers.len() && cookie_pair(#[trigger] headers[j]).is_some() ==> cookie_pair(
                headers[j],
            ).unwrap().0 != cookie_pair(headers[k]).unwrap().0,
    ensures
        merged(jar, headers).contains(cookie_pair(headers[k]).unwrap()),
    decreases headers.len(),
{
    let wanted = cookie_pair(headers[k]).unwrap();
    let init = headers.drop_last();
    let before = merged(jar, init);
    if k == headers.len() - 1 {
        lemma_jar_put(before, wanted.0, wanted.1);
    } else {
        assert(init[k] == headers[k]);
        assert forall|j: int|
            k < j < init.len() && cookie_pair(#[trigger] init[j]).is_some() implies cookie_pair(
            init[j],
        ).unwrap().0 != wanted.0 by {
            assert(init[j] == headers[j]);
        }
        lemma_cookie_is_kept(jar, init, k);
        match cookie_pair(headers.last()) {
            Some(p) => {
                lemma_jar_put(before, p.0, p.1);
                let i = choose|i: int| 0 <= i < before.len() && before[i] == wanted;
                assert(jar_put(before, p.0, p.1)[i] == wanted);
            },
            None => {},
        }
    }
}

/// The value of the `Cookie` header that sends `jar`: each cookie as its
/// name, `=` and its value, with `; ` between each two.
pub open spec fn cookie_header(jar: Seq<(Seq<char>, Seq<char>)>) -> Seq<char>
    decreases jar.len(),
{
    if jar.len() == 0 {
        Seq::empty()
    } else if jar.len() == 1 {
        jar[0].0 + seq!['='] + jar[0].1
    } else {
        cookie_header(jar.drop_last()) + seq![';', ' '] + jar.last().0 + seq!['='] + jar.last().1
    }
}

/// The cookies of one retrieval, by name: no two cookies in a jar have the
/// same name.
#[derive(Debug)]
pub struct CookieJar {
    cookies: Vec<(String, String)>,
}

impl View for CookieJar {
    type V = Seq<(Seq<char>, Seq<char>)>;

    closed spec fn view(&self) -> Seq<(Seq<char>, Seq<char>)> {
        pair_views(self.cookies@)
    }
}

impl CookieJar {
    #[verifier::type_invariant]
    spec fn unique_by_name(self) -> bool {
        distinct_names(pair_views(self.cookies@))
    }

    /// The empty jar.
    pub fn new() -> (jar: CookieJar)
        ensures
            jar@.len() == 0,
    {
        let jar = CookieJar { cookies: Vec::new() };
        assert(jar@ =~= Seq::empty());
        jar
    }

    /// Whether the jar is empty. Whatever it holds, it holds each name
    /// once.
    pub fn is_empty(&self) -> (r: bool)
        ensures
            r == (self@.len() == 0),
            distinct_names(self@),
    {
        proof {
            use_type_invariant(self);
        }
        self.cookies.len() == 0
    }

    /// Sets the cookie `name` to `value`: a cookie of that name takes the
    /// new value where it stands, and a new name goes to the end.
    pub fn put(&mut self, name: String, value: String)
        ensures
            final(self)@ == jar_put(old(self)@, name@, value@),
            distinct_names(final(self)@),
    {
        proof {
            use_type_invariant(&*self);
            lemma_jar_put(self@, name@, value@);
        }
        let mut taken = CookieJar::new();
        core::mem::swap(self, &mut taken);
        let CookieJar { cookies } = taken;
        let mut cookies = cookies;
        let ghost before = pair_views(cookies@);
        let mut found: Option<usize> = None;
        let mut i: usize = 0;
        while i < cookies.len() && found.is_none()
            invariant
                i <= cookies.len(),
                before == pair_views(cookies@),
                found.is_none() ==> forall|j: int| 0 <= j < i ==> (#[trigger] before[j]).0 != name@,
                found matches Some(k) ==> is_first_named(before, name@, k as int),
            decreases cookies.len() - i + if found.is_none() { 1int } else { 0int },
        {
            if crate::text::same_text(cookies[i].0.as_str(), name.as_str()) {
                assert(before[i as int].0 == name@);
                found = Some(i);
            } else {
                i += 1;
            }
        }
        match found {
            Some(k) => {
                assert(has_cookie(before, name@));
                cookies.set(k, (name, value));
                assert(pair_views(cookies@) =~= before.update(k as int, (name@, value@)));
            },
            None => {
                assert(!has_cookie(before, name@));
                cookies.push((name, value));
                assert(pair_views(cookies@) =~= before.push((name@, value@)));
            },
        }
        *self = CookieJar { cookies };
    }

    /// Takes note of the `Set-Cookie` headers of one response.
    pub fn receive(&mut self, set_cookies: &Vec<String>)
        ensures
            final(self)@ == received(old(self)@, crate::config::texts(set_cookies@)),
            distinct_names(final(self)@),
    {
        proof {
            use_type_invariant(&*self);
        }
        let ghost headers = crate::config::texts(set_cookies@);
        let n = if set_cookies.len() <= COOKIES_PER_RESPONSE {
            set_cookies.len()
        } else {
            COOKIES_PER_RESPONSE
        };
        assert(noted(headers) =~= headers.take(n as int));
        let mut i: usize = 0;
        while i < n
            invariant
                i <= n <= set_cookies.len(),
                headers == crate::config::texts(set_cookies@),
                self@ == merged(old(self)@, headers.take(i as int)),
                distinct_names(self@),
            decreases n - i,
        {
            proof {
                let now = headers.take(i + 1);
                assert(now.drop_last() =~= headers.take(i as int));
                assert(now.last() == set_cookies@[i as int]@);
            }
            match parse_cookie(set_cookies[i].as_str()) {
                Some(p) => {
                    self.put(p.0, p.1);
                },
                None => {},
            }
            i += 1;
        }
    }

    /// The value of the `Cookie` header that sends the jar.
    pub fn header(&self) -> (r: String)
        ensures
            r@ == cookie_header(self@),
    {
        let mut out: Vec<char> = Vec::new();
        let mut i: usize = 0;
        assert(self@.take(0) =~= Seq::empty());
        while i < self.cookies.len()
            invariant
                i <= self.cookies.len(),
                out@ == cookie_header(self@.take(i as int)),
            decreases self.cookies.len() - i,
        {
            proof {
                let now = self@.take(i + 1);
                assert(now.drop_last() =~= self@.take(i as int));
                assert(now.last() == self@[i as int]);
                if i == 0 {
                    assert(now[0] == self@[0]);
                }
            }
            if i > 0 {
                out.push(';');
                out.push(' ');
            }
            crate::text::push_str(&mut out, self.cookies[i].0.as_str());
            out.push('=');
            crate::text::push_str(&mut out, self.cookies[i].1.as_str());
            proof {
                let now = self@.take(i + 1);
                assert(out@ =~= cookie_header(now));
            }
            i += 1;
        }
        assert(self@.take(self.cookies.len() as int) =~= self@);
        from_chars(&out)
    }
}

} // verus!
