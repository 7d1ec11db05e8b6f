//! Characters and strings as sequences of `char`.
//!
//! Contracts in this crate speak of a string through its view, a `Seq<char>`.
//! The functions here move between `&str`, `String` and `Vec<char>` and give
//! the few string operations the rest of the crate is built from.

use vstd::prelude::*;

verus! {

/// `String::push` appends one character.
pub assume_specification[ String::push ](s: &mut String, ch: char)
    ensures
        final(s)@ == old(s)@.push(ch),
;

/// Whether `c` has the Unicode property `Alphabetic`, as
/// `char::is_alphabetic` tells it.
pub uninterp spec fn alphabetic(c: char) -> bool;

/// `char::is_alphabetic` depends on the character alone.
pub assume_specification[ char::is_alphabetic ](c: char) -> (b: bool)
    ensures
        b == alphabetic(c),
;

/// The characters of `s`, in order.
pub fn to_chars(s: &str) -> (v: Vec<char>)
    ensures
        v@ == s@,
{
    let mut v: Vec<char> = Vec::new();
    for c in it: s.chars()
        invariant
            it.seq() == s@,
            v@ == it.seq().take(it.index()),
    {
        v.push(c);
    }
    v
}

/// The string made of the characters of `v`.
pub fn from_chars(v: &Vec<char>) -> (s: String)
    ensures
        s@ == v@,
{
    let mut s = String::new();
    let mut i: usize = 0;
    while i < v.len()
        invariant
            i <= v.len(),
            s@ == v@.take(i as int),
        decreases v.len() - i,
    {
        s.push(v[i]);
        i += 1;
    }
    s
}

/// Whether two strings hold the same characters.
pub fn same_text(a: &str, b: &str) -> (r: bool)
    ensures
        r == (a@ == b@),
{
    let x = a.to_owned();
    let y = b.to_owned();
    x == y
}

/// Appends the characters of `src` to `dst`.
pub fn push_all(dst: &mut Vec<char>, src: &Vec<char>)
    ensures
        final(dst)@ == old(dst)@ + src@,
{
    let mut i: usize = 0;
    while i < src.len()
        invariant
            i <= src.len(),
            dst@ == old(dst)@ + src@.take(i as int),
        decreases src.len() - i,
    {
        dst.push(src[i]);
        i += 1;
    }
}

/// Appends the characters of `s` to `dst`.
pub fn push_str(dst: &mut Vec<char>, s: &str)
    ensures
        final(dst)@ == old(dst)@ + s@,
{
    let src = to_chars(s);
    push_all(dst, &src);
}

/// The characters `v[from..to]` as a vector of their own.
pub(crate) fn slice_chars(v: &Vec<char>, from: usize, to: usize) -> (r: Vec<char>)
    requires
        from <= to <= v.len(),
    ensures
        r@ == v@.subrange(from as int, to as int),
{
    let mut r: Vec<char> = Vec::new();
    let mut i: usize = from;
    while i < to
        invariant
            from <= i <= to <= v.len(),
            r@ == v@.subrange(from as int, i as int),
        decreases to - i,
    {
        r.push(v[i]);
        i += 1;
    }
    r
}

/// Whether `s` begins with `prefix`.
pub open spec fn has_prefix(s: Seq<char>, prefix: Seq<char>) -> bool {
    prefix.len() <= s.len() && s.take(prefix.len() as int) == prefix
}

/// Whether `s` begins with `prefix`.
pub fn starts_with(s: &Vec<char>, prefix: &Vec<char>) -> (r: bool)
    ensures
        r == has_prefix(s@, prefix@),
{
    if prefix.len() > s.len() {
        return false;
    }
    let mut i: usize = 0;
    while i < prefix.len()
        invariant
            i <= prefix.len() <= s.len(),
            s@.take(i as int) == prefix@.take(i as int),
        decreases prefix.len() - i,
    {
        if s[i] != prefix[i] {
            assert(s@.take(prefix.len() as int)[i as int] != prefix@[i as int]);
            return false;
        }
        assert(s@.take(i + 1) == s@.take(i as int).push(s@[i as int]));
        assert(prefix@.take(i + 1) == prefix@.take(i as int).push(prefix@[i as int]));
        i += 1;
    }
    assert(prefix@.take(prefix.len() as int) == prefix@);
    true
}

/// Whether `c` occurs in `s`.
pub fn contains_char(s: &Vec<char>, c: char) -> (r: bool)
    ensures
        r == s@.contains(c),
{
    let mut i: usize = 0;
    while i < s.len()
        invariant
            i <= s.len(),
            forall|j: int| 0 <= j < i ==> s@[j] != c,
        decreases s.len() - i,
    {
        if s[i] == c {
            return true;
        }
        i += 1;
    }
    false
}

/// The white-space characters: those with the Unicode property
/// `White_Space`.
pub open spec fn is_space_char(c: char) -> bool {
    let u = c as u32;
    (0x09 <= u <= 0x0d) || u == 0x20 || u == 0x85 || u == 0xa0 || u == 0x1680 || (0x2000 <= u
        <= 0x200a) || u == 0x2028 || u == 0x2029 || u == 0x202f || u == 0x205f || u == 0x3000
}

/// Whether `c` is white space.
pub fn is_space(c: char) -> (b: bool)
    ensures
        b == is_space_char(c),
{
    let u: u32 = c as u32;
    (0x09 <= u && u <= 0x0d) || u == 0x20 || u == 0x85 || u == 0xa0 || u == 0x1680 || (0x2000 <= u
        && u <= 0x200a) || u == 0x2028 || u == 0x2029 || u == 0x202f || u == 0x205f || u == 0x3000
}

/// The words of `s`: its maximal runs of characters that are not white
/// space, in order. The words of a string are those of the string without
/// its last character, where that character, unless it is white space,
/// either extends the last word or begins a new one.
pub open spec fn words(s: Seq<char>) -> Seq<Seq<char>>
    decreases s.len(),
{
    if s.len() == 0 {
        Seq::empty()
    } else {
        let before = words(s.drop_last());
        if is_space_char(s.last()) {
            before
        } else if s.len() >= 2 && !is_space_char(s[s.len() - 2]) && before.len() > 0 {
            before.drop_last().push(before.last().push(s.last()))
        } else {
            before.push(seq![s.last()])
        }
    }
}

/// The words `ws` with one space between each two neighbours.
pub open spec fn join_words(ws: Seq<Seq<char>>) -> Seq<char>
    decreases ws.len(),
{
    if ws.len() == 0 {
        Seq::empty()
    } else if ws.len() == 1 {
        ws[0]
    } else {
        join_words(ws.drop_last()) + seq![' '] + ws.last()
    }
}

/// `s` on one line: its words, one space between each two.
pub open spec fn single_spaced(s: Seq<char>) -> Seq<char> {
    join_words(words(s))
}

/// Whether `w` is a word: not empty, and without white space.
pub open spec fn is_word(w: Seq<char>) -> bool {
    w.len() > 0 && forall|i: int| 0 <= i < w.len() ==> !is_space_char(#[trigger] w[i])
}

/// Every element of `words(s)` is a word, and `s` ends in white space or in
/// its last word.
pub proof fn lemma_words_are_words(s: Seq<char>)
    ensures
        forall|k: int| 0 <= k < words(s).len() ==> is_word(#[trigger] words(s)[k]),
        s.len() > 0 && !is_space_char(s.last()) ==> words(s).len() > 0,
    decreases s.len(),
{
    if s.len() > 0 {
        lemma_words_are_words(s.drop_last());
        let before = words(s.drop_last());
        if !is_space_char(s.last()) && s.len() >= 2 && !is_space_char(s[s.len() - 2]) && before.len()
            > 0 {
            let w = before.last().push(s.last());
            assert(is_word(before.last()));
            assert forall|i: int| 0 <= i < w.len() implies !is_space_char(#[trigger] w[i]) by {
                if i < w.len() - 1 {
                    assert(w[i] == before.last()[i]);
                }
            }
            assert(is_word(w));
        } else if !is_space_char(s.last()) {
            assert(is_word(seq![s.last()]));
        }
    }
}

/// The views of the vectors of `v`.
pub open spec fn views(v: Seq<Vec<char>>) -> Seq<Seq<char>> {
    Seq::new(v.len(), |i: int| v[i]@)
}

/// The words of `s`.
pub fn split_words(s: &Vec<char>) -> (out: Vec<Vec<char>>)
    ensures
        views(out@) == words(s@),
{
    let mut out: Vec<Vec<char>> = Vec::new();
    let mut cur: Vec<char> = Vec::new();
    let mut i: usize = 0;
    while i < s.len()
        invariant
            i <= s.len(),
            cur@.len() == 0 ==> words(s@.take(i as int)) == views(out@) && (i == 0
                || is_space_char(s@[i - 1])),
            cur@.len() > 0 ==> words(s@.take(i as int)) == views(out@).push(cur@) && i > 0
                && !is_space_char(s@[i - 1]),
        decreases s.len() - i,
    {
        let c = s[i];
        let ghost pre = s@.take(i as int);
        let ghost now = s@.take(i + 1);
        assert(now.drop_last() == pre);
        assert(now.last() == c);
        let ghost done = views(out@);
        if is_space(c) {
            if cur.len() > 0 {
                out.push(cur);
                cur = Vec::new();
                assert(views(out@) =~= done.push(out@.last()@));
            }
        } else {
            let ghost old_cur = cur@;
            cur.push(c);
            proof {
                if old_cur.len() > 0 {
                    assert(done.push(old_cur).drop_last() =~= done);
                    assert(done.push(old_cur).last() == old_cur);
                    assert(now[now.len() - 2] == s@[i - 1]);
                } else {
                    assert(cur@ =~= seq![c]);
                    if i > 0 {
                        assert(now[now.len() - 2] == s@[i - 1]);
                    }
                }
            }
        }
        i += 1;
    }
    assert(s@.take(s.len() as int) == s@);
    if cur.len() > 0 {
        let ghost done = views(out@);
        out.push(cur);
        assert(views(out@) =~= done.push(out@.last()@));
    }
    out
}

/// The words `ws` with one space between each two neighbours.
pub fn join_with_spaces(ws: &Vec<Vec<char>>) -> (out: Vec<char>)
    ensures
        out@ == join_words(views(ws@)),
{
    let mut out: Vec<char> = Vec::new();
    let mut i: usize = 0;
    while i < ws.len()
        invariant
            i <= ws.len(),
            out@ == join_words(views(ws@).take(i as int)),
        decreases ws.len() - i,
    {
        let ghost pre = views(ws@).take(i as int);
        let ghost now = views(ws@).take(i + 1);
        assert(now.drop_last() =~= pre);
        assert(now.last() == ws@[i as int]@);
        if i > 0 {
            out.push(' ');
        }
        push_all(&mut out, &ws[i]);
        proof {
            if i == 0 {
                assert(now.len() == 1);
                assert(out@ == now[0]);
            }
        }
        i += 1;
    }
    assert(views(ws@).take(ws.len() as int) =~= views(ws@));
    out
}

/// The view of an optional string.
pub open spec fn opt_view(s: Option<String>) -> Option<Seq<char>> {
    match s {
        Some(t) => Some(t@),
        None => None,
    }
}

/// The decimal digit for `d`, which is below ten.
pub open spec fn digit(d: nat) -> char {
    if d == 0 {
        '0'
    } else if d == 1 {
        '1'
    } else if d == 2 {
        '2'
    } else if d == 3 {
        '3'
    } else if d == 4 {
        '4'
    } else if d == 5 {
        '5'
    } else if d == 6 {
        '6'
    } else if d == 7 {
        '7'
    } else if d == 8 {
        '8'
    } else {
        '9'
    }
}

/// `n` written in decimal, without leading zeros.
pub open spec fn decimal(n: nat) -> Seq<char>
    decreases n,
{
    if n < 10 {
        seq![digit(n)]
    } else {
        decimal(n / 10).push(digit(n % 10))
    }
}

/// The decimal digit for `d`.
pub(crate) fn digit_char(d: u64) -> (c: char)
    requires
        d < 10,
    ensures
        c == digit(d as nat),
{
    if d == 0 {
        '0'
    } else if d == 1 {
        '1'
    } else if d == 2 {
        '2'
    } else if d == 3 {
        '3'
    } else if d == 4 {
        '4'
    } else if d == 5 {
        '5'
    } else if d == 6 {
        '6'
    } else if d == 7 {
        '7'
    } else if d == 8 {
        '8'
    } else {
        '9'
    }
}

/// Appends `n` in decimal to `out`.
pub fn push_decimal(out: &mut Vec<char>, n: u64)
    ensures
        final(out)@ == old(out)@ + decimal(n as nat),
    decreases n,
{
    if n >= 10 {
        push_decimal(out, n / 10);
    }
    out.push(digit_char(n % 10));
    assert(out@ =~= old(out)@ + decimal(n as nat));
}

/// The number of white-space characters at the start of `s`.
pub open spec fn leading_spaces(s: Seq<char>) -> nat
    decreases s.len(),
{
    if s.len() > 0 && is_space_char(s[0]) {
        1 + leading_spaces(s.skip(1))
    } else {
        0
    }
}

/// The number of white-space characters at the end of `s`.
pub open spec fn trailing_spaces(s: Seq<char>) -> nat
    decreases s.len(),
{
    if s.len() > 0 && is_space_char(s.last()) {
        1 + trailing_spaces(s.drop_last())
    } else {
        0
    }
}

/// `s` without the white space at its start and at its end.
pub open spec fn trimmed(s: Seq<char>) -> Seq<char> {
    if leading_spaces(s) >= s.len() {
        Seq::empty()
    } else {
        s.subrange(leading_spaces(s) as int, s.len() - trailing_spaces(s))
    }
}

/// `s` without the white space at its start and at its end.
pub fn trim(s: &Vec<char>) -> (r: Vec<char>)
    ensures
        r@ == trimmed(s@),
{
    let mut a: usize = 0;
    assert(s@.skip(0) =~= s@);
    while a < s.len() && is_space(s[a])
        invariant
            a <= s.len(),
            leading_spaces(s@) == a + leading_spaces(s@.skip(a as int)),
        decreases s.len() - a,
    {
        assert(s@.skip(a as int)[0] == s@[a as int]);
        assert(s@.skip(a as int).skip(1) =~= s@.skip(a + 1));
        a += 1;
    }
    if a == s.len() {
        return Vec::new();
    }
    assert(s@.skip(a as int)[0] == s@[a as int]);
    assert(leading_spaces(s@) == a);
    let mut end: usize = s.len();
    assert(s@.take(end as int) =~= s@);
    while end > a + 1 && is_space(s[end - 1])
        invariant
            a < end <= s.len(),
            !is_space_char(s@[a as int]),
            trailing_spaces(s@) == (s.len() - end) + trailing_spaces(s@.take(end as int)),
        decreases end,
    {
        assert(s@.take(end as int).last() == s@[end - 1]);
        assert(s@.take(end as int).drop_last() =~= s@.take(end - 1));
        end -= 1;
    }
    assert(s@.take(end as int).last() == s@[end - 1]);
    assert(trailing_spaces(s@) == s.len() - end);
    slice_chars(s, a, end)
}

/// Whether `i` is the place of the first `c` in `s`.
pub open spec fn is_first_char_at(s: Seq<char>, c: char, i: int) -> bool {
    0 <= i < s.len() && s[i] == c && forall|j: int| 0 <= j < i ==> s[j] != c
}

/// The place of the first `c` in `s`; the length of `s` where it holds
/// none.
pub open spec fn first_of(s: Seq<char>, c: char) -> int {
    if s.contains(c) {
        choose|i: int| is_first_char_at(s, c, i)
    } else {
        s.len() as int
    }
}

/// The place of the first `c` in `s`; the length of `s` where it holds
/// none.
pub fn find_char(s: &Vec<char>, c: char) -> (i: usize)
    ensures
        i == first_of(s@, c),
        i <= s.len(),
        i < s.len() ==> s@[i as int] == c,
{
    let mut i: usize = 0;
    while i < s.len()
        invariant
            i <= s.len(),
            forall|j: int| 0 <= j < i ==> s@[j] != c,
        decreases s.len() - i,
    {
        if s[i] == c {
            assert(is_first_char_at(s@, c, i as int));
            assert(s@.contains(c));
            return i;
        }
        i += 1;
    }
    assert(!s@.contains(c));
    i
}

/// Whether `s` is nothing but white space.
pub open spec fn is_blank(s: Seq<char>) -> bool {
    forall|i: int| 0 <= i < s.len() ==> is_space_char(#[trigger] s[i])
}

/// A string of nothing but white space has no word.
pub proof fn lemma_blank_has_no_words(s: Seq<char>)
    requires
        is_blank(s),
    ensures
        words(s).len() == 0,
    decreases s.len(),
{
    if s.len() > 0 {
        assert(is_space_char(s[s.len() - 1]));
        assert forall|i: int| 0 <= i < s.drop_last().len() implies is_space_char(
            #[trigger] s.drop_last()[i],
        ) by {
            assert(s.drop_last()[i] == s[i]);
        }
        lemma_blank_has_no_words(s.drop_last());
    }
}

/// Whether every element of `ws` is a word.
pub open spec fn all_words(ws: Seq<Seq<char>>) -> bool {
    forall|k: int| 0 <= k < ws.len() ==> is_word(#[trigger] ws[k])
}

/// Whether `t` is tidy: it neither begins nor ends with white space, and
/// every white-space character in it is a single space between two
/// characters that are none.
pub open spec fn is_tidy(t: Seq<char>) -> bool {
    &&& t.len() > 0 ==> !is_space_char(t[0]) && !is_space_char(t.last())
    &&& forall|i: int|
        0 <= i < t.len() && is_space_char(#[trigger] t[i]) ==> t[i] == ' ' && 0 < i < t.len() - 1
            && !is_space_char(t[i - 1]) && !is_space_char(t[i + 1])
}

/// Words joined by single spaces make a tidy string, which is empty only
/// if there is no word.
pub proof fn lemma_join_is_tidy(ws: Seq<Seq<char>>)
    requires
        all_words(ws),
    ensures
        is_tidy(join_words(ws)),
        ws.len() > 0 ==> join_words(ws).len() > 0,
        ws.len() == 0 ==> join_words(ws).len() == 0,
    decreases ws.len(),
{
    if ws.len() == 1 {
        assert(is_word(ws[0]));
    } else if ws.len() > 1 {
        let init = ws.drop_last();
        let w = ws.last();
        assert(is_word(ws[ws.len() - 1]));
        assert forall|k: int| 0 <= k < init.len() implies is_word(#[trigger] init[k]) by {
            assert(init[k] == ws[k]);
        }
        lemma_join_is_tidy(init);
        let a = join_words(init);
        let t = join_words(ws);
        assert(t == a + seq![' '] + w);
        assert forall|i: int| 0 <= i < t.len() && is_space_char(#[trigger] t[i]) implies t[i] == ' '
            && 0 < i < t.len() - 1 && !is_space_char(t[i - 1]) && !is_space_char(t[i + 1]) by {
            if i < a.len() {
                assert(t[i] == a[i]);
                assert(t[i - 1] == a[i - 1]);
                assert(i + 1 < a.len());
                assert(t[i + 1] == a[i + 1]);
            } else if i == a.len() {
                assert(t[i - 1] == a.last());
                assert(t[i + 1] == w[0]);
            } else {
                assert(t[i] == w[i - a.len() - 1]);
            }
        }
        assert(t[0] == a[0]);
        assert(t.last() == w.last());
    }
}

/// A word put after a string that is empty or ends in white space is one
/// more word of it.
pub proof fn lemma_words_append_word(x: Seq<char>, w: Seq<char>)
    requires
        is_word(w),
        x.len() == 0 || is_space_char(x.last()),
    ensures
        words(x + w) == words(x).push(w),
    decreases w.len(),
{
    let s = x + w;
    let c = w.last();
    let rest = w.drop_last();
    assert(s.drop_last() =~= x + rest);
    assert(s.last() == c);
    assert(!is_space_char(w[w.len() - 1]));
    if rest.len() == 0 {
        assert(x + rest =~= x);
        assert(w =~= seq![c]);
        if s.len() >= 2 {
            assert(s[s.len() - 2] == x.last());
        }
    } else {
        assert forall|i: int| 0 <= i < rest.len() implies !is_space_char(#[trigger] rest[i]) by {
            assert(rest[i] == w[i]);
        }
        lemma_words_append_word(x, rest);
        assert(s[s.len() - 2] == rest.last());
        assert(rest.last() == w[w.len() - 2]);
        assert(words(x).push(rest).drop_last() =~= words(x));
        assert(rest.push(c) =~= w);
    }
}

/// The words of words joined by single spaces are those words.
pub proof fn lemma_words_of_join(ws: Seq<Seq<char>>)
    requires
        all_words(ws),
    ensures
        words(join_words(ws)) == ws,
    decreases ws.len(),
{
    if ws.len() == 0 {
        assert(words(join_words(ws)) =~= ws);
    } else if ws.len() == 1 {
        assert(is_word(ws[0]));
        lemma_words_append_word(Seq::empty(), ws[0]);
        assert(Seq::<char>::empty() + ws[0] =~= ws[0]);
        assert(Seq::<Seq<char>>::empty().push(ws[0]) =~= ws);
    } else {
        let init = ws.drop_last();
        let w = ws.last();
        assert(is_word(ws[ws.len() - 1]));
        assert forall|k: int| 0 <= k < init.len() implies is_word(#[trigger] init[k]) by {
            assert(init[k] == ws[k]);
        }
        lemma_words_of_join(init);
        let x = join_words(init) + seq![' '];
        assert(x.drop_last() =~= join_words(init));
        assert(x.last() == ' ');
        assert(words(x) == init);
        lemma_words_append_word(x, w);
        assert(init.push(w) =~= ws);
    }
}

/// Putting a string on one line makes it tidy and keeps its words: every
/// run of white space, line breaks included, has become one space, none is
/// left at either end, and what is no white space stands as it stood. The
/// result is empty exactly if the string has no word, and putting it on
/// one line again changes nothing.
pub proof fn lemma_single_spaced(s: Seq<char>)
    ensures
        is_tidy(single_spaced(s)),
        words(single_spaced(s)) == words(s),
        single_spaced(single_spaced(s)) == single_spaced(s),
        (single_spaced(s).len() == 0) == (words(s).len() == 0),
{
    lemma_words_are_words(s);
    lemma_join_is_tidy(words(s));
    lemma_words_of_join(words(s));
}

/// Whether `needle` stands in `hay` at the place `at`.
pub open spec fn occurs_at(hay: Seq<char>, needle: Seq<char>, at: int) -> bool {
    0 <= at && at + needle.len() <= hay.len() && hay.subrange(at, at + needle.len()) == needle
}

/// Whether `needle` stands somewhere in `hay`.
pub open spec fn has_part(hay: Seq<char>, needle: Seq<char>) -> bool {
    exists|at: int| occurs_at(hay, needle, at)
}

/// Whether `needle` stands in `hay` at the place `at`.
pub fn stands_at(hay: &Vec<char>, needle: &Vec<char>, at: usize) -> (r: bool)
    ensures
        r == occurs_at(hay@, needle@, at as int),
{
    if at > hay.len() || needle.len() > hay.len() - at {
        return false;
    }
    let ghost part = hay@.subrange(at as int, at + needle.len());
    let mut i: usize = 0;
    while i < needle.len()
        invariant
            i <= needle.len(),
            at + needle.len() <= hay.len(),
            part == hay@.subrange(at as int, at + needle.len()),
            part.take(i as int) == needle@.take(i as int),
        decreases needle.len() - i,
    {
        assert(part[i as int] == hay@[at + i]);
        if hay[at + i] != needle[i] {
            return false;
        }
        assert(part.take(i + 1) == part.take(i as int).push(part[i as int]));
        assert(needle@.take(i + 1) == needle@.take(i as int).push(needle@[i as int]));
        i += 1;
    }
    assert(part.take(needle.len() as int) == part);
    assert(needle@.take(needle.len() as int) == needle@);
    true
}

/// Whether `needle` stands somewhere in `hay`.
pub fn contains_part(hay: &Vec<char>, needle: &Vec<char>) -> (r: bool)
    ensures
        r == has_part(hay@, needle@),
{
    let mut at: usize = 0;
    while at < hay.len()
        invariant
            at <= hay.len(),
            forall|k: int| 0 <= k < at ==> !occurs_at(hay@, needle@, k),
        decreases hay.len() - at,
    {
        if stands_at(hay, needle, at) {
            return true;
        }
        at += 1;
    }
    stands_at(hay, needle, at)
}

/// `s` without the white space at its end.
pub open spec fn trimmed_end(s: Seq<char>) -> Seq<char> {
    s.take(s.len() - trailing_spaces(s))
}

/// `s` without the white space at its end.
pub fn trim_end(s: &Vec<char>) -> (r: Vec<char>)
    ensures
        r@ == trimmed_end(s@),
{
    let mut end: usize = s.len();
    assert(s@.take(end as int) =~= s@);
    while end > 0 && is_space(s[end - 1])
        invariant
            end <= s.len(),
            trailing_spaces(s@) == (s.len() - end) + trailing_spaces(s@.take(end as int)),
        decreases end,
    {
        assert(s@.take(end as int).last() == s@[end - 1]);
        assert(s@.take(end as int).drop_last() =~= s@.take(end - 1));
        end -= 1;
    }
    proof {
        if end > 0 {
            assert(s@.take(end as int).last() == s@[end - 1]);
        }
        assert(trailing_spaces(s@) == s.len() - end);
        assert(s@.subrange(0, end as int) =~= s@.take(end as int));
    }
    slice_chars(s, 0, end)
}

/// The lines of `s`: what stands between its line feeds, and before the
/// first and after the last; but nothing after a line feed at the very
/// end.
pub open spec fn lines(s: Seq<char>) -> Seq<Seq<char>>
    decreases s.len(),
{
    if s.len() == 0 {
        Seq::empty()
    } else {
        let before = lines(s.drop_last());
        let open = s.len() >= 2 && s[s.len() - 2] != '\n' && before.len() > 0;
        if s.last() == '\n' {
            if open {
                before
            } else {
                before.push(Seq::empty())
            }
        } else if open {
            before.drop_last().push(before.last().push(s.last()))
        } else {
            before.push(seq![s.last()])
        }
    }
}

/// The lines of `s`.
pub fn split_lines(s: &Vec<char>) -> (out: Vec<Vec<char>>)
    ensures
        views(out@) == lines(s@),
{
    let mut out: Vec<Vec<char>> = Vec::new();
    let mut cur: Vec<char> = Vec::new();
    let mut open = false;
    let mut i: usize = 0;
    assert(views(out@) =~= Seq::empty());
    while i < s.len()
        invariant
            i <= s.len(),
            open == (i > 0 && s@[i - 1] != '\n'),
            !open ==> lines(s@.take(i as int)) == views(out@) && cur@.len() == 0,
            open ==> lines(s@.take(i as int)) == views(out@).push(cur@),
        decreases s.len() - i,
    {
        let c = s[i];
        let ghost pre = s@.take(i as int);
        let ghost now = s@.take(i + 1);
        let ghost done = views(out@);
        let ghost old_cur = cur@;
        proof {
            assert(now.drop_last() == pre);
            assert(now.last() == c);
            if i > 0 {
                assert(now[now.len() - 2] == s@[i - 1]);
            }
            if open {
                assert(done.push(old_cur).drop_last() =~= done);
                assert(done.push(old_cur).last() == old_cur);
            } else {
                assert(old_cur =~= Seq::empty());
            }
        }
        if c == '\n' {
            out.push(cur);
            cur = Vec::new();
            open = false;
            assert(views(out@) =~= done.push(old_cur));
        } else {
            cur.push(c);
            open = true;
            proof {
                if old_cur.len() == 0 {
                    assert(cur@ =~= seq![c]);
                }
            }
        }
        i += 1;
    }
    assert(s@.take(s.len() as int) == s@);
    if open {
        let ghost done = views(out@);
        out.push(cur);
        assert(views(out@) =~= done.push(out@.last()@));
    }
    out
}

} // verus!
