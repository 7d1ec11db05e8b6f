//! Configurations for Nix: the Nix spelling of a configuration that is
//! written as JSON, one value to a line.

use crate::text::{
    contains_char, contains_part, from_chars, has_part, lines, push_all, split_lines, to_chars,
    trim_end, trimmed_end, views,
};
use vstd::prelude::*;

verus! {

/// `s` with ` =` for every colon and without its commas.
pub open spec fn respelled(s: Seq<char>) -> Seq<char>
    decreases s.len(),
{
    if s.len() == 0 {
        Seq::empty()
    } else if s.last() == ':' {
        respelled(s.drop_last()) + seq![' ', '=']
    } else if s.last() == ',' {
        respelled(s.drop_last())
    } else {
        respelled(s.drop_last()).push(s.last())
    }
}

/// `s` with ` =` for every colon and without its commas.
pub fn respell(s: &Vec<char>) -> (r: Vec<char>)
    ensures
        r@ == respelled(s@),
{
    let mut out: Vec<char> = Vec::new();
    let mut i: usize = 0;
    while i < s.len()
        invariant
            i <= s.len(),
            out@ == respelled(s@.take(i as int)),
        decreases s.len() - i,
    {
        let c = s[i];
        proof {
            let now = s@.take(i + 1);
            assert(now.drop_last() == s@.take(i as int));
            assert(now.last() == c);
        }
        let ghost before = out@;
        if c == ':' {
            out.push(' ');
            out.push('=');
            assert(out@ =~= before + seq![' ', '=']);
        } else if c != ',' {
            out.push(c);
        }
        i += 1;
    }
    assert(s@.take(s.len() as int) == s@);
    out
}

/// Whether an array is open after the line `line`, where `before` tells
/// whether one was open before it: a line with `]` closes it, and else a
/// line with `= [` opens one.
pub open spec fn in_array_after(before: bool, line: Seq<char>) -> bool {
    if line.contains(']') {
        false
    } else if has_part(line, seq!['=', ' ', '[']) {
        true
    } else {
        before
    }
}

/// Whether an array is open after the lines `lines`.
pub open spec fn in_array(lines: Seq<Seq<char>>) -> bool
    decreases lines.len(),
{
    if lines.len() == 0 {
        false
    } else {
        in_array_after(in_array(lines.drop_last()), lines.last())
    }
}

/// The line `line` as it ends in Nix: without the white space at its end,
/// and with a semicolon unless an array is open after it or it ends in
/// `{`.
pub open spec fn nix_line(array_open: bool, line: Seq<char>) -> Seq<char> {
    trimmed_end(line) + (if !array_open && !(line.len() > 0 && line.last() == '{') {
        seq![';']
    } else {
        Seq::empty()
    }) + seq!['\n']
}

/// The lines `lines` as they end in Nix, one after the other.
pub open spec fn nix_text(lines: Seq<Seq<char>>) -> Seq<char>
    decreases lines.len(),
{
    if lines.len() == 0 {
        Seq::empty()
    } else {
        nix_text(lines.drop_last()) + nix_line(in_array(lines), lines.last())
    }
}

/// The Nix spelling of the JSON text `json`.
pub open spec fn nix_of(json: Seq<char>) -> Seq<char> {
    nix_text(lines(respelled(json)))
}

/// The Nix spelling of a configuration written as JSON with one value to
/// a line: ` =` stands for every colon, the commas are gone, and every
/// line ends in a semicolon but those inside an array and those that end
/// in `{`.
pub fn serialise_nix(json: &str) -> (r: String)
    ensures
        r@ == nix_of(json@),
{
    let text = respell(&to_chars(json));
    let all = split_lines(&text);
    let mut opener: Vec<char> = Vec::new();
    opener.push('=');
    opener.push(' ');
    opener.push('[');
    assert(opener@ =~= seq!['=', ' ', '[']);
    let mut out: Vec<char> = Vec::new();
    let mut array_open = false;
    let mut i: usize = 0;
    assert(views(all@).take(0) =~= Seq::empty());
    while i < all.len()
        invariant
            i <= all.len(),
            opener@ == seq!['=', ' ', '['],
            views(all@) == lines(respelled(json@)),
            array_open == in_array(views(all@).take(i as int)),
            out@ == nix_text(views(all@).take(i as int)),
        decreases all.len() - i,
    {
        let line = &all[i];
        proof {
            let now = views(all@).take(i + 1);
            assert(now.drop_last() =~= views(all@).take(i as int));
            assert(now.last() == line@);
        }
        if contains_char(line, ']') {
            array_open = false;
        } else if contains_part(line, &opener) {
            array_open = true;
        }
        let ghost before = out@;
        push_all(&mut out, &trim_end(line));
        if !array_open && !(line.len() > 0 && line[line.len() - 1] == '{') {
            out.push(';');
        }
        out.push('\n');
        assert(out@ =~= before + nix_line(array_open, line@));
        i += 1;
    }
    assert(views(all@).take(all.len() as int) =~= views(all@));
    from_chars(&out)
}

} // verus!
