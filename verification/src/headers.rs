//! The header parser: turns the captured response-header block into a
//! protocol version, a numeric status code and the ordered list of header
//! name/value pairs (duplicates preserved, order preserved, case untouched).
//!
//! The block is trimmed of leading/trailing blank space, then split into
//! lines. The first line must be a status line `<protocol>/<version> <code>
//! [reason]`; every further non-empty line must be a `name: value` header.

use crate::errors::Error;
use crate::text::{
    digits_end_from, exec_digits_end, exec_digits_val, exec_find_char, exec_skip_spaces,
    exec_skip_ws, find_from, is_ws, lemma_digits_end_from_bounds, seq_digits_val,
    skip_spaces_from, skip_ws_from, views_of,
};
use vstd::prelude::*;
use vstd::string::*;

verus! {

/// The parsed response headers.
#[derive(Debug, PartialEq, Eq)]
pub struct Headers {
    /// Protocol major version (the `1` of `HTTP/1.1`).
    pub version: u8,
    /// Numeric status code (the `404` of `HTTP/1.1 404 Not Found`).
    pub code: u16,
    /// Header name/value pairs, in captured order.
    pub items: Vec<(String, String)>,
}

/// Mathematical view of [`Headers`].
#[verifier::ext_equal]
pub ghost struct HeadersModel {
    pub version: u8,
    pub code: u16,
    pub items: Seq<(Seq<char>, Seq<char>)>,
}

/// The views of a sequence of string pairs.
pub open spec fn pair_views_of(v: Seq<(String, String)>) -> Seq<(Seq<char>, Seq<char>)> {
    Seq::new(v.len(), |i: int| (v[i].0@, v[i].1@))
}

impl Headers {
    pub open spec fn model(&self) -> HeadersModel {
        HeadersModel { version: self.version, code: self.code, items: pair_views_of(self.items@) }
    }
}

/// Index just past the last non-whitespace character before `upto`.
pub open spec fn trim_end_idx(s: Seq<char>, upto: int) -> int
    decreases upto,
{
    if upto <= 0 || !is_ws(s[upto - 1]) {
        upto
    } else {
        trim_end_idx(s, upto - 1)
    }
}

/// `s` without leading and trailing whitespace.
pub open spec fn trim_spec(s: Seq<char>) -> Seq<char> {
    let a = skip_ws_from(s, 0);
    let b = trim_end_idx(s, s.len() as int);
    if a <= b {
        s.subrange(a, b)
    } else {
        Seq::empty()
    }
}

/// A line without its trailing carriage return, if it has one.
pub open spec fn strip_cr(line: Seq<char>) -> Seq<char> {
    if line.len() > 0 && line.last() == '\r' {
        line.drop_last()
    } else {
        line
    }
}

/// The lines of `s[from..]`, split at `\n`, each without a trailing `\r`;
/// a final line terminator yields no extra empty line.
pub open spec fn split_lines_from(s: Seq<char>, from: int) -> Seq<Seq<char>>
    decreases s.len() - from,
        via split_lines_from_decreases
{
    if from >= s.len() || from < 0 {
        Seq::empty()
    } else {
        let i = find_from(s, '\n', from);
        if i == s.len() {
            seq![strip_cr(s.subrange(from, i))]
        } else {
            seq![strip_cr(s.subrange(from, i))] + split_lines_from(s, i + 1)
        }
    }
}

#[via_fn]
proof fn split_lines_from_decreases(s: Seq<char>, from: int) {
    if 0 <= from < s.len() {
        crate::text::lemma_find_from_bounds(s, '\n', from);
    }
}

/// The protocol major version of a status-line protocol token: the digits
/// after the first `/`, up to the next non-digit; must fit in `u8`.
pub open spec fn parse_version_spec(proto: Seq<char>) -> Option<u8> {
    let sl = find_from(proto, '/', 0);
    if sl == proto.len() {
        None
    } else {
        let ve = digits_end_from(proto, sl + 1);
        if ve == sl + 1 {
            None
        } else {
            let v = seq_digits_val(proto.subrange(sl + 1, ve));
            if v > 255 {
                None
            } else {
                Some(v as u8)
            }
        }
    }
}

/// The status code at the start of the status line's remainder: leading
/// spaces, digits that fit in `u16`, then a space or the end of the line
/// (anything after is the reason phrase, which is ignored).
pub open spec fn parse_code_spec(rest: Seq<char>) -> Option<u16> {
    let cs = skip_spaces_from(rest, 0);
    let ce = digits_end_from(rest, cs);
    if ce == cs {
        None
    } else {
        let c = seq_digits_val(rest.subrange(cs, ce));
        if c > 65535 {
            None
        } else if ce < rest.len() && rest[ce] != ' ' {
            None
        } else {
            Some(c as u16)
        }
    }
}

/// The version/code pair of a status line `<protocol>/<version> <code>
/// [reason]`, or `None` when the line has no such pair.
pub open spec fn parse_status_line_spec(line: Seq<char>) -> Option<(u8, u16)> {
    let sp = find_from(line, ' ', 0);
    if sp == line.len() {
        None
    } else {
        let proto = line.subrange(0, sp);
        let rest = line.subrange(sp + 1, line.len() as int);
        match parse_version_spec(proto) {
            None => None,
            Some(v) => match parse_code_spec(rest) {
                None => None,
                Some(c) => Some((v, c)),
            },
        }
    }
}

/// A header line split at its first space: the name token before it (without
/// its trailing colon, when it carries one), the rest of the line verbatim as
/// the value. A line with no space separator is malformed.
pub open spec fn parse_header_line_spec(line: Seq<char>) -> Option<(Seq<char>, Seq<char>)> {
    let sp = find_from(line, ' ', 0);
    if sp == line.len() {
        None
    } else {
        let name_tok = line.subrange(0, sp);
        let name = if name_tok.len() > 0 && name_tok.last() == ':' {
            name_tok.drop_last()
        } else {
            name_tok
        };
        Some((name, line.subrange(sp + 1, line.len() as int)))
    }
}

/// The header items of `ls[j..]`: empty lines are skipped, every other line
/// must parse as a header.
pub open spec fn parse_items_from(ls: Seq<Seq<char>>, j: int) -> Option<
    Seq<(Seq<char>, Seq<char>)>,
>
    decreases ls.len() - j,
{
    if j >= ls.len() {
        Some(Seq::empty())
    } else if ls[j].len() == 0 {
        parse_items_from(ls, j + 1)
    } else {
        match parse_header_line_spec(ls[j]) {
            None => None,
            Some(p) => match parse_items_from(ls, j + 1) {
                None => None,
                Some(rest) => Some(seq![p] + rest),
            },
        }
    }
}

/// The whole header block: trim, split into lines, parse the status line,
/// then every non-empty remaining line as a header item.
pub open spec fn parse_headers_spec(s: Seq<char>) -> Result<HeadersModel, Error> {
    let ls = split_lines_from(trim_spec(s), 0);
    if ls.len() == 0 {
        Err(Error::MalformedStatusLine)
    } else {
        match parse_status_line_spec(ls[0]) {
            None => Err(Error::MalformedStatusLine),
            Some((v, c)) => match parse_items_from(ls, 1) {
                None => Err(Error::MalformedHeaderLine),
                Some(items) => Ok(HeadersModel { version: v, code: c, items }),
            },
        }
    }
}

/// Index just past the last non-whitespace character of `s`.
fn exec_trim_end(s: &str) -> (r: usize)
    ensures
        r == trim_end_idx(s@, s@.len() as int),
        r <= s@.len(),
{
    let n = s.unicode_len();
    let mut b = n;
    while b > 0
        invariant
            b <= n,
            n == s@.len(),
            trim_end_idx(s@, n as int) == trim_end_idx(s@, b as int),
        decreases b,
    {
        let c = s.get_char(b - 1);
        if !(c == ' ' || c == '\t' || c == '\r' || c == '\n') {
            return b;
        }
        b = b - 1;
    }
    b
}

/// `s` without leading and trailing whitespace.
fn trim_str<'a>(s: &'a str) -> (r: &'a str)
    ensures
        r@ == trim_spec(s@),
{
    let a = exec_skip_ws(s, 0);
    let b = exec_trim_end(s);
    if a <= b {
        s.substring_char(a, b)
    } else {
        proof {
            reveal_strlit("");
            assert(""@ =~= trim_spec(s@));
        }
        ""
    }
}

/// The lines of `s`, split at `\n`, each without a trailing `\r`.
fn split_lines(s: &str) -> (r: Vec<String>)
    ensures
        views_of(r@) == split_lines_from(s@, 0),
{
    let n = s.unicode_len();
    let mut acc: Vec<String> = Vec::new();
    let mut pos: usize = 0;
    proof {
        assert(views_of(acc@) =~= Seq::<Seq<char>>::empty());
    }
    while pos < n
        invariant
            pos <= n,
            n == s@.len(),
            split_lines_from(s@, 0) =~= views_of(acc@) + split_lines_from(s@, pos as int),
        decreases n - pos,
    {
        let i = exec_find_char(s, '\n', pos);
        let line_end = if i > pos && s.get_char(i - 1) == '\r' {
            i - 1
        } else {
            i
        };
        let line = String::from_str(s.substring_char(pos, line_end));
        proof {
            if i > pos && s@[i - 1] == '\r' {
                assert(s@.subrange(pos as int, i as int).last() == s@[i - 1]);
                assert(s@.subrange(pos as int, i as int).drop_last() =~= s@.subrange(
                    pos as int,
                    i as int - 1,
                ));
            }
            assert(line@ =~= strip_cr(s@.subrange(pos as int, i as int)));
        }
        let ghost old_acc = acc@;
        acc.push(line);
        proof {
            assert(views_of(acc@) =~= views_of(old_acc).push(line@));
        }
        if i == n {
            proof {
                assert(views_of(acc@) =~= split_lines_from(s@, 0));
            }
            return acc;
        }
        proof {
            assert(views_of(acc@) + split_lines_from(s@, i as int + 1) =~= views_of(old_acc) + (
            seq![line@] + split_lines_from(s@, i as int + 1)));
        }
        pos = i + 1;
    }
    proof {
        assert(views_of(acc@) =~= split_lines_from(s@, 0));
    }
    acc
}

/// Parses a status line into its protocol major version and status code.
fn parse_status_line(line: &str) -> (r: Option<(u8, u16)>)
    ensures
        match r {
            Some(p) => parse_status_line_spec(line@) == Some((p.0, p.1)),
            None => parse_status_line_spec(line@) is None,
        },
{
    let n = line.unicode_len();
    let sp = exec_find_char(line, ' ', 0);
    if sp == n {
        return None;
    }
    let proto = line.substring_char(0, sp);
    let rest = line.substring_char(sp + 1, n);
    let v = match parse_version(proto) {
        Some(x) => x,
        None => {
            return None;
        },
    };
    let c = match parse_code(rest) {
        Some(x) => x,
        None => {
            return None;
        },
    };
    Some((v, c))
}

/// Parses the protocol token's major version.
fn parse_version(proto: &str) -> (r: Option<u8>)
    ensures
        match r {
            Some(v) => parse_version_spec(proto@) == Some(v),
            None => parse_version_spec(proto@) is None,
        },
{
    let n = proto.unicode_len();
    let sl = exec_find_char(proto, '/', 0);
    if sl == n {
        return None;
    }
    let ve = exec_digits_end(proto, sl + 1);
    if ve == sl + 1 {
        return None;
    }
    proof {
        lemma_digits_end_from_bounds(proto@, sl as int + 1);
    }
    match exec_digits_val(proto, sl + 1, ve, 255) {
        Some(v) => Some(v as u8),
        None => None,
    }
}

/// Parses the status code after the protocol token.
fn parse_code(rest: &str) -> (r: Option<u16>)
    ensures
        match r {
            Some(c) => parse_code_spec(rest@) == Some(c),
            None => parse_code_spec(rest@) is None,
        },
{
    let n = rest.unicode_len();
    let cs = exec_skip_spaces(rest, 0);
    let ce = exec_digits_end(rest, cs);
    if ce == cs {
        return None;
    }
    proof {
        lemma_digits_end_from_bounds(rest@, cs as int);
    }
    let c = match exec_digits_val(rest, cs, ce, 65535) {
        Some(x) => x,
        None => {
            return None;
        },
    };
    if ce < n && rest.get_char(ce) != ' ' {
        return None;
    }
    Some(c as u16)
}

/// Parses one header line into its name and value.
fn parse_header_line(line: &str) -> (r: Option<(String, String)>)
    ensures
        match r {
            Some(p) => parse_header_line_spec(line@) == Some((p.0@, p.1@)),
            None => parse_header_line_spec(line@) is None,
        },
{
    let n = line.unicode_len();
    let sp = exec_find_char(line, ' ', 0);
    if sp == n {
        return None;
    }
    let name_end = if sp > 0 && line.get_char(sp - 1) == ':' {
        sp - 1
    } else {
        sp
    };
    let name = String::from_str(line.substring_char(0, name_end));
    let value = String::from_str(line.substring_char(sp + 1, n));
    proof {
        let name_tok = line@.subrange(0, sp as int);
        if sp > 0 && line@[sp - 1] == ':' {
            assert(name_tok.last() == line@[sp - 1]);
            assert(name_tok.drop_last() =~= line@.subrange(0, sp as int - 1));
        }
    }
    Some((name, value))
}

/// Parses every line from `start` on as a header item, skipping empty lines.
fn parse_items(lines: &Vec<String>, start: usize) -> (r: Option<Vec<(String, String)>>)
    requires
        start <= lines@.len(),
    ensures
        match r {
            Some(items) => parse_items_from(views_of(lines@), start as int) == Some(
                pair_views_of(items@),
            ),
            None => parse_items_from(views_of(lines@), start as int) is None,
        },
{
    let ghost ls = views_of(lines@);
    let mut items: Vec<(String, String)> = Vec::new();
    let mut j = start;
    proof {
        assert(pair_views_of(items@) =~= Seq::<(Seq<char>, Seq<char>)>::empty());
    }
    while j < lines.len()
        invariant
            start <= j <= lines@.len(),
            ls == views_of(lines@),
            parse_items_from(ls, j as int) is Some ==> parse_items_from(ls, start as int)
                == Some(
                pair_views_of(items@) + parse_items_from(ls, j as int)->Some_0,
            ),
            parse_items_from(ls, j as int) is None ==> parse_items_from(
                ls,
                start as int,
            ) is None,
        decreases lines@.len() - j,
    {
        let line = &lines[j];
        if line.as_str().unicode_len() == 0 {
            proof {
                assert(ls[j as int].len() == 0);
            }
            j = j + 1;
            continue ;
        }
        let p = match parse_header_line(line.as_str()) {
            Some(x) => x,
            None => {
                proof {
                    assert(parse_items_from(ls, j as int) is None);
                }
                return None;
            },
        };
        let ghost old_items = items@;
        items.push(p);
        proof {
            assert(pair_views_of(items@) =~= pair_views_of(old_items).push((p.0@, p.1@)));
            if parse_items_from(ls, j as int + 1) is Some {
                assert(pair_views_of(old_items) + (seq![(p.0@, p.1@)] + parse_items_from(
                    ls,
                    j as int + 1,
                )->Some_0) =~= pair_views_of(items@) + parse_items_from(ls, j as int + 1)->Some_0);
            }
        }
        j = j + 1;
    }
    proof {
        assert(parse_items_from(ls, j as int) == Some(Seq::<(Seq<char>, Seq<char>)>::empty()));
        assert(pair_views_of(items@) + Seq::<(Seq<char>, Seq<char>)>::empty() =~= pair_views_of(
            items@,
        ));
    }
    Some(items)
}

/// Parses the captured header block into [`Headers`].
///
/// Fails with [`Error::MalformedStatusLine`] when the first line holds no
/// version/code pair, and with [`Error::MalformedHeaderLine`] when a later
/// non-empty line holds no space separator.
pub fn parse_headers(s: &str) -> (r: Result<Headers, Error>)
    ensures
        match r {
            Ok(h) => parse_headers_spec(s@) == Ok::<HeadersModel, Error>(h.model()),
            Err(e) => parse_headers_spec(s@) == Err::<HeadersModel, Error>(e),
        },
{
    let t = trim_str(s);
    let lines = split_lines(t);
    if lines.len() == 0 {
        proof {
            assert(views_of(lines@).len() == 0);
        }
        return Err(Error::MalformedStatusLine);
    }
    let st = match parse_status_line(lines[0].as_str()) {
        Some(x) => x,
        None => {
            proof {
                assert(views_of(lines@)[0] == lines@[0]@);
            }
            return Err(Error::MalformedStatusLine);
        },
    };
    let items = match parse_items(&lines, 1) {
        Some(x) => x,
        None => {
            return Err(Error::MalformedHeaderLine);
        },
    };
    let h = Headers { version: st.0, code: st.1, items };
    proof {
        assert(views_of(lines@)[0] == lines@[0]@);
        assert(parse_headers_spec(s@) =~= Ok(h.model()));
    }
    Ok(h)
}

/// Law: header parsing is deterministic — parsing the same byte block twice
/// yields the identical structured result.
pub proof fn lemma_header_parse_repeatable(a: Seq<char>, b: Seq<char>)
    requires
        a == b,
    ensures
        parse_headers_spec(a) == parse_headers_spec(b),
{
}

} // verus!
