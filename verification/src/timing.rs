//! The timing model: parsing the structured timing report that the external
//! HTTP client prints on its standard output, and deriving the five phase
//! durations (DNS, connect, TLS, server processing, transfer) from the raw
//! cumulative timestamps.
//!
//! The report is this tool's own format: the exact text that the injected
//! output template makes the client print. It is a single brace-delimited
//! record whose fields come in the template's fixed order; time and speed
//! values are decimal numbers (fractional seconds / bytes per second) and the
//! address fields are quoted strings. Numbers are held as integer micro-units
//! (a time of `0.010` seconds is 10_000 microseconds), so phase derivation is
//! exact integer arithmetic.

use crate::errors::Error;
use crate::text::{
    digit_val, digits_end_from, exec_digits_end, exec_digits_val, exec_find_char, exec_skip_ws,
    find_from, is_digit, lemma_digits_end_from_bounds, seq_digits_val, skip_ws_from,
};
use vstd::prelude::*;
use vstd::string::*;

verus! {

/// Every parsed numeric field is below this bound (micro-units), so that all
/// phase subtractions fit comfortably in `i64`.
pub const MAX_TIME_MICROS: u64 = 1_000_000_000_000_000_000;

/// `Some(i + 1)` if the character at `i` is `c`.
pub open spec fn expect_char_at(s: Seq<char>, i: int, c: char) -> Option<int> {
    if 0 <= i < s.len() && s[i] == c {
        Some(i + 1)
    } else {
        None
    }
}

/// `Some(i + lit.len())` if `lit` occurs at position `i`.
pub open spec fn expect_lit_from(s: Seq<char>, i: int, lit: Seq<char>) -> Option<int> {
    if 0 <= i && i + lit.len() <= s.len() && s.subrange(i, i + lit.len()) == lit {
        Some(i + lit.len())
    } else {
        None
    }
}

/// A quoted string at `i`: the characters between the opening quote at `i`
/// and the next quote (values in the report never contain quotes).
pub open spec fn parse_qstring_from(s: Seq<char>, i: int) -> Option<(Seq<char>, int)> {
    if 0 <= i < s.len() && s[i] == '"' {
        let q = find_from(s, '"', i + 1);
        if q == s.len() {
            None
        } else {
            Some((s.subrange(i + 1, q), q + 1))
        }
    } else {
        None
    }
}

/// The `k`-th fractional digit of a digit run, 0 when the run is shorter.
pub open spec fn frac_digit(d: Seq<char>, k: int) -> nat {
    if 0 <= k < d.len() {
        digit_val(d[k])
    } else {
        0
    }
}

/// The value of a fractional digit run scaled to micro-units: the first six
/// digits, padded with zeros; further digits are truncated (floored).
pub open spec fn frac_scaled(d: Seq<char>) -> nat {
    frac_digit(d, 0) * 100000 + frac_digit(d, 1) * 10000 + frac_digit(d, 2) * 1000 + frac_digit(
        d,
        3,
    ) * 100 + frac_digit(d, 4) * 10 + frac_digit(d, 5)
}

/// A non-negative decimal number at `i` (digits, optionally `.` and more
/// digits), as micro-units: the value multiplied by one million, fractional
/// digits beyond the sixth floored. `None` if no digits are present, if a
/// decimal point has no digits after it, or if the whole part exceeds
/// 999_999_999_999 (such a time or speed is rejected as malformed).
pub open spec fn parse_number_from(s: Seq<char>, i: int) -> Option<(u64, int)> {
    let e = digits_end_from(s, i);
    if e == i {
        None
    } else {
        let whole = seq_digits_val(s.subrange(i, e));
        if whole > 999_999_999_999 {
            None
        } else if e < s.len() && s[e] == '.' {
            let f = digits_end_from(s, e + 1);
            if f == e + 1 {
                None
            } else {
                Some((((whole * 1_000_000) + frac_scaled(s.subrange(e + 1, f))) as u64, f))
            }
        } else {
            Some(((whole * 1_000_000) as u64, e))
        }
    }
}

/// A quoted key followed by a colon: whitespace, `"key"`, whitespace, `:`,
/// whitespace; yields the position of the value.
pub open spec fn parse_key_spec(s: Seq<char>, i: int, key: Seq<char>) -> Option<int> {
    match expect_char_at(s, skip_ws_from(s, i), '"') {
        None => None,
        Some(b) => match expect_lit_from(s, b, key) {
            None => None,
            Some(c) => match expect_char_at(s, c, '"') {
                None => None,
                Some(d) => match expect_char_at(s, skip_ws_from(s, d), ':') {
                    None => None,
                    Some(f) => Some(skip_ws_from(s, f)),
                },
            },
        },
    }
}

/// The separator after a field value: a comma (after optional whitespace)
/// for all fields but the last.
pub open spec fn parse_sep_spec(s: Seq<char>, i: int, comma: bool) -> Option<int> {
    if comma {
        expect_char_at(s, skip_ws_from(s, i), ',')
    } else {
        Some(i)
    }
}

/// One numeric field: key, number, separator.
pub open spec fn parse_num_field(s: Seq<char>, i: int, key: Seq<char>, comma: bool) -> Option<
    (u64, int),
> {
    match parse_key_spec(s, i, key) {
        None => None,
        Some(a) => match parse_number_from(s, a) {
            None => None,
            Some((v, b)) => match parse_sep_spec(s, b, comma) {
                None => None,
                Some(c) => Some((v, c)),
            },
        },
    }
}

/// One string field: key, quoted string, separator.
pub open spec fn parse_str_field(s: Seq<char>, i: int, key: Seq<char>, comma: bool) -> Option<
    (Seq<char>, int),
> {
    match parse_key_spec(s, i, key) {
        None => None,
        Some(a) => match parse_qstring_from(s, a) {
            None => None,
            Some((v, b)) => match parse_sep_spec(s, b, comma) {
                None => None,
                Some(c) => Some((v, c)),
            },
        },
    }
}

/// The eight numeric fields of the report, in the template's order.
pub open spec fn parse_nums_spec(s: Seq<char>, i: int) -> Option<
    ((u64, u64, u64, u64, u64, u64, u64, u64), int),
> {
    match parse_num_field(s, i, "time_namelookup"@, true) {
        None => None,
        Some((nl, i1)) => match parse_num_field(s, i1, "time_connect"@, true) {
            None => None,
            Some((co, i2)) => match parse_num_field(s, i2, "time_pretransfer"@, true) {
                None => None,
                Some((pre, i3)) => match parse_num_field(s, i3, "time_redirect"@, true) {
                    None => None,
                    Some((re, i4)) => match parse_num_field(s, i4, "time_starttransfer"@, true) {
                        None => None,
                        Some((st, i5)) => match parse_num_field(s, i5, "time_total"@, true) {
                            None => None,
                            Some((to, i6)) => match parse_num_field(
                                s,
                                i6,
                                "speed_download"@,
                                true,
                            ) {
                                None => None,
                                Some((sd, i7)) => match parse_num_field(
                                    s,
                                    i7,
                                    "speed_upload"@,
                                    true,
                                ) {
                                    None => None,
                                    Some((su, i8)) => Some(((nl, co, pre, re, st, to, sd, su), i8)),
                                },
                            },
                        },
                    },
                },
            },
        },
    }
}

/// The four address fields of the report, in the template's order.
pub open spec fn parse_strs_spec(s: Seq<char>, i: int) -> Option<
    ((Seq<char>, Seq<char>, Seq<char>, Seq<char>), int),
> {
    match parse_str_field(s, i, "remote_ip"@, true) {
        None => None,
        Some((ri, i1)) => match parse_str_field(s, i1, "remote_port"@, true) {
            None => None,
            Some((rp, i2)) => match parse_str_field(s, i2, "local_ip"@, true) {
                None => None,
                Some((li, i3)) => match parse_str_field(s, i3, "local_port"@, false) {
                    None => None,
                    Some((lp, i4)) => Some(((ri, rp, li, lp), i4)),
                },
            },
        },
    }
}

/// The raw timing report: cumulative timestamps and speeds in micro-units,
/// and the connection's address strings.
pub struct TimingReport {
    /// Cumulative time until DNS lookup finished, microseconds.
    pub time_namelookup: u64,
    /// Cumulative time until the TCP connection was established, microseconds.
    pub time_connect: u64,
    /// Cumulative time until the transfer was about to begin, microseconds.
    pub time_pretransfer: u64,
    /// Time spent on redirects, microseconds.
    pub time_redirect: u64,
    /// Cumulative time until the first response byte arrived, microseconds.
    pub time_starttransfer: u64,
    /// Total time for the whole request, microseconds.
    pub time_total: u64,
    /// Download speed, micro-(bytes per second).
    pub speed_download: u64,
    /// Upload speed, micro-(bytes per second).
    pub speed_upload: u64,
    pub remote_ip: String,
    pub remote_port: String,
    pub local_ip: String,
    pub local_port: String,
}

/// Mathematical view of a [`TimingReport`].
#[verifier::ext_equal]
pub ghost struct ReportModel {
    pub time_namelookup: u64,
    pub time_connect: u64,
    pub time_pretransfer: u64,
    pub time_redirect: u64,
    pub time_starttransfer: u64,
    pub time_total: u64,
    pub speed_download: u64,
    pub speed_upload: u64,
    pub remote_ip: Seq<char>,
    pub remote_port: Seq<char>,
    pub local_ip: Seq<char>,
    pub local_port: Seq<char>,
}

impl TimingReport {
    pub open spec fn model(&self) -> ReportModel {
        ReportModel {
            time_namelookup: self.time_namelookup,
            time_connect: self.time_connect,
            time_pretransfer: self.time_pretransfer,
            time_redirect: self.time_redirect,
            time_starttransfer: self.time_starttransfer,
            time_total: self.time_total,
            speed_download: self.speed_download,
            speed_upload: self.speed_upload,
            remote_ip: self.remote_ip@,
            remote_port: self.remote_port@,
            local_ip: self.local_ip@,
            local_port: self.local_port@,
        }
    }
}

/// Every numeric field is small enough for exact `i64` phase arithmetic.
/// The parser guarantees this of every report it accepts.
pub open spec fn report_wf(r: ReportModel) -> bool {
    r.time_namelookup < MAX_TIME_MICROS && r.time_connect < MAX_TIME_MICROS
        && r.time_pretransfer < MAX_TIME_MICROS && r.time_redirect < MAX_TIME_MICROS
        && r.time_starttransfer < MAX_TIME_MICROS && r.time_total < MAX_TIME_MICROS
        && r.speed_download < MAX_TIME_MICROS && r.speed_upload < MAX_TIME_MICROS
}

/// The whole report: `{`, the twelve fields in template order, `}`, and
/// nothing but whitespace around them.
pub open spec fn parse_report_spec(s: Seq<char>) -> Option<ReportModel> {
    match expect_char_at(s, skip_ws_from(s, 0), '{') {
        None => None,
        Some(i0) => match parse_nums_spec(s, i0) {
            None => None,
            Some(((nl, co, pre, re, st, to, sd, su), i8)) => match parse_strs_spec(s, i8) {
                None => None,
                Some(((ri, rp, li, lp), i12)) => match expect_char_at(
                    s,
                    skip_ws_from(s, i12),
                    '}',
                ) {
                    None => None,
                    Some(i13) => if skip_ws_from(s, i13) == s.len() {
                        Some(
                            ReportModel {
                                time_namelookup: nl,
                                time_connect: co,
                                time_pretransfer: pre,
                                time_redirect: re,
                                time_starttransfer: st,
                                time_total: to,
                                speed_download: sd,
                                speed_upload: su,
                                remote_ip: ri,
                                remote_port: rp,
                                local_ip: li,
                                local_port: lp,
                            },
                        )
                    } else {
                        None
                    },
                },
            },
        },
    }
}

fn expect_char(s: &str, at: usize, c: char) -> (r: Option<usize>)
    requires
        at <= s@.len(),
    ensures
        match r {
            Some(j) => expect_char_at(s@, at as int, c) == Some(j as int) && j <= s@.len(),
            None => expect_char_at(s@, at as int, c) is None,
        },
{
    let n = s.unicode_len();
    if at < n && s.get_char(at) == c {
        Some(at + 1)
    } else {
        None
    }
}

fn expect_lit(s: &str, from: usize, lit: &str) -> (r: Option<usize>)
    requires
        from <= s@.len(),
    ensures
        match r {
            Some(j) => expect_lit_from(s@, from as int, lit@) == Some(j as int) && j <= s@.len(),
            None => expect_lit_from(s@, from as int, lit@) is None,
        },
{
    let n = s.unicode_len();
    let ll = lit.unicode_len();
    if ll > n - from {
        return None;
    }
    let mut k: usize = 0;
    while k < ll
        invariant
            k <= ll,
            from + ll <= n,
            n == s@.len(),
            ll == lit@.len(),
            forall|j: int| 0 <= j < k ==> s@[from + j] == lit@[j],
        decreases ll - k,
    {
        if s.get_char(from + k) != lit.get_char(k) {
            proof {
                let sub = s@.subrange(from as int, from as int + lit@.len());
                assert(sub[k as int] == s@[from as int + k as int]);
                assert(sub != lit@) by {
                    if sub == lit@ {
                        assert(sub[k as int] == lit@[k as int]);
                    }
                }
            }
            return None;
        }
        k = k + 1;
    }
    proof {
        assert(s@.subrange(from as int, from as int + lit@.len()) =~= lit@);
    }
    Some(from + ll)
}

fn parse_qstring(s: &str, from: usize) -> (r: Option<(String, usize)>)
    requires
        from <= s@.len(),
    ensures
        match r {
            Some(p) => parse_qstring_from(s@, from as int) == Some((p.0@, p.1 as int)) && p.1
                <= s@.len(),
            None => parse_qstring_from(s@, from as int) is None,
        },
{
    let n = s.unicode_len();
    if !(from < n && s.get_char(from) == '"') {
        return None;
    }
    let q = exec_find_char(s, '"', from + 1);
    if q == n {
        return None;
    }
    let v = String::from_str(s.substring_char(from + 1, q));
    Some((v, q + 1))
}

/// The `k`-th fractional digit of the run `s[fs..f]`, 0 past its end.
fn exec_frac_digit(s: &str, fs: usize, f: usize, k: usize) -> (r: u64)
    requires
        fs <= f <= s@.len(),
        forall|j: int| fs <= j < f ==> is_digit(s@[j]),
    ensures
        r == frac_digit(s@.subrange(fs as int, f as int), k as int),
        r <= 9,
{
    if k < f - fs {
        let c = s.get_char(fs + k);
        proof {
            assert(s@.subrange(fs as int, f as int)[k as int] == s@[fs as int + k as int]);
            assert(is_digit(s@[fs as int + k as int]));
        }
        (c as u32 - 48) as u64
    } else {
        0
    }
}

fn parse_number(s: &str, from: usize) -> (r: Option<(u64, usize)>)
    requires
        from <= s@.len(),
    ensures
        match r {
            Some(p) => parse_number_from(s@, from as int) == Some((p.0, p.1 as int)) && p.1
                <= s@.len() && p.0 < MAX_TIME_MICROS,
            None => parse_number_from(s@, from as int) is None,
        },
{
    let e = exec_digits_end(s, from);
    if e == from {
        return None;
    }
    proof {
        lemma_digits_end_from_bounds(s@, from as int);
    }
    let whole = match exec_digits_val(s, from, e, 999_999_999_999) {
        Some(w) => w,
        None => {
            return None;
        },
    };
    let n = s.unicode_len();
    if e < n && s.get_char(e) == '.' {
        let fs = e + 1;
        let f = exec_digits_end(s, fs);
        if f == fs {
            return None;
        }
        proof {
            lemma_digits_end_from_bounds(s@, fs as int);
        }
        let d0 = exec_frac_digit(s, fs, f, 0);
        let d1 = exec_frac_digit(s, fs, f, 1);
        let d2 = exec_frac_digit(s, fs, f, 2);
        let d3 = exec_frac_digit(s, fs, f, 3);
        let d4 = exec_frac_digit(s, fs, f, 4);
        let d5 = exec_frac_digit(s, fs, f, 5);
        let frac = ((((d0 * 10 + d1) * 10 + d2) * 10 + d3) * 10 + d4) * 10 + d5;
        proof {
            assert(frac == frac_scaled(s@.subrange(fs as int, f as int)));
        }
        Some((whole * 1_000_000 + frac, f))
    } else {
        Some((whole * 1_000_000, e))
    }
}

fn parse_key(s: &str, from: usize, key: &str) -> (r: Option<usize>)
    requires
        from <= s@.len(),
    ensures
        match r {
            Some(j) => parse_key_spec(s@, from as int, key@) == Some(j as int) && j <= s@.len(),
            None => parse_key_spec(s@, from as int, key@) is None,
        },
{
    let a = exec_skip_ws(s, from);
    let b = match expect_char(s, a, '"') {
        Some(x) => x,
        None => {
            return None;
        },
    };
    let c = match expect_lit(s, b, key) {
        Some(x) => x,
        None => {
            return None;
        },
    };
    let d = match expect_char(s, c, '"') {
        Some(x) => x,
        None => {
            return None;
        },
    };
    let e = exec_skip_ws(s, d);
    let f = match expect_char(s, e, ':') {
        Some(x) => x,
        None => {
            return None;
        },
    };
    Some(exec_skip_ws(s, f))
}

fn parse_sep(s: &str, from: usize, comma: bool) -> (r: Option<usize>)
    requires
        from <= s@.len(),
    ensures
        match r {
            Some(j) => parse_sep_spec(s@, from as int, comma) == Some(j as int) && j <= s@.len(),
            None => parse_sep_spec(s@, from as int, comma) is None,
        },
{
    if comma {
        let a = exec_skip_ws(s, from);
        expect_char(s, a, ',')
    } else {
        Some(from)
    }
}

fn parse_num_field_exec(s: &str, from: usize, key: &str, comma: bool) -> (r: Option<(u64, usize)>)
    requires
        from <= s@.len(),
    ensures
        match r {
            Some(p) => parse_num_field(s@, from as int, key@, comma) == Some((p.0, p.1 as int))
                && p.1 <= s@.len() && p.0 < MAX_TIME_MICROS,
            None => parse_num_field(s@, from as int, key@, comma) is None,
        },
{
    let a = match parse_key(s, from, key) {
        Some(x) => x,
        None => {
            return None;
        },
    };
    let (v, b) = match parse_number(s, a) {
        Some(x) => x,
        None => {
            return None;
        },
    };
    let c = match parse_sep(s, b, comma) {
        Some(x) => x,
        None => {
            return None;
        },
    };
    Some((v, c))
}

fn parse_str_field_exec(s: &str, from: usize, key: &str, comma: bool) -> (r: Option<
    (String, usize),
>)
    requires
        from <= s@.len(),
    ensures
        match r {
            Some(p) => parse_str_field(s@, from as int, key@, comma) == Some((p.0@, p.1 as int))
                && p.1 <= s@.len(),
            None => parse_str_field(s@, from as int, key@, comma) is None,
        },
{
    let a = match parse_key(s, from, key) {
        Some(x) => x,
        None => {
            return None;
        },
    };
    let (v, b) = match parse_qstring(s, a) {
        Some(x) => x,
        None => {
            return None;
        },
    };
    let c = match parse_sep(s, b, comma) {
        Some(x) => x,
        None => {
            return None;
        },
    };
    Some((v, c))
}

fn parse_nums_exec(s: &str, from: usize) -> (r: Option<
    ((u64, u64, u64, u64, u64, u64, u64, u64), usize),
>)
    requires
        from <= s@.len(),
    ensures
        match r {
            Some(p) => parse_nums_spec(s@, from as int) == Some((p.0, p.1 as int)) && p.1
                <= s@.len() && p.0.0 < MAX_TIME_MICROS && p.0.1 < MAX_TIME_MICROS && p.0.2
                < MAX_TIME_MICROS && p.0.3 < MAX_TIME_MICROS && p.0.4 < MAX_TIME_MICROS && p.0.5
                < MAX_TIME_MICROS && p.0.6 < MAX_TIME_MICROS && p.0.7 < MAX_TIME_MICROS,
            None => parse_nums_spec(s@, from as int) is None,
        },
{
    let (nl, i1) = match parse_num_field_exec(s, from, "time_namelookup", true) {
        Some(x) => x,
        None => {
            return None;
        },
    };
    let (co, i2) = match parse_num_field_exec(s, i1, "time_connect", true) {
        Some(x) => x,
        None => {
            return None;
        },
    };
    let (pre, i3) = match parse_num_field_exec(s, i2, "time_pretransfer", true) {
        Some(x) => x,
        None => {
            return None;
        },
    };
    let (re, i4) = match parse_num_field_exec(s, i3, "time_redirect", true) {
        Some(x) => x,
        None => {
            return None;
        },
    };
    let (st, i5) = match parse_num_field_exec(s, i4, "time_starttransfer", true) {
        Some(x) => x,
        None => {
            return None;
        },
    };
    let (to, i6) = match parse_num_field_exec(s, i5, "time_total", true) {
        Some(x) => x,
        None => {
            return None;
        },
    };
    let (sd, i7) = match parse_num_field_exec(s, i6, "speed_download", true) {
        Some(x) => x,
        None => {
            return None;
        },
    };
    let (su, i8) = match parse_num_field_exec(s, i7, "speed_upload", true) {
        Some(x) => x,
        None => {
            return None;
        },
    };
    Some(((nl, co, pre, re, st, to, sd, su), i8))
}

fn parse_strs_exec(s: &str, from: usize) -> (r: Option<((String, String, String, String), usize)>)
    requires
        from <= s@.len(),
    ensures
        match r {
            Some(p) => parse_strs_spec(s@, from as int) == Some(
                ((p.0.0@, p.0.1@, p.0.2@, p.0.3@), p.1 as int),
            ) && p.1 <= s@.len(),
            None => parse_strs_spec(s@, from as int) is None,
        },
{
    let (ri, i1) = match parse_str_field_exec(s, from, "remote_ip", true) {
        Some(x) => x,
        None => {
            return None;
        },
    };
    let (rp, i2) = match parse_str_field_exec(s, i1, "remote_port", true) {
        Some(x) => x,
        None => {
            return None;
        },
    };
    let (li, i3) = match parse_str_field_exec(s, i2, "local_ip", true) {
        Some(x) => x,
        None => {
            return None;
        },
    };
    let (lp, i4) = match parse_str_field_exec(s, i3, "local_port", false) {
        Some(x) => x,
        None => {
            return None;
        },
    };
    Some(((ri, rp, li, lp), i4))
}

/// Parses the timing report text into a raw [`TimingReport`].
///
/// Succeeds exactly on texts of the report's shape (the injected template
/// with numeric and quoted-string values substituted); on any other text the
/// result is [`Error::MalformedTimingReport`].
pub fn parse_timing_report(s: &str) -> (r: Result<TimingReport, Error>)
    ensures
        match r {
            Ok(rep) => parse_report_spec(s@) == Some(rep.model()) && report_wf(rep.model()),
            Err(e) => e == Error::MalformedTimingReport && parse_report_spec(s@) is None,
        },
{
    let a0 = exec_skip_ws(s, 0);
    let i0 = match expect_char(s, a0, '{') {
        Some(x) => x,
        None => {
            return Err(Error::MalformedTimingReport);
        },
    };
    let (nums, i8) = match parse_nums_exec(s, i0) {
        Some(x) => x,
        None => {
            return Err(Error::MalformedTimingReport);
        },
    };
    let (strs, i12) = match parse_strs_exec(s, i8) {
        Some(x) => x,
        None => {
            return Err(Error::MalformedTimingReport);
        },
    };
    let b = exec_skip_ws(s, i12);
    let i13 = match expect_char(s, b, '}') {
        Some(x) => x,
        None => {
            return Err(Error::MalformedTimingReport);
        },
    };
    let d = exec_skip_ws(s, i13);
    if d != s.unicode_len() {
        return Err(Error::MalformedTimingReport);
    }
    let (nl, co, pre, re, st, to, sd, su) = nums;
    let (ri, rp, li, lp) = strs;
    let rep = TimingReport {
        time_namelookup: nl,
        time_connect: co,
        time_pretransfer: pre,
        time_redirect: re,
        time_starttransfer: st,
        time_total: to,
        speed_download: sd,
        speed_upload: su,
        remote_ip: ri,
        remote_port: rp,
        local_ip: li,
        local_port: lp,
    };
    proof {
        assert(parse_report_spec(s@) =~= Some(rep.model()));
    }
    Ok(rep)
}

/// The derived metrics: the raw cumulative values together with the five
/// phase durations, all in micro-units. A phase duration is negative only if
/// the raw timestamps were out of causal order; derivation never clamps.
pub struct Metrics {
    pub time_namelookup: u64,
    pub time_connect: u64,
    pub time_pretransfer: u64,
    pub time_redirect: u64,
    pub time_starttransfer: u64,
    pub time_total: u64,
    pub speed_download: u64,
    pub speed_upload: u64,
    pub remote_ip: String,
    pub remote_port: String,
    pub local_ip: String,
    pub local_port: String,
    /// DNS lookup phase, microseconds.
    pub range_dns: i64,
    /// TCP connect phase, microseconds.
    pub range_connection: i64,
    /// TLS handshake phase, microseconds (zero when no TLS was involved).
    pub range_ssl: i64,
    /// Server processing phase, microseconds.
    pub range_server: i64,
    /// Content transfer phase, microseconds.
    pub range_transfer: i64,
}

/// Mathematical view of [`Metrics`].
#[verifier::ext_equal]
pub ghost struct MetricsModel {
    pub time_namelookup: u64,
    pub time_connect: u64,
    pub time_pretransfer: u64,
    pub time_redirect: u64,
    pub time_starttransfer: u64,
    pub time_total: u64,
    pub speed_download: u64,
    pub speed_upload: u64,
    pub remote_ip: Seq<char>,
    pub remote_port: Seq<char>,
    pub local_ip: Seq<char>,
    pub local_port: Seq<char>,
    pub range_dns: i64,
    pub range_connection: i64,
    pub range_ssl: i64,
    pub range_server: i64,
    pub range_transfer: i64,
}

/// Phase derivation: successive subtraction of the cumulative timestamps
/// along the pipeline order DNS, connect, TLS, server processing, transfer.
pub open spec fn derive_spec(r: ReportModel) -> MetricsModel {
    MetricsModel {
        time_namelookup: r.time_namelookup,
        time_connect: r.time_connect,
        time_pretransfer: r.time_pretransfer,
        time_redirect: r.time_redirect,
        time_starttransfer: r.time_starttransfer,
        time_total: r.time_total,
        speed_download: r.speed_download,
        speed_upload: r.speed_upload,
        remote_ip: r.remote_ip,
        remote_port: r.remote_port,
        local_ip: r.local_ip,
        local_port: r.local_port,
        range_dns: r.time_namelookup as i64,
        range_connection: (r.time_connect - r.time_namelookup) as i64,
        range_ssl: (r.time_pretransfer - r.time_connect) as i64,
        range_server: (r.time_starttransfer - r.time_pretransfer) as i64,
        range_transfer: (r.time_total - r.time_starttransfer) as i64,
    }
}

/// All numeric fields are bounded as [`report_wf`] guarantees, so the derived
/// ranges are exact and safe to scale for display.
pub open spec fn metrics_wf(m: MetricsModel) -> bool {
    m.time_namelookup < MAX_TIME_MICROS && m.time_connect < MAX_TIME_MICROS && m.time_pretransfer
        < MAX_TIME_MICROS && m.time_redirect < MAX_TIME_MICROS && m.time_starttransfer
        < MAX_TIME_MICROS && m.time_total < MAX_TIME_MICROS && -(MAX_TIME_MICROS as int)
        < m.range_dns && m.range_dns < MAX_TIME_MICROS && -(MAX_TIME_MICROS as int)
        < m.range_connection && m.range_connection < MAX_TIME_MICROS && -(MAX_TIME_MICROS as int)
        < m.range_ssl && m.range_ssl < MAX_TIME_MICROS && -(MAX_TIME_MICROS as int)
        < m.range_server && m.range_server < MAX_TIME_MICROS && -(MAX_TIME_MICROS as int)
        < m.range_transfer && m.range_transfer < MAX_TIME_MICROS
}

impl Metrics {
    pub open spec fn model(&self) -> MetricsModel {
        MetricsModel {
            time_namelookup: self.time_namelookup,
            time_connect: self.time_connect,
            time_pretransfer: self.time_pretransfer,
            time_redirect: self.time_redirect,
            time_starttransfer: self.time_starttransfer,
            time_total: self.time_total,
            speed_download: self.speed_download,
            speed_upload: self.speed_upload,
            remote_ip: self.remote_ip@,
            remote_port: self.remote_port@,
            local_ip: self.local_ip@,
            local_port: self.local_port@,
            range_dns: self.range_dns,
            range_connection: self.range_connection,
            range_ssl: self.range_ssl,
            range_server: self.range_server,
            range_transfer: self.range_transfer,
        }
    }

    /// Derives the five phase durations from a raw report.
    pub fn from_report(r: TimingReport) -> (m: Metrics)
        requires
            report_wf(r.model()),
        ensures
            m.model() == derive_spec(r.model()),
            metrics_wf(m.model()),
    {
        let m = Metrics {
            range_dns: r.time_namelookup as i64,
            range_connection: r.time_connect as i64 - r.time_namelookup as i64,
            range_ssl: r.time_pretransfer as i64 - r.time_connect as i64,
            range_server: r.time_starttransfer as i64 - r.time_pretransfer as i64,
            range_transfer: r.time_total as i64 - r.time_starttransfer as i64,
            time_namelookup: r.time_namelookup,
            time_connect: r.time_connect,
            time_pretransfer: r.time_pretransfer,
            time_redirect: r.time_redirect,
            time_starttransfer: r.time_starttransfer,
            time_total: r.time_total,
            speed_download: r.speed_download,
            speed_upload: r.speed_upload,
            remote_ip: r.remote_ip,
            remote_port: r.remote_port,
            local_ip: r.local_ip,
            local_port: r.local_port,
        };
        proof {
            assert(m.model() =~= derive_spec(
                ReportModel {
                    time_namelookup: m.time_namelookup,
                    time_connect: m.time_connect,
                    time_pretransfer: m.time_pretransfer,
                    time_redirect: m.time_redirect,
                    time_starttransfer: m.time_starttransfer,
                    time_total: m.time_total,
                    speed_download: m.speed_download,
                    speed_upload: m.speed_upload,
                    remote_ip: m.remote_ip@,
                    remote_port: m.remote_port@,
                    local_ip: m.local_ip@,
                    local_port: m.local_port@,
                },
            ));
        }
        m
    }

    /// Parses the timing report text and derives the phase model in one step.
    pub fn new(report_text: &str) -> (r: Result<Metrics, Error>)
        ensures
            match r {
                Ok(m) => parse_report_spec(report_text@) is Some && m.model() == derive_spec(
                    parse_report_spec(report_text@)->Some_0,
                ) && metrics_wf(m.model()),
                Err(e) => e == Error::MalformedTimingReport && parse_report_spec(
                    report_text@,
                ) is None,
            },
    {
        match parse_timing_report(report_text) {
            Ok(rep) => Ok(Metrics::from_report(rep)),
            Err(e) => Err(e),
        }
    }
}

/// Law: for cumulative timestamps in causal order (`namelookup <= connect <=
/// pretransfer <= starttransfer <= total`), every derived phase duration is
/// non-negative and the five phases sum exactly to the total time.
pub proof fn lemma_phases_partition_total(r: ReportModel)
    requires
        report_wf(r),
        r.time_namelookup <= r.time_connect,
        r.time_connect <= r.time_pretransfer,
        r.time_pretransfer <= r.time_starttransfer,
        r.time_starttransfer <= r.time_total,
    ensures
        ({
            let m = derive_spec(r);
            m.range_dns >= 0 && m.range_connection >= 0 && m.range_ssl >= 0 && m.range_server >= 0
                && m.range_transfer >= 0 && m.range_dns + m.range_connection + m.range_ssl
                + m.range_server + m.range_transfer == m.time_total
        }),
{
}

/// Law: when the connection needed no TLS handshake (`connect` and
/// `pretransfer` coincide), the derived TLS phase is exactly zero.
pub proof fn lemma_no_handshake_no_ssl_phase(r: ReportModel)
    requires
        report_wf(r),
        r.time_connect == r.time_pretransfer,
    ensures
        derive_spec(r).range_ssl == 0,
{
}

} // verus!
