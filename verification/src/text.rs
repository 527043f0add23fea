//! Character-level text utilities shared by the timing-report parser, the
//! header parser and the waterfall renderer: scanning over a string's
//! characters, decimal digit runs and their values, decimal rendering of
//! integers, and fixed-width padding.

use vstd::prelude::*;
use vstd::string::*;

verus! {

/// The views of a sequence of strings.
pub open spec fn views_of(v: Seq<String>) -> Seq<Seq<char>> {
    Seq::new(v.len(), |i: int| v[i]@)
}

/// Whitespace, as recognized when trimming captured text.
pub open spec fn is_ws(c: char) -> bool {
    c == ' ' || c == '\t' || c == '\r' || c == '\n'
}

/// A decimal digit.
pub open spec fn is_digit(c: char) -> bool {
    48 <= c as u32 && c as u32 <= 57
}

/// The numeric value of a decimal digit (0 for any other character).
pub open spec fn digit_val(c: char) -> nat {
    if is_digit(c) {
        (c as u32 - 48) as nat
    } else {
        0
    }
}

/// The value of a run of decimal digits, most significant first.
pub open spec fn seq_digits_val(s: Seq<char>) -> nat
    decreases s.len(),
{
    if s.len() == 0 {
        0
    } else {
        seq_digits_val(s.drop_last()) * 10 + digit_val(s.last())
    }
}

pub open spec fn all_digits(s: Seq<char>) -> bool {
    forall|k: int| 0 <= k < s.len() ==> is_digit(s[k])
}

/// First index at or after `from` whose character is not whitespace.
pub open spec fn skip_ws_from(s: Seq<char>, from: int) -> int
    recommends
        0 <= from <= s.len(),
    decreases s.len() - from,
{
    if from >= s.len() || !is_ws(s[from]) {
        from
    } else {
        skip_ws_from(s, from + 1)
    }
}

/// First index at or after `from` whose character is not a space.
pub open spec fn skip_spaces_from(s: Seq<char>, from: int) -> int
    recommends
        0 <= from <= s.len(),
    decreases s.len() - from,
{
    if from >= s.len() || s[from] != ' ' {
        from
    } else {
        skip_spaces_from(s, from + 1)
    }
}

/// End of the run of decimal digits starting at `from`.
pub open spec fn digits_end_from(s: Seq<char>, from: int) -> int
    recommends
        0 <= from <= s.len(),
    decreases s.len() - from,
{
    if from >= s.len() || !is_digit(s[from]) {
        from
    } else {
        digits_end_from(s, from + 1)
    }
}

/// First index at or after `from` holding `c`, or the length if none does.
pub open spec fn find_from(s: Seq<char>, c: char, from: int) -> int
    recommends
        0 <= from <= s.len(),
    decreases s.len() - from,
{
    if from >= s.len() {
        s.len() as int
    } else if s[from] == c {
        from
    } else {
        find_from(s, c, from + 1)
    }
}

pub proof fn lemma_digits_end_from_bounds(s: Seq<char>, from: int)
    requires
        0 <= from <= s.len(),
    ensures
        from <= digits_end_from(s, from) <= s.len(),
        forall|k: int| from <= k < digits_end_from(s, from) ==> is_digit(s[k]),
        digits_end_from(s, from) < s.len() ==> !is_digit(s[digits_end_from(s, from)]),
    decreases s.len() - from,
{
    if from < s.len() && is_digit(s[from]) {
        lemma_digits_end_from_bounds(s, from + 1);
    }
}

pub proof fn lemma_find_from_bounds(s: Seq<char>, c: char, from: int)
    requires
        0 <= from <= s.len(),
    ensures
        from <= find_from(s, c, from) <= s.len(),
        forall|k: int| from <= k < find_from(s, c, from) ==> s[k] != c,
        find_from(s, c, from) < s.len() ==> s[find_from(s, c, from)] == c,
    decreases s.len() - from,
{
    if from < s.len() && s[from] != c {
        lemma_find_from_bounds(s, c, from + 1);
    }
}

/// If no character in `[from, j)` is `c`, and `j` is either the end or holds
/// `c`, then the scan from `from` stops exactly at `j`.
pub proof fn lemma_find_from_is(s: Seq<char>, c: char, from: int, j: int)
    requires
        0 <= from <= j <= s.len(),
        forall|k: int| from <= k < j ==> s[k] != c,
        j < s.len() ==> s[j] == c,
    ensures
        find_from(s, c, from) == j,
    decreases j - from,
{
    if from < j {
        lemma_find_from_is(s, c, from + 1, j);
    }
}

/// If everything in `[from, j)` is a digit and `j` is either the end or not a
/// digit, the digit run starting at `from` ends exactly at `j`.
pub proof fn lemma_digits_end_from_is(s: Seq<char>, from: int, j: int)
    requires
        0 <= from <= j <= s.len(),
        forall|k: int| from <= k < j ==> is_digit(s[k]),
        j < s.len() ==> !is_digit(s[j]),
    ensures
        digits_end_from(s, from) == j,
    decreases j - from,
{
    if from < j {
        lemma_digits_end_from_is(s, from + 1, j);
    }
}

/// The value of a digit run only grows as the run is extended to the right.
pub proof fn lemma_digits_val_prefix(s: Seq<char>, k: int)
    requires
        0 <= k <= s.len(),
    ensures
        seq_digits_val(s.subrange(0, k)) <= seq_digits_val(s),
    decreases s.len() - k,
{
    if k == s.len() {
        assert(s.subrange(0, k) =~= s);
    } else {
        assert(s.subrange(0, k + 1).drop_last() =~= s.subrange(0, k));
        assert(seq_digits_val(s.subrange(0, k)) <= seq_digits_val(s.subrange(0, k + 1)));
        lemma_digits_val_prefix(s, k + 1);
    }
}

/// The character for a digit value.
pub open spec fn digit_char(d: int) -> char {
    if d == 0 {
        '0'
    } else if d == 1 {
        '1'
    } else if d == 2 {
        '2'
    } else if d == 3 {
        '3'
    } else if d == 4 {
        '4'
    } else if d == 5 {
        '5'
    } else if d == 6 {
        '6'
    } else if d == 7 {
        '7'
    } else if d == 8 {
        '8'
    } else {
        '9'
    }
}

/// Decimal rendering of a non-negative integer, without sign or padding.
pub open spec fn dec_spec(n: int) -> Seq<char>
    recommends
        n >= 0,
    decreases n,
{
    if n < 10 {
        seq![digit_char(n)]
    } else {
        dec_spec(n / 10).push(digit_char(n % 10))
    }
}

/// Decimal rendering of a signed integer.
pub open spec fn dec_signed_spec(n: int) -> Seq<char> {
    if n < 0 {
        seq!['-'] + dec_spec(-n)
    } else {
        dec_spec(n)
    }
}

pub proof fn lemma_digit_char_val(d: int)
    requires
        0 <= d < 10,
    ensures
        is_digit(digit_char(d)),
        digit_val(digit_char(d)) == d,
{
}

pub proof fn lemma_dec_spec_digits(n: int)
    requires
        n >= 0,
    ensures
        dec_spec(n).len() >= 1,
        all_digits(dec_spec(n)),
    decreases n,
{
    if n >= 10 {
        lemma_dec_spec_digits(n / 10);
    }
}

/// Reading the decimal rendering of `n` back as a digit run yields `n`.
pub proof fn lemma_dec_spec_val(n: int)
    requires
        n >= 0,
    ensures
        seq_digits_val(dec_spec(n)) == n,
    decreases n,
{
    if n < 10 {
        lemma_digit_char_val(n);
        assert(seq![digit_char(n)].drop_last() =~= Seq::<char>::empty());
        assert(seq![digit_char(n)].last() == digit_char(n));
        assert(seq_digits_val(Seq::<char>::empty()) == 0);
        assert(seq_digits_val(seq![digit_char(n)]) == seq_digits_val(Seq::<char>::empty()) * 10
            + digit_val(digit_char(n)));
    } else {
        lemma_dec_spec_val(n / 10);
        lemma_digit_char_val(n % 10);
        assert(dec_spec(n / 10).push(digit_char(n % 10)).drop_last() =~= dec_spec(n / 10));
        assert(dec_spec(n / 10).push(digit_char(n % 10)).last() == digit_char(n % 10));
        assert(seq_digits_val(dec_spec(n)) == seq_digits_val(dec_spec(n / 10)) * 10 + digit_val(
            digit_char(n % 10),
        ));
        assert(seq_digits_val(dec_spec(n)) == (n / 10) * 10 + (n % 10));
    }
}

/// A sequence of `n` spaces.
pub open spec fn spaces_spec(n: int) -> Seq<char>
    decreases n,
{
    if n <= 0 {
        Seq::empty()
    } else {
        spaces_spec(n - 1).push(' ')
    }
}

/// `t` centered in a field of width `w` (extra padding on the right), or `t`
/// itself if it does not fit.
pub open spec fn center_pad_spec(t: Seq<char>, w: int) -> Seq<char> {
    if t.len() >= w {
        t
    } else {
        spaces_spec((w - t.len()) / 2) + t + spaces_spec((w - t.len()) - (w - t.len()) / 2)
    }
}

/// `t` left-aligned in a field of width `w`, or `t` itself if it does not fit.
pub open spec fn left_pad_spec(t: Seq<char>, w: int) -> Seq<char> {
    if t.len() >= w {
        t
    } else {
        t + spaces_spec(w - t.len())
    }
}

pub fn exec_skip_ws(s: &str, from: usize) -> (r: usize)
    requires
        from <= s@.len(),
    ensures
        r == skip_ws_from(s@, from as int),
        from <= r <= s@.len(),
{
    let n = s.unicode_len();
    let mut i = from;
    while i < n
        invariant
            from <= i <= n,
            n == s@.len(),
            skip_ws_from(s@, from as int) == skip_ws_from(s@, i as int),
        decreases n - i,
    {
        let c = s.get_char(i);
        if !(c == ' ' || c == '\t' || c == '\r' || c == '\n') {
            return i;
        }
        i = i + 1;
    }
    i
}

pub fn exec_skip_spaces(s: &str, from: usize) -> (r: usize)
    requires
        from <= s@.len(),
    ensures
        r == skip_spaces_from(s@, from as int),
        from <= r <= s@.len(),
{
    let n = s.unicode_len();
    let mut i = from;
    while i < n
        invariant
            from <= i <= n,
            n == s@.len(),
            skip_spaces_from(s@, from as int) == skip_spaces_from(s@, i as int),
        decreases n - i,
    {
        if s.get_char(i) != ' ' {
            return i;
        }
        i = i + 1;
    }
    i
}

pub fn exec_digits_end(s: &str, from: usize) -> (r: usize)
    requires
        from <= s@.len(),
    ensures
        r == digits_end_from(s@, from as int),
        from <= r <= s@.len(),
{
    let n = s.unicode_len();
    let mut i = from;
    while i < n
        invariant
            from <= i <= n,
            n == s@.len(),
            digits_end_from(s@, from as int) == digits_end_from(s@, i as int),
        decreases n - i,
    {
        let c = s.get_char(i);
        if !(48 <= c as u32 && c as u32 <= 57) {
            return i;
        }
        i = i + 1;
    }
    i
}

pub fn exec_find_char(s: &str, c: char, from: usize) -> (r: usize)
    requires
        from <= s@.len(),
    ensures
        r == find_from(s@, c, from as int),
        from <= r <= s@.len(),
{
    let n = s.unicode_len();
    let mut i = from;
    while i < n
        invariant
            from <= i <= n,
            n == s@.len(),
            find_from(s@, c, from as int) == find_from(s@, c, i as int),
        decreases n - i,
    {
        if s.get_char(i) == c {
            return i;
        }
        i = i + 1;
    }
    i
}

/// Value of the digit run `s[from..to]`, unless it exceeds `limit`.
pub fn exec_digits_val(s: &str, from: usize, to: usize, limit: u64) -> (r: Option<u64>)
    requires
        from <= to <= s@.len(),
        forall|k: int| from <= k < to ==> is_digit(s@[k]),
        limit <= 1_000_000_000_000_000_000,
    ensures
        match r {
            Some(v) => v == seq_digits_val(s@.subrange(from as int, to as int)) && v <= limit,
            None => seq_digits_val(s@.subrange(from as int, to as int)) > limit,
        },
{
    let mut acc: u64 = 0;
    let mut i = from;
    proof {
        assert(s@.subrange(from as int, from as int) =~= Seq::<char>::empty());
    }
    while i < to
        invariant
            from <= i <= to <= s@.len(),
            forall|k: int| from <= k < to ==> is_digit(s@[k]),
            limit <= 1_000_000_000_000_000_000,
            acc == seq_digits_val(s@.subrange(from as int, i as int)),
            acc <= limit,
        decreases to - i,
    {
        let c = s.get_char(i);
        let d = (c as u32 - 48) as u64;
        proof {
            assert(is_digit(s@[i as int]));
            assert(d == digit_val(s@[i as int]));
            assert(s@.subrange(from as int, i as int + 1).drop_last() =~= s@.subrange(
                from as int,
                i as int,
            ));
        }
        let next = acc * 10 + d;
        if next > limit {
            proof {
                let full = s@.subrange(from as int, to as int);
                assert(s@.subrange(from as int, i as int + 1) =~= full.subrange(
                    0,
                    i as int + 1 - from as int,
                ));
                lemma_digits_val_prefix(full, i as int + 1 - from as int);
            }
            return None;
        }
        acc = next;
        i = i + 1;
    }
    Some(acc)
}

/// Whether two strings hold the same characters.
pub fn str_eq(a: &str, b: &str) -> (r: bool)
    ensures
        r == (a@ == b@),
{
    let n = a.unicode_len();
    if n != b.unicode_len() {
        proof {
            assert(a@ != b@) by {
                if a@ == b@ {
                    assert(a@.len() == b@.len());
                }
            }
        }
        return false;
    }
    let mut k: usize = 0;
    while k < n
        invariant
            k <= n,
            n == a@.len(),
            n == b@.len(),
            forall|j: int| 0 <= j < k ==> a@[j] == b@[j],
        decreases n - k,
    {
        if a.get_char(k) != b.get_char(k) {
            proof {
                assert(a@ != b@) by {
                    if a@ == b@ {
                        assert(a@[k as int] == b@[k as int]);
                    }
                }
            }
            return false;
        }
        k = k + 1;
    }
    proof {
        assert(a@ =~= b@);
    }
    true
}

/// One decimal digit as a string.
pub fn digit_string(d: u8) -> (r: String)
    requires
        d < 10,
    ensures
        r@ == seq![digit_char(d as int)],
{
    proof {
        reveal_strlit("0");
        reveal_strlit("1");
        reveal_strlit("2");
        reveal_strlit("3");
        reveal_strlit("4");
        reveal_strlit("5");
        reveal_strlit("6");
        reveal_strlit("7");
        reveal_strlit("8");
        reveal_strlit("9");
    }
    let t = match d {
        0 => "0",
        1 => "1",
        2 => "2",
        3 => "3",
        4 => "4",
        5 => "5",
        6 => "6",
        7 => "7",
        8 => "8",
        _ => "9",
    };
    proof {
        assert(t@ =~= seq![digit_char(d as int)]);
    }
    String::from_str(t)
}

/// Decimal rendering of an unsigned integer.
pub fn u64_to_string(n: u64) -> (r: String)
    ensures
        r@ == dec_spec(n as int),
    decreases n,
{
    if n < 10 {
        digit_string(n as u8)
    } else {
        let mut s = u64_to_string(n / 10);
        let d = digit_string((n % 10) as u8);
        s.append(d.as_str());
        proof {
            assert(s@ =~= dec_spec(n as int));
        }
        s
    }
}

/// Decimal rendering of a signed integer.
pub fn i64_to_string(n: i64) -> (r: String)
    requires
        n > i64::MIN,
    ensures
        r@ == dec_signed_spec(n as int),
{
    if n < 0 {
        let mut s = String::from_str("-");
        let m = (-n) as u64;
        let t = u64_to_string(m);
        s.append(t.as_str());
        proof {
            reveal_strlit("-");
            assert(s@ =~= dec_signed_spec(n as int));
        }
        s
    } else {
        u64_to_string(n as u64)
    }
}

/// A string of `n` spaces.
pub fn spaces(n: usize) -> (r: String)
    ensures
        r@ == spaces_spec(n as int),
{
    let mut s = String::new();
    let mut i: usize = 0;
    while i < n
        invariant
            i <= n,
            s@ == spaces_spec(i as int),
        decreases n - i,
    {
        s.append(" ");
        proof {
            reveal_strlit(" ");
            assert(s@ =~= spaces_spec(i + 1 as int));
        }
        i = i + 1;
    }
    s
}

/// `t` centered in a field of `w` characters (extra padding on the right).
pub fn center_pad(t: String, w: usize) -> (r: String)
    ensures
        r@ == center_pad_spec(t@, w as int),
{
    let len = t.as_str().unicode_len();
    if len >= w {
        t
    } else {
        let pad = w - len;
        let left = pad / 2;
        let mut s = spaces(left);
        s.append(t.as_str());
        let right = spaces(pad - left);
        s.append(right.as_str());
        proof {
            assert(s@ =~= center_pad_spec(t@, w as int));
        }
        s
    }
}

/// `t` left-aligned in a field of `w` characters.
pub fn left_pad(t: String, w: usize) -> (r: String)
    ensures
        r@ == left_pad_spec(t@, w as int),
{
    let len = t.as_str().unicode_len();
    if len >= w {
        t
    } else {
        let ghost tv = t@;
        let mut s = t;
        let right = spaces(w - len);
        s.append(right.as_str());
        proof {
            assert(s@ =~= left_pad_spec(tv, w as int));
        }
        s
    }
}

} // verus!
