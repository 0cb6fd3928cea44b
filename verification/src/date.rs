//! Dates in headers: `YYYY-MM-DD...` (the first ten bytes are kept) or
//! `MM/DD/YYYY[ time]` (rewritten as `YYYY-MM-DD`).
//!
//! The ISO form is recognised by bytes: the string is at least ten bytes
//! long in UTF-8, bytes 4 and 7 are `-`, and the first ten bytes are kept.
//! An ASCII byte such as `-` can only be the first byte of a character, so
//! "byte `k` is `-`" is "the character that starts at byte `k` is `-`".
//! When byte 10 falls inside a character the ten-byte prefix is not a
//! string: cutting the text there would panic, so such inputs are reported
//! (`DateParse::SliceInsideChar`) or excluded by `requires`.
use vstd::prelude::*;
use crate::number::{parse_u32, parse_u32_spec, is_digit};
use crate::text::{
    append_chars, before_char, chars_of, index_of_char, is_whitespace, is_ws, prefix_len,
    string_of, sub_chars, trim, trim_chars, trim_start,
};

verus! {

/// Bytes in the UTF-8 encoding of `c`.
pub open spec fn utf8_width(c: char) -> nat {
    let n = c as u32;
    if n < 0x80 {
        1
    } else if n < 0x800 {
        2
    } else if n < 0x10000 {
        3
    } else {
        4
    }
}

/// Bytes in the UTF-8 encoding of `s`.
pub open spec fn byte_len(s: Seq<char>) -> nat
    decreases s.len(),
{
    if s.len() == 0 {
        0
    } else {
        byte_len(s.drop_last()) + utf8_width(s.last())
    }
}

/// Byte position at which character `i` of `s` starts.
pub open spec fn byte_offset(s: Seq<char>, i: int) -> nat {
    byte_len(s.take(i))
}

/// The character `c` starts at byte `k` of `s`.
pub open spec fn char_at_byte(s: Seq<char>, k: int, c: char) -> bool {
    exists|i: int| 0 <= i < s.len() && byte_offset(s, i) == k && s[i] == c
}

/// Byte `k` of `s` is the start of a character or the end of `s`.
pub open spec fn is_boundary(s: Seq<char>, k: int) -> bool {
    exists|i: int| 0 <= i <= s.len() && byte_offset(s, i) == k
}

/// The characters of `s` that lie before byte `k` (a boundary).
pub open spec fn chars_before_byte(s: Seq<char>, k: int) -> Seq<char> {
    s.take(choose|i: int| 0 <= i <= s.len() && byte_offset(s, i) == k)
}

/// At least ten bytes, with `-` at bytes 4 and 7.
pub open spec fn iso_shape(t: Seq<char>) -> bool {
    byte_len(t) >= 10 && char_at_byte(t, 4, '-') && char_at_byte(t, 7, '-')
}

/// The ten-byte prefix of an ISO-shaped date would end inside a character.
pub open spec fn date_slice_panics(s: Seq<char>) -> bool {
    let t = trim(s);
    iso_shape(t) && !is_boundary(t, 10)
}

/// Number of leading non-whitespace characters.
pub open spec fn word_len(s: Seq<char>) -> nat
    decreases s.len(),
{
    if s.len() == 0 || is_ws(s[0]) {
        0
    } else {
        1 + word_len(s.drop_first())
    }
}

/// The first whitespace-separated word of `s`, or empty.
pub open spec fn first_word(s: Seq<char>) -> Seq<char> {
    let t = trim_start(s);
    t.take(word_len(t) as int)
}

/// `s` padded on the left with `0` to two characters.
pub open spec fn pad2(s: Seq<char>) -> Seq<char> {
    if s.len() >= 2 {
        s
    } else if s.len() == 1 {
        seq!['0'] + s
    } else {
        seq!['0', '0']
    }
}

/// The `MM/DD/YYYY` reading of trimmed text `t`.
pub open spec fn us_date(t: Seq<char>) -> Option<Seq<char>> {
    let p0 = prefix_len(t, '/') as int;
    if p0 >= t.len() {
        None
    } else {
        let r1 = t.skip(p0 + 1);
        let p1 = prefix_len(r1, '/') as int;
        if p1 >= r1.len() {
            None
        } else {
            let m = trim(t.take(p0));
            let d = trim(r1.take(p1));
            let y = first_word(r1.skip(p1 + 1));
            if parse_u32_spec(m) is Some && parse_u32_spec(d) is Some && byte_len(y) == 4
                && parse_u32_spec(y) is Some {
                Some(y + seq!['-'] + pad2(m) + seq!['-'] + pad2(d))
            } else {
                None
            }
        }
    }
}

/// The ISO date a header value gives, if any: none as well for an
/// ISO-shaped value whose ten-byte prefix would end inside a character.
pub open spec fn parse_date_spec(s: Seq<char>) -> Option<Seq<char>> {
    let t = trim(s);
    if iso_shape(t) {
        if is_boundary(t, 10) {
            Some(chars_before_byte(t, 10))
        } else {
            None
        }
    } else {
        us_date(t)
    }
}

/// Outcome of reading a date: a date, no date, or a ten-byte prefix that
/// would end inside a character.
pub enum DateParse {
    Date(Vec<char>),
    NoDate,
    SliceInsideChar,
}

proof fn lemma_byte_offset_step(s: Seq<char>, i: int)
    requires
        0 <= i < s.len(),
    ensures
        byte_offset(s, i + 1) == byte_offset(s, i) + utf8_width(s[i]),
{
    assert(s.take(i + 1).drop_last() =~= s.take(i));
}

proof fn lemma_byte_offset_mono(s: Seq<char>, i: int, j: int)
    requires
        0 <= i < j <= s.len(),
    ensures
        byte_offset(s, i) < byte_offset(s, j),
    decreases j - i,
{
    lemma_byte_offset_step(s, j - 1);
    if i < j - 1 {
        lemma_byte_offset_mono(s, i, j - 1);
    }
}

pub proof fn lemma_byte_len_ascii(s: Seq<char>)
    requires
        forall|i: int| 0 <= i < s.len() ==> (s[i] as u32) < 0x80,
    ensures
        byte_len(s) == s.len(),
    decreases s.len(),
{
    if s.len() > 0 {
        lemma_byte_len_ascii(s.drop_last());
    }
}

fn width_exec(c: char) -> (w: u128)
    ensures
        w == utf8_width(c),
{
    let n = c as u32;
    if n < 0x80 {
        1
    } else if n < 0x800 {
        2
    } else if n < 0x10000 {
        3
    } else {
        4
    }
}

/// The character index at which byte `k` starts, or `None` when `k` is not
/// a boundary.
fn boundary_index(v: &Vec<char>, k: usize) -> (r: Option<usize>)
    ensures
        match r {
            Some(i) => i <= v.len() && byte_offset(v@, i as int) == k,
            None => !is_boundary(v@, k as int),
        },
{
    let mut i: usize = 0;
    let mut off: u128 = 0;
    assert(v@.take(0) =~= Seq::<char>::empty());
    while i < v.len() && off < k as u128
        invariant
            0 <= i <= v.len(),
            off == byte_offset(v@, i as int),
            forall|j: int| 0 <= j < i ==> byte_offset(v@, j) < k,
        decreases v.len() - i,
    {
        proof {
            lemma_byte_offset_step(v@, i as int);
        }
        off = off + width_exec(v[i]);
        i = i + 1;
    }
    if off == k as u128 {
        return Some(i);
    }
    assert forall|j: int| 0 <= j <= v@.len() implies byte_offset(v@, j) != k by {
        if j > i {
            lemma_byte_offset_mono(v@, i as int, j);
        } else if j < i {
        } else {
        }
        if i == v.len() && j < i {
        }
    }
    None
}

fn char_at_byte_exec(v: &Vec<char>, k: usize, c: char) -> (b: bool)
    ensures
        b == char_at_byte(v@, k as int, c),
{
    match boundary_index(v, k) {
        Some(i) => {
            if i < v.len() && v[i] == c {
                true
            } else {
                proof {
                    if char_at_byte(v@, k as int, c) {
                        let j = choose|j: int|
                            0 <= j < v@.len() && byte_offset(v@, j) == k && v@[j] == c;
                        if j < i {
                            lemma_byte_offset_mono(v@, j, i as int);
                        } else if j > i {
                            lemma_byte_offset_mono(v@, i as int, j);
                        }
                    }
                }
                false
            }
        },
        None => false,
    }
}

fn byte_len_exec(v: &Vec<char>) -> (n: u128)
    ensures
        n == byte_len(v@),
        n <= 4 * v.len(),
{
    let mut i: usize = 0;
    let mut n: u128 = 0;
    assert(v@.take(0) =~= Seq::<char>::empty());
    while i < v.len()
        invariant
            0 <= i <= v.len(),
            n == byte_offset(v@, i as int),
            n <= 4 * i,
        decreases v.len() - i,
    {
        proof {
            lemma_byte_offset_step(v@, i as int);
        }
        n = n + width_exec(v[i]);
        i = i + 1;
    }
    assert(v@.take(v.len() as int) =~= v@);
    n
}

proof fn lemma_word_len(s: Seq<char>, n: int)
    requires
        0 <= n <= s.len(),
        forall|k: int| 0 <= k < n ==> !is_ws(s[k]),
        n == s.len() || is_ws(s[n]),
    ensures
        word_len(s) == n,
    decreases n,
{
    if n > 0 {
        lemma_word_len(s.drop_first(), n - 1);
    }
}

proof fn lemma_trim_start_prefix(s: Seq<char>, n: int)
    requires
        0 <= n <= s.len(),
        forall|k: int| 0 <= k < n ==> is_ws(s[k]),
        n == s.len() || !is_ws(s[n]),
    ensures
        trim_start(s) == s.skip(n),
    decreases n,
{
    if n > 0 {
        assert(s.drop_first().skip(n - 1) =~= s.skip(n));
        lemma_trim_start_prefix(s.drop_first(), n - 1);
    } else {
        assert(s.skip(0) =~= s);
    }
}

/// The first whitespace-separated word of `v`, or empty.
pub fn first_word_of(v: &Vec<char>) -> (r: Vec<char>)
    ensures
        r@ == first_word(v@),
{
    let mut i: usize = 0;
    while i < v.len() && is_whitespace(v[i])
        invariant
            0 <= i <= v.len(),
            forall|k: int| 0 <= k < i ==> is_ws(v@[k]),
        decreases v.len() - i,
    {
        i = i + 1;
    }
    proof {
        lemma_trim_start_prefix(v@, i as int);
    }
    let mut j = i;
    while j < v.len() && !is_whitespace(v[j])
        invariant
            i <= j <= v.len(),
            forall|k: int| i <= k < j ==> !is_ws(v@[k]),
        decreases v.len() - j,
    {
        j = j + 1;
    }
    proof {
        let t = v@.skip(i as int);
        lemma_word_len(t, j - i);
        assert(t.take(j - i) =~= v@.subrange(i as int, j as int));
    }
    sub_chars(v, i, j)
}

fn pad2_chars(s: &Vec<char>) -> (r: Vec<char>)
    ensures
        r@ == pad2(s@),
{
    let mut r: Vec<char> = Vec::new();
    if s.len() >= 2 {
        append_chars(&mut r, s);
        assert(r@ =~= s@);
    } else if s.len() == 1 {
        r.push('0');
        append_chars(&mut r, s);
        assert(r@ =~= seq!['0'] + s@);
    } else {
        r.push('0');
        r.push('0');
        assert(r@ =~= seq!['0', '0']);
    }
    r
}

proof fn lemma_parsed_is_ascii(s: Seq<char>)
    requires
        parse_u32_spec(s) is Some,
    ensures
        byte_len(s) == s.len(),
{
    let body = if s.len() > 0 && s[0] == '+' {
        s.drop_first()
    } else {
        s
    };
    assert forall|i: int| 0 <= i < s.len() implies (s[i] as u32) < 0x80 by {
        if s.len() > 0 && s[0] == '+' {
            if i > 0 {
                assert(is_digit(body[i - 1]));
            }
        } else {
            assert(is_digit(body[i]));
        }
    }
    lemma_byte_len_ascii(s);
}

fn us_date_chars(t: &Vec<char>) -> (r: Option<Vec<char>>)
    ensures
        match r {
            Some(v) => us_date(t@) == Some(v@),
            None => us_date(t@) is None,
        },
{
    let p0 = index_of_char(t, '/');
    if p0 >= t.len() {
        return None;
    }
    let r1 = sub_chars(t, p0 + 1, t.len());
    assert(r1@ =~= t@.skip(p0 + 1));
    let p1 = index_of_char(&r1, '/');
    if p1 >= r1.len() {
        return None;
    }
    let m = trim_chars(&sub_chars(t, 0, p0));
    let d = trim_chars(&sub_chars(&r1, 0, p1));
    let rest = sub_chars(&r1, p1 + 1, r1.len());
    assert(rest@ =~= r1@.skip(p1 + 1));
    let y = first_word_of(&rest);
    assert(t@.take(p0 as int) =~= t@.subrange(0, p0 as int));
    assert(r1@.take(p1 as int) =~= r1@.subrange(0, p1 as int));
    let pm = parse_u32(&m);
    let pd = parse_u32(&d);
    let py = parse_u32(&y);
    if pm.is_some() && pd.is_some() && py.is_some() && y.len() == 4 {
        proof {
            lemma_parsed_is_ascii(y@);
        }
        let mut out: Vec<char> = Vec::new();
        append_chars(&mut out, &y);
        out.push('-');
        let pm2 = pad2_chars(&m);
        append_chars(&mut out, &pm2);
        out.push('-');
        let pd2 = pad2_chars(&d);
        append_chars(&mut out, &pd2);
        assert(out@ =~= y@ + seq!['-'] + pad2(m@) + seq!['-'] + pad2(d@));
        Some(out)
    } else {
        proof {
            if py.is_some() {
                lemma_parsed_is_ascii(y@);
            }
        }
        None
    }
}

/// Reads a date from a header value.
pub fn parse_date_chars(s: &Vec<char>) -> (r: DateParse)
    ensures
        match r {
            DateParse::Date(v) => !date_slice_panics(s@) && parse_date_spec(s@) == Some(v@),
            DateParse::NoDate => !date_slice_panics(s@) && parse_date_spec(s@) is None,
            DateParse::SliceInsideChar => date_slice_panics(s@) && parse_date_spec(s@) is None,
        },
{
    let t = trim_chars(s);
    let n = byte_len_exec(&t);
    if n >= 10 && char_at_byte_exec(&t, 4, '-') && char_at_byte_exec(&t, 7, '-') {
        match boundary_index(&t, 10) {
            Some(i) => {
                proof {
                    let w = choose|j: int| 0 <= j <= t@.len() && byte_offset(t@, j) == 10;
                    if w < i {
                        lemma_byte_offset_mono(t@, w, i as int);
                    } else if w > i {
                        lemma_byte_offset_mono(t@, i as int, w);
                    }
                }
                let v = sub_chars(&t, 0, i);
                assert(v@ =~= t@.take(i as int));
                DateParse::Date(v)
            },
            None => DateParse::SliceInsideChar,
        }
    } else {
        match us_date_chars(&t) {
            Some(v) => DateParse::Date(v),
            None => DateParse::NoDate,
        }
    }
}

/// `s` is not a date whose ten-byte prefix would end inside a character.
pub fn date_slice_ok(s: &str) -> (b: bool)
    ensures
        b == !date_slice_panics(s@),
{
    let v = chars_of(s);
    match parse_date_chars(&v) {
        DateParse::SliceInsideChar => false,
        _ => true,
    }
}

/// Parses a date from ISO 8601 (`YYYY-MM-DD...`) or `MM/DD/YYYY` form;
/// `None` for anything else, a cut inside a character included.
pub fn parse_date(s: &str) -> (r: Option<String>)
    ensures
        r.deep_view() == parse_date_spec(s@),
{
    let v = chars_of(s);
    match parse_date_chars(&v) {
        DateParse::Date(d) => Some(string_of(&d)),
        _ => None,
    }
}

} // verus!
