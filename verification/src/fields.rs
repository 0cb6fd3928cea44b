//! Searching within text, and splitting delimited lines into fields.
use vstd::prelude::*;
use crate::text::{
    append_chars, chars_of, contains_seq, find, occurs_at, string_of, sub_chars, trim,
    trim_chars,
};

verus! {

fn matches_at(v: &Vec<char>, p: &Vec<char>, i: usize) -> (b: bool)
    requires
        i + p.len() <= v.len(),
    ensures
        b == occurs_at(v@, p@, i as int),
{
    let mut k: usize = 0;
    while k < p.len()
        invariant
            0 <= k <= p.len(),
            i + p.len() <= v.len(),
            forall|j: int| 0 <= j < k ==> v@[i + j] == p@[j],
        decreases p.len() - k,
    {
        if v[i + k] != p[k] {
            assert(v@.subrange(i as int, i + p.len())[k as int] != p@[k as int]);
            return false;
        }
        k = k + 1;
    }
    assert(v@.subrange(i as int, i + p.len()) =~= p@);
    true
}

/// The first position at which `p` occurs in `v` (`str::find`).
pub fn find_seq(v: &Vec<char>, p: &Vec<char>) -> (r: Option<usize>)
    ensures
        match r {
            Some(i) => find(v@, p@) == Some(i as int) && i + p.len() <= v.len(),
            None => find(v@, p@) is None,
        },
{
    let mut i: usize = 0;
    while i <= v.len() && p.len() <= v.len() - i
        invariant
            0 <= i <= v.len() + 1,
            forall|j: int| 0 <= j < i ==> !occurs_at(v@, p@, j),
        decreases v.len() + 1 - i,
    {
        if matches_at(v, p, i) {
            proof {
                let w = choose|j: int|
                    occurs_at(v@, p@, j) && forall|m: int| 0 <= m < j ==> !occurs_at(v@, p@, m);
                if w < i {
                } else if w > i {
                }
            }
            return Some(i);
        }
        proof {
            if p.len() == 0 {
                assert(v@.subrange(i as int, i as int) =~= p@);
            }
        }
        i = i + 1;
    }
    assert forall|j: int| !occurs_at(v@, p@, j) by {
        if 0 <= j && j + p@.len() <= v@.len() {
            assert(j < i);
        }
    }
    None
}

/// `p` occurs in `v`.
pub fn contains_lit(v: &Vec<char>, p: &str) -> (b: bool)
    ensures
        b == contains_seq(v@, p@),
{
    let pv = chars_of(p);
    let r = find_seq(v, &pv);
    match r {
        Some(_) => true,
        None => false,
    }
}

/// The state machine that splits a line at delimiters outside double
/// quotes: a quote opens or closes a quoted section, a doubled quote inside
/// one stands for a quote character, and each field is trimmed.
pub open spec fn split_go(
    s: Seq<char>,
    d: char,
    i: int,
    in_q: bool,
    cur: Seq<char>,
    acc: Seq<Seq<char>>,
) -> Seq<Seq<char>>
    decreases s.len() - i,
{
    if i < 0 || i >= s.len() {
        acc.push(trim(cur))
    } else if in_q && s[i] == '"' {
        if i + 1 < s.len() && s[i + 1] == '"' {
            split_go(s, d, i + 2, true, cur.push('"'), acc)
        } else {
            split_go(s, d, i + 1, false, cur, acc)
        }
    } else if !in_q && s[i] == '"' {
        split_go(s, d, i + 1, true, cur, acc)
    } else if !in_q && s[i] == d {
        split_go(s, d, i + 1, false, seq![], acc.push(trim(cur)))
    } else {
        split_go(s, d, i + 1, in_q, cur.push(s[i]), acc)
    }
}

/// The fields of a delimited line, quotes removed.
pub open spec fn split_fields_spec(s: Seq<char>, d: char) -> Seq<Seq<char>> {
    split_go(s, d, 0, false, seq![], seq![])
}

/// Splits `v` into trimmed fields at `delimiter`, honouring double quotes.
pub fn split_fields_chars(v: &Vec<char>, delimiter: char) -> (r: Vec<String>)
    ensures
        r.deep_view() == split_fields_spec(v@, delimiter),
{
    let mut fields: Vec<String> = Vec::new();
    let mut cur: Vec<char> = Vec::new();
    let mut in_q = false;
    let mut i: usize = 0;
    assert(fields.deep_view() =~= Seq::<Seq<char>>::empty());
    assert(cur@ =~= Seq::<char>::empty());
    while i < v.len()
        invariant
            0 <= i <= v.len(),
            split_fields_spec(v@, delimiter) == split_go(
                v@,
                delimiter,
                i as int,
                in_q,
                cur@,
                fields.deep_view(),
            ),
        decreases v.len() - i,
    {
        let c = v[i];
        if in_q && c == '"' {
            if i + 1 < v.len() && v[i + 1] == '"' {
                cur.push('"');
                i = i + 2;
            } else {
                in_q = false;
                i = i + 1;
            }
        } else if !in_q && c == '"' {
            in_q = true;
            i = i + 1;
        } else if !in_q && c == delimiter {
            let t = trim_chars(&cur);
            let ghost old_f = fields.deep_view();
            fields.push(string_of(&t));
            assert(fields.deep_view() =~= old_f.push(trim(cur@)));
            cur = Vec::new();
            i = i + 1;
        } else {
            cur.push(c);
            i = i + 1;
        }
    }
    let t = trim_chars(&cur);
    let ghost old_f = fields.deep_view();
    fields.push(string_of(&t));
    assert(fields.deep_view() =~= old_f.push(trim(cur@)));
    fields
}

/// Doubles every double-quote character.
pub open spec fn escape_quotes(s: Seq<char>) -> Seq<char>
    decreases s.len(),
{
    if s.len() == 0 {
        seq![]
    } else {
        escape_quotes(s.drop_last()) + if s.last() == '"' {
            seq!['"', '"']
        } else {
            seq![s.last()]
        }
    }
}

/// A field needs quoting when it holds the delimiter, a quote or a newline.
pub open spec fn needs_quotes(s: Seq<char>, d: char) -> bool {
    s.contains(d) || s.contains('"') || s.contains('\n')
}

/// A field as written to a delimited line.
pub open spec fn quote_field_spec(s: Seq<char>, d: char) -> Seq<char> {
    if needs_quotes(s, d) {
        seq!['"'] + escape_quotes(s) + seq!['"']
    } else {
        s
    }
}

/// `s` with its quotes doubled.
pub fn escape_quotes_chars(s: &Vec<char>) -> (r: Vec<char>)
    ensures
        r@ == escape_quotes(s@),
{
    let mut r: Vec<char> = Vec::new();
    let mut i: usize = 0;
    while i < s.len()
        invariant
            0 <= i <= s.len(),
            r@ == escape_quotes(s@.take(i as int)),
        decreases s.len() - i,
    {
        proof {
            assert(s@.take(i + 1).drop_last() =~= s@.take(i as int));
        }
        if s[i] == '"' {
            r.push('"');
            r.push('"');
        } else {
            r.push(s[i]);
        }
        i = i + 1;
        assert(r@ =~= escape_quotes(s@.take(i as int)));
    }
    assert(s@.take(s.len() as int) =~= s@);
    r
}

/// A field as written to a delimited line: quoted, with quotes doubled,
/// when it holds the delimiter, a quote or a newline.
pub fn quote_chars(s: &Vec<char>, delimiter: char) -> (r: Vec<char>)
    ensures
        r@ == quote_field_spec(s@, delimiter),
{
    if crate::text::contains_char(s, delimiter) || crate::text::contains_char(s, '"')
        || crate::text::contains_char(s, '\n') {
        let mut r: Vec<char> = Vec::new();
        r.push('"');
        let e = escape_quotes_chars(s);
        append_chars(&mut r, &e);
        r.push('"');
        assert(r@ =~= seq!['"'] + escape_quotes(s@) + seq!['"']);
        r
    } else {
        let r = sub_chars(s, 0, s.len());
        assert(r@ =~= s@);
        r
    }
}

} // verus!
