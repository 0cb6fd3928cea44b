//! Numeric tokens: which strings `f64` and `u32` parsing accept, and the
//! decimal form of a count.
//!
//! The accepted floating-point syntax is the grammar that `f64::from_str`
//! documents, after ASCII lowercasing:
//!
//! ```text
//! Float  ::= Sign? ( 'inf' | 'infinity' | 'nan' | Number )
//! Number ::= ( Digit+ | Digit+ '.' Digit* | Digit* '.' Digit+ ) Exp?
//! Exp    ::= 'e' Sign? Digit+
//! Sign   ::= [+-]
//! Digit  ::= [0-9]
//! ```
//!
//! Tokens are checked here; their values are computed where floating point
//! is available, from tokens known to parse.
use vstd::prelude::*;
use crate::text::{ascii_lower_char, chars_of};

verus! {

pub open spec fn is_digit(c: char) -> bool {
    '0' <= c && c <= '9'
}

pub open spec fn is_sign(c: char) -> bool {
    c == '+' || c == '-'
}

/// `s` is `lit` up to ASCII case (`lit` is lowercase).
pub open spec fn eq_ignore_case(s: Seq<char>, lit: Seq<char>) -> bool {
    s.len() == lit.len() && forall|i: int| 0 <= i < s.len() ==> ascii_lower_char(s[i]) == lit[i]
}

pub open spec fn is_special_float(s: Seq<char>) -> bool {
    eq_ignore_case(s, seq!['i', 'n', 'f']) || eq_ignore_case(
        s,
        seq!['i', 'n', 'f', 'i', 'n', 'i', 't', 'y'],
    ) || eq_ignore_case(s, seq!['n', 'a', 'n'])
}

/// Digits with at most one `.` among them, and at least one digit.
pub open spec fn is_mantissa(m: Seq<char>) -> bool {
    &&& forall|i: int| 0 <= i < m.len() ==> is_digit(m[i]) || m[i] == '.'
    &&& forall|i: int, j: int| 0 <= i < j < m.len() ==> !(m[i] == '.' && m[j] == '.')
    &&& exists|i: int| 0 <= i < m.len() && is_digit(m[i])
}

/// One or more digits.
pub open spec fn is_digits(s: Seq<char>) -> bool {
    s.len() > 0 && forall|i: int| 0 <= i < s.len() ==> is_digit(s[i])
}

/// An exponent after the `e`: an optional sign and one or more digits.
pub open spec fn is_exponent(e: Seq<char>) -> bool {
    if e.len() > 0 && is_sign(e[0]) {
        is_digits(e.drop_first())
    } else {
        is_digits(e)
    }
}

pub open spec fn is_e(c: char) -> bool {
    c == 'e' || c == 'E'
}

/// Number of characters before the first `e` or `E`.
pub open spec fn exp_pos(s: Seq<char>) -> nat
    decreases s.len(),
{
    if s.len() == 0 || is_e(s[0]) {
        0
    } else {
        1 + exp_pos(s.drop_first())
    }
}

pub open spec fn is_unsigned_number(s: Seq<char>) -> bool {
    let k = exp_pos(s) as int;
    is_mantissa(s.take(k)) && (k == s.len() || is_exponent(s.skip(k + 1)))
}

/// The token `f64::from_str` accepts.
pub open spec fn is_float_literal(s: Seq<char>) -> bool {
    let body = if s.len() > 0 && is_sign(s[0]) {
        s.drop_first()
    } else {
        s
    };
    is_special_float(body) || is_unsigned_number(body)
}

fn is_digit_exec(c: char) -> (b: bool)
    ensures
        b == is_digit(c),
{
    '0' <= c && c <= '9'
}

fn lower_ascii_exec(c: char) -> (r: char)
    ensures
        r == ascii_lower_char(c),
{
    if 'A' <= c && c <= 'Z' {
        ((c as u8) + 32) as char
    } else {
        c
    }
}

pub fn eq_ignore_case_from(s: &Vec<char>, from: usize, lit: &str) -> (b: bool)
    requires
        from <= s.len(),
    ensures
        b == eq_ignore_case(s@.skip(from as int), lit@),
{
    let l = chars_of(lit);
    if s.len() - from != l.len() {
        return false;
    }
    let mut i: usize = 0;
    while i < l.len()
        invariant
            0 <= i <= l.len(),
            from + l.len() == s.len(),
            l@ == lit@,
            forall|j: int| 0 <= j < i ==> ascii_lower_char(s@[from + j]) == l@[j],
        decreases l.len() - i,
    {
        if lower_ascii_exec(s[from + i]) != l[i] {
            return false;
        }
        i = i + 1;
    }
    true
}

fn is_digits_exec(s: &Vec<char>, from: usize) -> (b: bool)
    requires
        from <= s.len(),
    ensures
        b == is_digits(s@.skip(from as int)),
{
    if from == s.len() {
        return false;
    }
    let mut i = from;
    while i < s.len()
        invariant
            from <= i <= s.len(),
            forall|j: int| from <= j < i ==> is_digit(s@[j]),
        decreases s.len() - i,
    {
        if !is_digit_exec(s[i]) {
            assert(!is_digit(s@.skip(from as int)[i - from]));
            return false;
        }
        i = i + 1;
    }
    true
}

proof fn lemma_exp_pos(s: Seq<char>, n: int)
    requires
        0 <= n <= s.len(),
        forall|k: int| 0 <= k < n ==> !is_e(s[k]),
        n == s.len() || is_e(s[n]),
    ensures
        exp_pos(s) == n,
    decreases n,
{
    if n > 0 {
        lemma_exp_pos(s.drop_first(), n - 1);
    }
}

fn is_special_exec(s: &Vec<char>, from: usize) -> (b: bool)
    requires
        from <= s.len(),
    ensures
        b == is_special_float(s@.skip(from as int)),
{
    proof {
        reveal_strlit("inf");
        reveal_strlit("infinity");
        reveal_strlit("nan");
        assert("inf"@ =~= seq!['i', 'n', 'f']);
        assert("infinity"@ =~= seq!['i', 'n', 'f', 'i', 'n', 'i', 't', 'y']);
        assert("nan"@ =~= seq!['n', 'a', 'n']);
    }
    eq_ignore_case_from(s, from, "inf") || eq_ignore_case_from(s, from, "infinity")
        || eq_ignore_case_from(s, from, "nan")
}

/// `s` is a token that `f64::from_str` accepts.
pub fn parses_as_float(s: &Vec<char>) -> (b: bool)
    ensures
        b == is_float_literal(s@),
{
    let from: usize = if s.len() > 0 && (s[0] == '+' || s[0] == '-') {
        1
    } else {
        0
    };
    let ghost body = if s@.len() > 0 && is_sign(s@[0]) {
        s@.drop_first()
    } else {
        s@
    };
    assert(body =~= s@.skip(from as int));
    is_special_exec(s, from) || is_unsigned_number_exec(s, from)
}

fn is_unsigned_number_exec(s: &Vec<char>, from: usize) -> (b: bool)
    requires
        from <= s.len(),
    ensures
        b == is_unsigned_number(s@.skip(from as int)),
{
    let ghost body = s@.skip(from as int);
    // mantissa: from .. k
    let mut k = from;
    let mut dots: usize = 0;
    let mut digits: usize = 0;
    while k < s.len() && s[k] != 'e' && s[k] != 'E'
        invariant
            from <= k <= s.len(),
            body == s@.skip(from as int),
            forall|j: int| from <= j < k ==> !is_e(s@[j]),
            dots <= 1,
            dots == 0 <==> forall|j: int| from <= j < k ==> s@[j] != '.',
            forall|a: int, b: int| from <= a < b < k ==> !(s@[a] == '.' && s@[b] == '.'),
            forall|j: int| from <= j < k ==> is_digit(s@[j]) || s@[j] == '.',
            digits > 0 <==> exists|j: int| from <= j < k && is_digit(s@[j]),
            digits <= k,
        decreases s.len() - k,
    {
        let c = s[k];
        if is_digit_exec(c) {
            digits = digits + 1;
        } else if c == '.' {
            if dots == 1 {
                // a second dot
                proof {
                    lemma_exp_pos_at_least(body, k - from);
                    let m = body.take(exp_pos(body) as int);
                    let j0 = choose|j: int| from <= j < k && s@[j] == '.';
                    assert(m[j0 - from] == s@[j0]);
                    assert(m[k - from] == s@[k as int]);
                    assert(!is_mantissa(m));
                }
                return false;
            }
            dots = 1;
        } else {
            proof {
                lemma_exp_pos_at_least(body, k - from);
                let m = body.take(exp_pos(body) as int);
                assert(m[k - from] == s@[k as int]);
                assert(!is_mantissa(m));
            }
            return false;
        }
        k = k + 1;
    }
    proof {
        lemma_exp_pos(body, k - from);
    }
    let ghost m = body.take(k - from);
    assert(forall|j: int| 0 <= j < m.len() ==> m[j] == s@[from + j]);
    if digits == 0 {
        assert(!is_mantissa(m)) by {
            if exists|i: int| 0 <= i < m.len() && is_digit(m[i]) {
                let i = choose|i: int| 0 <= i < m.len() && is_digit(m[i]);
                assert(is_digit(s@[from + i]));
            }
        }
        return false;
    }
    assert(is_mantissa(m)) by {
        let j = choose|j: int| from <= j < k && is_digit(s@[j]);
        assert(is_digit(m[j - from]));
        assert forall|a: int, b: int| 0 <= a < b < m.len() implies !(m[a] == '.' && m[b] == '.') by {
            assert(m[a] == s@[from + a] && m[b] == s@[from + b]);
        }
    }
    if k == s.len() {
        return true;
    }
    let r = if k + 1 < s.len() && (s[k + 1] == '+' || s[k + 1] == '-') {
        is_digits_exec(s, k + 2)
    } else {
        is_digits_exec(s, k + 1)
    };
    proof {
        let e = body.skip(k - from + 1);
        assert(e =~= s@.skip(k + 1));
        if e.len() > 0 && is_sign(e[0]) {
            assert(e.drop_first() =~= s@.skip(k + 2));
        }
    }
    r
}

proof fn lemma_exp_pos_at_least(s: Seq<char>, n: int)
    requires
        0 <= n < s.len(),
        forall|k: int| 0 <= k <= n ==> !is_e(s[k]),
    ensures
        n < exp_pos(s) <= s.len(),
    decreases n,
{
    lemma_exp_pos_le(s);
    if n > 0 {
        lemma_exp_pos_at_least(s.drop_first(), n - 1);
    }
}

proof fn lemma_exp_pos_le(s: Seq<char>)
    ensures
        exp_pos(s) <= s.len(),
    decreases s.len(),
{
    if s.len() > 0 {
        lemma_exp_pos_le(s.drop_first());
    }
}

/// Value of a string of decimal digits.
pub open spec fn digits_value(s: Seq<char>) -> nat
    decreases s.len(),
{
    if s.len() == 0 {
        0
    } else {
        digits_value(s.drop_last()) * 10 + ((s.last() as u32) - ('0' as u32)) as nat
    }
}

/// What `u32::from_str` returns: an optional `+`, then one or more digits
/// whose value fits in a `u32`.
pub open spec fn parse_u32_spec(s: Seq<char>) -> Option<u32> {
    let body = if s.len() > 0 && s[0] == '+' {
        s.drop_first()
    } else {
        s
    };
    if is_digits(body) && digits_value(body) <= u32::MAX {
        Some(digits_value(body) as u32)
    } else {
        None
    }
}

proof fn lemma_digits_value_mono(s: Seq<char>, i: int)
    requires
        0 <= i <= s.len(),
        forall|j: int| 0 <= j < s.len() ==> is_digit(s[j]),
    ensures
        digits_value(s.take(i)) <= digits_value(s),
    decreases s.len() - i,
{
    if i < s.len() {
        lemma_digits_value_mono(s, i + 1);
        assert(s.take(i + 1).drop_last() =~= s.take(i));
    } else {
        assert(s.take(i) =~= s);
    }
}

/// `u32::from_str`.
pub fn parse_u32(s: &Vec<char>) -> (r: Option<u32>)
    ensures
        r == parse_u32_spec(s@),
{
    let from: usize = if s.len() > 0 && s[0] == '+' {
        1
    } else {
        0
    };
    let ghost body = if s@.len() > 0 && s@[0] == '+' {
        s@.drop_first()
    } else {
        s@
    };
    assert(body =~= s@.skip(from as int));
    if !is_digits_exec(s, from) {
        return None;
    }
    let mut acc: u64 = 0;
    let mut i = from;
    while i < s.len()
        invariant
            from <= i <= s.len(),
            body == s@.skip(from as int),
            body == (if s@.len() > 0 && s@[0] == '+' {
                s@.drop_first()
            } else {
                s@
            }),
            is_digits(body),
            acc == digits_value(body.take(i - from)),
            acc <= u32::MAX,
        decreases s.len() - i,
    {
        proof {
            assert(body.take(i - from + 1).drop_last() =~= body.take(i - from));
            assert(body.take(i - from + 1).last() == s@[i as int]);
            assert(is_digit(body[i - from]));
        }
        let d = (s[i] as u32 - '0' as u32) as u64;
        let next = acc * 10 + d;
        assert(next == digits_value(body.take(i - from + 1)));
        if next > u32::MAX as u64 {
            proof {
                lemma_digits_value_mono(body, i - from + 1);
                assert(digits_value(body) > u32::MAX);
                assert(parse_u32_spec(s@).is_none());
            }
            return None;
        }
        acc = next;
        i = i + 1;
    }
    assert(body.take(s.len() - from) =~= body);
    Some(acc as u32)
}

pub open spec fn digit_char(d: nat) -> char {
    ((d as u8) + 48) as char
}

/// Decimal form of `n` (`format!("{}", n)`).
pub open spec fn decimal(n: nat) -> Seq<char>
    decreases n,
{
    if n < 10 {
        seq![digit_char(n)]
    } else {
        decimal(n / 10).push(digit_char(n % 10))
    }
}

/// Decimal form of `n`.
pub fn decimal_chars(n: u128) -> (v: Vec<char>)
    ensures
        v@ == decimal(n as nat),
    decreases n,
{
    if n < 10 {
        let c = ((n as u8) + 48) as char;
        let mut v: Vec<char> = Vec::new();
        v.push(c);
        assert(v@ =~= seq![digit_char(n as nat)]);
        v
    } else {
        let mut v = decimal_chars(n / 10);
        let c = (((n % 10) as u8) + 48) as char;
        v.push(c);
        v
    }
}

} // verus!
