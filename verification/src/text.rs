//! Character-level helpers shared by the playlist parsers: building strings,
//! scanning for separators, and the number syntaxes that the playlists use.

use vstd::prelude::*;

verus! {

/// Appends one character to a `String`.
///
/// Calls `String::push`; the contract claims that the new contents are the
/// old contents followed by `c`.
#[verifier::external_body]
pub(crate) fn push_char(s: &mut String, c: char)
    ensures
        final(s)@ == old(s)@.push(c),
{
    s.push(c);
}

/// The characters of a string slice, in order.
pub fn chars_of(s: &str) -> (v: Vec<char>)
    ensures
        v@ == s@,
{
    broadcast use vstd::string::group_string_axioms;

    let mut v: Vec<char> = Vec::new();
    for c in it: s.chars()
        invariant
            it.seq() == s@,
            v@ == it.seq().take(it.index() as int),
    {
        v.push(c);
    }
    v
}

/// A `String` holding exactly the given characters.
pub fn string_of(v: &Vec<char>) -> (s: String)
    ensures
        s@ == v@,
{
    let mut s = String::new();
    let mut i: usize = 0;
    while i < v.len()
        invariant
            i <= v.len(),
            s@ == v@.take(i as int),
        decreases v.len() - i,
    {
        push_char(&mut s, v[i]);
        i = i + 1;
        assert(v@.take(i as int) == v@.take((i - 1) as int).push(v@[i - 1]));
    }
    assert(v@.take(v.len() as int) == v@);
    s
}

/// The characters of `v` from `from` (inclusive) to `to` (exclusive).
pub fn slice_chars(v: &Vec<char>, from: usize, to: usize) -> (r: Vec<char>)
    requires
        from <= to <= v.len(),
    ensures
        r@ == v@.subrange(from as int, to as int),
{
    let mut r: Vec<char> = Vec::new();
    let mut i: usize = from;
    while i < to
        invariant
            from <= i <= to <= v.len(),
            r@ == v@.subrange(from as int, i as int),
        decreases to - i,
    {
        r.push(v[i]);
        i = i + 1;
        assert(v@.subrange(from as int, i as int) == v@.subrange(from as int, (i - 1) as int).push(
            v@[i - 1],
        ));
    }
    r
}

/// Whether `prefix` is a prefix of `s`.
pub open spec fn has_prefix(s: Seq<char>, prefix: Seq<char>) -> bool {
    prefix.len() <= s.len() && s.take(prefix.len() as int) == prefix
}

/// Whether the characters of `v` start with the characters of `prefix`.
pub fn starts_with(v: &Vec<char>, prefix: &str) -> (r: bool)
    ensures
        r == has_prefix(v@, prefix@),
{
    let p = chars_of(prefix);
    if p.len() > v.len() {
        return false;
    }
    let mut i: usize = 0;
    while i < p.len()
        invariant
            p@ == prefix@,
            p.len() <= v.len(),
            i <= p.len(),
            forall|j: int| 0 <= j < i ==> v@[j] == p@[j],
        decreases p.len() - i,
    {
        if v[i] != p[i] {
            assert(v@.take(p.len() as int)[i as int] != p@[i as int]);
            return false;
        }
        i = i + 1;
    }
    assert(v@.take(p.len() as int) == p@);
    true
}

/// Whether the characters of `v` are exactly those of `lit`.
pub fn chars_eq(v: &Vec<char>, lit: &str) -> (r: bool)
    ensures
        r == (v@ == lit@),
{
    let p = chars_of(lit);
    if p.len() != v.len() {
        return false;
    }
    let r = starts_with(v, lit);
    proof {
        if r {
            assert(v@.take(p.len() as int) == v@);
        } else {
            if v@ == lit@ {
                assert(v@.take(p.len() as int) == v@);
            }
        }
    }
    r
}

/// The position of the first `c` in `s`, or the length of `s` when there is none.
pub open spec fn char_pos(s: Seq<char>, c: char) -> nat
    decreases s.len(),
{
    if s.len() == 0 {
        0
    } else if s[0] == c {
        0
    } else {
        1 + char_pos(s.drop_first(), c)
    }
}

/// `char_pos` is the first position holding `c`, or the length when there is none.
pub proof fn lemma_char_pos(s: Seq<char>, c: char)
    ensures
        char_pos(s, c) <= s.len(),
        char_pos(s, c) < s.len() ==> s[char_pos(s, c) as int] == c,
        forall|j: int| 0 <= j < char_pos(s, c) ==> s[j] != c,
    decreases s.len(),
{
    if s.len() > 0 && s[0] != c {
        lemma_char_pos(s.drop_first(), c);
        assert forall|j: int| 0 <= j < char_pos(s, c) implies s[j] != c by {
            if j > 0 {
                assert(s[j] == s.drop_first()[j - 1]);
            }
        }
    }
}

/// A position is `char_pos` when every earlier character differs from `c`
/// and the position is the end or holds `c`.
pub proof fn lemma_char_pos_unique(s: Seq<char>, c: char, p: int)
    requires
        0 <= p <= s.len(),
        forall|j: int| 0 <= j < p ==> s[j] != c,
        p == s.len() || s[p] == c,
    ensures
        char_pos(s, c) == p,
{
    lemma_char_pos(s, c);
    if char_pos(s, c) < p {
        assert(s[char_pos(s, c) as int] == c);
    }
    if char_pos(s, c) > p {
        assert(s[p] != c);
    }
}

/// The position of the first `c` in `v` at or after `from`, or the length of `v`.
pub fn find_char(v: &Vec<char>, from: usize, c: char) -> (p: usize)
    requires
        from <= v.len(),
    ensures
        from <= p <= v.len(),
        p - from == char_pos(v@.skip(from as int), c),
{
    let mut i: usize = from;
    while i < v.len() && v[i] != c
        invariant
            from <= i <= v.len(),
            forall|j: int| from <= j < i ==> v@[j] != c,
        decreases v.len() - i,
    {
        i = i + 1;
    }
    proof {
        lemma_char_pos_unique(v@.skip(from as int), c, i - from);
    }
    i
}

/// The text before the first `sep` (all of `s` when there is none).
pub open spec fn first_field(s: Seq<char>, sep: char) -> Seq<char> {
    s.take(char_pos(s, sep) as int)
}

/// The text after the first `sep`, when there is one.
pub open spec fn after_sep(s: Seq<char>, sep: char) -> Option<Seq<char>> {
    if char_pos(s, sep) < s.len() {
        Some(s.skip(char_pos(s, sep) as int + 1))
    } else {
        None
    }
}

/// Whether `c` is an ASCII decimal digit.
pub open spec fn is_digit(c: char) -> bool {
    '0' <= c <= '9'
}

/// Whether every character of `s` is a decimal digit.
pub open spec fn all_digits(s: Seq<char>) -> bool {
    forall|i: int| 0 <= i < s.len() ==> is_digit(#[trigger] s[i])
}

/// The value of a string of decimal digits.
pub open spec fn digits_value(s: Seq<char>) -> nat
    decreases s.len(),
{
    if s.len() == 0 {
        0
    } else {
        digits_value(s.drop_last()) * 10 + ((s.last() as nat) - ('0' as nat)) as nat
    }
}

/// What std's unsigned integer parsing accepts: an optional `+` and then at
/// least one decimal digit. Gives the value written; the caller checks the range.
pub open spec fn unsigned_text_value(s: Seq<char>) -> Option<nat> {
    let body = if s.len() > 0 && s[0] == '+' {
        s.drop_first()
    } else {
        s
    };
    if body.len() > 0 && all_digits(body) {
        Some(digits_value(body))
    } else {
        None
    }
}

/// The value of an unsigned integer text when it is at most `max`.
pub open spec fn unsigned_in_range(s: Seq<char>, max: nat) -> Option<nat> {
    match unsigned_text_value(s) {
        Some(v) => if v <= max {
            Some(v)
        } else {
            None
        },
        None => None,
    }
}

/// A longer digit string is worth at least as much as its prefix.
pub proof fn lemma_digits_value_prefix(s: Seq<char>, n: int)
    requires
        0 <= n <= s.len(),
        all_digits(s),
    ensures
        digits_value(s.take(n)) <= digits_value(s),
    decreases s.len() - n,
{
    if n < s.len() {
        lemma_digits_value_prefix(s, n + 1);
        assert(s.take(n + 1).drop_last() == s.take(n));
        assert(is_digit(s[n]));
        assert(digits_value(s.take(n + 1)) == digits_value(s.take(n)) * 10 + ((s[n] as nat) - (
        '0' as nat)) as nat);
    } else {
        assert(s.take(n) == s);
    }
}

/// Parses the decimal digits of `v[from..]`; the value when it is at most `max`.
fn digits_at_most(v: &Vec<char>, from: usize, max: u64) -> (r: Option<u64>)
    requires
        from <= v.len(),
        max <= u32::MAX,
    ensures
        r matches Some(x) ==> all_digits(v@.skip(from as int)) && x == digits_value(
            v@.skip(from as int),
        ) && x <= max,
        r is None ==> !all_digits(v@.skip(from as int)) || digits_value(v@.skip(from as int))
            > max,
{
    let ghost body = v@.skip(from as int);
    let mut acc: u64 = 0;
    let mut i: usize = from;
    while i < v.len()
        invariant
            from <= i <= v.len(),
            max <= u32::MAX,
            body == v@.skip(from as int),
            acc <= max,
            all_digits(body.take(i - from)),
            acc == digits_value(body.take(i - from)),
        decreases v.len() - i,
    {
        let c = v[i];
        if c < '0' || c > '9' {
            proof {
                assert(body[i - from] == c);
            }
            return None;
        }
        let d: u64 = ((c as u32) - ('0' as u32)) as u64;
        let next = acc * 10 + d;
        proof {
            let t = body.take(i + 1 - from);
            assert(t.drop_last() == body.take(i - from));
            assert(t.last() == c);
            assert(all_digits(t)) by {
                assert forall|j: int| 0 <= j < t.len() implies is_digit(#[trigger] t[j]) by {
                    if j < t.len() - 1 {
                        assert(t[j] == body.take(i - from)[j]);
                    }
                }
            }
        }
        if next > max {
            proof {
                let t = body.take(i + 1 - from);
                if all_digits(body) {
                    lemma_digits_value_prefix(body, i + 1 - from);
                }
            }
            return None;
        }
        acc = next;
        i = i + 1;
    }
    assert(body.take(i - from) == body);
    Some(acc)
}

/// Parses an unsigned decimal the way std's `from_str` does for an unsigned
/// integer type whose largest value is `max`.
pub fn parse_unsigned(v: &Vec<char>, max: u64) -> (r: Option<u64>)
    requires
        max <= u32::MAX,
    ensures
        r matches Some(x) ==> unsigned_in_range(v@, max as nat) == Some(x as nat),
        r is None ==> unsigned_in_range(v@, max as nat) is None,
{
    let from: usize = if v.len() > 0 && v[0] == '+' {
        1
    } else {
        0
    };
    proof {
        if from == 1 {
            assert(v@.skip(1) == v@.drop_first());
        } else {
            assert(v@.skip(0) == v@);
        }
    }
    if from >= v.len() {
        return None;
    }
    digits_at_most(v, from, max)
}

/// Parses a `u8` the way std's `str::parse::<u8>` does.
pub fn parse_u8(v: &Vec<char>) -> (r: Option<u8>)
    ensures
        r matches Some(x) ==> unsigned_in_range(v@, u8::MAX as nat) == Some(x as nat),
        r is None ==> unsigned_in_range(v@, u8::MAX as nat) is None,
{
    match parse_unsigned(v, 255) {
        Some(x) => Some(x as u8),
        None => None,
    }
}

/// Parses a `u32` the way std's `str::parse::<u32>` does.
pub fn parse_u32(v: &Vec<char>) -> (r: Option<u32>)
    ensures
        r matches Some(x) ==> unsigned_in_range(v@, u32::MAX as nat) == Some(x as nat),
        r is None ==> unsigned_in_range(v@, u32::MAX as nat) is None,
{
    match parse_unsigned(v, 4294967295) {
        Some(x) => Some(x as u32),
        None => None,
    }
}

/// What std's `str::parse::<i32>` gives: an optional sign, at least one
/// decimal digit, and a value that fits in an `i32`.
pub open spec fn i32_text_value(s: Seq<char>) -> Option<int> {
    if s.len() > 0 && s[0] == '-' {
        let body = s.drop_first();
        if body.len() > 0 && all_digits(body) && digits_value(body) <= 0x8000_0000 {
            Some(-(digits_value(body) as int))
        } else {
            None
        }
    } else {
        match unsigned_in_range(s, 0x7fff_ffff) {
            Some(v) => Some(v as int),
            None => None,
        }
    }
}

/// Parses an `i32` the way std's `str::parse::<i32>` does.
pub fn parse_i32(v: &Vec<char>) -> (r: Option<i32>)
    ensures
        r matches Some(x) ==> i32_text_value(v@) == Some(x as int),
        r is None ==> i32_text_value(v@) is None,
{
    if v.len() > 0 && v[0] == '-' {
        if v.len() == 1 {
            return None;
        }
        proof {
            assert(v@.skip(1) == v@.drop_first());
        }
        match digits_at_most(v, 1, 0x8000_0000) {
            Some(x) => {
                let r: i64 = 0 - (x as i64);
                Some(r as i32)
            },
            None => None,
        }
    } else {
        match parse_unsigned(v, 0x7fff_ffff) {
            Some(x) => Some(x as i32),
            None => None,
        }
    }
}

/// Whether `a` matches the word character `w`, ignoring ASCII case.
pub open spec fn char_eq_ignore_case(a: char, w: char) -> bool {
    a == w || ('a' <= w <= 'z' && (a as u32) + 32 == (w as u32))
}

/// Whether `s` spells `word`, ignoring ASCII case.
pub open spec fn eq_ignore_case(s: Seq<char>, word: Seq<char>) -> bool {
    s.len() == word.len() && forall|i: int|
        0 <= i < s.len() ==> char_eq_ignore_case(#[trigger] s[i], word[i])
}

/// Whether the characters of `v` spell `word`, ignoring ASCII case.
pub fn chars_eq_ignore_case(v: &Vec<char>, word: &str) -> (r: bool)
    ensures
        r == eq_ignore_case(v@, word@),
{
    let w = chars_of(word);
    if w.len() != v.len() {
        return false;
    }
    let mut i: usize = 0;
    while i < w.len()
        invariant
            w@ == word@,
            w.len() == v.len(),
            i <= w.len(),
            forall|j: int| 0 <= j < i ==> char_eq_ignore_case(#[trigger] v@[j], w@[j]),
        decreases w.len() - i,
    {
        let a = v[i];
        let c = w[i];
        let ok = a == c || ('a' <= c && c <= 'z' && (c as u32) - 32 == (a as u32));
        if !ok {
            return false;
        }
        i = i + 1;
    }
    true
}

/// The digits-and-point part of a decimal float: digits with at most one
/// `.`, holding at least one digit.
pub open spec fn is_mantissa(m: Seq<char>) -> bool {
    (m.len() > 0 && all_digits(m)) || (exists|p: int|
        0 <= p < m.len() && m[p] == '.' && all_digits(#[trigger] m.take(p)) && all_digits(
            m.skip(p + 1),
        ) && m.len() > 1)
}

/// An exponent after `e`: an optional sign and at least one digit.
pub open spec fn is_exponent(x: Seq<char>) -> bool {
    let b = if x.len() > 0 && (x[0] == '+' || x[0] == '-') {
        x.drop_first()
    } else {
        x
    };
    b.len() > 0 && all_digits(b)
}

/// Whether `c` marks an exponent.
pub open spec fn is_exp_mark(c: char) -> bool {
    c == 'e' || c == 'E'
}

/// A decimal number: a mantissa, optionally followed by `e` or `E` and an exponent.
pub open spec fn is_number_text(b: Seq<char>) -> bool {
    is_mantissa(b) || (exists|e: int|
        0 <= e < b.len() && is_exp_mark(b[e]) && is_mantissa(#[trigger] b.take(e)) && is_exponent(
            b.skip(e + 1),
        ))
}

/// The texts std's `str::parse::<f64>` accepts: an optional sign, then
/// `inf`, `infinity`, `nan` (in any ASCII case) or a decimal number.
pub open spec fn is_float_text(s: Seq<char>) -> bool {
    let b = if s.len() > 0 && (s[0] == '+' || s[0] == '-') {
        s.drop_first()
    } else {
        s
    };
    eq_ignore_case(b, "inf"@) || eq_ignore_case(b, "infinity"@) || eq_ignore_case(b, "nan"@)
        || is_number_text(b)
}

/// A mantissa holds only digits and `.`.
proof fn lemma_mantissa_chars(m: Seq<char>, i: int)
    requires
        is_mantissa(m),
        0 <= i < m.len(),
    ensures
        is_digit(m[i]) || m[i] == '.',
{
    if !(m.len() > 0 && all_digits(m)) {
        let p = choose|p: int|
            0 <= p < m.len() && m[p] == '.' && all_digits(#[trigger] m.take(p)) && all_digits(
                m.skip(p + 1),
            ) && m.len() > 1;
        if i < p {
            assert(m.take(p)[i] == m[i]);
        } else if i > p {
            assert(m.skip(p + 1)[i - p - 1] == m[i]);
        }
    }
}

/// Whether `v[from..to]` is a mantissa.
fn check_mantissa(v: &Vec<char>, from: usize, to: usize) -> (r: bool)
    requires
        from <= to <= v.len(),
    ensures
        r == is_mantissa(v@.subrange(from as int, to as int)),
{
    let ghost m = v@.subrange(from as int, to as int);
    let mut i: usize = from;
    while i < to && '0' <= v[i] && v[i] <= '9'
        invariant
            from <= i <= to <= v.len(),
            m == v@.subrange(from as int, to as int),
            all_digits(m.take(i - from)),
        decreases to - i,
    {
        proof {
            assert(m.take(i + 1 - from) == m.take(i - from).push(v@[i as int]));
            assert forall|j: int| 0 <= j < i + 1 - from implies is_digit(
                #[trigger] m.take(i + 1 - from)[j],
            ) by {
                if j < i - from {
                    assert(m.take(i + 1 - from)[j] == m.take(i - from)[j]);
                }
            }
        }
        i = i + 1;
    }
    if i == to {
        assert(m.take(i - from) == m);
        return to > from;
    }
    if v[i] != '.' {
        proof {
            if is_mantissa(m) {
                lemma_mantissa_chars(m, i - from);
            }
        }
        return false;
    }
    let p = i;
    let mut k: usize = p + 1;
    while k < to && '0' <= v[k] && v[k] <= '9'
        invariant
            from <= p < k <= to <= v.len(),
            m == v@.subrange(from as int, to as int),
            forall|j: int| p < j < k ==> is_digit(#[trigger] v@[j]),
        decreases to - k,
    {
        k = k + 1;
    }
    let r = k == to && to - from > 1;
    proof {
        let pp = p - from;
        assert(m[pp] == '.');
        if k == to {
            assert forall|j: int| 0 <= j < m.skip(pp + 1).len() implies is_digit(
                #[trigger] m.skip(pp + 1)[j],
            ) by {
                assert(m.skip(pp + 1)[j] == v@[p + 1 + j]);
            }
            if to - from > 1 {
                assert(all_digits(m.take(pp)) && all_digits(m.skip(pp + 1)));
            } else {
                assert(!(m.len() > 0 && all_digits(m))) by {
                    assert(!is_digit(m[pp]));
                }
            }
        } else {
            assert(!is_digit(v@[k as int]));
            assert(m[pp] == '.' && !is_digit(m[pp]));
            if is_mantissa(m) {
                assert(!all_digits(m));
                let q = choose|q: int|
                    0 <= q < m.len() && m[q] == '.' && all_digits(#[trigger] m.take(q))
                        && all_digits(m.skip(q + 1)) && m.len() > 1;
                if q < pp {
                    assert(m.take(pp)[q] == m[q]);
                } else if q > pp {
                    assert(m.take(q)[pp] == m[pp]);
                } else {
                    assert(m.skip(pp + 1)[k - p - 1] == v@[k as int]);
                }
            }
        }
    }
    r
}

/// Whether `v[from..to]` is an exponent.
fn check_exponent(v: &Vec<char>, from: usize, to: usize) -> (r: bool)
    requires
        from <= to <= v.len(),
    ensures
        r == is_exponent(v@.subrange(from as int, to as int)),
{
    let ghost x = v@.subrange(from as int, to as int);
    let start: usize = if from < to && (v[from] == '+' || v[from] == '-') {
        from + 1
    } else {
        from
    };
    let ghost b = v@.subrange(start as int, to as int);
    proof {
        if start == from + 1 {
            assert(x.drop_first() == b);
        } else {
            assert(x == b);
        }
    }
    if start >= to {
        return false;
    }
    let mut k: usize = start;
    while k < to && '0' <= v[k] && v[k] <= '9'
        invariant
            start <= k <= to <= v.len(),
            b == v@.subrange(start as int, to as int),
            forall|j: int| start <= j < k ==> is_digit(#[trigger] v@[j]),
        decreases to - k,
    {
        k = k + 1;
    }
    proof {
        if k == to {
            assert forall|j: int| 0 <= j < b.len() implies is_digit(#[trigger] b[j]) by {
                assert(b[j] == v@[start + j]);
            }
        } else {
            assert(b[k - start] == v@[k as int]);
        }
    }
    k == to
}

/// A mantissa holds no exponent mark.
proof fn lemma_mantissa_no_mark(m: Seq<char>)
    requires
        is_mantissa(m),
    ensures
        forall|i: int| 0 <= i < m.len() ==> !is_exp_mark(#[trigger] m[i]),
{
    assert forall|i: int| 0 <= i < m.len() implies !is_exp_mark(#[trigger] m[i]) by {
        lemma_mantissa_chars(m, i);
    }
}

/// Whether the characters of `v` form a decimal number.
fn check_number(v: &Vec<char>) -> (r: bool)
    ensures
        r == is_number_text(v@),
{
    let mut e: usize = 0;
    while e < v.len() && v[e] != 'e' && v[e] != 'E'
        invariant
            e <= v.len(),
            forall|j: int| 0 <= j < e ==> !is_exp_mark(#[trigger] v@[j]),
        decreases v.len() - e,
    {
        e = e + 1;
    }
    let n = v.len();
    proof {
        assert(v@.subrange(0, n as int) == v@);
        assert(v@.subrange(0, e as int) == v@.take(e as int));
    }
    if e == n {
        let r = check_mantissa(v, 0, n);
        proof {
            if !r {
                assert forall|q: int|
                    0 <= q < v@.len() && is_exp_mark(v@[q]) implies !(is_mantissa(
                    #[trigger] v@.take(q),
                ) && is_exponent(v@.skip(q + 1))) by {}
            }
        }
        return r;
    }
    let m_ok = check_mantissa(v, 0, e);
    let x_ok = check_exponent(v, e + 1, n);
    proof {
        assert(v@.subrange(e + 1, n as int) == v@.skip(e + 1));
        if is_mantissa(v@) {
            lemma_mantissa_no_mark(v@);
        }
        assert forall|q: int|
            0 <= q < v@.len() && is_exp_mark(v@[q]) && is_mantissa(#[trigger] v@.take(q)) implies q
            == e by {
            lemma_mantissa_no_mark(v@.take(q));
            if q > e {
                assert(v@.take(q)[e as int] == v@[e as int]);
            }
        }
    }
    m_ok && x_ok
}

/// Whether `v` is a text that std's `str::parse::<f64>` accepts.
pub fn is_float(v: &Vec<char>) -> (r: bool)
    ensures
        r == is_float_text(v@),
{
    let b = if v.len() > 0 && (v[0] == '+' || v[0] == '-') {
        slice_chars(v, 1, v.len())
    } else {
        slice_chars(v, 0, v.len())
    };
    proof {
        if v.len() > 0 && (v[0] == '+' || v[0] == '-') {
            assert(v@.subrange(1, v.len() as int) == v@.drop_first());
        } else {
            assert(v@.subrange(0, v.len() as int) == v@);
        }
    }
    chars_eq_ignore_case(&b, "inf") || chars_eq_ignore_case(&b, "infinity") || chars_eq_ignore_case(
        &b,
        "nan",
    ) || check_number(&b)
}

/// Removes one `\r` at the end of a line.
pub open spec fn strip_cr(l: Seq<char>) -> Seq<char> {
    if l.len() > 0 && l.last() == '\r' {
        l.drop_last()
    } else {
        l
    }
}

/// The non-empty lines of a text. Lines end at `\n`; a `\r` just before the
/// `\n` is not part of the line; the last line needs no `\n`.
pub open spec fn text_lines(s: Seq<char>) -> Seq<Seq<char>>
    decreases s.len(),
{
    if s.len() == 0 {
        seq![]
    } else {
        let p = char_pos(s, '\n');
        if p >= s.len() {
            seq![s]
        } else {
            let line = strip_cr(s.take(p as int));
            let rest = text_lines(s.skip(p as int + 1));
            if line.len() > 0 {
                seq![line] + rest
            } else {
                rest
            }
        }
    }
}

/// The views of a sequence of character vectors.
pub open spec fn seqs_of(v: Seq<Vec<char>>) -> Seq<Seq<char>> {
    v.map_values(|x: Vec<char>| x@)
}

/// The non-empty lines of `s`, as `text_lines` describes them.
pub fn split_lines(s: &Vec<char>) -> (r: Vec<Vec<char>>)
    ensures
        seqs_of(r@) == text_lines(s@),
{
    let mut out: Vec<Vec<char>> = Vec::new();
    let mut start: usize = 0;
    let n = s.len();
    assert(s@.skip(0) == s@);
    while start < n
        invariant
            start <= n == s.len(),
            seqs_of(out@) + text_lines(s@.skip(start as int)) == text_lines(s@),
        decreases n - start,
    {
        let p = find_char(s, start, '\n');
        let ghost t = s@.skip(start as int);
        proof {
            lemma_char_pos(t, '\n');
        }
        if p == n {
            let line = slice_chars(s, start, n);
            proof {
                assert(line@ == t);
                assert(seqs_of(out@.push(line)) == seqs_of(out@) + seq![line@]);
                assert(s@.skip(n as int) == Seq::<char>::empty());
            }
            out.push(line);
            start = n;
        } else {
            let end = if p > start && s[p - 1] == '\r' {
                p - 1
            } else {
                p
            };
            let line = slice_chars(s, start, end);
            proof {
                assert(t.take(p - start) == s@.subrange(start as int, p as int));
                assert(line@ == strip_cr(t.take(p - start)));
                assert(t.skip(p - start + 1) == s@.skip(p + 1));
            }
            if end > start {
                proof {
                    assert(seqs_of(out@.push(line)) == seqs_of(out@) + seq![line@]);
                }
                out.push(line);
            }
            start = p + 1;
        }
    }
    proof {
        assert(s@.skip(start as int) == Seq::<char>::empty());
        assert(seqs_of(out@) + seq![] == seqs_of(out@));
    }
    out
}

/// The rest of `line` after a prefix of length `p.len()`.
pub open spec fn tail(line: Seq<char>, p: Seq<char>) -> Seq<char> {
    line.skip(p.len() as int)
}

/// The rest of `v` after `prefix`, when `v` starts with it.
pub fn strip_prefix(v: &Vec<char>, prefix: &str) -> (r: Option<Vec<char>>)
    ensures
        r matches Some(t) ==> has_prefix(v@, prefix@) && t@ == tail(v@, prefix@),
        r is None ==> !has_prefix(v@, prefix@),
{
    if starts_with(v, prefix) {
        let p = chars_of(prefix);
        let t = slice_chars(v, p.len(), v.len());
        assert(t@ == v@.skip(p.len() as int));
        Some(t)
    } else {
        None
    }
}

/// The text of `v` before the first `sep`.
pub fn first_field_of(v: &Vec<char>, sep: char) -> (r: Vec<char>)
    ensures
        r@ == first_field(v@, sep),
{
    let p = find_char(v, 0, sep);
    assert(v@.skip(0) == v@);
    slice_chars(v, 0, p)
}

/// The text of `v` after the first `sep`, when there is one.
pub fn after_sep_of(v: &Vec<char>, sep: char) -> (r: Option<Vec<char>>)
    ensures
        opt_chars(r) == after_sep(v@, sep),
{
    let p = find_char(v, 0, sep);
    assert(v@.skip(0) == v@);
    if p < v.len() {
        let t = slice_chars(v, p + 1, v.len());
        assert(t@ == v@.skip(p as int + 1));
        Some(t)
    } else {
        None
    }
}

/// The view of an optional character vector.
pub open spec fn opt_chars(o: Option<Vec<char>>) -> Option<Seq<char>> {
    match o {
        Some(v) => Some(v@),
        None => None,
    }
}

/// What std's `str::to_uppercase` gives for a text (Unicode upper case).
pub uninterp spec fn uppercase(s: Seq<char>) -> Seq<char>;

/// Upper-cases a text.
///
/// Calls `str::to_uppercase`; the contract only names the result: it is
/// `uppercase` of the argument, which the Unicode tables define.
#[verifier::external_body]
pub(crate) fn to_upper(s: &str) -> (r: String)
    ensures
        r@ == uppercase(s@),
{
    s.to_uppercase()
}

/// Stepping through a sequence from the front.
pub proof fn lemma_skip_step<A>(s: Seq<A>, i: int)
    requires
        0 <= i < s.len(),
    ensures
        s.skip(i)[0] == s[i],
        s.skip(i).drop_first() == s.skip(i + 1),
        s.skip(i).len() > 0,
{
    assert(s.skip(i).drop_first() == s.skip(i + 1));
}

/// A copy of an optional string.
pub fn clone_opt(o: &Option<String>) -> (r: Option<String>)
    ensures
        r == *o,
{
    match o {
        Some(s) => Some(s.clone()),
        None => None,
    }
}


/// The decimal digit for `d`, below ten.
pub open spec fn digit_char(d: nat) -> char {
    if d == 0 { '0' } else if d == 1 { '1' } else if d == 2 { '2' } else if d == 3 { '3' }
    else if d == 4 { '4' } else if d == 5 { '5' } else if d == 6 { '6' } else if d == 7 { '7' }
    else if d == 8 { '8' } else { '9' }
}

/// The decimal writing of `n`, without leading zeros (`0` for zero).
pub open spec fn decimal(n: nat) -> Seq<char>
    decreases n,
{
    if n < 10 {
        seq![digit_char(n)]
    } else {
        decimal(n / 10).push(digit_char(n % 10))
    }
}

/// Appends the decimal writing of `n`.
pub fn push_decimal(s: &mut String, n: u64)
    ensures
        final(s)@ == old(s)@ + decimal(n as nat),
    decreases n,
{
    if n >= 10 {
        push_decimal(s, n / 10);
    }
    let d = n % 10;
    let c = if d == 0 { '0' } else if d == 1 { '1' } else if d == 2 { '2' } else if d == 3 { '3' }
    else if d == 4 { '4' } else if d == 5 { '5' } else if d == 6 { '6' } else if d == 7 { '7' }
    else if d == 8 { '8' } else { '9' };
    let ghost before = s@;
    push_char(s, c);
    proof {
        if n >= 10 {
            assert(before + seq![c] =~= before.push(c));
        }
    }
    assert(s@ =~= old(s)@ + decimal(n as nat));
}


/// The decimal writing of a number consists of digits whose value is the number.
proof fn lemma_decimal_value(n: nat)
    ensures
        decimal(n).len() > 0,
        all_digits(decimal(n)),
        digits_value(decimal(n)) == n,
    decreases n,
{
    let d = n % 10;
    assert(is_digit(digit_char(d)) && (digit_char(d) as nat) - ('0' as nat) == d);
    if n >= 10 {
        lemma_decimal_value(n / 10);
        let s = decimal(n);
        assert(s.drop_last() == decimal(n / 10));
        assert(s.last() == digit_char(d));
        assert(n == (n / 10) * 10 + d);
        assert(digits_value(s) == digits_value(decimal(n / 10)) * 10 + d);
        assert(digits_value(decimal(n / 10)) == n / 10);
        assert(digits_value(s) == n);
        assert forall|i: int| 0 <= i < s.len() implies is_digit(#[trigger] s[i]) by {
            if i < s.len() - 1 {
                assert(s[i] == decimal(n / 10)[i]);
            }
        }
    } else {
        assert(decimal(n).drop_last() =~= Seq::<char>::empty());
        assert(decimal(n).last() == digit_char(d));
        assert(d == n);
        assert(digits_value(decimal(n)) == digits_value(decimal(n).drop_last()) * 10 + d);
        assert(digits_value(decimal(n)) == n);
    }
}

/// Every number the library writes in decimal reads back, as std's
/// unsigned parsing reads it, as the same number.
pub proof fn law_decimal_reads_back(n: nat)
    ensures
        unsigned_text_value(decimal(n)) == Some(n),
{
    lemma_decimal_value(n);
    assert(is_digit(decimal(n)[0]));
}

} // verus!
