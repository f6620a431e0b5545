//! Reading what people type: blanks, words and numbers.
use vstd::prelude::*;
use crate::text::{chars_of, texts};

verus! {

/// Whether a character has the Unicode property `White_Space`.
pub open spec fn char_is_whitespace(c: char) -> bool {
    let n = c as u32;
    ||| 0x9 <= n <= 0xd
    ||| n == 0x20
    ||| n == 0x85
    ||| n == 0xa0
    ||| n == 0x1680
    ||| 0x2000 <= n <= 0x200a
    ||| n == 0x2028
    ||| n == 0x2029
    ||| n == 0x202f
    ||| n == 0x205f
    ||| n == 0x3000
}

/// `char::is_whitespace`: whether a character has the Unicode property
/// `White_Space`.
pub assume_specification[ char::is_whitespace ](c: char) -> (r: bool)
    ensures
        r == char_is_whitespace(c),
;

/// The text without the blanks at its end.
pub open spec fn trimmed_end(s: Seq<char>) -> Seq<char>
    decreases s.len(),
{
    if s.len() > 0 && char_is_whitespace(s.last()) {
        trimmed_end(s.drop_last())
    } else {
        s
    }
}

/// The text without the blanks at its start.
pub open spec fn trimmed_start(s: Seq<char>) -> Seq<char>
    decreases s.len(),
{
    if s.len() > 0 && char_is_whitespace(s[0]) {
        trimmed_start(s.skip(1))
    } else {
        s
    }
}

/// The text without the blanks around it.
pub open spec fn trimmed(s: Seq<char>) -> Seq<char> {
    trimmed_end(trimmed_start(s))
}

/// The longest start of the text without a blank.
pub open spec fn first_word(s: Seq<char>) -> Seq<char>
    decreases s.len(),
{
    if s.len() == 0 || char_is_whitespace(s[0]) {
        Seq::empty()
    } else {
        seq![s[0]] + first_word(s.skip(1))
    }
}

pub proof fn lemma_first_word(s: Seq<char>)
    ensures
        first_word(s).len() <= s.len(),
        first_word(s) == s.take(first_word(s).len() as int),
        s.len() > 0 && !char_is_whitespace(s[0]) ==> first_word(s).len() > 0,
    decreases s.len(),
{
    if s.len() > 0 && !char_is_whitespace(s[0]) {
        lemma_first_word(s.skip(1));
        assert(first_word(s) =~= s.take(first_word(s).len() as int));
    }
}

/// The words of the text: what stands between the blanks.
pub open spec fn words(s: Seq<char>) -> Seq<Seq<char>>
    decreases s.len(),
    via words_shrink
{
    if s.len() == 0 {
        Seq::empty()
    } else if char_is_whitespace(s[0]) {
        words(s.skip(1))
    } else {
        seq![first_word(s)] + words(s.skip(first_word(s).len() as int))
    }
}

#[via_fn]
proof fn words_shrink(s: Seq<char>) {
    lemma_first_word(s);
}

/// The text from a character on.
fn string_from(v: &Vec<char>, from: usize, to: usize) -> (r: String)
    requires
        from <= to <= v@.len(),
    ensures
        r@ == v@.subrange(from as int, to as int),
{
    let mut out = String::new();
    let mut i: usize = from;
    while i < to
        invariant
            from <= i <= to <= v@.len(),
            out@ == v@.subrange(from as int, i as int),
        decreases to - i,
    {
        out.push(v[i]);
        assert(v@.subrange(from as int, i as int + 1) =~= v@.subrange(from as int, i as int).push(
            v@[i as int],
        ));
        i = i + 1;
    }
    out
}

/// The text without the blanks around it.
pub fn trim(s: &str) -> (r: String)
    ensures
        r@ == trimmed(s@),
{
    let v = chars_of(s);
    let mut i: usize = 0;
    assert(v@.skip(0) =~= v@);
    while i < v.len() && v[i].is_whitespace()
        invariant
            i <= v@.len(),
            trimmed_start(v@) == trimmed_start(v@.skip(i as int)),
        decreases v@.len() - i,
    {
        assert(v@.skip(i as int).skip(1) =~= v@.skip(i as int + 1));
        i = i + 1;
    }
    let mut j: usize = v.len();
    let ghost rest = v@.skip(i as int);
    assert(trimmed_start(rest) == rest);
    assert(v@.subrange(i as int, j as int) =~= rest);
    while j > i && v[j - 1].is_whitespace()
        invariant
            i <= j <= v@.len(),
            trimmed_end(rest) == trimmed_end(v@.subrange(i as int, j as int)),
        decreases j,
    {
        assert(v@.subrange(i as int, j as int).drop_last() =~= v@.subrange(i as int, j as int - 1));
        j = j - 1;
    }
    assert(trimmed_end(v@.subrange(i as int, j as int)) == v@.subrange(i as int, j as int));
    string_from(&v, i, j)
}

/// The text without the blanks at its end.
pub fn trim_end(s: &str) -> (r: String)
    ensures
        r@ == trimmed_end(s@),
{
    let v = chars_of(s);
    let mut j: usize = v.len();
    assert(v@.subrange(0, j as int) =~= v@);
    while j > 0 && v[j - 1].is_whitespace()
        invariant
            j <= v@.len(),
            trimmed_end(v@) == trimmed_end(v@.subrange(0, j as int)),
        decreases j,
    {
        assert(v@.subrange(0, j as int).drop_last() =~= v@.subrange(0, j as int - 1));
        j = j - 1;
    }
    string_from(&v, 0, j)
}

/// The words of the text.
pub fn split_words(s: &str) -> (r: Vec<String>)
    ensures
        texts(r@) == words(s@),
{
    let v = chars_of(s);
    let mut out: Vec<String> = Vec::new();
    let mut i: usize = 0;
    assert(v@.skip(0) =~= v@);
    assert(texts(out@) + words(v@) =~= words(v@));
    while i < v.len()
        invariant
            i <= v@.len(),
            texts(out@) + words(v@.skip(i as int)) == words(v@),
        decreases v@.len() - i,
    {
        let ghost rest = v@.skip(i as int);
        if v[i].is_whitespace() {
            assert(rest.skip(1) =~= v@.skip(i as int + 1));
            i = i + 1;
        } else {
            let start: usize = i;
            proof {
                lemma_first_word(rest);
                assert(seq![] + first_word(rest) =~= first_word(rest));
                assert(v@.subrange(start as int, start as int) =~= seq![]);
            }
            while i < v.len() && !v[i].is_whitespace()
                invariant
                    start <= i <= v@.len(),
                    rest == v@.skip(start as int),
                    first_word(rest) == v@.subrange(start as int, i as int) + first_word(
                        v@.skip(i as int),
                    ),
                decreases v@.len() - i,
            {
                assert(v@.skip(i as int).skip(1) =~= v@.skip(i as int + 1));
                assert(v@.subrange(start as int, i as int) + (seq![v@[i as int]] + first_word(
                    v@.skip(i as int + 1),
                )) =~= v@.subrange(start as int, i as int + 1) + first_word(v@.skip(i as int + 1)));
                i = i + 1;
            }
            assert(first_word(v@.skip(i as int)) =~= seq![]);
            assert(first_word(rest) =~= v@.subrange(start as int, i as int));
            assert(rest.skip(first_word(rest).len() as int) =~= v@.skip(i as int));
            let ghost before = texts(out@);
            out.push(string_from(&v, start, i));
            assert(texts(out@) =~= before.push(first_word(rest)));
            assert(before + (seq![first_word(rest)] + words(v@.skip(i as int))) =~= before.push(
                first_word(rest),
            ) + words(v@.skip(i as int)));
        }
    }
    assert(texts(out@) + words(v@.skip(i as int)) =~= texts(out@));
    out
}

/// The value of a decimal digit.
pub open spec fn digit_value(c: char) -> Option<int> {
    if '0' <= c && c <= '9' {
        Some(c as int - '0' as int)
    } else {
        None
    }
}

/// The number that decimal digits write.
pub open spec fn digits_number(s: Seq<char>) -> Option<int>
    decreases s.len(),
{
    if s.len() == 0 {
        Some(0)
    } else {
        match (digits_number(s.drop_last()), digit_value(s.last())) {
            (Some(n), Some(d)) => Some(n * 10 + d),
            _ => None,
        }
    }
}

/// The number that a text writes: decimal digits, at least one, and a plus
/// sign before them at will, or a minus sign where one is allowed.
pub open spec fn number(s: Seq<char>, signed: bool) -> Option<int> {
    if s.len() == 0 {
        None
    } else if s[0] == '+' && s.len() > 1 {
        digits_number(s.skip(1))
    } else if s[0] == '-' && signed && s.len() > 1 {
        match digits_number(s.skip(1)) {
            Some(n) => Some(-n),
            None => None,
        }
    } else {
        digits_number(s)
    }
}

/// The number if it lies in a range.
pub open spec fn within(n: Option<int>, low: int, high: int) -> Option<int> {
    match n {
        Some(i) => if low <= i <= high {
            Some(i)
        } else {
            None
        },
        None => None,
    }
}

proof fn lemma_digits_prefix(s: Seq<char>, k: int)
    requires
        0 <= k <= s.len(),
    ensures
        digits_number(s) is Some ==> digits_number(s.take(k)) is Some
            && 0 <= digits_number(s.take(k))->0 <= digits_number(s)->0,
    decreases s.len(),
{
    if k == s.len() {
        assert(s.take(k) =~= s);
        if s.len() > 0 {
            lemma_digits_prefix(s.drop_last(), s.len() - 1);
            assert(s.drop_last().take(s.len() - 1) =~= s.drop_last());
        }
    } else {
        lemma_digits_prefix(s.drop_last(), k);
        assert(s.drop_last().take(k) =~= s.take(k));
    }
}

/// The number that the digits from `from` on write, if it is at most `limit`.
fn digits(v: &Vec<char>, from: usize, limit: u64) -> (r: Option<u64>)
    requires
        from <= v@.len(),
    ensures
        match r {
            Some(n) => within(digits_number(v@.skip(from as int)), 0, limit as int) == Some(
                n as int,
            ),
            None => within(digits_number(v@.skip(from as int)), 0, limit as int) is None,
        },
{
    let ghost all = v@.skip(from as int);
    let mut n: u64 = 0;
    let mut i: usize = from;
    assert(all.take(0) =~= seq![]);
    while i < v.len()
        invariant
            from <= i <= v@.len(),
            all == v@.skip(from as int),
            digits_number(all.take(i - from)) == Some(n as int),
            n <= limit,
        decreases v@.len() - i,
    {
        let c = v[i];
        assert(all.take(i - from + 1).drop_last() =~= all.take(i - from));
        assert(all.take(i - from + 1).last() == c);
        proof {
            lemma_digits_prefix(all, i - from + 1);
        }
        if !('0' <= c && c <= '9') {
            return None;
        }
        let next: u128 = n as u128 * 10 + (c as u128 - '0' as u128);
        if next > limit as u128 {
            return None;
        }
        n = next as u64;
        i = i + 1;
    }
    assert(all.take(i - from) =~= all);
    proof {
        lemma_digits_prefix(all, all.len() as int);
    }
    Some(n)
}

/// The number that the text writes, if it is at most `limit`.
pub fn parse_limited(s: &str, limit: u64) -> (r: Option<u64>)
    ensures
        match r {
            Some(n) => within(number(s@, false), 0, limit as int) == Some(n as int),
            None => within(number(s@, false), 0, limit as int) is None,
        },
{
    let v = chars_of(s);
    if v.len() == 0 {
        return None;
    }
    if v[0] == '+' && v.len() > 1 {
        digits(&v, 1, limit)
    } else {
        assert(v@.skip(0) =~= v@);
        digits(&v, 0, limit)
    }
}

pub fn parse_u16(s: &str) -> (r: Option<u16>)
    ensures
        match r {
            Some(n) => within(number(s@, false), 0, u16::MAX as int) == Some(n as int),
            None => within(number(s@, false), 0, u16::MAX as int) is None,
        },
{
    match parse_limited(s, u16::MAX as u64) {
        Some(n) => Some(n as u16),
        None => None,
    }
}

pub fn parse_u64(s: &str) -> (r: Option<u64>)
    ensures
        match r {
            Some(n) => within(number(s@, false), 0, u64::MAX as int) == Some(n as int),
            None => within(number(s@, false), 0, u64::MAX as int) is None,
        },
{
    parse_limited(s, u64::MAX)
}

pub fn parse_usize(s: &str) -> (r: Option<usize>)
    ensures
        match r {
            Some(n) => within(number(s@, false), 0, usize::MAX as int) == Some(n as int),
            None => within(number(s@, false), 0, usize::MAX as int) is None,
        },
{
    match parse_limited(s, usize::MAX as u64) {
        Some(n) => Some(n as usize),
        None => None,
    }
}

pub fn parse_i64(s: &str) -> (r: Option<i64>)
    ensures
        match r {
            Some(n) => within(number(s@, true), i64::MIN as int, i64::MAX as int) == Some(n as int),
            None => within(number(s@, true), i64::MIN as int, i64::MAX as int) is None,
        },
{
    let v = chars_of(s);
    if v.len() == 0 {
        return None;
    }
    proof {
        lemma_digits_prefix(v@, 0);
        lemma_digits_prefix(v@.skip(1), 0);
    }
    if v[0] == '-' && v.len() > 1 {
        match digits(&v, 1, 0x8000_0000_0000_0000) {
            Some(n) => if n == 0x8000_0000_0000_0000 {
                Some(i64::MIN)
            } else {
                Some(-(n as i64))
            },
            None => None,
        }
    } else if v[0] == '+' && v.len() > 1 {
        match digits(&v, 1, i64::MAX as u64) {
            Some(n) => Some(n as i64),
            None => None,
        }
    } else {
        assert(v@.skip(0) =~= v@);
        match digits(&v, 0, i64::MAX as u64) {
            Some(n) => Some(n as i64),
            None => None,
        }
    }
}

/// The text without the slashes at its end.
pub open spec fn without_slashes(s: Seq<char>) -> Seq<char>
    decreases s.len(),
{
    if s.len() > 0 && s.last() == '/' {
        without_slashes(s.drop_last())
    } else {
        s
    }
}

/// The text without the slashes at its end.
pub fn trim_slashes(s: &str) -> (r: String)
    ensures
        r@ == without_slashes(s@),
{
    let v = chars_of(s);
    let mut j: usize = v.len();
    assert(v@.subrange(0, j as int) =~= v@);
    while j > 0 && v[j - 1] == '/'
        invariant
            j <= v@.len(),
            without_slashes(v@) == without_slashes(v@.subrange(0, j as int)),
        decreases j,
    {
        assert(v@.subrange(0, j as int).drop_last() =~= v@.subrange(0, j as int - 1));
        j = j - 1;
    }
    string_from(&v, 0, j)
}

} // verus!
