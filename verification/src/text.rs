//! Text as sequences of characters: conversion between strings and character
//! vectors, decimal numerals, and substring search.

use vstd::prelude::*;

verus! {

/// `String::push` appends one character to the end of the string.
pub assume_specification[ String::push ](text: &mut String, c: char)
    ensures
        final(text)@ == old(text)@.push(c),
;

/// The characters of `text`, in order.
pub fn chars_of(text: &str) -> (chars: Vec<char>)
    ensures
        chars@ == text@,
{
    let mut chars: Vec<char> = Vec::new();
    for c in it: text.chars()
        invariant
            it.seq() == text@,
            chars@ == it.seq().subrange(0, it.index() as int),
    {
        chars.push(c);
    }
    chars
}

/// The string made of `chars`, in order.
pub fn text_of(chars: &Vec<char>) -> (text: String)
    ensures
        text@ == chars@,
{
    let mut text = String::new();
    let mut i: usize = 0;
    while i < chars.len()
        invariant
            i <= chars.len(),
            text@ == chars@.subrange(0, i as int),
        decreases chars.len() - i,
    {
        text.push(chars[i]);
        i = i + 1;
    }
    assert(chars@.subrange(0, chars.len() as int) == chars@);
    text
}

/// Whether two texts hold the same characters.
pub fn same_text(a: &str, b: &str) -> (same: bool)
    ensures
        same == (a@ == b@),
{
    let left = a.to_owned();
    let right = b.to_owned();
    left == right
}

/// The character that writes the digit `d`, for `0 <= d < 10`.
pub open spec fn digit(d: int) -> char {
    ((48 + d) as u8) as char
}

/// Whether `c` is one of the ten decimal digits.
pub open spec fn is_digit(c: char) -> bool {
    exists|d: int| 0 <= d < 10 && c == #[trigger] digit(d)
}

/// The decimal numeral of `n`: most significant digit first, no sign, no
/// leading zero except for zero itself.
pub open spec fn decimal(n: nat) -> Seq<char>
    decreases n,
{
    if n < 10 {
        seq![digit(n as int)]
    } else {
        decimal(n / 10).push(digit((n % 10) as int))
    }
}

/// The numeral of an integer of either sign: a minus sign before the numeral
/// of the magnitude when it is negative.
pub open spec fn signed_decimal(i: int) -> Seq<char> {
    if i < 0 {
        seq!['-'] + decimal((-i) as nat)
    } else {
        decimal(i as nat)
    }
}

/// The number that a sequence of digit characters writes, read from the left.
pub open spec fn decimal_value(digits: Seq<char>) -> nat
    decreases digits.len(),
{
    if digits.len() == 0 {
        0
    } else {
        (10 * decimal_value(digits.drop_last()) + ((digits.last() as u8) - 48)) as nat
    }
}

/// A numeral is never empty and holds nothing but digits.
pub proof fn lemma_decimal_is_digits(n: nat)
    ensures
        decimal(n).len() >= 1,
        forall|k: int| 0 <= k < decimal(n).len() ==> is_digit(#[trigger] decimal(n)[k]),
    decreases n,
{
    if n < 10 {
        assert(is_digit(digit(n as int)));
    } else {
        lemma_decimal_is_digits(n / 10);
        assert(is_digit(digit((n % 10) as int)));
    }
}

/// Reading a numeral gives back the number it was written from.
pub proof fn lemma_decimal_round_trip(n: nat)
    ensures
        decimal_value(decimal(n)) == n,
    decreases n,
{
    if n < 10 {
        assert(decimal(n).drop_last() =~= Seq::<char>::empty());
        assert(decimal_value(decimal(n).drop_last()) == 0);
    } else {
        lemma_decimal_round_trip(n / 10);
        assert(decimal(n).drop_last() =~= decimal(n / 10));
    }
}

/// Appends the decimal numeral of `n` to `out`.
pub fn push_decimal(out: &mut String, n: u128)
    ensures
        final(out)@ == old(out)@ + decimal(n as nat),
    decreases n,
{
    if n >= 10 {
        push_decimal(out, n / 10);
    }
    let low: u8 = (n % 10) as u8;
    out.push((48u8 + low) as char);
    assert(final(out)@ =~= old(out)@ + decimal(n as nat));
}

/// Appends the numeral of the signed integer `i` to `out`.
pub fn push_signed_decimal(out: &mut String, i: i64)
    ensures
        final(out)@ == old(out)@ + signed_decimal(i as int),
{
    if i < 0 {
        out.push('-');
        let magnitude: u128 = (-(i as i128)) as u128;
        push_decimal(out, magnitude);
        assert(final(out)@ =~= old(out)@ + signed_decimal(i as int));
    } else {
        push_decimal(out, i as u128);
    }
}

/// Whether `pattern` stands in `text` at position `at`.
pub open spec fn occurs_at(text: Seq<char>, pattern: Seq<char>, at: int) -> bool {
    &&& 0 <= at
    &&& at + pattern.len() <= text.len()
    &&& text.subrange(at, at + pattern.len()) == pattern
}

/// Whether `at` is the leftmost position at which `pattern` stands in `text`.
pub open spec fn is_first_occurrence(text: Seq<char>, pattern: Seq<char>, at: int) -> bool {
    &&& occurs_at(text, pattern, at)
    &&& forall|k: int| 0 <= k < at ==> !occurs_at(text, pattern, k)
}

/// The leftmost position at which `pattern` stands in `text`, if there is one.
pub open spec fn first_occurrence(text: Seq<char>, pattern: Seq<char>) -> Option<int> {
    if exists|at: int| is_first_occurrence(text, pattern, at) {
        Some(choose|at: int| is_first_occurrence(text, pattern, at))
    } else {
        None
    }
}

/// There is at most one leftmost occurrence.
pub proof fn lemma_first_occurrence_unique(text: Seq<char>, pattern: Seq<char>, a: int, b: int)
    requires
        is_first_occurrence(text, pattern, a),
        is_first_occurrence(text, pattern, b),
    ensures
        a == b,
{
}

/// Where `pattern` stands in `text` at all, it has a leftmost occurrence,
/// and that one is `first_occurrence`.
pub proof fn lemma_first_occurrence_exists(text: Seq<char>, pattern: Seq<char>, at: int)
    requires
        occurs_at(text, pattern, at),
    ensures
        first_occurrence(text, pattern) matches Some(first) && first <= at && is_first_occurrence(
            text,
            pattern,
            first,
        ),
    decreases at,
{
    if exists|k: int| 0 <= k < at && occurs_at(text, pattern, k) {
        let earlier = choose|k: int| 0 <= k < at && occurs_at(text, pattern, k);
        lemma_first_occurrence_exists(text, pattern, earlier);
    } else {
        assert(is_first_occurrence(text, pattern, at));
        let chosen = choose|k: int| is_first_occurrence(text, pattern, k);
        lemma_first_occurrence_unique(text, pattern, chosen, at);
    }
}

/// The longest prefix of `text` that holds no `stop`.
pub open spec fn prefix_before(text: Seq<char>, stop: char) -> Seq<char>
    decreases text.len(),
{
    if text.len() == 0 || text[0] == stop {
        Seq::empty()
    } else {
        seq![text[0]] + prefix_before(text.drop_first(), stop)
    }
}

/// `prefix_before` is a prefix free of `stop`, and it ends at the first `stop`
/// or at the end of the text.
pub proof fn lemma_prefix_before(text: Seq<char>, stop: char)
    ensures
        prefix_before(text, stop).len() <= text.len(),
        prefix_before(text, stop) == text.take(prefix_before(text, stop).len() as int),
        !prefix_before(text, stop).contains(stop),
        prefix_before(text, stop).len() < text.len() ==> text[prefix_before(text, stop).len() as int]
            == stop,
    decreases text.len(),
{
    let prefix = prefix_before(text, stop);
    if text.len() == 0 || text[0] == stop {
        assert(prefix =~= text.take(0));
    } else {
        let rest = text.drop_first();
        let inner = prefix_before(rest, stop);
        lemma_prefix_before(rest, stop);
        assert(prefix =~= text.take(prefix.len() as int)) by {
            assert forall|k: int| 0 <= k < prefix.len() implies prefix[k] == text[k] by {
                if k > 0 {
                    assert(inner[k - 1] == rest.take(inner.len() as int)[k - 1]);
                }
            }
        }
        assert(!prefix.contains(stop)) by {
            if prefix.contains(stop) {
                let k = choose|k: int| 0 <= k < prefix.len() && prefix[k] == stop;
                assert(k > 0);
                assert(inner[k - 1] == stop);
                assert(inner.contains(stop));
            }
        }
        if prefix.len() < text.len() {
            assert(text[prefix.len() as int] == rest[inner.len() as int]);
        }
    }
}

/// Finds the leftmost occurrence of `pattern` in `text`.
pub fn find(text: &Vec<char>, pattern: &Vec<char>) -> (found: Option<usize>)
    ensures
        match found {
            Some(at) => first_occurrence(text@, pattern@) == Some(at as int),
            None => first_occurrence(text@, pattern@) is None,
        },
{
    let n: usize = text.len();
    let m: usize = pattern.len();
    if m > n {
        assert forall|at: int| !is_first_occurrence(text@, pattern@, at) by {}
        return None;
    }
    let mut at: usize = 0;
    while at <= n - m
        invariant
            n == text.len(),
            m == pattern.len(),
            m <= n,
            at <= n - m + 1,
            forall|k: int| 0 <= k < at ==> !occurs_at(text@, pattern@, k),
        decreases n - m + 1 - at,
    {
        let mut j: usize = 0;
        while j < m && text[at + j] == pattern[j]
            invariant
                n == text.len(),
                m == pattern.len(),
                at + m <= n,
                j <= m,
                forall|k: int| 0 <= k < j ==> text@[at + k] == pattern@[k],
            decreases m - j,
        {
            j = j + 1;
        }
        if j == m {
            assert(text@.subrange(at as int, at + m) =~= pattern@);
            assert(is_first_occurrence(text@, pattern@, at as int));
            proof {
                let chosen = choose|k: int| is_first_occurrence(text@, pattern@, k);
                lemma_first_occurrence_unique(text@, pattern@, chosen, at as int);
            }
            return Some(at);
        }
        assert(!occurs_at(text@, pattern@, at as int)) by {
            if occurs_at(text@, pattern@, at as int) {
                assert(text@.subrange(at as int, at + m)[j as int] == pattern@[j as int]);
            }
        }
        at = at + 1;
    }
    assert forall|k: int| !is_first_occurrence(text@, pattern@, k) by {}
    None
}

/// The characters of `text` from position `from` up to the first `stop`, or to
/// the end where no `stop` follows.
pub fn take_until(text: &Vec<char>, from: usize, stop: char) -> (taken: Vec<char>)
    requires
        from <= text.len(),
    ensures
        taken@ == prefix_before(text@.skip(from as int), stop),
{
    let mut taken: Vec<char> = Vec::new();
    let mut i: usize = from;
    while i < text.len() && text[i] != stop
        invariant
            from <= i <= text.len(),
            prefix_before(text@.skip(from as int), stop) == taken@ + prefix_before(
                text@.skip(i as int),
                stop,
            ),
        decreases text.len() - i,
    {
        proof {
            let rest = text@.skip(i as int);
            assert(rest.drop_first() =~= text@.skip(i + 1));
            assert(taken@.push(text@[i as int]) + prefix_before(text@.skip(i + 1), stop) =~= taken@
                + prefix_before(rest, stop));
        }
        taken.push(text[i]);
        i = i + 1;
    }
    assert(prefix_before(text@.skip(i as int), stop) =~= Seq::<char>::empty());
    assert(taken@ + Seq::<char>::empty() =~= taken@);
    taken
}

} // verus!
