//! The namespace `$val`: values that are made when they are asked for.

use crate::host::Host;
use crate::remix::{namespace_answers, remix_or_none, yields, Tag};
use crate::rules::{
    answers_of, handle_chain, handled, lemma_answers_of, lemma_handled_widens, opt_text,
};
use crate::random::{get_random_value, is_random_text, DEFAULT_LENGTH};
use crate::text::{chars_of, find, first_index, lemma_first_index, starts_with, text_eq};
use vstd::prelude::*;

verus! {

/// The values that `$val` knows.
#[derive(Clone, Copy, Debug, PartialEq, Eq)]
pub enum ValueKind {
    /// `empty`: the empty text.
    Empty,
    /// `rand-N`: a random text of the given length.
    Random(usize),
}

/// Whether every character of `s` is a decimal digit.
pub open spec fn all_digits(s: Seq<char>) -> bool {
    forall|i: int| 0 <= i < s.len() ==> '0' <= #[trigger] s[i] <= '9'
}

/// The number that the decimal digits `s` write.
pub open spec fn number(s: Seq<char>) -> nat
    decreases s.len(),
{
    if s.len() == 0 {
        0
    } else {
        (number(s.drop_last()) * 10 + (s.last() as u32 - '0' as u32)) as nat
    }
}

/// The length that `s` writes: decimal digits, at least one, which a plus
/// sign may precede, and whose number a `usize` can hold.
pub open spec fn length_written(s: Seq<char>) -> Option<usize> {
    let digits = if s.len() > 0 && s[0] == '+' {
        s.drop_first()
    } else {
        s
    };
    if digits.len() > 0 && all_digits(digits) && number(digits) <= usize::MAX {
        Some(number(digits) as usize)
    } else {
        None
    }
}

/// The value that `ident` names: `empty`, or `rand-` followed by a length,
/// in place of which 16 is taken where it is not a length.
pub open spec fn value_of(ident: Seq<char>) -> Option<ValueKind> {
    if ident == "empty"@ {
        Some(ValueKind::Empty)
    } else if "rand-"@.is_prefix_of(ident) {
        let written = length_written(ident.skip(first_index(ident, '-') + 1));
        Some(
            ValueKind::Random(
                match written {
                    Some(length) => length,
                    None => DEFAULT_LENGTH,
                },
            ),
        )
    } else {
        None
    }
}

/// Whether a lookup of `kind` may give `value`.
pub open spec fn value_may(kind: ValueKind, value: Option<Seq<char>>) -> bool {
    match kind {
        ValueKind::Empty => value == Some(Seq::<char>::empty()),
        ValueKind::Random(length) => value is Some && is_random_text(value->0, length as nat),
    }
}

/// A number does not shrink where digits are appended.
pub proof fn lemma_number_grows(s: Seq<char>, k: int)
    requires
        all_digits(s),
        0 <= k <= s.len(),
    ensures
        number(s.take(k)) <= number(s),
    decreases s.len() - k,
{
    if k < s.len() {
        lemma_number_grows(s, k + 1);
        assert(s.take(k + 1).drop_last() =~= s.take(k));
        assert(s.take(k + 1).last() == s[k]);
    } else {
        assert(s.take(k) =~= s);
    }
}

/// Reads the length that `s` writes.
pub fn parse_length(s: &str) -> (length: Option<usize>)
    ensures
        length == length_written(s@),
{
    let chars = chars_of(s);
    let n = chars.len();
    let start: usize = if n > 0 && chars[0] == '+' {
        1
    } else {
        0
    };
    let ghost digits = chars@.skip(start as int);
    assert(start == 1 ==> chars@.drop_first() =~= digits);
    assert(start == 0 ==> chars@ =~= digits);
    if start == n {
        return None;
    }
    let mut value: usize = 0;
    let mut i: usize = start;
    assert(digits.take(0) =~= Seq::<char>::empty());
    while i < n
        invariant
            start <= i <= n == chars.len(),
            start < n,
            chars@ == s@,
            start == 1 ==> n > 0 && chars@[0] == '+' && chars@.drop_first() =~= digits,
            start == 0 ==> !(n > 0 && chars@[0] == '+') && chars@ =~= digits,
            start <= 1,
            digits == chars@.skip(start as int),
            all_digits(digits.take(i - start)),
            value == number(digits.take(i - start)),
        decreases n - i,
    {
        let c = chars[i];
        let ghost k = i - start;
        proof {
            assert(digits[k] == c);
            assert(digits.take(k + 1).drop_last() =~= digits.take(k));
            assert(digits.take(k + 1).last() == c);
        }
        if !('0' <= c && c <= '9') {
            assert(!all_digits(digits));
            return None;
        }
        let d: usize = (c as u32 - '0' as u32) as usize;
        if value > (usize::MAX - d) / 10 {
            proof {
                assert(number(digits.take(k + 1)) > usize::MAX);
                if all_digits(digits) {
                    lemma_number_grows(digits, k + 1);
                }
            }
            return None;
        }
        value = value * 10 + d;
        proof {
            assert forall|j: int| 0 <= j < k + 1 implies '0' <= #[trigger] digits.take(k + 1)[j]
                <= '9' by {
                if j < k {
                    assert(digits.take(k + 1)[j] == digits.take(k)[j]);
                }
            }
        }
        i += 1;
    }
    assert(digits.take(n - start) =~= digits);
    Some(value)
}

impl ValueKind {
    /// The value that `ident` names.
    pub fn named(ident: &str) -> (kind: Option<ValueKind>)
        ensures
            kind == value_of(ident@),
    {
        if text_eq(ident, "empty") {
            Some(ValueKind::Empty)
        } else if starts_with(ident, "rand-") {
            let n = ident.unicode_len();
            proof {
                reveal_strlit("rand-");
                assert(ident@.subrange(0, 5)[4] == '-');
                lemma_first_index(ident@, '-');
            }
            let after = match find(ident, '-') {
                Some(dash) => ident.substring_char(dash + 1, n),
                None => ident,
            };
            assert(after@ =~= ident@.skip(first_index(ident@, '-') + 1));
            match parse_length(after) {
                Some(length) => Some(ValueKind::Random(length)),
                None => Some(ValueKind::Random(DEFAULT_LENGTH)),
            }
        } else {
            None
        }
    }

    /// Makes the value.
    pub fn make(self) -> (value: Option<String>)
        ensures
            value_may(self, opt_text(value)),
    {
        match self {
            ValueKind::Empty => Some(String::new()),
            ValueKind::Random(length) => Some(get_random_value(Some(length))),
        }
    }
}

/// Resolves `ident` in `$val: ident`: a value by its name, or a remix
/// expression.
pub fn match_values(ident: &str, host: &Host) -> (value: Option<String>)
    ensures
        yields(Tag::Val, ident@, *host, opt_text(value)),
    decreases ident@.len(), 3int,
{
    match ValueKind::named(ident) {
        Some(kind) => kind.make(),
        None => remix_or_none(ident, host),
    }
}

/// Resolves the chain of a `$val` expression.
pub fn handle_values(ident: &str, host: &Host) -> (value: Option<String>)
    ensures
        handled(
            ident@,
            namespace_answers(Tag::Val, *host),
            namespace_answers(Tag::Val, *host),
            opt_text(value),
        ),
{
    let direct = |x: &str| -> (v: Option<String>)
        ensures
            yields(Tag::Val, x@, *host, opt_text(v)),
        { match_values(x, host) };
    let each = |x: &str| -> (v: Option<String>)
        ensures
            yields(Tag::Val, x@, *host, opt_text(v)),
        { match_values(x, host) };
    let value = handle_chain(ident, direct, each);
    proof {
        lemma_answers_of(direct, namespace_answers(Tag::Val, *host));
        lemma_answers_of(each, namespace_answers(Tag::Val, *host));
        lemma_handled_widens(
            ident@,
            answers_of(direct),
            answers_of(each),
            namespace_answers(Tag::Val, *host),
            namespace_answers(Tag::Val, *host),
            opt_text(value),
        );
    }
    value
}

} // verus!
