//! The two separators of the expression language, each of which may be typed
//! in its half-width or in its full-width form.

use crate::text::{
    chars_of, find_from, first_index, lemma_first_index, lemma_first_index_renamed,
};
use vstd::prelude::*;

verus! {

/// The half-width colon.
pub const HALF_COLON: char = ':';

/// The full-width colon.
pub const FULL_COLON: char = '\u{FF1A}';

/// The half-width question mark.
pub const HWQM: char = '?';

/// The full-width question mark.
pub const FWQM: char = '\u{FF1F}';

/// What stands for "no separator" where a plain character is returned.
pub const NO_SEPARATOR: char = ' ';

/// The one of `half` and `full` that occurs first in `expr`, if either occurs.
pub open spec fn detected(expr: Seq<char>, half: char, full: char) -> Option<char> {
    let h = first_index(expr, half);
    let f = first_index(expr, full);
    if h < f {
        Some(half)
    } else if f < h {
        Some(full)
    } else {
        None
    }
}

/// The colon that `expr` uses.
pub open spec fn colon_of(expr: Seq<char>) -> Option<char> {
    detected(expr, HALF_COLON, FULL_COLON)
}

/// The question mark that `expr` uses.
pub open spec fn question_mark_of(expr: Seq<char>) -> Option<char> {
    detected(expr, HWQM, FWQM)
}

/// `expr` with every full-width separator replaced by its half-width form.
pub open spec fn half_width(expr: Seq<char>) -> Seq<char> {
    expr.map_values(|c: char| half_width_char(c))
}

/// The half-width form of a separator; any other character is itself.
pub open spec fn half_width_char(c: char) -> char {
    if c == FULL_COLON {
        HALF_COLON
    } else if c == FWQM {
        HWQM
    } else {
        c
    }
}

/// Decides which of two look-alike characters `expr` uses as a separator: the
/// one that occurs first, or `None` where neither occurs.
pub fn detect(expr: &str, half: char, full: char) -> (found: Option<char>)
    ensures
        found == detected(expr@, half, full),
{
    let chars = chars_of(expr);
    let h = find_from(&chars, 0, half);
    let f = find_from(&chars, 0, full);
    assert(chars@.skip(0) =~= chars@);
    if h < f {
        Some(half)
    } else if f < h {
        Some(full)
    } else {
        None
    }
}

/// The question mark that `s` uses, of whichever width comes first, or a
/// space where `s` holds none. A chain is meant to keep to one width: where it
/// mixes them, the one that comes first separates its alternatives, and the
/// other is an ordinary character of an identifier.
pub fn get_question_mark_separator(s: &str) -> (separator: char)
    ensures
        separator == match question_mark_of(s@) {
            Some(mark) => mark,
            None => NO_SEPARATOR,
        },
        separator == NO_SEPARATOR <==> question_mark_of(s@) is None,
{
    match detect(s, HWQM, FWQM) {
        Some(mark) => mark,
        None => NO_SEPARATOR,
    }
}

/// What `detected` means: the separator found occurs in the expression, and
/// the other form does not occur before it; none is found only where neither
/// occurs.
pub proof fn lemma_detected(expr: Seq<char>, half: char, full: char)
    requires
        half != full,
    ensures
        match detected(expr, half, full) {
            Some(c) => {
                &&& c == half || c == full
                &&& first_index(expr, c) < expr.len()
                &&& expr[first_index(expr, c)] == c
                &&& forall|j: int|
                    0 <= j < first_index(expr, c) ==> expr[j] != half && expr[j] != full
            },
            None => !expr.contains(half) && !expr.contains(full),
        },
{
    lemma_first_index(expr, half);
    lemma_first_index(expr, full);
}

/// A text without full-width separators is its own half-width form.
pub proof fn lemma_half_width_same(s: Seq<char>)
    requires
        !s.contains(FULL_COLON),
        !s.contains(FWQM),
    ensures
        half_width(s) == s,
{
    assert forall|i: int| 0 <= i < s.len() implies half_width(s)[i] == s[i] by {
        if s[i] == FULL_COLON || s[i] == FWQM {
            assert(s.contains(s[i]));
        }
    }
    assert(half_width(s) =~= s);
}

/// An expression that is written with full-width question marks alone uses
/// the half-width one in its half-width form, at the same place.
pub proof fn lemma_half_width_question_mark(s: Seq<char>)
    requires
        !s.contains(HWQM),
    ensures
        first_index(half_width(s), HWQM) == first_index(s, FWQM),
        !half_width(s).contains(FWQM),
        question_mark_of(s) is Some ==> question_mark_of(s) == Some(FWQM),
        question_mark_of(half_width(s)) == match question_mark_of(s) {
            Some(mark) => Some(HWQM),
            None => None,
        },
{
    let rename = |c: char| half_width_char(c);
    assert forall|i: int| 0 <= i < s.len() implies (rename(#[trigger] s[i]) == HWQM <==> s[i]
        == FWQM) by {
        if s[i] == HWQM {
            assert(s.contains(HWQM));
        }
    }
    lemma_first_index_renamed(s, rename, FWQM, HWQM);
    let h = half_width(s);
    assert(!h.contains(FWQM)) by {
        if h.contains(FWQM) {
            let j = choose|j: int| 0 <= j < h.len() && h[j] == FWQM;
            assert(h[j] == half_width_char(s[j]));
        }
    }
    lemma_first_index(s, HWQM);
    lemma_first_index(s, FWQM);
    lemma_first_index(h, HWQM);
    lemma_first_index(h, FWQM);
}

/// An expression that is written with full-width colons alone uses the
/// half-width one in its half-width form, at the same place.
pub proof fn lemma_half_width_colon(s: Seq<char>)
    requires
        !s.contains(HALF_COLON),
    ensures
        first_index(half_width(s), HALF_COLON) == first_index(s, FULL_COLON),
        !half_width(s).contains(FULL_COLON),
        colon_of(s) is Some ==> colon_of(s) == Some(FULL_COLON),
        colon_of(half_width(s)) == match colon_of(s) {
            Some(colon) => Some(HALF_COLON),
            None => None,
        },
{
    let rename = |c: char| half_width_char(c);
    assert forall|i: int| 0 <= i < s.len() implies (rename(#[trigger] s[i]) == HALF_COLON
        <==> s[i] == FULL_COLON) by {
        if s[i] == HALF_COLON {
            assert(s.contains(HALF_COLON));
        }
    }
    lemma_first_index_renamed(s, rename, FULL_COLON, HALF_COLON);
    let h = half_width(s);
    assert(!h.contains(FULL_COLON)) by {
        if h.contains(FULL_COLON) {
            let j = choose|j: int| 0 <= j < h.len() && h[j] == FULL_COLON;
            assert(h[j] == half_width_char(s[j]));
        }
    }
    lemma_first_index(s, HALF_COLON);
    lemma_first_index(s, FULL_COLON);
    lemma_first_index(h, HALF_COLON);
    lemma_first_index(h, FULL_COLON);
}

} // verus!
