//! The chunker: an expression is a namespace tag and a chain of alternatives
//! with a colon between them.

use crate::separator::{
    colon_of, detect, half_width, half_width_char, lemma_half_width_colon, FULL_COLON, HALF_COLON,
};
use crate::text::{
    find, first_index, lemma_first_index, lemma_trim, lemma_trim_renamed, trim, trimmed, views,
};
use vstd::prelude::*;

verus! {

/// `s` cut at the first `c` into at most two pieces, each trimmed; a text
/// without `c` is one piece.
pub open spec fn split_two(s: Seq<char>, c: char) -> Seq<Seq<char>> {
    let i = first_index(s, c);
    if 0 <= i < s.len() {
        seq![trim(s.take(i)), trim(s.skip(i + 1))]
    } else {
        seq![trim(s)]
    }
}

/// The chunks of `s`: the namespace tag before the first colon and the chain
/// of alternatives behind it, or no chunk at all where `s` holds no colon, of
/// either width.
pub open spec fn chunks(s: Seq<char>) -> Seq<Seq<char>> {
    match colon_of(s) {
        Some(colon) => split_two(s, colon),
        None => Seq::<Seq<char>>::empty(),
    }
}

/// Cuts `s` at the first `c` into at most two pieces and trims each.
pub fn split_n<'a>(s: &'a str, c: char) -> (parts: Vec<&'a str>)
    ensures
        views(parts@) == split_two(s@, c),
{
    let mut parts: Vec<&'a str> = Vec::new();
    match find(s, c) {
        Some(at) => {
            let n = s.unicode_len();
            let head = trimmed(s.substring_char(0, at));
            let tail = trimmed(s.substring_char(at + 1, n));
            parts.push(head);
            parts.push(tail);
            assert(s@.subrange(0, at as int) =~= s@.take(at as int));
            assert(s@.subrange(at + 1, n as int) =~= s@.skip(at + 1));
            assert(views(parts@) =~= seq![head@, tail@]);
        },
        None => {
            let whole = trimmed(s);
            parts.push(whole);
            assert(views(parts@) =~= seq![whole@]);
        },
    }
    parts
}

/// Splits an expression into its two chunks at the first colon, of whichever
/// width comes first. The result is empty where `s` holds no colon: it is
/// then no expression.
pub fn get_chunks<'a>(s: &'a str) -> (parts: Vec<&'a str>)
    ensures
        views(parts@) == chunks(s@),
        parts@.len() == 0 || parts@.len() == 2,
{
    proof {
        lemma_chunks(s@);
    }
    match detect(s, HALF_COLON, FULL_COLON) {
        Some(colon) => split_n(s, colon),
        None => {
            let parts: Vec<&'a str> = Vec::new();
            assert(views(parts@) =~= Seq::<Seq<char>>::empty());
            parts
        },
    }
}

/// An expression has two chunks, each trimmed and shorter than the
/// expression; anything else has none.
pub proof fn lemma_chunks(s: Seq<char>)
    ensures
        chunks(s).len() == 0 || chunks(s).len() == 2,
        chunks(s).len() == 2 <==> s.contains(HALF_COLON) || s.contains(FULL_COLON),
        chunks(s).len() == 2 ==> chunks(s)[0].len() < s.len() && chunks(s)[1].len() < s.len(),
{
    crate::separator::lemma_detected(s, HALF_COLON, FULL_COLON);
    if let Some(colon) = colon_of(s) {
        let i = first_index(s, colon);
        lemma_first_index(s, colon);
        lemma_trim(s.take(i));
        lemma_trim(s.skip(i + 1));
    }
}

/// An expression that is written with the full-width colon has the chunks
/// of the same expression written with the half-width one: the chunks of its
/// half-width form are the half-width forms of its chunks.
pub proof fn law_full_width_colon(s: Seq<char>)
    requires
        !s.contains(HALF_COLON),
    ensures
        chunks(half_width(s)) == chunks(s).map_values(|chunk: Seq<char>| half_width(chunk)),
{
    let rename = |c: char| half_width_char(c);
    let each = |chunk: Seq<char>| half_width(chunk);
    let h = half_width(s);
    lemma_half_width_colon(s);
    match colon_of(s) {
        Some(colon) => {
            let i = first_index(s, FULL_COLON);
            lemma_first_index(s, FULL_COLON);
            crate::separator::lemma_detected(s, HALF_COLON, FULL_COLON);
            let head = s.take(i);
            let tail = s.skip(i + 1);
            assert(h.take(i) =~= head.map_values(rename));
            assert(h.skip(i + 1) =~= tail.map_values(rename));
            lemma_trim_renamed(head, rename);
            lemma_trim_renamed(tail, rename);
            assert(half_width(trim(head)) =~= trim(head).map_values(rename));
            assert(half_width(trim(tail)) =~= trim(tail).map_values(rename));
            assert(chunks(s).map_values(each) =~= seq![each(trim(head)), each(trim(tail))]);
        },
        None => {
            assert(chunks(s).map_values(each) =~= Seq::<Seq<char>>::empty());
        },
    }
}

} // verus!
