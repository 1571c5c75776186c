//! Strings as sequences of characters: the searching, trimming and splitting
//! that the expression language is built from.

use vstd::prelude::*;

verus! {

/// The characters with the Unicode property `White_Space`.
pub open spec fn is_space(c: char) -> bool {
    let n = c as u32;
    ||| 0x09 <= n <= 0x0D
    ||| n == 0x20
    ||| n == 0x85
    ||| n == 0xA0
    ||| n == 0x1680
    ||| 0x2000 <= n <= 0x200A
    ||| n == 0x2028
    ||| n == 0x2029
    ||| n == 0x202F
    ||| n == 0x205F
    ||| n == 0x3000
}

/// `s` without its leading white space.
pub open spec fn trim_start(s: Seq<char>) -> Seq<char>
    decreases s.len(),
{
    if s.len() > 0 && is_space(s[0]) {
        trim_start(s.drop_first())
    } else {
        s
    }
}

/// `s` without its trailing white space.
pub open spec fn trim_end(s: Seq<char>) -> Seq<char>
    decreases s.len(),
{
    if s.len() > 0 && is_space(s.last()) {
        trim_end(s.drop_last())
    } else {
        s
    }
}

/// `s` without the white space at either end.
pub open spec fn trim(s: Seq<char>) -> Seq<char> {
    trim_end(trim_start(s))
}

/// The offset of the first `c` in `s`, or `s.len()` where there is none.
pub open spec fn first_index(s: Seq<char>, c: char) -> int
    decreases s.len(),
{
    if s.len() == 0 || s[0] == c {
        0
    } else {
        1 + first_index(s.drop_first(), c)
    }
}

/// The offset just behind the last `c` in `s`, or 0 where there is none.
pub open spec fn end_of_last(s: Seq<char>, c: char) -> int
    decreases s.len(),
{
    if s.len() == 0 || s.last() == c {
        s.len() as int
    } else {
        end_of_last(s.drop_last(), c)
    }
}

/// The pieces of `s` between the occurrences of `c`: one more piece than
/// there are occurrences, empty pieces included.
pub open spec fn split(s: Seq<char>, c: char) -> Seq<Seq<char>>
    decreases s.len(),
{
    let i = first_index(s, c);
    if 0 <= i < s.len() {
        seq![s.take(i)] + split(s.skip(i + 1), c)
    } else {
        seq![s]
    }
}

/// The pieces of `s` between the occurrences of `c`, each one trimmed.
pub open spec fn split_trimmed(s: Seq<char>, c: char) -> Seq<Seq<char>> {
    split(s, c).map_values(|piece: Seq<char>| trim(piece))
}

/// `s` without the copies of `prefix` that it starts with.
pub open spec fn strip_prefixes(s: Seq<char>, prefix: Seq<char>) -> Seq<char>
    decreases s.len(),
{
    if prefix.len() > 0 && prefix.is_prefix_of(s) {
        strip_prefixes(s.skip(prefix.len() as int), prefix)
    } else {
        s
    }
}

/// `s` without the run of `c` that it starts with.
pub open spec fn strip_leading(s: Seq<char>, c: char) -> Seq<char>
    decreases s.len(),
{
    if s.len() > 0 && s[0] == c {
        strip_leading(s.drop_first(), c)
    } else {
        s
    }
}

/// The upper-case form of an ASCII letter; any other character is itself.
pub open spec fn ascii_upper(c: char) -> char {
    if 'a' <= c && c <= 'z' {
        ((c as u8) - 32) as char
    } else {
        c
    }
}

/// The views of the elements of `parts`, in order.
pub open spec fn views(parts: Seq<&str>) -> Seq<Seq<char>> {
    parts.map_values(|part: &str| part@)
}

/// `first_index` finds the first occurrence and nothing before it.
pub proof fn lemma_first_index(s: Seq<char>, c: char)
    ensures
        0 <= first_index(s, c) <= s.len(),
        forall|j: int| 0 <= j < first_index(s, c) ==> s[j] != c,
        first_index(s, c) < s.len() ==> s[first_index(s, c)] == c,
        first_index(s, c) < s.len() <==> s.contains(c),
    decreases s.len(),
{
    if s.len() == 0 || s[0] == c {
    } else {
        let rest = s.drop_first();
        lemma_first_index(rest, c);
        assert forall|j: int| 0 <= j < first_index(s, c) implies s[j] != c by {
            if j > 0 {
                assert(s[j] == rest[j - 1]);
            }
        }
        if s.contains(c) {
            let k = choose|k: int| 0 <= k < s.len() && s[k] == c;
            assert(rest[k - 1] == c);
        }
        if first_index(s, c) < s.len() {
            assert(s[first_index(s, c)] == rest[first_index(rest, c)]);
        }
    }
}

/// An offset that holds `c` with no `c` before it is the first index.
pub proof fn lemma_first_index_is(s: Seq<char>, c: char, i: int)
    requires
        0 <= i <= s.len(),
        forall|j: int| 0 <= j < i ==> s[j] != c,
        i < s.len() ==> s[i] == c,
    ensures
        first_index(s, c) == i,
{
    lemma_first_index(s, c);
    let f = first_index(s, c);
    if f < i {
        assert(s[f] == c);
    } else if i < f {
        assert(s[i] == c);
    }
}

/// `end_of_last` finds the last occurrence and nothing behind it.
pub proof fn lemma_end_of_last(s: Seq<char>, c: char)
    ensures
        0 <= end_of_last(s, c) <= s.len(),
        forall|j: int| end_of_last(s, c) <= j < s.len() ==> s[j] != c,
        end_of_last(s, c) > 0 ==> s[end_of_last(s, c) - 1] == c,
        end_of_last(s, c) > 0 <==> s.contains(c),
    decreases s.len(),
{
    if s.len() == 0 || s.last() == c {
        if s.len() > 0 {
            assert(s[s.len() - 1] == c);
        }
    } else {
        let rest = s.drop_last();
        lemma_end_of_last(rest, c);
        assert forall|j: int| end_of_last(s, c) <= j < s.len() implies s[j] != c by {
            if j < rest.len() {
                assert(s[j] == rest[j]);
            }
        }
        if s.contains(c) {
            let k = choose|k: int| 0 <= k < s.len() && s[k] == c;
            assert(rest[k] == c);
        }
        if end_of_last(s, c) > 0 {
            assert(s[end_of_last(s, c) - 1] == rest[end_of_last(rest, c) - 1]);
        }
    }
}

/// A text without `c` is a single piece.
pub proof fn lemma_split_whole(s: Seq<char>, c: char)
    requires
        !s.contains(c),
    ensures
        split(s, c) == seq![s],
{
    lemma_first_index(s, c);
}

/// A text is split at the first `c`: the piece before it, then the pieces of
/// what follows it.
pub proof fn lemma_split_first(head: Seq<char>, c: char, tail: Seq<char>)
    requires
        !head.contains(c),
    ensures
        split(head + seq![c] + tail, c) == seq![head] + split(tail, c),
{
    let s = head + seq![c] + tail;
    lemma_first_index(head, c);
    assert forall|j: int| 0 <= j < head.len() implies s[j] != c by {
        assert(s[j] == head[j]);
        if head[j] == c {
            assert(head.contains(c));
        }
    }
    assert(s[head.len() as int] == c);
    lemma_first_index_is(s, c, head.len() as int);
    assert(s.take(head.len() as int) =~= head);
    assert(s.skip(head.len() as int + 1) =~= tail);
}

/// Where a renaming of characters sends `from`, and nothing else that occurs
/// in `s`, to `to`, the first `to` of the renamed text stands where the first
/// `from` of `s` stands.
pub proof fn lemma_first_index_renamed(
    s: Seq<char>,
    rename: spec_fn(char) -> char,
    from: char,
    to: char,
)
    requires
        forall|i: int| 0 <= i < s.len() ==> (rename(#[trigger] s[i]) == to <==> s[i] == from),
    ensures
        first_index(s.map_values(rename), to) == first_index(s, from),
    decreases s.len(),
{
    let renamed = s.map_values(rename);
    if s.len() > 0 {
        assert(renamed[0] == rename(s[0]));
        if s[0] != from {
            assert(renamed.drop_first() =~= s.drop_first().map_values(rename));
            assert forall|i: int| 0 <= i < s.drop_first().len() implies (rename(
                #[trigger] s.drop_first()[i],
            ) == to <==> s.drop_first()[i] == from) by {
                assert(s.drop_first()[i] == s[i + 1]);
            }
            lemma_first_index_renamed(s.drop_first(), rename, from, to);
        }
    }
}

/// Trimming and a renaming of characters that keeps white space apart from
/// the rest can be done in either order.
pub proof fn lemma_trim_renamed(s: Seq<char>, rename: spec_fn(char) -> char)
    requires
        forall|i: int| 0 <= i < s.len() ==> is_space(rename(#[trigger] s[i])) == is_space(s[i]),
    ensures
        trim(s.map_values(rename)) == trim(s).map_values(rename),
{
    lemma_trim_start_renamed(s, rename);
    lemma_trim_start(s);
    let t = trim_start(s);
    assert forall|i: int| 0 <= i < t.len() implies is_space(rename(#[trigger] t[i])) == is_space(
        t[i],
    ) by {
        assert(t[i] == s[i + (s.len() - t.len())]);
    }
    lemma_trim_end_renamed(t, rename);
}

/// Trimming at the start commutes with a renaming that keeps white space
/// apart from the rest.
proof fn lemma_trim_start_renamed(s: Seq<char>, rename: spec_fn(char) -> char)
    requires
        forall|i: int| 0 <= i < s.len() ==> is_space(rename(#[trigger] s[i])) == is_space(s[i]),
    ensures
        trim_start(s.map_values(rename)) == trim_start(s).map_values(rename),
    decreases s.len(),
{
    let renamed = s.map_values(rename);
    if s.len() > 0 {
        assert(renamed[0] == rename(s[0]));
        if is_space(s[0]) {
            assert(renamed.drop_first() =~= s.drop_first().map_values(rename));
            assert forall|i: int| 0 <= i < s.drop_first().len() implies is_space(
                rename(#[trigger] s.drop_first()[i]),
            ) == is_space(s.drop_first()[i]) by {
                assert(s.drop_first()[i] == s[i + 1]);
            }
            lemma_trim_start_renamed(s.drop_first(), rename);
        }
    }
}

/// Trimming at the end commutes with a renaming that keeps white space apart
/// from the rest.
proof fn lemma_trim_end_renamed(s: Seq<char>, rename: spec_fn(char) -> char)
    requires
        forall|i: int| 0 <= i < s.len() ==> is_space(rename(#[trigger] s[i])) == is_space(s[i]),
    ensures
        trim_end(s.map_values(rename)) == trim_end(s).map_values(rename),
    decreases s.len(),
{
    let renamed = s.map_values(rename);
    if s.len() > 0 {
        assert(renamed.last() == rename(s.last()));
        if is_space(s.last()) {
            assert(renamed.drop_last() =~= s.drop_last().map_values(rename));
            assert forall|i: int| 0 <= i < s.drop_last().len() implies is_space(
                rename(#[trigger] s.drop_last()[i]),
            ) == is_space(s.drop_last()[i]) by {
                assert(s.drop_last()[i] == s[i]);
            }
            lemma_trim_end_renamed(s.drop_last(), rename);
        }
    }
}

/// Where a renaming of characters sends `from`, and nothing else that occurs
/// in `s`, to `to`, the renamed text splits on `to` into the renamed pieces
/// of `s` split on `from`.
pub proof fn lemma_split_renamed(
    s: Seq<char>,
    rename: spec_fn(char) -> char,
    from: char,
    to: char,
)
    requires
        forall|i: int| 0 <= i < s.len() ==> (rename(#[trigger] s[i]) == to <==> s[i] == from),
    ensures
        split(s.map_values(rename), to) == split(s, from).map_values(
            |piece: Seq<char>| piece.map_values(rename),
        ),
    decreases s.len(),
{
    let renamed = s.map_values(rename);
    let each = |piece: Seq<char>| piece.map_values(rename);
    lemma_first_index_renamed(s, rename, from, to);
    lemma_first_index(s, from);
    let i = first_index(s, from);
    if 0 <= i < s.len() {
        let tail = s.skip(i + 1);
        assert forall|j: int| 0 <= j < tail.len() implies (rename(#[trigger] tail[j]) == to
            <==> tail[j] == from) by {
            assert(tail[j] == s[j + i + 1]);
        }
        lemma_split_renamed(tail, rename, from, to);
        assert(renamed.take(i) =~= s.take(i).map_values(rename));
        assert(renamed.skip(i + 1) =~= tail.map_values(rename));
        assert(split(s, from).map_values(each) =~= seq![each(s.take(i))] + split(
            tail,
            from,
        ).map_values(each));
    } else {
        assert(split(s, from).map_values(each) =~= seq![each(s)]);
    }
}

/// No piece of a split text holds the character that it was split on.
pub proof fn lemma_split_pieces(s: Seq<char>, c: char)
    ensures
        forall|k: int| 0 <= k < split(s, c).len() ==> !(#[trigger] split(s, c)[k]).contains(c),
    decreases s.len(),
{
    lemma_first_index(s, c);
    let i = first_index(s, c);
    if 0 <= i < s.len() {
        lemma_split_pieces(s.skip(i + 1), c);
        let head = s.take(i);
        assert(!head.contains(c)) by {
            if head.contains(c) {
                let j = choose|j: int| 0 <= j < head.len() && head[j] == c;
                assert(s[j] == c);
            }
        }
        assert forall|k: int| 0 <= k < split(s, c).len() implies !(#[trigger] split(
            s,
            c,
        )[k]).contains(c) by {
            if k > 0 {
                assert(split(s, c)[k] == split(s.skip(i + 1), c)[k - 1]);
            }
        }
    }
}

/// A piece of a split text holds no character that the text does not hold.
pub proof fn lemma_split_within(s: Seq<char>, c: char, other: char)
    requires
        !s.contains(other),
    ensures
        forall|k: int|
            0 <= k < split(s, c).len() ==> !(#[trigger] split(s, c)[k]).contains(other),
    decreases s.len(),
{
    lemma_first_index(s, c);
    let i = first_index(s, c);
    if 0 <= i < s.len() {
        let tail = s.skip(i + 1);
        assert(!tail.contains(other)) by {
            if tail.contains(other) {
                let j = choose|j: int| 0 <= j < tail.len() && tail[j] == other;
                assert(s[j + i + 1] == other);
            }
        }
        lemma_split_within(tail, c, other);
        let head = s.take(i);
        assert(!head.contains(other)) by {
            if head.contains(other) {
                let j = choose|j: int| 0 <= j < head.len() && head[j] == other;
                assert(s[j] == other);
            }
        }
        assert forall|k: int| 0 <= k < split(s, c).len() implies !(#[trigger] split(
            s,
            c,
        )[k]).contains(other) by {
            if k > 0 {
                assert(split(s, c)[k] == split(tail, c)[k - 1]);
            }
        }
    }
}

/// A trimmed text holds no character that the text does not hold.
pub proof fn lemma_trim_within(s: Seq<char>, c: char)
    requires
        !s.contains(c),
    ensures
        !trim(s).contains(c),
{
    lemma_trim_start(s);
    let t = trim_start(s);
    lemma_trim_end(t);
    let u = trim_end(t);
    if u.contains(c) {
        let j = choose|j: int| 0 <= j < u.len() && u[j] == c;
        assert(t[j] == c);
        assert(s[j + (s.len() - t.len())] == c);
    }
}

/// An offset behind a `c` with no `c` at or behind it is the end of the last
/// `c`.
pub proof fn lemma_end_of_last_is(s: Seq<char>, c: char, end: int)
    requires
        0 <= end <= s.len(),
        forall|j: int| end <= j < s.len() ==> s[j] != c,
        end > 0 ==> s[end - 1] == c,
    ensures
        end_of_last(s, c) == end,
{
    lemma_end_of_last(s, c);
    let e = end_of_last(s, c);
    if e > end {
        assert(s[e - 1] == c);
    } else if e < end {
        assert(s[end - 1] == c);
    }
}

/// Where a renaming of characters sends `from`, and nothing else that occurs
/// in `s`, to `to`, the last `to` of the renamed text stands where the last
/// `from` of `s` stands.
pub proof fn lemma_end_of_last_renamed(
    s: Seq<char>,
    rename: spec_fn(char) -> char,
    from: char,
    to: char,
)
    requires
        forall|i: int| 0 <= i < s.len() ==> (rename(#[trigger] s[i]) == to <==> s[i] == from),
    ensures
        end_of_last(s.map_values(rename), to) == end_of_last(s, from),
{
    lemma_end_of_last(s, from);
    let renamed = s.map_values(rename);
    let end = end_of_last(s, from);
    assert forall|j: int| end <= j < renamed.len() implies renamed[j] != to by {
        assert(s[j] != from);
    }
    if end > 0 {
        assert(renamed[end - 1] == rename(s[end - 1]));
    }
    lemma_end_of_last_is(renamed, to, end);
}

/// Stripping copies of a prefix leaves a suffix of the text; where the text
/// starts with the prefix, at least one copy goes.
pub proof fn lemma_strip_prefixes(s: Seq<char>, prefix: Seq<char>)
    ensures
        strip_prefixes(s, prefix).len() <= s.len(),
        prefix.len() > 0 && prefix.is_prefix_of(s) ==> strip_prefixes(s, prefix).len()
            + prefix.len() <= s.len(),
    decreases s.len(),
{
    if prefix.len() > 0 && prefix.is_prefix_of(s) {
        lemma_strip_prefixes(s.skip(prefix.len() as int), prefix);
    }
}

/// Stripping a leading run of `c` leaves a suffix of the text; where the text
/// starts with `c`, at least one character goes.
pub proof fn lemma_strip_leading(s: Seq<char>, c: char)
    ensures
        strip_leading(s, c).len() <= s.len(),
        s.len() > 0 && s[0] == c ==> strip_leading(s, c).len() < s.len(),
    decreases s.len(),
{
    if s.len() > 0 && s[0] == c {
        lemma_strip_leading(s.drop_first(), c);
    }
}

/// Trimming at the start yields a suffix that does not start with white
/// space, and drops white space only.
pub proof fn lemma_trim_start(s: Seq<char>)
    ensures
        trim_start(s).len() <= s.len(),
        trim_start(s) == s.skip(s.len() - trim_start(s).len()),
        trim_start(s).len() > 0 ==> !is_space(trim_start(s)[0]),
        forall|j: int| 0 <= j < s.len() - trim_start(s).len() ==> is_space(s[j]),
    decreases s.len(),
{
    if s.len() > 0 && is_space(s[0]) {
        let rest = s.drop_first();
        lemma_trim_start(rest);
        let k = rest.len() - trim_start(rest).len();
        assert(rest.skip(k) =~= s.skip(k + 1));
        assert forall|j: int| 0 <= j < s.len() - trim_start(s).len() implies is_space(s[j]) by {
            if j > 0 {
                assert(s[j] == rest[j - 1]);
            }
        }
    } else {
        assert(s.skip(0) =~= s);
    }
}

/// Trimming at the end yields a prefix that does not end in white space, and
/// drops white space only.
pub proof fn lemma_trim_end(s: Seq<char>)
    ensures
        trim_end(s).len() <= s.len(),
        trim_end(s) == s.take(trim_end(s).len() as int),
        trim_end(s).len() > 0 ==> !is_space(trim_end(s).last()),
        forall|j: int| trim_end(s).len() <= j < s.len() ==> is_space(s[j]),
    decreases s.len(),
{
    if s.len() > 0 && is_space(s.last()) {
        let rest = s.drop_last();
        lemma_trim_end(rest);
        let k = trim_end(rest).len() as int;
        assert(rest.take(k) =~= s.take(k));
        assert forall|j: int| trim_end(s).len() <= j < s.len() implies is_space(s[j]) by {
            if j < rest.len() {
                assert(s[j] == rest[j]);
            }
        }
    } else {
        assert(s.take(s.len() as int) =~= s);
    }
}

/// A trimmed text has no white space at either end, and trimming it again
/// changes nothing.
pub proof fn lemma_trim(s: Seq<char>)
    ensures
        trim(s).len() <= s.len(),
        trim(s).len() > 0 ==> !is_space(trim(s)[0]) && !is_space(trim(s).last()),
        trim(trim(s)) == trim(s),
{
    lemma_trim_start(s);
    let t = trim_start(s);
    lemma_trim_end(t);
    let u = trim_end(t);
    if u.len() > 0 {
        assert(u[0] == t[0]);
        assert(trim_start(u) == u);
        assert(trim_end(u) == u);
    } else {
        assert(trim_start(u) == u);
        assert(trim_end(u) == u);
    }
}

/// `String::push`: appends one character to the text.
pub assume_specification[ String::push ](s: &mut String, c: char)
    ensures
        final(s)@ == old(s)@.push(c),
;

/// Whether `c` is white space.
pub fn is_whitespace(c: char) -> (b: bool)
    ensures
        b == is_space(c),
{
    let n: u32 = c as u32;
    (0x09 <= n && n <= 0x0D) || n == 0x20 || n == 0x85 || n == 0xA0 || n == 0x1680 || (0x2000 <= n
        && n <= 0x200A) || n == 0x2028 || n == 0x2029 || n == 0x202F || n == 0x205F || n == 0x3000
}

/// The upper-case form of an ASCII letter; any other character is itself.
pub fn to_ascii_upper(c: char) -> (r: char)
    ensures
        r == ascii_upper(c),
{
    if 'a' <= c && c <= 'z' {
        ((c as u8) - 32) as char
    } else {
        c
    }
}

/// The characters of `s`, in order.
pub fn chars_of(s: &str) -> (chars: Vec<char>)
    ensures
        chars@ == s@,
{
    let mut chars: Vec<char> = Vec::new();
    for c in it: s.chars()
        invariant
            chars@ == it.seq().take(it.index() as int),
            it.seq() == s@,
    {
        chars.push(c);
    }
    chars
}

/// The text made of `chars[from..to]`.
pub fn text_of(chars: &Vec<char>, from: usize, to: usize) -> (s: String)
    requires
        from <= to <= chars.len(),
    ensures
        s@ == chars@.subrange(from as int, to as int),
{
    let mut s = String::new();
    let mut i: usize = from;
    while i < to
        invariant
            from <= i <= to <= chars.len(),
            s@ == chars@.subrange(from as int, i as int),
        decreases to - i,
    {
        s.push(chars[i]);
        i += 1;
    }
    s
}

/// Whether the two texts hold the same characters.
pub fn text_eq(a: &str, b: &str) -> (same: bool)
    ensures
        same == (a@ == b@),
{
    let x = chars_of(a);
    let y = chars_of(b);
    if x.len() != y.len() {
        return false;
    }
    let mut i: usize = 0;
    while i < x.len()
        invariant
            i <= x.len(),
            x.len() == y.len(),
            x@ == a@,
            y@ == b@,
            forall|j: int| 0 <= j < i ==> x@[j] == y@[j],
        decreases x.len() - i,
    {
        if x[i] != y[i] {
            return false;
        }
        i += 1;
    }
    assert(a@ =~= b@);
    true
}

/// Whether `s` starts with `prefix`.
pub fn starts_with(s: &str, prefix: &str) -> (yes: bool)
    ensures
        yes == prefix@.is_prefix_of(s@),
{
    let x = chars_of(s);
    let p = chars_of(prefix);
    assert(x@.skip(0) =~= x@);
    prefix_at(&x, 0, &p)
}

/// Whether `s` starts with the character `c`.
pub fn starts_with_char(s: &str, c: char) -> (yes: bool)
    ensures
        yes == (s@.len() > 0 && s@[0] == c),
{
    let x = chars_of(s);
    x.len() > 0 && x[0] == c
}

/// The offset of the first `c` in `chars` at or behind `from`, or the length
/// where there is none.
pub fn find_from(chars: &Vec<char>, from: usize, c: char) -> (at: usize)
    requires
        from <= chars.len(),
    ensures
        from <= at <= chars.len(),
        at - from == first_index(chars@.skip(from as int), c),
{
    let mut i: usize = from;
    while i < chars.len() && chars[i] != c
        invariant
            from <= i <= chars.len(),
            forall|j: int| from <= j < i ==> chars@[j] != c,
        decreases chars.len() - i,
    {
        i += 1;
    }
    proof {
        lemma_first_index_is(chars@.skip(from as int), c, i - from);
    }
    i
}

/// The offset of the first `c` in `s`, counted in characters.
pub fn find(s: &str, c: char) -> (at: Option<usize>)
    ensures
        match at {
            Some(i) => i == first_index(s@, c) && i < s@.len(),
            None => first_index(s@, c) == s@.len(),
        },
{
    let chars = chars_of(s);
    let i = find_from(&chars, 0, c);
    assert(chars@.skip(0) =~= chars@);
    if i < chars.len() {
        Some(i)
    } else {
        None
    }
}

/// The offset of the last `c` in `s`, counted in characters.
pub fn find_last(s: &str, c: char) -> (at: Option<usize>)
    ensures
        match at {
            Some(i) => i + 1 == end_of_last(s@, c),
            None => end_of_last(s@, c) == 0,
        },
{
    let chars = chars_of(s);
    let mut end: usize = chars.len();
    assert(chars@.take(end as int) =~= chars@);
    while end > 0 && chars[end - 1] != c
        invariant
            end <= chars.len(),
            end_of_last(chars@, c) == end_of_last(chars@.take(end as int), c),
        decreases end,
    {
        assert(chars@.take(end as int).drop_last() =~= chars@.take(end - 1));
        end -= 1;
    }
    if end > 0 {
        Some(end - 1)
    } else {
        None
    }
}

/// Whether `c` occurs in `s`.
pub fn contains_char(s: &str, c: char) -> (yes: bool)
    ensures
        yes == s@.contains(c),
{
    proof {
        lemma_first_index(s@, c);
    }
    find(s, c).is_some()
}

/// `s` without the white space at either end.
pub fn trimmed<'a>(s: &'a str) -> (t: &'a str)
    ensures
        t@ == trim(s@),
{
    let chars = chars_of(s);
    let n = chars.len();
    let mut lo: usize = 0;
    assert(chars@.skip(0) =~= chars@);
    while lo < n && is_whitespace(chars[lo])
        invariant
            lo <= n == chars.len(),
            trim_start(chars@) == trim_start(chars@.skip(lo as int)),
        decreases n - lo,
    {
        assert(chars@.skip(lo as int).drop_first() =~= chars@.skip(lo + 1));
        lo += 1;
    }
    assert(chars@.skip(lo as int) =~= chars@.subrange(lo as int, n as int));
    let mut hi: usize = n;
    while hi > lo && is_whitespace(chars[hi - 1])
        invariant
            lo <= hi <= n == chars.len(),
            trim_end(chars@.skip(lo as int)) == trim_end(chars@.subrange(lo as int, hi as int)),
        decreases hi - lo,
    {
        assert(chars@.subrange(lo as int, hi as int).drop_last() =~= chars@.subrange(
            lo as int,
            hi - 1,
        ));
        hi -= 1;
    }
    s.substring_char(lo, hi)
}

/// Whether `prefix` stands in `chars` at the offset `from`.
pub fn prefix_at(chars: &Vec<char>, from: usize, prefix: &Vec<char>) -> (yes: bool)
    requires
        from <= chars.len(),
    ensures
        yes == prefix@.is_prefix_of(chars@.skip(from as int)),
{
    let ghost rest = chars@.skip(from as int);
    if prefix.len() > chars.len() - from {
        return false;
    }
    let mut i: usize = 0;
    while i < prefix.len()
        invariant
            i <= prefix.len() <= chars.len() - from,
            rest == chars@.skip(from as int),
            forall|j: int| 0 <= j < i ==> rest[j] == prefix@[j],
        decreases prefix.len() - i,
    {
        if chars[from + i] != prefix[i] {
            assert(rest[i as int] != prefix@[i as int]);
            return false;
        }
        i += 1;
    }
    assert(prefix@ =~= rest.subrange(0, prefix@.len() as int));
    true
}

/// `s` without the copies of `prefix` that it starts with.
pub fn skip_prefixes<'a>(s: &'a str, prefix: &str) -> (t: &'a str)
    ensures
        t@ == strip_prefixes(s@, prefix@),
{
    let chars = chars_of(s);
    let p = chars_of(prefix);
    let n = chars.len();
    let mut from: usize = 0;
    assert(chars@.skip(0) =~= chars@);
    while p.len() > 0 && prefix_at(&chars, from, &p)
        invariant
            from <= n == chars.len(),
            chars@ == s@,
            p@ == prefix@,
            strip_prefixes(s@, prefix@) == strip_prefixes(chars@.skip(from as int), prefix@),
        decreases n - from,
    {
        assert(chars@.skip(from as int).skip(p@.len() as int) =~= chars@.skip(from + p.len()));
        from += p.len();
    }
    assert(chars@.subrange(from as int, n as int) =~= chars@.skip(from as int));
    s.substring_char(from, n)
}

/// `s` without the run of `c` that it starts with.
pub fn skip_leading<'a>(s: &'a str, c: char) -> (t: &'a str)
    ensures
        t@ == strip_leading(s@, c),
{
    let chars = chars_of(s);
    let n = chars.len();
    let mut from: usize = 0;
    assert(chars@.skip(0) =~= chars@);
    while from < n && chars[from] == c
        invariant
            from <= n == chars.len(),
            strip_leading(chars@, c) == strip_leading(chars@.skip(from as int), c),
        decreases n - from,
    {
        assert(chars@.skip(from as int).drop_first() =~= chars@.skip(from + 1));
        from += 1;
    }
    assert(chars@.subrange(from as int, n as int) =~= chars@.skip(from as int));
    s.substring_char(from, n)
}

/// The trimmed pieces of `s` between the occurrences of `c`.
pub fn split_on<'a>(s: &'a str, c: char) -> (parts: Vec<&'a str>)
    ensures
        views(parts@) == split_trimmed(s@, c),
{
    let chars = chars_of(s);
    let n = chars.len();
    let mut parts: Vec<&'a str> = Vec::new();
    let mut from: usize = 0;
    let mut at = find_from(&chars, 0, c);
    assert(chars@.skip(0) =~= chars@);
    while at < n
        invariant
            from <= at <= n == chars.len(),
            chars@ == s@,
            at - from == first_index(chars@.skip(from as int), c),
            split_trimmed(s@, c) == views(parts@) + split_trimmed(chars@.skip(from as int), c),
        decreases n - from,
    {
        let piece = trimmed(s.substring_char(from, at));
        proof {
            let rest = chars@.skip(from as int);
            let i = at - from;
            assert(rest.take(i) =~= chars@.subrange(from as int, at as int));
            assert(rest.skip(i + 1) =~= chars@.skip(at + 1));
            assert(split_trimmed(rest, c) =~= seq![trim(rest.take(i))] + split_trimmed(
                rest.skip(i + 1),
                c,
            ));
            assert(views(parts@.push(piece)) =~= views(parts@) + seq![piece@]);
        }
        parts.push(piece);
        from = at + 1;
        at = find_from(&chars, from, c);
    }
    let piece = trimmed(s.substring_char(from, n));
    proof {
        let rest = chars@.skip(from as int);
        assert(rest =~= chars@.subrange(from as int, n as int));
        assert(split_trimmed(rest, c) =~= seq![trim(rest)]);
        assert(views(parts@.push(piece)) =~= views(parts@) + seq![piece@]);
    }
    parts.push(piece);
    parts
}

} // verus!
