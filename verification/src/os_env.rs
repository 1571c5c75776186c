//! The namespace `$env`: the variables of the environment.

use crate::host::Host;
use crate::remix::{
    is_remix, parse_remix_expr, remix_ident, remix_yields, starts_with_remix_expr, tag_of, Tag,
};
use crate::rules::{
    answers_of, handle_chain, handled, lemma_answers_of, lemma_handled_widens, opt_text,
};
use crate::separator::{
    detect, half_width, lemma_detected, lemma_half_width_question_mark, question_mark_of,
    FULL_COLON, FWQM, HWQM,
};
use crate::text::{
    ascii_upper, chars_of, find_from, first_index, is_space, lemma_first_index,
    lemma_first_index_is, lemma_split_first, lemma_split_whole, lemma_trim_end,
    lemma_trim_renamed, lemma_trim_start, split, split_trimmed, strip_leading, strip_prefixes,
    to_ascii_upper, trim, trim_end, trim_start,
};
use vstd::prelude::*;

verus! {

/// Whether an alternative of an `$env` chain may resolve to `value`: a remix
/// expression goes where it points, and any other text names a variable.
pub open spec fn env_yields(ident: Seq<char>, host: Host, value: Option<Seq<char>>) -> bool {
    if is_remix(ident) {
        remix_yields(ident, host, value)
    } else {
        value == host.var(ident)
    }
}

/// The value of the environment variable `x`, whose name is taken as it
/// stands.
pub fn into_os_env(x: &str, host: &Host) -> (value: Option<String>)
    ensures
        opt_text(value) == host.var(x@),
{
    host.get_var(x)
}

/// Resolves one alternative of an `$env` chain.
pub fn match_os_env(ident: &str, host: &Host) -> (value: Option<String>)
    ensures
        env_yields(ident@, *host, opt_text(value)),
{
    if starts_with_remix_expr(ident) {
        parse_remix_expr(ident, host)
    } else {
        into_os_env(ident, host)
    }
}

/// What the alternatives of an `$env` chain may resolve to on `host`.
pub open spec fn env_answers(host: Host) -> spec_fn(Seq<char>, Option<Seq<char>>) -> bool {
    |ident: Seq<char>, value: Option<Seq<char>>| env_yields(ident, host, value)
}

/// A character of a name as the environment spells it: letters in upper
/// case, and `_` for `-`.
pub open spec fn env_char(c: char) -> char {
    if c == '-' {
        '_'
    } else {
        ascii_upper(c)
    }
}

/// An alternative of an `$env` chain as it is looked up: spelled the way the
/// environment spells names, unless it holds a `*`, which leaves it as it
/// stands.
pub open spec fn env_ident(ident: Seq<char>) -> Seq<char> {
    if ident.contains('*') {
        ident
    } else {
        ident.map_values(|c: char| env_char(c))
    }
}

/// The chain `chain` with each of the pieces that `mark` separates spelled as
/// `env_ident` spells it.
pub open spec fn env_fold(chain: Seq<char>, mark: char) -> Seq<char>
    decreases chain.len(),
{
    let i = first_index(chain, mark);
    if 0 <= i < chain.len() {
        env_ident(chain.take(i)) + seq![mark] + env_fold(chain.skip(i + 1), mark)
    } else {
        env_ident(chain)
    }
}

/// The chain of an `$env` expression as it is resolved: each alternative is
/// spelled on its own, so that a `*` in one of them leaves the others to be
/// spelled the way the environment spells names.
pub open spec fn env_chain(chain: Seq<char>) -> Seq<char> {
    match question_mark_of(chain) {
        Some(mark) => env_fold(chain, mark),
        None => env_ident(chain),
    }
}

/// Whether `mark` is a character that the environment's spelling neither
/// changes nor makes.
pub open spec fn kept_by_env(mark: char) -> bool {
    forall|c: char| #[trigger] env_char(c) == mark <==> c == mark
}

/// Appends to `spelled` the piece `chars[from..to]` of an `$env` chain as
/// `env_ident` spells it.
fn push_env_ident(spelled: &mut String, chars: &Vec<char>, from: usize, to: usize)
    requires
        from <= to <= chars.len(),
    ensures
        final(spelled)@ == old(spelled)@ + env_ident(chars@.subrange(from as int, to as int)),
{
    let ghost piece = chars@.subrange(from as int, to as int);
    let ghost before = spelled@;
    let star = find_from(chars, from, '*');
    proof {
        lemma_first_index(chars@.skip(from as int), '*');
        let rest = chars@.skip(from as int);
        if star < to {
            assert(piece[star - from] == '*');
        } else {
            if piece.contains('*') {
                let j = choose|j: int| 0 <= j < piece.len() && piece[j] == '*';
                assert(rest[j] == '*');
            }
        }
    }
    let verbatim = star < to;
    let mut i: usize = from;
    assert(piece.take(0) =~= Seq::<char>::empty());
    while i < to
        invariant
            from <= i <= to <= chars.len(),
            piece == chars@.subrange(from as int, to as int),
            verbatim == piece.contains('*'),
            spelled@ == before + if verbatim {
                piece.take(i - from)
            } else {
                piece.take(i - from).map_values(|c: char| env_char(c))
            },
        decreases to - i,
    {
        let c = chars[i];
        let spelt = if verbatim {
            c
        } else if c == '-' {
            '_'
        } else {
            to_ascii_upper(c)
        };
        spelled.push(spelt);
        proof {
            let k = i - from;
            assert(piece[k] == c);
            assert(piece.take(k + 1) =~= piece.take(k).push(c));
            assert(piece.take(k + 1).map_values(|c: char| env_char(c)) =~= piece.take(
                k,
            ).map_values(|c: char| env_char(c)).push(env_char(c)));
        }
        i += 1;
    }
    assert(piece.take(to - from) =~= piece);
}

/// Spells the chain of an `$env` expression the way the environment spells
/// names: letters in upper case and `_` for `-`. Each alternative is spelled
/// on its own, and one that holds a `*` stays as it stands.
pub fn normalize_env_chain(chain: &str) -> (spelled: String)
    ensures
        spelled@ == env_chain(chain@),
{
    let chars = chars_of(chain);
    let n = chars.len();
    let mut spelled = String::new();
    let mark = match detect(chain, HWQM, FWQM) {
        Some(mark) => mark,
        None => {
            push_env_ident(&mut spelled, &chars, 0, n);
            assert(chars@.subrange(0, n as int) =~= chars@);
            assert(spelled@ =~= env_ident(chain@));
            return spelled;
        },
    };
    let mut from: usize = 0;
    let mut at = find_from(&chars, 0, mark);
    assert(chars@.skip(0) =~= chars@);
    assert(spelled@ + env_fold(chars@, mark) =~= env_fold(chars@, mark));
    while at < n
        invariant
            from <= at <= n == chars.len(),
            chars@ == chain@,
            at - from == first_index(chars@.skip(from as int), mark),
            env_fold(chain@, mark) == spelled@ + env_fold(chars@.skip(from as int), mark),
        decreases n - from,
    {
        let ghost rest = chars@.skip(from as int);
        let ghost done = spelled@;
        push_env_ident(&mut spelled, &chars, from, at);
        spelled.push(mark);
        proof {
            let i = at - from;
            assert(rest.take(i) =~= chars@.subrange(from as int, at as int));
            assert(rest.skip(i + 1) =~= chars@.skip(at + 1));
            assert(spelled@ + env_fold(chars@.skip(at + 1), mark) =~= done + env_fold(rest, mark));
        }
        from = at + 1;
        at = find_from(&chars, from, mark);
    }
    let ghost rest = chars@.skip(from as int);
    let ghost done = spelled@;
    push_env_ident(&mut spelled, &chars, from, n);
    proof {
        assert(rest =~= chars@.subrange(from as int, n as int));
        assert(spelled@ =~= done + env_fold(rest, mark));
    }
    spelled
}

/// Resolves the chain of an `$env` expression, whose alternatives are
/// variables or remix expressions; a chain without a question mark is one
/// alternative.
pub fn handle_envs(ident: &str, host: &Host) -> (value: Option<String>)
    ensures
        handled(ident@, env_answers(*host), env_answers(*host), opt_text(value)),
{
    let direct = |x: &str| -> (v: Option<String>)
        ensures
            env_yields(x@, *host, opt_text(v)),
        { match_os_env(x, host) };
    let each = |x: &str| -> (v: Option<String>)
        ensures
            env_yields(x@, *host, opt_text(v)),
        { match_os_env(x, host) };
    let value = handle_chain(ident, direct, each);
    proof {
        lemma_answers_of(direct, env_answers(*host));
        lemma_answers_of(each, env_answers(*host));
        lemma_handled_widens(
            ident@,
            answers_of(direct),
            answers_of(each),
            env_answers(*host),
            env_answers(*host),
            opt_text(value),
        );
    }
    value
}

/// Two texts that hold `c` at the same places hold their first `c` at the
/// same place.
pub proof fn lemma_first_index_same(s: Seq<char>, t: Seq<char>, c: char)
    requires
        s.len() == t.len(),
        forall|i: int| 0 <= i < s.len() ==> (#[trigger] s[i] == c <==> t[i] == c),
    ensures
        first_index(s, c) == first_index(t, c),
        s.contains(c) <==> t.contains(c),
{
    lemma_first_index(s, c);
    lemma_first_index(t, c);
    let i = first_index(s, c);
    assert forall|j: int| 0 <= j < i implies t[j] != c by {
        assert(s[j] != c);
    }
    lemma_first_index_is(t, c, i);
}

/// The environment's spelling changes a text character by character.
pub proof fn lemma_env_ident(ident: Seq<char>)
    ensures
        env_ident(ident).len() == ident.len(),
        forall|i: int|
            0 <= i < ident.len() ==> (#[trigger] env_ident(ident)[i] == ident[i] || env_ident(
                ident,
            )[i] == env_char(ident[i])),
{
}

/// Spelling a chain piece by piece changes it character by character.
pub proof fn lemma_env_fold(chain: Seq<char>, mark: char)
    ensures
        env_fold(chain, mark).len() == chain.len(),
        forall|i: int|
            0 <= i < chain.len() ==> (#[trigger] env_fold(chain, mark)[i] == chain[i] || env_fold(
                chain,
                mark,
            )[i] == env_char(chain[i])),
    decreases chain.len(),
{
    let k = first_index(chain, mark);
    lemma_first_index(chain, mark);
    if 0 <= k < chain.len() {
        let head = chain.take(k);
        let tail = chain.skip(k + 1);
        lemma_env_ident(head);
        lemma_env_fold(tail, mark);
        let folded = env_fold(chain, mark);
        assert forall|i: int| 0 <= i < chain.len() implies (#[trigger] folded[i] == chain[i]
            || folded[i] == env_char(chain[i])) by {
            if i < k {
                assert(folded[i] == env_ident(head)[i]);
                assert(head[i] == chain[i]);
            } else if i == k {
                assert(folded[i] == mark);
            } else {
                assert(folded[i] == env_fold(tail, mark)[i - k - 1]);
                assert(tail[i - k - 1] == chain[i]);
            }
        }
    } else {
        lemma_env_ident(chain);
    }
}

/// Spelling a chain the way the environment spells names keeps every
/// character that this spelling neither changes nor makes where it is.
pub proof fn lemma_env_chain_keeps(chain: Seq<char>, mark: char)
    requires
        kept_by_env(mark),
    ensures
        env_chain(chain).len() == chain.len(),
        forall|i: int|
            0 <= i < chain.len() ==> (#[trigger] env_chain(chain)[i] == mark <==> chain[i]
                == mark),
        first_index(env_chain(chain), mark) == first_index(chain, mark),
        env_chain(chain).contains(mark) <==> chain.contains(mark),
{
    match question_mark_of(chain) {
        Some(m) => lemma_env_fold(chain, m),
        None => lemma_env_ident(chain),
    }
    let spelled = env_chain(chain);
    assert forall|i: int| 0 <= i < chain.len() implies (#[trigger] spelled[i] == mark <==> chain[i]
        == mark) by {
        assert(env_char(chain[i]) == mark <==> chain[i] == mark);
    }
    lemma_first_index_same(spelled, chain, mark);
}

/// The separators and the star are kept by the environment's spelling.
pub proof fn lemma_kept_by_env()
    ensures
        kept_by_env(HWQM),
        kept_by_env(FWQM),
        kept_by_env(FULL_COLON),
        kept_by_env('*'),
{
}

/// Spelling a chain the way the environment spells names moves no question
/// mark and makes none.
pub proof fn lemma_env_chain_question_marks(chain: Seq<char>)
    ensures
        question_mark_of(env_chain(chain)) == question_mark_of(chain),
{
    lemma_kept_by_env();
    lemma_env_chain_keeps(chain, HWQM);
    lemma_env_chain_keeps(chain, FWQM);
}

/// An alternative is spelled the same whether it is trimmed before or after.
pub proof fn lemma_env_ident_trimmed(ident: Seq<char>)
    ensures
        trim(env_ident(ident)) == env_ident(trim(ident)),
{
    let rename = |c: char| env_char(c);
    lemma_trim_start(ident);
    let t = trim_start(ident);
    lemma_trim_end(t);
    let u = trim(ident);
    assert(u.contains('*') <==> ident.contains('*')) by {
        if u.contains('*') {
            let j = choose|j: int| 0 <= j < u.len() && u[j] == '*';
            assert(t[j] == '*');
            assert(ident[j + (ident.len() - t.len())] == '*');
        }
        if ident.contains('*') {
            let j = choose|j: int| 0 <= j < ident.len() && ident[j] == '*';
            let k = ident.len() - t.len();
            assert(j >= k);
            assert(t[j - k] == '*');
            assert(j - k < u.len());
            assert(u[j - k] == '*');
        }
    }
    if !ident.contains('*') {
        lemma_trim_renamed(ident, rename);
    }
}

/// A chain that is spelled piece by piece splits into the pieces of the
/// chain, each spelled on its own.
pub proof fn lemma_env_fold_split(chain: Seq<char>, mark: char)
    requires
        kept_by_env(mark),
    ensures
        split(env_fold(chain, mark), mark) == split(chain, mark).map_values(
            |piece: Seq<char>| env_ident(piece),
        ),
    decreases chain.len(),
{
    let each = |piece: Seq<char>| env_ident(piece);
    let k = first_index(chain, mark);
    lemma_first_index(chain, mark);
    if 0 <= k < chain.len() {
        let head = chain.take(k);
        let tail = chain.skip(k + 1);
        lemma_env_fold_split(tail, mark);
        lemma_env_ident(head);
        assert(!env_ident(head).contains(mark)) by {
            if env_ident(head).contains(mark) {
                let j = choose|j: int| 0 <= j < head.len() && env_ident(head)[j] == mark;
                assert(env_char(head[j]) == mark <==> head[j] == mark);
                assert(chain[j] == mark);
            }
        }
        lemma_split_first(env_ident(head), mark, env_fold(tail, mark));
        assert(split(chain, mark).map_values(each) =~= seq![each(head)] + split(
            tail,
            mark,
        ).map_values(each));
    } else {
        lemma_env_ident(chain);
        assert(!env_ident(chain).contains(mark)) by {
            if env_ident(chain).contains(mark) {
                let j = choose|j: int| 0 <= j < chain.len() && env_ident(chain)[j] == mark;
                assert(env_char(chain[j]) == mark <==> chain[j] == mark);
            }
        }
        lemma_split_whole(env_ident(chain), mark);
        assert(split(chain, mark).map_values(each) =~= seq![each(chain)]);
    }
}

/// Each alternative of an `$env` chain is spelled on its own: the
/// alternatives of the chain as it is resolved are those of the chain as it
/// was written, each in the environment's spelling unless it holds a `*`.
pub proof fn law_env_spells_each_alternative(chain: Seq<char>)
    ensures
        question_mark_of(env_chain(chain)) == question_mark_of(chain),
        question_mark_of(chain) matches Some(mark) ==> split_trimmed(env_chain(chain), mark)
            == split_trimmed(chain, mark).map_values(|ident: Seq<char>| env_ident(ident)),
{
    lemma_env_chain_question_marks(chain);
    if let Some(mark) = question_mark_of(chain) {
        lemma_detected(chain, HWQM, FWQM);
        lemma_kept_by_env();
        lemma_env_fold_split(chain, mark);
        let pieces = split(chain, mark);
        assert forall|k: int| 0 <= k < pieces.len() implies trim(env_ident(#[trigger] pieces[k]))
            == env_ident(trim(pieces[k])) by {
            lemma_env_ident_trimmed(pieces[k]);
        }
        assert(split_trimmed(env_chain(chain), mark) =~= split_trimmed(chain, mark).map_values(
            |ident: Seq<char>| env_ident(ident),
        ));
    }
}

/// The environment's spelling can be given to a chain before or after the
/// chain is put into its half-width form.
pub proof fn lemma_env_ident_half_width(ident: Seq<char>)
    ensures
        env_ident(half_width(ident)) == half_width(env_ident(ident)),
{
    let half = half_width(ident);
    assert(half.contains('*') <==> ident.contains('*')) by {
        if half.contains('*') {
            let j = choose|j: int| 0 <= j < half.len() && half[j] == '*';
            assert(ident[j] == '*');
        }
        if ident.contains('*') {
            let j = choose|j: int| 0 <= j < ident.len() && ident[j] == '*';
            assert(half[j] == '*');
        }
    }
    if !ident.contains('*') {
        assert(half.map_values(|c: char| env_char(c)) =~= half_width(
            ident.map_values(|c: char| env_char(c)),
        ));
    }
}

/// Spelling piece by piece commutes with the half-width form of a chain that
/// is written with full-width question marks alone.
proof fn lemma_env_fold_half_width(chain: Seq<char>)
    requires
        !chain.contains(HWQM),
    ensures
        env_fold(half_width(chain), HWQM) == half_width(env_fold(chain, FWQM)),
    decreases chain.len(),
{
    let half = half_width(chain);
    lemma_half_width_question_mark(chain);
    lemma_first_index(chain, FWQM);
    let k = first_index(chain, FWQM);
    if 0 <= k < chain.len() {
        let head = chain.take(k);
        let tail = chain.skip(k + 1);
        assert(!tail.contains(HWQM)) by {
            if tail.contains(HWQM) {
                let j = choose|j: int| 0 <= j < tail.len() && tail[j] == HWQM;
                assert(chain[j + k + 1] == HWQM);
            }
        }
        lemma_env_fold_half_width(tail);
        lemma_env_ident_half_width(head);
        assert(half.take(k) =~= half_width(head));
        assert(half.skip(k + 1) =~= half_width(tail));
        assert(half_width(env_ident(head) + seq![FWQM] + env_fold(tail, FWQM)) =~= half_width(
            env_ident(head),
        ) + seq![HWQM] + half_width(env_fold(tail, FWQM)));
    } else {
        lemma_env_ident_half_width(chain);
    }
}

/// Spelling a chain the way the environment spells names brings in no
/// half-width question mark and no full-width colon, and it can be done before
/// or after the chain is put into its half-width form.
pub proof fn lemma_env_chain_half_width(chain: Seq<char>)
    requires
        !chain.contains(HWQM),
    ensures
        !env_chain(chain).contains(HWQM),
        env_chain(chain).contains(FULL_COLON) <==> chain.contains(FULL_COLON),
        env_chain(half_width(chain)) == half_width(env_chain(chain)),
{
    lemma_kept_by_env();
    lemma_env_chain_keeps(chain, HWQM);
    lemma_env_chain_keeps(chain, FULL_COLON);
    lemma_half_width_question_mark(chain);
    match question_mark_of(chain) {
        Some(mark) => {
            lemma_env_fold_half_width(chain);
        },
        None => {
            lemma_env_ident_half_width(chain);
        },
    }
}

/// The remix expression `env * NAME` resolves to the value of the variable
/// `NAME`, whose name is taken as it stands: no letter of it is changed.
pub proof fn law_remix_env_verbatim(name: Seq<char>, host: Host, value: Option<Seq<char>>)
    requires
        name.len() > 0,
        !is_space(name[0]),
        !is_space(name.last()),
        name[0] != '*',
    ensures
        is_remix("env"@ + seq![' ', '*', ' '] + name),
        remix_yields("env"@ + seq![' ', '*', ' '] + name, host, value) <==> value == host.var(
            name,
        ),
        env_yields("env"@ + seq![' ', '*', ' '] + name, host, value) <==> value == host.var(name),
{
    reveal_strlit("env");
    let word = "env"@;
    let x = word + seq![' ', '*', ' '] + name;
    assert(word =~= seq!['e', 'n', 'v']);
    assert(word =~= x.subrange(0, 3));
    assert(tag_of(x) == Some(Tag::Env));
    assert(x[4] == '*');
    lemma_first_index_is(x, '*', 4);
    assert(word =~= x.take(4).subrange(0, 3));
    assert(tag_of(x.take(4)) == Some(Tag::Env));
    let spaced = seq![' ', '*', ' '] + name;
    assert(x.skip(3) =~= spaced);
    assert(spaced[0] == ' ');
    assert(!word.is_prefix_of(spaced)) by {
        if word.is_prefix_of(spaced) {
            assert(spaced.subrange(0, 3)[0] == 'e');
        }
    }
    assert(strip_prefixes(spaced, word) == spaced);
    assert(strip_prefixes(x, word) == spaced);
    let starred = seq!['*', ' '] + name;
    assert(spaced.drop_first() =~= starred);
    assert(trim_start(starred) == starred);
    assert(trim_start(spaced) == starred);
    assert(starred.last() == name.last());
    assert(trim_end(starred) == starred);
    assert(trim(spaced) == starred);
    let tail = seq![' '] + name;
    assert(starred.drop_first() =~= tail);
    assert(strip_leading(tail, '*') == tail);
    assert(strip_leading(starred, '*') == tail);
    assert(tail.drop_first() =~= name);
    assert(trim_start(name) == name);
    assert(trim_start(tail) == name);
    assert(trim_end(name) == name);
    assert(trim(tail) == name);
    assert(remix_ident(x, Tag::Env) == Some(name));
}

/// An `$env` expression whose chain is the one remix expression `env * NAME`
/// resolves to the value of the variable `NAME` as it stands: a remix is
/// honoured in a chain of one alternative as in any other.
pub proof fn law_env_remix_alone(name: Seq<char>, host: Host, value: Option<Seq<char>>)
    requires
        name.len() > 0,
        !is_space(name[0]),
        !is_space(name.last()),
        name[0] != '*',
        !name.contains(HWQM),
        !name.contains(FWQM),
    ensures
        handled(
            env_chain("env"@ + seq![' ', '*', ' '] + name),
            env_answers(host),
            env_answers(host),
            value,
        ) <==> value == host.var(name),
{
    reveal_strlit("env");
    let x = "env"@ + seq![' ', '*', ' '] + name;
    law_remix_env_verbatim(name, host, value);
    assert(x[4] == '*');
    assert(x.contains('*'));
    assert forall|mark: char| mark == HWQM || mark == FWQM implies !x.contains(mark) by {
        if x.contains(mark) {
            let j = choose|j: int| 0 <= j < x.len() && x[j] == mark;
            if j >= 6 {
                assert(name[j - 6] == mark);
            }
        }
    }
    lemma_first_index(x, HWQM);
    lemma_first_index(x, FWQM);
    assert(question_mark_of(x) is None);
    assert(env_chain(x) == x);
}

/// An `$env` expression of one name resolves to the value of the variable of
/// that name as the environment spells it: with its letters in upper case and
/// `_` for `-`.
pub proof fn law_env_spells_names(chain: Seq<char>, host: Host, value: Option<Seq<char>>)
    requires
        question_mark_of(chain) is None,
        !chain.contains('*'),
    ensures
        handled(env_chain(chain), env_answers(host), env_answers(host), value) <==> value
            == host.var(chain.map_values(|c: char| env_char(c))),
{
    lemma_env_chain_question_marks(chain);
    lemma_kept_by_env();
    lemma_env_chain_keeps(chain, '*');
    lemma_first_index(env_chain(chain), '*');
}

} // verus!
