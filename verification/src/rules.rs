//! The fallback chain: alternatives separated by `?` and `??`, walked from left
//! to right until one of them is accepted.

use crate::separator::{
    get_question_mark_separator, half_width, half_width_char, lemma_half_width_question_mark,
    lemma_half_width_same, question_mark_of, FULL_COLON, FWQM, HALF_COLON, HWQM, NO_SEPARATOR,
};
use crate::system::path_exists;
use crate::text::{
    lemma_split_first, lemma_split_pieces, lemma_split_renamed, lemma_split_whole,
    lemma_split_within, lemma_trim_renamed, lemma_trim_within, split, split_on, split_trimmed,
    trim, views,
};
use core::ops::ControlFlow;
use vstd::prelude::*;

verus! {

/// How a walk over a chain ends, as texts: `Break` holds the value at which
/// it stopped, `Continue` what was held when the alternatives ran out.
pub type Flow = ControlFlow<Option<Seq<char>>, Option<Seq<char>>>;

/// The text of a value that may be absent.
pub open spec fn opt_text(value: Option<String>) -> Option<Seq<char>> {
    match value {
        Some(s) => Some(s@),
        None => None,
    }
}

/// The texts of the end of a walk.
pub open spec fn flow_text(flow: ControlFlow<Option<String>, Option<String>>) -> Flow {
    match flow {
        ControlFlow::Break(value) => ControlFlow::Break(opt_text(value)),
        ControlFlow::Continue(value) => ControlFlow::Continue(opt_text(value)),
    }
}

/// The value that a walk ended with, however it ended.
pub open spec fn flow_value(flow: Flow) -> Option<Seq<char>> {
    match flow {
        ControlFlow::Break(value) => value,
        ControlFlow::Continue(value) => value,
    }
}

/// The answers that a provider may give: `(x, v)` is among them where some
/// call of `lookup` on the text `x` may return a value with the text `v`.
pub open spec fn answers_of<F: Fn(&str) -> Option<String>>(lookup: F) -> spec_fn(
    Seq<char>,
    Option<Seq<char>>,
) -> bool {
    |x: Seq<char>, v: Option<Seq<char>>|
        exists|s: &str, o: Option<String>|
            s@ == x && #[trigger] call_ensures(lookup, (s,), o) && opt_text(o) == v
}

/// The answers that a check of the file system may give: `(p, b)` is among
/// them where some call of `probe` on the path `p` may return `b`.
pub open spec fn checks_of<E: Fn(&str) -> bool>(probe: E) -> spec_fn(Seq<char>, bool) -> bool {
    |path: Seq<char>, there: bool|
        exists|s: &str| s@ == path && #[trigger] call_ensures(probe, (s,), there)
}

/// A file system of which nothing is known: it may answer either way.
pub open spec fn any_disk() -> spec_fn(Seq<char>, bool) -> bool {
    |path: Seq<char>, there: bool| true
}

/// Whether a walk over `segments` that starts out holding `held` may end in
/// `flow`, where `answers(x, v)` says that the provider may answer `v` for the
/// identifier `x`, and `on_disk(p, b)` that the file system may answer `b` for
/// the path `p`.
///
/// | held    | segment   | step                                              |
/// |---------|-----------|---------------------------------------------------|
/// | nothing | empty     | go on, holding nothing                            |
/// | nothing | not empty | look the segment up; go on, holding the answer    |
/// | a value | not empty | stop with the value                               |
/// | a value | empty     | stop with the value if its path exists on disk;   |
/// |         |           | else go on, holding nothing                       |
pub open spec fn chain_flow(
    segments: Seq<Seq<char>>,
    held: Option<Seq<char>>,
    answers: spec_fn(Seq<char>, Option<Seq<char>>) -> bool,
    on_disk: spec_fn(Seq<char>, bool) -> bool,
    flow: Flow,
) -> bool
    decreases segments.len(),
{
    if segments.len() == 0 {
        flow == Flow::Continue(held)
    } else {
        let segment = segments[0];
        let rest = segments.drop_first();
        match held {
            None => {
                if segment.len() == 0 {
                    chain_flow(rest, None, answers, on_disk, flow)
                } else {
                    exists|v: Option<Seq<char>>| #[trigger]
                        answers(segment, v) && chain_flow(rest, v, answers, on_disk, flow)
                }
            },
            Some(path) => {
                if segment.len() > 0 {
                    flow == Flow::Break(held)
                } else {
                    ||| on_disk(path, true) && flow == Flow::Break(held)
                    ||| on_disk(path, false) && chain_flow(rest, None, answers, on_disk, flow)
                }
            },
        }
    }
}

/// How a walk over `segments` that starts out holding `held` ends where the
/// provider answers `lookup(x)` for the identifier `x` and the path `p` is on
/// disk exactly where `present(p)` holds.
pub open spec fn chain_end(
    segments: Seq<Seq<char>>,
    held: Option<Seq<char>>,
    lookup: spec_fn(Seq<char>) -> Option<Seq<char>>,
    present: spec_fn(Seq<char>) -> bool,
) -> Flow
    decreases segments.len(),
{
    if segments.len() == 0 {
        Flow::Continue(held)
    } else {
        let segment = segments[0];
        let rest = segments.drop_first();
        match held {
            None => {
                if segment.len() == 0 {
                    chain_end(rest, None, lookup, present)
                } else {
                    chain_end(rest, lookup(segment), lookup, present)
                }
            },
            Some(path) => {
                if segment.len() > 0 || present(path) {
                    Flow::Break(held)
                } else {
                    chain_end(rest, None, lookup, present)
                }
            },
        }
    }
}

/// The provider that has the one answer `lookup(x)` for each identifier `x`.
pub open spec fn answering(lookup: spec_fn(Seq<char>) -> Option<Seq<char>>) -> spec_fn(
    Seq<char>,
    Option<Seq<char>>,
) -> bool {
    |x: Seq<char>, v: Option<Seq<char>>| v == lookup(x)
}

/// The file system on which the path `p` is on disk exactly where
/// `present(p)` holds.
pub open spec fn holding(present: spec_fn(Seq<char>) -> bool) -> spec_fn(Seq<char>, bool) -> bool {
    |path: Seq<char>, there: bool| there == present(path)
}

/// Whether the chain `chain`, split on `separator`, may resolve to `value`.
pub open spec fn chain_resolves(
    chain: Seq<char>,
    separator: char,
    answers: spec_fn(Seq<char>, Option<Seq<char>>) -> bool,
    on_disk: spec_fn(Seq<char>, bool) -> bool,
    value: Option<Seq<char>>,
) -> bool {
    exists|flow: Flow|
        flow_value(flow) == value && #[trigger] chain_flow(
            split_trimmed(chain, separator),
            None,
            answers,
            on_disk,
            flow,
        )
}

/// Walks the fallback chain `s`, whose alternatives `separator` separates.
/// It asks `lookup` for each alternative that is tried, and `probe` whether
/// the path of a value is on disk where `??` demands that.
///
/// `Break` holds the value at which the walk stopped, `Continue` what was held
/// when the segments ran out.
pub fn parse_dir_rules_with<F: Fn(&str) -> Option<String>, E: Fn(&str) -> bool>(
    s: &str,
    lookup: F,
    separator: char,
    probe: E,
) -> (flow: ControlFlow<Option<String>, Option<String>>)
    requires
        forall|x: &str| call_requires(lookup, (x,)),
        forall|p: &str| call_requires(probe, (p,)),
    ensures
        chain_flow(
            split_trimmed(s@, separator),
            None,
            answers_of(lookup),
            checks_of(probe),
            flow_text(flow),
        ),
{
    let segments = split_on(s, separator);
    let ghost all = split_trimmed(s@, separator);
    let ghost answers = answers_of(lookup);
    let ghost on_disk = checks_of(probe);
    let mut held: Option<String> = None;
    let mut i: usize = 0;
    assert(all.skip(0) =~= all);
    while i < segments.len()
        invariant
            i <= segments.len(),
            views(segments@) == all,
            all == split_trimmed(s@, separator),
            answers == answers_of(lookup),
            on_disk == checks_of(probe),
            forall|x: &str| call_requires(lookup, (x,)),
            forall|p: &str| call_requires(probe, (p,)),
            forall|flow: Flow| #[trigger]
                chain_flow(all.skip(i as int), opt_text(held), answers, on_disk, flow)
                    ==> chain_flow(all, None, answers, on_disk, flow),
        decreases segments.len() - i,
    {
        let segment: &str = segments[i];
        let ghost before = opt_text(held);
        let ghost tail = all.skip(i as int);
        proof {
            assert(all.len() == segments.len());
            assert(tail.len() > 0);
            assert(tail[0] == segment@);
            assert(tail.drop_first() =~= all.skip(i + 1));
        }
        match held {
            None => {
                if segment.is_empty() {
                    held = None;
                } else {
                    let answer = lookup(segment);
                    assert(answers(segment@, opt_text(answer)));
                    held = answer;
                }
            },
            Some(path) => {
                if !segment.is_empty() {
                    assert(chain_flow(tail, before, answers, on_disk, ControlFlow::Break(before)));
                    return ControlFlow::Break(Some(path));
                }
                let there = probe(path.as_str());
                assert(on_disk(path@, there));
                if there {
                    assert(chain_flow(tail, before, answers, on_disk, ControlFlow::Break(before)));
                    return ControlFlow::Break(Some(path));
                }
                held = None;
            },
        }
        proof {
            assert forall|flow: Flow| #[trigger]
                chain_flow(all.skip(i + 1), opt_text(held), answers, on_disk, flow)
                implies chain_flow(all, None, answers, on_disk, flow) by {
                assert(chain_flow(tail, before, answers, on_disk, flow));
            }
        }
        i += 1;
    }
    proof {
        let end = Flow::Continue(opt_text(held));
        assert(all.skip(i as int).len() == 0);
        assert(chain_flow(all.skip(i as int), opt_text(held), answers, on_disk, end));
    }
    ControlFlow::Continue(held)
}

/// Walks the fallback chain `s`, whose alternatives `separator` separates, and
/// asks `lookup` for each alternative that is tried. Where `??` demands that
/// the path of a value is on disk, the file system is asked.
///
/// `Break` holds the value at which the walk stopped, `Continue` what was held
/// when the segments ran out.
pub fn parse_dir_rules<F: Fn(&str) -> Option<String>>(s: &str, lookup: F, separator: char) -> (flow:
    ControlFlow<Option<String>, Option<String>>)
    requires
        forall|x: &str| call_requires(lookup, (x,)),
    ensures
        chain_flow(
            split_trimmed(s@, separator),
            None,
            answers_of(lookup),
            any_disk(),
            flow_text(flow),
        ),
{
    let probe = |path: &str| -> (there: bool) { path_exists(path) };
    let flow = parse_dir_rules_with(s, lookup, separator, probe);
    proof {
        lemma_chain_flow_widens(
            split_trimmed(s@, separator),
            None,
            answers_of(lookup),
            checks_of(probe),
            answers_of(lookup),
            any_disk(),
            flow_text(flow),
        );
    }
    flow
}

/// Whether the chain of alternatives `chain` may resolve to `value`: a chain
/// without a question mark is one identifier, which `direct` answers for; any
/// other chain is walked, and `each` answers for its alternatives.
pub open spec fn handled(
    chain: Seq<char>,
    direct: spec_fn(Seq<char>, Option<Seq<char>>) -> bool,
    each: spec_fn(Seq<char>, Option<Seq<char>>) -> bool,
    value: Option<Seq<char>>,
) -> bool {
    match question_mark_of(chain) {
        Some(mark) => chain_resolves(chain, mark, each, any_disk(), value),
        None => direct(chain, value),
    }
}

/// Resolves a chain of alternatives: a chain without a question mark goes to
/// `direct` as it stands; any other chain is walked with `each`.
pub fn handle_chain<D: Fn(&str) -> Option<String>, F: Fn(&str) -> Option<String>>(
    chain: &str,
    direct: D,
    each: F,
) -> (value: Option<String>)
    requires
        forall|x: &str| call_requires(direct, (x,)),
        forall|x: &str| call_requires(each, (x,)),
    ensures
        handled(chain@, answers_of(direct), answers_of(each), opt_text(value)),
{
    let separator = get_question_mark_separator(chain);
    if separator == NO_SEPARATOR {
        let value = direct(chain);
        assert(answers_of(direct)(chain@, opt_text(value)));
        value
    } else {
        let flow = parse_dir_rules(chain, each, separator);
        match flow {
            ControlFlow::Break(value) => {
                assert(flow_value(flow_text(flow)) == opt_text(value));
                value
            },
            ControlFlow::Continue(value) => {
                assert(flow_value(flow_text(flow)) == opt_text(value));
                value
            },
        }
    }
}

/// What holds of every answer of a provider holds of the answers that
/// `answers_of` collects.
pub proof fn lemma_answers_of<F: Fn(&str) -> Option<String>>(
    lookup: F,
    named: spec_fn(Seq<char>, Option<Seq<char>>) -> bool,
)
    requires
        forall|s: &str, o: Option<String>| #[trigger]
            call_ensures(lookup, (s,), o) ==> named(s@, opt_text(o)),
    ensures
        forall|x: Seq<char>, v: Option<Seq<char>>| #[trigger]
            answers_of(lookup)(x, v) ==> named(x, v),
{
    assert forall|x: Seq<char>, v: Option<Seq<char>>| #[trigger]
        answers_of(lookup)(x, v) implies named(x, v) by {
        let (s, o) = choose|s: &str, o: Option<String>|
            s@ == x && #[trigger] call_ensures(lookup, (s,), o) && opt_text(o) == v;
        assert(named(s@, opt_text(o)));
    }
}

/// A chain that may resolve to `value` may still do so where the providers
/// may answer more.
pub proof fn lemma_handled_widens(
    chain: Seq<char>,
    direct: spec_fn(Seq<char>, Option<Seq<char>>) -> bool,
    each: spec_fn(Seq<char>, Option<Seq<char>>) -> bool,
    more_direct: spec_fn(Seq<char>, Option<Seq<char>>) -> bool,
    more_each: spec_fn(Seq<char>, Option<Seq<char>>) -> bool,
    value: Option<Seq<char>>,
)
    requires
        handled(chain, direct, each, value),
        forall|x: Seq<char>, v: Option<Seq<char>>| #[trigger] direct(x, v) ==> more_direct(x, v),
        forall|x: Seq<char>, v: Option<Seq<char>>| #[trigger] each(x, v) ==> more_each(x, v),
    ensures
        handled(chain, more_direct, more_each, value),
{
    if let Some(mark) = question_mark_of(chain) {
        let flow = choose|flow: Flow|
            flow_value(flow) == value && #[trigger] chain_flow(
                split_trimmed(chain, mark),
                None,
                each,
                any_disk(),
                flow,
            );
        lemma_chain_flow_widens(
            split_trimmed(chain, mark),
            None,
            each,
            any_disk(),
            more_each,
            any_disk(),
            flow,
        );
    }
}

/// A walk that may end in `flow` may still do so where the provider and the
/// file system may answer more.
pub proof fn lemma_chain_flow_widens(
    segments: Seq<Seq<char>>,
    held: Option<Seq<char>>,
    answers: spec_fn(Seq<char>, Option<Seq<char>>) -> bool,
    on_disk: spec_fn(Seq<char>, bool) -> bool,
    more_answers: spec_fn(Seq<char>, Option<Seq<char>>) -> bool,
    more_on_disk: spec_fn(Seq<char>, bool) -> bool,
    flow: Flow,
)
    requires
        chain_flow(segments, held, answers, on_disk, flow),
        forall|x: Seq<char>, v: Option<Seq<char>>| #[trigger]
            answers(x, v) ==> more_answers(x, v),
        forall|p: Seq<char>, b: bool| #[trigger] on_disk(p, b) ==> more_on_disk(p, b),
    ensures
        chain_flow(segments, held, more_answers, more_on_disk, flow),
    decreases segments.len(),
{
    if segments.len() > 0 {
        let segment = segments[0];
        let rest = segments.drop_first();
        match held {
            None => {
                if segment.len() == 0 {
                    lemma_chain_flow_widens(
                        rest,
                        None,
                        answers,
                        on_disk,
                        more_answers,
                        more_on_disk,
                        flow,
                    );
                } else {
                    let v = choose|v: Option<Seq<char>>| #[trigger]
                        answers(segment, v) && chain_flow(rest, v, answers, on_disk, flow);
                    lemma_chain_flow_widens(
                        rest,
                        v,
                        answers,
                        on_disk,
                        more_answers,
                        more_on_disk,
                        flow,
                    );
                    assert(more_answers(segment, v));
                }
            },
            Some(path) => {
                if segment.len() == 0 {
                    if on_disk(path, true) && flow == Flow::Break(held) {
                        assert(more_on_disk(path, true));
                    } else {
                        assert(more_on_disk(path, false));
                        lemma_chain_flow_widens(
                            rest,
                            None,
                            answers,
                            on_disk,
                            more_answers,
                            more_on_disk,
                            flow,
                        );
                    }
                }
            },
        }
    }
}

/// Where the provider has one answer for each identifier and the file system
/// one for each path, a walk has one end: the one that `chain_end` computes.
pub proof fn law_one_end(
    segments: Seq<Seq<char>>,
    held: Option<Seq<char>>,
    lookup: spec_fn(Seq<char>) -> Option<Seq<char>>,
    present: spec_fn(Seq<char>) -> bool,
    flow: Flow,
)
    ensures
        chain_flow(segments, held, answering(lookup), holding(present), flow) <==> flow
            == chain_end(segments, held, lookup, present),
    decreases segments.len(),
{
    let answers = answering(lookup);
    let on_disk = holding(present);
    if segments.len() > 0 {
        let segment = segments[0];
        let rest = segments.drop_first();
        match held {
            None => {
                if segment.len() == 0 {
                    law_one_end(rest, None, lookup, present, flow);
                } else {
                    let answer = lookup(segment);
                    law_one_end(rest, answer, lookup, present, flow);
                    assert(answers(segment, answer));
                    if chain_flow(segments, held, answers, on_disk, flow) {
                        let v = choose|v: Option<Seq<char>>| #[trigger]
                            answers(segment, v) && chain_flow(rest, v, answers, on_disk, flow);
                        assert(v == answer);
                    }
                }
            },
            Some(path) => {
                if segment.len() == 0 {
                    law_one_end(rest, None, lookup, present, flow);
                    assert(on_disk(path, present(path)));
                    assert(!on_disk(path, !present(path)));
                }
            },
        }
    }
}

/// A chain of one alternative resolves to what the provider answers for that
/// alternative, and to nothing else.
pub proof fn law_single_alternative(
    a: Seq<char>,
    separator: char,
    answers: spec_fn(Seq<char>, Option<Seq<char>>) -> bool,
    on_disk: spec_fn(Seq<char>, bool) -> bool,
    value: Option<Seq<char>>,
)
    requires
        !a.contains(separator),
        trim(a).len() > 0,
    ensures
        chain_resolves(a, separator, answers, on_disk, value) <==> answers(trim(a), value),
{
    let segments = split_trimmed(a, separator);
    lemma_split_whole(a, separator);
    assert(segments =~= seq![trim(a)]);
    assert(segments.drop_first() =~= Seq::<Seq<char>>::empty());
    if chain_resolves(a, separator, answers, on_disk, value) {
        let flow = choose|flow: Flow|
            flow_value(flow) == value && #[trigger] chain_flow(
                segments,
                None,
                answers,
                on_disk,
                flow,
            );
        let v = choose|v: Option<Seq<char>>| #[trigger]
            answers(segments[0], v) && chain_flow(
                segments.drop_first(),
                v,
                answers,
                on_disk,
                flow,
            );
        assert(v == value);
    }
    if answers(trim(a), value) {
        let flow = Flow::Continue(value);
        assert(answers(segments[0], value) && chain_flow(
            segments.drop_first(),
            value,
            answers,
            on_disk,
            flow,
        ));
        assert(chain_flow(segments, None, answers, on_disk, flow));
    }
}

/// `a ? b` resolves to what the provider answers for `a` where that is a
/// value, and else to what it answers for `b`. The file system has no say.
pub proof fn law_question(
    a: Seq<char>,
    b: Seq<char>,
    separator: char,
    answers: spec_fn(Seq<char>, Option<Seq<char>>) -> bool,
    on_disk: spec_fn(Seq<char>, bool) -> bool,
    value: Option<Seq<char>>,
)
    requires
        !a.contains(separator),
        !b.contains(separator),
        trim(a).len() > 0,
        trim(b).len() > 0,
    ensures
        chain_resolves(a + seq![separator] + b, separator, answers, on_disk, value) <==> exists|
            first: Option<Seq<char>>,
        | #[trigger]
            answers(trim(a), first) && if first is Some {
                value == first
            } else {
                answers(trim(b), value)
            },
{
    let chain = a + seq![separator] + b;
    let segments = split_trimmed(chain, separator);
    lemma_split_first(a, separator, b);
    lemma_split_whole(b, separator);
    assert(segments =~= seq![trim(a), trim(b)]);
    let rest = segments.drop_first();
    assert(rest =~= seq![trim(b)]);
    assert(rest.drop_first() =~= Seq::<Seq<char>>::empty());
    if chain_resolves(chain, separator, answers, on_disk, value) {
        let flow = choose|flow: Flow|
            flow_value(flow) == value && #[trigger] chain_flow(
                segments,
                None,
                answers,
                on_disk,
                flow,
            );
        let first = choose|v: Option<Seq<char>>| #[trigger]
            answers(segments[0], v) && chain_flow(rest, v, answers, on_disk, flow);
        if first is None {
            let second = choose|v: Option<Seq<char>>| #[trigger]
                answers(rest[0], v) && chain_flow(rest.drop_first(), v, answers, on_disk, flow);
            assert(second == value);
        }
        assert(answers(trim(a), first));
    }
    if exists|first: Option<Seq<char>>| #[trigger]
        answers(trim(a), first) && if first is Some {
            value == first
        } else {
            answers(trim(b), value)
        } {
        let first = choose|first: Option<Seq<char>>| #[trigger]
            answers(trim(a), first) && if first is Some {
                value == first
            } else {
                answers(trim(b), value)
            };
        let flow = if first is Some {
            Flow::Break(value)
        } else {
            Flow::Continue(value)
        };
        if first is None {
            assert(answers(rest[0], value) && chain_flow(
                rest.drop_first(),
                value,
                answers,
                on_disk,
                flow,
            ));
        }
        assert(chain_flow(rest, first, answers, on_disk, flow));
        assert(answers(segments[0], first) && chain_flow(rest, first, answers, on_disk, flow));
        assert(chain_flow(segments, None, answers, on_disk, flow));
    }
}

/// `a ?? b` resolves to what the provider answers for `a` only where that is a
/// value whose path exists on disk, and else to what it answers for `b`.
pub proof fn law_double_question(
    a: Seq<char>,
    b: Seq<char>,
    separator: char,
    answers: spec_fn(Seq<char>, Option<Seq<char>>) -> bool,
    on_disk: spec_fn(Seq<char>, bool) -> bool,
    value: Option<Seq<char>>,
)
    requires
        !a.contains(separator),
        !b.contains(separator),
        trim(a).len() > 0,
        trim(b).len() > 0,
    ensures
        chain_resolves(a + seq![separator, separator] + b, separator, answers, on_disk, value)
            <==> exists|first: Option<Seq<char>>| #[trigger]
            answers(trim(a), first) && match first {
                Some(path) => {
                    ||| on_disk(path, true) && value == first
                    ||| on_disk(path, false) && answers(trim(b), value)
                },
                None => answers(trim(b), value),
            },
{
    let chain = a + seq![separator, separator] + b;
    let segments = split_trimmed(chain, separator);
    let empty = Seq::<char>::empty();
    assert(chain =~= a + seq![separator] + (empty + seq![separator] + b));
    lemma_split_first(a, separator, empty + seq![separator] + b);
    lemma_split_first(empty, separator, b);
    lemma_split_whole(b, separator);
    assert(trim(empty) =~= empty);
    assert(segments =~= seq![trim(a), empty, trim(b)]);
    let rest = segments.drop_first();
    assert(rest =~= seq![empty, trim(b)]);
    let last = rest.drop_first();
    assert(last =~= seq![trim(b)]);
    assert(last.drop_first() =~= Seq::<Seq<char>>::empty());
    if chain_resolves(chain, separator, answers, on_disk, value) {
        let flow = choose|flow: Flow|
            flow_value(flow) == value && #[trigger] chain_flow(
                segments,
                None,
                answers,
                on_disk,
                flow,
            );
        let first = choose|v: Option<Seq<char>>| #[trigger]
            answers(segments[0], v) && chain_flow(rest, v, answers, on_disk, flow);
        assert(answers(trim(a), first));
        if chain_flow(last, None, answers, on_disk, flow) {
            let second = choose|v: Option<Seq<char>>| #[trigger]
                answers(last[0], v) && chain_flow(last.drop_first(), v, answers, on_disk, flow);
            assert(second == value);
        }
    }
    if exists|first: Option<Seq<char>>| #[trigger]
        answers(trim(a), first) && match first {
            Some(path) => {
                ||| on_disk(path, true) && value == first
                ||| on_disk(path, false) && answers(trim(b), value)
            },
            None => answers(trim(b), value),
        } {
        let first = choose|first: Option<Seq<char>>| #[trigger]
            answers(trim(a), first) && match first {
                Some(path) => {
                    ||| on_disk(path, true) && value == first
                    ||| on_disk(path, false) && answers(trim(b), value)
                },
                None => answers(trim(b), value),
            };
        let stops = first is Some && on_disk(first->0, true) && value == first;
        let flow = if stops {
            Flow::Break(value)
        } else {
            Flow::Continue(value)
        };
        if !stops {
            assert(answers(last[0], value) && chain_flow(
                last.drop_first(),
                value,
                answers,
                on_disk,
                flow,
            ));
            assert(chain_flow(last, None, answers, on_disk, flow));
        }
        assert(chain_flow(rest, first, answers, on_disk, flow));
        assert(answers(segments[0], first) && chain_flow(rest, first, answers, on_disk, flow));
        assert(chain_flow(segments, None, answers, on_disk, flow));
    }
}

/// A chain that is written with full-width question marks splits into the
/// alternatives of the same chain written with half-width ones.
pub proof fn lemma_full_width_alternatives(chain: Seq<char>)
    requires
        !chain.contains(HWQM),
        !chain.contains(FULL_COLON),
    ensures
        split_trimmed(half_width(chain), HWQM) == split_trimmed(chain, FWQM),
{
    let rename = |c: char| half_width_char(c);
    assert forall|i: int| 0 <= i < chain.len() implies (rename(#[trigger] chain[i]) == HWQM
        <==> chain[i] == FWQM) by {
        if chain[i] == HWQM {
            assert(chain.contains(HWQM));
        }
    }
    lemma_split_renamed(chain, rename, FWQM, HWQM);
    lemma_split_pieces(chain, FWQM);
    lemma_split_within(chain, FWQM, FULL_COLON);
    let pieces = split(chain, FWQM);
    assert forall|k: int| 0 <= k < pieces.len() implies (#[trigger] pieces[k]).map_values(rename)
        == pieces[k] by {
        lemma_half_width_same(pieces[k]);
    }
    assert(split(half_width(chain), HWQM) =~= pieces);
}

/// The alternatives of the half-width form of a chain that is written in
/// full width are the half-width forms of its alternatives, none of which
/// holds a question mark or a half-width colon.
pub proof fn lemma_half_width_alternatives(chain: Seq<char>)
    requires
        !chain.contains(HWQM),
        !chain.contains(HALF_COLON),
    ensures
        split_trimmed(half_width(chain), HWQM) == split_trimmed(chain, FWQM).map_values(
            |x: Seq<char>| half_width(x),
        ),
        forall|k: int|
            0 <= k < split_trimmed(chain, FWQM).len() ==> {
                let x = #[trigger] split_trimmed(chain, FWQM)[k];
                !x.contains(FWQM) && !x.contains(HWQM) && !x.contains(HALF_COLON)
            },
{
    let rename = |c: char| half_width_char(c);
    assert forall|i: int| 0 <= i < chain.len() implies (rename(#[trigger] chain[i]) == HWQM
        <==> chain[i] == FWQM) by {
        if chain[i] == HWQM {
            assert(chain.contains(HWQM));
        }
    }
    lemma_split_renamed(chain, rename, FWQM, HWQM);
    lemma_split_pieces(chain, FWQM);
    lemma_split_within(chain, FWQM, HWQM);
    lemma_split_within(chain, FWQM, HALF_COLON);
    let pieces = split(chain, FWQM);
    let segments = split_trimmed(chain, FWQM);
    assert forall|k: int| 0 <= k < pieces.len() implies trim(
        (#[trigger] pieces[k]).map_values(rename),
    ) == half_width(trim(pieces[k])) by {
        lemma_trim_renamed(pieces[k], rename);
        assert(trim(pieces[k]).map_values(rename) =~= half_width(trim(pieces[k])));
    }
    assert(split_trimmed(half_width(chain), HWQM) =~= segments.map_values(
        |x: Seq<char>| half_width(x),
    )) by {
        assert(half_width(chain) =~= chain.map_values(rename));
    }
    assert forall|k: int| 0 <= k < segments.len() implies {
        let x = #[trigger] segments[k];
        !x.contains(FWQM) && !x.contains(HWQM) && !x.contains(HALF_COLON)
    } by {
        lemma_trim_within(pieces[k], FWQM);
        lemma_trim_within(pieces[k], HWQM);
        lemma_trim_within(pieces[k], HALF_COLON);
    }
}

/// A chain that is written with full-width question marks resolves as the
/// same chain written with half-width ones.
pub proof fn law_full_width_question_marks(
    chain: Seq<char>,
    direct: spec_fn(Seq<char>, Option<Seq<char>>) -> bool,
    each: spec_fn(Seq<char>, Option<Seq<char>>) -> bool,
    value: Option<Seq<char>>,
)
    requires
        !chain.contains(HWQM),
        !chain.contains(FULL_COLON),
    ensures
        handled(half_width(chain), direct, each, value) <==> handled(chain, direct, each, value),
{
    lemma_half_width_question_mark(chain);
    match question_mark_of(chain) {
        Some(mark) => {
            lemma_full_width_alternatives(chain);
        },
        None => {
            crate::separator::lemma_detected(chain, HWQM, FWQM);
            lemma_half_width_same(chain);
        },
    }
}

} // verus!
