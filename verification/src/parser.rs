//! The path assembler: every component of a raw sequence is resolved, and
//! the results are joined into one path.

use crate::base_dirs::handle_dirs;
use crate::chunks::{chunks, get_chunks, law_full_width_colon, lemma_chunks};
use crate::consts::handle_consts;
use crate::envpath_core::EnvPath;
use crate::host::Host;
use crate::os_env::{
    env_answers, env_chain, handle_envs, lemma_env_chain_half_width,
    lemma_env_chain_question_marks, law_env_spells_names, normalize_env_chain, env_char,
    env_yields,
};
use crate::project::{
    colons_behind_group, handle_project_dirs, law_full_width_project_chain,
    law_full_width_project_groups, project_answers, project_handled, project_label,
    project_name,
};
use crate::raw::EnvPathRaw;
use crate::remix::{namespace_answers, project_yields_either, yields, Tag};
use crate::rules::{any_disk, handled, law_full_width_question_marks, opt_text};
use crate::separator::{
    colon_of, half_width, half_width_char, lemma_detected, lemma_half_width_question_mark,
    lemma_half_width_same, question_mark_of, FULL_COLON, FWQM, HALF_COLON, HWQM,
};
use crate::system::{join_path, joined};
use crate::text::{
    first_index, lemma_first_index, lemma_trim, lemma_trim_end, lemma_trim_renamed,
    lemma_trim_within, split_trimmed, starts_with, text_eq, trim, trim_start, trimmed, views,
};
use vstd::prelude::*;

verus! {

/// The namespace that the tag of an expression names: `$env`, `$const`,
/// `$val` and `$dir` by these words, and `$proj` by any tag that starts with
/// this word.
pub open spec fn namespace_of(tag: Seq<char>) -> Option<Tag> {
    if tag == "$env"@ {
        Some(Tag::Env)
    } else if tag == "$const"@ {
        Some(Tag::Const)
    } else if tag == "$val"@ {
        Some(Tag::Val)
    } else if tag == "$dir"@ {
        Some(Tag::Dir)
    } else if "$proj"@.is_prefix_of(tag) {
        Some(Tag::Proj)
    } else {
        None
    }
}

/// Whether the expression with the tag `tag` and the chain `chain` may
/// resolve to `value` on `host`. The alternatives of an `$env` expression are
/// first spelled the way the environment spells names; a tag that names no
/// namespace resolves to nothing.
pub open spec fn expression_resolves(
    tag: Seq<char>,
    chain: Seq<char>,
    host: Host,
    value: Option<Seq<char>>,
) -> bool {
    match namespace_of(tag) {
        Some(Tag::Env) => handled(
            env_chain(chain),
            env_answers(host),
            env_answers(host),
            value,
        ),
        Some(Tag::Proj) => project_handled(tag, chain, host, value),
        Some(other) => handled(
            chain,
            namespace_answers(other, host),
            namespace_answers(other, host),
            value,
        ),
        None => value is None,
    }
}

/// Whether the raw component `s` may stand in the path as `component`: an
/// expression of a namespace as what it resolves to, which is nothing where
/// its chain finds no value; any other text as the text itself.
pub open spec fn component_may(s: Seq<char>, host: Host, component: Option<Seq<char>>) -> bool {
    let parts = chunks(trim(s));
    if parts.len() == 2 && namespace_of(parts[0]) is Some {
        expression_resolves(parts[0], parts[1], host, component)
    } else {
        component == Some(s)
    }
}

/// Whether `s` is a literal component: trimmed, it does not start with `$`.
pub open spec fn is_literal(s: Seq<char>) -> bool {
    trim(s).len() == 0 || trim(s)[0] != '$'
}

/// The path that the components make: each joined onto those before it,
/// starting from the empty path. One absent component makes the whole path
/// absent.
pub open spec fn assembled(components: Seq<Option<Seq<char>>>) -> Option<Seq<char>>
    decreases components.len(),
{
    if components.len() == 0 {
        Some(Seq::<char>::empty())
    } else {
        match (assembled(components.drop_last()), components.last()) {
            (Some(path), Some(component)) => Some(joined(path, component)),
            _ => None,
        }
    }
}

/// The components as values that are all present.
pub open spec fn all_present(components: Seq<Seq<char>>) -> Seq<Option<Seq<char>>> {
    components.map_values(|component: Seq<char>| Some(component))
}

/// Whether the raw sequence `raw` may resolve to `path` on `host`: to the
/// path assembled from components that the elements of `raw` may stand as,
/// one for one. An element that resolves to nothing makes the path absent.
pub open spec fn path_may(raw: Seq<Seq<char>>, host: Host, path: Option<Seq<char>>) -> bool {
    exists|components: Seq<Option<Seq<char>>>|
        {
            &&& components.len() == raw.len()
            &&& forall|i: int|
                0 <= i < raw.len() ==> component_may(raw[i], host, #[trigger] components[i])
            &&& path == #[trigger] assembled(components)
        }
}

/// Joins one more component onto a path. An absent path stays absent, and an
/// absent component makes the path absent.
pub fn join_component(path: Option<String>, component: Option<String>) -> (joined_path: Option<
    String,
>)
    ensures
        opt_text(joined_path) == match (path, component) {
            (Some(p), Some(c)) => Some(joined(p@, c@)),
            _ => None,
        },
{
    match (path, component) {
        (Some(p), Some(c)) => Some(join_path(p.as_str(), c.as_str())),
        _ => None,
    }
}

/// Assembles a path from components: each is joined onto those before it,
/// starting from the empty path. The path is absent where a component is.
pub fn assemble(components: &Vec<Option<String>>) -> (path: Option<String>)
    ensures
        opt_text(path) == assembled(components@.map_values(|c: Option<String>| opt_text(c))),
{
    let ghost texts = components@.map_values(|c: Option<String>| opt_text(c));
    let mut path: Option<String> = Some(String::new());
    let mut i: usize = 0;
    assert(texts.take(0) =~= Seq::<Option<Seq<char>>>::empty());
    while i < components.len()
        invariant
            i <= components.len(),
            texts == components@.map_values(|c: Option<String>| opt_text(c)),
            opt_text(path) == assembled(texts.take(i as int)),
        decreases components.len() - i,
    {
        proof {
            assert(texts.take(i + 1).drop_last() =~= texts.take(i as int));
            assert(texts.take(i + 1).last() == opt_text(components@[i as int]));
        }
        path = join_component(path, components[i].clone());
        i += 1;
    }
    assert(texts.take(components.len() as int) =~= texts);
    path
}

/// Resolves the expression with the tag `tag` and the chain `chain`.
pub fn resolve_expression(tag: &str, chain: &str, host: &Host) -> (value: Option<String>)
    ensures
        expression_resolves(tag@, chain@, *host, opt_text(value)),
{
    if text_eq(tag, "$env") {
        let spelled = normalize_env_chain(chain);
        handle_envs(spelled.as_str(), host)
    } else if text_eq(tag, "$const") {
        handle_consts(chain, host)
    } else if text_eq(tag, "$val") {
        crate::value::handle_values(chain, host)
    } else if text_eq(tag, "$dir") {
        handle_dirs(chain, host)
    } else if starts_with(tag, "$proj") {
        handle_project_dirs(tag, chain, host)
    } else {
        None
    }
}

/// Whether `tag` names a namespace.
pub fn is_namespace(tag: &str) -> (yes: bool)
    ensures
        yes == namespace_of(tag@) is Some,
{
    text_eq(tag, "$env") || text_eq(tag, "$const") || text_eq(tag, "$val") || text_eq(tag, "$dir")
        || starts_with(tag, "$proj")
}

/// Resolves one raw component: an expression of a namespace to its value,
/// which is nothing where its chain finds none; any other text to itself.
pub fn resolve_component(s: &str, host: &Host) -> (component: Option<String>)
    ensures
        component_may(s@, *host, opt_text(component)),
{
    let parts = get_chunks(trimmed(s));
    proof {
        assert(views(parts@).len() == parts@.len());
    }
    if parts.len() == 2 {
        assert(parts[0]@ == chunks(trim(s@))[0]);
        assert(parts[1]@ == chunks(trim(s@))[1]);
        if is_namespace(parts[0]) {
            resolve_expression(parts[0], parts[1], host)
        } else {
            Some(s.to_owned())
        }
    } else {
        Some(s.to_owned())
    }
}

/// Resolves a raw sequence to a path: every component is resolved, and each
/// result is joined onto the path of those before it, starting from the empty
/// path.
///
/// The empty sequence resolves to the empty path. An expression that finds
/// no value makes the whole path absent, whatever the other components are.
pub fn parse(raw: &EnvPathRaw, host: &Host) -> (path: Option<String>)
    ensures
        path_may(raw@, *host, opt_text(path)),
{
    let n = raw.len();
    let mut components: Vec<Option<String>> = Vec::new();
    let mut i: usize = 0;
    while i < n
        invariant
            i <= n == raw@.len(),
            components@.len() == i,
            forall|j: int|
                0 <= j < i ==> component_may(raw@[j], *host, opt_text(#[trigger] components@[j])),
        decreases n - i,
    {
        let component = resolve_component(raw.get(i), host);
        components.push(component);
        i += 1;
    }
    let path = assemble(&components);
    proof {
        let texts = components@.map_values(|c: Option<String>| opt_text(c));
        assert forall|j: int| 0 <= j < raw@.len() implies component_may(
            raw@[j],
            *host,
            #[trigger] texts[j],
        ) by {
            assert(texts[j] == opt_text(components@[j]));
        }
        assert(opt_text(path) == assembled(texts));
    }
    path
}

/// A path whose components are all present is present.
pub proof fn lemma_present_components(components: Seq<Seq<char>>)
    ensures
        assembled(all_present(components)) is Some,
    decreases components.len(),
{
    if components.len() > 0 {
        assert(all_present(components).drop_last() =~= all_present(components.drop_last()));
        lemma_present_components(components.drop_last());
    }
}

impl<'r> EnvPathRaw<'r> {
    /// Resolves the sequence to a path: the empty one to the empty path, and
    /// one with an expression that finds no value to no path at all.
    pub fn parse(&self, host: &Host) -> (path: Option<String>)
        ensures
            path_may(self@, *host, opt_text(path)),
    {
        parse(self, host)
    }
}

impl<'r> EnvPath<'r> {
    /// Resolves the raw sequence and keeps the path, which is absent where
    /// an expression of the sequence finds no value. The raw sequence stays as
    /// it is.
    pub fn de(self, host: &Host) -> (resolved: Self)
        ensures
            resolved.raw == self.raw,
            path_may(self.raw@, *host, opt_text(resolved.path)),
    {
        let path = self.raw.parse(host);
        EnvPath { raw: self.raw, path: path }
    }
}

/// An expression whose chain is one identifier resolves to what a lookup of
/// that identifier in its namespace gives: for `$env` what the identifier
/// yields in the environment's spelling, for `$proj` the key of the project
/// that the tag names.
pub proof fn law_single_identifier(
    tag: Seq<char>,
    chain: Seq<char>,
    host: Host,
    value: Option<Seq<char>>,
)
    requires
        question_mark_of(chain) is None,
    ensures
        expression_resolves(tag, chain, host, value) <==> match namespace_of(tag) {
            Some(Tag::Env) => env_yields(env_chain(chain), host, value),
            Some(Tag::Proj) => match project_name(tag) {
                Some(id) => project_yields_either(project_label(id), chain, host, value),
                None => value is None,
            },
            Some(other) => yields(other, chain, host, value),
            None => value is None,
        },
{
    lemma_env_chain_question_marks(chain);
}

/// Whether the chain `chain` of an expression of the namespace `namespace`,
/// written in full width, keeps its identifiers apart from its separators: it
/// holds no half-width question mark, and a full-width colon only in a walked
/// `$proj` chain without half-width colons, behind the group of an
/// alternative.
pub open spec fn full_width_chain(namespace: Tag, chain: Seq<char>) -> bool {
    &&& !chain.contains(HWQM)
    &&& {
        ||| !chain.contains(FULL_COLON)
        ||| {
            &&& namespace == Tag::Proj
            &&& question_mark_of(chain) is Some
            &&& !chain.contains(HALF_COLON)
            &&& forall|k: int|
                0 <= k < split_trimmed(chain, FWQM).len() ==> colons_behind_group(
                    #[trigger] split_trimmed(chain, FWQM)[k],
                )
        }
    }
}

/// Whether `s` is an expression of a namespace that is written in full width
/// alone: it holds no half-width separator, its tag holds no question mark, and
/// its chain is a `full_width_chain`.
pub open spec fn full_width_expression(s: Seq<char>) -> bool {
    let parts = chunks(trim(s));
    &&& !s.contains(HALF_COLON)
    &&& !s.contains(HWQM)
    &&& parts.len() == 2
    &&& !parts[0].contains(FWQM)
    &&& namespace_of(parts[0]) matches Some(namespace) && full_width_chain(namespace, parts[1])
}

/// An expression whose chain is written in full width resolves as the same
/// expression written in half width.
pub proof fn law_full_width_expression(
    tag: Seq<char>,
    chain: Seq<char>,
    host: Host,
    value: Option<Seq<char>>,
)
    requires
        !chain.contains(HWQM),
        namespace_of(tag) matches Some(namespace) ==> full_width_chain(namespace, chain),
    ensures
        expression_resolves(tag, half_width(chain), host, value) <==> expression_resolves(
            tag,
            chain,
            host,
            value,
        ),
{
    if chain.contains(FULL_COLON) {
        if namespace_of(tag) is Some {
            lemma_half_width_question_mark(chain);
            law_full_width_project_groups(tag, chain, project_answers(host), any_disk(), value);
        }
    } else {
        match namespace_of(tag) {
            Some(Tag::Env) => {
                lemma_env_chain_half_width(chain);
                law_full_width_question_marks(
                    env_chain(chain),
                    env_answers(host),
                    env_answers(host),
                    value,
                );
            },
            Some(Tag::Proj) => {
                law_full_width_project_chain(tag, chain, host, value);
            },
            Some(other) => {
                law_full_width_question_marks(
                    chain,
                    namespace_answers(other, host),
                    namespace_answers(other, host),
                    value,
                );
            },
            None => {},
        }
    }
}

/// An expression that is written with the full-width colon and question mark
/// alone stands in the path as the same expression written with the
/// half-width ones.
pub proof fn law_full_width_component(s: Seq<char>, host: Host, component: Option<Seq<char>>)
    requires
        full_width_expression(s),
    ensures
        component_may(half_width(s), host, component) <==> component_may(s, host, component),
{
    let rename = |c: char| half_width_char(c);
    let t = trim(s);
    assert(half_width(s) =~= s.map_values(rename));
    lemma_trim_renamed(s, rename);
    assert(trim(half_width(s)) =~= half_width(t));
    lemma_trim_within(s, HALF_COLON);
    lemma_trim_within(s, HWQM);
    law_full_width_colon(t);
    lemma_detected(t, HALF_COLON, FULL_COLON);
    lemma_first_index(t, HALF_COLON);
    let parts = chunks(t);
    let tag = parts[0];
    let chain = parts[1];
    let i = first_index(t, FULL_COLON);
    lemma_first_index(t, FULL_COLON);
    let head = t.take(i);
    let tail = t.skip(i + 1);
    assert(!head.contains(FULL_COLON)) by {
        if head.contains(FULL_COLON) {
            let j = choose|j: int| 0 <= j < head.len() && head[j] == FULL_COLON;
            assert(t[j] == FULL_COLON);
        }
    }
    lemma_trim_within(head, FULL_COLON);
    lemma_half_width_same(tag);
    assert(!tail.contains(HWQM)) by {
        if tail.contains(HWQM) {
            let j = choose|j: int| 0 <= j < tail.len() && tail[j] == HWQM;
            assert(t[j + i + 1] == HWQM);
        }
    }
    lemma_trim_within(tail, HWQM);
    let halves = chunks(half_width(t));
    assert(halves[0] == half_width(tag));
    assert(halves[1] == half_width(chain));
    law_full_width_expression(tag, chain, host, component);
}

/// A sequence of expressions that are written in full width alone resolves as
/// the sequence of the same expressions written in half width.
pub proof fn law_full_width_sequence(raw: Seq<Seq<char>>, host: Host, path: Option<Seq<char>>)
    requires
        forall|i: int| 0 <= i < raw.len() ==> full_width_expression(#[trigger] raw[i]),
    ensures
        path_may(raw.map_values(|s: Seq<char>| half_width(s)), host, path) <==> path_may(
            raw,
            host,
            path,
        ),
{
    let halves = raw.map_values(|s: Seq<char>| half_width(s));
    if path_may(halves, host, path) {
        let components = choose|components: Seq<Option<Seq<char>>>|
            {
                &&& components.len() == halves.len()
                &&& forall|i: int|
                    0 <= i < halves.len() ==> component_may(
                        halves[i],
                        host,
                        #[trigger] components[i],
                    )
                &&& path == #[trigger] assembled(components)
            };
        assert forall|i: int| 0 <= i < raw.len() implies component_may(
            raw[i],
            host,
            #[trigger] components[i],
        ) by {
            assert(component_may(halves[i], host, components[i]));
            law_full_width_component(raw[i], host, components[i]);
        }
        assert(path_may(raw, host, path));
    }
    if path_may(raw, host, path) {
        let components = choose|components: Seq<Option<Seq<char>>>|
            {
                &&& components.len() == raw.len()
                &&& forall|i: int|
                    0 <= i < raw.len() ==> component_may(raw[i], host, #[trigger] components[i])
                &&& path == #[trigger] assembled(components)
            };
        assert forall|i: int| 0 <= i < halves.len() implies component_may(
            halves[i],
            host,
            #[trigger] components[i],
        ) by {
            assert(component_may(raw[i], host, components[i]));
            law_full_width_component(raw[i], host, components[i]);
        }
        assert(path_may(halves, host, path));
    }
}

/// A literal component stands in the path as it was written.
pub proof fn lemma_literal_component(s: Seq<char>, host: Host, component: Option<Seq<char>>)
    requires
        is_literal(s),
    ensures
        component_may(s, host, component) <==> component == Some(s),
{
    let t = trim(s);
    let parts = chunks(t);
    lemma_chunks(t);
    if parts.len() == 2 {
        let colon = colon_of(t)->0;
        let i = first_index(t, colon);
        lemma_first_index(t, colon);
        lemma_trim(s);
        let head = t.take(i);
        let tag = parts[0];
        assert(tag == trim(head));
        if i > 0 {
            assert(head[0] == t[0]);
            assert(trim_start(head) == head);
            lemma_trim_end(head);
            if tag.len() > 0 {
                assert(tag[0] == head[0]);
            }
        } else {
            assert(head.len() == 0);
            assert(trim_start(head) == head);
        }
        assert(tag.len() == 0 || tag[0] != '$');
        reveal_strlit("$env");
        reveal_strlit("$const");
        reveal_strlit("$val");
        reveal_strlit("$dir");
        reveal_strlit("$proj");
        if "$proj"@.is_prefix_of(tag) {
            assert(tag.subrange(0, 5)[0] == '$');
        }
        assert(namespace_of(tag) is None);
    }
}

/// A sequence of literal components resolves to the path that joins them as
/// they were written, and to no other.
pub proof fn law_literal_sequence(raw: Seq<Seq<char>>, host: Host, path: Option<Seq<char>>)
    requires
        forall|i: int| 0 <= i < raw.len() ==> is_literal(#[trigger] raw[i]),
    ensures
        assembled(all_present(raw)) is Some,
        path_may(raw, host, path) <==> path == assembled(all_present(raw)),
{
    let present = all_present(raw);
    lemma_present_components(raw);
    assert forall|i: int| 0 <= i < raw.len() implies component_may(
        raw[i],
        host,
        #[trigger] present[i],
    ) by {
        lemma_literal_component(raw[i], host, present[i]);
    }
    if path_may(raw, host, path) {
        let components = choose|components: Seq<Option<Seq<char>>>|
            {
                &&& components.len() == raw.len()
                &&& forall|i: int|
                    0 <= i < raw.len() ==> component_may(raw[i], host, #[trigger] components[i])
                &&& path == #[trigger] assembled(components)
            };
        assert forall|i: int| 0 <= i < raw.len() implies components[i] == present[i] by {
            lemma_literal_component(raw[i], host, components[i]);
        }
        assert(components =~= present);
    }
    if path == assembled(present) {
        assert(path_may(raw, host, path));
    }
}

/// A sequence with an element that resolves to nothing, and to nothing else,
/// resolves to no path, whatever its other elements are.
pub proof fn law_unresolved_element(
    raw: Seq<Seq<char>>,
    host: Host,
    path: Option<Seq<char>>,
    at: int,
)
    requires
        0 <= at < raw.len(),
        forall|component: Option<Seq<char>>| #[trigger]
            component_may(raw[at], host, component) ==> component is None,
        path_may(raw, host, path),
    ensures
        path is None,
{
    let components = choose|components: Seq<Option<Seq<char>>>|
        {
            &&& components.len() == raw.len()
            &&& forall|i: int|
                0 <= i < raw.len() ==> component_may(raw[i], host, #[trigger] components[i])
            &&& path == #[trigger] assembled(components)
        };
    assert(component_may(raw[at], host, components[at]));
    assert(components[at] is None);
    law_absent_component(components);
}

/// An `$env` expression of one name whose variable is not set resolves to
/// nothing, and to nothing else.
pub proof fn law_missing_variable(
    s: Seq<char>,
    host: Host,
    component: Option<Seq<char>>,
)
    requires
        chunks(trim(s)).len() == 2,
        chunks(trim(s))[0] == "$env"@,
        question_mark_of(chunks(trim(s))[1]) is None,
        !chunks(trim(s))[1].contains('*'),
        host.var(chunks(trim(s))[1].map_values(|c: char| env_char(c))) is None,
    ensures
        component_may(s, host, component) <==> component is None,
{
    law_env_spells_names(chunks(trim(s))[1], host, component);
}

/// The empty sequence resolves to the empty path, which is a path: it is not
/// absent.
pub proof fn law_empty_sequence(host: Host, path: Option<Seq<char>>)
    ensures
        path_may(Seq::<Seq<char>>::empty(), host, path) <==> path == Some(Seq::<char>::empty()),
{
    let raw = Seq::<Seq<char>>::empty();
    let none = Seq::<Option<Seq<char>>>::empty();
    if path_may(raw, host, path) {
        let components = choose|components: Seq<Option<Seq<char>>>|
            {
                &&& components.len() == raw.len()
                &&& forall|i: int|
                    0 <= i < raw.len() ==> component_may(raw[i], host, #[trigger] components[i])
                &&& path == #[trigger] assembled(components)
            };
        assert(components =~= none);
    }
    if path == Some(Seq::<char>::empty()) {
        assert(path == assembled(none));
        assert(path_may(raw, host, path));
    }
}

/// A path is absent exactly where one of its components is.
pub proof fn law_absent_component(components: Seq<Option<Seq<char>>>)
    ensures
        assembled(components) is None <==> exists|i: int|
            0 <= i < components.len() && #[trigger] components[i] is None,
    decreases components.len(),
{
    if components.len() > 0 {
        let front = components.drop_last();
        law_absent_component(front);
        if assembled(components) is None {
            if components.last() is None {
                assert(components[components.len() - 1] is None);
            } else {
                let i = choose|i: int| 0 <= i < front.len() && #[trigger] front[i] is None;
                assert(components[i] is None);
            }
        }
        if exists|i: int| 0 <= i < components.len() && #[trigger] components[i] is None {
            let i = choose|i: int| 0 <= i < components.len() && #[trigger] components[i] is None;
            if i < front.len() {
                assert(front[i] is None);
            }
        }
    }
}

} // verus!
