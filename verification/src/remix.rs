//! Remix expressions: an alternative of the form `tag * identifier` borrows
//! the lookup of another namespace.

use crate::base_dirs::{base_dir_may, base_dir_of, match_base_dirs};
use crate::chunks::{chunks, get_chunks, lemma_chunks};
use crate::consts::{const_of, const_text, match_consts};
use crate::host::Host;
use crate::os_env::into_os_env;
use crate::project::{
    match_proj_dirs, project_dir_may, project_dir_of, project_label, project_name,
    set_proj_name_opt_tuple,
};
use crate::rules::opt_text;
use crate::text::{
    find, first_index, lemma_strip_leading, lemma_strip_prefixes, lemma_trim, skip_leading,
    skip_prefixes, starts_with, starts_with_char, strip_leading, strip_prefixes, trim, trimmed,
    views,
};
use crate::value::{match_values, value_may, value_of};
use vstd::prelude::*;

verus! {

/// The namespaces that a remix expression may name, in the order in which
/// they are tried.
#[derive(Clone, Copy, Debug, PartialEq, Eq)]
pub enum Tag {
    /// Environment variables: `env`.
    Env,
    /// Base directories: `dir`.
    Dir,
    /// Constants of the build: `const`.
    Const,
    /// Project directories: `proj`.
    Proj,
    /// Values made on demand: `val`.
    Val,
}

/// The word that names `tag`.
pub open spec fn tag_text(tag: Tag) -> Seq<char> {
    match tag {
        Tag::Env => "env"@,
        Tag::Dir => "dir"@,
        Tag::Const => "const"@,
        Tag::Proj => "proj"@,
        Tag::Val => "val"@,
    }
}

/// The first tag whose word `x` starts with.
pub open spec fn tag_of(x: Seq<char>) -> Option<Tag> {
    if "env"@.is_prefix_of(x) {
        Some(Tag::Env)
    } else if "dir"@.is_prefix_of(x) {
        Some(Tag::Dir)
    } else if "const"@.is_prefix_of(x) {
        Some(Tag::Const)
    } else if "proj"@.is_prefix_of(x) {
        Some(Tag::Proj)
    } else if "val"@.is_prefix_of(x) {
        Some(Tag::Val)
    } else {
        None
    }
}

/// Whether `x` has the shape of a remix expression: it holds a `*`, and what
/// stands before the first `*` starts with a tag.
pub open spec fn is_remix(x: Seq<char>) -> bool {
    let star = first_index(x, '*');
    star < x.len() && tag_of(x.take(star)) is Some
}

/// The identifier that the remix expression `x` hands to the namespace
/// `tag`: `x` without the tag's word, however often that is repeated, must go
/// on with a `*`; what follows the run of `*` is the identifier. White space
/// around either is dropped.
pub open spec fn remix_ident(x: Seq<char>, tag: Tag) -> Option<Seq<char>> {
    let rest = trim(strip_prefixes(x, tag_text(tag)));
    if rest.len() > 0 && rest[0] == '*' {
        Some(trim(strip_leading(rest, '*')))
    } else {
        None
    }
}

impl Tag {
    /// The word that names the tag.
    pub fn word(self) -> (word: &'static str)
        ensures
            word@ == tag_text(self),
    {
        match self {
            Tag::Env => "env",
            Tag::Dir => "dir",
            Tag::Const => "const",
            Tag::Proj => "proj",
            Tag::Val => "val",
        }
    }

    /// The first tag whose word `x` starts with.
    pub fn starting(x: &str) -> (tag: Option<Tag>)
        ensures
            tag == tag_of(x@),
    {
        if starts_with(x, "env") {
            Some(Tag::Env)
        } else if starts_with(x, "dir") {
            Some(Tag::Dir)
        } else if starts_with(x, "const") {
            Some(Tag::Const)
        } else if starts_with(x, "proj") {
            Some(Tag::Proj)
        } else if starts_with(x, "val") {
            Some(Tag::Val)
        } else {
            None
        }
    }
}

/// Whether `x` has the shape of a remix expression.
pub fn starts_with_remix_expr(x: &str) -> (yes: bool)
    ensures
        yes == is_remix(x@),
{
    match find(x, '*') {
        Some(star) => Tag::starting(x.substring_char(0, star)).is_some(),
        None => false,
    }
}

/// The identifier of a remix expression is shorter than the expression.
pub proof fn lemma_remix_ident_shorter(x: Seq<char>, tag: Tag)
    ensures
        remix_ident(x, tag) matches Some(ident) ==> ident.len() < x.len(),
{
    let word = tag_text(tag);
    lemma_strip_prefixes(x, word);
    let stripped = strip_prefixes(x, word);
    lemma_trim(stripped);
    let rest = trim(stripped);
    lemma_strip_leading(rest, '*');
    lemma_trim(strip_leading(rest, '*'));
}

/// Whether the namespace `tag` may answer `value` for the identifier `ident`
/// on `host`.
///
/// An environment variable is looked up as it stands. The other namespaces
/// look `ident` up in their tables first; a name that no table knows may
/// still be a remix expression.
pub open spec fn yields(tag: Tag, ident: Seq<char>, host: Host, value: Option<Seq<char>>) -> bool
    decreases ident.len(), 3int,
{
    match tag {
        Tag::Env => value == host.var(ident),
        Tag::Const => match const_of(ident) {
            Some(name) => value == Some(const_text(name, host)),
            None => remix_or_nothing(ident, host, value),
        },
        Tag::Dir => match base_dir_of(ident) {
            Some(dir) => base_dir_may(dir, host, value),
            None => remix_or_nothing(ident, host, value),
        },
        Tag::Val => match value_of(ident) {
            Some(kind) => value_may(kind, value),
            None => remix_or_nothing(ident, host, value),
        },
        Tag::Proj => {
            let parts = chunks(ident);
            if parts.len() == 2 {
                match project_name(parts[0]) {
                    Some(id) => {
                        proof {
                            lemma_chunks(ident);
                        }
                        project_yields_either(project_label(id), parts[1], host, value)
                    },
                    None => value is None,
                }
            } else {
                value is None
            }
        },
    }
}

/// What the namespace `tag` may answer on `host`, as a relation between
/// identifiers and values.
pub open spec fn namespace_answers(tag: Tag, host: Host) -> spec_fn(
    Seq<char>,
    Option<Seq<char>>,
) -> bool {
    |ident: Seq<char>, value: Option<Seq<char>>| yields(tag, ident, host, value)
}

/// Whether the project called `name` may answer `value` for the key `key`,
/// whether or not the platform assigned directories to the project.
pub open spec fn project_yields_either(
    name: Seq<char>,
    key: Seq<char>,
    host: Host,
    value: Option<Seq<char>>,
) -> bool
    decreases key.len(), 3int,
{
    project_yields(name, true, key, host, value) || project_yields(name, false, key, host, value)
}

/// Whether the project called `name` may answer `value` for the key `key`,
/// where `has_dirs` says whether the platform assigned directories to the
/// project.
pub open spec fn project_yields(
    name: Seq<char>,
    has_dirs: bool,
    key: Seq<char>,
    host: Host,
    value: Option<Seq<char>>,
) -> bool
    decreases key.len(), 2int,
{
    match project_dir_of(key) {
        Some(dir) => project_dir_may(dir, name, has_dirs, host, value),
        None => remix_or_nothing(key, host, value),
    }
}

/// Whether `x`, which no table knows, may resolve to `value`: as a remix
/// expression where it has the shape of one, and else to nothing.
pub open spec fn remix_or_nothing(x: Seq<char>, host: Host, value: Option<Seq<char>>) -> bool
    decreases x.len(), 1int,
{
    if is_remix(x) {
        remix_yields(x, host, value)
    } else {
        value is None
    }
}

/// Whether the remix expression `x` may resolve to `value`: to what the
/// namespace of its tag may answer for its identifier, and to nothing where
/// it names no namespace or hands over no identifier.
pub open spec fn remix_yields(x: Seq<char>, host: Host, value: Option<Seq<char>>) -> bool
    decreases x.len(), 0int,
{
    match tag_of(x) {
        Some(tag) => match remix_ident(x, tag) {
            Some(ident) => {
                proof {
                    lemma_remix_ident_shorter(x, tag);
                }
                yields(tag, ident, host, value)
            },
            None => value is None,
        },
        None => value is None,
    }
}

/// Resolves the remix expression `s` in the namespace `tag`: the identifier
/// behind the `*` goes to the lookup of that namespace as it stands.
pub fn handle_remix(s: &str, tag: Tag, host: &Host) -> (value: Option<String>)
    ensures
        match remix_ident(s@, tag) {
            Some(ident) => yields(tag, ident, *host, opt_text(value)),
            None => value is None,
        },
    decreases s@.len(), 0int,
{
    let rest = trimmed(skip_prefixes(s, tag.word()));
    if !starts_with_char(rest, '*') {
        return None;
    }
    let ident = trimmed(skip_leading(rest, '*'));
    proof {
        lemma_remix_ident_shorter(s@, tag);
    }
    match tag {
        Tag::Env => into_os_env(ident, host),
        Tag::Dir => match_base_dirs(ident, host),
        Tag::Proj => {
            let parts = get_chunks(ident);
            proof {
                lemma_chunks(ident@);
                assert(views(parts@).len() == parts@.len());
            }
            if parts.len() != 2 {
                None
            } else {
                assert(parts[0]@ == chunks(ident@)[0]);
                assert(parts[1]@ == chunks(ident@)[1]);
                match set_proj_name_opt_tuple(parts[0]) {
                    Some((name, proj)) => match_proj_dirs(
                        parts[1],
                        name.as_str(),
                        proj.as_ref(),
                        host,
                    ),
                    None => None,
                }
            }
        },
        Tag::Const => match_consts(ident, host),
        Tag::Val => match_values(ident, host),
    }
}

/// Resolves the remix expression `x`: finds the tag that it starts with and
/// lets that namespace look its identifier up.
pub fn parse_remix_expr(x: &str, host: &Host) -> (value: Option<String>)
    ensures
        remix_yields(x@, *host, opt_text(value)),
    decreases x@.len(), 1int,
{
    match Tag::starting(x) {
        Some(tag) => handle_remix(x, tag, host),
        None => None,
    }
}

/// Looks up a name that no table knows: a remix expression is resolved, and
/// anything else is nothing.
pub fn remix_or_none(x: &str, host: &Host) -> (value: Option<String>)
    ensures
        remix_or_nothing(x@, *host, opt_text(value)),
    decreases x@.len(), 2int,
{
    if starts_with_remix_expr(x) {
        parse_remix_expr(x, host)
    } else {
        None
    }
}

} // verus!
