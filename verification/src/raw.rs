//! The raw form of a path: the sequence of components as they were written.

use crate::text::views;
use std::borrow::Cow;
use vstd::prelude::*;

verus! {

/// A raw sequence, in one of the three ways of holding its texts.
#[derive(Debug, Clone, Hash, Eq, PartialEq, PartialOrd, Ord)]
pub enum EnvPathRaw<'r> {
    /// Borrowed texts.
    Ref(Vec<&'r str>),
    /// Texts that are borrowed or owned, one by one.
    Cow(Vec<Cow<'r, str>>),
    /// Owned texts.
    Owned(Vec<String>),
}

impl<'r> View for EnvPathRaw<'r> {
    type V = Seq<Seq<char>>;

    open spec fn view(&self) -> Seq<Seq<char>> {
        match self {
            EnvPathRaw::Ref(texts) => views(texts@),
            EnvPathRaw::Cow(texts) => texts@.map_values(|text: Cow<'r, str>| text@),
            EnvPathRaw::Owned(texts) => texts@.map_values(|text: String| text@),
        }
    }
}

impl<'r> EnvPathRaw<'r> {
    /// Whether the sequence has no component.
    pub fn is_empty(&self) -> (empty: bool)
        ensures
            empty == (self@.len() == 0),
    {
        match self {
            EnvPathRaw::Ref(texts) => texts.len() == 0,
            EnvPathRaw::Cow(texts) => texts.len() == 0,
            EnvPathRaw::Owned(texts) => texts.len() == 0,
        }
    }

    /// The number of components.
    pub fn len(&self) -> (n: usize)
        ensures
            n == self@.len(),
    {
        match self {
            EnvPathRaw::Ref(texts) => texts.len(),
            EnvPathRaw::Cow(texts) => texts.len(),
            EnvPathRaw::Owned(texts) => texts.len(),
        }
    }

    /// The component at `index`.
    pub fn get(&self, index: usize) -> (text: &str)
        requires
            index < self@.len(),
        ensures
            text@ == self@[index as int],
    {
        match self {
            EnvPathRaw::Ref(texts) => texts[index],
            EnvPathRaw::Cow(texts) => match &texts[index] {
                Cow::Borrowed(text) => text,
                Cow::Owned(text) => text.as_str(),
            },
            EnvPathRaw::Owned(texts) => texts[index].as_str(),
        }
    }
}

impl<'r> Default for EnvPathRaw<'r> {
    fn default() -> (raw: Self)
        ensures
            raw@.len() == 0,
            raw is Ref,
    {
        EnvPathRaw::Ref(Vec::new())
    }
}

} // verus!
