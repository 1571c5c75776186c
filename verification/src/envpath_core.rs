//! The path type: a raw sequence and what it resolved to.

use crate::host::Host;
use crate::parser::path_may;
use crate::raw::EnvPathRaw;
use crate::rules::opt_text;
use crate::text::views;
use std::borrow::Cow;
use vstd::prelude::*;

verus! {

/// A path in both of its forms.
#[derive(Debug, Clone, Hash, Eq, PartialEq, PartialOrd, Ord, Default)]
pub struct EnvPath<'r> {
    /// The components as they were written, expressions included.
    pub raw: EnvPathRaw<'r>,
    /// The path that the raw sequence was resolved to; `None` while it has not
    /// been resolved, and where one of its expressions found no value.
    pub path: Option<String>,
}

/// The name under which the library keeps files apart from those of others.
pub const PKG_NAME: &'static str = "envpath";

/// Where Android keeps the files that its user can reach.
pub const AND_SD: &'static str = "/storage/self/primary";

impl<'r> EnvPath<'r> {
    /// A path from borrowed texts, resolved at once.
    pub fn new(raw: Vec<&'r str>, host: &Host) -> (path: Self)
        ensures
            path.raw == EnvPathRaw::Ref(raw),
            path_may(views(raw@), *host, opt_text(path.path)),
    {
        EnvPath { raw: Self::create_ref_raw(raw), path: None }.de(host)
    }

    /// A path from owned texts, resolved at once.
    pub fn new_owned(raw: Vec<String>, host: &Host) -> (path: Self)
        ensures
            path.raw == EnvPathRaw::Owned(raw),
            path_may(raw@.map_values(|text: String| text@), *host, opt_text(path.path)),
    {
        EnvPath { raw: EnvPathRaw::Owned(raw), path: None }.de(host)
    }

    /// A path from texts that are borrowed or owned, resolved at once.
    pub fn new_cow(raw: Vec<Cow<'r, str>>, host: &Host) -> (path: Self)
        ensures
            path.raw == EnvPathRaw::Cow(raw),
            path_may(raw@.map_values(|text: Cow<'r, str>| text@), *host, opt_text(path.path)),
    {
        EnvPath { raw: EnvPathRaw::Cow(raw), path: None }.de(host)
    }

    /// The raw sequence that borrows the texts of `raw`.
    pub fn create_ref_raw(raw: Vec<&'r str>) -> (sequence: EnvPathRaw<'r>)
        ensures
            sequence == EnvPathRaw::Ref(raw),
    {
        EnvPathRaw::Ref(raw)
    }

    /// A path that owns copies of the texts of `raw`, not resolved yet.
    pub fn from_str_slice(raw: &[&str]) -> (path: EnvPath<'static>)
        ensures
            path.raw is Owned,
            path.raw@ == views(raw@),
            path.path is None,
    {
        let mut texts: Vec<String> = Vec::new();
        let mut i: usize = 0;
        while i < raw.len()
            invariant
                i <= raw.len(),
                texts@.len() == i,
                forall|j: int| 0 <= j < i ==> (#[trigger] texts@[j])@ == raw@[j]@,
            decreases raw.len() - i,
        {
            texts.push(raw[i].to_owned());
            i += 1;
        }
        assert(texts@.map_values(|text: String| text@) =~= views(raw@));
        EnvPath { raw: EnvPathRaw::Owned(texts), path: None }
    }

    /// A path that owns copies of the texts of `raw`, resolved at once.
    pub fn create_from_str_slice(raw: &[&str], host: &Host) -> (path: EnvPath<'static>)
        ensures
            path.raw is Owned,
            path.raw@ == views(raw@),
            path_may(views(raw@), *host, opt_text(path.path)),
    {
        Self::from_str_slice(raw).de(host)
    }

    /// The raw sequence.
    pub fn get_raw(&self) -> (raw: &EnvPathRaw<'r>)
        ensures
            *raw == self.raw,
    {
        &self.raw
    }

    /// The raw sequence, to be changed in place. The resolved path is left
    /// as it is.
    pub fn get_raw_mut(&mut self) -> (raw: &mut EnvPathRaw<'r>)
        ensures
            *raw == old(self).raw,
            final(self).raw == *final(raw),
            final(self).path == old(self).path,
    {
        &mut self.raw
    }

    /// Replaces the raw sequence by borrowed texts. The resolved path is
    /// left as it is.
    pub fn set_raw(&mut self, raw: Vec<&'r str>)
        ensures
            final(self).raw == EnvPathRaw::Ref(raw),
            final(self).path == old(self).path,
    {
        self.raw = Self::create_ref_raw(raw);
    }

    /// Empties the raw sequence. The resolved path is left as it is.
    pub fn clear_raw(&mut self)
        ensures
            final(self).raw is Ref,
            final(self).raw@.len() == 0,
            final(self).path == old(self).path,
    {
        self.raw = EnvPathRaw::Ref(Vec::new());
    }
}

} // verus!
