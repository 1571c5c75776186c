//! Conversions into a path that is not resolved yet.

use crate::envpath_core::EnvPath;
use crate::raw::EnvPathRaw;
use vstd::prelude::*;
use vstd::std_specs::convert::FromSpecImpl;

verus! {

impl<'r> From<Vec<&'r str>> for EnvPath<'r> {
    /// A path that borrows the texts of `raw`. It is not resolved: `de` does
    /// that.
    fn from(raw: Vec<&'r str>) -> (path: Self) {
        EnvPath { raw: EnvPathRaw::Ref(raw), path: None }
    }
}

impl<'r> FromSpecImpl<Vec<&'r str>> for EnvPath<'r> {
    open spec fn obeys_from_spec() -> bool {
        true
    }

    open spec fn from_spec(raw: Vec<&'r str>) -> Self {
        EnvPath { raw: EnvPathRaw::Ref(raw), path: None }
    }
}

impl From<Vec<String>> for EnvPath<'_> {
    /// A path that owns the texts of `raw`. It is not resolved: `de` does
    /// that.
    fn from(raw: Vec<String>) -> (path: Self) {
        EnvPath { raw: EnvPathRaw::Owned(raw), path: None }
    }
}

impl FromSpecImpl<Vec<String>> for EnvPath<'_> {
    open spec fn obeys_from_spec() -> bool {
        true
    }

    open spec fn from_spec(raw: Vec<String>) -> Self {
        EnvPath { raw: EnvPathRaw::Owned(raw), path: None }
    }
}

} // verus!
