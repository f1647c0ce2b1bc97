//! Patchsets: an ordered collection of references layered onto a base.
//!
//! A patchset names an optional base commit and a list of patch
//! references; a driver applies the patches in order through the store's
//! union-patch operation.  The types and reference parsing live here; the
//! driver loop, which mounts and copies, is the binary's.

use vstd::prelude::*;

use crate::refs::{ref_parses_to, StratumRef};

verus! {

/// The stored fields of a patchset.
#[derive(Debug, Clone)]
pub struct PatchsetData {
    /// The base commit reference, if named.
    pub base_commit: Option<String>,
    /// The patch references, in application order.
    pub patches: Vec<String>,
}

/// A patchset.
#[derive(Debug, Clone)]
pub struct Patchset {
    pub patchset: PatchsetData,
}

impl Patchset {
    /// A patchset over the given base and patches.
    pub fn new(base_commit: Option<String>, patches: Vec<String>) -> (r: Patchset)
        ensures
            r.patchset.base_commit == base_commit,
            r.patchset.patches == patches,
    {
        Patchset { patchset: PatchsetData { base_commit, patches } }
    }

    /// The base commit as a parsed reference, if one is named.
    pub fn base_commit(&self) -> (r: Option<StratumRef>)
        ensures
            match self.patchset.base_commit {
                Some(b) => r matches Some(sr) && ref_parses_to(b@, sr),
                None => r is None,
            },
    {
        match &self.patchset.base_commit {
            Some(b) => Some(StratumRef::parse(b.as_str())),
            None => None,
        }
    }

    /// The patches as parsed references, in order.
    pub fn patches(&self) -> (r: Vec<StratumRef>)
        ensures
            r@.len() == self.patchset.patches@.len(),
            forall|i: int|
                0 <= i < r@.len() ==> ref_parses_to(
                    (#[trigger] self.patchset.patches@[i])@,
                    r@[i],
                ),
    {
        let n = self.patchset.patches.len();
        let mut out: Vec<StratumRef> = Vec::new();
        let mut i: usize = 0;
        while i < n
            invariant
                0 <= i <= n,
                n == self.patchset.patches@.len(),
                out@.len() == i,
                forall|j: int|
                    0 <= j < i ==> ref_parses_to(
                        (#[trigger] self.patchset.patches@[j])@,
                        out@[j],
                    ),
            decreases n - i,
        {
            let sr = StratumRef::parse(self.patchset.patches[i].as_str());
            out.push(sr);
            i += 1;
        }
        out
    }
}

} // verus!
