//! Where authored patch bundles live and which ones are known to be missing.
use vstd::prelude::*;

use crate::key_set::PatchKeySet;
use crate::patch_key::PatchKey;

verus! {

/// Bundle availability: the base directory and the keys whose bundle could not be read.
pub struct PatchAssetState {
    base_path: String,
    missing: PatchKeySet,
}

/// Location of streamed patch bundles on disk (relative to the executable).
pub open spec fn default_patch_asset_dir() -> Seq<char> {
    "assets/planet_patches"@
}

impl PatchAssetState {
    /// Directory the bundles are read from.
    pub closed spec fn base_path_view(&self) -> Seq<char> {
        self.base_path@
    }

    /// Keys marked missing, in marking order.
    pub closed spec fn missing_view(&self) -> Seq<PatchKey> {
        self.missing@
    }

    /// Well-formedness: no key is marked twice.
    pub open spec fn wf(&self) -> bool {
        self.missing_view().no_duplicates()
    }

    /// Bundles under `assets/planet_patches`, none marked missing.
    pub fn new() -> (r: PatchAssetState)
        ensures
            r.wf(),
            r.base_path_view() == default_patch_asset_dir(),
            r.missing_view() == Seq::<PatchKey>::empty(),
    {
        let dir = "assets/planet_patches";
        PatchAssetState { base_path: dir.to_owned(), missing: PatchKeySet::new() }
    }

    /// Directory the bundles are read from.
    pub fn base_path(&self) -> (r: &str)
        ensures
            r@ == self.base_path_view(),
    {
        self.base_path.as_str()
    }

    /// Whether the bundle for `key` is known to be missing.
    pub fn is_marked_missing(&self, key: &PatchKey) -> (r: bool)
        ensures
            r == self.missing_view().contains(*key),
    {
        self.missing.contains(key)
    }

    /// Remembers that the bundle for `key` is missing.
    pub fn mark_missing(&mut self, key: PatchKey)
        requires
            old(self).wf(),
        ensures
            final(self).wf(),
            final(self).missing_view().to_set() == old(self).missing_view().to_set().insert(key),
            final(self).missing_view() == if old(self).missing_view().contains(key) {
                old(self).missing_view()
            } else {
                old(self).missing_view().push(key)
            },
            final(self).base_path_view() == old(self).base_path_view(),
    {
        let ghost before = self.missing@;
        self.missing.insert(key);
        proof {
            if before.contains(key) {
                assert(before.to_set().insert(key) =~= before.to_set());
            } else {
                before.lemma_push_to_set_commute(key);
            }
        }
    }
}

} // verus!
