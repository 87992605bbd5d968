// Registries.
use crate::numng_error::NumngError;
use crate::package::{handles_below, Package, PackageView};
use crate::package_collection::PackageCollection;
use crate::package_format::numng::grows;
use crate::semver::{SemVer, SemVerView};
use vstd::prelude::*;

pub mod numng;

verus! {

/// A registry: a place that knows packages by name and version.
pub trait Repository {
    /// Whether the registry, asked for the package `name` in a version that
    /// satisfies `version` while the collection is `before`, may give `r`
    /// and leave the collection as `after`. A registry that knows what its
    /// answers are says so here; of one that does not, every answer is
    /// possible.
    open spec fn answers(
        &self,
        before: Seq<PackageView>,
        name: Seq<char>,
        version: SemVerView,
        after: Seq<PackageView>,
        r: Result<Option<Package>, NumngError>,
    ) -> bool {
        true
    }

    /// Looks up the package `name` in a version that satisfies `version`.
    ///
    /// Returns the registry's record of the package, `None` where the
    /// registry does not know it, or an error. The packages that the record
    /// links in and depends on are put into `collection`; nothing else in the
    /// collection changes, and every handle in the record names a package of
    /// the collection.
    fn get_package(
        &self,
        collection: &mut PackageCollection,
        name: &String,
        version: &SemVer,
    ) -> (r: Result<Option<Package>, NumngError>)
        ensures
            self.answers(old(collection)@, name@, version@, final(collection)@, r),
            grows(old(collection)@, final(collection)@),
            old(collection).wf() ==> final(collection).wf(),
            r matches Ok(Some(p)) ==> handles_below(p@, final(collection)@.len() as int),
    ;
}

} // verus!
