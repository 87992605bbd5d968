// The packages of one resolution, found by their handles.
use crate::json::JsonValue;
use crate::numng_error::NumngError;
use crate::numng_error::NumngErrorView;
use crate::package::registry_path;
use crate::package_format::numng::{
    append_numng_package, append_parsed, forbidden_from, grows, handle_fits, outcome_is,
    parse_repos, parse_repos_from_package,
};
use crate::repo::numng::NumngRepo;
use crate::package::{fill_null, handles_below, Package, PackageId, PackageView};
use crate::repo::Repository;
use crate::semver::{SemVer, SemVerView};
use crate::plain::Plain;
use vstd::prelude::*;

verus! {

/// The packages of one resolution. Packages are only ever added, so a handle
/// stays good once it was given out.
#[derive(Debug, PartialEq)]
pub struct PackageCollection {
    packages: Vec<Package>,
}

impl View for PackageCollection {
    type V = Seq<PackageView>;

    closed spec fn view(&self) -> Seq<PackageView> {
        self.packages.deep_view()
    }
}

/// A registry that the root document names: the package that says where the
/// registry is fetched from, and the registry in its place in the store.
#[derive(Debug, PartialEq, Eq)]
pub struct Registry {
    pub package: Package,
    pub repo: NumngRepo,
}

/// The packages of a root document, read but not yet completed from the
/// registries.
#[derive(Debug, PartialEq)]
pub struct Resolution {
    pub collection: PackageCollection,
    /// The handle of the root package.
    pub root: PackageId,
    /// The registries from which the packages are to be completed, in this
    /// order, once each has been fetched.
    pub registries: Vec<Registry>,
}

/// Whether `id` is where `p` goes in `c`: the first place at which `c` holds
/// a package equal to `p`, or the end of `c` if it holds none.
pub open spec fn is_place_of(c: Seq<PackageView>, p: PackageView, id: int) -> bool {
    &&& 0 <= id <= c.len()
    &&& forall|j: int| 0 <= j < id ==> c[j] != p
    &&& id < c.len() ==> c[id] == p
}

/// The collection `c` once `p` has been put at `id`.
pub open spec fn with_package_at(c: Seq<PackageView>, p: PackageView, id: int) -> Seq<
    PackageView,
> {
    if id < c.len() {
        c
    } else {
        c.push(p)
    }
}

/// Whether every handle held by a package of `c` names a package of `c`.
pub open spec fn well_formed(c: Seq<PackageView>) -> bool {
    forall|i: int| 0 <= i < c.len() ==> handles_below(#[trigger] c[i], c.len() as int)
}

/// What a registry is asked about a package: the package's name, and its
/// version or, where it has none, the latest. A package without a name is not
/// asked about.
pub open spec fn registry_query(p: PackageView) -> Option<(Seq<char>, SemVerView)> {
    match p.name {
        Some(name) => Some(
            (
                name,
                match p.version {
                    Some(v) => v,
                    None => SemVerView::Latest,
                },
            ),
        ),
        None => None,
    }
}

/// What the records hold, as mathematical values.
pub open spec fn record_views(records: Seq<Option<Package>>) -> Seq<Option<PackageView>> {
    Seq::new(records.len(), |i: int| records[i].deep_view())
}

/// Whether `record`, with the collection `after`, is what asking the
/// registry about the package `p` gives while the collection is `before`. A
/// package without a name is not asked about: there is no record of it, and
/// the collection stays as it is.
pub open spec fn is_answer_for<R: Repository>(
    registry: &R,
    p: PackageView,
    before: Seq<PackageView>,
    after: Seq<PackageView>,
    record: Option<Package>,
) -> bool {
    match registry_query(p) {
        None => after == before && record is None,
        Some((name, version)) => registry.answers(
            before,
            name,
            version,
            after,
            Ok::<Option<Package>, NumngError>(record),
        ),
    }
}

/// Whether `records` are what the registry gave for the first `n` packages
/// of `start`, asked about one after the other, and `stages` the collections
/// on the way: `stages[0]` is `start`, and `stages[i + 1]` is what the answer
/// about package `i` left of `stages[i]`.
pub open spec fn is_registry_pass<R: Repository>(
    registry: &R,
    start: Seq<PackageView>,
    n: int,
    stages: Seq<Seq<PackageView>>,
    records: Seq<Option<Package>>,
) -> bool {
    &&& 0 <= n <= start.len()
    &&& stages.len() == n + 1
    &&& records.len() == n
    &&& stages[0] == start
    &&& forall|i: int|
        0 <= i < n ==> is_answer_for(
            registry,
            start[i],
            stages[i],
            stages[i + 1],
            #[trigger] records[i],
        )
}

/// Whether the collection `after` and the error `e` are what the registry
/// gave when it was asked about package `k` of `start`, after it had answered
/// for the packages before.
pub open spec fn is_registry_failure<R: Repository>(
    registry: &R,
    start: Seq<PackageView>,
    k: int,
    stages: Seq<Seq<PackageView>>,
    records: Seq<Option<Package>>,
    after: Seq<PackageView>,
    e: NumngError,
) -> bool {
    &&& is_registry_pass(registry, start, k, stages, records)
    &&& k < start.len()
    &&& registry_query(start[k]) matches Some((name, version)) && registry.answers(
        stages[k],
        name,
        version,
        after,
        Err::<Option<Package>, NumngError>(e),
    )
}

/// Whether the collection `after` and the result `r` are what completing
/// the packages of `before` from the registry gives.
///
/// The registry is asked about the packages in their order. If it answers
/// with an error, the work ends with that error, and the collection is as
/// the registry left it: the packages that were there are unchanged. If not,
/// each package is completed from the record that the registry gave for it.
pub open spec fn registry_applied<R: Repository>(
    registry: &R,
    before: Seq<PackageView>,
    after: Seq<PackageView>,
    r: Result<(), NumngError>,
) -> bool {
    match r {
        Ok(_) => exists|stages: Seq<Seq<PackageView>>, records: Seq<Option<Package>>|
            #![auto]
            is_registry_pass(registry, before, before.len() as int, stages, records) && grows(
                before,
                stages.last(),
            ) && after == filled_from(stages.last(), record_views(records)),
        Err(e) => grows(before, after) && exists|
            k: int,
            stages: Seq<Seq<PackageView>>,
            records: Seq<Option<Package>>,
        |
            #![auto]
            is_registry_failure(registry, before, k, stages, records, after, e),
    }
}

/// Whether a registry is not asked about any package of `c`: no package has
/// a name.
pub open spec fn asks_nothing(c: Seq<PackageView>) -> bool {
    forall|i: int| 0 <= i < c.len() ==> (#[trigger] c[i]).name is None
}

/// The collection `c` after each package was completed from the record that
/// stands at the package's place in `found`, if one stands there.
pub open spec fn filled_from(c: Seq<PackageView>, found: Seq<Option<PackageView>>) -> Seq<
    PackageView,
> {
    Seq::new(
        c.len(),
        |i: int|
            if 0 <= i < found.len() && found[i] is Some {
                fill_null(c[i], found[i]->0)
            } else {
                c[i]
            },
    )
}

/// The places in the store of the first `n` of the registries `packages`;
/// the first package that cannot serve as a registry is an error.
pub open spec fn registry_paths(packages: Seq<PackageView>, base_dir: Seq<char>, n: nat) -> Result<
    Seq<Seq<char>>,
    NumngErrorView,
>
    decreases n,
{
    if n == 0 || n > packages.len() {
        Ok(Seq::empty())
    } else {
        match registry_paths(packages, base_dir, (n - 1) as nat) {
            Err(e) => Err(e),
            Ok(paths) => match registry_path(packages[n - 1], base_dir) {
                Ok(path) => Ok(paths.push(path)),
                Err(e) => Err(e),
            },
        }
    }
}

/// Adding a package that is already there changes nothing and gives the
/// handle that the first addition gave.
pub proof fn lemma_append_twice(c: Seq<PackageView>, p: PackageView, first: int, second: int)
    requires
        is_place_of(c, p, first),
        is_place_of(with_package_at(c, p, first), p, second),
    ensures
        second == first,
        with_package_at(with_package_at(c, p, first), p, second) == with_package_at(c, p, first),
{
    let once = with_package_at(c, p, first);
    assert(once[first] == p);
}

/// An error among the first registries is the error of all.
proof fn lemma_registry_paths_error(packages: Seq<PackageView>, base_dir: Seq<char>, n: nat, m: nat)
    requires
        n <= m <= packages.len(),
        registry_paths(packages, base_dir, n) is Err,
    ensures
        registry_paths(packages, base_dir, m) == registry_paths(packages, base_dir, n),
    decreases m,
{
    if n < m {
        lemma_registry_paths_error(packages, base_dir, n, (m - 1) as nat);
    }
}

impl Clone for PackageCollection {
    fn clone(&self) -> (r: Self)
        ensures
            r@ == self@,
    {
        Self { packages: self.packages.copy() }
    }
}

impl PackageCollection {
    /// The collection without packages.
    pub fn new() -> (r: Self)
        ensures
            r@ == Seq::<PackageView>::empty(),
            r.wf(),
    {
        let r = Self { packages: Vec::new() };
        r
    }

    /// Whether every handle held by a package names a package of this
    /// collection.
    pub open spec fn wf(&self) -> bool {
        well_formed(self@)
    }

    /// Whether every handle held by a package names a package of this
    /// collection.
    pub fn handles_are_valid(&self) -> (r: bool)
        ensures
            r == self.wf(),
    {
        let n = self.packages.len();
        let mut i: usize = 0;
        while i < n
            invariant
                i <= n,
                n == self@.len(),
                forall|j: int| 0 <= j < i ==> handles_below(#[trigger] self@[j], n as int),
            decreases n - i,
        {
            let package = &self.packages[i];
            assert(self@[i as int] == package@);
            if !package.handles_are_below(n) {
                return false;
            }
            i += 1;
        }
        true
    }

    /// The number of packages.
    pub fn len(&self) -> (n: usize)
        ensures
            n == self@.len(),
    {
        self.packages.len()
    }

    /// Adds a package, unless an equal one is there already, and returns the
    /// handle under which the package is found from now on.
    pub fn append_package(&mut self, package: Package) -> (r: Result<PackageId, NumngError>)
        ensures
            r is Ok,
            is_place_of(old(self)@, package@, r->Ok_0 as int),
            final(self)@ == with_package_at(old(self)@, package@, r->Ok_0 as int),
            old(self).wf() && handles_below(package@, old(self)@.len() as int) ==> final(self).wf(),
    {
        let mut i: usize = 0;
        while i < self.packages.len()
            invariant
                i <= self.packages.len(),
                *self == *old(self),
                forall|j: int| 0 <= j < i ==> self@[j] != package@,
            decreases self.packages.len() - i,
        {
            if package.same(&self.packages[i]) {
                return Ok(i);
            }
            i += 1;
        }
        self.packages.push(package);
        Ok(self.packages.len() - 1)
    }

    /// Reads the package that `package_json` describes, with the packages
    /// that it links in and depends on, and puts them all into the
    /// collection; gives the package's handle.
    ///
    /// Where `allow_build_commands` is `Some(false)`, build commands are
    /// forbidden in every package that this call puts into the collection.
    pub fn append_numng_package_json(
        &mut self,
        package_json: &JsonValue,
        allow_build_commands: Option<bool>,
    ) -> (r: Result<PackageId, NumngError>)
        ensures
            final(self)@ == append_parsed(old(self)@, package_json@,
                allow_build_commands).collection,
            outcome_is(r, append_parsed(old(self)@, package_json@, allow_build_commands).outcome),
            grows(old(self)@, final(self)@),
            old(self).wf() ==> final(self).wf(),
            r is Ok ==> handle_fits(final(self)@, r->Ok_0, allow_build_commands),
            allow_build_commands == Some(false) ==> forbidden_from(
                final(self)@,
                old(self)@.len() as int,
            ),
    {
        append_numng_package(self, package_json, allow_build_commands)
    }

    /// What a registry is to be asked about each package, in the order of
    /// the packages.
    pub fn registry_queries(&self) -> (r: Vec<Option<(String, SemVer)>>)
        ensures
            r.len() == self@.len(),
            forall|i: int|
                0 <= i < self@.len() ==> (#[trigger] r@[i]).deep_view() == registry_query(self@[i]),
    {
        let mut queries: Vec<Option<(String, SemVer)>> = Vec::new();
        let mut i: usize = 0;
        while i < self.packages.len()
            invariant
                i <= self.packages.len(),
                queries.len() == i,
                forall|j: int|
                    0 <= j < i ==> (#[trigger] queries@[j]).deep_view() == registry_query(self@[j]),
            decreases self.packages.len() - i,
        {
            let package = &self.packages[i];
            let query = match &package.name {
                Some(name) => Some(
                    (
                        name.clone(),
                        match &package.version {
                            Some(v) => v.clone(),
                            None => SemVer::Latest,
                        },
                    ),
                ),
                None => None,
            };
            queries.push(query);
            i += 1;
        }
        queries
    }

    /// Completes each package from the registry's record that stands at the
    /// package's place in `found`, if one stands there. A package that
    /// ignores registries stays as it is, and no record changes whether a
    /// package allows build commands.
    pub fn apply_registry_packages(&mut self, found: &Vec<Option<Package>>)
        ensures
            final(self)@ == filled_from(old(self)@, found.deep_view()),
            final(self)@.len() == old(self)@.len(),
            forall|i: int|
                0 <= i < old(self)@.len() && old(self)@[i].ignore_registry == Some(true)
                    ==> #[trigger] final(self)@[i] == old(self)@[i],
            forall|i: int|
                0 <= i < old(self)@.len() ==> (#[trigger] final(self)@[i]).allow_build_commands
                    == old(self)@[i].allow_build_commands,
            old(self).wf() && (forall|i: int|
                0 <= i < found@.len() && found@[i] is Some ==> handles_below(
                    (#[trigger] found@[i])->0@,
                    old(self)@.len() as int,
                )) ==> final(self).wf(),
    {
        let ghost start = self@;
        let ghost records = found.deep_view();
        let mut i: usize = 0;
        while i < self.packages.len() && i < found.len()
            invariant
                i <= self.packages.len(),
                i <= found.len(),
                start == old(self)@,
                records == found.deep_view(),
                self@.len() == start.len(),
                forall|j: int| 0 <= j < i ==> #[trigger] self@[j] == filled_from(start, records)[j],
                forall|j: int| i <= j < start.len() ==> #[trigger] self@[j] == start[j],
            decreases self.packages.len() - i,
        {
            if let Some(record) = &found[i] {
                let mut package = self.packages[i].copy();
                assert(package@ == self@[i as int]);
                package.fill_null_values(record.copy());
                let ghost before = self@;
                self.packages.set(i, package);
                assert forall|j: int| 0 <= j < self@.len() && j != i implies #[trigger] self@[j]
                    == before[j] by {}
            }
            i += 1;
        }
    }

    /// Completes the packages from a registry: asks the registry about each
    /// package that has a name, then completes each package from the record
    /// that the registry gave for it.
    ///
    /// The registry is asked about the packages in their order, each with
    /// its name and its version or, where it has none, the latest. The first
    /// error of the registry ends the work and is the result; the collection
    /// is then as the registry left it, with no package completed. Otherwise
    /// each package is completed from the record that was given for it.
    ///
    /// Whatever the registry answers: the packages that were there stay at
    /// their places, a package that ignores registries stays as it is, and
    /// no package changes whether it allows build commands. Where no package
    /// has a name, the registry is not asked, and the collection stays as it
    /// is.
    pub fn apply_registry<R: Repository>(&mut self, registry: &R) -> (r: Result<(), NumngError>)
        ensures
            asks_nothing(old(self)@) ==> r is Ok && final(self)@ == old(self)@,
            old(self)@.len() <= final(self)@.len(),
            old(self).wf() ==> final(self).wf(),
            forall|i: int|
                0 <= i < old(self)@.len() && old(self)@[i].ignore_registry == Some(true)
                    ==> #[trigger] final(self)@[i] == old(self)@[i],
            forall|i: int|
                0 <= i < old(self)@.len() ==> (#[trigger] final(self)@[i]).allow_build_commands
                    == old(self)@[i].allow_build_commands,
            registry_applied(registry, old(self)@, final(self)@, r),
    {
        let queries = self.registry_queries();
        let ghost start = self@;
        let ghost mut stages: Seq<Seq<PackageView>> = seq![start];
        let mut found: Vec<Option<Package>> = Vec::new();
        let mut i: usize = 0;
        while i < queries.len()
            invariant
                i <= queries.len(),
                is_registry_pass(registry, start, i as int, stages, found@),
                stages.last() == self@,
                queries.len() == start.len(),
                start == old(self)@,
                found.len() == i,
                grows(start, self@),
                old(self).wf() ==> self.wf(),
                forall|j: int|
                    0 <= j < start.len() ==> (#[trigger] queries@[j]).deep_view() == registry_query(
                        start[j],
                    ),
                forall|j: int| 0 <= j < i && start[j].name is None ==> #[trigger] found@[j] is None,
                asks_nothing(start) ==> self@ == start,
                forall|j: int|
                    0 <= j < i && found@[j] is Some ==> handles_below(
                        (#[trigger] found@[j])->0@,
                        self@.len() as int,
                    ),
            decreases queries.len() - i,
        {
            let ghost stages_before = stages;
            let ghost found_before = found@;
            let record = match &queries[i] {
                Some((name, version)) => match registry.get_package(self, name, version) {
                    Ok(record) => record,
                    Err(e) => {
                        proof {
                            assert(queries@[i as int].deep_view() == registry_query(
                                start[i as int],
                            ));
                            assert(is_registry_failure(
                                registry,
                                start,
                                i as int,
                                stages,
                                found@,
                                self@,
                                e,
                            ));
                        }
                        return Err(e);
                    },
                },
                None => None,
            };
            found.push(record);
            proof {
                stages = stages_before.push(self@);
                assert(queries@[i as int].deep_view() == registry_query(start[i as int]));
                assert(is_answer_for(
                    registry,
                    start[i as int],
                    stages[i as int],
                    stages[i + 1],
                    found@[i as int],
                ));
                assert forall|j: int| 0 <= j < i + 1 implies is_answer_for(
                    registry,
                    start[j],
                    stages[j],
                    stages[j + 1],
                    #[trigger] found@[j],
                ) by {
                    if j < i {
                        assert(found@[j] == found_before[j]);
                        assert(stages[j] == stages_before[j]);
                        assert(stages[j + 1] == stages_before[j + 1]);
                    }
                }
            }
            i += 1;
        }
        let ghost mid = self@;
        self.apply_registry_packages(&found);
        proof {
            assert(record_views(found@) =~= found.deep_view());
            if asks_nothing(start) {
                let records = found.deep_view();
                assert forall|j: int| 0 <= j < records.len() implies records[j] is None by {
                    assert(start[j].name is None);
                    assert(found@[j] is None);
                }
                assert(filled_from(mid, records) =~= mid);
            }
        }
        Ok(())
    }

    /// The package under a handle that this collection gave out.
    pub fn package(&self, package_id: PackageId) -> (r: &Package)
        requires
            package_id < self@.len(),
        ensures
            r@ == self@[package_id as int],
    {
        &self.packages[package_id]
    }

    /// The package under a handle, if the handle names one.
    pub fn get_package(&self, package_id: PackageId) -> (r: Option<&Package>)
        ensures
            match r {
                Some(p) => package_id < self@.len() && p@ == self@[package_id as int],
                None => package_id >= self@.len(),
            },
    {
        if package_id < self.packages.len() {
            Some(&self.packages[package_id])
        } else {
            None
        }
    }
}

/// Reads a root document: the root package with all the packages that it
/// links in and depends on, and, if registries are to be used, the
/// registries that the document names.
///
/// The first error ends the work: one in the packages, then one in the
/// registries, then a registry that is of no format that can serve as one.
/// The packages are not yet completed from the registries: each registry is
/// fetched first, and then handed to `PackageCollection::apply_registry`.
pub fn parse_numng_json(
    json_value: &JsonValue,
    base_dir: &str,
    use_registry: bool,
    allow_build_commands: Option<bool>,
) -> (r: Result<Resolution, NumngError>)
    ensures
        match r {
            Ok(found) => {
                let parsed = append_parsed(Seq::empty(), json_value@, allow_build_commands);
                &&& parsed.outcome == Ok::<PackageId, NumngErrorView>(found.root)
                &&& found.collection@ == parsed.collection
                &&& found.collection.wf()
                &&& found.root < found.collection@.len()
                &&& if use_registry {
                    &&& parse_repos(json_value@) is Ok
                    &&& found.registries@.len() == parse_repos(json_value@)->Ok_0.len()
                    &&& forall|i: int|
                        0 <= i < found.registries@.len()
                            ==> (#[trigger] found.registries@[i]).package@
                            == parse_repos(json_value@)->Ok_0[i] && registry_path(
                            found.registries@[i].package@,
                            base_dir@,
                        ) == Ok::<Seq<char>, NumngErrorView>(found.registries@[i].repo@)
                } else {
                    found.registries@.len() == 0
                }
            },
            Err(e) => {
                let parsed = append_parsed(Seq::empty(), json_value@, allow_build_commands);
                if parsed.outcome is Err {
                    parsed.outcome == Err::<PackageId, NumngErrorView>(e@)
                } else {
                    use_registry && match parse_repos(json_value@) {
                        Err(error) => e@ == error,
                        Ok(packages) => registry_paths(packages, base_dir@, packages.len())
                            == Err::<
                            Seq<Seq<char>>,
                            NumngErrorView,
                        >(e@),
                    }
                }
            },
        },
{
    let mut collection = PackageCollection::new();
    let root = match collection.append_numng_package_json(json_value, allow_build_commands) {
        Ok(root) => root,
        Err(e) => {
            return Err(e);
        },
    };
    let mut registries: Vec<Registry> = Vec::new();
    if use_registry {
        let packages = match parse_repos_from_package(json_value) {
            Ok(packages) => packages,
            Err(e) => {
                return Err(e);
            },
        };
        let ghost shown = packages.deep_view();
        let ghost parsed = append_parsed(Seq::empty(), json_value@, allow_build_commands);
        let mut i: usize = 0;
        while i < packages.len()
            invariant
                i <= packages.len(),
                use_registry,
                shown == packages.deep_view(),
                parse_repos(json_value@) == Ok::<Seq<PackageView>, NumngErrorView>(shown),
                parsed == append_parsed(Seq::empty(), json_value@, allow_build_commands),
                parsed.outcome is Ok,
                registries.len() == i,
                registry_paths(shown, base_dir@, i as nat) is Ok,
                forall|j: int|
                    0 <= j < i ==> (#[trigger] registries@[j]).package@ == shown[j]
                        && registry_path(
                        registries@[j].package@,
                        base_dir@,
                    ) == Ok::<Seq<char>, NumngErrorView>(registries@[j].repo@),
            decreases packages.len() - i,
        {
            let repo = match packages[i].as_registry(base_dir) {
                Ok(repo) => repo,
                Err(e) => {
                    proof {
                        lemma_registry_paths_error(shown, base_dir@, (i + 1) as nat, shown.len());
                    }
                    return Err(e);
                },
            };
            registries.push(Registry { package: packages[i].copy(), repo });
            i += 1;
        }
    }
    Ok(Resolution { collection, root, registries })
}

} // verus!
