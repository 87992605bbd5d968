// The registry of the primary format: one JSON file for each package, which
// maps versions to records of the package.
use crate::json::{document_of, JsonData, JsonDataView, JsonValue, JsonView};
use crate::numng_error::{NumngError, NumngErrorView};
use crate::package::{empty_package, fill_null, handles_below, Package, PackageView};
use crate::package_collection::{
    filled_from, is_answer_for, is_registry_failure, is_registry_pass, record_views,
    registry_applied, registry_query, PackageCollection,
};
use crate::package_format::numng::{
    append_parsed, grows, is_simple_root, is_source_record, lemma_simple_root,
    lemma_source_record, named_package, outcome_is, parse_numng_package, parse_package,
    simple_root, Parsed,
};
use crate::plain::Plain;
use crate::repo::Repository;
use crate::semver::{
    parse_version, same_numbers_present, version_greater, version_matches, SemVer, SemVerView,
};
use crate::text::{chars_of, followed_by, lemma_deep_view_push, owned};
use crate::util::{join_path, path_join};
use vstd::prelude::*;

verus! {

/// A registry in the primary format: a directory that holds one file for
/// each package it knows, named after the package.
#[derive(Debug, PartialEq, Eq)]
pub struct NumngRepo {
    base_path: String,
}

impl View for NumngRepo {
    type V = Seq<char>;

    closed spec fn view(&self) -> Seq<char> {
        self.base_path@
    }
}

/// What was found where a registry keeps the file of a package.
#[derive(Debug, PartialEq, Eq)]
pub enum RegistryFile {
    /// There is no file.
    Missing,
    /// There is a file, but it could not be read; holds the system's message.
    Unreadable(String),
    /// There is a file, but what it holds is no text; holds the decoder's
    /// message.
    NotText(String),
    /// The file's text.
    Text(String),
}

/// What a `RegistryFile` holds, as mathematical values.
pub enum RegistryFileView {
    Missing,
    Unreadable(Seq<char>),
    NotText(Seq<char>),
    Text(Seq<char>),
}

impl View for RegistryFile {
    type V = RegistryFileView;

    open spec fn view(&self) -> RegistryFileView {
        match *self {
            RegistryFile::Missing => RegistryFileView::Missing,
            RegistryFile::Unreadable(message) => RegistryFileView::Unreadable(message@),
            RegistryFile::NotText(message) => RegistryFileView::NotText(message@),
            RegistryFile::Text(text) => RegistryFileView::Text(text@),
        }
    }
}

impl DeepView for RegistryFile {
    type V = RegistryFileView;

    open spec fn deep_view(&self) -> RegistryFileView {
        self.view()
    }
}

impl Plain for RegistryFile {
    fn same(&self, other: &Self) -> (r: bool) {
        match (self, other) {
            (RegistryFile::Missing, RegistryFile::Missing) => true,
            (RegistryFile::Unreadable(a), RegistryFile::Unreadable(b)) => a.same(b),
            (RegistryFile::NotText(a), RegistryFile::NotText(b)) => a.same(b),
            (RegistryFile::Text(a), RegistryFile::Text(b)) => a.same(b),
            _ => false,
        }
    }

    fn copy(&self) -> (r: Self) {
        match self {
            RegistryFile::Missing => RegistryFile::Missing,
            RegistryFile::Unreadable(message) => RegistryFile::Unreadable(message.copy()),
            RegistryFile::NotText(message) => RegistryFile::NotText(message.copy()),
            RegistryFile::Text(text) => RegistryFile::Text(text.copy()),
        }
    }
}

/// A registry of the primary format whose files were read beforehand: for
/// each package that is going to be asked for, what was found where the
/// registry keeps the package's file.
#[derive(Debug, PartialEq, Eq)]
pub struct LoadedRepo {
    repo: NumngRepo,
    files: Vec<(String, RegistryFile)>,
}

/// What a `LoadedRepo` holds, as mathematical values.
pub struct LoadedRepoView {
    pub base_path: Seq<char>,
    pub files: Seq<(Seq<char>, RegistryFileView)>,
}

impl View for LoadedRepo {
    type V = LoadedRepoView;

    closed spec fn view(&self) -> LoadedRepoView {
        LoadedRepoView { base_path: self.repo@, files: self.files.deep_view() }
    }
}

/// What was found for the package `name` according to the first `n` of
/// `files`: what the first of them with that name says, and that the file is
/// missing if there is none.
pub open spec fn loaded_file(
    files: Seq<(Seq<char>, RegistryFileView)>,
    name: Seq<char>,
    n: nat,
) -> RegistryFileView
    decreases n,
{
    if n == 0 || n > files.len() {
        RegistryFileView::Missing
    } else if exists|i: int| 0 <= i < n - 1 && (#[trigger] files[i]).0 == name {
        loaded_file(files, name, (n - 1) as nat)
    } else if files[n - 1].0 == name {
        files[n - 1].1
    } else {
        RegistryFileView::Missing
    }
}

/// Whether `r` and the collection `after` are what looking up the package
/// `name` gives in a registry at `base_path` that holds `file` for the
/// package, with the collection `before`.
///
/// A name that would lead out of the registry is refused before the file is
/// looked at. A missing file means that the registry does not know the
/// package. A file that cannot be read, that holds no text, or whose text is
/// no JSON is an error; any other file is read as `select_from` says.
pub open spec fn is_lookup(
    base_path: Seq<char>,
    before: Seq<PackageView>,
    after: Seq<PackageView>,
    name: Seq<char>,
    version: SemVerView,
    file: RegistryFileView,
    r: Result<Option<Package>, NumngError>,
) -> bool {
    if name_escapes(name) {
        after == before && (r matches Err(e) && e@ == escape_error(name))
    } else {
        match file {
            RegistryFileView::Missing => after == before && r == Ok::<Option<Package>, NumngError>(
                None,
            ),
            RegistryFileView::Unreadable(message) => after == before && (r matches Err(e) && e@
                == NumngErrorView::IoError(message)),
            RegistryFileView::NotText(message) => after == before && (r matches Err(e) && e@
                == NumngErrorView::InvalidJsonError(message)),
            RegistryFileView::Text(text) => match document_of(text) {
                None => after == before && (r matches Err(e) && e is InvalidJsonError),
                Some(doc) => {
                    let found = select_from(before, record_path(base_path, name), version, doc);
                    after == found.collection && outcome_is(r, found.outcome)
                },
            },
        }
    }
}

/// Whether a package's name would lead out of the registry's directory: it
/// holds a `/`, or two dots in a row.
pub open spec fn name_escapes(name: Seq<char>) -> bool {
    ||| exists|i: int| 0 <= i < name.len() && name[i] == '/'
    ||| exists|i: int| 0 <= i < name.len() - 1 && name[i] == '.' && #[trigger] name[i + 1] == '.'
}

/// The file in which the registry at `base_path` keeps the package `name`.
pub open spec fn record_path(base_path: Seq<char>, name: Seq<char>) -> Seq<char> {
    path_join(base_path, name + ".json"@)
}

/// The error for a package's name that would lead out of the registry.
pub open spec fn escape_error(name: Seq<char>) -> NumngErrorView {
    NumngErrorView::SecurityError("Package-name escapes NumngRepo.base_path: "@ + name)
}

/// The error for a registry file whose document is no mapping.
pub open spec fn format_error(path: Seq<char>) -> NumngErrorView {
    NumngErrorView::InvalidRegistryFormat(
        path,
        "NumngRepo package-json does not have a record as root-element"@,
    )
}

/// The versions that the keys of the first `n` members spell; the first key
/// that spells none is an error.
pub open spec fn read_versions(members: Seq<(Seq<char>, JsonView)>, n: nat) -> Result<
    Seq<SemVerView>,
    NumngErrorView,
>
    decreases n,
{
    if n == 0 || n > members.len() {
        Ok(Seq::empty())
    } else {
        match read_versions(members, (n - 1) as nat) {
            Err(e) => Err(e),
            Ok(versions) => match parse_version(members[n - 1].0) {
                Ok(v) => Ok(versions.push(v)),
                Err(e) => Err(e),
            },
        }
    }
}

/// Where among the first `n` versions the registry's fallback key stands
/// first, if anywhere.
pub open spec fn fallback_index(versions: Seq<SemVerView>, n: nat) -> Option<int>
    decreases n,
{
    if n == 0 || n > versions.len() {
        None
    } else {
        match fallback_index(versions, (n - 1) as nat) {
            Some(i) => Some(i),
            None => if versions[n - 1] is RegistryFallbackValues {
                Some(n - 1)
            } else {
                None
            },
        }
    }
}

/// Which of the first `n` versions is chosen for `pattern`: of those that
/// satisfy the pattern, taken in order, one stays chosen as long as it is
/// later than the next one, and gives way to the next one otherwise.
pub open spec fn best_index(pattern: SemVerView, versions: Seq<SemVerView>, n: nat) -> Option<int>
    decreases n,
{
    if n == 0 || n > versions.len() {
        None
    } else {
        let before = best_index(pattern, versions, (n - 1) as nat);
        if !version_matches(pattern, versions[n - 1]) {
            before
        } else {
            match before {
                Some(j) => if 0 <= j < versions.len() && version_greater(
                    versions[j],
                    versions[n - 1],
                ) {
                    Some(j)
                } else {
                    Some(n - 1)
                },
                None => Some(n - 1),
            }
        }
    }
}

/// Whether the versions among the first `n` that satisfy `pattern` are all
/// numbered and give the same of their three numbers.
pub open spec fn matching_alike(pattern: SemVerView, versions: Seq<SemVerView>, n: nat) -> bool {
    forall|i: int, j: int|
        0 <= i < n && 0 <= j < n && version_matches(pattern, #[trigger] versions[i])
            && version_matches(pattern, #[trigger] versions[j]) ==> same_numbers_present(
            versions[i],
            versions[j],
        )
}

/// What the registry file with the document `doc`, kept at `path`, gives for
/// `pattern`, and what the collection `c` becomes.
///
/// The document must be a mapping from versions to packages. The version
/// that is chosen is read as a package; if the file has an entry under the
/// fallback key, that entry is read as a package too and completes the
/// first. The packages that the two link in and depend on go into the
/// collection.
pub open spec fn select_from(
    c: Seq<PackageView>,
    path: Seq<char>,
    pattern: SemVerView,
    doc: JsonView,
) -> Parsed<Option<PackageView>> {
    match doc.data {
        JsonDataView::Object(members) => match read_versions(members, members.len()) {
            Err(e) => Parsed { collection: c, outcome: Err(e) },
            Ok(versions) => match best_index(pattern, versions, versions.len()) {
                None => Parsed { collection: c, outcome: Ok(None) },
                Some(b) => {
                    let first = parse_package(c, members[b].1, None);
                    match first.outcome {
                        Err(e) => Parsed { collection: first.collection, outcome: Err(e) },
                        Ok(p) => match fallback_index(versions, versions.len()) {
                            None => Parsed { collection: first.collection, outcome: Ok(Some(p)) },
                            Some(f) => {
                                let second = parse_package(first.collection, members[f].1, None);
                                Parsed {
                                    collection: second.collection,
                                    outcome: match second.outcome {
                                        Err(e) => Err(e),
                                        Ok(fallback) => Ok(Some(fill_null(p, fallback))),
                                    },
                                }
                            },
                        },
                    }
                },
            },
        },
        _ => Parsed { collection: c, outcome: Err(format_error(path)) },
    }
}

/// The chosen version satisfies the pattern; no version is chosen only if
/// none satisfies it.
pub proof fn lemma_best_index(pattern: SemVerView, versions: Seq<SemVerView>, n: nat)
    requires
        n <= versions.len(),
    ensures
        match best_index(pattern, versions, n) {
            Some(j) => 0 <= j < n && version_matches(pattern, versions[j]),
            None => forall|i: int| 0 <= i < n ==> !version_matches(pattern, #[trigger] versions[i]),
        },
    decreases n,
{
    if n > 0 {
        lemma_best_index(pattern, versions, (n - 1) as nat);
    }
}

/// Where the versions that satisfy the pattern are all numbered and give the
/// same of their three numbers, the chosen version is the latest: none of
/// the others is later.
pub proof fn lemma_best_is_latest(pattern: SemVerView, versions: Seq<SemVerView>, n: nat)
    requires
        n <= versions.len(),
        matching_alike(pattern, versions, n),
    ensures
        best_index(pattern, versions, n) matches Some(b) ==> forall|i: int|
            0 <= i < n && version_matches(pattern, #[trigger] versions[i]) ==> !version_greater(
                versions[i],
                versions[b],
            ),
    decreases n,
{
    if n > 0 {
        let m = (n - 1) as nat;
        lemma_best_is_latest(pattern, versions, m);
        lemma_best_index(pattern, versions, m);
        let last = versions[n - 1];
        if version_matches(pattern, last) {
            match best_index(pattern, versions, m) {
                Some(j) => {
                },
                None => {},
            }
        }
    }
}

/// The fallback key stands where `fallback_index` says, and nowhere before.
pub proof fn lemma_fallback_index(versions: Seq<SemVerView>, n: nat)
    requires
        n <= versions.len(),
    ensures
        match fallback_index(versions, n) {
            Some(j) => 0 <= j < n && versions[j] is RegistryFallbackValues,
            None => forall|i: int| 0 <= i < n
                ==> !(#[trigger] versions[i] is RegistryFallbackValues),
        },
    decreases n,
{
    if n > 0 {
        lemma_fallback_index(versions, (n - 1) as nat);
    }
}

/// Whether the document of a registry file holds one version, a numbered
/// one, with a record that says where the package comes from and nothing
/// else.
pub open spec fn is_single_source_file(file_doc: JsonView, source_uri: Seq<char>) -> bool {
    file_doc.data matches JsonDataView::Object(members) && members.len() == 1 && (parse_version(
        members[0].0,
    ) matches Ok(v) && v is Normal) && is_source_record(members[0].1, source_uri)
}

/// A registry file with one numbered version gives that version's record
/// to whoever asks for the latest, and leaves the collection as it is.
pub proof fn lemma_single_source_file(
    c: Seq<PackageView>,
    path: Seq<char>,
    file_doc: JsonView,
    source_uri: Seq<char>,
)
    requires
        is_single_source_file(file_doc, source_uri),
    ensures
        select_from(c, path, SemVerView::Latest, file_doc).collection == c,
        select_from(c, path, SemVerView::Latest, file_doc).outcome == Ok::<
            Option<PackageView>,
            NumngErrorView,
        >(Some(PackageView { source_uri: Some(source_uri), ..empty_package() })),
{
    let members = file_doc.data->Object_0;
    let v = parse_version(members[0].0)->Ok_0;
    assert(read_versions(members, 0) == Ok::<Seq<SemVerView>, NumngErrorView>(Seq::empty()));
    let versions = read_versions(members, 1)->Ok_0;
    assert(versions =~= seq![v]);
    assert(best_index(SemVerView::Latest, versions, 0) is None);
    assert(best_index(SemVerView::Latest, versions, 1) == Some(0int));
    assert(fallback_index(versions, 0) is None);
    assert(fallback_index(versions, 1) is None);
    lemma_source_record(c, members[0].1, source_uri, None);
}

/// What a loaded registry answers about a package for which it holds a file
/// with one numbered version: that version's record, with the collection
/// left as it is.
proof fn lemma_answer_from_single_source_file(
    registry: &LoadedRepo,
    c: Seq<PackageView>,
    name: Seq<char>,
    text: Seq<char>,
    source_uri: Seq<char>,
    after: Seq<PackageView>,
    r: Result<Option<Package>, NumngError>,
)
    requires
        !name_escapes(name),
        loaded_file(registry@.files, name, registry@.files.len()) == RegistryFileView::Text(text),
        document_of(text) matches Some(file_doc) && is_single_source_file(file_doc, source_uri),
        registry.answers(c, name, SemVerView::Latest, after, r),
    ensures
        after == c,
        r matches Ok(record) && record.deep_view() == Some(
            PackageView { source_uri: Some(source_uri), ..empty_package() },
        ),
{
    let file_doc = document_of(text)->0;
    lemma_single_source_file(c, record_path(registry@.base_path, name), file_doc, source_uri);
}

/// What a loaded registry answers about a package for which it holds no
/// file: that it does not know the package.
proof fn lemma_answer_without_file(
    registry: &LoadedRepo,
    c: Seq<PackageView>,
    name: Seq<char>,
    after: Seq<PackageView>,
    r: Result<Option<Package>, NumngError>,
)
    requires
        !name_escapes(name),
        loaded_file(registry@.files, name, registry@.files.len()) == RegistryFileView::Missing,
        registry.answers(c, name, SemVerView::Latest, after, r),
    ensures
        after == c,
        r == Ok::<Option<Package>, NumngError>(None),
{
}

/// Completing two packages, the first from a record that says where it comes
/// from, the second from no record.
proof fn lemma_first_takes_source(
    first: PackageView,
    root: PackageView,
    source_uri: Seq<char>,
    views: Seq<Option<PackageView>>,
)
    requires
        first.ignore_registry is None,
        first.source_uri is None,
        first.name is Some,
        views.len() == 2,
        views[0] == Some(PackageView { source_uri: Some(source_uri), ..empty_package() }),
        views[1] is None,
    ensures
        filled_from(seq![first, root], views) == seq![
            PackageView { source_uri: Some(source_uri), ..first },
            root,
        ],
{
    let c = seq![first, root];
    let after = filled_from(c, views);
    assert(after[0] == fill_null(c[0], views[0]->0));
    assert(after[1] == c[1]);
    assert(after =~= seq![PackageView { source_uri: Some(source_uri), ..first }, root]);
}

/// A root package that names one dependency, and a registry that knows
/// where the dependency comes from.
///
/// Let a root document describe a package by its name, its source and one
/// dependency given by name, and let the registry hold, for the dependency,
/// a file with one numbered version whose record says where the package
/// comes from, and no file for the root. Then completing the packages of the
/// document from the registry succeeds, and leaves two packages: the
/// dependency, which has its source from the registry, and the root as the
/// document describes it.
pub proof fn lemma_dependency_completed_from_registry(
    doc: JsonView,
    name: Seq<char>,
    source_uri: Seq<char>,
    dependency: Seq<char>,
    allow: Option<bool>,
    registry: &LoadedRepo,
    text: Seq<char>,
    record_source: Seq<char>,
    after: Seq<PackageView>,
    r: Result<(), NumngError>,
)
    requires
        is_simple_root(doc, name, source_uri, dependency),
        !name_escapes(name),
        !name_escapes(dependency),
        loaded_file(registry@.files, dependency, registry@.files.len()) == RegistryFileView::Text(
            text,
        ),
        document_of(text) matches Some(file_doc) && is_single_source_file(file_doc, record_source),
        loaded_file(registry@.files, name, registry@.files.len()) == RegistryFileView::Missing,
        registry_applied(registry, append_parsed(Seq::empty(), doc, allow).collection, after, r),
    ensures
        r is Ok,
        append_parsed(Seq::empty(), doc, allow).outcome == Ok::<usize, NumngErrorView>(1usize),
        after == seq![
            PackageView { source_uri: Some(record_source), ..named_package(dependency, allow) },
            simple_root(name, source_uri, allow),
        ],
{
    lemma_simple_root(doc, name, source_uri, dependency, allow);
    let start = append_parsed(Seq::empty(), doc, allow).collection;
    let first = named_package(dependency, allow);
    let root = simple_root(name, source_uri, allow);
    lemma_two_packages_completed(
        registry,
        start,
        first,
        root,
        name,
        dependency,
        text,
        record_source,
        after,
        r,
    );
}

/// The same, of the two packages once they are read.
proof fn lemma_two_packages_completed(
    registry: &LoadedRepo,
    start: Seq<PackageView>,
    first: PackageView,
    root: PackageView,
    name: Seq<char>,
    dependency: Seq<char>,
    text: Seq<char>,
    record_source: Seq<char>,
    after: Seq<PackageView>,
    r: Result<(), NumngError>,
)
    requires
        start == seq![first, root],
        registry_query(first) == Some((dependency, SemVerView::Latest)),
        registry_query(root) == Some((name, SemVerView::Latest)),
        first.ignore_registry is None,
        first.source_uri is None,
        !name_escapes(name),
        !name_escapes(dependency),
        loaded_file(registry@.files, dependency, registry@.files.len()) == RegistryFileView::Text(
            text,
        ),
        document_of(text) matches Some(file_doc) && is_single_source_file(file_doc, record_source),
        loaded_file(registry@.files, name, registry@.files.len()) == RegistryFileView::Missing,
        registry_applied(registry, start, after, r),
    ensures
        r is Ok,
        after == seq![PackageView { source_uri: Some(record_source), ..first }, root],
{
    assert(start[0] == first && start[1] == root && start.len() == 2);
    match r {
        Ok(_) => {
            let (stages, records) = choose|
                stages: Seq<Seq<PackageView>>,
                records: Seq<Option<Package>>,
            |
                #![auto]
                is_registry_pass(registry, start, start.len() as int, stages, records) && grows(
                    start,
                    stages.last(),
                ) && after == filled_from(stages.last(), record_views(records));
            assert(is_answer_for(registry, start[0], stages[0], stages[1], records[0]));
            lemma_answer_from_single_source_file(
                registry,
                stages[0],
                dependency,
                text,
                record_source,
                stages[1],
                Ok(records[0]),
            );
            assert(is_answer_for(registry, start[1], stages[1], stages[2], records[1]));
            lemma_answer_without_file(registry, stages[1], name, stages[2], Ok(records[1]));
            assert(stages.last() == start);
            let views = record_views(records);
            assert(views[0] == records[0].deep_view());
            assert(views[1] == records[1].deep_view());
            lemma_first_takes_source(first, root, record_source, views);
        },
        Err(e) => {
            let (k, stages, records) = choose|
                k: int,
                stages: Seq<Seq<PackageView>>,
                records: Seq<Option<Package>>,
            |
                #![auto]
                is_registry_failure(registry, start, k, stages, records, after, e);
            if k == 0 {
                lemma_answer_from_single_source_file(
                    registry,
                    stages[0],
                    dependency,
                    text,
                    record_source,
                    after,
                    Err(e),
                );
            } else {
                assert(k == 1);
                assert(is_answer_for(registry, start[0], stages[0], stages[1], records[0]));
                lemma_answer_from_single_source_file(
                    registry,
                    stages[0],
                    dependency,
                    text,
                    record_source,
                    stages[1],
                    Ok(records[0]),
                );
                lemma_answer_without_file(registry, stages[1], name, after, Err(e));
            }
        },
    }
}

/// The file of a name is the one that was taken up first for it.
proof fn lemma_loaded_file(
    files: Seq<(Seq<char>, RegistryFileView)>,
    name: Seq<char>,
    i: int,
    n: nat,
)
    requires
        0 <= i < n <= files.len(),
        files[i].0 == name,
        forall|j: int| 0 <= j < i ==> (#[trigger] files[j]).0 != name,
    ensures
        loaded_file(files, name, n) == files[i].1,
    decreases n,
{
    if i < n - 1 {
        lemma_loaded_file(files, name, i, (n - 1) as nat);
    }
}

/// A name for which nothing was taken up has no file.
proof fn lemma_not_loaded(files: Seq<(Seq<char>, RegistryFileView)>, name: Seq<char>, n: nat)
    requires
        n <= files.len(),
        forall|j: int| 0 <= j < n ==> (#[trigger] files[j]).0 != name,
    ensures
        loaded_file(files, name, n) == RegistryFileView::Missing,
    decreases n,
{
    if n > 0 {
        lemma_not_loaded(files, name, (n - 1) as nat);
    }
}

/// An error among the first keys is the error of all keys.
proof fn lemma_read_versions_error(members: Seq<(Seq<char>, JsonView)>, n: nat, m: nat)
    requires
        n <= m <= members.len(),
        read_versions(members, n) is Err,
    ensures
        read_versions(members, m) == read_versions(members, n),
    decreases m,
{
    if n < m {
        lemma_read_versions_error(members, n, (m - 1) as nat);
    }
}

/// Whether a package's name would lead out of the registry's directory.
fn escapes(name: &Vec<char>) -> (r: bool)
    ensures
        r == name_escapes(name@),
{
    let mut i: usize = 0;
    while i < name.len()
        invariant
            i <= name.len(),
            forall|j: int| 0 <= j < i ==> name@[j] != '/',
            forall|j: int| 0 <= j < i && j < name.len() - 1 ==> !(name@[j] == '.'
                && #[trigger] name@[j
                + 1] == '.'),
        decreases name.len() - i,
    {
        if name[i] == '/' {
            return true;
        }
        if name[i] == '.' && i + 1 < name.len() && name[i + 1] == '.' {
            return true;
        }
        i += 1;
    }
    false
}

impl NumngRepo {
    /// The registry in the directory `base_path`.
    pub fn new(base_path: String) -> (r: Self)
        ensures
            r@ == base_path@,
    {
        Self { base_path }
    }

    /// The registry's directory.
    pub fn base_path(&self) -> (r: &String)
        ensures
            r@ == self@,
    {
        &self.base_path
    }

    /// The file in which the registry keeps the package `name`. A name that
    /// holds a `/` or two dots in a row is refused: it would lead out of the
    /// registry's directory.
    pub fn package_file(&self, name: &String) -> (r: Result<String, NumngError>)
        ensures
            match r {
                Ok(path) => !name_escapes(name@) && path@ == record_path(self@, name@),
                Err(e) => name_escapes(name@) && e@ == escape_error(name@),
            },
    {
        let text = chars_of(name.as_str());
        if escapes(&text) {
            return Err(
                NumngError::SecurityError(
                    followed_by("Package-name escapes NumngRepo.base_path: ", name.as_str()),
                ),
            );
        }
        let file = followed_by(name.as_str(), ".json");
        Ok(join_path(self.base_path.as_str(), file.as_str()))
    }

    /// Looks up a version that satisfies `version` in the document of a
    /// registry file, which is kept at `path`.
    pub fn select_package(
        collection: &mut PackageCollection,
        path: &String,
        version: &SemVer,
        document: &JsonValue,
    ) -> (r: Result<Option<Package>, NumngError>)
        ensures
            final(collection)@ == select_from(old(collection)@, path@, version@,
                document@).collection,
            outcome_is(r, select_from(old(collection)@, path@, version@, document@).outcome),
            grows(old(collection)@, final(collection)@),
            old(collection).wf() ==> final(collection).wf(),
            r matches Ok(Some(p)) ==> handles_below(p@, final(collection)@.len() as int),
    {
        let members = match &document.data {
            JsonData::Object(members) => members,
            _ => {
                return Err(
                    NumngError::InvalidRegistryFormat(
                        path.clone(),
                        owned("NumngRepo package-json does not have a record as root-element"),
                    ),
                );
            },
        };
        let ghost shown = document@.data->Object_0;
        let mut versions: Vec<SemVer> = Vec::new();
        let mut i: usize = 0;
        assert(versions.deep_view() =~= Seq::<SemVerView>::empty());
        while i < members.len()
            invariant
                i <= members.len(),
                *collection == *old(collection),
                document@.data is Object,
                shown == document@.data->Object_0,
                shown.len() == members.len(),
                forall|j: int|
                    0 <= j < members.len()
                        ==> #[trigger] shown[j] == (members[j].0@, members[j].1@),
                read_versions(shown, i as nat) == Ok::<Seq<SemVerView>, NumngErrorView>(
                    versions.deep_view(),
                ),
                versions.len() == i,
            decreases members.len() - i,
        {
            match SemVer::from_string(&members[i].0) {
                Ok(v) => {
                    let ghost before = versions;
                    versions.push(v);
                    proof {
                        lemma_deep_view_push(before, versions, v);
                    }
                },
                Err(e) => {
                    proof {
                        lemma_read_versions_error(shown, (i + 1) as nat, shown.len());
                    }
                    return Err(e);
                },
            }
            i += 1;
        }
        let ghost all = versions.deep_view();
        let mut fallback: Option<usize> = None;
        let mut best: Option<usize> = None;
        let mut k: usize = 0;
        while k < versions.len()
            invariant
                k <= versions.len(),
                all == versions.deep_view(),
                fallback == (match fallback_index(all, k as nat) {
                    Some(j) => Some(j as usize),
                    None => None,
                }),
                best == (match best_index(version@, all, k as nat) {
                    Some(j) => Some(j as usize),
                    None => None,
                }),
            decreases versions.len() - k,
        {
            proof {
                lemma_best_index(version@, all, k as nat);
            }
            if fallback.is_none() {
                if let SemVer::RegistryFallbackValues = &versions[k] {
                    fallback = Some(k);
                }
            }
            if version.matches(&versions[k]) {
                best = match best {
                    Some(j) => if versions[j].greater_than(&versions[k]) {
                        Some(j)
                    } else {
                        Some(k)
                    },
                    None => Some(k),
                };
            }
            k += 1;
        }
        proof {
            lemma_best_index(version@, all, all.len());
            lemma_fallback_index(all, all.len());
        }
        let best = match best {
            Some(b) => b,
            None => {
                return Ok(None);
            },
        };
        let mut package = match parse_numng_package(collection, &members[best].1, None) {
            Ok(package) => package,
            Err(e) => {
                return Err(e);
            },
        };
        if let Some(f) = fallback {
            let filler = match parse_numng_package(collection, &members[f].1, None) {
                Ok(filler) => filler,
                Err(e) => {
                    return Err(e);
                },
            };
            package.fill_null_values(filler);
        }
        Ok(Some(package))
    }

    /// Looks up the package `name` in a version that satisfies `version`,
    /// given what was found where the registry keeps the package's file
    /// (see `package_file`).
    pub fn get_package(
        &self,
        collection: &mut PackageCollection,
        name: &String,
        version: &SemVer,
        file: RegistryFile,
    ) -> (r: Result<Option<Package>, NumngError>)
        ensures
            grows(old(collection)@, final(collection)@),
            old(collection).wf() ==> final(collection).wf(),
            r matches Ok(Some(p)) ==> handles_below(p@, final(collection)@.len() as int),
            is_lookup(self@, old(collection)@, final(collection)@, name@, version@, file@, r),
    {
        let path = match self.package_file(name) {
            Ok(path) => path,
            Err(e) => {
                return Err(e);
            },
        };
        match file {
            RegistryFile::Missing => Ok(None),
            RegistryFile::Unreadable(message) => Err(NumngError::IoError(message)),
            RegistryFile::NotText(message) => Err(NumngError::InvalidJsonError(message)),
            RegistryFile::Text(text) => {
                let document = match JsonValue::parse(text.as_str()) {
                    Ok(document) => document,
                    Err(e) => {
                        return Err(e);
                    },
                };
                Self::select_package(collection, &path, version, &document)
            },
        }
    }
}

impl LoadedRepo {
    /// The registry `repo`, with no file read yet.
    pub fn new(repo: NumngRepo) -> (r: Self)
        ensures
            r@ == (LoadedRepoView { base_path: repo@, files: Seq::empty() }),
    {
        let r = LoadedRepo { repo, files: Vec::new() };
        assert(r.files.deep_view() =~= Seq::<(Seq<char>, RegistryFileView)>::empty());
        r
    }

    /// The registry itself.
    pub fn repo(&self) -> (r: &NumngRepo)
        ensures
            r@ == self@.base_path,
    {
        &self.repo
    }

    /// Takes up what was found where the registry keeps the file of the
    /// package `name`. What was taken up first for a name stays.
    pub fn load(&mut self, name: String, file: RegistryFile)
        ensures
            final(self)@ == (LoadedRepoView {
                base_path: old(self)@.base_path,
                files: old(self)@.files.push((name@, file@)),
            }),
    {
        let ghost before = self.files;
        let entry = (name, file);
        self.files.push(entry);
        proof {
            lemma_deep_view_push(before, self.files, entry);
        }
    }

    /// What was taken up for the package `name`.
    pub fn file_of(&self, name: &String) -> (r: RegistryFile)
        ensures
            r@ == loaded_file(self@.files, name@, self@.files.len()),
    {
        let ghost shown = self.files.deep_view();
        let mut i: usize = 0;
        while i < self.files.len()
            invariant
                i <= self.files.len(),
                shown == self.files.deep_view(),
                forall|j: int| 0 <= j < i ==> (#[trigger] shown[j]).0 != name@,
            decreases self.files.len() - i,
        {
            assert(shown[i as int] == (self.files@[i as int].0@, self.files@[i as int].1@));
            if self.files[i].0 == *name {
                proof {
                    lemma_loaded_file(shown, name@, i as int, shown.len());
                }
                return self.files[i].1.copy();
            }
            i += 1;
        }
        proof {
            lemma_not_loaded(shown, name@, shown.len());
        }
        RegistryFile::Missing
    }
}

impl Repository for LoadedRepo {
    /// The answers of a loaded registry are what `is_lookup` says of the
    /// file that was taken up for the package.
    open spec fn answers(
        &self,
        before: Seq<PackageView>,
        name: Seq<char>,
        version: SemVerView,
        after: Seq<PackageView>,
        r: Result<Option<Package>, NumngError>,
    ) -> bool {
        is_lookup(
            self@.base_path,
            before,
            after,
            name,
            version,
            loaded_file(self@.files, name, self@.files.len()),
            r,
        )
    }

    /// Looks up the package `name` in a version that satisfies `version`,
    /// in the file that was taken up for the package.
    fn get_package(
        &self,
        collection: &mut PackageCollection,
        name: &String,
        version: &SemVer,
    ) -> (r: Result<Option<Package>, NumngError>)
    {
        let file = self.file_of(name);
        self.repo.get_package(collection, name, version, file)
    }
}

} // verus!
