// Reading the primary manifest format: a JSON document that describes a
// package, the packages it depends on and links in, and the registries.
use crate::json::{
    lemma_member_decreases, member, JsonData, JsonDataView, JsonValue, JsonView,
};
use crate::numng_error::{NumngError, NumngErrorView};
use crate::package_collection::{is_place_of, with_package_at, PackageCollection};
use crate::package_format::{read_format, PackageFormat};
use crate::package::{empty_package, Package, PackageId, PackageView, SourceType};
use crate::plain::Plain;
use crate::semver::{parse_version, SemVer, SemVerView};
use crate::text::{lemma_deep_view_push, owned, str_equal};
use vstd::prelude::*;

verus! {

/// A collection and what came of reading something into it.
pub struct Parsed<T> {
    pub collection: Seq<PackageView>,
    pub outcome: Result<T, NumngErrorView>,
}

/// Whether `r` is what `expected` says, value for value.
pub open spec fn outcome_is<T: DeepView>(
    r: Result<T, NumngError>,
    expected: Result<T::V, NumngErrorView>,
) -> bool {
    match r {
        Ok(v) => expected == Ok::<T::V, NumngErrorView>(v.deep_view()),
        Err(e) => expected == Err::<T::V, NumngErrorView>(e@),
    }
}

/// That a field of the package called `package_name` holds `value`, which it
/// may not.
pub open spec fn field_error(
    package_name: Option<Seq<char>>,
    field: Seq<char>,
    value: Seq<char>,
) -> NumngErrorView {
    NumngErrorView::InvalidPackageFieldValue { package_name, field, value: Some(value) }
}

/// How a member that is there, but of the wrong kind, is shown in a message.
pub open spec fn present_debug(v: JsonView) -> Seq<char> {
    "Some("@ + v.shown + ")"@
}

/// An optional text member.
pub open spec fn read_text(
    package_name: Option<Seq<char>>,
    doc: JsonView,
    key: Seq<char>,
) -> Result<Option<Seq<char>>, NumngErrorView> {
    match member(doc, key) {
        None => Ok(None),
        Some(v) => match v.data {
            JsonDataView::String(s) => Ok(Some(s)),
            _ => Err(field_error(package_name, key, v.shown)),
        },
    }
}

/// An optional member that is `true` or `false`.
pub open spec fn read_bool(
    package_name: Option<Seq<char>>,
    doc: JsonView,
    key: Seq<char>,
) -> Result<Option<bool>, NumngErrorView> {
    match member(doc, key) {
        None => Ok(None),
        Some(v) => match v.data {
            JsonDataView::Bool(b) => Ok(Some(b)),
            _ => Err(field_error(package_name, key, present_debug(v))),
        },
    }
}

/// The texts that the first `n` of `items` are; the first item that is no
/// text is an error.
pub open spec fn read_texts(
    package_name: Option<Seq<char>>,
    field: Seq<char>,
    items: Seq<JsonView>,
    n: nat,
) -> Result<Seq<Seq<char>>, NumngErrorView>
    decreases n,
{
    if n == 0 || n > items.len() {
        Ok(Seq::empty())
    } else {
        match read_texts(package_name, field, items, (n - 1) as nat) {
            Err(e) => Err(e),
            Ok(texts) => match items[n - 1].data {
                JsonDataView::String(s) => Ok(texts.push(s)),
                _ => Err(field_error(package_name, field, items[n - 1].shown)),
            },
        }
    }
}

/// The first `n` of `members` as pairs of texts; the first member whose
/// value is no text is an error.
pub open spec fn read_text_members(
    package_name: Option<Seq<char>>,
    field: Seq<char>,
    members: Seq<(Seq<char>, JsonView)>,
    n: nat,
) -> Result<Seq<(Seq<char>, Seq<char>)>, NumngErrorView>
    decreases n,
{
    if n == 0 || n > members.len() {
        Ok(Seq::empty())
    } else {
        match read_text_members(package_name, field, members, (n - 1) as nat) {
            Err(e) => Err(e),
            Ok(pairs) => match members[n - 1].1.data {
                JsonDataView::String(s) => Ok(pairs.push((members[n - 1].0, s))),
                _ => Err(field_error(package_name, field, members[n - 1].1.shown)),
            },
        }
    }
}

/// An optional member that maps texts to texts.
pub open spec fn read_text_map(
    package_name: Option<Seq<char>>,
    doc: JsonView,
    key: Seq<char>,
) -> Result<Option<Seq<(Seq<char>, Seq<char>)>>, NumngErrorView> {
    match member(doc, key) {
        None => Ok(None),
        Some(v) => match v.data {
            JsonDataView::Object(members) => match read_text_members(
                package_name,
                key,
                members,
                members.len(),
            ) {
                Ok(pairs) => Ok(Some(pairs)),
                Err(e) => Err(e),
            },
            _ => Err(field_error(package_name, key, present_debug(v))),
        },
    }
}

/// The optional list of plugins.
pub open spec fn read_plugins(package_name: Option<Seq<char>>, doc: JsonView) -> Result<
    Option<Seq<Seq<char>>>,
    NumngErrorView,
> {
    match member(doc, "nu_plugins"@) {
        None => Ok(None),
        Some(v) => match v.data {
            JsonDataView::Array(items) => match read_texts(
                package_name,
                "nu_plugins"@,
                items,
                items.len(),
            ) {
                Ok(texts) => Ok(Some(texts)),
                Err(e) => Err(e),
            },
            _ => Err(field_error(package_name, "nu_plugins"@, present_debug(v))),
        },
    }
}

/// Whether `key` is one of the four kinds of shell configuration.
pub open spec fn is_shell_config_key(key: Seq<char>) -> bool {
    key == "source"@ || key == "use"@ || key == "use_all"@ || key == "source_env"@
}

/// The first `n` of the members of a shell configuration: each value is one
/// text, which stands for a list of one, or a list of texts.
pub open spec fn read_config_members(
    package_name: Option<Seq<char>>,
    members: Seq<(Seq<char>, JsonView)>,
    n: nat,
) -> Result<Seq<(Seq<char>, Seq<Seq<char>>)>, NumngErrorView>
    decreases n,
{
    if n == 0 || n > members.len() {
        Ok(Seq::empty())
    } else {
        match read_config_members(package_name, members, (n - 1) as nat) {
            Err(e) => Err(e),
            Ok(entries) => match members[n - 1].1.data {
                JsonDataView::String(s) => Ok(entries.push((members[n - 1].0, seq![s]))),
                JsonDataView::Array(items) => match read_texts(
                    package_name,
                    "shell_config"@,
                    items,
                    items.len(),
                ) {
                    Ok(texts) => Ok(entries.push((members[n - 1].0, texts))),
                    Err(e) => Err(e),
                },
                _ => Err(field_error(package_name, "shell_config"@, members[n - 1].1.shown)),
            },
        }
    }
}

/// The optional shell configuration. A key that is none of the four kinds is
/// an error that comes before any error in a value.
pub open spec fn read_shell_config(package_name: Option<Seq<char>>, doc: JsonView) -> Result<
    Option<Seq<(Seq<char>, Seq<Seq<char>>)>>,
    NumngErrorView,
> {
    match member(doc, "shell_config"@) {
        None => Ok(None),
        Some(v) => match v.data {
            JsonDataView::Object(members) => {
                if !(forall|i: int|
                    0 <= i < members.len() ==> is_shell_config_key((#[trigger] members[i]).0)) {
                    Err(field_error(package_name, "shell_config"@, "invalid key"@))
                } else {
                    match read_config_members(package_name, members, members.len()) {
                        Ok(entries) => Ok(Some(entries)),
                        Err(e) => Err(e),
                    }
                }
            },
            _ => Err(field_error(package_name, "shell_config"@, present_debug(v))),
        },
    }
}

/// The optional kind of source; only `git` is known.
pub open spec fn read_source_type(package_name: Option<Seq<char>>, doc: JsonView) -> Result<
    Option<SourceType>,
    NumngErrorView,
> {
    match member(doc, "source_type"@) {
        None => Ok(None),
        Some(v) => if v.data == JsonDataView::String("git"@) {
            Ok(Some(SourceType::Git))
        } else {
            Err(field_error(package_name, "source_type"@, present_debug(v)))
        },
    }
}

/// The optional package format.
pub open spec fn read_package_format(package_name: Option<Seq<char>>, doc: JsonView) -> Result<
    Option<PackageFormat>,
    NumngErrorView,
> {
    match read_text(package_name, doc, "package_format"@) {
        Err(e) => Err(e),
        Ok(None) => Ok(None),
        Ok(Some(s)) => match read_format(package_name, crate::package_format::lowercase_of(s)) {
            Ok(format) => Ok(Some(format)),
            Err(e) => Err(e),
        },
    }
}

/// The optional version.
pub open spec fn read_version(package_name: Option<Seq<char>>, doc: JsonView) -> Result<
    Option<SemVerView>,
    NumngErrorView,
> {
    match read_text(package_name, doc, "version"@) {
        Err(e) => Err(e),
        Ok(None) => Ok(None),
        Ok(Some(s)) => match parse_version(s) {
            Ok(version) => Ok(Some(version)),
            Err(e) => Err(e),
        },
    }
}

/// Whether build commands are allowed in a package that is read where
/// `inherited` holds: a `false` from above stays, anything else gives way to
/// what the package says itself.
pub open spec fn read_allow_build_commands(
    inherited: Option<bool>,
    package_name: Option<Seq<char>>,
    doc: JsonView,
) -> Result<Option<bool>, NumngErrorView> {
    if inherited == Some(false) {
        Ok(Some(false))
    } else {
        read_bool(package_name, doc, "allow_build_commands"@)
    }
}

/// The fields that are read between `linkin` and `depends`.
pub struct PlainFields {
    pub source_type: Option<SourceType>,
    pub git_ref: Option<Seq<char>>,
    pub source_uri: Option<Seq<char>>,
    pub path_offset: Option<Seq<char>>,
    pub package_format: Option<PackageFormat>,
    pub ignore_registry: Option<bool>,
}

/// Reads `source_type`, `git_ref`, `source_uri`, `path_offset`,
/// `package_format` and `ignore_registry`, in this order.
pub open spec fn read_plain_fields(package_name: Option<Seq<char>>, doc: JsonView) -> Result<
    PlainFields,
    NumngErrorView,
> {
    match read_source_type(package_name, doc) {
        Err(e) => Err(e),
        Ok(source_type) => match read_text(package_name, doc, "git_ref"@) {
            Err(e) => Err(e),
            Ok(git_ref) => match read_text(package_name, doc, "source_uri"@) {
                Err(e) => Err(e),
                Ok(source_uri) => match read_text(package_name, doc, "path_offset"@) {
                    Err(e) => Err(e),
                    Ok(path_offset) => match read_package_format(package_name, doc) {
                        Err(e) => Err(e),
                        Ok(package_format) => match read_bool(
                            package_name,
                            doc,
                            "ignore_registry"@,
                        ) {
                            Err(e) => Err(e),
                            Ok(ignore_registry) => Ok(
                                PlainFields {
                                    source_type,
                                    git_ref,
                                    source_uri,
                                    path_offset,
                                    package_format,
                                    ignore_registry,
                                },
                            ),
                        },
                    },
                },
            },
        },
    }
}

/// The fields that are read after `depends`.
pub struct LateFields {
    pub version: Option<SemVerView>,
    pub nu_plugins: Option<Seq<Seq<char>>>,
    pub nu_libs: Option<Seq<(Seq<char>, Seq<char>)>>,
    pub bin: Option<Seq<(Seq<char>, Seq<char>)>>,
    pub build_command: Option<Seq<char>>,
    pub shell_config: Option<Seq<(Seq<char>, Seq<Seq<char>>)>>,
}

/// Reads `version`, `nu_plugins`, `nu_libs`, `bin`, `build_command` and
/// `shell_config`, in this order.
pub open spec fn read_late_fields(package_name: Option<Seq<char>>, doc: JsonView) -> Result<
    LateFields,
    NumngErrorView,
> {
    match read_version(package_name, doc) {
        Err(e) => Err(e),
        Ok(version) => match read_plugins(package_name, doc) {
            Err(e) => Err(e),
            Ok(nu_plugins) => match read_text_map(package_name, doc, "nu_libs"@) {
                Err(e) => Err(e),
                Ok(nu_libs) => match read_text_map(package_name, doc, "bin"@) {
                    Err(e) => Err(e),
                    Ok(bin) => match read_text(package_name, doc, "build_command"@) {
                        Err(e) => Err(e),
                        Ok(build_command) => match read_shell_config(package_name, doc) {
                            Err(e) => Err(e),
                            Ok(shell_config) => Ok(
                                LateFields {
                                    version,
                                    nu_plugins,
                                    nu_libs,
                                    bin,
                                    build_command,
                                    shell_config,
                                },
                            ),
                        },
                    },
                },
            },
        },
    }
}

/// The package of which only the name is known, as a dependency stands for
/// it where `allow` holds: where build commands are forbidden, they are
/// forbidden in this package too.
pub open spec fn named_package(name: Seq<char>, allow: Option<bool>) -> PackageView {
    PackageView {
        name: Some(name),
        allow_build_commands: if allow == Some(false) {
            Some(false)
        } else {
            None
        },
        ..empty_package()
    }
}

/// Where `p` goes in `c`: the first place that holds an equal package, or
/// the end.
pub open spec fn place_of(c: Seq<PackageView>, p: PackageView) -> int {
    choose|id: int| is_place_of(c, p, id)
}

/// Puts `p` into `c`, as `PackageCollection::append_package` does.
pub open spec fn append_to(c: Seq<PackageView>, p: PackageView) -> Parsed<PackageId> {
    Parsed {
        collection: with_package_at(c, p, place_of(c, p)),
        outcome: Ok(place_of(c, p) as usize),
    }
}

/// Reads the package that `doc` describes, puts the packages that it links
/// in and depends on into `c`, in this order, and gives the package back.
///
/// The fields are read in a fixed order, and the first one that is wrong
/// decides the error: `name`, `allow_build_commands`, `linkin`,
/// `source_type`, `git_ref`, `source_uri`, `path_offset`, `package_format`,
/// `ignore_registry`, `depends`, `version`, `nu_plugins`, `nu_libs`, `bin`,
/// `build_command`, `shell_config`. What was put into `c` before the error
/// stays there.
pub open spec fn parse_package(c: Seq<PackageView>, doc: JsonView, allow: Option<bool>) -> Parsed<
    PackageView,
>
    decreases doc, 4nat,
{
    match read_text(None, doc, "name"@) {
        Err(e) => Parsed { collection: c, outcome: Err(e) },
        Ok(name) => match read_allow_build_commands(allow, name, doc) {
            Err(e) => Parsed { collection: c, outcome: Err(e) },
            Ok(allowed) => {
                let linkin = parse_linkin_field(c, name, doc, allowed);
                match linkin.outcome {
                    Err(e) => Parsed { collection: linkin.collection, outcome: Err(e) },
                    Ok(links) => match read_plain_fields(name, doc) {
                        Err(e) => Parsed { collection: linkin.collection, outcome: Err(e) },
                        Ok(plain) => {
                            let depends = parse_depends_field(
                                linkin.collection,
                                name,
                                doc,
                                allowed,
                            );
                            match depends.outcome {
                                Err(e) => Parsed { collection: depends.collection,
                                    outcome: Err(e) },
                                Ok(handles) => match read_late_fields(name, doc) {
                                    Err(e) => Parsed {
                                        collection: depends.collection,
                                        outcome: Err(e),
                                    },
                                    Ok(late) => Parsed {
                                        collection: depends.collection,
                                        outcome: Ok(
                                            PackageView {
                                                name,
                                                linkin: links,
                                                depends: handles,
                                                allow_build_commands: allowed,
                                                source_type: plain.source_type,
                                                git_ref: plain.git_ref,
                                                source_uri: plain.source_uri,
                                                path_offset: plain.path_offset,
                                                package_format: plain.package_format,
                                                ignore_registry: plain.ignore_registry,
                                                version: late.version,
                                                nu_plugins: late.nu_plugins,
                                                nu_libs: late.nu_libs,
                                                bin: late.bin,
                                                build_command: late.build_command,
                                                shell_config: late.shell_config,
                                            },
                                        ),
                                    },
                                },
                            }
                        },
                    },
                }
            },
        },
    }
}

/// Reads the package that `doc` describes and puts it into the collection.
pub open spec fn append_parsed(c: Seq<PackageView>, doc: JsonView, allow: Option<bool>) -> Parsed<
    PackageId,
>
    decreases doc, 5nat,
{
    let parsed = parse_package(c, doc, allow);
    match parsed.outcome {
        Err(e) => Parsed { collection: parsed.collection, outcome: Err(e) },
        Ok(p) => append_to(parsed.collection, p),
    }
}

/// The `linkin` member of a package, with the collection that reading it
/// leaves.
pub open spec fn parse_linkin_field(
    c: Seq<PackageView>,
    package_name: Option<Seq<char>>,
    doc: JsonView,
    allow: Option<bool>,
) -> Parsed<Option<Seq<(Seq<char>, PackageId)>>>
    decreases doc, 3nat,
    via parse_linkin_field_decreases
{
    match member(doc, "linkin"@) {
        None => Parsed { collection: c, outcome: Ok(None) },
        Some(v) => match v.data {
            JsonDataView::Object(members) => {
                let links = parse_linkin(c, package_name, members, members.len(), allow);
                Parsed {
                    collection: links.collection,
                    outcome: match links.outcome {
                        Ok(l) => Ok(Some(l)),
                        Err(e) => Err(e),
                    },
                }
            },
            _ => Parsed {
                collection: c,
                outcome: Err(field_error(package_name, "linkin"@, v.shown)),
            },
        },
    }
}

/// Reads the first `n` members of a `linkin` mapping: each value must
/// describe a package, which is put into the collection.
pub open spec fn parse_linkin(
    c: Seq<PackageView>,
    package_name: Option<Seq<char>>,
    members: Seq<(Seq<char>, JsonView)>,
    n: nat,
    allow: Option<bool>,
) -> Parsed<Seq<(Seq<char>, PackageId)>>
    decreases members, n,
{
    if n == 0 || n > members.len() {
        Parsed { collection: c, outcome: Ok(Seq::empty()) }
    } else {
        let before = parse_linkin(c, package_name, members, (n - 1) as nat, allow);
        match before.outcome {
            Err(e) => before,
            Ok(links) => match members[n - 1].1.data {
                JsonDataView::Object(inner) => {
                    let one = append_parsed(before.collection, members[n - 1].1, allow);
                    Parsed {
                        collection: one.collection,
                        outcome: match one.outcome {
                            Ok(id) => Ok(links.push((members[n - 1].0, id))),
                            Err(e) => Err(e),
                        },
                    }
                },
                _ => Parsed {
                    collection: before.collection,
                    outcome: Err(
                        field_error(
                            package_name,
                            "linkin ("@ + members[n - 1].0 + ")"@,
                            "Value not a record (package)"@,
                        ),
                    ),
                },
            },
        }
    }
}

/// The `depends` member of a package, with the collection that reading it
/// leaves.
pub open spec fn parse_depends_field(
    c: Seq<PackageView>,
    package_name: Option<Seq<char>>,
    doc: JsonView,
    allow: Option<bool>,
) -> Parsed<Option<Seq<PackageId>>>
    decreases doc, 3nat,
    via parse_depends_field_decreases
{
    match member(doc, "depends"@) {
        None => Parsed { collection: c, outcome: Ok(None) },
        Some(v) => match v.data {
            JsonDataView::Array(items) => {
                let handles = parse_depends(c, package_name, items, items.len(), allow);
                Parsed {
                    collection: handles.collection,
                    outcome: match handles.outcome {
                        Ok(h) => Ok(Some(h)),
                        Err(e) => Err(e),
                    },
                }
            },
            JsonDataView::String(s) => {
                let one = append_to(c, named_package(s, allow));
                Parsed { collection: one.collection, outcome: Ok(Some(seq![one.outcome->Ok_0])) }
            },
            JsonDataView::Object(_) => {
                let one = append_parsed(c, v, allow);
                Parsed {
                    collection: one.collection,
                    outcome: match one.outcome {
                        Ok(id) => Ok(Some(seq![id])),
                        Err(e) => Err(e),
                    },
                }
            },
            _ => Parsed {
                collection: c,
                outcome: Err(field_error(package_name, "depends"@, present_debug(v))),
            },
        },
    }
}

/// Reads the first `n` items of a `depends` list: a text names a package, a
/// mapping describes one; each is put into the collection.
pub open spec fn parse_depends(
    c: Seq<PackageView>,
    package_name: Option<Seq<char>>,
    items: Seq<JsonView>,
    n: nat,
    allow: Option<bool>,
) -> Parsed<Seq<PackageId>>
    decreases items, n,
{
    if n == 0 || n > items.len() {
        Parsed { collection: c, outcome: Ok(Seq::empty()) }
    } else {
        let before = parse_depends(c, package_name, items, (n - 1) as nat, allow);
        match before.outcome {
            Err(e) => before,
            Ok(handles) => match items[n - 1].data {
                JsonDataView::String(s) => {
                    let one = append_to(before.collection, named_package(s, allow));
                    Parsed {
                        collection: one.collection,
                        outcome: Ok(handles.push(one.outcome->Ok_0)),
                    }
                },
                JsonDataView::Object(inner) => {
                    let one = append_parsed(before.collection, items[n - 1], allow);
                    Parsed {
                        collection: one.collection,
                        outcome: match one.outcome {
                            Ok(id) => Ok(handles.push(id)),
                            Err(e) => Err(e),
                        },
                    }
                },
                _ => Parsed {
                    collection: before.collection,
                    outcome: Err(field_error(package_name, "depends"@, items[n - 1].shown)),
                },
            },
        }
    }
}

#[via_fn]
proof fn parse_linkin_field_decreases(
    c: Seq<PackageView>,
    package_name: Option<Seq<char>>,
    doc: JsonView,
    allow: Option<bool>,
) {
    lemma_member_decreases(doc, "linkin"@);
}

#[via_fn]
proof fn parse_depends_field_decreases(
    c: Seq<PackageView>,
    package_name: Option<Seq<char>>,
    doc: JsonView,
    allow: Option<bool>,
) {
    lemma_member_decreases(doc, "depends"@);
}

/// A package as a registry is named by it: without what it links in and
/// depends on.
pub open spec fn as_locator(p: PackageView) -> PackageView {
    PackageView { depends: None, linkin: None, ..p }
}

/// The registries that the first `n` items of a `registry` list describe,
/// read one after the other into the collection `c`.
pub open spec fn parse_repo_items(c: Seq<PackageView>, items: Seq<JsonView>, n: nat) -> Parsed<
    Seq<PackageView>,
>
    decreases n,
{
    if n == 0 || n > items.len() {
        Parsed { collection: c, outcome: Ok(Seq::empty()) }
    } else {
        let before = parse_repo_items(c, items, (n - 1) as nat);
        match before.outcome {
            Err(e) => before,
            Ok(repos) => {
                let one = parse_package(before.collection, items[n - 1], Some(false));
                Parsed {
                    collection: one.collection,
                    outcome: match one.outcome {
                        Ok(p) => Ok(repos.push(as_locator(p))),
                        Err(e) => Err(e),
                    },
                }
            },
        }
    }
}

/// The registries that the root document names under `registry`: one
/// package, or a list of packages. They are read with build commands
/// forbidden, into a collection of their own, and lose what they link in and
/// depend on.
pub open spec fn parse_repos(doc: JsonView) -> Result<Seq<PackageView>, NumngErrorView> {
    match member(doc, "registry"@) {
        None => Ok(Seq::empty()),
        Some(v) => match v.data {
            JsonDataView::Object(_) => match parse_package(Seq::empty(), v, Some(false)).outcome {
                Ok(p) => Ok(seq![as_locator(p)]),
                Err(e) => Err(e),
            },
            JsonDataView::Array(items) => parse_repo_items(
                Seq::empty(),
                items,
                items.len(),
            ).outcome,
            _ => Err(field_error(None, "registry"@, v.shown)),
        },
    }
}

/// Whether `after` holds the packages of `before`, each at its place, and
/// maybe more behind them.
pub open spec fn grows(before: Seq<PackageView>, after: Seq<PackageView>) -> bool {
    &&& before.len() <= after.len()
    &&& forall|i: int| 0 <= i < before.len() ==> #[trigger] after[i] == before[i]
}

/// Whether build commands are forbidden in every package of `c` from place
/// `start` on.
pub open spec fn forbidden_from(c: Seq<PackageView>, start: int) -> bool {
    forall|i: int| start <= i < c.len() ==> (#[trigger] c[i]).allow_build_commands == Some(false)
}

/// Whether `h` names a package of `c` and, where `allow` forbids build
/// commands, one that forbids them too.
pub open spec fn handle_fits(c: Seq<PackageView>, h: PackageId, allow: Option<bool>) -> bool {
    &&& h < c.len()
    &&& allow == Some(false) ==> c[h as int].allow_build_commands == Some(false)
}

/// Whether every handle that `p` holds fits.
pub open spec fn handles_fit(c: Seq<PackageView>, p: PackageView, allow: Option<bool>) -> bool {
    &&& p.depends is Some ==> forall|i: int|
        0 <= i < p.depends->0.len() ==> handle_fits(c, #[trigger] p.depends->0[i], allow)
    &&& p.linkin is Some ==> forall|i: int|
        0 <= i < p.linkin->0.len() ==> handle_fits(c, (#[trigger] p.linkin->0[i]).1, allow)
}

/// Whether `doc` has none of the members that a package is read from, but
/// maybe `name`, `source_uri` and `depends`.
pub open spec fn has_no_further_member(doc: JsonView) -> bool {
    &&& member(doc, "allow_build_commands"@) is None
    &&& member(doc, "linkin"@) is None
    &&& member(doc, "source_type"@) is None
    &&& member(doc, "git_ref"@) is None
    &&& member(doc, "path_offset"@) is None
    &&& member(doc, "package_format"@) is None
    &&& member(doc, "ignore_registry"@) is None
    &&& member(doc, "version"@) is None
    &&& member(doc, "nu_plugins"@) is None
    &&& member(doc, "nu_libs"@) is None
    &&& member(doc, "bin"@) is None
    &&& member(doc, "build_command"@) is None
    &&& member(doc, "shell_config"@) is None
}

/// Whether `doc` describes a package by its name `name`, its source
/// `source_uri` and one dependency, given by its name `dependency`, and by
/// nothing else.
pub open spec fn is_simple_root(
    doc: JsonView,
    name: Seq<char>,
    source_uri: Seq<char>,
    dependency: Seq<char>,
) -> bool {
    &&& has_no_further_member(doc)
    &&& member(doc, "name"@) matches Some(v) && v.data == JsonDataView::String(name)
    &&& member(doc, "source_uri"@) matches Some(v) && v.data == JsonDataView::String(source_uri)
    &&& member(doc, "depends"@) matches Some(v) && (v.data matches JsonDataView::Array(items)
        && items.len() == 1 && items[0].data == JsonDataView::String(dependency))
}

/// Whether `doc` says of a package where it comes from, and nothing else.
pub open spec fn is_source_record(doc: JsonView, source_uri: Seq<char>) -> bool {
    &&& has_no_further_member(doc)
    &&& member(doc, "name"@) is None
    &&& member(doc, "depends"@) is None
    &&& member(doc, "source_uri"@) matches Some(v) && v.data == JsonDataView::String(source_uri)
}

/// The package that a simple root document describes.
pub open spec fn simple_root(
    name: Seq<char>,
    source_uri: Seq<char>,
    allow: Option<bool>,
) -> PackageView {
    PackageView {
        name: Some(name),
        source_uri: Some(source_uri),
        depends: Some(seq![0usize]),
        allow_build_commands: if allow == Some(false) {
            Some(false)
        } else {
            None
        },
        ..empty_package()
    }
}

/// A package has one place only.
pub proof fn lemma_place_of(c: Seq<PackageView>, p: PackageView, id: int)
    requires
        is_place_of(c, p, id),
    ensures
        place_of(c, p) == id,
{
    let other = place_of(c, p);
    assert(is_place_of(c, p, other));
    if other < id {
        assert(c[other] == p);
    }
    if id < other {
        assert(c[id] == p);
    }
}

/// Reading a simple root document into an empty collection gives two
/// packages: first the one that the dependency names, then the root, which
/// depends on the first.
pub proof fn lemma_simple_root(
    doc: JsonView,
    name: Seq<char>,
    source_uri: Seq<char>,
    dependency: Seq<char>,
    allow: Option<bool>,
)
    requires
        is_simple_root(doc, name, source_uri, dependency),
    ensures
        append_parsed(Seq::empty(), doc, allow).collection == seq![
            named_package(dependency, allow),
            simple_root(name, source_uri, allow),
        ],
        append_parsed(Seq::empty(), doc, allow).outcome == Ok::<PackageId, NumngErrorView>(1usize),
{
    let nothing = Seq::<PackageView>::empty();
    let named = Some(name);
    let allowed: Option<bool> = if allow == Some(false) {
        Some(false)
    } else {
        None
    };
    let items = member(doc, "depends"@)->0.data->Array_0;
    let first = named_package(dependency, allowed);
    assert(first == named_package(dependency, allow));
    assert(read_allow_build_commands(allow, named, doc) == Ok::<Option<bool>, NumngErrorView>(
        allowed,
    ));
    assert(parse_linkin_field(nothing, named, doc, allowed).outcome == Ok::<
        Option<Seq<(Seq<char>, PackageId)>>,
        NumngErrorView,
    >(None));
    assert(parse_linkin_field(nothing, named, doc, allowed).collection == nothing);
    assert(read_plain_fields(named, doc) is Ok);
    assert(read_late_fields(named, doc) is Ok);
    lemma_place_of(nothing, first, 0);
    let none_yet = parse_depends(nothing, named, items, 0, allowed);
    assert(none_yet.collection == nothing && none_yet.outcome == Ok::<
        Seq<PackageId>,
        NumngErrorView,
    >(Seq::empty()));
    let one = parse_depends(nothing, named, items, 1, allowed);
    assert(one.collection =~= seq![first]);
    assert(one.outcome->Ok_0 =~= seq![0usize]);
    let after = parse_depends_field(nothing, named, doc, allowed);
    assert(after.collection == one.collection);
    assert(after.outcome == Ok::<Option<Seq<PackageId>>, NumngErrorView>(Some(seq![0usize])));
    let parsed = parse_package(nothing, doc, allow);
    assert(parsed.collection == seq![first]);
    assert(parsed.outcome == Ok::<PackageView, NumngErrorView>(
        simple_root(name, source_uri, allow),
    ));
    lemma_place_of(seq![first], simple_root(name, source_uri, allow), 1);
    assert(seq![first].push(simple_root(name, source_uri, allow)) =~= seq![
        first,
        simple_root(name, source_uri, allow),
    ]);
}

/// Reading a record that only says where a package comes from gives a
/// package of which only that is known, and leaves the collection as it is.
pub proof fn lemma_source_record(
    c: Seq<PackageView>,
    doc: JsonView,
    source_uri: Seq<char>,
    allow: Option<bool>,
)
    requires
        is_source_record(doc, source_uri),
        allow != Some(false),
    ensures
        parse_package(c, doc, allow).collection == c,
        parse_package(c, doc, allow).outcome == Ok::<PackageView, NumngErrorView>(
            PackageView { source_uri: Some(source_uri), ..empty_package() },
        ),
{
    let named: Option<Seq<char>> = None;
    assert(read_allow_build_commands(allow, named, doc) == Ok::<Option<bool>, NumngErrorView>(
        None,
    ));
    assert(parse_linkin_field(c, named, doc, None).outcome == Ok::<
        Option<Seq<(Seq<char>, PackageId)>>,
        NumngErrorView,
    >(None));
    assert(parse_linkin_field(c, named, doc, None).collection == c);
    assert(read_plain_fields(named, doc) is Ok);
    assert(read_late_fields(named, doc) is Ok);
    assert(parse_depends_field(c, named, doc, None).outcome == Ok::<
        Option<Seq<PackageId>>,
        NumngErrorView,
    >(None));
    assert(parse_depends_field(c, named, doc, None).collection == c);
}

/// A mapping from texts to texts is read entry by entry: the package holds
/// the keys of the document, in the document's order, so that no key is
/// there twice unless the document has it twice.
pub proof fn lemma_text_members_keys(
    package_name: Option<Seq<char>>,
    field: Seq<char>,
    members: Seq<(Seq<char>, JsonView)>,
    n: nat,
)
    requires
        n <= members.len(),
        read_text_members(package_name, field, members, n) is Ok,
    ensures
        read_text_members(package_name, field, members, n)->Ok_0.len() == n,
        forall|i: int|
            0 <= i < n ==> (#[trigger] read_text_members(package_name, field, members,
                n)->Ok_0[i]).0
                == members[i].0,
    decreases n,
{
    if n > 0 {
        lemma_text_members_keys(package_name, field, members, (n - 1) as nat);
    }
}

/// A shell configuration is read entry by entry: the package holds the keys
/// of the document, in the document's order.
pub proof fn lemma_config_members_keys(
    package_name: Option<Seq<char>>,
    members: Seq<(Seq<char>, JsonView)>,
    n: nat,
)
    requires
        n <= members.len(),
        read_config_members(package_name, members, n) is Ok,
    ensures
        read_config_members(package_name, members, n)->Ok_0.len() == n,
        forall|i: int|
            0 <= i < n ==> (#[trigger] read_config_members(package_name, members, n)->Ok_0[i]).0
                == members[i].0,
    decreases n,
{
    if n > 0 {
        lemma_config_members_keys(package_name, members, (n - 1) as nat);
    }
}

/// A `linkin` mapping is read entry by entry: the package holds the keys of
/// the document, in the document's order.
pub proof fn lemma_linkin_keys(
    c: Seq<PackageView>,
    package_name: Option<Seq<char>>,
    members: Seq<(Seq<char>, JsonView)>,
    n: nat,
    allow: Option<bool>,
)
    requires
        n <= members.len(),
        parse_linkin(c, package_name, members, n, allow).outcome is Ok,
    ensures
        parse_linkin(c, package_name, members, n, allow).outcome->Ok_0.len() == n,
        forall|i: int|
            0 <= i < n ==> (#[trigger] parse_linkin(
                c,
                package_name,
                members,
                n,
                allow,
            ).outcome->Ok_0[i]).0 == members[i].0,
    decreases n,
{
    if n > 0 {
        lemma_linkin_keys(c, package_name, members, (n - 1) as nat, allow);
    }
}

/// An error among the first items is the error of the whole list.
proof fn lemma_read_texts_error(
    package_name: Option<Seq<char>>,
    field: Seq<char>,
    items: Seq<JsonView>,
    n: nat,
    m: nat,
)
    requires
        n <= m <= items.len(),
        read_texts(package_name, field, items, n) is Err,
    ensures
        read_texts(package_name, field, items, m) == read_texts(package_name, field, items, n),
    decreases m,
{
    if n < m {
        lemma_read_texts_error(package_name, field, items, n, (m - 1) as nat);
    }
}

/// An error among the first members is the error of the whole mapping.
proof fn lemma_read_text_members_error(
    package_name: Option<Seq<char>>,
    field: Seq<char>,
    members: Seq<(Seq<char>, JsonView)>,
    n: nat,
    m: nat,
)
    requires
        n <= m <= members.len(),
        read_text_members(package_name, field, members, n) is Err,
    ensures
        read_text_members(package_name, field, members, m) == read_text_members(
            package_name,
            field,
            members,
            n,
        ),
    decreases m,
{
    if n < m {
        lemma_read_text_members_error(package_name, field, members, n, (m - 1) as nat);
    }
}

/// An error among the first members is the error of the whole configuration.
proof fn lemma_read_config_members_error(
    package_name: Option<Seq<char>>,
    members: Seq<(Seq<char>, JsonView)>,
    n: nat,
    m: nat,
)
    requires
        n <= m <= members.len(),
        read_config_members(package_name, members, n) is Err,
    ensures
        read_config_members(package_name, members, m) == read_config_members(
            package_name,
            members,
            n,
        ),
    decreases m,
{
    if n < m {
        lemma_read_config_members_error(package_name, members, n, (m - 1) as nat);
    }
}

/// An error among the first members of a `linkin` mapping is the error of
/// the whole mapping.
proof fn lemma_parse_linkin_error(
    c: Seq<PackageView>,
    package_name: Option<Seq<char>>,
    members: Seq<(Seq<char>, JsonView)>,
    n: nat,
    m: nat,
    allow: Option<bool>,
)
    requires
        n <= m <= members.len(),
        parse_linkin(c, package_name, members, n, allow).outcome is Err,
    ensures
        parse_linkin(c, package_name, members, m, allow) == parse_linkin(
            c,
            package_name,
            members,
            n,
            allow,
        ),
    decreases m,
{
    if n < m {
        lemma_parse_linkin_error(c, package_name, members, n, (m - 1) as nat, allow);
    }
}

/// An error among the first items of a `depends` list is the error of the
/// whole list.
proof fn lemma_parse_depends_error(
    c: Seq<PackageView>,
    package_name: Option<Seq<char>>,
    items: Seq<JsonView>,
    n: nat,
    m: nat,
    allow: Option<bool>,
)
    requires
        n <= m <= items.len(),
        parse_depends(c, package_name, items, n, allow).outcome is Err,
    ensures
        parse_depends(c, package_name, items, m, allow) == parse_depends(
            c,
            package_name,
            items,
            n,
            allow,
        ),
    decreases m,
{
    if n < m {
        lemma_parse_depends_error(c, package_name, items, n, (m - 1) as nat, allow);
    }
}

/// An error among the first items of a `registry` list is the error of the
/// whole list.
proof fn lemma_parse_repo_items_error(c: Seq<PackageView>, items: Seq<JsonView>, n: nat, m: nat)
    requires
        n <= m <= items.len(),
        parse_repo_items(c, items, n).outcome is Err,
    ensures
        parse_repo_items(c, items, m) == parse_repo_items(c, items, n),
    decreases m,
{
    if n < m {
        lemma_parse_repo_items_error(c, items, n, (m - 1) as nat);
    }
}

/// The error for a field that holds `value`, which it may not.
fn invalid_field(package_name: &Option<String>, field: &str, value: String) -> (e: NumngError)
    ensures
        e@ == field_error(package_name.deep_view(), field@, value@),
{
    NumngError::InvalidPackageFieldValue {
        package_name: package_name.copy(),
        field: owned(field),
        value: Some(value),
    }
}

/// How a member that is there, but of the wrong kind, is shown in a message.
fn debug_present(v: &JsonValue) -> (r: String)
    ensures
        r@ == present_debug(v@),
{
    let mut r = owned("Some(");
    r.append(v.shown.as_str());
    r.append(")");
    r
}

/// The error for a member of `linkin` that describes no package.
fn linkin_error(package_name: &Option<String>, key: &String) -> (e: NumngError)
    ensures
        e@ == field_error(
            package_name.deep_view(),
            "linkin ("@ + key@ + ")"@,
            "Value not a record (package)"@,
        ),
{
    let mut field = owned("linkin (");
    field.append(key.as_str());
    field.append(")");
    NumngError::InvalidPackageFieldValue {
        package_name: package_name.copy(),
        field,
        value: Some(owned("Value not a record (package)")),
    }
}

fn json_get_opt_str(package_name: &Option<String>, json_value: &JsonValue, key: &str) -> (r:
    Result<Option<String>, NumngError>)
    ensures
        outcome_is(r, read_text(package_name.deep_view(), json_value@, key@)),
{
    match json_value.get(key) {
        Some(v) => match &v.data {
            JsonData::String(s) => Ok(Some(s.clone())),
            _ => Err(invalid_field(package_name, key, v.shown.clone())),
        },
        None => Ok(None),
    }
}

fn json_get_opt_bool(package_name: &Option<String>, json_value: &JsonValue, key: &str) -> (r:
    Result<Option<bool>, NumngError>)
    ensures
        outcome_is(r, read_bool(package_name.deep_view(), json_value@, key@)),
{
    match json_value.get(key) {
        Some(v) => match &v.data {
            JsonData::Bool(b) => Ok(Some(*b)),
            _ => Err(invalid_field(package_name, key, debug_present(v))),
        },
        None => Ok(None),
    }
}

/// Reads a list all of whose items must be texts.
fn json_texts(package_name: &Option<String>, field: &str, list: &JsonValue) -> (r: Result<
    Vec<String>,
    NumngError,
>)
    requires
        list.data is Array,
    ensures
        outcome_is(
            r,
            read_texts(
                package_name.deep_view(),
                field@,
                list@.data->Array_0,
                list@.data->Array_0.len(),
            ),
        ),
{
    let mut texts: Vec<String> = Vec::new();
    match &list.data {
        JsonData::Array(items) => {
            let ghost shown = list@.data->Array_0;
            let ghost name = package_name.deep_view();
            let mut i: usize = 0;
            assert(texts.deep_view() =~= Seq::<Seq<char>>::empty());
            while i < items.len()
                invariant
                    i <= items.len(),
                    shown == list@.data->Array_0,
                    shown.len() == items.len(),
                    name == package_name.deep_view(),
                    forall|j: int| 0 <= j < items.len() ==> #[trigger] shown[j] == items[j]@,
                    read_texts(name, field@, shown, i as nat) == Ok::<
                        Seq<Seq<char>>,
                        NumngErrorView,
                    >(texts.deep_view()),
                decreases items.len() - i,
            {
                match &items[i].data {
                    JsonData::String(s) => {
                        let ghost before = texts;
                        texts.push(s.clone());
                        proof {
                            lemma_deep_view_push(before, texts, *s);
                        }
                    },
                    _ => {
                        let e = invalid_field(package_name, field, items[i].shown.clone());
                        proof {
                            lemma_read_texts_error(
                                name,
                                field@,
                                shown,
                                (i + 1) as nat,
                                shown.len(),
                            );
                        }
                        return Err(e);
                    },
                }
                i += 1;
            }
            Ok(texts)
        },
        _ => Ok(texts),
    }
}

fn json_get_opt_hm_str_str(package_name: &Option<String>, json_value: &JsonValue, key: &str) -> (r:
    Result<Option<Vec<(String, String)>>, NumngError>)
    ensures
        outcome_is(r, read_text_map(package_name.deep_view(), json_value@, key@)),
{
    let found = match json_value.get(key) {
        Some(found) => found,
        None => {
            return Ok(None);
        },
    };
    match &found.data {
        JsonData::Object(members) => {
            let mut pairs: Vec<(String, String)> = Vec::new();
            let ghost shown = found@.data->Object_0;
            let ghost name = package_name.deep_view();
            let mut i: usize = 0;
            assert(pairs.deep_view() =~= Seq::<(Seq<char>, Seq<char>)>::empty());
            while i < members.len()
                invariant
                    i <= members.len(),
                    member(json_value@, key@) == Some(found@),
                    found@.data is Object,
                    shown == found@.data->Object_0,
                    shown.len() == members.len(),
                    name == package_name.deep_view(),
                    forall|j: int|
                        0 <= j < members.len() ==> #[trigger] shown[j] == (
                            members[j].0@,
                            members[j].1@,
                        ),
                    read_text_members(name, key@, shown, i as nat) == Ok::<
                        Seq<(Seq<char>, Seq<char>)>,
                        NumngErrorView,
                    >(pairs.deep_view()),
                decreases members.len() - i,
            {
                match &members[i].1.data {
                    JsonData::String(s) => {
                        let ghost before = pairs;
                        let pair = (members[i].0.clone(), s.clone());
                        pairs.push(pair);
                        proof {
                            lemma_deep_view_push(before, pairs, pair);
                        }
                    },
                    _ => {
                        let e = invalid_field(package_name, key, members[i].1.shown.clone());
                        proof {
                            lemma_read_text_members_error(
                                name,
                                key@,
                                shown,
                                (i + 1) as nat,
                                shown.len(),
                            );
                        }
                        return Err(e);
                    },
                }
                i += 1;
            }
            Ok(Some(pairs))
        },
        _ => Err(invalid_field(package_name, key, debug_present(found))),
    }
}

/// Reads the optional list of plugins.
fn json_get_plugins(package_name: &Option<String>, json_value: &JsonValue) -> (r: Result<
    Option<Vec<String>>,
    NumngError,
>)
    ensures
        outcome_is(r, read_plugins(package_name.deep_view(), json_value@)),
{
    match json_value.get("nu_plugins") {
        None => Ok(None),
        Some(found) => match &found.data {
            JsonData::Array(_) => match json_texts(package_name, "nu_plugins", found) {
                Ok(texts) => Ok(Some(texts)),
                Err(e) => Err(e),
            },
            _ => Err(invalid_field(package_name, "nu_plugins", debug_present(found))),
        },
    }
}

/// Reads the optional kind of source.
fn json_get_source_type(package_name: &Option<String>, json_value: &JsonValue) -> (r: Result<
    Option<SourceType>,
    NumngError,
>)
    ensures
        outcome_is(r, read_source_type(package_name.deep_view(), json_value@)),
{
    match json_value.get("source_type") {
        None => Ok(None),
        Some(found) => {
            let is_git = match &found.data {
                JsonData::String(s) => str_equal(s.as_str(), "git"),
                _ => false,
            };
            if is_git {
                Ok(Some(SourceType::Git))
            } else {
                Err(invalid_field(package_name, "source_type", debug_present(found)))
            }
        },
    }
}

/// Reads the optional package format.
fn json_get_package_format(package_name: &Option<String>, json_value: &JsonValue) -> (r: Result<
    Option<PackageFormat>,
    NumngError,
>)
    ensures
        outcome_is(r, read_package_format(package_name.deep_view(), json_value@)),
{
    match json_get_opt_str(package_name, json_value, "package_format") {
        Err(e) => Err(e),
        Ok(None) => Ok(None),
        Ok(Some(s)) => match PackageFormat::from_string(package_name, s.as_str()) {
            Ok(format) => Ok(Some(format)),
            Err(e) => Err(e),
        },
    }
}

/// Reads the optional version.
fn json_get_version(package_name: &Option<String>, json_value: &JsonValue) -> (r: Result<
    Option<SemVer>,
    NumngError,
>)
    ensures
        outcome_is(r, read_version(package_name.deep_view(), json_value@)),
{
    match json_get_opt_str(package_name, json_value, "version") {
        Err(e) => Err(e),
        Ok(None) => Ok(None),
        Ok(Some(s)) => match SemVer::from_string(&s) {
            Ok(version) => Ok(Some(version)),
            Err(e) => Err(e),
        },
    }
}

/// Whether `key` is one of the four kinds of shell configuration.
fn valid_shell_config_key(key: &str) -> (r: bool)
    ensures
        r == is_shell_config_key(key@),
{
    str_equal(key, "source") || str_equal(key, "use") || str_equal(key, "use_all") || str_equal(
        key,
        "source_env",
    )
}

/// Reads the optional shell configuration.
fn json_get_shell_config(package_name: &Option<String>, json_value: &JsonValue) -> (r: Result<
    Option<Vec<(String, Vec<String>)>>,
    NumngError,
>)
    ensures
        outcome_is(r, read_shell_config(package_name.deep_view(), json_value@)),
{
    let found = match json_value.get("shell_config") {
        Some(found) => found,
        None => {
            return Ok(None);
        },
    };
    match &found.data {
        JsonData::Object(members) => {
            let ghost shown = found@.data->Object_0;
            let ghost name = package_name.deep_view();
            let mut k: usize = 0;
            while k < members.len()
                invariant
                    k <= members.len(),
                    member(json_value@, "shell_config"@) == Some(found@),
                    found@.data is Object,
                    shown == found@.data->Object_0,
                    shown.len() == members.len(),
                    forall|j: int|
                        0 <= j < members.len() ==> #[trigger] shown[j] == (
                            members[j].0@,
                            members[j].1@,
                        ),
                    forall|j: int| 0 <= j < k ==> is_shell_config_key((#[trigger] shown[j]).0),
                decreases members.len() - k,
            {
                assert(shown[k as int] == (members[k as int].0@, members[k as int].1@));
                if !valid_shell_config_key(members[k].0.as_str()) {
                    return Err(
                        invalid_field(package_name, "shell_config", owned("invalid key")),
                    );
                }
                k += 1;
            }
            let mut entries: Vec<(String, Vec<String>)> = Vec::new();
            let mut i: usize = 0;
            assert(entries.deep_view() =~= Seq::<(Seq<char>, Seq<Seq<char>>)>::empty());
            while i < members.len()
                invariant
                    i <= members.len(),
                    member(json_value@, "shell_config"@) == Some(found@),
                    found@.data is Object,
                    shown == found@.data->Object_0,
                    shown.len() == members.len(),
                    name == package_name.deep_view(),
                    forall|j: int| 0 <= j < shown.len()
                        ==> is_shell_config_key((#[trigger] shown[j]).0),
                    forall|j: int|
                        0 <= j < members.len() ==> #[trigger] shown[j] == (
                            members[j].0@,
                            members[j].1@,
                        ),
                    read_config_members(name, shown, i as nat) == Ok::<
                        Seq<(Seq<char>, Seq<Seq<char>>)>,
                        NumngErrorView,
                    >(entries.deep_view()),
                decreases members.len() - i,
            {
                let value = &members[i].1;
                let texts: Result<Vec<String>, NumngError> = match &value.data {
                    JsonData::String(s) => {
                        let mut one: Vec<String> = Vec::new();
                        one.push(s.clone());
                        assert(one.deep_view() =~= seq![s@]);
                        Ok(one)
                    },
                    JsonData::Array(_) => json_texts(package_name, "shell_config", value),
                    _ => Err(invalid_field(package_name, "shell_config", value.shown.clone())),
                };
                match texts {
                    Ok(texts) => {
                        let ghost before = entries;
                        let entry = (members[i].0.clone(), texts);
                        entries.push(entry);
                        proof {
                            lemma_deep_view_push(before, entries, entry);
                        }
                    },
                    Err(e) => {
                        proof {
                            lemma_read_config_members_error(
                                name,
                                shown,
                                (i + 1) as nat,
                                shown.len(),
                            );
                        }
                        return Err(e);
                    },
                }
                i += 1;
            }
            Ok(Some(entries))
        },
        _ => Err(invalid_field(package_name, "shell_config", debug_present(found))),
    }
}

/// The fields that are read between `linkin` and `depends`, as read.
struct PlainValues {
    source_type: Option<SourceType>,
    git_ref: Option<String>,
    source_uri: Option<String>,
    path_offset: Option<String>,
    package_format: Option<PackageFormat>,
    ignore_registry: Option<bool>,
}

impl DeepView for PlainValues {
    type V = PlainFields;

    closed spec fn deep_view(&self) -> PlainFields {
        PlainFields {
            source_type: self.source_type,
            git_ref: self.git_ref.deep_view(),
            source_uri: self.source_uri.deep_view(),
            path_offset: self.path_offset.deep_view(),
            package_format: self.package_format,
            ignore_registry: self.ignore_registry,
        }
    }
}

fn json_get_plain_fields(package_name: &Option<String>, json_value: &JsonValue) -> (r: Result<
    PlainValues,
    NumngError,
>)
    ensures
        outcome_is(r, read_plain_fields(package_name.deep_view(), json_value@)),
{
    let source_type = match json_get_source_type(package_name, json_value) {
        Ok(v) => v,
        Err(e) => {
            return Err(e);
        },
    };
    let git_ref = match json_get_opt_str(package_name, json_value, "git_ref") {
        Ok(v) => v,
        Err(e) => {
            return Err(e);
        },
    };
    let source_uri = match json_get_opt_str(package_name, json_value, "source_uri") {
        Ok(v) => v,
        Err(e) => {
            return Err(e);
        },
    };
    let path_offset = match json_get_opt_str(package_name, json_value, "path_offset") {
        Ok(v) => v,
        Err(e) => {
            return Err(e);
        },
    };
    let package_format = match json_get_package_format(package_name, json_value) {
        Ok(v) => v,
        Err(e) => {
            return Err(e);
        },
    };
    let ignore_registry = match json_get_opt_bool(package_name, json_value, "ignore_registry") {
        Ok(v) => v,
        Err(e) => {
            return Err(e);
        },
    };
    Ok(PlainValues { source_type, git_ref, source_uri, path_offset, package_format,
        ignore_registry })
}

/// The fields that are read after `depends`, as read.
struct LateValues {
    version: Option<SemVer>,
    nu_plugins: Option<Vec<String>>,
    nu_libs: Option<Vec<(String, String)>>,
    bin: Option<Vec<(String, String)>>,
    build_command: Option<String>,
    shell_config: Option<Vec<(String, Vec<String>)>>,
}

impl DeepView for LateValues {
    type V = LateFields;

    closed spec fn deep_view(&self) -> LateFields {
        LateFields {
            version: self.version.deep_view(),
            nu_plugins: self.nu_plugins.deep_view(),
            nu_libs: self.nu_libs.deep_view(),
            bin: self.bin.deep_view(),
            build_command: self.build_command.deep_view(),
            shell_config: self.shell_config.deep_view(),
        }
    }
}

fn json_get_late_fields(package_name: &Option<String>, json_value: &JsonValue) -> (r: Result<
    LateValues,
    NumngError,
>)
    ensures
        outcome_is(r, read_late_fields(package_name.deep_view(), json_value@)),
{
    let version = match json_get_version(package_name, json_value) {
        Ok(v) => v,
        Err(e) => {
            return Err(e);
        },
    };
    let nu_plugins = match json_get_plugins(package_name, json_value) {
        Ok(v) => v,
        Err(e) => {
            return Err(e);
        },
    };
    let nu_libs = match json_get_opt_hm_str_str(package_name, json_value, "nu_libs") {
        Ok(v) => v,
        Err(e) => {
            return Err(e);
        },
    };
    let bin = match json_get_opt_hm_str_str(package_name, json_value, "bin") {
        Ok(v) => v,
        Err(e) => {
            return Err(e);
        },
    };
    let build_command = match json_get_opt_str(package_name, json_value, "build_command") {
        Ok(v) => v,
        Err(e) => {
            return Err(e);
        },
    };
    let shell_config = match json_get_shell_config(package_name, json_value) {
        Ok(v) => v,
        Err(e) => {
            return Err(e);
        },
    };
    Ok(LateValues { version, nu_plugins, nu_libs, bin, build_command, shell_config })
}

/// Puts into the collection the package that a dependency given by name
/// stands for.
fn append_named(collection: &mut PackageCollection, name: &String, allow: Option<bool>) -> (id:
    PackageId)
    ensures
        final(collection)@ == append_to(old(collection)@, named_package(name@, allow)).collection,
        Ok::<PackageId, NumngErrorView>(id) == append_to(
            old(collection)@,
            named_package(name@, allow),
        ).outcome,
        grows(old(collection)@, final(collection)@),
        old(collection).wf() ==> final(collection).wf(),
        handle_fits(final(collection)@, id, allow),
        allow == Some(false) ==> forbidden_from(final(collection)@, old(collection)@.len() as int),
{
    let mut package = Package::new_with_name(name.clone());
    if let Some(false) = allow {
        package.allow_build_commands = Some(false);
    }
    match collection.append_package(package) {
        Ok(id) => {
            id
        },
        Err(_) => 0,
    }
}

/// Reads the members of a `linkin` mapping.
fn parse_linkin_members(
    collection: &mut PackageCollection,
    package_name: &Option<String>,
    linkin: &JsonValue,
    allow: Option<bool>,
) -> (r: Result<Vec<(String, PackageId)>, NumngError>)
    requires
        linkin.data is Object,
    ensures
        final(collection)@ == parse_linkin(
            old(collection)@,
            package_name.deep_view(),
            linkin@.data->Object_0,
            linkin@.data->Object_0.len(),
            allow,
        ).collection,
        outcome_is(
            r,
            parse_linkin(
                old(collection)@,
                package_name.deep_view(),
                linkin@.data->Object_0,
                linkin@.data->Object_0.len(),
                allow,
            ).outcome,
        ),
        grows(old(collection)@, final(collection)@),
        old(collection).wf() ==> final(collection).wf(),
        r is Ok ==> forall|j: int|
            0 <= j < r->Ok_0@.len() ==> handle_fits(
                final(collection)@,
                (#[trigger] r->Ok_0@[j]).1,
                allow,
            ),
        allow == Some(false) ==> forbidden_from(final(collection)@, old(collection)@.len() as int),
    decreases linkin@, 2nat,
{
    let mut links: Vec<(String, PackageId)> = Vec::new();
    match &linkin.data {
        JsonData::Object(members) => {
            let ghost shown = linkin@.data->Object_0;
            let ghost name = package_name.deep_view();
            let ghost start = collection@;
            let mut i: usize = 0;
            assert(links.deep_view() =~= Seq::<(Seq<char>, PackageId)>::empty());
            while i < members.len()
                invariant
                    i <= members.len(),
                    linkin.data == JsonData::Object(*members),
                    shown == linkin@.data->Object_0,
                    shown.len() == members.len(),
                    name == package_name.deep_view(),
                    start == old(collection)@,
                    forall|j: int|
                        0 <= j < members.len() ==> #[trigger] shown[j] == (
                            members[j].0@,
                            members[j].1@,
                        ),
                    parse_linkin(start, name, shown, i as nat, allow).outcome == Ok::<
                        Seq<(Seq<char>, PackageId)>,
                        NumngErrorView,
                    >(links.deep_view()),
                    parse_linkin(start, name, shown, i as nat, allow).collection == collection@,
                    grows(start, collection@),
                    old(collection).wf() ==> collection.wf(),
                    forall|j: int|
                        0 <= j < links@.len() ==> handle_fits(
                            collection@,
                            (#[trigger] links@[j]).1,
                            allow,
                        ),
                    allow == Some(false) ==> forbidden_from(collection@, start.len() as int),
                decreases members.len() - i,
            {
                let value = &members[i].1;
                let added: Result<PackageId, NumngError> = match &value.data {
                    JsonData::Object(_) => {
                        proof {
                            assert(decreases_to!(shown[i as int] => shown[i as int].1));
                        }
                        append_numng_package(collection, value, allow)
                    },
                    _ => Err(linkin_error(package_name, &members[i].0)),
                };
                match added {
                    Ok(id) => {
                        let ghost before = links;
                        let link = (members[i].0.clone(), id);
                        links.push(link);
                        proof {
                            lemma_deep_view_push(before, links, link);
                        }
                    },
                    Err(e) => {
                        proof {
                            lemma_parse_linkin_error(
                                start,
                                name,
                                shown,
                                (i + 1) as nat,
                                shown.len(),
                                allow,
                            );
                        }
                        return Err(e);
                    },
                }
                i += 1;
            }
            Ok(links)
        },
        _ => Ok(links),
    }
}

/// Reads the `linkin` member.
fn parse_linkin_of(
    collection: &mut PackageCollection,
    package_name: &Option<String>,
    json_value: &JsonValue,
    allow: Option<bool>,
) -> (r: Result<Option<Vec<(String, PackageId)>>, NumngError>)
    ensures
        final(collection)@ == parse_linkin_field(
            old(collection)@,
            package_name.deep_view(),
            json_value@,
            allow,
        ).collection,
        outcome_is(
            r,
            parse_linkin_field(
                old(collection)@,
                package_name.deep_view(),
                json_value@,
                allow,
            ).outcome,
        ),
        grows(old(collection)@, final(collection)@),
        old(collection).wf() ==> final(collection).wf(),
        r matches Ok(Some(links)) ==> forall|j: int|
            0 <= j < links@.len()
                ==> handle_fits(final(collection)@, (#[trigger] links@[j]).1, allow),
        allow == Some(false) ==> forbidden_from(final(collection)@, old(collection)@.len() as int),
    decreases json_value@, 3nat,
{
    match json_value.get("linkin") {
        None => Ok(None),
        Some(found) => match &found.data {
            JsonData::Object(_) => {
                proof {
                    lemma_member_decreases(json_value@, "linkin"@);
                }
                match parse_linkin_members(collection, package_name, found, allow) {
                    Ok(links) => Ok(Some(links)),
                    Err(e) => Err(e),
                }
            },
            _ => Err(invalid_field(package_name, "linkin", found.shown.clone())),
        },
    }
}

/// Reads the items of a `depends` list.
fn parse_depends_items(
    collection: &mut PackageCollection,
    package_name: &Option<String>,
    depends: &JsonValue,
    allow: Option<bool>,
) -> (r: Result<Vec<PackageId>, NumngError>)
    requires
        depends.data is Array,
    ensures
        final(collection)@ == parse_depends(
            old(collection)@,
            package_name.deep_view(),
            depends@.data->Array_0,
            depends@.data->Array_0.len(),
            allow,
        ).collection,
        outcome_is(
            r,
            parse_depends(
                old(collection)@,
                package_name.deep_view(),
                depends@.data->Array_0,
                depends@.data->Array_0.len(),
                allow,
            ).outcome,
        ),
        grows(old(collection)@, final(collection)@),
        old(collection).wf() ==> final(collection).wf(),
        r is Ok ==> forall|j: int|
            0 <= j < r->Ok_0@.len()
                ==> handle_fits(final(collection)@, #[trigger] r->Ok_0@[j], allow),
        allow == Some(false) ==> forbidden_from(final(collection)@, old(collection)@.len() as int),
    decreases depends@, 2nat,
{
    let mut handles: Vec<PackageId> = Vec::new();
    match &depends.data {
        JsonData::Array(items) => {
            let ghost shown = depends@.data->Array_0;
            let ghost name = package_name.deep_view();
            let ghost start = collection@;
            let mut i: usize = 0;
            assert(handles.deep_view() =~= Seq::<PackageId>::empty());
            while i < items.len()
                invariant
                    i <= items.len(),
                    depends.data == JsonData::Array(*items),
                    shown == depends@.data->Array_0,
                    shown.len() == items.len(),
                    name == package_name.deep_view(),
                    start == old(collection)@,
                    forall|j: int| 0 <= j < items.len() ==> #[trigger] shown[j] == items[j]@,
                    parse_depends(start, name, shown, i as nat, allow).outcome == Ok::<
                        Seq<PackageId>,
                        NumngErrorView,
                    >(handles.deep_view()),
                    parse_depends(start, name, shown, i as nat, allow).collection == collection@,
                    grows(start, collection@),
                    old(collection).wf() ==> collection.wf(),
                    forall|j: int|
                        0 <= j < handles@.len() ==> handle_fits(
                            collection@,
                            #[trigger] handles@[j],
                            allow,
                        ),
                    allow == Some(false) ==> forbidden_from(collection@, start.len() as int),
                decreases items.len() - i,
            {
                assert(shown[i as int] == items[i as int]@);
                let item = &items[i];
                let added: Result<PackageId, NumngError> = match &item.data {
                    JsonData::String(s) => Ok(append_named(collection, s, allow)),
                    JsonData::Object(_) => {
                        append_numng_package(collection, item, allow)
                    },
                    _ => Err(invalid_field(package_name, "depends", item.shown.clone())),
                };
                match added {
                    Ok(id) => {
                        let ghost before = handles;
                        handles.push(id);
                        proof {
                            lemma_deep_view_push(before, handles, id);
                        }
                    },
                    Err(e) => {
                        proof {
                            lemma_parse_depends_error(
                                start,
                                name,
                                shown,
                                (i + 1) as nat,
                                shown.len(),
                                allow,
                            );
                        }
                        return Err(e);
                    },
                }
                i += 1;
            }
            Ok(handles)
        },
        _ => Ok(handles),
    }
}

/// Reads the `depends` member.
fn parse_depends_of(
    collection: &mut PackageCollection,
    package_name: &Option<String>,
    json_value: &JsonValue,
    allow: Option<bool>,
) -> (r: Result<Option<Vec<PackageId>>, NumngError>)
    ensures
        final(collection)@ == parse_depends_field(
            old(collection)@,
            package_name.deep_view(),
            json_value@,
            allow,
        ).collection,
        outcome_is(
            r,
            parse_depends_field(
                old(collection)@,
                package_name.deep_view(),
                json_value@,
                allow,
            ).outcome,
        ),
        grows(old(collection)@, final(collection)@),
        old(collection).wf() ==> final(collection).wf(),
        r matches Ok(Some(handles)) ==> forall|j: int|
            0 <= j < handles@.len()
                ==> handle_fits(final(collection)@, #[trigger] handles@[j], allow),
        allow == Some(false) ==> forbidden_from(final(collection)@, old(collection)@.len() as int),
    decreases json_value@, 3nat,
{
    let found = match json_value.get("depends") {
        None => {
            return Ok(None);
        },
        Some(found) => found,
    };
    proof {
        lemma_member_decreases(json_value@, "depends"@);
    }
    match &found.data {
        JsonData::Array(_) => match parse_depends_items(collection, package_name, found, allow) {
            Ok(handles) => Ok(Some(handles)),
            Err(e) => Err(e),
        },
        JsonData::String(s) => {
            let id = append_named(collection, s, allow);
            let mut handles: Vec<PackageId> = Vec::new();
            handles.push(id);
            assert(handles.deep_view() =~= seq![id]);
            Ok(Some(handles))
        },
        JsonData::Object(_) => match append_numng_package(collection, found, allow) {
            Ok(id) => {
                let mut handles: Vec<PackageId> = Vec::new();
                handles.push(id);
                assert(handles.deep_view() =~= seq![id]);
                Ok(Some(handles))
            },
            Err(e) => Err(e),
        },
        _ => Err(invalid_field(package_name, "depends", debug_present(found))),
    }
}

/// Reads the package that `json_value` describes. The packages that it links
/// in and depends on are put into the collection; the package itself is
/// returned, not put there.
///
/// Where `allow_build_commands` is `Some(false)`, build commands are
/// forbidden in the package and in every package that this call puts into
/// the collection, whatever the document says.
pub fn parse_numng_package(
    collection: &mut PackageCollection,
    json_value: &JsonValue,
    allow_build_commands: Option<bool>,
) -> (r: Result<Package, NumngError>)
    ensures
        final(collection)@ == parse_package(
            old(collection)@,
            json_value@,
            allow_build_commands,
        ).collection,
        outcome_is(
            r,
            parse_package(old(collection)@, json_value@, allow_build_commands).outcome,
        ),
        grows(old(collection)@, final(collection)@),
        old(collection).wf() ==> final(collection).wf(),
        r is Ok ==> handles_fit(final(collection)@, r->Ok_0@, allow_build_commands),
        r is Ok ==> crate::package::handles_below(r->Ok_0@, final(collection)@.len() as int),
        allow_build_commands == Some(false) ==> forbidden_from(
            final(collection)@,
            old(collection)@.len() as int,
        ),
        allow_build_commands == Some(false) && r is Ok ==> r->Ok_0@.allow_build_commands == Some(
            false,
        ),
    decreases json_value@, 4nat,
{
    let unnamed: Option<String> = None;
    let name = match json_get_opt_str(&unnamed, json_value, "name") {
        Ok(v) => v,
        Err(e) => {
            return Err(e);
        },
    };
    let allowed: Option<bool> = if let Some(false) = allow_build_commands {
        Some(false)
    } else {
        match json_get_opt_bool(&name, json_value, "allow_build_commands") {
            Ok(v) => v,
            Err(e) => {
                return Err(e);
            },
        }
    };
    let linkin = match parse_linkin_of(collection, &name, json_value, allowed) {
        Ok(v) => v,
        Err(e) => {
            return Err(e);
        },
    };
    let plain = match json_get_plain_fields(&name, json_value) {
        Ok(v) => v,
        Err(e) => {
            return Err(e);
        },
    };
    let depends = match parse_depends_of(collection, &name, json_value, allowed) {
        Ok(v) => v,
        Err(e) => {
            return Err(e);
        },
    };
    let late = match json_get_late_fields(&name, json_value) {
        Ok(v) => v,
        Err(e) => {
            return Err(e);
        },
    };
    let package = Package {
        name,
        linkin,
        path_offset: plain.path_offset,
        depends,
        package_format: plain.package_format,
        ignore_registry: plain.ignore_registry,
        version: late.version,
        nu_plugins: late.nu_plugins,
        nu_libs: late.nu_libs,
        source_type: plain.source_type,
        source_uri: plain.source_uri,
        git_ref: plain.git_ref,
        bin: late.bin,
        build_command: late.build_command,
        allow_build_commands: allowed,
        shell_config: late.shell_config,
    };
    Ok(package)
}

/// Reads the package that `json_value` describes and puts it into the
/// collection; gives the package's handle.
pub fn append_numng_package(
    collection: &mut PackageCollection,
    json_value: &JsonValue,
    allow_build_commands: Option<bool>,
) -> (r: Result<PackageId, NumngError>)
    ensures
        final(collection)@ == append_parsed(
            old(collection)@,
            json_value@,
            allow_build_commands,
        ).collection,
        outcome_is(
            r,
            append_parsed(old(collection)@, json_value@, allow_build_commands).outcome,
        ),
        grows(old(collection)@, final(collection)@),
        old(collection).wf() ==> final(collection).wf(),
        r is Ok ==> handle_fits(final(collection)@, r->Ok_0, allow_build_commands),
        allow_build_commands == Some(false) ==> forbidden_from(
            final(collection)@,
            old(collection)@.len() as int,
        ),
    decreases json_value@, 5nat,
{
    let package = match parse_numng_package(collection, json_value, allow_build_commands) {
        Ok(package) => package,
        Err(e) => {
            return Err(e);
        },
    };
    match collection.append_package(package) {
        Ok(id) => {
            Ok(id)
        },
        Err(e) => Err(e),
    }
}

/// Takes from a package what it links in and depends on.
fn into_locator(package: Package) -> (r: Package)
    ensures
        r@ == as_locator(package@),
{
    let mut package = package;
    package.depends = None;
    package.linkin = None;
    package
}

/// Reads the registries that the root document names. Build commands are
/// forbidden in each of them.
pub fn parse_repos_from_package(json_value: &JsonValue) -> (r: Result<Vec<Package>, NumngError>)
    ensures
        outcome_is(r, parse_repos(json_value@)),
        r is Ok ==> forall|i: int|
            0 <= i < r->Ok_0@.len() ==> (#[trigger] r->Ok_0@[i])@.allow_build_commands == Some(
                false,
            ),
{
    let mut c = PackageCollection::new();
    let mut repos: Vec<Package> = Vec::new();
    let found = match json_value.get("registry") {
        None => {
            assert(repos.deep_view() =~= Seq::<PackageView>::empty());
            return Ok(repos);
        },
        Some(found) => found,
    };
    match &found.data {
        JsonData::Object(_) => {
            let package = match parse_numng_package(&mut c, found, Some(false)) {
                Ok(package) => package,
                Err(e) => {
                    return Err(e);
                },
            };
            let repo = into_locator(package);
            repos.push(repo);
            assert(repos.deep_view() =~= seq![repo@]);
            Ok(repos)
        },
        JsonData::Array(items) => {
            let ghost shown = found@.data->Array_0;
            let mut i: usize = 0;
            assert(repos.deep_view() =~= Seq::<PackageView>::empty());
            while i < items.len()
                invariant
                    i <= items.len(),
                    member(json_value@, "registry"@) == Some(found@),
                    found@.data is Array,
                    shown == found@.data->Array_0,
                    shown.len() == items.len(),
                    forall|j: int| 0 <= j < items.len() ==> #[trigger] shown[j] == items[j]@,
                    parse_repo_items(Seq::empty(), shown, i as nat).outcome == Ok::<
                        Seq<PackageView>,
                        NumngErrorView,
                    >(repos.deep_view()),
                    parse_repo_items(Seq::empty(), shown, i as nat).collection == c@,
                    forall|j: int|
                        0 <= j < repos@.len() ==> (#[trigger] repos@[j])@.allow_build_commands
                            == Some(false),
                decreases items.len() - i,
            {
                match parse_numng_package(&mut c, &items[i], Some(false)) {
                    Ok(package) => {
                        let ghost before = repos;
                        let repo = into_locator(package);
                        repos.push(repo);
                        proof {
                            lemma_deep_view_push(before, repos, repo);
                        }
                    },
                    Err(e) => {
                        proof {
                            lemma_parse_repo_items_error(
                                Seq::empty(),
                                shown,
                                (i + 1) as nat,
                                shown.len(),
                            );
                        }
                        return Err(e);
                    },
                }
                i += 1;
            }
            Ok(repos)
        },
        _ => {
            let unnamed: Option<String> = None;
            Err(invalid_field(&unnamed, "registry", found.shown.clone()))
        },
    }
}

} // verus!
