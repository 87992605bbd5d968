// One package and how it is completed from another record of it.
use crate::package_format::PackageFormat;
use crate::plain::Plain;
use crate::numng_error::{NumngError, NumngErrorView};
use crate::repo::numng::NumngRepo;
use crate::sources::git_src::{worktree_directory, worktree_path};
use crate::text::owned;
use crate::util::{join_path, path_join};
use crate::semver::{SemVer, SemVerView};
use vstd::prelude::*;

verus! {

/// Handle of a package inside a `PackageCollection`.
pub type PackageId = usize;

/// Where a package's files come from.
#[derive(Debug, Clone, Copy, PartialEq, Eq, Structural)]
pub enum SourceType {
    Git,
}

/// One package. Every field is optional, so that a record can be completed
/// later from another one.
///
/// The mappings (`linkin`, `nu_libs`, `shell_config`, `bin`) are kept as lists
/// of entries, in the order in which the manifest gave them. A mapping read
/// from a manifest holds each key once, as the manifest does.
#[derive(Debug, PartialEq, Eq)]
pub struct Package {
    pub name: Option<String>,
    pub linkin: Option<Vec<(String, PackageId)>>,
    pub path_offset: Option<String>,
    pub depends: Option<Vec<PackageId>>,
    pub package_format: Option<PackageFormat>,
    pub ignore_registry: Option<bool>,
    pub version: Option<SemVer>,
    pub nu_plugins: Option<Vec<String>>,
    pub nu_libs: Option<Vec<(String, String)>>,
    pub shell_config: Option<Vec<(String, Vec<String>)>>,
    pub bin: Option<Vec<(String, String)>>,
    pub build_command: Option<String>,
    pub allow_build_commands: Option<bool>,
    pub source_type: Option<SourceType>,
    pub source_uri: Option<String>,
    pub git_ref: Option<String>,
}

/// What a `Package` holds, as mathematical values.
pub struct PackageView {
    pub name: Option<Seq<char>>,
    pub linkin: Option<Seq<(Seq<char>, PackageId)>>,
    pub path_offset: Option<Seq<char>>,
    pub depends: Option<Seq<PackageId>>,
    pub package_format: Option<PackageFormat>,
    pub ignore_registry: Option<bool>,
    pub version: Option<SemVerView>,
    pub nu_plugins: Option<Seq<Seq<char>>>,
    pub nu_libs: Option<Seq<(Seq<char>, Seq<char>)>>,
    pub shell_config: Option<Seq<(Seq<char>, Seq<Seq<char>>)>>,
    pub bin: Option<Seq<(Seq<char>, Seq<char>)>>,
    pub build_command: Option<Seq<char>>,
    pub allow_build_commands: Option<bool>,
    pub source_type: Option<SourceType>,
    pub source_uri: Option<Seq<char>>,
    pub git_ref: Option<Seq<char>>,
}

impl View for Package {
    type V = PackageView;

    open spec fn view(&self) -> PackageView {
        PackageView {
            name: self.name.deep_view(),
            linkin: self.linkin.deep_view(),
            path_offset: self.path_offset.deep_view(),
            depends: self.depends.deep_view(),
            package_format: self.package_format,
            ignore_registry: self.ignore_registry,
            version: self.version.deep_view(),
            nu_plugins: self.nu_plugins.deep_view(),
            nu_libs: self.nu_libs.deep_view(),
            shell_config: self.shell_config.deep_view(),
            bin: self.bin.deep_view(),
            build_command: self.build_command.deep_view(),
            allow_build_commands: self.allow_build_commands,
            source_type: self.source_type,
            source_uri: self.source_uri.deep_view(),
            git_ref: self.git_ref.deep_view(),
        }
    }
}

impl DeepView for Package {
    type V = PackageView;

    open spec fn deep_view(&self) -> PackageView {
        self.view()
    }
}

impl View for SourceType {
    type V = SourceType;

    open spec fn view(&self) -> SourceType {
        *self
    }
}

impl DeepView for SourceType {
    type V = SourceType;

    open spec fn deep_view(&self) -> SourceType {
        *self
    }
}

impl Plain for SourceType {
    fn same(&self, other: &Self) -> (r: bool) {
        *self == *other
    }

    fn copy(&self) -> (r: Self) {
        *self
    }
}

/// The package of which nothing is known.
pub open spec fn empty_package() -> PackageView {
    PackageView {
        name: None,
        linkin: None,
        path_offset: None,
        depends: None,
        package_format: None,
        ignore_registry: None,
        version: None,
        nu_plugins: None,
        nu_libs: None,
        shell_config: None,
        bin: None,
        build_command: None,
        allow_build_commands: None,
        source_type: None,
        source_uri: None,
        git_ref: None,
    }
}

/// That a field of the package `p` is missing.
pub open spec fn missing_field(p: PackageView, field: Seq<char>) -> NumngErrorView {
    NumngErrorView::InvalidPackageFieldValue { package_name: p.name, field, value: None }
}

/// The ref of a package: `main` where none is given.
pub open spec fn ref_or_main(p: PackageView) -> Seq<char> {
    match p.git_ref {
        Some(r) => r,
        None => "main"@,
    }
}

/// The directory that is the package's root: the work tree of its ref, or
/// the directory that `path_offset` names inside the work tree. A package
/// without `source_uri` has none.
pub open spec fn package_path(p: PackageView, base_dir: Seq<char>) -> Result<
    Seq<char>,
    NumngErrorView,
> {
    match p.source_uri {
        None => Err(missing_field(p, "source_uri"@)),
        Some(uri) => {
            let tree = worktree_path(base_dir, uri, ref_or_main(p));
            Ok(
                match p.path_offset {
                    Some(offset) => path_join(tree, offset),
                    None => tree,
                },
            )
        },
    }
}

/// The directory of the registry that a package is: its root, if the package
/// is in the primary format. The other formats cannot serve as registries.
pub open spec fn registry_path(p: PackageView, base_dir: Seq<char>) -> Result<
    Seq<char>,
    NumngErrorView,
> {
    match p.package_format {
        Some(PackageFormat::Numng) => package_path(p, base_dir),
        Some(PackageFormat::Nupm) => Err(
            NumngErrorView::NotImplemented(
                "Nupm registry creation in package::Package::as_registry"@,
            ),
        ),
        Some(PackageFormat::PackerNu) => Err(
            NumngErrorView::NotImplemented(
                "PackerNu registry creation in package::Package::as_registry"@,
            ),
        ),
        None => Err(missing_field(p, "package_format"@)),
    }
}

/// `x`, or `y` where `x` is absent.
pub open spec fn or_else<T>(x: Option<T>, y: Option<T>) -> Option<T> {
    match x {
        Some(_) => x,
        None => y,
    }
}

/// The package `target` completed from `filler`.
///
/// A package that ignores registries stays as it is. In any other package,
/// each field that is absent is taken from `filler`, but for two: whether the
/// package ignores registries, and whether it allows build commands.
pub open spec fn fill_null(target: PackageView, filler: PackageView) -> PackageView {
    if target.ignore_registry == Some(true) {
        target
    } else {
        PackageView {
            name: or_else(target.name, filler.name),
            linkin: or_else(target.linkin, filler.linkin),
            path_offset: or_else(target.path_offset, filler.path_offset),
            depends: or_else(target.depends, filler.depends),
            package_format: or_else(target.package_format, filler.package_format),
            ignore_registry: target.ignore_registry,
            version: or_else(target.version, filler.version),
            nu_plugins: or_else(target.nu_plugins, filler.nu_plugins),
            nu_libs: or_else(target.nu_libs, filler.nu_libs),
            shell_config: or_else(target.shell_config, filler.shell_config),
            bin: or_else(target.bin, filler.bin),
            build_command: or_else(target.build_command, filler.build_command),
            allow_build_commands: target.allow_build_commands,
            source_type: or_else(target.source_type, filler.source_type),
            source_uri: or_else(target.source_uri, filler.source_uri),
            git_ref: or_else(target.git_ref, filler.git_ref),
        }
    }
}

/// Whether every handle that `p` holds is below `n`.
pub open spec fn handles_below(p: PackageView, n: int) -> bool {
    &&& p.depends is Some ==> forall|i: int|
        0 <= i < p.depends->0.len() ==> #[trigger] p.depends->0[i] < n
    &&& p.linkin is Some ==> forall|i: int|
        0 <= i < p.linkin->0.len() ==> (#[trigger] p.linkin->0[i]).1 < n
}

/// An absent text, or the text itself.
pub open spec fn text_or_none(o: Option<Seq<char>>) -> Seq<char> {
    match o {
        Some(s) => s,
        None => "None"@,
    }
}

/// How a package is named in messages.
pub open spec fn package_text(p: PackageView) -> Seq<char> {
    "Package(name="@ + text_or_none(p.name) + ", version="@ + crate::semver::render_version(
        match p.version {
            Some(v) => v,
            None => SemVerView::Latest,
        },
    ) + ", source_uri="@ + text_or_none(p.source_uri) + ", git_ref="@ + text_or_none(p.git_ref)
        + ")"@
}

/// Puts `filler` in the place of an absent value.
fn fill<T: DeepView>(target: &mut Option<T>, filler: Option<T>)
    ensures
        final(target).deep_view() == or_else(old(target).deep_view(), filler.deep_view()),
{
    if target.is_none() {
        *target = filler;
    }
}

/// An absent text as `None`, or the text itself.
fn format_opt_str(os: &Option<String>) -> (r: String)
    ensures
        r@ == text_or_none(os.deep_view()),
{
    match os {
        Some(n) => n.clone(),
        None => owned("None"),
    }
}

impl Package {
    /// The package of which only the name is known.
    pub fn new_with_name(name: String) -> (r: Self)
        ensures
            r@ == (PackageView { name: Some(name@), ..empty_package() }),
    {
        Self {
            bin: None,
            build_command: None,
            depends: None,
            ignore_registry: None,
            linkin: None,
            name: Some(name),
            nu_libs: None,
            nu_plugins: None,
            package_format: None,
            path_offset: None,
            shell_config: None,
            version: None,
            allow_build_commands: None,
            source_type: None,
            source_uri: None,
            git_ref: None,
        }
    }

    /// The package of which nothing is known.
    pub fn new_empty() -> (r: Self)
        ensures
            r@ == empty_package(),
    {
        Self {
            bin: None,
            build_command: None,
            depends: None,
            ignore_registry: None,
            linkin: None,
            name: None,
            nu_libs: None,
            nu_plugins: None,
            package_format: None,
            path_offset: None,
            shell_config: None,
            version: None,
            allow_build_commands: None,
            source_type: None,
            source_uri: None,
            git_ref: None,
        }
    }

    /// Completes the package from a registry's record of it: takes each
    /// absent field from `filler`. Never taken over: whether build commands
    /// are allowed, and whether registries are ignored. A package that
    /// ignores registries is left as it is.
    pub fn fill_null_values(&mut self, filler: Package)
        ensures
            final(self)@ == fill_null(old(self)@, filler@),
            old(self)@.ignore_registry == Some(true) ==> final(self)@ == old(self)@,
            final(self)@.allow_build_commands == old(self)@.allow_build_commands,
            final(self)@.ignore_registry == old(self)@.ignore_registry,
    {
        if let Some(true) = self.ignore_registry {
            return ;
        }
        fill(&mut self.name, filler.name);
        fill(&mut self.linkin, filler.linkin);
        fill(&mut self.source_type, filler.source_type);
        fill(&mut self.source_uri, filler.source_uri);
        fill(&mut self.git_ref, filler.git_ref);
        fill(&mut self.path_offset, filler.path_offset);
        fill(&mut self.depends, filler.depends);
        fill(&mut self.package_format, filler.package_format);
        fill(&mut self.version, filler.version);
        fill(&mut self.nu_plugins, filler.nu_plugins);
        fill(&mut self.nu_libs, filler.nu_libs);
        fill(&mut self.shell_config, filler.shell_config);
        fill(&mut self.bin, filler.bin);
        fill(&mut self.build_command, filler.build_command);
    }

    /// The error for a field that is missing.
    pub(crate) fn missing(&self, field: &str) -> (e: NumngError)
        ensures
            e@ == missing_field(self@, field@),
    {
        NumngError::InvalidPackageFieldValue {
            package_name: self.name.copy(),
            field: owned(field),
            value: None,
        }
    }

    /// The ref of the package: `main` where none is given.
    pub fn git_ref_or_main(&self) -> (r: String)
        ensures
            r@ == ref_or_main(self@),
    {
        match &self.git_ref {
            Some(r) => r.clone(),
            None => owned("main"),
        }
    }

    /// The directory that is the package's root below `base_dir`. Nothing is
    /// looked at or fetched: the path is where the package's files are once
    /// its work tree is there.
    pub fn get_fs_basepath(&self, base_dir: &str) -> (r: Result<String, NumngError>)
        ensures
            match r {
                Ok(path) => package_path(self@, base_dir@) == Ok::<Seq<char>, NumngErrorView>(
                    path@,
                ),
                Err(e) => package_path(self@, base_dir@) == Err::<Seq<char>, NumngErrorView>(e@),
            },
    {
        let uri = match &self.source_uri {
            Some(uri) => uri,
            None => {
                return Err(self.missing("source_uri"));
            },
        };
        let git_ref = self.git_ref_or_main();
        let tree = worktree_directory(uri.as_str(), git_ref.as_str(), base_dir);
        Ok(
            match &self.path_offset {
                Some(offset) => join_path(tree.as_str(), offset.as_str()),
                None => tree,
            },
        )
    }

    /// The registry that this package is.
    pub fn as_registry(&self, base_dir: &str) -> (r: Result<NumngRepo, NumngError>)
        ensures
            match r {
                Ok(repo) => registry_path(self@, base_dir@) == Ok::<Seq<char>, NumngErrorView>(
                    repo@,
                ),
                Err(e) => registry_path(self@, base_dir@) == Err::<Seq<char>, NumngErrorView>(e@),
            },
    {
        match self.package_format {
            Some(PackageFormat::Numng) => match self.get_fs_basepath(base_dir) {
                Ok(path) => Ok(NumngRepo::new(path)),
                Err(e) => Err(e),
            },
            Some(PackageFormat::Nupm) => Err(
                NumngError::NotImplemented(
                    owned("Nupm registry creation in package::Package::as_registry"),
                ),
            ),
            Some(PackageFormat::PackerNu) => Err(
                NumngError::NotImplemented(
                    owned("PackerNu registry creation in package::Package::as_registry"),
                ),
            ),
            None => Err(self.missing("package_format")),
        }
    }

    /// Whether every handle that the package holds is below `n`.
    pub fn handles_are_below(&self, n: usize) -> (r: bool)
        ensures
            r == handles_below(self@, n as int),
    {
        if let Some(depends) = &self.depends {
            let ghost shown = depends.deep_view();
            let mut k: usize = 0;
            while k < depends.len()
                invariant
                    k <= depends.len(),
                    shown == depends@,
                    self@.depends == Some(shown),
                    forall|j: int| 0 <= j < k ==> #[trigger] shown[j] < n,
                decreases depends.len() - k,
            {
                if depends[k] >= n {
                    assert(self@.depends->0[k as int] == shown[k as int]);
                    return false;
                }
                k += 1;
            }
        }
        if let Some(linkin) = &self.linkin {
            let ghost shown = linkin.deep_view();
            let mut k: usize = 0;
            while k < linkin.len()
                invariant
                    k <= linkin.len(),
                    shown == linkin.deep_view(),
                    self@.linkin == Some(shown),
                    self@.depends is Some ==> forall|j: int|
                        0 <= j < self@.depends->0.len() ==> #[trigger] self@.depends->0[j] < n,
                    forall|j: int| 0 <= j < k ==> (#[trigger] shown[j]).1 < n,
                decreases linkin.len() - k,
            {
                if linkin[k].1 >= n {
                    assert(self@.linkin->0[k as int] == shown[k as int]);
                    return false;
                }
                k += 1;
            }
        }
        true
    }

    /// Whether two packages hold the same in every field.
    pub fn same_as(&self, other: &Package) -> (r: bool)
        ensures
            r == (self@ == other@),
    {
        self.same(other)
    }

    /// The package as it is named in messages.
    pub fn to_string(&self) -> (r: String)
        ensures
            r@ == package_text(self@),
    {
        let mut r = owned("Package(name=");
        r.append(format_opt_str(&self.name).as_str());
        r.append(", version=");
        let version = match &self.version {
            Some(v) => v.to_string(),
            None => crate::semver::SemVer::Latest.to_string(),
        };
        r.append(version.as_str());
        r.append(", source_uri=");
        r.append(format_opt_str(&self.source_uri).as_str());
        r.append(", git_ref=");
        r.append(format_opt_str(&self.git_ref).as_str());
        r.append(")");
        r
    }
}

impl Plain for Package {
    fn same(&self, other: &Self) -> (r: bool) {
        self.name.same(&other.name) && self.linkin.same(&other.linkin) && self.path_offset.same(
            &other.path_offset,
        ) && self.depends.same(&other.depends) && self.package_format.same(&other.package_format)
            && self.ignore_registry.same(&other.ignore_registry) && self.version.same(
            &other.version,
        ) && self.nu_plugins.same(&other.nu_plugins) && self.nu_libs.same(&other.nu_libs)
            && self.shell_config.same(&other.shell_config) && self.bin.same(&other.bin)
            && self.build_command.same(&other.build_command) && self.allow_build_commands.same(
            &other.allow_build_commands,
        ) && self.source_type.same(&other.source_type) && self.source_uri.same(&other.source_uri)
            && self.git_ref.same(&other.git_ref)
    }

    fn copy(&self) -> (r: Self) {
        Package {
            name: self.name.copy(),
            linkin: self.linkin.copy(),
            path_offset: self.path_offset.copy(),
            depends: self.depends.copy(),
            package_format: self.package_format.copy(),
            ignore_registry: self.ignore_registry.copy(),
            version: self.version.copy(),
            nu_plugins: self.nu_plugins.copy(),
            nu_libs: self.nu_libs.copy(),
            shell_config: self.shell_config.copy(),
            bin: self.bin.copy(),
            build_command: self.build_command.copy(),
            allow_build_commands: self.allow_build_commands.copy(),
            source_type: self.source_type.copy(),
            source_uri: self.source_uri.copy(),
            git_ref: self.git_ref.copy(),
        }
    }
}

impl Clone for Package {
    fn clone(&self) -> (r: Self)
        ensures
            r@ == self@,
    {
        self.copy()
    }
}

} // verus!
