// Planning the build of the packages: paths, symlinks, build commands, and
// the order of it all.
use crate::numng_error::{NumngError, NumngErrorView};
use crate::package::{package_path, ref_or_main, Package, PackageId, PackageView};
use crate::package_collection::PackageCollection;
use crate::plain::Plain;
use crate::schedule::{
    group_equal, is_grouping, is_layer_assignment, layer_graph, layers_list, rest_lists, Layering,
};
use crate::sources::git_src::{
    repository_directory, repository_path, worktree_directory, worktree_path,
};
use crate::text::{
    chars_of, find_char, first_index_of, lemma_deep_view_push, owned, slice_chars, str_equal,
};
use crate::util::{join_path, path_join, Command, CommandView};
use vstd::prelude::*;

verus! {

/// A symlink to make: at `link`, pointing to `target`.
#[derive(Debug, PartialEq, Eq)]
pub struct Link {
    pub target: String,
    pub link: String,
}

/// What a `Link` holds, as mathematical values.
pub struct LinkView {
    pub target: Seq<char>,
    pub link: Seq<char>,
}

impl DeepView for Link {
    type V = LinkView;

    open spec fn deep_view(&self) -> LinkView {
        LinkView { target: self.target@, link: self.link@ }
    }
}

/// What is to be done to build one package.
#[derive(Debug, PartialEq, Eq)]
pub struct PackageBuild {
    pub package_id: PackageId,
    /// Where the package's repository is fetched from.
    pub source_uri: String,
    /// The ref of the repository that the package is at.
    pub git_ref: String,
    /// The directory of the repository in the store.
    pub repository: String,
    /// The directory of the ref's work tree.
    pub worktree: String,
    /// The package's root.
    pub path: String,
    /// The symlinks to make, in this order, once the work tree is there.
    pub links: Vec<Link>,
    /// The command to run in the end, if any.
    pub command: Option<Command>,
}

/// What a `PackageBuild` holds, as mathematical values.
pub struct PackageBuildView {
    pub package_id: PackageId,
    pub source_uri: Seq<char>,
    pub git_ref: Seq<char>,
    pub repository: Seq<char>,
    pub worktree: Seq<char>,
    pub path: Seq<char>,
    pub links: Seq<LinkView>,
    pub command: Option<CommandView>,
}

impl DeepView for PackageBuild {
    type V = PackageBuildView;

    open spec fn deep_view(&self) -> PackageBuildView {
        PackageBuildView {
            package_id: self.package_id,
            source_uri: self.source_uri@,
            git_ref: self.git_ref@,
            repository: self.repository@,
            worktree: self.worktree@,
            path: self.path@,
            links: self.links.deep_view(),
            command: self.command.deep_view(),
        }
    }
}

/// A step of getting the install prefix ready.
#[derive(Debug, PartialEq, Eq)]
pub enum DestinationStep {
    /// Remove the directory with all that is in it.
    RemoveDirAll(String),
    /// Make the directory, and those above it that are missing.
    CreateDirAll(String),
}

/// What a `DestinationStep` holds, as mathematical values.
pub enum DestinationStepView {
    RemoveDirAll(Seq<char>),
    CreateDirAll(Seq<char>),
}

impl DeepView for DestinationStep {
    type V = DestinationStepView;

    open spec fn deep_view(&self) -> DestinationStepView {
        match *self {
            DestinationStep::RemoveDirAll(path) => DestinationStepView::RemoveDirAll(path@),
            DestinationStep::CreateDirAll(path) => DestinationStepView::CreateDirAll(path@),
        }
    }
}

/// One package to build, and whether its work tree is to be fetched first.
#[derive(Debug, PartialEq, Eq)]
pub struct Job {
    pub build: PackageBuild,
    /// Whether the work tree is to be brought in or up to date before the
    /// build; false where an earlier job has done so already.
    pub fetch: bool,
}

/// The packages of one layer. Jobs of different groups may run at the same
/// time; the jobs of one group run one after the other, in the group's
/// order.
#[derive(Debug, PartialEq, Eq)]
pub struct LayerPlan {
    pub jobs: Vec<Job>,
    /// The groups, as places in `jobs`.
    pub groups: Vec<Vec<usize>>,
}

/// All that is to be done to set up an environment.
#[derive(Debug, PartialEq, Eq)]
pub struct EnvironmentPlan {
    /// How the install prefix is made ready, before anything else.
    pub prepare: Vec<DestinationStep>,
    /// The layers of the packages by their handles.
    pub order: Layering,
    /// What is done in each layer; the layers are worked off one after the
    /// other.
    pub layers: Vec<LayerPlan>,
}

/// Whether a package may run its build command: never where the caller or
/// the package says no; otherwise where one of the two says yes. Where
/// neither says anything, it may not.
pub open spec fn build_allowed(caller: Option<bool>, package: Option<bool>) -> bool {
    caller != Some(false) && package != Some(false) && (caller == Some(true) || package == Some(
        true,
    ))
}

/// The symlink that an entry of `linkin` asks for.
///
/// The entry's key is `A:B`, cut at its first colon: at `A` inside the
/// package that is built, a link to `B` inside the package that is linked
/// in. A key without a colon is a place inside the package that is built,
/// and the link goes to the root of the package that is linked in.
pub open spec fn link_for(
    package_root: Seq<char>,
    linked_root: Seq<char>,
    key: Seq<char>,
) -> LinkView {
    match first_index_of(key, ':', 0) {
        Some(i) => LinkView {
            target: path_join(linked_root, key.skip(i + 1)),
            link: path_join(package_root, key.take(i)),
        },
        None => LinkView { target: linked_root, link: path_join(package_root, key) },
    }
}

/// Whether every package that `p` links in is among the first `n` packages.
pub open spec fn links_below(p: PackageView, n: int) -> bool {
    p.linkin is Some ==> forall|i: int|
        0 <= i < p.linkin->0.len() ==> (#[trigger] p.linkin->0[i]).1 < n
}

/// The symlinks that the first `n` entries of `linkin` ask for; the first
/// package linked in that has no root is an error.
pub open spec fn links_for(
    c: Seq<PackageView>,
    base_dir: Seq<char>,
    package_root: Seq<char>,
    linkin: Seq<(Seq<char>, PackageId)>,
    n: nat,
) -> Result<Seq<LinkView>, NumngErrorView>
    decreases n,
{
    if n == 0 || n > linkin.len() {
        Ok(Seq::empty())
    } else {
        match links_for(c, base_dir, package_root, linkin, (n - 1) as nat) {
            Err(e) => Err(e),
            Ok(links) => match package_path(c[linkin[n - 1].1 as int], base_dir) {
                Err(e) => Err(e),
                Ok(linked_root) => Ok(
                    links.push(link_for(package_root, linked_root, linkin[n - 1].0)),
                ),
            },
        }
    }
}

/// The child process that a build command stands for, run in the package's
/// root: `cargo build --release` is run by `cargo` itself, quietly; any
/// other command is handed to `nu`.
pub open spec fn build_process(command: Seq<char>, package_root: Seq<char>) -> CommandView {
    if command == "cargo build --release"@ {
        CommandView {
            program: "cargo"@,
            args: seq!["build"@, "--release"@, "--quiet"@],
            current_dir: package_root,
        }
    } else {
        CommandView {
            program: "nu"@,
            args: seq![
                "--log-level"@,
                "trace"@,
                "--no-history"@,
                "--no-config-file"@,
                "--commands"@,
                command,
            ],
            current_dir: package_root,
        }
    }
}

/// What is to be done to build the package `id` of `c`.
///
/// A package without `source_uri` cannot be built, nor one that links in
/// such a package. A package with a build command that may not run it (see
/// `build_allowed`) is refused.
pub open spec fn plan_for(
    c: Seq<PackageView>,
    id: PackageId,
    base_dir: Seq<char>,
    allow: Option<bool>,
) -> Result<PackageBuildView, NumngErrorView> {
    let p = c[id as int];
    match package_path(p, base_dir) {
        Err(e) => Err(e),
        Ok(root) => {
            let linkin = match p.linkin {
                Some(l) => l,
                None => Seq::empty(),
            };
            match links_for(c, base_dir, root, linkin, linkin.len()) {
                Err(e) => Err(e),
                Ok(links) => if p.build_command is Some && !build_allowed(
                    allow,
                    p.allow_build_commands,
                ) {
                    Err(NumngErrorView::BuildCommandBlocked(p))
                } else {
                    Ok(
                        PackageBuildView {
                            package_id: id,
                            source_uri: p.source_uri->0,
                            git_ref: ref_or_main(p),
                            repository: repository_path(base_dir, p.source_uri->0),
                            worktree: worktree_path(base_dir, p.source_uri->0, ref_or_main(p)),
                            path: root,
                            links,
                            command: match p.build_command {
                                Some(command) => Some(build_process(command, root)),
                                None => None,
                            },
                        },
                    )
                },
            }
        },
    }
}

/// The packages that a package waits for: those it depends on, then those
/// it links in.
pub open spec fn dependency_list(p: PackageView) -> Seq<PackageId> {
    (match p.depends {
        Some(d) => d,
        None => Seq::empty(),
    }) + (match p.linkin {
        Some(l) => Seq::new(l.len(), |i: int| l[i].1),
        None => Seq::empty(),
    })
}

/// For each package of `c`, the packages that it waits for.
pub open spec fn dependency_graph(c: Seq<PackageView>) -> Seq<Seq<PackageId>> {
    Seq::new(c.len(), |i: int| dependency_list(c[i]))
}

/// How the install prefix is made ready: a prefix that exists is removed
/// first, if the caller wants that, and is an error if not.
pub open spec fn destination_steps(home: Seq<char>, exists: bool, delete_existing: bool) -> Result<
    Seq<DestinationStepView>,
    NumngErrorView,
> {
    if exists && !delete_existing {
        Err(NumngErrorView::NupmHomeAlreadyExists(home))
    } else if exists {
        Ok(seq![DestinationStepView::RemoveDirAll(home), DestinationStepView::CreateDirAll(home)])
    } else {
        Ok(seq![DestinationStepView::CreateDirAll(home)])
    }
}

/// The directories of the repositories of `jobs`, in order.
pub open spec fn repository_keys(jobs: Seq<Job>) -> Seq<Seq<char>> {
    Seq::new(jobs.len(), |i: int| jobs[i].build.repository@)
}

/// The work trees of `jobs`, in order.
pub open spec fn worktrees(jobs: Seq<Job>) -> Seq<Seq<char>> {
    Seq::new(jobs.len(), |i: int| jobs[i].build.worktree@)
}

/// Whether one of the first `i` of `jobs` is in the work tree `w`.
pub open spec fn used_before(jobs: Seq<Job>, i: int, w: Seq<char>) -> bool {
    worktrees(jobs).take(i).contains(w)
}

/// Whether a job of one of the first `k` of `layers` is in the work tree
/// `w`.
pub open spec fn used_in_layers(layers: Seq<LayerPlan>, k: int, w: Seq<char>) -> bool {
    exists|h: int| 0 <= h < k && h < layers.len()
        && worktrees((#[trigger] layers[h]).jobs@).contains(w)
}

/// Whether `jobs` are the builds of the packages `ids`, one for one.
pub open spec fn jobs_build(
    c: Seq<PackageView>,
    ids: Seq<PackageId>,
    jobs: Seq<Job>,
    base_dir: Seq<char>,
    allow: Option<bool>,
) -> bool {
    &&& jobs.len() == ids.len()
    &&& forall|i: int|
        0 <= i < ids.len() ==> plan_for(c, ids[i], base_dir, allow) == Ok::<
            PackageBuildView,
            NumngErrorView,
        >((#[trigger] jobs[i]).build.deep_view())
}

/// Whether `e` is the error of the first of the first `n` packages `ids`
/// that cannot be built.
pub open spec fn first_build_error(
    c: Seq<PackageView>,
    ids: Seq<PackageId>,
    n: int,
    base_dir: Seq<char>,
    allow: Option<bool>,
    e: NumngErrorView,
) -> bool {
    exists|i: int|
        0 <= i < n && i < ids.len() && #[trigger] plan_for(c, ids[i], base_dir, allow) == Err::<
            PackageBuildView,
            NumngErrorView,
        >(e) && forall|j: int| 0 <= j < i
            ==> (#[trigger] plan_for(c, ids[j], base_dir, allow)) is Ok
}

/// Whether the first `n` of `layers` hold the builds of the first `n` layers
/// of `order`.
pub open spec fn layers_build(
    c: Seq<PackageView>,
    order: Seq<Seq<PackageId>>,
    layers: Seq<LayerPlan>,
    n: int,
    base_dir: Seq<char>,
    allow: Option<bool>,
) -> bool {
    forall|k: int|
        0 <= k < n ==> jobs_build(c, order[k], (#[trigger] layers[k]).jobs@, base_dir, allow)
}

/// Whether the jobs of each layer are sorted into groups by the directories
/// of their repositories: jobs of the same repository, and so jobs in the
/// same work tree, are in the same group, and never run at the same time.
pub open spec fn grouped_by_repository(layers: Seq<LayerPlan>) -> bool {
    forall|k: int|
        0 <= k < layers.len() ==> is_grouping(
            repository_keys((#[trigger] layers[k]).jobs@),
            layers[k].groups.deep_view(),
        )
}

/// Whether the work trees are fetched once: a job fetches its work tree if
/// and only if no job of a layer before, and no job before it in its own
/// layer, is in the same work tree.
pub open spec fn fetched_once(layers: Seq<LayerPlan>) -> bool {
    forall|k: int, i: int|
        0 <= k < layers.len() && 0 <= i < layers[k].jobs@.len() ==> (
        #[trigger] layers[k].jobs@[i]).fetch == !(used_in_layers(
            layers,
            k,
            layers[k].jobs@[i].build.worktree@,
        ) || used_before(layers[k].jobs@, i, layers[k].jobs@[i].build.worktree@))
}

/// The packages under the handles `ids`, in order.
pub open spec fn packages_at(c: Seq<PackageView>, ids: Seq<PackageId>) -> Seq<PackageView> {
    Seq::new(ids.len(), |i: int| c[ids[i] as int])
}

/// Whether `e` says why the packages of `c` cannot be built in the layers
/// `order`, with `rest` left over: because some are left over, or else
/// because of the first package, layer by layer, that cannot be built.
pub open spec fn is_build_failure(
    c: Seq<PackageView>,
    order: Seq<Seq<PackageId>>,
    rest: Seq<PackageId>,
    base_dir: Seq<char>,
    allow: Option<bool>,
    e: NumngErrorView,
) -> bool {
    if rest.len() > 0 {
        e == NumngErrorView::CircularDependencies(packages_at(c, rest))
    } else {
        exists|k: int|
            0 <= k < order.len() && #[trigger] first_build_error(
                c,
                order[k],
                order[k].len() as int,
                base_dir,
                allow,
                e,
            ) && forall|h: int, i: int|
                0 <= h < k && 0 <= i < order[h].len() ==> (#[trigger] plan_for(
                    c,
                    order[h][i],
                    base_dir,
                    allow,
                )) is Ok
    }
}

/// A package in which build commands are forbidden, and which has one, is
/// never built, whoever asks: where the package and what it links in have
/// their places in the store, it is refused because of its build command.
pub proof fn lemma_forbidden_build_is_refused(
    c: Seq<PackageView>,
    id: PackageId,
    base_dir: Seq<char>,
    allow: Option<bool>,
)
    requires
        c[id as int].allow_build_commands == Some(false),
        c[id as int].build_command is Some,
    ensures
        plan_for(c, id, base_dir, allow) is Err,
        ({
            let p = c[id as int];
            let linkin = match p.linkin {
                Some(l) => l,
                None => Seq::empty(),
            };
            package_path(p, base_dir) is Ok && links_for(
                c,
                base_dir,
                package_path(p, base_dir)->Ok_0,
                linkin,
                linkin.len(),
            ) is Ok ==> plan_for(c, id, base_dir, allow) == Err::<PackageBuildView, NumngErrorView>(
                NumngErrorView::BuildCommandBlocked(p),
            )
        }),
{
}

/// A package that has a layer links in packages of the collection only.
proof fn lemma_layered_links_below(c: Seq<PackageView>, rank: Seq<Option<usize>>, id: int)
    requires
        is_layer_assignment(dependency_graph(c), rank),
        0 <= id < c.len(),
        rank[id] is Some,
    ensures
        links_below(c[id], c.len() as int),
{
    let graph = dependency_graph(c);
    let p = c[id];
    if let Some(linkin) = p.linkin {
        let depends = match p.depends {
            Some(d) => d,
            None => Seq::empty(),
        };
        assert forall|i: int| 0 <= i < linkin.len() implies (#[trigger] linkin[i]).1 < c.len() by {
            crate::schedule::lemma_layer_behind_dependencies(graph, rank, id, depends.len() + i);
        }
    }
}

/// Two jobs of one layer that are fetched from the same address are in the
/// same group, so that they never run at the same time: not in the same
/// work tree, and not with the same bare clone.
pub proof fn lemma_same_source_same_group(
    c: Seq<PackageView>,
    ids: Seq<PackageId>,
    layer: LayerPlan,
    base_dir: Seq<char>,
    allow: Option<bool>,
    g: int,
    a: int,
    h: int,
    b: int,
)
    requires
        jobs_build(c, ids, layer.jobs@, base_dir, allow),
        is_grouping(repository_keys(layer.jobs@), layer.groups.deep_view()),
        0 <= g < layer.groups.deep_view().len(),
        0 <= a < layer.groups.deep_view()[g].len(),
        0 <= h < layer.groups.deep_view().len(),
        0 <= b < layer.groups.deep_view()[h].len(),
        layer.jobs@[layer.groups.deep_view()[g][a] as int].build.source_uri@
            == layer.jobs@[layer.groups.deep_view()[h][b] as int].build.source_uri@,
    ensures
        g == h,
{
    let groups = layer.groups.deep_view();
    let i = groups[g][a] as int;
    let j = groups[h][b] as int;
    let first = layer.jobs@[i];
}

/// What a list holds once one more item is behind the others.
pub proof fn lemma_push_contains<T>(s: Seq<T>, x: T)
    ensures
        forall|w: T| #[trigger] s.push(x).contains(w) <==> s.contains(w) || w == x,
{
    assert forall|w: T| #[trigger] s.push(x).contains(w) <==> s.contains(w) || w == x by {
        if s.push(x).contains(w) {
            let z = choose|z: int| 0 <= z < s.push(x).len() && s.push(x)[z] == w;
        }
        if s.contains(w) {
            let z = choose|z: int| 0 <= z < s.len() && s[z] == w;
            assert(s.push(x)[z] == w);
        }
        if w == x {
            assert(s.push(x)[s.len() as int] == w);
        }
    }
}

/// An error among the first entries is the error of all entries.
proof fn lemma_links_for_error(
    c: Seq<PackageView>,
    base_dir: Seq<char>,
    package_root: Seq<char>,
    linkin: Seq<(Seq<char>, PackageId)>,
    n: nat,
    m: nat,
)
    requires
        n <= m <= linkin.len(),
        links_for(c, base_dir, package_root, linkin, n) is Err,
    ensures
        links_for(c, base_dir, package_root, linkin, m) == links_for(
            c,
            base_dir,
            package_root,
            linkin,
            n,
        ),
    decreases m,
{
    if n < m {
        lemma_links_for_error(c, base_dir, package_root, linkin, n, (m - 1) as nat);
    }
}

/// What the layers before layer `k` use depends on those layers alone.
proof fn lemma_used_in_layers_prefix(a: Seq<LayerPlan>, b: Seq<LayerPlan>, k: int, w: Seq<char>)
    requires
        k <= a.len(),
        k <= b.len(),
        forall|h: int| 0 <= h < k ==> a[h] == b[h],
    ensures
        used_in_layers(a, k, w) == used_in_layers(b, k, w),
{
    if used_in_layers(a, k, w) {
        let h = choose|h: int| 0 <= h < k && h < a.len()
            && worktrees((#[trigger] a[h]).jobs@).contains(w);
    }
    if used_in_layers(b, k, w) {
        let h = choose|h: int| 0 <= h < k && h < b.len()
            && worktrees((#[trigger] b[h]).jobs@).contains(w);
    }
}

/// What the layers up to layer `k` use is what the layers before it use,
/// and what layer `k` uses.
proof fn lemma_used_in_layers_step(layers: Seq<LayerPlan>, k: int, w: Seq<char>)
    requires
        0 <= k < layers.len(),
    ensures
        used_in_layers(layers, k + 1, w) == (used_in_layers(layers, k, w) || worktrees(
            layers[k].jobs@,
        ).contains(w)),
{
    if used_in_layers(layers, k + 1, w) {
        let h = choose|h: int|
            0 <= h < k + 1 && h < layers.len()
                && worktrees((#[trigger] layers[h]).jobs@).contains(w);
    }
    if used_in_layers(layers, k, w) {
        let h = choose|h: int|
            0 <= h < k && h < layers.len() && worktrees((#[trigger] layers[h]).jobs@).contains(w);
    }
}

/// Whether a package may run its build command.
pub fn may_build(caller: Option<bool>, package: Option<bool>) -> (r: bool)
    ensures
        r == build_allowed(caller, package),
{
    let refused = match caller {
        Some(false) => true,
        _ => false,
    } || match package {
        Some(false) => true,
        _ => false,
    };
    let wanted = match caller {
        Some(true) => true,
        _ => false,
    } || match package {
        Some(true) => true,
        _ => false,
    };
    !refused && wanted
}

/// The symlink that an entry of `linkin` asks for.
pub fn make_link(package_root: &str, linked_root: &str, key: &str) -> (r: Link)
    ensures
        r.deep_view() == link_for(package_root@, linked_root@, key@),
{
    let text = chars_of(key);
    match find_char(&text, ':') {
        Some(i) => {
            let local = slice_chars(&text, 0, i);
            let inner = slice_chars(&text, i + 1, text.len());
            Link {
                target: join_path(linked_root, inner.as_str()),
                link: join_path(package_root, local.as_str()),
            }
        },
        None => Link { target: owned(linked_root), link: join_path(package_root, key) },
    }
}

/// One more argument behind the others.
fn arg(args: &mut Vec<String>, s: &str)
    ensures
        final(args).deep_view() == old(args).deep_view().push(s@),
{
    let text = owned(s);
    args.push(text);
}

/// The child process that a build command stands for.
pub fn build_command_process(command: &str, package_root: &str) -> (r: Command)
    ensures
        r@ == build_process(command@, package_root@),
{
    let mut args: Vec<String> = Vec::new();
    if str_equal(command, "cargo build --release") {
        arg(&mut args, "build");
        arg(&mut args, "--release");
        arg(&mut args, "--quiet");
        assert(args.deep_view() =~= seq!["build"@, "--release"@, "--quiet"@]);
        Command { program: owned("cargo"), args, current_dir: owned(package_root) }
    } else {
        arg(&mut args, "--log-level");
        arg(&mut args, "trace");
        arg(&mut args, "--no-history");
        arg(&mut args, "--no-config-file");
        arg(&mut args, "--commands");
        arg(&mut args, command);
        assert(args.deep_view() =~= seq![
            "--log-level"@,
            "trace"@,
            "--no-history"@,
            "--no-config-file"@,
            "--commands"@,
            command@,
        ]);
        Command { program: owned("nu"), args, current_dir: owned(package_root) }
    }
}

/// How the install prefix is made ready.
pub fn prepare_destination(nupm_home: &str, exists: bool, delete_existing: bool) -> (r: Result<
    Vec<DestinationStep>,
    NumngError,
>)
    ensures
        match r {
            Ok(steps) => destination_steps(nupm_home@, exists, delete_existing) == Ok::<
                Seq<DestinationStepView>,
                NumngErrorView,
            >(steps.deep_view()),
            Err(e) => destination_steps(nupm_home@, exists, delete_existing) == Err::<
                Seq<DestinationStepView>,
                NumngErrorView,
            >(e@),
        },
{
    let mut steps: Vec<DestinationStep> = Vec::new();
    if exists {
        if !delete_existing {
            return Err(NumngError::NupmHomeAlreadyExists(owned(nupm_home)));
        }
        steps.push(DestinationStep::RemoveDirAll(owned(nupm_home)));
    }
    steps.push(DestinationStep::CreateDirAll(owned(nupm_home)));
    proof {
        if exists {
            assert(steps.deep_view() =~= seq![
                DestinationStepView::RemoveDirAll(nupm_home@),
                DestinationStepView::CreateDirAll(nupm_home@),
            ]);
        } else {
            assert(steps.deep_view() =~= seq![DestinationStepView::CreateDirAll(nupm_home@)]);
        }
    }
    Ok(steps)
}

/// Whether `text` is among `list`.
fn is_among(list: &Vec<String>, text: &String) -> (r: bool)
    ensures
        r == list.deep_view().contains(text@),
{
    let ghost shown = list.deep_view();
    let mut i: usize = 0;
    while i < list.len()
        invariant
            i <= list.len(),
            shown == list.deep_view(),
            forall|j: int| 0 <= j < i ==> #[trigger] shown[j] != text@,
        decreases list.len() - i,
    {
        assert(shown[i as int] == list@[i as int]@);
        if list[i] == *text {
            return true;
        }
        i += 1;
    }
    false
}

impl PackageCollection {
    /// Says what is to be done to build one package: where its files are,
    /// which symlinks are made into it, and which command is run in it.
    /// Nothing is done yet.
    pub fn build_package(
        &self,
        package_id: &PackageId,
        base_dir: &str,
        allow_build_commands: &Option<bool>,
    ) -> (r: Result<PackageBuild, NumngError>)
        requires
            *package_id < self@.len(),
            links_below(self@[*package_id as int], self@.len() as int),
        ensures
            match r {
                Ok(build) => plan_for(self@, *package_id, base_dir@, *allow_build_commands) == Ok::<
                    PackageBuildView,
                    NumngErrorView,
                >(build.deep_view()),
                Err(e) => plan_for(self@, *package_id, base_dir@, *allow_build_commands) == Err::<
                    PackageBuildView,
                    NumngErrorView,
                >(e@),
            },
    {
        let package = self.package(*package_id);
        let source_uri = match &package.source_uri {
            Some(uri) => uri.clone(),
            None => {
                return Err(package.missing("source_uri"));
            },
        };
        let root = match package.get_fs_basepath(base_dir) {
            Ok(root) => root,
            Err(e) => {
                return Err(e);
            },
        };
        let mut links: Vec<Link> = Vec::new();
        let ghost c = self@;
        let ghost entries = match package@.linkin {
            Some(l) => l,
            None => Seq::empty(),
        };
        assert(links.deep_view() =~= Seq::<LinkView>::empty());
        if let Some(linkin) = &package.linkin {
            let mut i: usize = 0;
            while i < linkin.len()
                invariant
                    i <= linkin.len(),
                    c == self@,
                    *package_id < c.len(),
                    package@ == c[*package_id as int],
                    package@.linkin == Some(entries),
                    package_path(package@, base_dir@) == Ok::<Seq<char>, NumngErrorView>(root@),
                    entries == linkin.deep_view(),
                    entries.len() == linkin.len(),
                    forall|j: int| 0 <= j < entries.len() ==> (#[trigger] entries[j]).1 < c.len(),
                    links_for(c, base_dir@, root@, entries, i as nat) == Ok::<
                        Seq<LinkView>,
                        NumngErrorView,
                    >(links.deep_view()),
                decreases linkin.len() - i,
            {
                assert(entries[i as int] == (linkin@[i as int].0@, linkin@[i as int].1));
                match self.package(linkin[i].1).get_fs_basepath(base_dir) {
                    Ok(linked_root) => {
                        let ghost before = links;
                        let link = make_link(
                            root.as_str(),
                            linked_root.as_str(),
                            linkin[i].0.as_str(),
                        );
                        links.push(link);
                        proof {
                            lemma_deep_view_push(before, links, link);
                        }
                    },
                    Err(e) => {
                        proof {
                            lemma_links_for_error(
                                c,
                                base_dir@,
                                root@,
                                entries,
                                (i + 1) as nat,
                                entries.len(),
                            );
                        }
                        return Err(e);
                    },
                }
                i += 1;
            }
        }
        let command = match &package.build_command {
            Some(command) => {
                if !may_build(*allow_build_commands, package.allow_build_commands) {
                    return Err(NumngError::BuildCommandBlocked(package.copy()));
                }
                Some(build_command_process(command.as_str(), root.as_str()))
            },
            None => None,
        };
        let git_ref = package.git_ref_or_main();
        Ok(
            PackageBuild {
                package_id: *package_id,
                repository: repository_directory(source_uri.as_str(), base_dir),
                worktree: worktree_directory(source_uri.as_str(), git_ref.as_str(), base_dir),
                source_uri,
                git_ref,
                path: root,
                links,
                command,
            },
        )
    }

    /// For each package, the packages that it waits for: those it depends
    /// on, then those it links in.
    pub fn dependency_graph(&self) -> (r: Vec<Vec<PackageId>>)
        ensures
            r.deep_view() == dependency_graph(self@),
    {
        let mut graph: Vec<Vec<PackageId>> = Vec::new();
        let n = self.len();
        let mut i: usize = 0;
        while i < n
            invariant
                i <= n,
                n == self@.len(),
                graph.len() == i,
                forall|j: int| 0 <= j < i ==> (#[trigger] graph@[j])@ == dependency_list(self@[j]),
            decreases n - i,
        {
            let package = self.package(i);
            let mut list: Vec<PackageId> = match &package.depends {
                Some(d) => d.copy(),
                None => Vec::new(),
            };
            let ghost first = list@;
            if let Some(linkin) = &package.linkin {
                let ghost entries = linkin.deep_view();
                let mut j: usize = 0;
                while j < linkin.len()
                    invariant
                        j <= linkin.len(),
                        entries == linkin.deep_view(),
                        list@ == first + Seq::new(j as nat, |q: int| entries[q].1),
                    decreases linkin.len() - j,
                {
                    list.push(linkin[j].1);
                    j += 1;
                }
            }
            graph.push(list);
            i += 1;
        }
        assert(graph.deep_view() =~= dependency_graph(self@)) by {
            assert forall|j: int| 0 <= j < graph.len() implies graph.deep_view()[j]
                == dependency_graph(self@)[j] by {}
        }
        graph
    }

    /// The packages under the handles `ids`, in order.
    fn packages_of(&self, ids: &Vec<PackageId>) -> (r: Vec<Package>)
        requires
            forall|i: int| 0 <= i < ids@.len() ==> (#[trigger] ids@[i]) < self@.len(),
        ensures
            r.deep_view() == Seq::new(ids@.len(), |i: int| self@[ids@[i] as int]),
    {
        let mut packages: Vec<Package> = Vec::new();
        let mut i: usize = 0;
        while i < ids.len()
            invariant
                i <= ids.len(),
                packages.len() == i,
                forall|j: int| 0 <= j < ids@.len() ==> (#[trigger] ids@[j]) < self@.len(),
                forall|j: int| 0 <= j < i ==> (#[trigger] packages@[j])@ == self@[ids@[j] as int],
            decreases ids.len() - i,
        {
            packages.push(self.package(ids[i]).copy());
            i += 1;
        }
        packages
    }

    /// Plans the builds of one layer. `seen` holds the work trees of the
    /// layers before, and takes up those of this layer.
    fn plan_layer(
        &self,
        ids: &Vec<PackageId>,
        base_dir: &str,
        allow_build_commands: &Option<bool>,
        seen: &mut Vec<String>,
    ) -> (r: Result<LayerPlan, NumngError>)
        requires
            forall|i: int|
                0 <= i < ids@.len() ==> (#[trigger] ids@[i]) < self@.len() && links_below(
                    self@[ids@[i] as int],
                    self@.len() as int,
                ),
        ensures
            match r {
                Ok(layer) => {
                    &&& jobs_build(self@, ids@, layer.jobs@, base_dir@, *allow_build_commands)
                    &&& is_grouping(repository_keys(layer.jobs@), layer.groups.deep_view())
                    &&& forall|i: int|
                        0 <= i < layer.jobs@.len() ==> (#[trigger] layer.jobs@[i]).fetch == !(old(
                            seen,
                        ).deep_view().contains(layer.jobs@[i].build.worktree@) || used_before(
                            layer.jobs@,
                            i,
                            layer.jobs@[i].build.worktree@,
                        ))
                    &&& forall|w: Seq<char>|
                        final(seen).deep_view().contains(w) <==> old(seen).deep_view().contains(w)
                            || worktrees(layer.jobs@).contains(w)
                },
                Err(e) => first_build_error(
                    self@,
                    ids@,
                    ids@.len() as int,
                    base_dir@,
                    *allow_build_commands,
                    e@,
                ),
            },
    {
        let mut jobs: Vec<Job> = Vec::new();
        let mut keys: Vec<String> = Vec::new();
        let ghost start = seen.deep_view();
        let ghost mut trees: Seq<Seq<char>> = Seq::empty();
        let mut i: usize = 0;
        while i < ids.len()
            invariant
                i <= ids.len(),
                start == old(seen).deep_view(),
                forall|j: int|
                    0 <= j < ids@.len() ==> (#[trigger] ids@[j]) < self@.len() && links_below(
                        self@[ids@[j] as int],
                        self@.len() as int,
                    ),
                jobs.len() == i,
                keys.deep_view() == repository_keys(jobs@),
                trees == worktrees(jobs@),
                forall|j: int|
                    0 <= j < i ==> plan_for(self@, ids@[j], base_dir@, *allow_build_commands)
                        == Ok::<
                        PackageBuildView,
                        NumngErrorView,
                    >((#[trigger] jobs@[j]).build.deep_view()),
                forall|j: int|
                    0 <= j < i ==> (#[trigger] jobs@[j]).fetch == !(start.contains(trees[j])
                        || trees.take(j).contains(trees[j])),
                forall|w: Seq<char>|
                    seen.deep_view().contains(w) <==> start.contains(w) || trees.contains(w),
            decreases ids.len() - i,
        {
            let build = match self.build_package(&ids[i], base_dir, allow_build_commands) {
                Ok(build) => build,
                Err(e) => {
                    assert forall|j: int| 0 <= j < i implies (#[trigger] plan_for(
                        self@,
                        ids@[j],
                        base_dir@,
                        *allow_build_commands,
                    )) is Ok by {
                        let job = jobs@[j];
                    }
                    return Err(e);
                },
            };
            let fetch = !is_among(seen, &build.worktree);
            let ghost seen_before = seen.deep_view();
            let ghost trees_before = trees;
            let ghost w_new = build.worktree@;
            if fetch {
                let ghost seen_vec = *seen;
                let tree = build.worktree.clone();
                seen.push(tree);
                proof {
                    lemma_deep_view_push(seen_vec, *seen, tree);
                    lemma_push_contains(seen_before, w_new);
                }
            }
            let ghost keys_before = keys;
            let key = build.repository.clone();
            keys.push(key);
            let job = Job { build, fetch };
            jobs.push(job);
            proof {
                lemma_deep_view_push(keys_before, keys, key);
                trees = trees_before.push(w_new);
                lemma_push_contains(trees_before, w_new);
                assert(trees_before.take(i as int) =~= trees_before);
                assert forall|j: int| 0 <= j < i + 1 implies (#[trigger] jobs@[j]).fetch == !(
                start.contains(trees[j]) || trees.take(j).contains(trees[j])) by {
                    assert(trees.take(j) =~= trees_before.take(j));
                }
            }
            i += 1;
        }
        let groups = group_equal(&keys);
        Ok(LayerPlan { jobs, groups })
    }

    /// Plans the setting up of the environment below the install prefix
    /// `nupm_home`: how the prefix is made ready, in which layers the
    /// packages are built, and what is done for each package. Nothing is
    /// done yet.
    ///
    /// `nupm_home_exists` says whether the install prefix exists. A package
    /// comes into the first layer that lies behind the layers of all the
    /// packages that it depends on or links in. Packages that wait for each
    /// other in a circle, those that wait for a package that is not in the
    /// collection, and those that wait for any of these cannot be built.
    pub fn build_environment(
        &self,
        base_dir: &str,
        nupm_home: &str,
        nupm_home_exists: bool,
        delete_existing_nupm_home: bool,
        allow_build_commands: Option<bool>,
    ) -> (r: Result<EnvironmentPlan, NumngError>)
        ensures
            match r {
                Ok(plan) => {
                    &&& destination_steps(nupm_home@, nupm_home_exists, delete_existing_nupm_home)
                        == Ok::<Seq<DestinationStepView>, NumngErrorView>(plan.prepare.deep_view())
                    &&& is_layer_assignment(dependency_graph(self@), plan.order.layer_of@)
                    &&& layers_list(plan.order.layers.deep_view(), plan.order.layer_of@)
                    &&& rest_lists(plan.order.rest@, plan.order.layer_of@)
                    &&& plan.order.rest@.len() == 0
                    &&& forall|p: int|
                        0 <= p < self@.len() ==> (#[trigger] plan.order.layer_of@[p]) is Some
                    &&& plan.layers@.len() == plan.order.layers@.len()
                    &&& layers_build(
                        self@,
                        plan.order.layers.deep_view(),
                        plan.layers@,
                        plan.layers@.len() as int,
                        base_dir@,
                        allow_build_commands,
                    )
                    &&& grouped_by_repository(plan.layers@)
                    &&& fetched_once(plan.layers@)
                },
                Err(e) => if nupm_home_exists && !delete_existing_nupm_home {
                    e@ == NumngErrorView::NupmHomeAlreadyExists(nupm_home@)
                } else {
                    exists|rank: Seq<Option<usize>>, order: Seq<Seq<PackageId>>,
                        rest: Seq<PackageId>|
                        #![auto]
                        is_layer_assignment(dependency_graph(self@), rank)
                            && layers_list(order, rank)
                            && rest_lists(rest, rank) && is_build_failure(
                            self@,
                            order,
                            rest,
                            base_dir@,
                            allow_build_commands,
                            e@,
                        )
                },
            },
    {
        let prepare = match prepare_destination(
            nupm_home,
            nupm_home_exists,
            delete_existing_nupm_home,
        ) {
            Ok(prepare) => prepare,
            Err(e) => {
                return Err(e);
            },
        };
        let graph = self.dependency_graph();
        let order = layer_graph(&graph);
        let ghost c = self@;
        let ghost rank = order.layer_of@;
        let ghost shown = order.layers.deep_view();
        if order.rest.len() > 0 {
            let packages = self.packages_of(&order.rest);
            let e = NumngError::CircularDependencies(packages);
            return Err(e);
        }
        let mut layers: Vec<LayerPlan> = Vec::new();
        let mut seen: Vec<String> = Vec::new();
        let mut k: usize = 0;
        while k < order.layers.len()
            invariant
                k <= order.layers.len(),
                c == self@,
                rank == order.layer_of@,
                shown == order.layers.deep_view(),
                rank.len() == c.len(),
                !(nupm_home_exists && !delete_existing_nupm_home),
                is_layer_assignment(dependency_graph(c), rank),
                rest_lists(order.rest@, rank),
                layers_list(shown, rank),
                order.rest@.len() == 0,
                layers.len() == k,
                layers_build(c, shown, layers@, k as int, base_dir@, allow_build_commands),
                grouped_by_repository(layers@),
                fetched_once(layers@),
                forall|w: Seq<char>| seen.deep_view().contains(w)
                    <==> used_in_layers(layers@, k as int, w),
            decreases order.layers.len() - k,
        {
            let ids = &order.layers[k];
            assert(shown[k as int] =~= ids@);
            assert forall|i: int| 0 <= i < ids@.len() implies (#[trigger] ids@[i]) < c.len()
                && links_below(c[ids@[i] as int], c.len() as int) by {
                let id = shown[k as int][i];
                lemma_layered_links_below(c, rank, id as int);
            }
            let ghost layers_before = layers@;
            let layer = match self.plan_layer(ids, base_dir, &allow_build_commands, &mut seen) {
                Ok(layer) => layer,
                Err(e) => {
                    proof {
                        assert forall|h: int, i: int|
                            0 <= h < k && 0 <= i < shown[h].len() implies (#[trigger] plan_for(
                            c,
                            shown[h][i],
                            base_dir@,
                            allow_build_commands,
                        )) is Ok by {
                            let jobs = layers@[h].jobs@;
                            let job = jobs[i];
                        }
                    }
                    return Err(e);
                },
            };
            layers.push(layer);
            proof {
                let now = layers@;
                assert forall|h: int, i: int|
                    0 <= h < now.len() && 0 <= i < now[h].jobs@.len() implies (
                #[trigger] now[h].jobs@[i]).fetch == !(used_in_layers(
                    now,
                    h,
                    now[h].jobs@[i].build.worktree@,
                ) || used_before(now[h].jobs@, i, now[h].jobs@[i].build.worktree@)) by {
                    let w = now[h].jobs@[i].build.worktree@;
                    lemma_used_in_layers_prefix(layers_before, now, h, w);
                }
                assert forall|w: Seq<char>|
                    seen.deep_view().contains(w) <==> used_in_layers(now, k + 1, w) by {
                    lemma_used_in_layers_step(now, k as int, w);
                    lemma_used_in_layers_prefix(layers_before, now, k as int, w);
                }
            }
            k += 1;
        }
        Ok(EnvironmentPlan { prepare, order, layers })
    }
}

} // verus!
