// Packages from git repositories: where they lie in the store, and the steps
// that bring a work tree in or up to date.
use crate::numng_error::{NumngError, NumngErrorView};
use crate::text::{
    chars_of, lemma_deep_view_chars, owned, push_char, push_chars, split_chars, split_on,
};
use crate::util::{
    escape_chars, is_filesystem_safe_char, join_path, path_join, safe_text, Command, CommandView,
};
use crate::ConnectionPolicy;
use vstd::prelude::*;

verus! {

/// Where the text behind the first `://` at or behind `from` begins; 0 if
/// there is no `://` there.
pub open spec fn scheme_end(uri: Seq<char>, from: int) -> int
    decreases uri.len() - from,
{
    if from < 0 || from + 3 > uri.len() {
        0
    } else if uri[from] == ':' && uri[from + 1] == '/' && uri[from + 2] == '/' {
        from + 3
    } else {
        scheme_end(uri, from + 1)
    }
}

/// The scheme's end lies inside the address.
pub proof fn lemma_scheme_end(uri: Seq<char>, from: int)
    requires
        0 <= from,
    ensures
        0 <= scheme_end(uri, from) <= uri.len(),
    decreases uri.len() - from,
{
    if from + 3 <= uri.len() && !(uri[from] == ':' && uri[from + 1] == '/' && uri[from + 2]
        == '/') {
        lemma_scheme_end(uri, from + 1);
    }
}

/// An address without its scheme: what follows the first `://`, or the whole
/// address where it holds none.
pub open spec fn without_scheme(uri: Seq<char>) -> Seq<char> {
    uri.skip(scheme_end(uri, 0))
}

/// Whether `s` is made of dots alone; the empty text is.
pub open spec fn all_dots(s: Seq<char>) -> bool {
    forall|i: int| 0 <= i < s.len() ==> s[i] == '.'
}

/// Whether `s` can name a directory below another: it is made of safe
/// characters and not of dots alone.
pub open spec fn is_plain_name(s: Seq<char>) -> bool {
    &&& !all_dots(s)
    &&& forall|i: int| 0 <= i < s.len() ==> is_filesystem_safe_char(#[trigger] s[i])
}

/// The directory names that the first `n` of `parts` give: each part is
/// escaped, and a part made of dots alone is left out.
pub open spec fn kept_names(parts: Seq<Seq<char>>, n: nat) -> Seq<Seq<char>>
    decreases n,
{
    if n == 0 || n > parts.len() {
        Seq::empty()
    } else if all_dots(parts[n - 1]) {
        kept_names(parts, (n - 1) as nat)
    } else {
        kept_names(parts, (n - 1) as nat).push(safe_text(parts[n - 1]))
    }
}

/// The directory names under which a repository is stored: the parts of its
/// address between slashes, without the scheme.
pub open spec fn repository_names(uri: Seq<char>) -> Seq<Seq<char>> {
    let parts = split_on(without_scheme(uri), '/');
    kept_names(parts, parts.len())
}

/// The directory reached from `root` by going down through the first `n` of
/// `names`.
pub open spec fn descend(root: Seq<char>, names: Seq<Seq<char>>, n: nat) -> Seq<char>
    decreases n,
{
    if n == 0 || n > names.len() {
        root
    } else {
        descend(root, names, (n - 1) as nat).push('/') + names[n - 1]
    }
}

/// The directory that holds every git repository.
pub open spec fn store_root(base_dir: Seq<char>) -> Seq<char> {
    path_join(base_dir, "store/git"@)
}

/// The directory that holds the bare clone and the work trees of a
/// repository.
pub open spec fn repository_path(base_dir: Seq<char>, uri: Seq<char>) -> Seq<char> {
    descend(store_root(base_dir), repository_names(uri), repository_names(uri).len())
}

/// The directory of the bare clone of a repository.
pub open spec fn bare_path(base_dir: Seq<char>, uri: Seq<char>) -> Seq<char> {
    repository_path(base_dir, uri) + "/__bare__"@
}

/// The directory of the work tree of one ref of a repository.
pub open spec fn worktree_path(base_dir: Seq<char>, uri: Seq<char>, git_ref: Seq<char>) -> Seq<
    char,
> {
    repository_path(base_dir, uri).push('/') + safe_text(git_ref)
}

/// Whether `path` lies below `root`, at least one directory down, and is
/// reached from there through plain names only.
pub open spec fn strictly_under(root: Seq<char>, path: Seq<char>) -> bool {
    exists|names: Seq<Seq<char>>|
        names.len() >= 1 && (forall|i: int| 0 <= i < names.len()
            ==> is_plain_name(#[trigger] names[i]))
            && path == #[trigger] descend(root, names, names.len())
}

/// Every name that is kept is a plain name.
pub proof fn lemma_kept_names_plain(parts: Seq<Seq<char>>, n: nat)
    requires
        n <= parts.len(),
    ensures
        forall|i: int|
            0 <= i < kept_names(parts, n).len()
                ==> is_plain_name(#[trigger] kept_names(parts, n)[i]),
    decreases n,
{
    if n > 0 {
        lemma_kept_names_plain(parts, (n - 1) as nat);
        if !all_dots(parts[n - 1]) {
            let part = parts[n - 1];
            let safe = safe_text(part);
            let k = choose|k: int| 0 <= k < part.len() && part[k] != '.';
            assert(safe[k] != '.');
            let before = kept_names(parts, (n - 1) as nat);
        }
    }
}

/// Going down through more names goes on from where the first names led.
pub proof fn lemma_descend_push(root: Seq<char>, names: Seq<Seq<char>>, name: Seq<char>)
    ensures
        descend(root, names.push(name), names.len() + 1) == descend(root, names, names.len()).push(
            '/',
        ) + name,
{
    lemma_descend_prefix(root, names, names.push(name), names.len());
}

/// Going down depends on the names that are gone through only.
pub proof fn lemma_descend_prefix(
    root: Seq<char>,
    a: Seq<Seq<char>>,
    b: Seq<Seq<char>>,
    n: nat,
)
    requires
        n <= a.len(),
        n <= b.len(),
        forall|i: int| 0 <= i < n ==> a[i] == b[i],
    ensures
        descend(root, a, n) == descend(root, b, n),
    decreases n,
{
    if n > 0 {
        lemma_descend_prefix(root, a, b, (n - 1) as nat);
    }
}

/// Whatever address a repository has, with `..` in it or not, the work tree
/// of a ref lies strictly under the store's root, provided the ref's name,
/// once escaped, is not made of dots alone.
pub proof fn lemma_worktree_under_store(base_dir: Seq<char>, uri: Seq<char>, git_ref: Seq<char>)
    requires
        !all_dots(git_ref),
    ensures
        strictly_under(store_root(base_dir), worktree_path(base_dir, uri, git_ref)),
{
    let parts = split_on(without_scheme(uri), '/');
    let names = repository_names(uri);
    lemma_kept_names_plain(parts, parts.len());
    let safe = safe_text(git_ref);
    let k = choose|k: int| 0 <= k < git_ref.len() && git_ref[k] != '.';
    assert(safe[k] != '.');
    lemma_descend_push(store_root(base_dir), names, safe);
}

/// Whatever address a repository has, its directory lies strictly under the
/// store's root, provided one part of the address at least is not made of
/// dots alone.
pub proof fn lemma_repository_under_store(base_dir: Seq<char>, uri: Seq<char>)
    requires
        repository_names(uri).len() >= 1,
    ensures
        strictly_under(store_root(base_dir), repository_path(base_dir, uri)),
{
    let parts = split_on(without_scheme(uri), '/');
    lemma_kept_names_plain(parts, parts.len());
    let names = repository_names(uri);
}

/// Where the text behind the first `://` begins.
fn find_scheme_end(uri: &Vec<char>) -> (r: usize)
    ensures
        r == scheme_end(uri@, 0),
        r <= uri.len(),
{
    let mut i: usize = 0;
    proof {
        lemma_scheme_end(uri@, 0);
    }
    while uri.len() >= 3 && i <= uri.len() - 3
        invariant
            i <= uri.len(),
            scheme_end(uri@, 0) == scheme_end(uri@, i as int),
            scheme_end(uri@, 0) <= uri.len(),
        decreases uri.len() - i,
    {
        if uri[i] == ':' && uri[i + 1] == '/' && uri[i + 2] == '/' {
            return i + 3;
        }
        i += 1;
    }
    0
}

/// Whether `s` is made of dots alone.
fn is_all_dots(s: &Vec<char>) -> (r: bool)
    ensures
        r == all_dots(s@),
{
    let mut i: usize = 0;
    while i < s.len()
        invariant
            i <= s.len(),
            forall|j: int| 0 <= j < i ==> s@[j] == '.',
        decreases s.len() - i,
    {
        if s[i] != '.' {
            return false;
        }
        i += 1;
    }
    true
}

/// The directory that holds the bare clone and the work trees of the
/// repository at `source_uri`.
pub fn repository_directory(source_uri: &str, base_dir: &str) -> (r: String)
    ensures
        r@ == repository_path(base_dir@, source_uri@),
{
    let uri = chars_of(source_uri);
    let start = find_scheme_end(&uri);
    let parts = split_chars(&uri, start, '/');
    let mut path = join_path(base_dir, "store/git");
    let ghost shown = parts.deep_view();
    let ghost root = path@;
    let ghost names: Seq<Seq<char>> = Seq::empty();
    let mut i: usize = 0;
    while i < parts.len()
        invariant
            i <= parts.len(),
            shown == parts.deep_view(),
            names == kept_names(shown, i as nat),
            path@ == descend(root, names, names.len()),
        decreases parts.len() - i,
    {
        proof {
            lemma_deep_view_chars(parts@[i as int]);
        }
        if !is_all_dots(&parts[i]) {
            let name = escape_chars(&parts[i]);
            push_char(&mut path, '/');
            push_chars(&mut path, &name);
            proof {
                lemma_descend_push(root, names, name@);
                names = names.push(name@);
            }
        }
        i += 1;
    }
    path
}

/// The directory of the work tree of `git_ref` of the repository at
/// `source_uri`.
pub fn worktree_directory(source_uri: &str, git_ref: &str, base_dir: &str) -> (r: String)
    ensures
        r@ == worktree_path(base_dir@, source_uri@, git_ref@),
{
    let mut path = repository_directory(source_uri, base_dir);
    let name = escape_chars(&chars_of(git_ref));
    push_char(&mut path, '/');
    push_chars(&mut path, &name);
    path
}

/// The directory of the bare clone of the repository at `source_uri`.
pub fn bare_directory(source_uri: &str, base_dir: &str) -> (r: String)
    ensures
        r@ == bare_path(base_dir@, source_uri@),
{
    let mut path = repository_directory(source_uri, base_dir);
    path.append("/__bare__");
    path
}

/// How far the work on one work tree has come: what was asked for last.
#[derive(Debug, Clone, Copy, PartialEq, Eq, Structural)]
pub enum FetchStage {
    /// Nothing was asked for yet.
    Start,
    /// Whether the repository's directory exists.
    RepositoryProbe,
    /// To make the repository's directory.
    RepositoryCreate,
    /// Whether the bare clone exists.
    BareProbe,
    /// To clone the repository.
    Clone,
    /// Whether the work tree exists.
    WorktreeProbe,
    /// To clean the work tree.
    Clean,
    /// To fetch the ref into the work tree.
    Fetch,
    /// To reset the work tree to what was fetched.
    Reset,
    /// To fetch the ref into the bare clone.
    WorktreeFetch,
    /// To fetch the whole history into the bare clone.
    Unshallow,
    /// To add the work tree.
    WorktreeAdd,
    /// Nothing is left to do.
    Finished,
}

/// What came of the step that was asked for last.
#[derive(Debug, PartialEq, Eq)]
pub enum FetchEvent {
    /// Nothing was asked for yet.
    Begin,
    /// Whether the path exists.
    Exists(bool),
    /// The directory was made, or the command ran and reported success.
    Succeeded,
    /// The directory could not be made, or the command failed.
    Failed(NumngError),
}

/// What is to be done next for a work tree.
#[derive(Debug, PartialEq, Eq)]
pub enum FetchStep {
    /// Nothing: the work tree is at this path.
    Done(String),
    /// Find out whether this path exists.
    PathExists(String),
    /// Make this directory, and those above it that are missing.
    CreateDirAll(String),
    /// Run this command.
    Run(Command),
    /// Give up with this error.
    Failed(NumngError),
}

/// What a `FetchEvent` holds, as mathematical values.
pub enum FetchEventView {
    Begin,
    Exists(bool),
    Succeeded,
    Failed(NumngErrorView),
}

/// What a `FetchStep` holds, as mathematical values.
pub enum FetchStepView {
    Done(Seq<char>),
    PathExists(Seq<char>),
    CreateDirAll(Seq<char>),
    Run(CommandView),
    Failed(NumngErrorView),
}

impl View for FetchEvent {
    type V = FetchEventView;

    open spec fn view(&self) -> FetchEventView {
        match *self {
            FetchEvent::Begin => FetchEventView::Begin,
            FetchEvent::Exists(b) => FetchEventView::Exists(b),
            FetchEvent::Succeeded => FetchEventView::Succeeded,
            FetchEvent::Failed(e) => FetchEventView::Failed(e@),
        }
    }
}

impl View for FetchStep {
    type V = FetchStepView;

    open spec fn view(&self) -> FetchStepView {
        match *self {
            FetchStep::Done(path) => FetchStepView::Done(path@),
            FetchStep::PathExists(path) => FetchStepView::PathExists(path@),
            FetchStep::CreateDirAll(path) => FetchStepView::CreateDirAll(path@),
            FetchStep::Run(command) => FetchStepView::Run(command@),
            FetchStep::Failed(e) => FetchStepView::Failed(e@),
        }
    }
}

/// The command `git` with the given arguments, run in `dir`.
pub open spec fn git(args: Seq<Seq<char>>, dir: Seq<char>) -> CommandView {
    CommandView { program: "git"@, args, current_dir: dir }
}

/// Makes a shallow bare clone of a repository inside its directory.
pub open spec fn clone_command(uri: Seq<char>, repository: Seq<char>) -> CommandView {
    git(seq!["clone"@, "--bare"@, "--depth=1"@, uri, "__bare__"@], repository)
}

/// Removes from a work tree what git does not track, but for `/target`.
pub open spec fn clean_command(worktree: Seq<char>) -> CommandView {
    git(seq!["clean"@, "--force"@, "-d"@, "-x"@, "-e"@, "/target"@], worktree)
}

/// Fetches a ref from the origin into a work tree.
pub open spec fn fetch_command(worktree: Seq<char>, git_ref: Seq<char>) -> CommandView {
    git(seq!["fetch"@, "origin"@, git_ref], worktree)
}

/// Resets a work tree to what was fetched last.
pub open spec fn reset_command(worktree: Seq<char>) -> CommandView {
    git(seq!["reset"@, "--hard"@, "FETCH_HEAD"@], worktree)
}

/// Fetches a ref, without its history, into the bare clone.
pub open spec fn worktree_fetch_command(bare: Seq<char>, git_ref: Seq<char>) -> CommandView {
    git(seq!["fetch"@, "--depth=1"@, "--tags"@, "origin"@, git_ref], bare)
}

/// Fetches the whole history into the bare clone.
pub open spec fn unshallow_command(bare: Seq<char>) -> CommandView {
    git(seq!["fetch"@, "--unshallow"@], bare)
}

/// Adds the work tree of a ref to the bare clone.
pub open spec fn worktree_add_command(
    bare: Seq<char>,
    worktree: Seq<char>,
    git_ref: Seq<char>,
) -> CommandView {
    git(seq!["worktree"@, "add"@, worktree, git_ref], bare)
}

/// Whether `s` is made of the digits and the lowercase letters `a` to `f`
/// alone, as a shortened commit id is.
pub open spec fn all_hex(s: Seq<char>) -> bool {
    forall|i: int|
        0 <= i < s.len() ==> (('0' <= #[trigger] s[i] && s[i] <= '9') || ('a' <= s[i] && s[i]
            <= 'f'))
}

/// The error for an event that does not answer the step that was asked for.
pub open spec fn out_of_turn() -> NumngErrorView {
    NumngErrorView::NotImplemented("event does not answer the step that was asked for"@)
}

/// What is to be done after a step of bringing an existing work tree up to
/// date: clean it, fetch the ref, reset to what was fetched.
pub open spec fn update_step(
    worktree: Seq<char>,
    git_ref: Seq<char>,
    stage: FetchStage,
    event: FetchEventView,
) -> (FetchStage, FetchStepView) {
    match event {
        FetchEventView::Failed(e) => (FetchStage::Finished, FetchStepView::Failed(e)),
        FetchEventView::Succeeded => match stage {
            FetchStage::Clean => (
                FetchStage::Fetch,
                FetchStepView::Run(fetch_command(worktree, git_ref)),
            ),
            FetchStage::Fetch => (FetchStage::Reset, FetchStepView::Run(reset_command(worktree))),
            FetchStage::Reset => (FetchStage::Finished, FetchStepView::Done(worktree)),
            _ => (FetchStage::Finished, FetchStepView::Failed(out_of_turn())),
        },
        _ => (FetchStage::Finished, FetchStepView::Failed(out_of_turn())),
    }
}

/// What is to be done after a step of making a new work tree: fetch the ref
/// into the bare clone, then add the work tree. Where the fetch fails with
/// an exit code and the ref looks like a shortened commit id, the whole
/// history is fetched first, and the work tree is added then.
pub open spec fn worktree_step(
    worktree: Seq<char>,
    git_ref: Seq<char>,
    bare: Seq<char>,
    stage: FetchStage,
    event: FetchEventView,
) -> (FetchStage, FetchStepView) {
    let add = (
        FetchStage::WorktreeAdd,
        FetchStepView::Run(worktree_add_command(bare, worktree, git_ref)),
    );
    match stage {
        FetchStage::WorktreeFetch => match event {
            FetchEventView::Succeeded => add,
            FetchEventView::Failed(e) => if e is ExternalCommandExitcode && all_hex(git_ref) {
                (FetchStage::Unshallow, FetchStepView::Run(unshallow_command(bare)))
            } else {
                (FetchStage::Finished, FetchStepView::Failed(e))
            },
            _ => (FetchStage::Finished, FetchStepView::Failed(out_of_turn())),
        },
        FetchStage::Unshallow => match event {
            FetchEventView::Succeeded => add,
            FetchEventView::Failed(e) => (FetchStage::Finished, FetchStepView::Failed(e)),
            _ => (FetchStage::Finished, FetchStepView::Failed(out_of_turn())),
        },
        FetchStage::WorktreeAdd => match event {
            FetchEventView::Succeeded => (FetchStage::Finished, FetchStepView::Done(worktree)),
            FetchEventView::Failed(e) => (FetchStage::Finished, FetchStepView::Failed(e)),
            _ => (FetchStage::Finished, FetchStepView::Failed(out_of_turn())),
        },
        _ => (FetchStage::Finished, FetchStepView::Failed(out_of_turn())),
    }
}

/// What is to be done next to have the work tree of `git_ref` of the
/// repository at `uri`, after `event` answered the step of `stage`.
///
/// Offline, the work tree's path is given at once and nothing is looked at.
/// Otherwise the repository's directory is made if it is missing, the bare
/// clone is made if it is missing, and then the work tree is made if it is
/// missing, or, only where the policy is to update, brought up to date.
pub open spec fn fetch_step(
    uri: Seq<char>,
    git_ref: Seq<char>,
    base_dir: Seq<char>,
    policy: ConnectionPolicy,
    stage: FetchStage,
    event: FetchEventView,
) -> (FetchStage, FetchStepView) {
    let repository = repository_path(base_dir, uri);
    let bare = bare_path(base_dir, uri);
    let worktree = worktree_path(base_dir, uri, git_ref);
    let probe_bare = (FetchStage::BareProbe, FetchStepView::PathExists(bare));
    let probe_worktree = (FetchStage::WorktreeProbe, FetchStepView::PathExists(worktree));
    let wrong = (FetchStage::Finished, FetchStepView::Failed(out_of_turn()));
    match stage {
        FetchStage::Start => match event {
            FetchEventView::Begin => if policy == ConnectionPolicy::Offline {
                (FetchStage::Finished, FetchStepView::Done(worktree))
            } else {
                (FetchStage::RepositoryProbe, FetchStepView::PathExists(repository))
            },
            _ => wrong,
        },
        FetchStage::RepositoryProbe => match event {
            FetchEventView::Exists(true) => probe_bare,
            FetchEventView::Exists(false) => (
                FetchStage::RepositoryCreate,
                FetchStepView::CreateDirAll(repository),
            ),
            _ => wrong,
        },
        FetchStage::RepositoryCreate => match event {
            FetchEventView::Succeeded => probe_bare,
            FetchEventView::Failed(e) => (FetchStage::Finished, FetchStepView::Failed(e)),
            _ => wrong,
        },
        FetchStage::BareProbe => match event {
            FetchEventView::Exists(true) => probe_worktree,
            FetchEventView::Exists(false) => (
                FetchStage::Clone,
                FetchStepView::Run(clone_command(uri, repository)),
            ),
            _ => wrong,
        },
        FetchStage::Clone => match event {
            FetchEventView::Succeeded => probe_worktree,
            FetchEventView::Failed(e) => (FetchStage::Finished, FetchStepView::Failed(e)),
            _ => wrong,
        },
        FetchStage::WorktreeProbe => match event {
            FetchEventView::Exists(true) => if policy == ConnectionPolicy::Update {
                (FetchStage::Clean, FetchStepView::Run(clean_command(worktree)))
            } else {
                (FetchStage::Finished, FetchStepView::Done(worktree))
            },
            FetchEventView::Exists(false) => (
                FetchStage::WorktreeFetch,
                FetchStepView::Run(worktree_fetch_command(bare, git_ref)),
            ),
            _ => wrong,
        },
        FetchStage::Clean | FetchStage::Fetch | FetchStage::Reset => update_step(
            worktree,
            git_ref,
            stage,
            event,
        ),
        FetchStage::WorktreeFetch | FetchStage::Unshallow | FetchStage::WorktreeAdd => worktree_step(
            worktree,
            git_ref,
            bare,
            stage,
            event,
        ),
        FetchStage::Finished => wrong,
    }
}

/// What is wrong with using the work tree at `path`, if anything: offline, a
/// work tree that is not there cannot be had.
pub open spec fn availability(
    policy: ConnectionPolicy,
    path: Seq<char>,
    exists: bool,
) -> Option<NumngErrorView> {
    if policy == ConnectionPolicy::Offline && !exists {
        Some(NumngErrorView::UnableToFetchResourceInOfflineMode(path))
    } else {
        None
    }
}

/// Tells the first user of a work tree whether it can be used. Offline, the
/// path of a work tree is given out without a look at the disk; `exists`
/// says whether the work tree is there.
pub fn check_available(connection_policy: ConnectionPolicy, path: &str, exists: bool) -> (r: Result<
    (),
    NumngError,
>)
    ensures
        match r {
            Ok(_) => availability(connection_policy, path@, exists) is None,
            Err(e) => availability(connection_policy, path@, exists) == Some(e@),
        },
{
    match connection_policy {
        ConnectionPolicy::Offline => {
            if exists {
                Ok(())
            } else {
                Err(NumngError::UnableToFetchResourceInOfflineMode(owned(path)))
            }
        },
        _ => Ok(()),
    }
}

/// Puts one more argument behind the others.
fn arg(args: &mut Vec<String>, s: &str)
    ensures
        final(args).deep_view() == old(args).deep_view().push(s@),
{
    let text = owned(s);
    args.push(text);
}

/// The command `git` with the given arguments, run in `dir`.
fn git_in(args: Vec<String>, dir: &str) -> (r: Command)
    ensures
        r@ == git(args.deep_view(), dir@),
{
    Command { program: owned("git"), args, current_dir: owned(dir) }
}

/// No arguments yet.
fn no_args() -> (r: Vec<String>)
    ensures
        r.deep_view() == Seq::<Seq<char>>::empty(),
{
    let r: Vec<String> = Vec::new();
    r
}

/// The command that makes a shallow bare clone of the repository at
/// `source_uri` inside the repository's directory `base_path`.
pub fn git_clone(source_uri: &str, base_path: &str) -> (r: Command)
    ensures
        r@ == clone_command(source_uri@, base_path@),
{
    let mut args = no_args();
    arg(&mut args, "clone");
    arg(&mut args, "--bare");
    arg(&mut args, "--depth=1");
    arg(&mut args, source_uri);
    arg(&mut args, "__bare__");
    assert(args.deep_view() =~= seq!["clone"@, "--bare"@, "--depth=1"@, source_uri@, "__bare__"@]);
    git_in(args, base_path)
}

fn git_clean(ref_path: &str) -> (r: Command)
    ensures
        r@ == clean_command(ref_path@),
{
    let mut args = no_args();
    arg(&mut args, "clean");
    arg(&mut args, "--force");
    arg(&mut args, "-d");
    arg(&mut args, "-x");
    arg(&mut args, "-e");
    arg(&mut args, "/target");
    assert(args.deep_view() =~= seq!["clean"@, "--force"@, "-d"@, "-x"@, "-e"@, "/target"@]);
    git_in(args, ref_path)
}

fn git_fetch(ref_path: &str, git_ref: &str) -> (r: Command)
    ensures
        r@ == fetch_command(ref_path@, git_ref@),
{
    let mut args = no_args();
    arg(&mut args, "fetch");
    arg(&mut args, "origin");
    arg(&mut args, git_ref);
    assert(args.deep_view() =~= seq!["fetch"@, "origin"@, git_ref@]);
    git_in(args, ref_path)
}

fn git_reset(ref_path: &str) -> (r: Command)
    ensures
        r@ == reset_command(ref_path@),
{
    let mut args = no_args();
    arg(&mut args, "reset");
    arg(&mut args, "--hard");
    arg(&mut args, "FETCH_HEAD");
    assert(args.deep_view() =~= seq!["reset"@, "--hard"@, "FETCH_HEAD"@]);
    git_in(args, ref_path)
}

fn git_worktree_fetch(bare_path: &str, git_ref: &str) -> (r: Command)
    ensures
        r@ == worktree_fetch_command(bare_path@, git_ref@),
{
    let mut args = no_args();
    arg(&mut args, "fetch");
    arg(&mut args, "--depth=1");
    arg(&mut args, "--tags");
    arg(&mut args, "origin");
    arg(&mut args, git_ref);
    assert(args.deep_view() =~= seq!["fetch"@, "--depth=1"@, "--tags"@, "origin"@, git_ref@]);
    git_in(args, bare_path)
}

fn git_unshallow(bare_path: &str) -> (r: Command)
    ensures
        r@ == unshallow_command(bare_path@),
{
    let mut args = no_args();
    arg(&mut args, "fetch");
    arg(&mut args, "--unshallow");
    assert(args.deep_view() =~= seq!["fetch"@, "--unshallow"@]);
    git_in(args, bare_path)
}

fn git_worktree_add(bare_path: &str, ref_path: &str, git_ref: &str) -> (r: Command)
    ensures
        r@ == worktree_add_command(bare_path@, ref_path@, git_ref@),
{
    let mut args = no_args();
    arg(&mut args, "worktree");
    arg(&mut args, "add");
    arg(&mut args, ref_path);
    arg(&mut args, git_ref);
    assert(args.deep_view() =~= seq!["worktree"@, "add"@, ref_path@, git_ref@]);
    git_in(args, bare_path)
}

/// Whether `s` looks like a shortened commit id.
fn is_all_hex(s: &str) -> (r: bool)
    ensures
        r == all_hex(s@),
{
    let text = chars_of(s);
    let mut i: usize = 0;
    while i < text.len()
        invariant
            i <= text.len(),
            text@ == s@,
            forall|j: int|
                0 <= j < i ==> (('0' <= #[trigger] text@[j] && text@[j] <= '9') || ('a' <= text@[j]
                    && text@[j] <= 'f')),
        decreases text.len() - i,
    {
        let c: char = text[i];
        if !((c >= '0' && c <= '9') || (c >= 'a' && c <= 'f')) {
            return false;
        }
        i += 1;
    }
    true
}

/// Gives up because the event does not answer the step that was asked for.
fn wrong_event() -> (r: (FetchStage, FetchStep))
    ensures
        r.0 == FetchStage::Finished,
        r.1@ == FetchStepView::Failed(out_of_turn()),
{
    (
        FetchStage::Finished,
        FetchStep::Failed(
            NumngError::NotImplemented(owned("event does not answer the step that was asked for")),
        ),
    )
}

/// The next step of bringing the existing work tree at `ref_path` up to
/// date.
pub fn git_update_ref_dir(
    ref_path: &str,
    git_ref: &str,
    stage: FetchStage,
    event: FetchEvent,
) -> (r: (FetchStage, FetchStep))
    ensures
        r.0 == update_step(ref_path@, git_ref@, stage, event@).0,
        r.1@ == update_step(ref_path@, git_ref@, stage, event@).1,
{
    match event {
        FetchEvent::Failed(e) => (FetchStage::Finished, FetchStep::Failed(e)),
        FetchEvent::Succeeded => match stage {
            FetchStage::Clean => (FetchStage::Fetch, FetchStep::Run(git_fetch(ref_path, git_ref))),
            FetchStage::Fetch => (FetchStage::Reset, FetchStep::Run(git_reset(ref_path))),
            FetchStage::Reset => (FetchStage::Finished, FetchStep::Done(owned(ref_path))),
            _ => wrong_event(),
        },
        _ => wrong_event(),
    }
}

/// The next step of making the work tree at `ref_path` from the bare clone
/// at `bare_path`.
pub fn init_git_worktree(
    ref_path: &str,
    git_ref: &str,
    bare_path: &str,
    stage: FetchStage,
    event: FetchEvent,
) -> (r: (FetchStage, FetchStep))
    ensures
        r.0 == worktree_step(ref_path@, git_ref@, bare_path@, stage, event@).0,
        r.1@ == worktree_step(ref_path@, git_ref@, bare_path@, stage, event@).1,
{
    match stage {
        FetchStage::WorktreeFetch => match event {
            FetchEvent::Succeeded => (
                FetchStage::WorktreeAdd,
                FetchStep::Run(git_worktree_add(bare_path, ref_path, git_ref)),
            ),
            FetchEvent::Failed(e) => {
                let by_exit_code = match &e {
                    NumngError::ExternalCommandExitcode { .. } => true,
                    _ => false,
                };
                if by_exit_code && is_all_hex(git_ref) {
                    (FetchStage::Unshallow, FetchStep::Run(git_unshallow(bare_path)))
                } else {
                    (FetchStage::Finished, FetchStep::Failed(e))
                }
            },
            _ => wrong_event(),
        },
        FetchStage::Unshallow => match event {
            FetchEvent::Succeeded => (
                FetchStage::WorktreeAdd,
                FetchStep::Run(git_worktree_add(bare_path, ref_path, git_ref)),
            ),
            FetchEvent::Failed(e) => (FetchStage::Finished, FetchStep::Failed(e)),
            _ => wrong_event(),
        },
        FetchStage::WorktreeAdd => match event {
            FetchEvent::Succeeded => (FetchStage::Finished, FetchStep::Done(owned(ref_path))),
            FetchEvent::Failed(e) => (FetchStage::Finished, FetchStep::Failed(e)),
            _ => wrong_event(),
        },
        _ => wrong_event(),
    }
}

/// The next step towards the work tree of `git_ref` of the repository at
/// `source_uri`, after `event` answered the step that was asked for at
/// `stage`. The first call is made at `FetchStage::Start` with
/// `FetchEvent::Begin`; the work is over when the step is `Done` or
/// `Failed`.
pub fn get_package_fs_basepath(
    source_uri: &String,
    git_ref: &String,
    base_dir: &str,
    connection_policy: ConnectionPolicy,
    stage: FetchStage,
    event: FetchEvent,
) -> (r: (FetchStage, FetchStep))
    ensures
        r.0 == fetch_step(source_uri@, git_ref@, base_dir@, connection_policy, stage, event@).0,
        r.1@ == fetch_step(source_uri@, git_ref@, base_dir@, connection_policy, stage, event@).1,
        connection_policy == ConnectionPolicy::Offline && stage == FetchStage::Start && event
            == FetchEvent::Begin ==> r.0 == FetchStage::Finished && r.1@ == FetchStepView::Done(
            worktree_path(base_dir@, source_uri@, git_ref@),
        ),
{
    let ref_path = worktree_directory(source_uri.as_str(), git_ref.as_str(), base_dir);
    match stage {
        FetchStage::Start => match event {
            FetchEvent::Begin => match connection_policy {
                ConnectionPolicy::Offline => (FetchStage::Finished, FetchStep::Done(ref_path)),
                _ => (
                    FetchStage::RepositoryProbe,
                    FetchStep::PathExists(repository_directory(source_uri.as_str(), base_dir)),
                ),
            },
            _ => wrong_event(),
        },
        FetchStage::RepositoryProbe => match event {
            FetchEvent::Exists(true) => (
                FetchStage::BareProbe,
                FetchStep::PathExists(bare_directory(source_uri.as_str(), base_dir)),
            ),
            FetchEvent::Exists(false) => (
                FetchStage::RepositoryCreate,
                FetchStep::CreateDirAll(repository_directory(source_uri.as_str(), base_dir)),
            ),
            _ => wrong_event(),
        },
        FetchStage::RepositoryCreate => match event {
            FetchEvent::Succeeded => (
                FetchStage::BareProbe,
                FetchStep::PathExists(bare_directory(source_uri.as_str(), base_dir)),
            ),
            FetchEvent::Failed(e) => (FetchStage::Finished, FetchStep::Failed(e)),
            _ => wrong_event(),
        },
        FetchStage::BareProbe => match event {
            FetchEvent::Exists(true) => (FetchStage::WorktreeProbe,
                FetchStep::PathExists(ref_path)),
            FetchEvent::Exists(false) => (
                FetchStage::Clone,
                FetchStep::Run(
                    git_clone(
                        source_uri.as_str(),
                        repository_directory(source_uri.as_str(), base_dir).as_str(),
                    ),
                ),
            ),
            _ => wrong_event(),
        },
        FetchStage::Clone => match event {
            FetchEvent::Succeeded => (FetchStage::WorktreeProbe, FetchStep::PathExists(ref_path)),
            FetchEvent::Failed(e) => (FetchStage::Finished, FetchStep::Failed(e)),
            _ => wrong_event(),
        },
        FetchStage::WorktreeProbe => match event {
            FetchEvent::Exists(true) => match connection_policy {
                ConnectionPolicy::Update => (
                    FetchStage::Clean,
                    FetchStep::Run(git_clean(ref_path.as_str())),
                ),
                _ => (FetchStage::Finished, FetchStep::Done(ref_path)),
            },
            FetchEvent::Exists(false) => (
                FetchStage::WorktreeFetch,
                FetchStep::Run(
                    git_worktree_fetch(
                        bare_directory(source_uri.as_str(), base_dir).as_str(),
                        git_ref.as_str(),
                    ),
                ),
            ),
            _ => wrong_event(),
        },
        FetchStage::Clean | FetchStage::Fetch | FetchStage::Reset => git_update_ref_dir(
            ref_path.as_str(),
            git_ref.as_str(),
            stage,
            event,
        ),
        FetchStage::WorktreeFetch | FetchStage::Unshallow | FetchStage::WorktreeAdd => init_git_worktree(
            ref_path.as_str(),
            git_ref.as_str(),
            bare_directory(source_uri.as_str(), base_dir).as_str(),
            stage,
            event,
        ),
        FetchStage::Finished => wrong_event(),
    }
}

} // verus!
