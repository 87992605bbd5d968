use numng::sources::git_src::{
    bare_directory, check_available, get_package_fs_basepath, git_clone, git_update_ref_dir, init_git_worktree,
    repository_directory, worktree_directory, FetchEvent, FetchStage, FetchStep,
};
use numng::util::Command;
use numng::{ConnectionPolicy, NumngError};

fn git(args: &[&str], dir: &str) -> Command {
    Command {
        program: String::from("git"),
        args: args.iter().map(|a| String::from(*a)).collect(),
        current_dir: String::from(dir),
    }
}

fn exit_code_error() -> NumngError {
    NumngError::ExternalCommandExitcode {
        command: String::from("git fetch"),
        stdout: String::new(),
        stderr: String::from("fatal: couldn't find remote ref"),
        exitcode: 128,
    }
}

fn step(
    uri: &str,
    git_ref: &str,
    policy: ConnectionPolicy,
    stage: FetchStage,
    event: FetchEvent,
) -> (FetchStage, FetchStep) {
    get_package_fs_basepath(&String::from(uri), &String::from(git_ref), "/base", policy, stage, event)
}

const URI: &str = "https://github.com/user/repo";
const REPO: &str = "/base/store/git/github.com/user/repo";
const BARE: &str = "/base/store/git/github.com/user/repo/__bare__";
const TREE: &str = "/base/store/git/github.com/user/repo/main";

#[test]
fn store_layout() {
    assert_eq!(repository_directory(URI, "/base"), REPO);
    assert_eq!(bare_directory(URI, "/base"), BARE);
    assert_eq!(worktree_directory(URI, "main", "/base"), TREE);
}

#[test]
fn each_segment_is_escaped_by_itself() {
    assert_eq!(
        repository_directory("ssh://git@host:22/a b/c?d", "/base"),
        "/base/store/git/git_host_22/a b/c_d"
    );
    assert_eq!(
        worktree_directory(URI, "feature/x", "/base"),
        "/base/store/git/github.com/user/repo/feature_x"
    );
}

#[test]
fn dot_segments_are_dropped() {
    assert_eq!(
        worktree_directory("scheme://h/../../etc/./passwd", "main", "/base"),
        "/base/store/git/h/etc/passwd/main"
    );
    assert_eq!(
        worktree_directory("scheme://../..//...", "main", "/base"),
        "/base/store/git/main"
    );
    assert_eq!(repository_directory("scheme://h//p/", "/base"), "/base/store/git/h/p");
}

#[test]
fn a_uri_with_dot_segments_stays_strictly_under_the_store() {
    let uris = [
        "scheme://../../../etc",
        "scheme://h/../..",
        "scheme://..",
        "../..",
        "scheme://h/a/../../../b",
    ];
    for uri in uris {
        let path = worktree_directory(uri, "main", "/base");
        let rest = path.strip_prefix("/base/store/git/").expect("under the store");
        assert!(!rest.is_empty());
        for part in rest.split('/') {
            assert!(!part.is_empty() && !part.chars().all(|c| c == '.'), "{}", path);
        }
    }
}

#[test]
fn only_the_first_scheme_mark_is_cut() {
    assert_eq!(repository_directory("a://b://c", "/base"), "/base/store/git/b_/c");
    assert_eq!(repository_directory("host/path", "/base"), "/base/store/git/host/path");
    assert_eq!(repository_directory("://x", "/base"), "/base/store/git/x");
}

#[test]
fn the_base_directory_is_joined_as_a_path() {
    assert_eq!(repository_directory(URI, "/base/"), REPO);
    assert_eq!(repository_directory(URI, ""), "store/git/github.com/user/repo");
}

#[test]
fn clone_command_is_shallow_and_bare() {
    assert_eq!(
        git_clone(URI, REPO),
        git(&["clone", "--bare", "--depth=1", URI, "__bare__"], REPO)
    );
}

#[test]
fn offline_gives_the_path_at_once() {
    assert_eq!(
        step(URI, "main", ConnectionPolicy::Offline, FetchStage::Start, FetchEvent::Begin),
        (FetchStage::Finished, FetchStep::Done(String::from(TREE)))
    );
}

#[test]
fn download_into_an_empty_store() {
    let policy = ConnectionPolicy::Download;
    let (stage, action) = step(URI, "main", policy, FetchStage::Start, FetchEvent::Begin);
    assert_eq!((stage, action), (FetchStage::RepositoryProbe, FetchStep::PathExists(String::from(REPO))));
    let (stage, action) = step(URI, "main", policy, stage, FetchEvent::Exists(false));
    assert_eq!((stage, action), (FetchStage::RepositoryCreate, FetchStep::CreateDirAll(String::from(REPO))));
    let (stage, action) = step(URI, "main", policy, stage, FetchEvent::Succeeded);
    assert_eq!((stage, action), (FetchStage::BareProbe, FetchStep::PathExists(String::from(BARE))));
    let (stage, action) = step(URI, "main", policy, stage, FetchEvent::Exists(false));
    assert_eq!(
        (stage, action),
        (
            FetchStage::Clone,
            FetchStep::Run(git(&["clone", "--bare", "--depth=1", URI, "__bare__"], REPO))
        )
    );
    let (stage, action) = step(URI, "main", policy, stage, FetchEvent::Succeeded);
    assert_eq!((stage, action), (FetchStage::WorktreeProbe, FetchStep::PathExists(String::from(TREE))));
    let (stage, action) = step(URI, "main", policy, stage, FetchEvent::Exists(false));
    assert_eq!(
        (stage, action),
        (
            FetchStage::WorktreeFetch,
            FetchStep::Run(git(&["fetch", "--depth=1", "--tags", "origin", "main"], BARE))
        )
    );
    let (stage, action) = step(URI, "main", policy, stage, FetchEvent::Succeeded);
    assert_eq!(
        (stage, action),
        (FetchStage::WorktreeAdd, FetchStep::Run(git(&["worktree", "add", TREE, "main"], BARE)))
    );
    let (stage, action) = step(URI, "main", policy, stage, FetchEvent::Succeeded);
    assert_eq!((stage, action), (FetchStage::Finished, FetchStep::Done(String::from(TREE))));
}

#[test]
fn download_leaves_an_existing_work_tree_alone() {
    let policy = ConnectionPolicy::Download;
    let (stage, _) = step(URI, "main", policy, FetchStage::RepositoryProbe, FetchEvent::Exists(true));
    assert_eq!(stage, FetchStage::BareProbe);
    let (stage, action) = step(URI, "main", policy, stage, FetchEvent::Exists(true));
    assert_eq!((stage, action), (FetchStage::WorktreeProbe, FetchStep::PathExists(String::from(TREE))));
    assert_eq!(
        step(URI, "main", policy, stage, FetchEvent::Exists(true)),
        (FetchStage::Finished, FetchStep::Done(String::from(TREE)))
    );
}

#[test]
fn update_refreshes_an_existing_work_tree() {
    let policy = ConnectionPolicy::Update;
    let (stage, action) = step(URI, "main", policy, FetchStage::WorktreeProbe, FetchEvent::Exists(true));
    assert_eq!(
        (stage, action),
        (
            FetchStage::Clean,
            FetchStep::Run(git(&["clean", "--force", "-d", "-x", "-e", "/target"], TREE))
        )
    );
    let (stage, action) = step(URI, "main", policy, stage, FetchEvent::Succeeded);
    assert_eq!(
        (stage, action),
        (FetchStage::Fetch, FetchStep::Run(git(&["fetch", "origin", "main"], TREE)))
    );
    let (stage, action) = step(URI, "main", policy, stage, FetchEvent::Succeeded);
    assert_eq!(
        (stage, action),
        (FetchStage::Reset, FetchStep::Run(git(&["reset", "--hard", "FETCH_HEAD"], TREE)))
    );
    assert_eq!(
        step(URI, "main", policy, stage, FetchEvent::Succeeded),
        (FetchStage::Finished, FetchStep::Done(String::from(TREE)))
    );
}

#[test]
fn update_makes_a_missing_work_tree_like_download() {
    let (stage, action) =
        step(URI, "main", ConnectionPolicy::Update, FetchStage::WorktreeProbe, FetchEvent::Exists(false));
    assert_eq!(
        (stage, action),
        (
            FetchStage::WorktreeFetch,
            FetchStep::Run(git(&["fetch", "--depth=1", "--tags", "origin", "main"], BARE))
        )
    );
}

#[test]
fn a_short_hash_is_recovered_by_unshallowing() {
    let tree = "/base/store/git/github.com/user/repo/0a1b2c";
    let (stage, action) = step(
        URI,
        "0a1b2c",
        ConnectionPolicy::Download,
        FetchStage::WorktreeFetch,
        FetchEvent::Failed(exit_code_error()),
    );
    assert_eq!(
        (stage, action),
        (FetchStage::Unshallow, FetchStep::Run(git(&["fetch", "--unshallow"], BARE)))
    );
    let (stage, action) = step(URI, "0a1b2c", ConnectionPolicy::Download, stage, FetchEvent::Succeeded);
    assert_eq!(
        (stage, action),
        (FetchStage::WorktreeAdd, FetchStep::Run(git(&["worktree", "add", tree, "0a1b2c"], BARE)))
    );
}

#[test]
fn no_recovery_for_a_ref_that_is_no_hash() {
    for git_ref in ["main", "0A1B", "deadbeefg", "v1"] {
        assert_eq!(
            step(
                URI,
                git_ref,
                ConnectionPolicy::Download,
                FetchStage::WorktreeFetch,
                FetchEvent::Failed(exit_code_error())
            ),
            (FetchStage::Finished, FetchStep::Failed(exit_code_error()))
        );
    }
}

#[test]
fn no_recovery_for_a_fetch_that_could_not_start() {
    let error = NumngError::ExternalCommandIO(String::from("not found"));
    assert_eq!(
        step(
            URI,
            "0a1b2c",
            ConnectionPolicy::Download,
            FetchStage::WorktreeFetch,
            FetchEvent::Failed(NumngError::ExternalCommandIO(String::from("not found")))
        ),
        (FetchStage::Finished, FetchStep::Failed(error))
    );
}

#[test]
fn failures_are_handed_on_unchanged() {
    let stages = [
        FetchStage::RepositoryCreate,
        FetchStage::Clone,
        FetchStage::Clean,
        FetchStage::Fetch,
        FetchStage::Reset,
        FetchStage::Unshallow,
        FetchStage::WorktreeAdd,
    ];
    for stage in stages {
        assert_eq!(
            step(
                URI,
                "main",
                ConnectionPolicy::Update,
                stage,
                FetchEvent::Failed(NumngError::IoError(String::from("disk full")))
            ),
            (FetchStage::Finished, FetchStep::Failed(NumngError::IoError(String::from("disk full"))))
        );
    }
}

#[test]
fn an_event_out_of_turn_ends_the_work() {
    let wrong = NumngError::NotImplemented(String::from(
        "event does not answer the step that was asked for",
    ));
    let cases = [
        (FetchStage::Start, FetchEvent::Succeeded),
        (FetchStage::RepositoryProbe, FetchEvent::Succeeded),
        (FetchStage::Clone, FetchEvent::Exists(true)),
        (FetchStage::Reset, FetchEvent::Begin),
        (FetchStage::WorktreeAdd, FetchEvent::Exists(false)),
        (FetchStage::Finished, FetchEvent::Succeeded),
    ];
    for (stage, event) in cases {
        let (next, action) = step(URI, "main", ConnectionPolicy::Update, stage, event);
        assert_eq!(next, FetchStage::Finished);
        assert_eq!(action, FetchStep::Failed(wrong.clone()));
    }
}

#[test]
fn the_parts_of_the_machine_can_be_used_alone() {
    assert_eq!(
        git_update_ref_dir(TREE, "main", FetchStage::Clean, FetchEvent::Succeeded),
        (FetchStage::Fetch, FetchStep::Run(git(&["fetch", "origin", "main"], TREE)))
    );
    assert_eq!(
        init_git_worktree(TREE, "main", BARE, FetchStage::Unshallow, FetchEvent::Succeeded),
        (FetchStage::WorktreeAdd, FetchStep::Run(git(&["worktree", "add", TREE, "main"], BARE)))
    );
    assert_eq!(
        init_git_worktree(TREE, "", BARE, FetchStage::WorktreeFetch, FetchEvent::Failed(exit_code_error())),
        (FetchStage::Unshallow, FetchStep::Run(git(&["fetch", "--unshallow"], BARE)))
    );
}

#[test]
fn two_packages_at_one_ref_share_one_work_tree() {
    let a = worktree_directory("https://h/p", "main", "/base");
    let b = worktree_directory("https://h/p", "main", "/base");
    let c = worktree_directory("https://h/p", "dev", "/base");
    assert_eq!(a, b);
    assert_ne!(a, c);
}

#[test]
fn offline_a_missing_work_tree_fails_where_it_is_first_used() {
    assert_eq!(
        check_available(ConnectionPolicy::Offline, TREE, false),
        Err(NumngError::UnableToFetchResourceInOfflineMode(String::from(TREE)))
    );
    assert_eq!(check_available(ConnectionPolicy::Offline, TREE, true), Ok(()));
    assert_eq!(check_available(ConnectionPolicy::Download, TREE, false), Ok(()));
    assert_eq!(check_available(ConnectionPolicy::Update, TREE, false), Ok(()));
}
