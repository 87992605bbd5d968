// A package manager for shell and script packages: it reads a manifest,
// completes the packages from registries, and plans how they are fetched
// from their git repositories and built.
//
// Nothing here touches the disk, the network or another process. Where such
// work is needed, the functions say what is to be done and take what came of
// it; the program around the library does the work.
use vstd::prelude::*;

pub mod builder;
pub mod json;
pub mod numng_error;
pub mod package;
pub mod package_collection;
pub mod package_format;
pub mod plain;
pub mod repo;
pub mod schedule;
pub mod semver;
pub mod sources;
pub mod text;
pub mod util;

pub use numng_error::NumngError;
pub use package_collection::{parse_numng_json, PackageCollection};

verus! {

/// How far the network may be used to get at a package's files.
#[derive(Debug, Clone, Copy, PartialEq, Eq, Structural)]
pub enum ConnectionPolicy {
    Offline,
    Download,
    Update,
}

/// How a connection policy is written.
pub open spec fn policy_text(policy: ConnectionPolicy) -> Seq<char> {
    match policy {
        ConnectionPolicy::Offline => "offline"@,
        ConnectionPolicy::Download => "download"@,
        ConnectionPolicy::Update => "update"@,
    }
}

impl ConnectionPolicy {
    /// The policy's name.
    pub fn to_string(&self) -> (r: String)
        ensures
            r@ == policy_text(*self),
    {
        match self {
            ConnectionPolicy::Offline => text::owned("offline"),
            ConnectionPolicy::Download => text::owned("download"),
            ConnectionPolicy::Update => text::owned("update"),
        }
    }
}

/// The directory below a home directory in which everything is kept.
pub open spec fn base_directory(home: Seq<char>) -> Seq<char> {
    util::path_join(
        util::path_join(
            util::path_join(util::path_join(home, ".local"@), "share"@),
            "nushell"@,
        ),
        "numng"@,
    )
}

/// The directory in which everything is kept, for the user whose home
/// directory is `home_dir`.
pub fn get_base_directory(home_dir: &str) -> (r: String)
    ensures
        r@ == base_directory(home_dir@),
{
    let local = util::join_path(home_dir, ".local");
    let share = util::join_path(local.as_str(), "share");
    let nushell = util::join_path(share.as_str(), "nushell");
    util::join_path(nushell.as_str(), "numng")
}

} // verus!
