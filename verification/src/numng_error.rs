// All that can go wrong, and the messages for it.
use crate::package::{package_text, Package, PackageView};
use crate::plain::Plain;
use crate::text::{integer_digits, integer_text, owned, push_chars};
use vstd::prelude::*;

verus! {

/// Everything that can go wrong while packages are resolved, fetched and built.
#[derive(Debug, PartialEq, Eq)]
pub enum NumngError {
    /// A child process could not be started; holds the system's message.
    ExternalCommandIO(String),
    ExternalCommandExitcode { command: String, stdout: String, stderr: String, exitcode: i32 },
    InvalidPackageFieldValue { package_name: Option<String>, field: String, value: Option<String> },
    NotImplemented(String),
    SecurityError(String),
    /// A file operation failed; holds the system's message.
    IoError(String),
    InvalidSemVer { semver: String, issue: String },
    /// A document is not valid JSON; holds the parser's message.
    InvalidJsonError(String),
    /// A registry file, by its path, and what is wrong with it.
    InvalidRegistryFormat(String, String),
    UnableToFetchResourceInOfflineMode(String),
    /// The install prefix, by its path.
    NupmHomeAlreadyExists(String),
    BuildCommandBlocked(Package),
    CircularDependencies(Vec<Package>),
}

/// What a `NumngError` holds, as mathematical values.
pub enum NumngErrorView {
    ExternalCommandIO(Seq<char>),
    ExternalCommandExitcode { command: Seq<char>, stdout: Seq<char>, stderr: Seq<char>,
        exitcode: i32 },
    InvalidPackageFieldValue {
        package_name: Option<Seq<char>>,
        field: Seq<char>,
        value: Option<Seq<char>>,
    },
    NotImplemented(Seq<char>),
    SecurityError(Seq<char>),
    IoError(Seq<char>),
    InvalidSemVer { semver: Seq<char>, issue: Seq<char> },
    InvalidJsonError(Seq<char>),
    InvalidRegistryFormat(Seq<char>, Seq<char>),
    UnableToFetchResourceInOfflineMode(Seq<char>),
    NupmHomeAlreadyExists(Seq<char>),
    BuildCommandBlocked(PackageView),
    CircularDependencies(Seq<PackageView>),
}

impl View for NumngError {
    type V = NumngErrorView;

    open spec fn view(&self) -> NumngErrorView {
        match *self {
            NumngError::ExternalCommandIO(s) => NumngErrorView::ExternalCommandIO(s@),
            NumngError::ExternalCommandExitcode { command, stdout, stderr, exitcode } => {
                NumngErrorView::ExternalCommandExitcode {
                    command: command@,
                    stdout: stdout@,
                    stderr: stderr@,
                    exitcode,
                }
            },
            NumngError::InvalidPackageFieldValue { package_name, field, value } => {
                NumngErrorView::InvalidPackageFieldValue {
                    package_name: package_name.deep_view(),
                    field: field@,
                    value: value.deep_view(),
                }
            },
            NumngError::NotImplemented(s) => NumngErrorView::NotImplemented(s@),
            NumngError::SecurityError(s) => NumngErrorView::SecurityError(s@),
            NumngError::IoError(s) => NumngErrorView::IoError(s@),
            NumngError::InvalidSemVer { semver, issue } => NumngErrorView::InvalidSemVer {
                semver: semver@,
                issue: issue@,
            },
            NumngError::InvalidJsonError(s) => NumngErrorView::InvalidJsonError(s@),
            NumngError::InvalidRegistryFormat(path, s) => NumngErrorView::InvalidRegistryFormat(
                path@,
                s@,
            ),
            NumngError::UnableToFetchResourceInOfflineMode(s) => {
                NumngErrorView::UnableToFetchResourceInOfflineMode(s@)
            },
            NumngError::NupmHomeAlreadyExists(path) => NumngErrorView::NupmHomeAlreadyExists(path@),
            NumngError::BuildCommandBlocked(package) => NumngErrorView::BuildCommandBlocked(
                package@,
            ),
            NumngError::CircularDependencies(packages) => NumngErrorView::CircularDependencies(
                packages.deep_view(),
            ),
        }
    }
}

impl DeepView for NumngError {
    type V = NumngErrorView;

    open spec fn deep_view(&self) -> NumngErrorView {
        self.view()
    }
}

impl Plain for NumngError {
    fn same(&self, other: &Self) -> (r: bool) {
        match (self, other) {
            (NumngError::ExternalCommandIO(a), NumngError::ExternalCommandIO(b)) => a.same(b),
            (
                NumngError::ExternalCommandExitcode { command, stdout, stderr, exitcode },
                NumngError::ExternalCommandExitcode {
                    command: o_command,
                    stdout: o_stdout,
                    stderr: o_stderr,
                    exitcode: o_exitcode,
                },
            ) => command.same(o_command) && stdout.same(o_stdout) && stderr.same(o_stderr)
                && *exitcode == *o_exitcode,
            (
                NumngError::InvalidPackageFieldValue { package_name, field, value },
                NumngError::InvalidPackageFieldValue {
                    package_name: o_package_name,
                    field: o_field,
                    value: o_value,
                },
            ) => package_name.same(o_package_name) && field.same(o_field) && value.same(o_value),
            (NumngError::NotImplemented(a), NumngError::NotImplemented(b)) => a.same(b),
            (NumngError::SecurityError(a), NumngError::SecurityError(b)) => a.same(b),
            (NumngError::IoError(a), NumngError::IoError(b)) => a.same(b),
            (
                NumngError::InvalidSemVer { semver, issue },
                NumngError::InvalidSemVer { semver: o_semver, issue: o_issue },
            ) => semver.same(o_semver) && issue.same(o_issue),
            (NumngError::InvalidJsonError(a), NumngError::InvalidJsonError(b)) => a.same(b),
            (NumngError::InvalidRegistryFormat(a, b), NumngError::InvalidRegistryFormat(c, d)) => {
                a.same(c) && b.same(d)
            },
            (
                NumngError::UnableToFetchResourceInOfflineMode(a),
                NumngError::UnableToFetchResourceInOfflineMode(b),
            ) => a.same(b),
            (NumngError::NupmHomeAlreadyExists(a),
                NumngError::NupmHomeAlreadyExists(b)) => a.same(b),
            (NumngError::BuildCommandBlocked(a), NumngError::BuildCommandBlocked(b)) => a.same(b),
            (NumngError::CircularDependencies(a), NumngError::CircularDependencies(b)) => a.same(b),
            _ => false,
        }
    }

    fn copy(&self) -> (r: Self) {
        match self {
            NumngError::ExternalCommandIO(a) => NumngError::ExternalCommandIO(a.copy()),
            NumngError::ExternalCommandExitcode { command, stdout, stderr, exitcode } => {
                NumngError::ExternalCommandExitcode {
                    command: command.copy(),
                    stdout: stdout.copy(),
                    stderr: stderr.copy(),
                    exitcode: *exitcode,
                }
            },
            NumngError::InvalidPackageFieldValue { package_name, field, value } => {
                NumngError::InvalidPackageFieldValue {
                    package_name: package_name.copy(),
                    field: field.copy(),
                    value: value.copy(),
                }
            },
            NumngError::NotImplemented(a) => NumngError::NotImplemented(a.copy()),
            NumngError::SecurityError(a) => NumngError::SecurityError(a.copy()),
            NumngError::IoError(a) => NumngError::IoError(a.copy()),
            NumngError::InvalidSemVer { semver, issue } => NumngError::InvalidSemVer {
                semver: semver.copy(),
                issue: issue.copy(),
            },
            NumngError::InvalidJsonError(a) => NumngError::InvalidJsonError(a.copy()),
            NumngError::InvalidRegistryFormat(a, b) => NumngError::InvalidRegistryFormat(
                a.copy(),
                b.copy(),
            ),
            NumngError::UnableToFetchResourceInOfflineMode(a) => {
                NumngError::UnableToFetchResourceInOfflineMode(a.copy())
            },
            NumngError::NupmHomeAlreadyExists(a) => NumngError::NupmHomeAlreadyExists(a.copy()),
            NumngError::BuildCommandBlocked(a) => NumngError::BuildCommandBlocked(a.copy()),
            NumngError::CircularDependencies(a) => NumngError::CircularDependencies(a.copy()),
        }
    }
}

impl Clone for NumngError {
    fn clone(&self) -> (r: Self)
        ensures
            r@ == self@,
    {
        self.copy()
    }
}

/// The first `n` of `texts`, with `sep` between each two.
pub open spec fn joined(texts: Seq<Seq<char>>, sep: Seq<char>, n: nat) -> Seq<char>
    decreases n,
{
    if n == 0 || n > texts.len() {
        Seq::empty()
    } else if n == 1 {
        texts[0]
    } else {
        joined(texts, sep, (n - 1) as nat) + sep + texts[n - 1]
    }
}

/// The first `n` of `packages` as they are named in messages, with a blank
/// between each two.
pub open spec fn package_texts(packages: Seq<PackageView>, n: nat) -> Seq<char> {
    joined(Seq::new(packages.len(), |i: int| package_text(packages[i])), " "@, n)
}

/// A package's name in a message; for a package without name, that it is
/// not known.
pub open spec fn name_or_unknown(name: Option<Seq<char>>) -> Seq<char> {
    match name {
        Some(n) => n,
        None => "<unknown name>"@,
    }
}

/// The message of an error, for a person to read.
pub open spec fn error_text(e: NumngErrorView) -> Seq<char> {
    match e {
        NumngErrorView::ExternalCommandIO(m) => "External command failed due to a IO error: "@ + m,
        NumngErrorView::ExternalCommandExitcode { command, stdout, stderr, exitcode } => {
            "External command ("@ + command + ") failed (exitcode: "@ + integer_text(
                exitcode as int,
            ) + "). STDOUT:\n\n"@ + stdout + "\n\nSTDERR:\n\n"@ + stderr + "\n\n"@
        },
        NumngErrorView::InvalidPackageFieldValue { package_name, field, value } => match value {
            Some(v) => "Package definition for "@ + name_or_unknown(package_name)
                + " is faulty. field "@ + field + " contains value "@ + v,
            None => "Package definition for "@ + name_or_unknown(package_name)
                + " is faulty. field "@ + field + " is null"@,
        },
        NumngErrorView::NotImplemented(s) => "Feature not yet implemented: "@ + s,
        NumngErrorView::SecurityError(s) => "A potential security issue or bug was spotted: "@ + s,
        NumngErrorView::IoError(m) => "An IO-Error occured: "@ + m,
        NumngErrorView::InvalidSemVer { semver, issue } => "Invalid semantic version: "@ + semver
            + " ("@ + issue + ")"@,
        NumngErrorView::InvalidJsonError(m) => "Failed to parse json: "@ + m,
        NumngErrorView::InvalidRegistryFormat(path, s) => {
            "A registry does not follow the specification. location: "@ + path + "; problem: "@ + s
        },
        NumngErrorView::UnableToFetchResourceInOfflineMode(s) => {
            "Unable to complete operating in offline mode: "@ + s
        },
        NumngErrorView::NupmHomeAlreadyExists(path) => {
            "Nupm Home already exists and overwriting is disabled: "@ + path
        },
        NumngErrorView::BuildCommandBlocked(package) => {
            "Unable to build package (Build commands disabled): "@ + package_text(package)
        },
        NumngErrorView::CircularDependencies(packages) => {
            "Failed to build (circular dependencies?). Packages, which can't be built: "@
                + package_texts(packages, packages.len())
        },
    }
}

/// A package's name in a message.
fn unknown_or(name: &Option<String>) -> (r: String)
    ensures
        r@ == name_or_unknown(name.deep_view()),
{
    match name {
        Some(n) => n.clone(),
        None => owned("<unknown name>"),
    }
}

/// The packages as they are named in messages, with a blank between each
/// two.
fn packages_to_string(packages: &Vec<Package>) -> (r: String)
    ensures
        r@ == package_texts(packages.deep_view(), packages.len() as nat),
{
    let mut r = String::new();
    let ghost shown = packages.deep_view();
    let ghost texts = Seq::new(shown.len(), |i: int| package_text(shown[i]));
    let mut i: usize = 0;
    while i < packages.len()
        invariant
            i <= packages.len(),
            shown == packages.deep_view(),
            texts == Seq::new(shown.len(), |i: int| package_text(shown[i])),
            r@ == joined(texts, " "@, i as nat),
        decreases packages.len() - i,
    {
        if i > 0 {
            r.append(" ");
        }
        r.append(packages[i].to_string().as_str());
        i += 1;
    }
    r
}

impl NumngError {
    /// The message of the error, for a person to read.
    pub fn to_string(&self) -> (r: String)
        ensures
            r@ == error_text(self@),
    {
        match self {
            NumngError::ExternalCommandIO(error) => {
                let mut r = owned("External command failed due to a IO error: ");
                r.append(error.as_str());
                r
            },
            NumngError::ExternalCommandExitcode { command, stdout, stderr, exitcode } => {
                let mut r = owned("External command (");
                r.append(command.as_str());
                r.append(") failed (exitcode: ");
                push_chars(&mut r, &integer_digits(*exitcode));
                r.append("). STDOUT:\n\n");
                r.append(stdout.as_str());
                r.append("\n\nSTDERR:\n\n");
                r.append(stderr.as_str());
                r.append("\n\n");
                r
            },
            NumngError::InvalidPackageFieldValue { package_name, field, value } => {
                let mut r = owned("Package definition for ");
                r.append(unknown_or(package_name).as_str());
                r.append(" is faulty. field ");
                r.append(field.as_str());
                match value {
                    Some(v) => {
                        r.append(" contains value ");
                        r.append(v.as_str());
                    },
                    None => {
                        r.append(" is null");
                    },
                }
                r
            },
            NumngError::NotImplemented(s) => {
                let mut r = owned("Feature not yet implemented: ");
                r.append(s.as_str());
                r
            },
            NumngError::SecurityError(s) => {
                let mut r = owned("A potential security issue or bug was spotted: ");
                r.append(s.as_str());
                r
            },
            NumngError::IoError(error) => {
                let mut r = owned("An IO-Error occured: ");
                r.append(error.as_str());
                r
            },
            NumngError::InvalidSemVer { semver, issue } => {
                let mut r = owned("Invalid semantic version: ");
                r.append(semver.as_str());
                r.append(" (");
                r.append(issue.as_str());
                r.append(")");
                r
            },
            NumngError::InvalidJsonError(error) => {
                let mut r = owned("Failed to parse json: ");
                r.append(error.as_str());
                r
            },
            NumngError::InvalidRegistryFormat(path, s) => {
                let mut r = owned("A registry does not follow the specification. location: ");
                r.append(path.as_str());
                r.append("; problem: ");
                r.append(s.as_str());
                r
            },
            NumngError::UnableToFetchResourceInOfflineMode(error) => {
                let mut r = owned("Unable to complete operating in offline mode: ");
                r.append(error.as_str());
                r
            },
            NumngError::NupmHomeAlreadyExists(path) => {
                let mut r = owned("Nupm Home already exists and overwriting is disabled: ");
                r.append(path.as_str());
                r
            },
            NumngError::BuildCommandBlocked(package) => {
                let mut r = owned("Unable to build package (Build commands disabled): ");
                r.append(package.to_string().as_str());
                r
            },
            NumngError::CircularDependencies(packages) => {
                let mut r = owned(
                    "Failed to build (circular dependencies?). Packages, which can't be built: ",
                );
                r.append(packages_to_string(packages).as_str());
                r
            },
        }
    }
}

} // verus!
