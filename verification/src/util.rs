// Names that are safe in the file system, paths, and child processes.
use crate::numng_error::{NumngError, NumngErrorView};
use crate::plain::Plain;
use crate::text::{chars_of, owned, push_char, push_chars};
use std::str::Chars;
use vstd::prelude::*;
use vstd::std_specs::iter::IteratorSpec;

verus! {

/// Whether `c` may stand unchanged in a file or directory name: an ASCII
/// letter or digit, `_`, `-`, `.` or a blank.
pub open spec fn is_filesystem_safe_char(c: char) -> bool {
    ('A' <= c && c <= 'Z') || ('a' <= c && c <= 'z') || ('0' <= c && c <= '9') || c == '_'
        || c == '-' || c == '.' || c == ' '
}

/// The character that stands for `c` in a file or directory name.
pub open spec fn safe_char(c: char) -> char {
    if is_filesystem_safe_char(c) {
        c
    } else {
        '_'
    }
}

/// The text in which every character that is not safe in a file name is
/// replaced by `_`.
pub open spec fn safe_text(s: Seq<char>) -> Seq<char> {
    Seq::new(s.len(), |i: int| safe_char(s[i]))
}

/// Escaped text holds safe characters only, as many as the text had, and
/// escaping it again changes nothing.
pub proof fn lemma_safe_text(s: Seq<char>)
    ensures
        safe_text(s).len() == s.len(),
        forall|i: int| 0 <= i < s.len() ==> is_filesystem_safe_char(#[trigger] safe_text(s)[i]),
        safe_text(safe_text(s)) == safe_text(s),
{
}

/// The character that stands for `c` in a file or directory name.
pub fn escape_char(c: char) -> (r: char)
    ensures
        r == safe_char(c),
{
    if (c >= 'A' && c <= 'Z') || (c >= 'a' && c <= 'z') || (c >= '0' && c <= '9') || c == '_'
        || c == '-' || c == '.' || c == ' ' {
        c
    } else {
        '_'
    }
}

/// Escapes characters so that the text can serve as a file or directory name.
pub fn escape_chars(text: &Vec<char>) -> (r: Vec<char>)
    ensures
        r@ == safe_text(text@),
{
    let mut r: Vec<char> = Vec::new();
    let mut i: usize = 0;
    while i < text.len()
        invariant
            i <= text.len(),
            r@ == safe_text(text@.take(i as int)),
        decreases text.len() - i,
    {
        r.push(escape_char(text[i]));
        i += 1;
    }
    r
}

/// The text that an iterator over characters has not yet given out.
///
/// Trusted: calls `Chars::as_str`, which the standard library documents as
/// the view of the underlying data that is left; its characters are the
/// ones that the iterator is going to give.
#[verifier::external_body]
fn rest_of<'a>(text: &Chars<'a>) -> (r: &'a str)
    ensures
        r@ == text.remaining(),
{
    text.as_str()
}

/// Replaces every character outside `[A-Za-z0-9_\-. ]` by `_`.
pub fn filesystem_safe(text: Chars<'_>) -> (r: String)
    ensures
        r@ == safe_text(text.remaining()),
        r@.len() == text.remaining().len(),
        forall|i: int| 0 <= i < r@.len() ==> is_filesystem_safe_char(#[trigger] r@[i]),
{
    let escaped = escape_chars(&chars_of(rest_of(&text)));
    let mut r = String::new();
    push_chars(&mut r, &escaped);
    proof {
        lemma_safe_text(text.remaining());
    }
    r
}

/// The path `rel` as seen from the directory `base`.
///
/// A `rel` that starts with `/` stands for itself. Any other is put behind
/// `base`, with a `/` between the two unless `base` is empty or ends in one.
pub open spec fn path_join(base: Seq<char>, rel: Seq<char>) -> Seq<char> {
    if rel.len() > 0 && rel[0] == '/' {
        rel
    } else if base.len() == 0 || base.last() == '/' {
        base + rel
    } else {
        base.push('/') + rel
    }
}

/// The path `rel` as seen from the directory `base`.
pub fn join_path(base: &str, rel: &str) -> (r: String)
    ensures
        r@ == path_join(base@, rel@),
{
    let head = chars_of(base);
    let tail = chars_of(rel);
    if tail.len() > 0 && tail[0] == '/' {
        return owned(rel);
    }
    let mut r = owned(base);
    if head.len() > 0 && head[head.len() - 1] != '/' {
        push_char(&mut r, '/');
    }
    r.append(rel);
    r
}

/// A child process to run: the program, its arguments, and the directory in
/// which it runs.
#[derive(Debug, PartialEq, Eq)]
pub struct Command {
    pub program: String,
    pub args: Vec<String>,
    pub current_dir: String,
}

/// What a `Command` holds, as mathematical values.
pub struct CommandView {
    pub program: Seq<char>,
    pub args: Seq<Seq<char>>,
    pub current_dir: Seq<char>,
}

impl View for Command {
    type V = CommandView;

    open spec fn view(&self) -> CommandView {
        CommandView {
            program: self.program@,
            args: self.args.deep_view(),
            current_dir: self.current_dir@,
        }
    }
}

impl DeepView for Command {
    type V = CommandView;

    open spec fn deep_view(&self) -> CommandView {
        self.view()
    }
}

impl Plain for Command {
    fn same(&self, other: &Self) -> (r: bool) {
        self.program.same(&other.program) && self.args.same(&other.args) && self.current_dir.same(
            &other.current_dir,
        )
    }

    fn copy(&self) -> (r: Self) {
        Command {
            program: self.program.copy(),
            args: self.args.copy(),
            current_dir: self.current_dir.copy(),
        }
    }
}

impl Clone for Command {
    fn clone(&self) -> (r: Self)
        ensures
            r@ == self@,
    {
        self.copy()
    }
}

/// How a child process ended.
#[derive(Debug, PartialEq, Eq)]
pub struct CommandOutput {
    /// Whether the process reported success.
    pub success: bool,
    /// The exit code, if the process ended with one.
    pub code: Option<i32>,
    pub stdout: String,
    pub stderr: String,
}

/// The error that a finished child process stands for, if any.
///
/// `output` is how the process ended, or the system's message if it could
/// not be started. A process that could not be started, and one that did not
/// report success, are errors; the second one carries the command as it was
/// written for the message, both output streams, and the exit code, or -1
/// where there is none.
pub open spec fn command_error(
    command: Seq<char>,
    output: Result<CommandOutput, String>,
) -> Option<NumngErrorView> {
    match output {
        Err(message) => Some(NumngErrorView::ExternalCommandIO(message@)),
        Ok(output) => if output.success {
            None
        } else {
            Some(
                NumngErrorView::ExternalCommandExitcode {
                    command,
                    stdout: output.stdout@,
                    stderr: output.stderr@,
                    exitcode: match output.code {
                        Some(code) => code,
                        None => -1i32,
                    },
                },
            )
        },
    }
}

/// Judges how a child process ended.
pub fn try_run_command(command: &str, output: Result<CommandOutput, String>) -> (r: Result<
    (),
    NumngError,
>)
    ensures
        match r {
            Ok(_) => command_error(command@, output) is None,
            Err(e) => command_error(command@, output) == Some(e@),
        },
{
    match output {
        Err(message) => Err(NumngError::ExternalCommandIO(message)),
        Ok(output) => {
            if output.success {
                Ok(())
            } else {
                Err(
                    NumngError::ExternalCommandExitcode {
                        command: owned(command),
                        stdout: output.stdout,
                        stderr: output.stderr,
                        exitcode: match output.code {
                            Some(code) => code,
                            None => -1,
                        },
                    },
                )
            }
        },
    }
}

} // verus!
