//! Discovery of the current checkout through the external `git` executable.
//!
//! The commands are run elsewhere. Discovery is a walk over [`GitStep`]: each step
//! names the command to run, and [`GitContext::discover`] takes what it gave to the
//! next step or to the result.

use vstd::prelude::*;

use crate::outside;
use crate::rpc;
use crate::text;

verus! {

/// Discovering Git state from the current checkout failed.
#[derive(Debug, PartialEq, Eq)]
#[non_exhaustive]
pub enum GitError {
    /// The `git` executable is unavailable.
    Unavailable(String),
    /// A Git process could not be spawned or waited on.
    CommandIo {
        /// Description of the attempted operation.
        operation: &'static str,
        /// Underlying process error.
        source: String,
    },
    /// A Git process did not end in time.
    TimedOut {
        /// Description of the attempted operation.
        operation: &'static str,
        /// Time that the process was given, in milliseconds.
        timeout_ms: u64,
        /// What went wrong when the process was ended, if anything.
        cleanup: String,
    },
    /// The starting path is not inside a Git working tree.
    NotRepository {
        /// Path from which discovery started.
        start: String,
        /// Diagnostic emitted by Git.
        stderr: String,
    },
    /// Git returned a non-zero exit status.
    CommandFailed {
        /// Description of the attempted operation.
        operation: &'static str,
        /// Portable process exit code, when available.
        status: Option<i32>,
        /// Diagnostic emitted by Git.
        stderr: String,
    },
    /// Git emitted output that is not valid UTF-8.
    InvalidUtf8 {
        /// Description of the attempted operation.
        operation: &'static str,
        /// What keeps the output from being UTF-8.
        source: String,
    },
    /// Git emitted no usable value for a required field.
    EmptyOutput {
        /// Description of the attempted operation.
        operation: &'static str,
    },
    /// The commit identifier emitted by Git is malformed.
    InvalidCommit(String),
}

/// What a finished Git process left.
#[derive(Debug, PartialEq, Eq)]
pub struct GitOutput {
    /// Whether the process ended with success.
    pub success: bool,
    /// Portable process exit code, when available.
    pub code: Option<i32>,
    /// Standard output, or what keeps it from being UTF-8.
    pub stdout: Result<String, String>,
    /// Standard error, without surrounding white space.
    pub stderr: String,
}

impl GitOutput {
    /// What a finished Git process left, from the bytes that it wrote.
    pub fn from_bytes(success: bool, code: Option<i32>, stdout: Vec<u8>, stderr: &[u8]) -> (r: GitOutput)
        ensures
            r.success == success,
            r.code == code,
            match r.stdout {
                Ok(s) => vstd::utf8::valid_utf8(stdout@) && s@ == vstd::utf8::decode_utf8(stdout@),
                Err(e) => !vstd::utf8::valid_utf8(stdout@) && e@ == outside::utf8_error_text(stdout@),
            },
            r.stderr@ == text::trimmed(outside::lossy_text(stderr@)),
    {
        let stdout = outside::utf8_decode(stdout);
        let stderr = text::trim(outside::utf8_lossy(stderr).as_str());
        GitOutput { success, code, stdout, stderr }
    }
}

/// Git state that affects source selection and environment naming.
#[derive(Clone, Debug, PartialEq, Eq)]
pub struct GitContext {
    repo_root: String,
    branch: String,
    commit: Option<String>,
    detached: bool,
    dirty: bool,
}

/// The model of [`GitContext`].
pub struct GitV {
    pub repo_root: Seq<char>,
    pub branch: Seq<char>,
    pub commit: Option<Seq<char>>,
    pub detached: bool,
    pub dirty: bool,
}

impl View for GitContext {
    type V = GitV;

    closed spec fn view(&self) -> GitV {
        GitV {
            repo_root: self.repo_root@,
            branch: self.branch@,
            commit: text::option_of(self.commit),
            detached: self.detached,
            dirty: self.dirty,
        }
    }
}

/// A place in discovery, with what is known there.
#[derive(Debug, PartialEq, Eq)]
pub enum GitStep {
    /// The repository root is asked for.
    Root,
    /// The branch is asked for.
    Branch { root: String },
    /// The commit of an attached checkout is asked for.
    Attached { root: String, branch: String },
    /// The commit of a detached checkout is asked for.
    Detached { root: String },
    /// The state of the working tree is asked for.
    Status { root: String, branch: String, commit: Option<String>, detached: bool },
}

/// What follows a step.
#[derive(Debug, PartialEq, Eq)]
pub enum GitProgress {
    /// Another command is to be run.
    Continue(GitStep),
    /// Discovery is over.
    Finished(Result<GitContext, GitError>),
}

/// What a step is doing, in words.
pub open spec fn step_operation(step: GitStep) -> Seq<char> {
    match step {
        GitStep::Root => "finding repository root"@,
        GitStep::Branch { .. } => "finding current branch"@,
        GitStep::Attached { .. } => "finding current commit"@,
        GitStep::Detached { .. } => "finding detached commit"@,
        GitStep::Status { .. } => "checking working-tree status"@,
    }
}

/// A commit identifier: at least twelve hexadecimal digits.
pub open spec fn is_commit(s: Seq<char>) -> bool {
    text::utf8_len(s) >= 12 && text::all_hex(s)
}

/// The output of a command without the line ends it ends with.
pub open spec fn output_text(output: GitOutput) -> Option<Seq<char>> {
    match output.stdout {
        Ok(s) => Some(text::without_line_end(s@)),
        Err(_) => None,
    }
}

/// The error for output that is no text, or no text where one is needed.
pub open spec fn output_error(progress: GitProgress, output: GitOutput, operation: Seq<char>) -> bool {
    match (progress, output_text(output)) {
        (GitProgress::Finished(Err(GitError::InvalidUtf8 { operation: o, source })), None) => o@ == operation
            && output.stdout == Err::<String, String>(source),
        (GitProgress::Finished(Err(GitError::EmptyOutput { operation: o })), Some(s)) => o@ == operation
            && s.len() == 0,
        _ => false,
    }
}

/// What follows the output of a command that ended with success.
pub open spec fn after_success(step: GitStep, output: GitOutput, progress: GitProgress) -> bool {
    match output_text(output) {
        None => output_error(progress, output, step_operation(step)),
        Some(s) => match step {
            GitStep::Status { root, branch, commit, detached } => {
                &&& progress matches GitProgress::Finished(Ok(context))
                &&& context@ == (GitV {
                    repo_root: root@,
                    branch: branch@,
                    commit: text::option_of(commit),
                    detached,
                    dirty: s.len() > 0,
                })
            },
            _ => if s.len() == 0 {
                output_error(progress, output, step_operation(step))
            } else {
                match step {
                    GitStep::Root => progress matches GitProgress::Continue(GitStep::Branch { root })
                        && root@ == s,
                    GitStep::Branch { root } => progress matches GitProgress::Continue(
                        GitStep::Attached { root: r, branch },
                    ) && r@ == root@ && branch@ == s,
                    GitStep::Attached { root, branch } => if is_commit(s) {
                        progress matches GitProgress::Continue(
                            GitStep::Status { root: r, branch: b, commit: Some(c), detached: false },
                        ) && r@ == root@ && b@ == branch@ && c@ == text::lowered(s)
                    } else {
                        progress matches GitProgress::Finished(Err(GitError::InvalidCommit(c))) && c@ == s
                    },
                    GitStep::Detached { root } => if is_commit(s) {
                        progress matches GitProgress::Continue(
                            GitStep::Status { root: r, branch: b, commit: Some(c), detached: true },
                        ) && r@ == root@ && b@ == "sha-"@ + text::lowered(s).subrange(0, 12) && c@
                            == text::lowered(s)
                    } else {
                        progress matches GitProgress::Finished(Err(GitError::InvalidCommit(c))) && c@ == s
                    },
                    GitStep::Status { .. } => false,
                }
            },
        },
    }
}

/// What follows a command that ended without success.
pub open spec fn after_failure(
    start: Seq<char>,
    step: GitStep,
    output: GitOutput,
    progress: GitProgress,
) -> bool {
    match step {
        GitStep::Root => progress matches GitProgress::Finished(
            Err(GitError::NotRepository { start: s, stderr }),
        ) && s@ == start && stderr@ == output.stderr@,
        GitStep::Branch { root } => progress matches GitProgress::Continue(
            GitStep::Detached { root: r },
        ) && r@ == root@,
        GitStep::Attached { root, branch } => progress matches GitProgress::Continue(
            GitStep::Status { root: r, branch: b, commit: None, detached: false },
        ) && r@ == root@ && b@ == branch@,
        _ => progress matches GitProgress::Finished(
            Err(GitError::CommandFailed { operation, status, stderr }),
        ) && operation@ == step_operation(step) && status == output.code && stderr@ == output.stderr@,
    }
}

/// The output of a command as a text without the line ends it ends with.
fn decode_stdout(stdout: Result<String, String>, operation: &'static str) -> (r: Result<String, GitError>)
    ensures
        match (r, stdout) {
            (Ok(t), Ok(s)) => t@ == text::without_line_end(s@),
            (Err(e), Err(source)) => e == (GitError::InvalidUtf8 { operation, source }),
            _ => false,
        },
{
    match stdout {
        Ok(s) => Ok(text::trim_line_end(s.as_str())),
        Err(source) => Err(GitError::InvalidUtf8 { operation, source }),
    }
}

/// Tests a commit identifier.
pub fn validate_commit(commit: String) -> (r: Result<String, GitError>)
    ensures
        match r {
            Ok(c) => is_commit(commit@) && c@ == text::lowered(commit@),
            Err(GitError::InvalidCommit(c)) => !is_commit(commit@) && c@ == commit@,
            Err(_) => false,
        },
{
    if text::byte_len(commit.as_str()) >= 12 && text::all_hex_digits(commit.as_str()) {
        Ok(text::to_lower(commit.as_str()))
    } else {
        Err(GitError::InvalidCommit(commit))
    }
}

/// The first twelve characters of a commit identifier behind `sha-`.
fn detached_name(commit: &str) -> (r: String)
    requires
        commit@.len() >= 12,
    ensures
        r@ == "sha-"@ + commit@.subrange(0, 12),
{
    let chars = text::chars_of(commit);
    text::cat2("sha-", text::string_of(&chars, 0, 12).as_str())
}

/// A text of hexadecimal digits has as many characters as bytes.
proof fn lemma_commit_len(s: Seq<char>)
    requires
        is_commit(s),
    ensures
        s.len() >= 12,
        text::lowered(s).len() == s.len(),
{
    assert(vstd::utf8::is_ascii_chars(s)) by {
        assert forall|i: int| 0 <= i < s.len() implies 0 <= s[i] as int && s[i] as int <= 127 by {
            assert(text::is_hex(s[i]));
        }
    }
    vstd::utf8::is_ascii_chars_encode_utf8(s);
}

impl GitStep {
    /// The words after `git` for a step, but for the directory to run in.
    pub fn arguments(&self) -> (r: Vec<&'static str>)
        ensures
            match *self {
                GitStep::Root => r@ =~= seq!["rev-parse", "--show-toplevel"],
                GitStep::Branch { .. } => r@ =~= seq!["symbolic-ref", "--quiet", "--short", "HEAD"],
                GitStep::Attached { .. } => r@ =~= seq!["rev-parse", "--verify", "HEAD"],
                GitStep::Detached { .. } => r@ =~= seq!["rev-parse", "--verify", "HEAD"],
                GitStep::Status { .. } => r@ =~= seq![
                    "status",
                    "--porcelain",
                    "--untracked-files=normal",
                ],
            },
    {
        let mut out: Vec<&'static str> = Vec::new();
        match self {
            GitStep::Root => {
                out.push("rev-parse");
                out.push("--show-toplevel");
            },
            GitStep::Branch { .. } => {
                out.push("symbolic-ref");
                out.push("--quiet");
                out.push("--short");
                out.push("HEAD");
            },
            GitStep::Attached { .. } | GitStep::Detached { .. } => {
                out.push("rev-parse");
                out.push("--verify");
                out.push("HEAD");
            },
            GitStep::Status { .. } => {
                out.push("status");
                out.push("--porcelain");
                out.push("--untracked-files=normal");
            },
        }
        out
    }

    /// What a step is doing, in words.
    pub fn operation(&self) -> (r: &'static str)
        ensures
            r@ == step_operation(*self),
    {
        match self {
            GitStep::Root => "finding repository root",
            GitStep::Branch { .. } => "finding current branch",
            GitStep::Attached { .. } => "finding current commit",
            GitStep::Detached { .. } => "finding detached commit",
            GitStep::Status { .. } => "checking working-tree status",
        }
    }
}

impl GitContext {
    /// Takes the outcome of the command of a step to what follows it.
    ///
    /// This intentionally leaves repository semantics to the user's Git executable
    /// rather than parsing `.git` files. A detached checkout is named
    /// `sha-<first 12 commit characters>`.
    pub fn discover(start: &str, step: GitStep, outcome: Result<GitOutput, GitError>) -> (r: GitProgress)
        ensures
            match outcome {
                Err(error) => r == GitProgress::Finished(Err(error)),
                Ok(output) => if output.success {
                    after_success(step, output, r)
                } else {
                    after_failure(start@, step, output, r)
                },
            },
    {
        let operation = step.operation();
        let output = match outcome {
            Ok(output) => output,
            Err(error) => return GitProgress::Finished(Err(error)),
        };
        if !output.success {
            return match step {
                GitStep::Root => GitProgress::Finished(
                    Err(GitError::NotRepository { start: start.to_owned(), stderr: output.stderr }),
                ),
                GitStep::Branch { root } => GitProgress::Continue(GitStep::Detached { root }),
                GitStep::Attached { root, branch } => GitProgress::Continue(
                    GitStep::Status { root, branch, commit: None, detached: false },
                ),
                GitStep::Detached { .. } | GitStep::Status { .. } => GitProgress::Finished(
                    Err(
                        GitError::CommandFailed { operation, status: output.code, stderr: output.stderr },
                    ),
                ),
            };
        }
        let found = match decode_stdout(output.stdout, operation) {
            Ok(s) => s,
            Err(error) => return GitProgress::Finished(Err(error)),
        };
        let empty = found.as_str().is_empty();
        match step {
            GitStep::Status { root, branch, commit, detached } => GitProgress::Finished(
                Ok(GitContext { repo_root: root, branch, commit, detached, dirty: !empty }),
            ),
            GitStep::Root => if empty {
                GitProgress::Finished(Err(GitError::EmptyOutput { operation }))
            } else {
                GitProgress::Continue(GitStep::Branch { root: found })
            },
            GitStep::Branch { root } => if empty {
                GitProgress::Finished(Err(GitError::EmptyOutput { operation }))
            } else {
                GitProgress::Continue(GitStep::Attached { root, branch: found })
            },
            GitStep::Attached { root, branch } => if empty {
                GitProgress::Finished(Err(GitError::EmptyOutput { operation }))
            } else {
                match validate_commit(found) {
                    Ok(commit) => GitProgress::Continue(
                        GitStep::Status { root, branch, commit: Some(commit), detached: false },
                    ),
                    Err(error) => GitProgress::Finished(Err(error)),
                }
            },
            GitStep::Detached { root } => if empty {
                GitProgress::Finished(Err(GitError::EmptyOutput { operation }))
            } else {
                let ghost raw = found@;
                match validate_commit(found) {
                    Ok(commit) => {
                        proof {
                            lemma_commit_len(raw);
                        }
                        let branch = detached_name(commit.as_str());
                        GitProgress::Continue(
                            GitStep::Status { root, branch, commit: Some(commit), detached: true },
                        )
                    },
                    Err(error) => GitProgress::Finished(Err(error)),
                }
            },
        }
    }

    /// Returns the absolute Git worktree root.
    pub fn repo_root(&self) -> (r: &str)
        ensures
            r@ == self@.repo_root,
    {
        self.repo_root.as_str()
    }

    /// Returns the raw branch name, or `sha-<12>` for detached HEAD.
    pub fn branch(&self) -> (r: &str)
        ensures
            r@ == self@.branch,
    {
        self.branch.as_str()
    }

    /// Returns the full commit identifier when the repository has a commit.
    ///
    /// An attached, unborn branch has no commit and returns `None`.
    pub fn commit(&self) -> (r: Option<&str>)
        ensures
            match (r, self@.commit) {
                (Some(s), Some(t)) => s@ == t,
                (None, None) => true,
                _ => false,
            },
    {
        match &self.commit {
            Some(commit) => Some(commit.as_str()),
            None => None,
        }
    }

    /// Returns whether HEAD is detached.
    pub fn is_detached(&self) -> (r: bool)
        ensures
            r == self@.detached,
    {
        self.detached
    }

    /// Returns whether tracked or untracked working-tree changes exist.
    ///
    /// Dirty state is informational and is deliberately excluded from the identity
    /// of an environment.
    pub fn is_dirty(&self) -> (r: bool)
        ensures
            r == self@.dirty,
    {
        self.dirty
    }
}

impl GitError {
    /// Describes the error to a person.
    pub fn message(&self) -> (r: String)
        ensures
            match *self {
                GitError::Unavailable(source) => r@ == "Git is required but could not be executed: "@ + source@,
                GitError::CommandIo { operation, source } => r@ == "failed to run Git while "@ + operation@
                    + ": "@ + source@,
                GitError::TimedOut { operation, timeout_ms, cleanup } => r@ == "Git timed out while "@
                    + operation@ + " after "@ + rpc::duration_text(timeout_ms as nat) + cleanup@,
                GitError::NotRepository { start, stderr } => r@ == "`"@ + start@
                    + "` is not inside a Git working tree: "@ + stderr@,
                GitError::CommandFailed { operation, status, stderr } => r@ == "Git failed while "@
                    + operation@ + " (exit "@ + exit_text(status) + "): "@ + stderr@,
                GitError::InvalidUtf8 { operation, source } => r@ == "Git emitted non-UTF-8 output while "@
                    + operation@ + ": "@ + source@,
                GitError::EmptyOutput { operation } => r@ == "Git emitted empty output while "@ + operation@,
                GitError::InvalidCommit(commit) => r@ == "Git emitted an invalid commit identifier `"@
                    + commit@ + "`"@,
            },
    {
        match self {
            GitError::Unavailable(source) => text::cat2(
                "Git is required but could not be executed: ",
                source.as_str(),
            ),
            GitError::CommandIo { operation, source } => text::cat4(
                "failed to run Git while ",
                operation,
                ": ",
                source.as_str(),
            ),
            GitError::TimedOut { operation, timeout_ms, cleanup } => {
                let allowed = rpc::duration(*timeout_ms);
                text::cat5("Git timed out while ", operation, " after ", allowed.as_str(), cleanup.as_str())
            },
            GitError::NotRepository { start, stderr } => text::cat4(
                "`",
                start.as_str(),
                "` is not inside a Git working tree: ",
                stderr.as_str(),
            ),
            GitError::CommandFailed { operation, status, stderr } => {
                let code = exit_status(*status);
                let head = text::cat5("Git failed while ", operation, " (exit ", code.as_str(), "): ");
                text::cat2(head.as_str(), stderr.as_str())
            },
            GitError::InvalidUtf8 { operation, source } => text::cat4(
                "Git emitted non-UTF-8 output while ",
                operation,
                ": ",
                source.as_str(),
            ),
            GitError::EmptyOutput { operation } => text::cat2("Git emitted empty output while ", operation),
            GitError::InvalidCommit(commit) => text::cat3(
                "Git emitted an invalid commit identifier `",
                commit.as_str(),
                "`",
            ),
        }
    }
}

/// How an exit code is written: `Some(1)` or `None`.
pub open spec fn exit_text(status: Option<i32>) -> Seq<char> {
    match status {
        Some(code) => "Some("@ + text::signed_decimal(code as int) + ")"@,
        None => "None"@,
    }
}

/// Writes an exit code.
fn exit_status(status: Option<i32>) -> (r: String)
    ensures
        r@ == exit_text(status),
{
    match status {
        Some(code) => text::cat3("Some(", text::signed_number(code as i128).as_str(), ")"),
        None => "None".to_owned(),
    }
}

/// What a command of Git told, where it ended with success.
pub open spec fn told(output: GitOutput) -> Seq<char> {
    text::without_line_end(output.stdout->Ok_0@)
}

/// On a branch, discovery finds the root, the branch, the commit in lower case, and whether the
/// working tree differs from it.
pub proof fn branches_are_discovered(
    root: GitOutput,
    branch: GitOutput,
    commit: GitOutput,
    status: GitOutput,
    first: GitProgress,
    second: GitProgress,
    third: GitProgress,
    last: GitProgress,
)
    requires
        root.stdout is Ok && told(root).len() > 0,
        branch.stdout is Ok && told(branch).len() > 0,
        commit.stdout is Ok && text::utf8_len(told(commit)) >= 12 && text::all_hex(told(commit)),
        status.stdout is Ok,
        after_success(GitStep::Root, root, first),
        first matches GitProgress::Continue(step) && after_success(step, branch, second),
        second matches GitProgress::Continue(step) && after_success(step, commit, third),
        third matches GitProgress::Continue(step) && after_success(step, status, last),
    ensures
        last matches GitProgress::Finished(Ok(found)) && found@.repo_root == told(root) && found@.branch == told(
            branch,
        ) && found@.commit == Some(text::lowered(told(commit))) && !found@.detached && (found@.dirty
            <==> told(status).len() > 0),
{
    if told(commit).len() == 0 {
        reveal_strlit("");
        assert(told(commit) =~= ""@);
        assert(text::utf8_len(told(commit)) == 0);
    }
}

/// A checkout without a branch is named after the first twelve characters of its commit.
pub proof fn detached_checkouts_are_named_after_their_commit(
    start: Seq<char>,
    root: GitOutput,
    branch: GitOutput,
    commit: GitOutput,
    status: GitOutput,
    first: GitProgress,
    second: GitProgress,
    third: GitProgress,
    last: GitProgress,
)
    requires
        root.stdout is Ok && told(root).len() > 0,
        commit.stdout is Ok && text::utf8_len(told(commit)) >= 12 && text::all_hex(told(commit)),
        status.stdout is Ok,
        after_success(GitStep::Root, root, first),
        first matches GitProgress::Continue(step) && after_failure(start, step, branch, second),
        second matches GitProgress::Continue(step) && after_success(step, commit, third),
        third matches GitProgress::Continue(step) && after_success(step, status, last),
    ensures
        last matches GitProgress::Finished(Ok(found)) && found@.repo_root == told(root) && found@.branch == "sha-"@
            + text::lowered(told(commit)).subrange(0, 12) && found@.commit == Some(text::lowered(told(commit)))
            && found@.detached && (found@.dirty <==> told(status).len() > 0),
{
    if told(commit).len() == 0 {
        reveal_strlit("");
        assert(told(commit) =~= ""@);
        assert(text::utf8_len(told(commit)) == 0);
    }
}

/// A branch without a commit is discovered as such.
pub proof fn new_branches_have_no_commit(
    start: Seq<char>,
    root: GitOutput,
    branch: GitOutput,
    commit: GitOutput,
    status: GitOutput,
    first: GitProgress,
    second: GitProgress,
    third: GitProgress,
    last: GitProgress,
)
    requires
        root.stdout is Ok && told(root).len() > 0,
        branch.stdout is Ok && told(branch).len() > 0,
        status.stdout is Ok,
        after_success(GitStep::Root, root, first),
        first matches GitProgress::Continue(step) && after_success(step, branch, second),
        second matches GitProgress::Continue(step) && after_failure(start, step, commit, third),
        third matches GitProgress::Continue(step) && after_success(step, status, last),
    ensures
        last matches GitProgress::Finished(Ok(found)) && found@.branch == told(branch) && found@.commit is None
            && !found@.detached,
{
}

} // verus!
