//! Mutation locks, and how often requests are repeated.

use vstd::prelude::*;

use crate::config::Isolation;
use crate::error::{error_text, CliError, CliErrorV};
use crate::protocol;
use crate::protocol::{
    LockAcquireRequest, LockAcquireResult, LockReleaseRequest, LockReleaseResult, LockScope, SecretValue,
};
use crate::rpc;
use crate::rpc::{ClientError, ErrorKind};
use crate::text;

verus! {

/// How often a request is made before its failure stands.
pub const RETRY_ATTEMPTS: u32 = 3;

/// How long the first pause between attempts is, in milliseconds.
pub const RETRY_DELAY_MS: u64 = 250;

/// How long a lock that should be held may take to be confirmed, in milliseconds.
pub const LOCK_CONTINUITY_TIMEOUT_MS: u64 = 1;

// ---------------------------------------------------------------------------
// Scope
// ---------------------------------------------------------------------------

/// What a mutation lock covers, and under which name.
///
/// Environments of one provider share one project-wide authority: separate locks would not
/// overlap, so that destroying all environments could race the creation of one.
pub open spec fn lock_scope(
    isolation: Isolation,
    all: bool,
    project_id: Seq<char>,
    environment_id: Seq<char>,
    target_plugin: Seq<char>,
) -> (LockScope, Seq<char>) {
    match isolation {
        Isolation::Project => (LockScope::Target, "target:"@ + target_plugin),
        Isolation::Environment => (LockScope::Project, project_id),
        Isolation::Machine => if all {
            (LockScope::Project, project_id)
        } else {
            (LockScope::Environment, environment_id)
        },
    }
}

/// What a mutation lock covers, and under which name.
pub fn mutation_lock_scope(
    isolation: Isolation,
    all: bool,
    project_id: &str,
    environment_id: &str,
    target_plugin: &str,
) -> (r: (LockScope, String))
    ensures
        (r.0, r.1@) == lock_scope(isolation, all, project_id@, environment_id@, target_plugin@),
{
    match isolation {
        Isolation::Project => (LockScope::Target, text::cat2("target:", target_plugin)),
        Isolation::Environment => (LockScope::Project, project_id.to_owned()),
        Isolation::Machine => if all {
            (LockScope::Project, project_id.to_owned())
        } else {
            (LockScope::Environment, environment_id.to_owned())
        },
    }
}

/// Where environments are isolated by their provider, or share a host, every mutation of a
/// project takes the same lock, so that no two of them overlap.
pub proof fn mutations_share_a_lock(
    isolation: Isolation,
    all1: bool,
    all2: bool,
    project_id: Seq<char>,
    environment1: Seq<char>,
    environment2: Seq<char>,
    target_plugin: Seq<char>,
)
    requires
        isolation != Isolation::Machine,
    ensures
        lock_scope(isolation, all1, project_id, environment1, target_plugin) == lock_scope(
            isolation,
            all2,
            project_id,
            environment2,
            target_plugin,
        ),
{
}

// ---------------------------------------------------------------------------
// Acquiring
// ---------------------------------------------------------------------------

/// A lock that an operation holds.
#[derive(Clone)]
pub struct MutationLock {
    pub plugin_id: String,
    pub environment_id: String,
    pub scope: LockScope,
    pub scope_id: String,
    pub operation_id: String,
    pub token: SecretValue,
}

/// What came of asking for a lock.
pub enum LockOutcome {
    /// The lock is held.
    Held(MutationLock),
    /// The authority cannot be reached, and a forced deletion goes on without it.
    Bypassed { warning: String },
}

/// An error that says that the lock authority cannot be reached.
pub open spec fn is_unreachable(error: ClientError) -> bool {
    error matches ClientError::Remote(remote) && remote.kind == ErrorKind::Unavailable
}

/// Tests for an error that says that the lock authority cannot be reached.
pub fn lock_authority_unreachable(error: &ClientError) -> (r: bool)
    ensures
        r == is_unreachable(*error),
{
    match error {
        ClientError::Remote(remote) => remote.kind == ErrorKind::Unavailable,
        _ => false,
    }
}

/// How long a lock is waited for, as far as a request can say.
pub open spec fn longest_wait(timeout_ms: u128) -> u64 {
    if timeout_ms <= u64::MAX {
        timeout_ms as u64
    } else {
        u64::MAX
    }
}

/// How long a lock is waited for, as far as a request can say.
fn wait(timeout_ms: u128) -> (r: u64)
    ensures
        r == longest_wait(timeout_ms),
{
    if timeout_ms <= u64::MAX as u128 {
        timeout_ms as u64
    } else {
        u64::MAX
    }
}

/// A request for a lock: for the environment and the operation, as long as one may wait, and
/// without an end of its own.
pub open spec fn asks_for_lock(
    request: LockAcquireRequest,
    environment_id: Seq<char>,
    operation_id: Seq<char>,
    timeout_ms: u128,
) -> bool {
    &&& request.environment_id@ == environment_id
    &&& request.operation_id@ == operation_id
    &&& request.timeout_ms == longest_wait(timeout_ms)
    &&& request.lease_ms is None
}

/// A lock that was granted, with what gives it back.
pub open spec fn is_granted(answer: LockAcquireResult) -> bool {
    answer.acquired && answer.token is Some
}

/// A lock that is still the same.
pub open spec fn is_still_held(answer: LockAcquireResult, held: Seq<char>) -> bool {
    answer.acquired && (answer.token matches Some(token) && token@ == held)
}

/// Asks for a lock, where the target plugin provides locks.
pub fn lock_request(
    plugin_id: &str,
    capabilities: &Vec<protocol::Capability>,
    isolation: Isolation,
    all: bool,
    project_id: &str,
    environment_id: &str,
    operation_id: &str,
    timeout_ms: u128,
) -> (r: Result<LockAcquireRequest, CliError>)
    ensures
        match r {
            Ok(request) => {
                &&& protocol::offers_capability(capabilities@, protocol::Capability::OperationLock)
                &&& request.environment_id@ == environment_id@
                &&& (request.scope, request.scope_id@) == lock_scope(
                    isolation,
                    all,
                    project_id@,
                    environment_id@,
                    plugin_id@,
                )
                &&& request.operation_id@ == operation_id@
                &&& request.timeout_ms == longest_wait(timeout_ms)
                &&& request.lease_ms is None
            },
            Err(e) => !protocol::offers_capability(capabilities@, protocol::Capability::OperationLock) && e@
                == CliErrorV::Plugin(
                "target plugin `"@ + plugin_id@ + "` does not provide authoritative operation locks"@,
            ),
        },
        r matches Ok(request) ==> asks_for_lock(request, environment_id@, operation_id@, timeout_ms),
{
    if !protocol::has_capability(capabilities, &protocol::Capability::OperationLock) {
        return Err(
            CliError::Plugin(
                text::cat3(
                    "target plugin `",
                    plugin_id,
                    "` does not provide authoritative operation locks",
                ),
            ),
        );
    }
    let (scope, scope_id) = mutation_lock_scope(isolation, all, project_id, environment_id, plugin_id);
    Ok(
        LockAcquireRequest {
            environment_id: environment_id.to_owned(),
            scope,
            scope_id,
            operation_id: operation_id.to_owned(),
            timeout_ms: wait(timeout_ms),
            lease_ms: None,
        },
    )
}

/// A text after another, where there is one.
pub open spec fn suffixed(words: Seq<char>, s: Option<Seq<char>>) -> Seq<char> {
    match s {
        Some(s) => words + s,
        None => Seq::empty(),
    }
}

/// A text after another, where there is one.
fn suffix(words: &str, s: &Option<String>) -> (r: String)
    ensures
        r@ == suffixed(words@, text::option_of(*s)),
{
    match s {
        Some(s) => text::cat2(words, s.as_str()),
        None => String::new(),
    }
}

/// A lock of a request, with the token that releases it.
pub open spec fn is_lock_of(lock: MutationLock, plugin_id: Seq<char>, request: LockAcquireRequest, token: Seq<char>) -> bool {
    &&& lock.plugin_id@ == plugin_id
    &&& lock.environment_id@ == request.environment_id@
    &&& lock.scope == request.scope
    &&& lock.scope_id@ == request.scope_id@
    &&& lock.operation_id@ == request.operation_id@
    &&& lock.token@ == token
}

/// Decides on the answer to a request for a lock. Only a forced deletion goes on without a
/// lock, and only where its authority cannot be reached.
pub fn accept_lock(
    plugin_id: &str,
    request: &LockAcquireRequest,
    answer: Result<LockAcquireResult, ClientError>,
    force: bool,
) -> (r: Result<LockOutcome, CliError>)
    ensures
        match (answer, r) {
            (Err(error), Ok(LockOutcome::Bypassed { warning })) => force && is_unreachable(error) && warning@
                == "warning: target lock authority is unreachable; continuing forced machine deletion: "@
                + error.text(),
            (Err(error), Err(e)) => !(force && is_unreachable(error)) && e@ == CliErrorV::Plugin(error.text()),
            (Ok(result), Ok(LockOutcome::Held(lock))) => result.acquired && (result.token matches Some(token)
                && is_lock_of(lock, plugin_id@, *request, token@)),
            (Ok(result), Err(e)) => if !result.acquired {
                e@ == CliErrorV::Operation(
                    "environment lock is held"@ + suffixed(" by "@, text::option_of(result.holder))
                        + "; retry later or increase `--lock-timeout`"@,
                )
            } else {
                result.token is None && e@ == CliErrorV::Plugin(
                    "target plugin `"@ + plugin_id@ + "` acquired a lock without a release token"@,
                )
            },
            _ => false,
        },
        r matches Ok(LockOutcome::Held(_)) <==> (answer matches Ok(result) && is_granted(result)),
{
    let result = match answer {
        Ok(result) => result,
        Err(error) => {
            if force && lock_authority_unreachable(&error) {
                return Ok(
                    LockOutcome::Bypassed {
                        warning: text::cat2(
                            "warning: target lock authority is unreachable; continuing forced machine deletion: ",
                            error.message().as_str(),
                        ),
                    },
                );
            }
            return Err(CliError::Plugin(error.message()));
        },
    };
    if !result.acquired {
        return Err(
            CliError::Operation(
                text::cat3(
                    "environment lock is held",
                    suffix(" by ", &result.holder).as_str(),
                    "; retry later or increase `--lock-timeout`",
                ),
            ),
        );
    }
    match result.token {
        None => Err(
            CliError::Plugin(
                text::cat3(
                    "target plugin `",
                    plugin_id,
                    "` acquired a lock without a release token",
                ),
            ),
        ),
        Some(token) => Ok(
            LockOutcome::Held(
                MutationLock {
                    plugin_id: plugin_id.to_owned(),
                    environment_id: request.environment_id.clone(),
                    scope: request.scope,
                    scope_id: request.scope_id.clone(),
                    operation_id: request.operation_id.clone(),
                    token,
                },
            ),
        ),
    }
}

// ---------------------------------------------------------------------------
// Continuity
// ---------------------------------------------------------------------------

/// Whether a lock is still the one that was acquired.
#[derive(Eq, PartialEq)]
pub enum LockContinuity {
    Confirmed,
    NotAcquired { holder: Option<String> },
    MissingToken,
    TokenMismatch { unexpected: SecretValue },
}

/// Decides whether a lock is still the one that was acquired: only the exact token says so.
pub fn classify_lock_continuity(result: LockAcquireResult, expected_token: &SecretValue) -> (r: LockContinuity)
    ensures
        match r {
            LockContinuity::Confirmed => result.acquired && (result.token matches Some(token) && token@
                == expected_token@),
            LockContinuity::NotAcquired { holder } => !result.acquired && holder == result.holder,
            LockContinuity::MissingToken => result.acquired && result.token is None,
            LockContinuity::TokenMismatch { unexpected } => result.acquired && unexpected@ != expected_token@
                && result.token == Some(unexpected),
        },
{
    if !result.acquired {
        return LockContinuity::NotAcquired { holder: result.holder };
    }
    match result.token {
        None => LockContinuity::MissingToken,
        Some(token) => if text::same(token.expose_secret(), expected_token.expose_secret()) {
            LockContinuity::Confirmed
        } else {
            LockContinuity::TokenMismatch { unexpected: token }
        },
    }
}

/// Asks for a lock that should be held.
pub fn reassert_request(lock: &MutationLock) -> (r: LockAcquireRequest)
    ensures
        r.environment_id@ == lock.environment_id@,
        r.scope == lock.scope,
        r.scope_id@ == lock.scope_id@,
        r.operation_id@ == lock.operation_id@,
        r.timeout_ms == LOCK_CONTINUITY_TIMEOUT_MS,
        r.lease_ms is None,
{
    LockAcquireRequest {
        environment_id: lock.environment_id.clone(),
        scope: lock.scope,
        scope_id: lock.scope_id.clone(),
        operation_id: lock.operation_id.clone(),
        timeout_ms: LOCK_CONTINUITY_TIMEOUT_MS,
        lease_ms: None,
    }
}

/// The request that gives a lock back, with a token.
pub open spec fn gives_back(request: LockReleaseRequest, lock: MutationLock, token: Seq<char>) -> bool {
    &&& request.environment_id@ == lock.environment_id@
    &&& request.scope == lock.scope
    &&& request.scope_id@ == lock.scope_id@
    &&& request.operation_id@ == lock.operation_id@
    &&& request.token@ == token
}

/// Gives a lock back, with a token.
fn release_with(lock: &MutationLock, token: SecretValue) -> (r: LockReleaseRequest)
    ensures
        gives_back(r, *lock, token@),
{
    LockReleaseRequest {
        environment_id: lock.environment_id.clone(),
        scope: lock.scope,
        scope_id: lock.scope_id.clone(),
        operation_id: lock.operation_id.clone(),
        token,
    }
}

/// What follows from asking for a lock that should be held.
pub enum Reassertion {
    /// The lock is held: a mutation may go on.
    Confirmed,
    /// It is not: no mutation is attempted.
    Lost(CliError),
    /// Another lock came instead, which is given back first.
    GiveBack(LockReleaseRequest),
}

/// Decides on the answer to a request for a lock that should be held.
pub fn accept_reassertion(lock: &MutationLock, answer: Result<LockAcquireResult, ClientError>) -> (r: Reassertion)
    ensures
        match (answer, r) {
            (Err(error), Reassertion::Lost(e)) => e@ == CliErrorV::Operation(
                "mutation lock continuity check failed before a provider change; no mutation was attempted: "@
                    + error.text(),
            ),
            (Ok(result), Reassertion::Confirmed) => result.acquired && (result.token matches Some(token)
                && token@ == lock.token@),
            (Ok(result), Reassertion::Lost(e)) => if !result.acquired {
                e@ == CliErrorV::Operation(
                    "mutation lock continuity was lost before a provider change; no mutation was attempted"@
                        + suffixed("; current holder: "@, text::option_of(result.holder)),
                )
            } else {
                result.token is None && e@ == CliErrorV::Plugin(
                    "target plugin `"@ + lock.plugin_id@
                        + "` reasserted a mutation lock without a token; no mutation was attempted"@,
                )
            },
            (Ok(result), Reassertion::GiveBack(request)) => result.acquired && (result.token matches Some(token)
                && token@ != lock.token@ && gives_back(request, *lock, token@)),
            _ => false,
        },
        r is Confirmed <==> (answer matches Ok(result) && is_still_held(result, lock.token@)),
{
    let result = match answer {
        Ok(result) => result,
        Err(error) => {
            return Reassertion::Lost(
                CliError::Operation(
                    text::cat2(
                        "mutation lock continuity check failed before a provider change; no mutation was attempted: ",
                        error.message().as_str(),
                    ),
                ),
            );
        },
    };
    match classify_lock_continuity(result, &lock.token) {
        LockContinuity::Confirmed => Reassertion::Confirmed,
        LockContinuity::NotAcquired { holder } => Reassertion::Lost(
            CliError::Operation(
                text::cat2(
                    "mutation lock continuity was lost before a provider change; no mutation was attempted",
                    suffix("; current holder: ", &holder).as_str(),
                ),
            ),
        ),
        LockContinuity::MissingToken => Reassertion::Lost(
            CliError::Plugin(
                text::cat3(
                    "target plugin `",
                    lock.plugin_id.as_str(),
                    "` reasserted a mutation lock without a token; no mutation was attempted",
                ),
            ),
        ),
        LockContinuity::TokenMismatch { unexpected } => Reassertion::GiveBack(
            release_with(lock, unexpected),
        ),
    }
}

/// The failure after a lock that came instead of another was given back, or was not.
pub fn accept_give_back(answer: Result<LockReleaseResult, CliError>) -> (r: CliError)
    ensures
        r@ == CliErrorV::Operation(
            match answer {
                Ok(result) => if result.released {
                    "mutation lock continuity was lost before a provider change; the newly acquired mismatched lock was released and no mutation was attempted"@
                } else {
                    "mutation lock continuity was lost before a provider change; the target did not release the newly acquired mismatched lock and no mutation was attempted"@
                },
                Err(e) =>
                    "mutation lock continuity was lost before a provider change; releasing the newly acquired mismatched lock failed and no mutation was attempted: "@
                    + error_text(e@),
            },
        ),
{
    CliError::Operation(
        match answer {
            Ok(result) => if result.released {
                "mutation lock continuity was lost before a provider change; the newly acquired mismatched lock was released and no mutation was attempted".to_owned()
            } else {
                "mutation lock continuity was lost before a provider change; the target did not release the newly acquired mismatched lock and no mutation was attempted".to_owned()
            },
            Err(e) => text::cat2(
                "mutation lock continuity was lost before a provider change; releasing the newly acquired mismatched lock failed and no mutation was attempted: ",
                e.message().as_str(),
            ),
        },
    )
}

// ---------------------------------------------------------------------------
// Releasing
// ---------------------------------------------------------------------------

/// Gives a lock back.
pub fn release_request(lock: &MutationLock) -> (r: LockReleaseRequest)
    ensures
        gives_back(r, *lock, lock.token@),
{
    release_with(lock, lock.token.clone())
}

/// Decides on the answer to giving a lock back.
pub fn accept_release(plugin_id: &str, answer: Result<LockReleaseResult, CliError>) -> (r: Result<(), CliError>)
    ensures
        match (answer, r) {
            (Err(a), Err(b)) => a == b,
            (Ok(result), Ok(())) => result.released,
            (Ok(result), Err(e)) => !result.released && e@ == CliErrorV::Operation(
                "plugin `"@ + plugin_id@ + "` did not release the environment lock"@,
            ),
            _ => false,
        },
{
    let result = answer?;
    if result.released {
        Ok(())
    } else {
        Err(
            CliError::Operation(
                text::cat3("plugin `", plugin_id, "` did not release the environment lock"),
            ),
        )
    }
}

/// The outcome of an operation after its lock was given back, or was not: neither failure
/// hides the other.
pub fn finish_with_lock_release<T>(operation: Result<T, CliError>, release: Result<(), CliError>) -> (r: Result<
    T,
    CliError,
>)
    ensures
        match (operation, release, r) {
            (Ok(v), Ok(()), Ok(w)) => v == w,
            (Ok(_), Err(e), Err(f)) => e == f,
            (Err(e), Ok(()), Err(f)) => e == f,
            (Err(e), Err(f), Err(both)) => both@ == CliErrorV::Operation(
                error_text(e@) + "; additionally failed to release the mutation lock: "@ + error_text(f@),
            ),
            _ => false,
        },
{
    match (operation, release) {
        (Ok(v), Ok(())) => Ok(v),
        (Ok(_), Err(e)) => Err(e),
        (Err(e), Ok(())) => Err(e),
        (Err(e), Err(f)) => Err(
            CliError::Operation(
                text::cat3(
                    e.message().as_str(),
                    "; additionally failed to release the mutation lock: ",
                    f.message().as_str(),
                ),
            ),
        ),
    }
}

/// The outcome of an operation after its plugins were shut down: the operation's failure
/// comes first.
pub fn finish_with_shutdown<T>(operation: Result<T, CliError>, shutdown: Result<(), CliError>) -> (r: Result<
    T,
    CliError,
>)
    ensures
        match (operation, shutdown, r) {
            (Ok(v), Ok(()), Ok(w)) => v == w,
            (Ok(_), Err(e), Err(f)) => e == f,
            (Err(e), _, Err(f)) => e == f,
            _ => false,
        },
{
    match (operation, shutdown) {
        (Ok(v), Ok(())) => Ok(v),
        (Ok(_), Err(e)) => Err(e),
        (Err(e), _) => Err(e),
    }
}

// ---------------------------------------------------------------------------
// Repeating
// ---------------------------------------------------------------------------

/// How far a request that may be repeated got.
#[derive(Clone, Copy, Debug, PartialEq, Eq)]
pub struct Retry {
    /// The attempt that is under way, from one.
    pub attempt: u32,
    /// The next pause, in milliseconds.
    pub delay_ms: u64,
}

/// What follows from a failed attempt.
pub enum RetryStep {
    /// The request is made again after a pause.
    Again { pause_ms: u64 },
    /// The failure stands.
    Fail(CliError),
}

/// The pause that a plugin asks for.
pub open spec fn requested_pause(error: ClientError) -> Option<u64> {
    match error {
        ClientError::Remote(remote) => remote.retry_after_ms,
        _ => None,
    }
}

impl Retry {
    /// The pauses double from attempt to attempt.
    pub open spec fn wf(self) -> bool {
        ||| self.attempt == 1 && self.delay_ms == RETRY_DELAY_MS
        ||| self.attempt == 2 && self.delay_ms == 2 * RETRY_DELAY_MS
        ||| self.attempt == 3 && self.delay_ms == 4 * RETRY_DELAY_MS
    }

    /// The first attempt.
    pub fn new() -> (r: Retry)
        ensures
            r.wf(),
            r.attempt == 1,
    {
        Retry { attempt: 1, delay_ms: RETRY_DELAY_MS }
    }

    /// Decides on a failed attempt: what a repetition may mend is repeated, up to the last
    /// attempt, after the pause that the plugin asks for or one that doubles.
    pub fn failed(&mut self, error: ClientError) -> (r: RetryStep)
        requires
            old(self).wf(),
        ensures
            final(self).wf(),
            match r {
                RetryStep::Again { pause_ms } => {
                    &&& rpc::retry_may_help(error)
                    &&& old(self).attempt < RETRY_ATTEMPTS
                    &&& final(self).attempt == old(self).attempt + 1
                    &&& pause_ms == match requested_pause(error) {
                        Some(ms) => ms,
                        None => old(self).delay_ms,
                    }
                },
                RetryStep::Fail(e) => {
                    &&& !rpc::retry_may_help(error) || old(self).attempt == RETRY_ATTEMPTS
                    &&& e@ == CliErrorV::Plugin(error.text())
                    &&& *final(self) == *old(self)
                },
            },
    {
        if error.is_retryable() && self.attempt < RETRY_ATTEMPTS {
            let requested: Option<u64> = match &error {
                ClientError::Remote(remote) => remote.retry_after_ms,
                _ => None,
            };
            let pause_ms: u64 = match requested {
                Some(ms) => ms,
                None => self.delay_ms,
            };
            self.attempt = self.attempt + 1;
            self.delay_ms = self.delay_ms * 2;
            RetryStep::Again { pause_ms }
        } else {
            RetryStep::Fail(CliError::Plugin(error.message()))
        }
    }
}

/// A machine of its own is locked alone: two of its environments take different locks, and all
/// machines of a project take the project's. Projects on one shared host take the lock of the
/// host's plugin whatever the project.
pub proof fn locks_cover_what_is_changed(
    all: bool,
    project1: Seq<char>,
    project2: Seq<char>,
    environment1: Seq<char>,
    environment2: Seq<char>,
    target_plugin: Seq<char>,
)
    ensures
        lock_scope(Isolation::Machine, false, project1, environment1, target_plugin) == (
            LockScope::Environment,
            environment1,
        ),
        environment1 != environment2 ==> lock_scope(
            Isolation::Machine,
            false,
            project1,
            environment1,
            target_plugin,
        ) != lock_scope(Isolation::Machine, false, project1, environment2, target_plugin),
        lock_scope(Isolation::Machine, true, project1, environment1, target_plugin) == (
            LockScope::Project,
            project1,
        ),
        lock_scope(Isolation::Environment, all, project1, environment1, target_plugin) == (
            LockScope::Project,
            project1,
        ),
        lock_scope(Isolation::Project, all, project1, environment1, target_plugin) == lock_scope(
            Isolation::Project,
            all,
            project2,
            environment2,
            target_plugin,
        ),
        lock_scope(Isolation::Project, all, project1, environment1, target_plugin).0 == LockScope::Target,
        text::has_suffix(
            lock_scope(Isolation::Project, all, project1, environment1, target_plugin).1,
            target_plugin,
        ),
{
    let name = "target:"@ + target_plugin;
    assert(name.subrange(name.len() - target_plugin.len(), name.len() as int) =~= target_plugin);
}

/// A lock is given back under the same name, scope and operation, and with the same token, as it
/// was acquired.
pub proof fn locks_are_given_back_as_acquired(
    plugin_id: Seq<char>,
    request: LockAcquireRequest,
    token: Seq<char>,
    lock: MutationLock,
    release: LockReleaseRequest,
)
    requires
        is_lock_of(lock, plugin_id, request, token),
        gives_back(release, lock, lock.token@),
    ensures
        release.environment_id@ == request.environment_id@,
        release.scope == request.scope,
        release.scope_id@ == request.scope_id@,
        release.operation_id@ == request.operation_id@,
        release.token@ == token,
        lock.plugin_id@ == plugin_id,
{
}

/// Only an authority that says that it is unavailable counts as unreachable; a lock that another
/// holds, a timeout or a broken connection does not.
pub proof fn only_unavailable_authorities_are_bypassed(error: ClientError)
    ensures
        is_unreachable(error) ==> error is Remote,
        error matches ClientError::Remote(remote) ==> (is_unreachable(error) <==> remote.kind
            == ErrorKind::Unavailable),
        error is Timeout || error is Closed || error is Io || error is Protocol ==> !is_unreachable(error),
{
}

/// A lock is waited for as long as was asked, as far as a request can say.
pub proof fn locks_are_waited_for(timeout_ms: u128)
    ensures
        timeout_ms <= u64::MAX ==> longest_wait(timeout_ms) == timeout_ms,
        timeout_ms > u64::MAX ==> longest_wait(timeout_ms) == u64::MAX,
{
}

/// A plugin that asks for a pause gets it; no other failure asks for one.
pub proof fn pauses_are_as_requested(error: ClientError)
    ensures
        error matches ClientError::Remote(remote) ==> requested_pause(error) == remote.retry_after_ms,
        !(error is Remote) ==> requested_pause(error) is None,
{
}

/// The pause between two attempts doubles, from a quarter of a second to one at most.
pub proof fn pauses_double(retry: Retry)
    requires
        retry.wf(),
    ensures
        1 <= retry.attempt <= 3,
        retry.attempt == 1 ==> retry.delay_ms == 250,
        retry.attempt == 2 ==> retry.delay_ms == 500,
        retry.attempt == 3 ==> retry.delay_ms == 1000,
{
}

/// A lock is asked for on behalf of the operation, and waited for as long as the operator allows,
/// as far as the protocol can tell.
pub proof fn locks_are_asked_for_the_operation(
    request: LockAcquireRequest,
    environment_id: Seq<char>,
    operation_id: Seq<char>,
    timeout_ms: u128,
)
    requires
        asks_for_lock(request, environment_id, operation_id, timeout_ms),
    ensures
        request.environment_id@ == environment_id,
        request.operation_id@ == operation_id,
        timeout_ms <= u64::MAX ==> request.timeout_ms == timeout_ms,
        timeout_ms > u64::MAX ==> request.timeout_ms == u64::MAX,
        request.lease_ms is None,
{
}

/// Nothing is changed without a lock: one counts as held only where it was acquired and can be
/// given back, and as still held only where the very same is confirmed.
pub proof fn only_acquired_locks_are_held(answer: LockAcquireResult, held: Seq<char>, other: Seq<char>)
    ensures
        !answer.acquired ==> !is_granted(answer) && !is_still_held(answer, held),
        answer.token is None ==> !is_granted(answer) && !is_still_held(answer, held),
        answer.acquired && answer.token is Some ==> is_granted(answer),
        is_still_held(answer, held) ==> is_granted(answer),
        is_still_held(answer, held) && is_still_held(answer, other) ==> held == other,
        answer.acquired ==> (answer.token matches Some(token) ==> is_still_held(answer, token@)),
{
}

} // verus!
