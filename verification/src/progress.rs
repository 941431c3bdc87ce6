//! A request that a plugin works on while its events are shown and the operator may stop it.

use vstd::prelude::*;

use crate::client::ClientEvent;
use crate::down::DestroyAttempt;
use crate::error::{CliError, CliErrorV};
use crate::lifecycle::LogOptions;
use crate::output::OutputFormat;
use crate::prepared::ApplyAttempt;
use crate::protocol::{
    ApplyResult, CancelRequest, DestroyResult, LogRecord, LogsRequest, OperationContext, PluginEvent,
};
use crate::rpc::ClientError;
use crate::text;

verus! {

/// The time that a plugin is given to take note of a cancellation, in milliseconds.
pub const CANCELLATION_TIMEOUT_MS: u64 = 5_000;

/// What a plugin works on.
#[derive(Clone, Copy, Debug, PartialEq, Eq, Structural)]
pub enum Work {
    Apply,
    Destroy,
}

/// What came from the events of a plugin.
pub enum Received {
    /// An event.
    Event(ClientEvent),
    /// Some events were lost.
    Lagged(u64),
    /// There will be no more.
    Closed,
}

/// A request in progress.
pub struct Progress {
    pub work: Work,
    /// Whether the operator asked to stop.
    pub cancelled: bool,
    /// Whether more events may come.
    pub events_open: bool,
}

/// What is said when the operator asks to stop.
pub open spec fn cancellation_text(work: Work) -> Seq<char> {
    match work {
        Work::Apply => "cancellation requested; waiting for the active plugin to stop safely"@,
        Work::Destroy => "cancellation requested; waiting for the active destroy step to stop safely"@,
    }
}

/// What is said of an event.
pub open spec fn event_text(received: Received, format: OutputFormat) -> Option<Seq<char>> {
    if format != OutputFormat::Human {
        None
    } else {
        match received {
            Received::Event(
                ClientEvent::Plugin(PluginEvent::Progress { operation_id, message, completed, total }),
            ) => match (completed, total) {
                (Some(c), Some(t)) => Some(
                    message@ + " ("@ + text::decimal(c as nat) + "/"@ + text::decimal(t as nat) + ")"@,
                ),
                _ => Some(message@),
            },
            Received::Lagged(n) => Some(
                "warning: skipped "@ + text::decimal(n as nat) + " plugin progress events"@,
            ),
            _ => None,
        }
    }
}

impl Progress {
    /// A request that was sent.
    pub fn new(work: Work) -> (r: Progress)
        ensures
            r == (Progress { work, cancelled: false, events_open: true }),
    {
        Progress { work, cancelled: false, events_open: true }
    }

    /// The operator asked to stop: the plugin is told, and its answer is still awaited.
    /// They are listened to once.
    ///
    /// # Errors
    ///
    /// Returns an error where they cannot be listened to.
    pub fn interrupted(&mut self, operation_id: &str, signal: Result<(), String>) -> (r: Result<
        (String, CancelRequest),
        CliError,
    >)
        ensures
            match (signal, r) {
                (Ok(()), Ok((notice, request))) => {
                    &&& *final(self) == (Progress { cancelled: true, ..*old(self) })
                    &&& notice@ == cancellation_text(old(self).work)
                    &&& request.operation_id@ == operation_id@
                    &&& text::option_of(request.reason) == Some("operator pressed Ctrl+C"@)
                },
                (Err(detail), Err(e)) => *final(self) == *old(self) && e@ == CliErrorV::Io(detail@),
                _ => false,
            },
    {
        match signal {
            Err(detail) => Err(CliError::Io(detail)),
            Ok(()) => {
                self.cancelled = true;
                let notice = match self.work {
                    Work::Apply => "cancellation requested; waiting for the active plugin to stop safely",
                    Work::Destroy => "cancellation requested; waiting for the active destroy step to stop safely",
                };
                Ok(
                    (
                        notice.to_owned(),
                        CancelRequest {
                            operation_id: operation_id.to_owned(),
                            reason: Some("operator pressed Ctrl+C".to_owned()),
                        },
                    ),
                )
            },
        }
    }

    /// Something came from the events: what is said of it.
    pub fn received(&mut self, received: &Received, format: OutputFormat) -> (r: Option<String>)
        ensures
            *final(self) == (Progress {
                events_open: old(self).events_open && !(received is Closed),
                ..*old(self)
            }),
            text::option_of(r) == event_text(*received, format),
    {
        match received {
            Received::Closed => {
                self.events_open = false;
                None
            },
            Received::Lagged(n) => if format == OutputFormat::Human {
                Some(
                    text::cat3(
                        "warning: skipped ",
                        text::number(*n as u128).as_str(),
                        " plugin progress events",
                    ),
                )
            } else {
                None
            },
            Received::Event(event) => if format != OutputFormat::Human {
                None
            } else {
                match event {
                    ClientEvent::Plugin(
                        PluginEvent::Progress { operation_id: _, message, completed, total },
                    ) => match (completed, total) {
                        (Some(c), Some(t)) => {
                            let count = text::cat3(
                                text::number(*c as u128).as_str(),
                                "/",
                                text::number(*t as u128).as_str(),
                            );
                            let line = text::cat4(message.as_str(), " (", count.as_str(), ")");
                            assert(line@ =~= message@ + " ("@ + text::decimal(*c as nat) + "/"@
                                + text::decimal(*t as nat) + ")"@);
                            Some(line)
                        },
                        _ => Some(message.clone()),
                    },
                    _ => None,
                }
            },
        }
    }

    /// The plan was applied, or that failed.
    pub fn applied(self, outcome: Result<ApplyResult, ClientError>) -> (r: ApplyAttempt)
        ensures
            r.cancelled == self.cancelled,
            match (outcome, r.result) {
                (Ok(a), Ok(b)) => a == b,
                (Err(e), Err(f)) => f@ == CliErrorV::Plugin(e.text()),
                _ => false,
            },
    {
        let result = match outcome {
            Ok(result) => Ok(result),
            Err(e) => Err(CliError::Plugin(e.message())),
        };
        ApplyAttempt { result, cancelled: self.cancelled }
    }

    /// The resources were destroyed, or that failed.
    pub fn destroyed(self, outcome: Result<DestroyResult, ClientError>) -> (r: DestroyAttempt)
        ensures
            r.cancelled == self.cancelled,
            match (outcome, r.result) {
                (Ok(a), Ok(b)) => a == b,
                (Err(e), Err(f)) => f@ == CliErrorV::Plugin(e.text()),
                _ => false,
            },
    {
        let result = match outcome {
            Ok(result) => Ok(result),
            Err(e) => Err(CliError::Plugin(e.message())),
        };
        DestroyAttempt { result, cancelled: self.cancelled }
    }
}

// ---------------------------------------------------------------------------
// Logs
// ---------------------------------------------------------------------------

/// The largest number of records that can be asked for.
pub open spec fn tail_of(tail: usize) -> u64 {
    if tail <= u64::MAX {
        tail as u64
    } else {
        u64::MAX
    }
}

/// Asks for logs.
pub fn logs_request(context: OperationContext, options: &LogOptions) -> (r: LogsRequest)
    ensures
        r.context == context,
        text::option_of(r.service) == text::option_of(options.service),
        r.tail == Some(tail_of(options.tail)),
        r.since is None,
        r.follow == options.follow,
{
    let tail: u64 = if options.tail as u128 <= u64::MAX as u128 {
        options.tail as u64
    } else {
        u64::MAX
    };
    LogsRequest {
        context,
        service: text::copy_option(&options.service),
        tail: Some(tail),
        since: None,
        follow: options.follow,
    }
}

/// What follows from what came while logs are followed.
pub enum FollowStep {
    /// A record is shown.
    Show(LogRecord),
    /// A warning is given.
    Warn(String),
    /// Nothing is done.
    Pass,
    /// There is nothing more to follow.
    Stop,
}

/// Decides on what came while logs are followed. What a plugin writes to standard error is
/// not shown: it may hold secrets.
pub fn follow(received: Received) -> (r: FollowStep)
    ensures
        match (received, r) {
            (Received::Event(ClientEvent::Plugin(PluginEvent::Log { stream_id, record })), FollowStep::Show(shown)) => shown
                == record,
            (Received::Event(ClientEvent::Plugin(PluginEvent::Log { stream_id, record })), _) => false,
            (Received::Event(ClientEvent::Stderr(_)), FollowStep::Warn(w)) => w@
                == "warning: runtime plugin wrote to stderr; content was suppressed to avoid leaking sensitive values"@,
            (Received::Event(ClientEvent::Stderr(_)), _) => false,
            (Received::Event(_), FollowStep::Pass) => true,
            (Received::Lagged(n), FollowStep::Warn(w)) => w@ == "warning: skipped "@ + text::decimal(
                n as nat,
            ) + " plugin log events"@,
            (Received::Closed, FollowStep::Stop) => true,
            _ => false,
        },
{
    match received {
        Received::Closed => FollowStep::Stop,
        Received::Lagged(n) => FollowStep::Warn(
            text::cat3(
                "warning: skipped ",
                text::number(n as u128).as_str(),
                " plugin log events",
            ),
        ),
        Received::Event(event) => match event {
            ClientEvent::Plugin(PluginEvent::Log { stream_id: _, record }) => FollowStep::Show(record),
            ClientEvent::Stderr(_) => FollowStep::Warn(
                "warning: runtime plugin wrote to stderr; content was suppressed to avoid leaking sensitive values".to_owned(),
            ),
            _ => FollowStep::Pass,
        },
    }
}

/// Progress is shown to people alone: no other format is mixed with it. What a plugin says is
/// shown as it says it, with how far it is where it tells both numbers.
pub proof fn progress_is_shown_to_people(
    operation_id: String,
    message: String,
    completed: Option<u64>,
    total: Option<u64>,
    received: Received,
    format: OutputFormat,
)
    ensures
        format != OutputFormat::Human ==> event_text(received, format) is None,
        ({
            let event = Received::Event(
                ClientEvent::Plugin(PluginEvent::Progress { operation_id, message, completed, total }),
            );
            &&& completed is None || total is None ==> event_text(event, OutputFormat::Human) == Some(message@)
            &&& completed is Some && total is Some ==> event_text(event, OutputFormat::Human) == Some(
                message@ + " ("@ + text::decimal(completed->0 as nat) + "/"@ + text::decimal(total->0 as nat)
                    + ")"@,
            )
        }),
{
}

/// As many lines of a log are asked for as the operator wants.
pub proof fn as_many_lines_are_asked_for(tail: usize)
    ensures
        tail_of(tail) == tail,
{
}

} // verus!
