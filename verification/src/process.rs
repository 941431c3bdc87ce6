//! Commands that are run, and what came of them.

use vstd::prelude::*;

use crate::error::{CliError, CliErrorV};
use crate::outside;
use crate::rpc;
use crate::text;

verus! {

/// The time that a command is given, in milliseconds.
pub const DEFAULT_COMMAND_TIMEOUT_MS: u64 = 600_000;

/// The time that is given to clean up after a command, in milliseconds.
pub const PROCESS_CLEANUP_TIMEOUT_MS: u64 = 5_000;

/// A command.
#[derive(Clone, Debug)]
pub struct CommandSpec {
    pub program: String,
    pub arguments: Vec<String>,
    pub cwd: Option<String>,
    pub clear_environment: bool,
    pub environment: Vec<(String, String)>,
    pub timeout_ms: u64,
}

/// The model of [`CommandSpec`].
#[verifier::ext_equal]
pub struct CommandV {
    pub program: Seq<char>,
    pub arguments: Seq<Seq<char>>,
    pub cwd: Option<Seq<char>>,
    pub clear_environment: bool,
    pub environment: Seq<(Seq<char>, Seq<char>)>,
    pub timeout_ms: u64,
}

/// The models of variables.
pub open spec fn pair_views(entries: Seq<(String, String)>) -> Seq<(Seq<char>, Seq<char>)> {
    Seq::new(entries.len(), |i: int| (entries[i].0@, entries[i].1@))
}

impl View for CommandSpec {
    type V = CommandV;

    open spec fn view(&self) -> CommandV {
        CommandV {
            program: self.program@,
            arguments: text::texts(self.arguments@),
            cwd: text::option_of(self.cwd),
            clear_environment: self.clear_environment,
            environment: pair_views(self.environment@),
            timeout_ms: self.timeout_ms,
        }
    }
}

/// A command without arguments.
pub open spec fn bare_command(program: Seq<char>) -> CommandV {
    CommandV {
        program,
        arguments: Seq::empty(),
        cwd: None,
        clear_environment: false,
        environment: Seq::empty(),
        timeout_ms: DEFAULT_COMMAND_TIMEOUT_MS,
    }
}

impl CommandSpec {
    /// A command without arguments.
    pub fn new(program: &str) -> (r: CommandSpec)
        ensures
            r@ == bare_command(program@),
    {
        let r = CommandSpec {
            program: program.to_owned(),
            arguments: Vec::new(),
            cwd: None,
            clear_environment: false,
            environment: Vec::new(),
            timeout_ms: DEFAULT_COMMAND_TIMEOUT_MS,
        };
        assert(r@ =~= bare_command(program@));
        r
    }

    /// The command with more arguments.
    pub fn args(self, arguments: &Vec<String>) -> (r: CommandSpec)
        ensures
            r@ == (CommandV {
                arguments: self@.arguments + text::texts(arguments@),
                ..self@
            }),
    {
        let ghost before = self@;
        let CommandSpec { program, arguments: mut all, cwd, clear_environment, environment, timeout_ms } = self;
        let ghost given = text::texts(all@);
        let mut i: usize = 0;
        assert(text::texts(arguments@).take(0) =~= Seq::<Seq<char>>::empty());
        assert(given + Seq::<Seq<char>>::empty() =~= given);
        while i < arguments.len()
            invariant
                i <= arguments@.len(),
                text::texts(all@) == given + text::texts(arguments@).take(i as int),
            decreases arguments.len() - i,
        {
            let ghost earlier = all@;
            all.push(arguments[i].clone());
            assert(text::texts(all@) =~= text::texts(earlier).push(arguments@[i as int]@));
            assert(given + text::texts(arguments@).take(i + 1) =~= (given + text::texts(
                arguments@,
            ).take(i as int)).push(arguments@[i as int]@));
            i += 1;
        }
        assert(text::texts(arguments@).take(arguments@.len() as int) =~= text::texts(arguments@));
        CommandSpec { program, arguments: all, cwd, clear_environment, environment, timeout_ms }
    }

    /// The command with one more argument.
    pub fn arg(self, argument: &str) -> (r: CommandSpec)
        ensures
            r@ == (CommandV { arguments: self@.arguments.push(argument@), ..self@ }),
    {
        let ghost before = self@;
        let mut r = self;
        let ghost given = r.arguments@;
        r.arguments.push(argument.to_owned());
        assert(text::texts(r.arguments@) =~= text::texts(given).push(argument@));
        r
    }

    /// The command in a directory.
    pub fn cwd(self, cwd: &str) -> (r: CommandSpec)
        ensures
            r@ == (CommandV { cwd: Some(cwd@), ..self@ }),
    {
        let mut r = self;
        r.cwd = Some(cwd.to_owned());
        r
    }

    /// The command without the variables of this process.
    pub fn clear_environment(self) -> (r: CommandSpec)
        ensures
            r@ == (CommandV { clear_environment: true, ..self@ }),
    {
        let mut r = self;
        r.clear_environment = true;
        r
    }

    /// The command with one more variable.
    pub fn env(self, key: &str, value: &str) -> (r: CommandSpec)
        ensures
            r@ == (CommandV { environment: self@.environment.push((key@, value@)), ..self@ }),
    {
        let mut r = self;
        let ghost given = r.environment@;
        r.environment.push((key.to_owned(), value.to_owned()));
        assert(pair_views(r.environment@) =~= pair_views(given).push((key@, value@)));
        r
    }

    /// The command with another time limit.
    pub fn timeout(self, timeout_ms: u64) -> (r: CommandSpec)
        ensures
            r@ == (CommandV { timeout_ms, ..self@ }),
    {
        let mut r = self;
        r.timeout_ms = timeout_ms;
        r
    }

    /// The command as a person reads it.
    pub fn display(&self) -> (r: String)
        ensures
            r@ == command_text(self@.program, self@.arguments),
    {
        let mut rendered = self.program.clone();
        let ghost all = text::texts(self.arguments@);
        let mut i: usize = 0;
        assert(all.take(0) =~= Seq::<Seq<char>>::empty());
        while i < self.arguments.len()
            invariant
                i <= self.arguments@.len(),
                all == text::texts(self.arguments@),
                rendered@ == command_text(self.program@, all.take(i as int)),
            decreases self.arguments.len() - i,
        {
            assert(all.take(i + 1).drop_last() =~= all.take(i as int));
            assert(all.take(i + 1).last() == self.arguments@[i as int]@);
            let shown = shell_display(self.arguments[i].as_str());
            rendered = text::cat3(rendered.as_str(), " ", shown.as_str());
            i += 1;
        }
        assert(all.take(all.len() as int) =~= all);
        rendered
    }
}

/// An argument as a person reads it: in quotation marks where it holds anything unusual.
pub open spec fn argument_text(s: Seq<char>) -> Seq<char> {
    if text::all_in(s, true, true, true, "-_./:=,@"@) {
        s
    } else {
        outside::quoted_text(s)
    }
}

/// An argument as a person reads it.
pub fn shell_display(value: &str) -> (r: String)
    ensures
        r@ == argument_text(value@),
{
    if text::all_in_set(value, true, true, true, "-_./:=,@") {
        value.to_owned()
    } else {
        outside::debug_quote(value)
    }
}

/// A command as a person reads it.
pub open spec fn command_text(program: Seq<char>, arguments: Seq<Seq<char>>) -> Seq<char>
    decreases arguments.len(),
{
    if arguments.len() == 0 {
        program
    } else {
        command_text(program, arguments.drop_last()) + " "@ + argument_text(arguments.last())
    }
}

// ---------------------------------------------------------------------------
// What came of a command
// ---------------------------------------------------------------------------

/// What a finished command left.
#[derive(Clone, Debug)]
pub struct ProcessOutput {
    /// Whether the command ended with success.
    pub succeeded: bool,
    /// How the command ended, as the system describes it.
    pub status: String,
    pub stdout: Vec<u8>,
    pub stderr: Vec<u8>,
}

/// What is reported of a command that ended without success.
pub open spec fn failure_text(output: ProcessOutput, command: CommandV) -> Seq<char> {
    let detail = text::trimmed(outside::lossy_text(output.stderr@));
    "`"@ + command_text(command.program, command.arguments) + "` exited with "@ + output.status@ + if detail.len()
        == 0 {
        Seq::empty()
    } else {
        ": "@ + detail
    }
}

impl ProcessOutput {
    /// Rejects a command that ended without success.
    pub fn success(&self, spec: &CommandSpec) -> (r: Result<&ProcessOutput, CliError>)
        ensures
            match r {
                Ok(output) => self.succeeded && *output == *self,
                Err(e) => !self.succeeded && e@ == CliErrorV::Operation(failure_text(*self, spec@)),
            },
    {
        if self.succeeded {
            return Ok(self);
        }
        let detail = text::trim(outside::utf8_lossy(self.stderr.as_slice()).as_str());
        let head = text::cat4(
            "`",
            spec.display().as_str(),
            "` exited with ",
            self.status.as_str(),
        );
        if detail.as_str().is_empty() {
            assert(head@ + Seq::<char>::empty() =~= head@);
            Err(CliError::Operation(head))
        } else {
            let message = text::cat3(head.as_str(), ": ", detail.as_str());
            assert(message@ =~= failure_text(*self, spec@));
            Err(CliError::Operation(message))
        }
    }

    /// The standard output as text.
    ///
    /// # Errors
    ///
    /// Returns an error where it is not UTF-8.
    pub fn stdout_text(&self) -> (r: Result<String, CliError>)
        ensures
            match r {
                Ok(s) => vstd::utf8::valid_utf8(self.stdout@) && s@ == vstd::utf8::decode_utf8(
                    self.stdout@,
                ),
                Err(e) => !vstd::utf8::valid_utf8(self.stdout@) && e@ == CliErrorV::Operation(
                    "command emitted invalid UTF-8: "@ + outside::utf8_error_text(self.stdout@),
                ),
            },
    {
        match outside::utf8_decode(self.stdout.clone()) {
            Ok(s) => Ok(s),
            Err(detail) => Err(
                CliError::Operation(
                    text::cat2("command emitted invalid UTF-8: ", detail.as_str()),
                ),
            ),
        }
    }

    /// What the command wrote, standard output first.
    pub open spec fn combined(self) -> Seq<char> {
        text::trimmed(outside::lossy_text(self.stdout@) + outside::lossy_text(self.stderr@))
    }

    /// What the command wrote, standard output first.
    pub fn combined_text(&self) -> (r: String)
        ensures
            r@ == self.combined(),
    {
        let stdout = outside::utf8_lossy(self.stdout.as_slice());
        let stderr = outside::utf8_lossy(self.stderr.as_slice());
        let both = text::cat2(stdout.as_str(), stderr.as_str());
        text::trim(both.as_str())
    }
}

/// How the supervision of a command ended.
pub enum SupervisionOutcome {
    /// The command ended.
    Exited(ProcessOutput),
    /// The time was over; with what went wrong in cleaning up.
    TimedOut { cleanup_error: Option<String> },
    /// Nobody waited any longer; with what went wrong in cleaning up.
    Cancelled { cleanup_error: Option<String> },
    /// The command could not be observed.
    Io(String),
}

/// What is added where cleaning up failed.
pub open spec fn cleanup_suffix(error: Option<String>) -> Seq<char> {
    match error {
        Some(detail) => "; process cleanup also failed: "@ + detail@,
        None => Seq::empty(),
    }
}

/// What is added where cleaning up failed.
pub fn cleanup_text(error: &Option<String>) -> (r: String)
    ensures
        r@ == cleanup_suffix(*error),
{
    match error {
        Some(detail) => text::cat2("; process cleanup also failed: ", detail.as_str()),
        None => String::new(),
    }
}

/// What comes of a supervised command.
pub fn conclude(spec: &CommandSpec, outcome: SupervisionOutcome) -> (r: Result<ProcessOutput, CliError>)
    ensures
        ({
            let shown = command_text(spec@.program, spec@.arguments);
            match (outcome, r) {
                (SupervisionOutcome::Exited(output), Ok(left)) => left == output,
                (SupervisionOutcome::TimedOut { cleanup_error }, Err(e)) => e@ == CliErrorV::Operation(
                    "`"@ + shown + "` timed out after "@ + rpc::duration_text(spec@.timeout_ms as nat)
                        + cleanup_suffix(cleanup_error),
                ),
                (SupervisionOutcome::Cancelled { cleanup_error }, Err(e)) => e@ == CliErrorV::Operation(
                    "`"@ + shown + "` was cancelled"@ + cleanup_suffix(cleanup_error),
                ),
                (SupervisionOutcome::Io(detail), Err(e)) => e@ == CliErrorV::Io(detail@),
                _ => false,
            }
        }),
{
    let shown = spec.display();
    match outcome {
        SupervisionOutcome::Exited(output) => Ok(output),
        SupervisionOutcome::TimedOut { cleanup_error } => Err(
            CliError::Operation(
                text::cat5(
                    "`",
                    shown.as_str(),
                    "` timed out after ",
                    rpc::duration(spec.timeout_ms).as_str(),
                    cleanup_text(&cleanup_error).as_str(),
                ),
            ),
        ),
        SupervisionOutcome::Cancelled { cleanup_error } => Err(
            CliError::Operation(
                text::cat4(
                    "`",
                    shown.as_str(),
                    "` was cancelled",
                    cleanup_text(&cleanup_error).as_str(),
                ),
            ),
        ),
        SupervisionOutcome::Io(detail) => Err(CliError::Io(detail)),
    }
}

/// What is reported of a command that could not be started.
pub fn start_failed(spec: &CommandSpec, not_found: bool, detail: &str) -> (r: CliError)
    ensures
        r@ == if not_found {
            CliErrorV::MissingTool("external command"@, spec@.program + ": "@ + detail@)
        } else {
            CliErrorV::Io(detail@)
        },
{
    if not_found {
        CliError::MissingTool {
            tool: "external command",
            detail: text::cat3(spec.program.as_str(), ": ", detail),
        }
    } else {
        CliError::Io(detail.to_owned())
    }
}

/// A command is told with its program and every argument in order; plain arguments are told as
/// they are.
pub proof fn commands_are_told_in_order(program: Seq<char>, arguments: Seq<Seq<char>>, last: Seq<char>)
    ensures
        command_text(program, Seq::empty()) == program,
        text::all_in(last, true, true, true, "-_./:=,@"@) ==> command_text(program, arguments.push(last))
            == command_text(program, arguments) + " "@ + last,
        !text::all_in(last, true, true, true, "-_./:=,@"@) ==> command_text(program, arguments.push(last))
            == command_text(program, arguments) + " "@ + outside::quoted_text(last),
{
    assert(arguments.push(last).drop_last() =~= arguments);
}

/// A failure tells the command and how it ended, and what it complained of where it did.
pub proof fn failures_tell_their_command(output: ProcessOutput, command: CommandV)
    ensures
        text::trimmed(outside::lossy_text(output.stderr@)).len() > 0 ==> failure_text(output, command) == "`"@
            + command_text(command.program, command.arguments) + "` exited with "@ + output.status@ + (": "@
            + text::trimmed(outside::lossy_text(output.stderr@))),
        text::trimmed(outside::lossy_text(output.stderr@)).len() == 0 ==> failure_text(output, command) =~= "`"@
            + command_text(command.program, command.arguments) + "` exited with "@ + output.status@,
{
}

} // verus!
