//! Errors that the command line presents.

use vstd::prelude::*;

use crate::text;

verus! {

/// Errors that can be presented directly by the command-line application.
#[derive(Debug)]
pub enum CliError {
    Usage(String),
    Config(String),
    ProjectNotInitialized { start: String },
    MissingTool { tool: &'static str, detail: String },
    SecretUnavailable { name: String, env: String },
    Plugin(String),
    Operation(String),
    Io(String),
    Json(String),
    TomlDecode(String),
    TomlEncode(String),
}

/// The model of [`CliError`].
pub enum CliErrorV {
    Usage(Seq<char>),
    Config(Seq<char>),
    ProjectNotInitialized(Seq<char>),
    MissingTool(Seq<char>, Seq<char>),
    SecretUnavailable(Seq<char>, Seq<char>),
    Plugin(Seq<char>),
    Operation(Seq<char>),
    Io(Seq<char>),
    Json(Seq<char>),
    TomlDecode(Seq<char>),
    TomlEncode(Seq<char>),
}

impl View for CliError {
    type V = CliErrorV;

    open spec fn view(&self) -> CliErrorV {
        match self {
            CliError::Usage(detail) => CliErrorV::Usage(detail@),
            CliError::Config(detail) => CliErrorV::Config(detail@),
            CliError::ProjectNotInitialized { start } => CliErrorV::ProjectNotInitialized(start@),
            CliError::MissingTool { tool, detail } => CliErrorV::MissingTool(tool@, detail@),
            CliError::SecretUnavailable { name, env } => CliErrorV::SecretUnavailable(name@, env@),
            CliError::Plugin(detail) => CliErrorV::Plugin(detail@),
            CliError::Operation(detail) => CliErrorV::Operation(detail@),
            CliError::Io(detail) => CliErrorV::Io(detail@),
            CliError::Json(detail) => CliErrorV::Json(detail@),
            CliError::TomlDecode(detail) => CliErrorV::TomlDecode(detail@),
            CliError::TomlEncode(detail) => CliErrorV::TomlEncode(detail@),
        }
    }
}

/// What is presented for an error.
pub open spec fn error_text(e: CliErrorV) -> Seq<char> {
    match e {
        CliErrorV::Usage(detail) => detail,
        CliErrorV::Config(detail) => "configuration error: "@ + detail,
        CliErrorV::ProjectNotInitialized(start) =>
            "project not initialized (could not find lightrail.toml from "@ + start + ")"@,
        CliErrorV::MissingTool(tool, detail) =>
            "required tool `"@ + tool + "` is unavailable: "@ + detail,
        CliErrorV::SecretUnavailable(name, env) =>
            "secret `"@ + name + "` is unavailable; set it with `lightrail secret set "@ + name + "` or "@
            + env,
        CliErrorV::Plugin(detail) => "plugin error: "@ + detail,
        CliErrorV::Operation(detail) => "operation failed: "@ + detail,
        CliErrorV::Io(detail) => detail,
        CliErrorV::Json(detail) => detail,
        CliErrorV::TomlDecode(detail) => detail,
        CliErrorV::TomlEncode(detail) => detail,
    }
}

/// The process exit status of an error.
pub open spec fn exit_status(e: CliErrorV) -> i32 {
    match e {
        CliErrorV::Usage(_) | CliErrorV::Config(_) | CliErrorV::ProjectNotInitialized(_) => 2,
        CliErrorV::MissingTool(_, _) => 3,
        CliErrorV::SecretUnavailable(_, _) => 4,
        CliErrorV::Plugin(_) => 5,
        _ => 1,
    }
}

/// A result that succeeds exactly where there is no problem, and reports the problem otherwise.
pub open spec fn settles<T>(r: Result<T, CliError>, problem: Option<CliErrorV>) -> bool {
    match (r, problem) {
        (Ok(_), None) => true,
        (Err(e), Some(p)) => e@ == p,
        _ => false,
    }
}

impl CliError {
    /// Stable process exit status by error category.
    pub fn exit_code(&self) -> (r: i32)
        ensures
            r == exit_status(self@),
    {
        match self {
            CliError::Usage(_) => 2,
            CliError::Config(_) => 2,
            CliError::ProjectNotInitialized { .. } => 2,
            CliError::MissingTool { .. } => 3,
            CliError::SecretUnavailable { .. } => 4,
            CliError::Plugin(_) => 5,
            _ => 1,
        }
    }

    /// What is presented for the error.
    pub fn message(&self) -> (r: String)
        ensures
            r@ == error_text(self@),
    {
        match self {
            CliError::Usage(detail) => detail.as_str().to_owned(),
            CliError::Config(detail) => text::cat2("configuration error: ", detail.as_str()),
            CliError::ProjectNotInitialized { start } => text::cat3(
                "project not initialized (could not find lightrail.toml from ",
                start.as_str(),
                ")",
            ),
            CliError::MissingTool { tool, detail } => text::cat4(
                "required tool `",
                tool,
                "` is unavailable: ",
                detail.as_str(),
            ),
            CliError::SecretUnavailable { name, env } => text::cat2(
                text::cat5(
                    "secret `",
                    name.as_str(),
                    "` is unavailable; set it with `lightrail secret set ",
                    name.as_str(),
                    "` or ",
                ).as_str(),
                env.as_str(),
            ),
            CliError::Plugin(detail) => text::cat2("plugin error: ", detail.as_str()),
            CliError::Operation(detail) => text::cat2("operation failed: ", detail.as_str()),
            CliError::Io(detail) => detail.as_str().to_owned(),
            CliError::Json(detail) => detail.as_str().to_owned(),
            CliError::TomlDecode(detail) => detail.as_str().to_owned(),
            CliError::TomlEncode(detail) => detail.as_str().to_owned(),
        }
    }
}

/// The exit status tells what went wrong: usage and configuration, a missing tool, a missing
/// secret, a plugin, or anything else; it is never that of success.
pub proof fn exit_status_tells_the_cause(e: CliErrorV)
    ensures
        exit_status(e) != 0,
        e is Usage || e is Config || e is ProjectNotInitialized ==> exit_status(e) == 2,
        e is MissingTool ==> exit_status(e) == 3,
        e is SecretUnavailable ==> exit_status(e) == 4,
        e is Plugin ==> exit_status(e) == 5,
        !(e is Usage || e is Config || e is ProjectNotInitialized || e is MissingTool || e is SecretUnavailable
            || e is Plugin) ==> exit_status(e) == 1,
{
}

} // verus!
