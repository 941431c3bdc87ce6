//! Output formats.

use vstd::prelude::*;

verus! {

/// Output format shared by machine-readable commands.
#[derive(Clone, Copy, Debug, Eq, PartialEq, Structural)]
pub enum OutputFormat {
    Human,
    Json,
    Plain,
}

impl Default for OutputFormat {
    fn default() -> (r: OutputFormat)
        ensures
            r == OutputFormat::Human,
    {
        OutputFormat::Human
    }
}

/// The diagnostics that a number of `-v` flags asks for.
pub fn diagnostic_level(verbose: u8) -> (r: &'static str)
    ensures
        r@ == match verbose {
            0 => "warn"@,
            1 => "info"@,
            _ => "debug"@,
        },
{
    match verbose {
        0 => "warn",
        1 => "info",
        _ => "debug",
    }
}

} // verus!
