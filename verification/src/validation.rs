//! Problems found in a configuration.

use vstd::prelude::*;

use crate::text;

verus! {

/// A machine-readable category for a configuration validation failure.
#[derive(Clone, Copy, Debug, PartialEq, Eq, Structural)]
#[non_exhaustive]
pub enum ValidationCode {
    /// The top-level schema version is not supported.
    UnsupportedSchema,
    /// A required value is empty.
    Empty,
    /// A value is not a valid identifier for its domain.
    InvalidIdentifier,
    /// A sequence contains the same value more than once.
    Duplicate,
    /// A value references an object that does not exist.
    MissingReference,
    /// A filesystem path is not valid in committed project configuration.
    InvalidPath,
    /// A network port is outside the valid range.
    InvalidPort,
    /// Health-check settings are internally inconsistent.
    InvalidHealthCheck,
    /// An environment-variable name is invalid.
    InvalidEnvironmentKey,
    /// A plugin-settings capability is unknown.
    UnknownCapability,
}

/// One configuration validation problem.
#[derive(Clone, Debug, PartialEq, Eq)]
pub struct ValidationIssue {
    /// A dotted path to the invalid field.
    pub path: String,
    /// A stable, machine-readable failure category.
    pub code: ValidationCode,
    /// A concise, user-facing explanation.
    pub message: String,
}

/// The model of [`ValidationIssue`].
pub struct IssueV {
    pub path: Seq<char>,
    pub code: ValidationCode,
    pub message: Seq<char>,
}

impl View for ValidationIssue {
    type V = IssueV;

    open spec fn view(&self) -> IssueV {
        IssueV { path: self.path@, code: self.code, message: self.message@ }
    }
}

impl ValidationIssue {
    /// Creates a validation issue.
    pub fn new(path: &str, code: ValidationCode, message: &str) -> (r: ValidationIssue)
        ensures
            r@ == (IssueV { path: path@, code, message: message@ }),
    {
        ValidationIssue { path: path.to_owned(), code, message: message.to_owned() }
    }
}

/// The models of issues.
pub open spec fn issue_views(issues: Seq<ValidationIssue>) -> Seq<IssueV> {
    Seq::new(issues.len(), |i: int| issues[i]@)
}

/// Adds an issue.
pub fn report(issues: &mut Vec<ValidationIssue>, path: &str, code: ValidationCode, message: &str)
    ensures
        issue_views(final(issues)@) == issue_views(old(issues)@).push(
            IssueV { path: path@, code, message: message@ },
        ),
{
    issues.push(ValidationIssue::new(path, code, message));
    assert(issue_views(issues@) =~= issue_views(old(issues)@).push(
        IssueV { path: path@, code, message: message@ },
    ));
}

/// All validation problems found in a configuration.
///
/// Validation deliberately reports every independent issue in one pass so an
/// interactive initializer and a human editing TOML can fix them together.
#[derive(Debug, PartialEq, Eq)]
pub struct ValidationErrors {
    issues: Vec<ValidationIssue>,
}

/// The text of a list of issues: a line for each, under a heading that counts them.
pub open spec fn errors_text(issues: Seq<IssueV>) -> Seq<char> {
    issue_lines(
        "configuration has "@ + text::decimal(issues.len()) + " validation error"@ + (if issues.len() == 1 {
            ""@
        } else {
            "s"@
        }),
        issues,
    )
}

/// A heading with a line for each issue after it.
pub open spec fn issue_lines(heading: Seq<char>, issues: Seq<IssueV>) -> Seq<char>
    decreases issues.len(),
{
    if issues.len() == 0 {
        heading
    } else {
        issue_lines(heading, issues.drop_last()) + "\n- "@ + issues.last().path + ": "@
            + issues.last().message
    }
}

impl View for ValidationErrors {
    type V = Seq<IssueV>;

    closed spec fn view(&self) -> Seq<IssueV> {
        issue_views(self.issues@)
    }
}

impl ValidationErrors {
    /// There is at least one issue.
    #[verifier::type_invariant]
    closed spec fn valid(self) -> bool {
        self.issues@.len() > 0
    }

    /// Creates a non-empty validation error collection.
    ///
    /// Returns `None` when `issues` is empty.
    pub fn from_issues(issues: Vec<ValidationIssue>) -> (r: Option<ValidationErrors>)
        ensures
            match r {
                Some(errors) => issues@.len() > 0 && errors@ == issue_views(issues@),
                None => issues@.len() == 0,
            },
    {
        if issues.len() == 0 {
            None
        } else {
            Some(ValidationErrors { issues })
        }
    }

    /// Returns all validation issues.
    pub fn issues(&self) -> (r: &Vec<ValidationIssue>)
        ensures
            issue_views(r@) == self@,
            r@.len() > 0,
    {
        proof {
            use_type_invariant(self);
        }
        &self.issues
    }

    /// Consumes the collection and returns its issues.
    pub fn into_issues(self) -> (r: Vec<ValidationIssue>)
        ensures
            issue_views(r@) == self@,
            r@.len() > 0,
    {
        proof {
            use_type_invariant(&self);
        }
        self.issues
    }

    /// Describes the issues to a person.
    pub fn message(&self) -> (r: String)
        ensures
            r@ == errors_text(self@),
    {
        let count: usize = self.issues.len();
        let plural = if count == 1 { "" } else { "s" };
        let mut out = text::cat4(
            "configuration has ",
            text::number(count as u128).as_str(),
            " validation error",
            plural,
        );
        let ghost heading = out@;
        let ghost all = issue_views(self.issues@);
        let mut i: usize = 0;
        assert(all.take(0) =~= Seq::<IssueV>::empty());
        while i < self.issues.len()
            invariant
                i <= all.len(),
                all == issue_views(self.issues@),
                out@ == issue_lines(heading, all.take(i as int)),
            decreases self.issues.len() - i,
        {
            proof {
                assert(all.take(i + 1).drop_last() =~= all.take(i as int));
                assert(all.take(i + 1).last() == self.issues@[i as int]@);
            }
            out = text::cat5(
                out.as_str(),
                "\n- ",
                self.issues[i].path.as_str(),
                ": ",
                self.issues[i].message.as_str(),
            );
            i += 1;
        }
        assert(all.take(all.len() as int) =~= all);
        out
    }
}

} // verus!
