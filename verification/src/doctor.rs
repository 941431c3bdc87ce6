//! Checks of the tools that are needed.

use vstd::prelude::*;

use crate::error::{error_text, settles, CliError, CliErrorV};
use crate::output::OutputFormat;
use crate::plugin_host::{HETZNER_PLUGIN_ID, KUBERNETES_PLUGIN_ID, SSH_PLUGIN_ID};
use crate::process::{bare_command, CommandSpec, CommandV, ProcessOutput};
use crate::protocol::ResourceStatus;
use crate::text;
use crate::up::{name_status, status_name};
use crate::view;

verus! {

/// What a check came to.
#[derive(Clone, Copy, Debug, Eq, PartialEq, Structural)]
pub enum CheckStatus {
    Passed,
    Failed,
}

/// A check that was made.
#[derive(Clone, Debug, Eq, PartialEq)]
pub struct DoctorCheck {
    pub name: &'static str,
    pub status: CheckStatus,
    pub detail: String,
    pub remediation: Option<&'static str>,
}

/// The model of [`DoctorCheck`].
#[verifier::ext_equal]
pub struct CheckV {
    pub name: Seq<char>,
    pub status: CheckStatus,
    pub detail: Seq<char>,
    pub remediation: Option<Seq<char>>,
}

impl View for DoctorCheck {
    type V = CheckV;

    open spec fn view(&self) -> CheckV {
        CheckV {
            name: self.name@,
            status: self.status,
            detail: self.detail@,
            remediation: match self.remediation {
                Some(help) => Some(help@),
                None => None,
            },
        }
    }
}

/// The models of checks.
pub open spec fn check_views(checks: Seq<DoctorCheck>) -> Seq<CheckV> {
    Seq::new(checks.len(), |i: int| checks[i]@)
}

/// The checks that were made.
#[derive(Clone, Debug, Eq, PartialEq)]
pub struct DoctorReport {
    pub checks: Vec<DoctorCheck>,
}

/// The names of the checks that failed.
pub open spec fn failed_names(checks: Seq<CheckV>) -> Seq<Seq<char>>
    decreases checks.len(),
{
    if checks.len() == 0 {
        Seq::empty()
    } else if checks.last().status == CheckStatus::Failed {
        failed_names(checks.drop_last()).push(checks.last().name)
    } else {
        failed_names(checks.drop_last())
    }
}

/// No check failed exactly where none of the names is that of a failed check.
proof fn lemma_failed_names(checks: Seq<CheckV>)
    ensures
        failed_names(checks).len() == 0 <==> forall|i: int|
            0 <= i < checks.len() ==> (#[trigger] checks[i]).status == CheckStatus::Passed,
    decreases checks.len(),
{
    if checks.len() > 0 {
        lemma_failed_names(checks.drop_last());
        assert forall|i: int| 0 <= i < checks.len() - 1 implies checks.drop_last()[i] == (
        #[trigger] checks[i]) by {}
        if checks.last().status == CheckStatus::Failed {
            assert(checks[checks.len() - 1].status != CheckStatus::Passed);
        } else {
            if failed_names(checks).len() == 0 {
                assert forall|i: int| 0 <= i < checks.len() implies (#[trigger] checks[i]).status
                    == CheckStatus::Passed by {
                    if i < checks.len() - 1 {
                        assert(checks.drop_last()[i].status == CheckStatus::Passed);
                    }
                }
            }
            if forall|i: int|
                0 <= i < checks.len() ==> (#[trigger] checks[i]).status == CheckStatus::Passed {
                assert forall|i: int| 0 <= i < checks.drop_last().len() implies (
                #[trigger] checks.drop_last()[i]).status == CheckStatus::Passed by {
                    assert(checks[i].status == CheckStatus::Passed);
                }
            }
        }
    }
}

impl DoctorReport {
    /// Whether every check came to good.
    pub fn healthy(&self) -> (r: bool)
        ensures
            r == forall|i: int|
                0 <= i < self.checks@.len() ==> (#[trigger] self.checks@[i]).status
                    == CheckStatus::Passed,
    {
        let mut i: usize = 0;
        while i < self.checks.len()
            invariant
                i <= self.checks@.len(),
                forall|k: int|
                    0 <= k < i ==> (#[trigger] self.checks@[k]).status == CheckStatus::Passed,
            decreases self.checks.len() - i,
        {
            if self.checks[i].status != CheckStatus::Passed {
                return false;
            }
            i += 1;
        }
        true
    }
}

/// The problem of checks.
pub open spec fn health_problem(checks: Seq<CheckV>) -> Option<CliErrorV> {
    let failed = failed_names(checks);
    if failed.len() == 0 {
        None
    } else {
        Some(
            CliErrorV::Operation(
                text::decimal(failed.len()) + " prerequisite check(s) failed: "@ + text::joined(
                    failed,
                    ", "@,
                ) + "; fix the checks above, then rerun `lightrail doctor`"@,
            ),
        )
    }
}

/// Rejects a report with checks that failed, and names them.
pub fn ensure_healthy(report: &DoctorReport) -> (r: Result<(), CliError>)
    ensures
        settles(r, health_problem(check_views(report.checks@))),
        r is Ok <==> forall|i: int|
            0 <= i < report.checks@.len() ==> (#[trigger] report.checks@[i]).status
                == CheckStatus::Passed,
{
    let ghost all = check_views(report.checks@);
    let mut failed: Vec<String> = Vec::new();
    let mut i: usize = 0;
    assert(all.take(0) =~= Seq::<CheckV>::empty());
    assert(text::texts(failed@) =~= Seq::<Seq<char>>::empty());
    while i < report.checks.len()
        invariant
            i <= report.checks@.len(),
            all == check_views(report.checks@),
            text::texts(failed@) == failed_names(all.take(i as int)),
        decreases report.checks.len() - i,
    {
        assert(all.take(i + 1).drop_last() =~= all.take(i as int));
        assert(all.take(i + 1).last() == report.checks@[i as int]@);
        if report.checks[i].status == CheckStatus::Failed {
            let ghost before = failed@;
            failed.push(report.checks[i].name.to_owned());
            assert(text::texts(failed@) =~= text::texts(before).push(report.checks@[i as int].name@));
        }
        i += 1;
    }
    proof {
        assert(all.take(all.len() as int) =~= all);
        lemma_failed_names(all);
        assert forall|k: int| 0 <= k < report.checks@.len() implies all[k].status == (
        #[trigger] report.checks@[k]).status by {}
        if forall|k: int| 0 <= k < all.len() ==> (#[trigger] all[k]).status == CheckStatus::Passed {
            assert forall|k: int| 0 <= k < report.checks@.len() implies (
            #[trigger] report.checks@[k]).status == CheckStatus::Passed by {
                assert(all[k].status == CheckStatus::Passed);
            }
        }
        if forall|k: int|
            0 <= k < report.checks@.len() ==> (#[trigger] report.checks@[k]).status == CheckStatus::Passed {
            assert forall|k: int| 0 <= k < all.len() implies (#[trigger] all[k]).status
                == CheckStatus::Passed by {
                assert(report.checks@[k].status == CheckStatus::Passed);
            }
        }
        assert(text::texts(failed@).len() == failed@.len());
    }
    if failed.len() == 0 {
        return Ok(());
    }
    Err(
        CliError::Operation(
            text::cat4(
                text::number(failed.len() as u128).as_str(),
                " prerequisite check(s) failed: ",
                text::join(&failed, ", ").as_str(),
                "; fix the checks above, then rerun `lightrail doctor`",
            ),
        ),
    )
}

// ---------------------------------------------------------------------------
// The checks of this machine
// ---------------------------------------------------------------------------

/// A check to be made.
pub struct CheckSpec {
    pub name: &'static str,
    pub command: CommandSpec,
    pub remediation: &'static str,
}

/// The model of [`CheckSpec`].
#[verifier::ext_equal]
pub struct CheckSpecV {
    pub name: Seq<char>,
    pub command: CommandV,
    pub remediation: Seq<char>,
}

impl View for CheckSpec {
    type V = CheckSpecV;

    open spec fn view(&self) -> CheckSpecV {
        CheckSpecV { name: self.name@, command: self.command@, remediation: self.remediation@ }
    }
}

/// The models of checks to be made.
pub open spec fn spec_views(checks: Seq<CheckSpec>) -> Seq<CheckSpecV> {
    Seq::new(checks.len(), |i: int| checks[i]@)
}

/// A command with arguments.
pub open spec fn command(program: Seq<char>, arguments: Seq<Seq<char>>) -> CommandV {
    CommandV { arguments, ..bare_command(program) }
}

/// The tools that every target needs.
pub open spec fn common_checks() -> Seq<CheckSpecV> {
    seq![
        CheckSpecV {
            name: "git"@,
            command: command("git"@, seq!["--version"@]),
            remediation: "Install Git and ensure it is on PATH."@,
        },
        CheckSpecV {
            name: "docker"@,
            command: command("docker"@, seq!["--version"@]),
            remediation: "Install Docker Engine or Docker Desktop."@,
        },
        CheckSpecV {
            name: "docker daemon"@,
            command: command("docker"@, seq!["info"@, "--format"@, "{{.ServerVersion}}"@]),
            remediation:
                "Start Docker Engine or Docker Desktop and ensure this user can access its daemon."@,
        },
        CheckSpecV {
            name: "docker buildx"@,
            command: command("docker"@, seq!["buildx"@, "version"@]),
            remediation: "Install or enable the Docker Buildx plugin."@,
        },
        CheckSpecV {
            name: "docker compose"@,
            command: command("docker"@, seq!["compose"@, "version"@, "--short"@]),
            remediation: "Install or enable the Docker Compose plugin."@,
        },
    ]
}

/// The tool that a target needs.
pub open spec fn target_check_of(target: Option<Seq<char>>) -> Option<CheckSpecV> {
    match target {
        Some(id) => if id == KUBERNETES_PLUGIN_ID@ {
            Some(
                CheckSpecV {
                    name: "kubectl"@,
                    command: command("kubectl"@, seq!["version"@, "--client"@]),
                    remediation: "Install kubectl and ensure it is on PATH."@,
                },
            )
        } else if id == SSH_PLUGIN_ID@ || id == HETZNER_PLUGIN_ID@ {
            Some(
                CheckSpecV {
                    name: "ssh"@,
                    command: command("ssh"@, seq!["-V"@]),
                    remediation: "Install an OpenSSH-compatible client."@,
                },
            )
        } else {
            None
        },
        None => None,
    }
}

/// The target as a text.
pub open spec fn target_text(target: Option<&str>) -> Option<Seq<char>> {
    match target {
        Some(id) => Some(id@),
        None => None,
    }
}

/// The tool that a target needs.
pub fn target_specific_check(target_plugin: Option<&str>) -> (r: Option<CheckSpec>)
    ensures
        match r {
            Some(check) => target_check_of(target_text(target_plugin)) == Some(check@),
            None => target_check_of(target_text(target_plugin)) is None,
        },
{
    match target_plugin {
        None => None,
        Some(id) => if text::same(id, KUBERNETES_PLUGIN_ID) {
            let check = CheckSpec {
                name: "kubectl",
                command: CommandSpec::new("kubectl").arg("version").arg("--client"),
                remediation: "Install kubectl and ensure it is on PATH.",
            };
            assert(check@.command =~= command("kubectl"@, seq!["version"@, "--client"@]));
            Some(check)
        } else if text::same(id, SSH_PLUGIN_ID) || text::same(id, HETZNER_PLUGIN_ID) {
            let check = CheckSpec {
                name: "ssh",
                command: CommandSpec::new("ssh").arg("-V"),
                remediation: "Install an OpenSSH-compatible client.",
            };
            assert(check@.command =~= command("ssh"@, seq!["-V"@]));
            Some(check)
        } else {
            None
        },
    }
}

/// All checks for a target.
pub open spec fn checks_for(target: Option<Seq<char>>) -> Seq<CheckSpecV> {
    match target_check_of(target) {
        Some(check) => common_checks().push(check),
        None => common_checks(),
    }
}

/// The checks of this machine, and those that were made.
pub struct Doctor {
    /// The checks to be made, in order.
    pub checks: Vec<CheckSpec>,
    /// Those that were made.
    pub report: DoctorReport,
}

/// What a check came to.
pub open spec fn made(check: CheckSpecV, outcome: Result<ProcessOutput, CliError>) -> CheckV {
    match outcome {
        Ok(output) => CheckV {
            name: check.name,
            status: if output.succeeded {
                CheckStatus::Passed
            } else {
                CheckStatus::Failed
            },
            detail: output.combined(),
            remediation: if output.succeeded {
                None
            } else {
                Some(check.remediation)
            },
        },
        Err(e) => CheckV {
            name: check.name,
            status: CheckStatus::Failed,
            detail: error_text(e@),
            remediation: Some(check.remediation),
        },
    }
}

impl Doctor {
    /// No more checks were made than there are.
    pub open spec fn wf(self) -> bool {
        self.report.checks@.len() <= self.checks@.len()
    }

    /// The checks before a project is set up.
    pub fn local() -> (r: Doctor)
        ensures
            r.wf(),
            spec_views(r.checks@) == checks_for(None),
            r.report.checks@.len() == 0,
    {
        Doctor::local_for(None)
    }

    /// The checks of the common local tools plus those needed by one configured target.
    pub fn local_for(target_plugin: Option<&str>) -> (r: Doctor)
        ensures
            r.wf(),
            spec_views(r.checks@) == checks_for(target_text(target_plugin)),
            r.report.checks@.len() == 0,
    {
        let git = CheckSpec {
            name: "git",
            command: CommandSpec::new("git").arg("--version"),
            remediation: "Install Git and ensure it is on PATH.",
        };
        let docker = CheckSpec {
            name: "docker",
            command: CommandSpec::new("docker").arg("--version"),
            remediation: "Install Docker Engine or Docker Desktop.",
        };
        let daemon = CheckSpec {
            name: "docker daemon",
            command: CommandSpec::new("docker").arg("info").arg("--format").arg(
                "{{.ServerVersion}}",
            ),
            remediation:
                "Start Docker Engine or Docker Desktop and ensure this user can access its daemon.",
        };
        let buildx = CheckSpec {
            name: "docker buildx",
            command: CommandSpec::new("docker").arg("buildx").arg("version"),
            remediation: "Install or enable the Docker Buildx plugin.",
        };
        let compose = CheckSpec {
            name: "docker compose",
            command: CommandSpec::new("docker").arg("compose").arg("version").arg("--short"),
            remediation: "Install or enable the Docker Compose plugin.",
        };
        proof {
            assert(git@.command =~= command("git"@, seq!["--version"@]));
            assert(docker@.command =~= command("docker"@, seq!["--version"@]));
            assert(daemon@.command =~= command(
                "docker"@,
                seq!["info"@, "--format"@, "{{.ServerVersion}}"@],
            ));
            assert(buildx@.command =~= command("docker"@, seq!["buildx"@, "version"@]));
            assert(compose@.command =~= command("docker"@, seq!["compose"@, "version"@, "--short"@]));
        }
        let mut checks: Vec<CheckSpec> = Vec::new();
        checks.push(git);
        checks.push(docker);
        checks.push(daemon);
        checks.push(buildx);
        checks.push(compose);
        assert(spec_views(checks@) =~= common_checks());
        if let Some(check) = target_specific_check(target_plugin) {
            let ghost before = checks@;
            let ghost added = check@;
            checks.push(check);
            assert(spec_views(checks@) =~= spec_views(before).push(added));
        }
        Doctor { checks, report: DoctorReport { checks: Vec::new() } }
    }

    /// The command of the next check.
    pub fn pending(&self) -> (r: Option<&CommandSpec>)
        ensures
            match r {
                Some(command) => self.report.checks@.len() < self.checks@.len() && *command
                    == self.checks@[self.report.checks@.len() as int].command,
                None => self.report.checks@.len() >= self.checks@.len(),
            },
    {
        let at: usize = self.report.checks.len();
        if at < self.checks.len() {
            Some(&self.checks[at].command)
        } else {
            None
        }
    }

    /// Notes what the next check came to.
    pub fn record(&mut self, outcome: Result<ProcessOutput, CliError>)
        requires
            old(self).report.checks@.len() < old(self).checks@.len(),
        ensures
            final(self).wf(),
            final(self).checks == old(self).checks,
            check_views(final(self).report.checks@) == check_views(old(self).report.checks@).push(
                made(old(self).checks@[old(self).report.checks@.len() as int]@, outcome),
            ),
    {
        let ghost before = self.report.checks@;
        let at: usize = self.report.checks.len();
        let name = self.checks[at].name;
        let remediation = self.checks[at].remediation;
        let check = match outcome {
            Ok(output) => if output.succeeded {
                DoctorCheck {
                    name,
                    status: CheckStatus::Passed,
                    detail: output.combined_text(),
                    remediation: None,
                }
            } else {
                DoctorCheck {
                    name,
                    status: CheckStatus::Failed,
                    detail: output.combined_text(),
                    remediation: Some(remediation),
                }
            },
            Err(e) => DoctorCheck {
                name,
                status: CheckStatus::Failed,
                detail: e.message(),
                remediation: Some(remediation),
            },
        };
        let ghost added = check@;
        self.report.checks.push(check);
        assert(check_views(self.report.checks@) =~= check_views(before).push(added));
    }
}

// ---------------------------------------------------------------------------
// The check of the target
// ---------------------------------------------------------------------------

/// Whether the state of a target is a good one. A target is expected to be absent before
/// the first deployment; that this could be found out shows that the credentials work.
pub open spec fn is_good_target(status: ResourceStatus) -> bool {
    status is Ready || status is Absent
}

/// What the state of a target comes to.
pub fn target_check_status(status: ResourceStatus) -> (r: CheckStatus)
    ensures
        r == if is_good_target(status) {
            CheckStatus::Passed
        } else {
            CheckStatus::Failed
        },
{
    match status {
        ResourceStatus::Ready => CheckStatus::Passed,
        ResourceStatus::Absent => CheckStatus::Passed,
        _ => CheckStatus::Failed,
    }
}

/// What is known of the target of a project.
pub enum TargetOutcome {
    /// There is no project.
    NoProject(CliError),
    /// The target was inspected.
    Inspected(Result<ResourceStatus, CliError>),
}

/// What the check of the target came to.
pub open spec fn target_made(outcome: TargetOutcome) -> CheckV {
    let help = "Check the selected profile credentials and target settings."@;
    match outcome {
        TargetOutcome::Inspected(Ok(status)) => CheckV {
            name: "target"@,
            status: if is_good_target(status) {
                CheckStatus::Passed
            } else {
                CheckStatus::Failed
            },
            detail: status_name(status),
            remediation: if is_good_target(status) {
                None
            } else {
                Some(help)
            },
        },
        TargetOutcome::Inspected(Err(e)) => CheckV {
            name: "target"@,
            status: CheckStatus::Failed,
            detail: error_text(e@),
            remediation: Some(help),
        },
        TargetOutcome::NoProject(e) => CheckV {
            name: "target"@,
            status: CheckStatus::Failed,
            detail: error_text(e@),
            remediation: Some("Run this command inside an initialized Lightrail project."@),
        },
    }
}

/// What the check of the target came to.
pub fn target_check(outcome: TargetOutcome) -> (r: DoctorCheck)
    ensures
        r@ == target_made(outcome),
{
    match outcome {
        TargetOutcome::Inspected(Ok(status)) => {
            let verdict = target_check_status(status);
            DoctorCheck {
                name: "target",
                status: verdict,
                detail: name_status(status).to_owned(),
                remediation: if verdict == CheckStatus::Failed {
                    Some("Check the selected profile credentials and target settings.")
                } else {
                    None
                },
            }
        },
        TargetOutcome::Inspected(Err(e)) => DoctorCheck {
            name: "target",
            status: CheckStatus::Failed,
            detail: e.message(),
            remediation: Some("Check the selected profile credentials and target settings."),
        },
        TargetOutcome::NoProject(e) => DoctorCheck {
            name: "target",
            status: CheckStatus::Failed,
            detail: e.message(),
            remediation: Some("Run this command inside an initialized Lightrail project."),
        },
    }
}

// ---------------------------------------------------------------------------
// The lines of a report
// ---------------------------------------------------------------------------

/// The word for what a check came to.
pub open spec fn verdict_text(status: CheckStatus) -> Seq<char> {
    match status {
        CheckStatus::Passed => "ok"@,
        CheckStatus::Failed => "failed"@,
    }
}

/// The line of a check for scripts.
pub open spec fn plain_line(check: CheckV) -> Seq<char> {
    check.name + "\t"@ + verdict_text(check.status)
}

/// The line of a check for a person.
pub open spec fn human_line(check: CheckV) -> Seq<char> {
    view::padded(check.name, 16) + " "@ + view::padded(verdict_text(check.status), 6) + " "@ + (if check.name
        == "target"@ {
        text::lowered(check.detail)
    } else {
        check.detail
    })
}

/// The lines of checks.
pub open spec fn report_lines(checks: Seq<CheckV>, human: bool) -> Seq<Seq<char>>
    decreases checks.len(),
{
    if checks.len() == 0 {
        Seq::empty()
    } else {
        let before = report_lines(checks.drop_last(), human);
        let check = checks.last();
        if !human {
            before.push(plain_line(check))
        } else {
            match check.remediation {
                Some(help) => before.push(human_line(check)).push("  help: "@ + help),
                None => before.push(human_line(check)),
            }
        }
    }
}

/// The line of a check.
fn check_line(check: &DoctorCheck, human: bool) -> (r: String)
    ensures
        r@ == if human {
            human_line(check@)
        } else {
            plain_line(check@)
        },
{
    let verdict = match check.status {
        CheckStatus::Passed => "ok",
        CheckStatus::Failed => "failed",
    };
    if !human {
        return text::cat3(check.name, "\t", verdict);
    }
    let detail = if text::same(check.name, "target") {
        text::to_lower(check.detail.as_str())
    } else {
        check.detail.clone()
    };
    text::cat5(
        view::pad(check.name, 16).as_str(),
        " ",
        view::pad(verdict, 6).as_str(),
        " ",
        detail.as_str(),
    )
}

/// The lines of a report; a document stands for it instead where the format is one.
pub fn doctor_lines(report: &DoctorReport, format: OutputFormat) -> (r: Option<Vec<String>>)
    ensures
        match r {
            None => format == OutputFormat::Json,
            Some(lines) => format != OutputFormat::Json && text::texts(lines@) == report_lines(
                check_views(report.checks@),
                format == OutputFormat::Human,
            ),
        },
{
    if format == OutputFormat::Json {
        return None;
    }
    let human = format == OutputFormat::Human;
    let ghost all = check_views(report.checks@);
    let mut lines: Vec<String> = Vec::new();
    let mut i: usize = 0;
    assert(all.take(0) =~= Seq::<CheckV>::empty());
    assert(text::texts(lines@) =~= Seq::<Seq<char>>::empty());
    while i < report.checks.len()
        invariant
            i <= report.checks@.len(),
            all == check_views(report.checks@),
            text::texts(lines@) == report_lines(all.take(i as int), human),
        decreases report.checks.len() - i,
    {
        assert(all.take(i + 1).drop_last() =~= all.take(i as int));
        assert(all.take(i + 1).last() == report.checks@[i as int]@);
        let ghost before = lines@;
        let check = &report.checks[i];
        let line = check_line(check, human);
        let ghost first = line@;
        lines.push(line);
        assert(text::texts(lines@) =~= text::texts(before).push(first));
        if human {
            if let Some(help) = check.remediation {
                let ghost between = lines@;
                lines.push(text::cat2("  help: ", help));
                assert(text::texts(lines@) =~= text::texts(between).push("  help: "@ + help@));
            }
        }
        i += 1;
    }
    assert(all.take(all.len() as int) =~= all);
    Some(lines)
}

/// The report is sound exactly where every check passed.
pub proof fn one_failed_check_fails_the_report(checks: Seq<CheckV>)
    ensures
        health_problem(checks) is Some <==> exists|i: int|
            0 <= i < checks.len() && (#[trigger] checks[i]).status == CheckStatus::Failed,
{
    lemma_failed_names(checks);
    if health_problem(checks) is Some {
        let i = choose|i: int| 0 <= i < checks.len() && (#[trigger] checks[i]).status != CheckStatus::Passed;
        assert(checks[i].status == CheckStatus::Failed);
    }
}

/// The names of failed checks are listed, and no others.
pub proof fn failed_checks_are_named(checks: Seq<CheckV>, i: int)
    requires
        0 <= i < checks.len(),
        checks[i].status == CheckStatus::Failed,
    ensures
        failed_names(checks).contains(checks[i].name),
    decreases checks.len(),
{
    let list = failed_names(checks);
    if i == checks.len() - 1 {
        assert(list[list.len() - 1] == checks[i].name);
    } else {
        failed_checks_are_named(checks.drop_last(), i);
        let before = failed_names(checks.drop_last());
        let k = choose|k: int| 0 <= k < before.len() && before[k] == checks[i].name;
        assert(list[k] == checks[i].name);
    }
}

/// A check passes exactly where its command ran and succeeded; help is given exactly where it
/// did not.
pub proof fn checks_pass_with_their_command(check: CheckSpecV, outcome: Result<ProcessOutput, CliError>)
    ensures
        made(check, outcome).name == check.name,
        made(check, outcome).status == CheckStatus::Passed <==> (outcome matches Ok(output) && output.succeeded),
        made(check, outcome).status == CheckStatus::Passed ==> made(check, outcome).remediation is None,
        made(check, outcome).status == CheckStatus::Failed ==> made(check, outcome).remediation == Some(
            check.remediation,
        ),
        outcome matches Ok(output) ==> made(check, outcome).detail == output.combined(),
{
}

/// A target passes exactly where it was inspected and is ready or not there yet.
pub proof fn reachable_targets_pass(outcome: TargetOutcome)
    ensures
        target_made(outcome).name == "target"@,
        target_made(outcome).status == CheckStatus::Passed <==> (outcome == TargetOutcome::Inspected(
            Ok(ResourceStatus::Ready),
        ) || outcome == TargetOutcome::Inspected(Ok(ResourceStatus::Absent))),
        target_made(outcome).status == CheckStatus::Failed <==> target_made(outcome).remediation is Some,
{
}

/// Whether a program is checked.
pub open spec fn is_checked(checks: Seq<CheckSpecV>, program: Seq<char>) -> bool {
    exists|i: int| 0 <= i < checks.len() && (#[trigger] checks[i]).command.program == program
}

/// Git and Docker are checked for every target; `kubectl` for Kubernetes, and an SSH client for
/// machines.
pub proof fn needed_programs_are_checked(target: Option<Seq<char>>)
    ensures
        is_checked(checks_for(target), "git"@),
        is_checked(checks_for(target), "docker"@),
        target == Some("dev.lightrail.kubernetes"@) ==> is_checked(checks_for(target), "kubectl"@),
        target == Some("dev.lightrail.ssh"@) || target == Some("dev.lightrail.hetzner"@) ==> is_checked(
            checks_for(target),
            "ssh"@,
        ),
        target == Some("dev.lightrail.ssh"@) || target == Some("dev.lightrail.hetzner"@) || target == Some(
            "dev.lightrail.kubernetes"@,
        ) ==> checks_for(target).len() == 6,
{
    let checks = checks_for(target);
    assert(checks[0].command.program == "git"@);
    assert(checks[1].command.program == "docker"@);
    reveal_strlit("dev.lightrail.kubernetes");
    reveal_strlit("dev.lightrail.ssh");
    reveal_strlit("dev.lightrail.hetzner");
    if target == Some("dev.lightrail.kubernetes"@) {
        assert(checks[5].command.program == "kubectl"@);
    }
    if target == Some("dev.lightrail.ssh"@) || target == Some("dev.lightrail.hetzner"@) {
        assert("dev.lightrail.ssh"@[14] == 's' && "dev.lightrail.hetzner"@[14] == 'h'
            && "dev.lightrail.kubernetes"@[14] == 'k');
        assert(checks[5].command.program == "ssh"@);
    }
}

/// A plain report has one line for each check, in order: the name, a tab, and `ok` or `failed`.
pub proof fn plain_reports_have_a_line_for_each_check(checks: Seq<CheckV>, i: int)
    requires
        0 <= i < checks.len(),
    ensures
        report_lines(checks, false).len() == checks.len(),
        checks[i].status == CheckStatus::Passed ==> report_lines(checks, false)[i] == checks[i].name + "\t"@
            + "ok"@,
        checks[i].status == CheckStatus::Failed ==> report_lines(checks, false)[i] == checks[i].name + "\t"@
            + "failed"@,
    decreases checks.len(),
{
    if checks.len() > 1 {
        let before = checks.drop_last();
        if i < checks.len() - 1 {
            plain_reports_have_a_line_for_each_check(before, i);
        } else {
            plain_reports_have_a_line_for_each_check(before, 0);
        }
    } else {
        assert(report_lines(checks.drop_last(), false).len() == 0);
    }
}

} // verus!
