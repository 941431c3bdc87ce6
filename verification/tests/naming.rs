use lightrail::config::ProjectId;
use lightrail::git::{GitContext, GitError, GitOutput, GitProgress, GitStep};
use lightrail::identity::{EnvironmentIdentity, LABEL_ENVIRONMENT_ID, LABEL_MANAGED, LABEL_PROJECT_ID};
use lightrail::naming::{ipv4_hex, DnsLabel, Hostname, IpDnsDomain, NamingError, DNS_LABEL_MAX_BYTES};

fn project_id() -> ProjectId {
    ProjectId::parse("2f1c30f5-dce1-4a5c-a751-3a766f6b48ea").expect("UUID")
}

#[test]
fn identity_is_deterministic_and_provider_safe() {
    let first = EnvironmentIdentity::new(project_id(), "myproject", "preview", "feature/login")
        .expect("identity");
    let second = EnvironmentIdentity::new(project_id(), "myproject", "preview", "feature/login")
        .expect("identity");

    assert_eq!(first.id(), second.id());
    assert_eq!(first.id().as_str().len(), 27);
    assert!(first
        .id()
        .as_str()
        .bytes()
        .all(|byte| { byte.is_ascii_lowercase() || byte.is_ascii_digit() || byte == b'-' }));
}

#[test]
fn slug_does_not_change_identity_but_branch_and_profile_do() {
    let base = EnvironmentIdentity::new(project_id(), "old-name", "preview", "main").expect("identity");
    let renamed = EnvironmentIdentity::new(project_id(), "new-name", "preview", "main").expect("identity");
    let profile = EnvironmentIdentity::new(project_id(), "old-name", "staging", "main").expect("identity");
    let branch = EnvironmentIdentity::new(project_id(), "old-name", "preview", "next").expect("identity");

    assert_eq!(base.id(), renamed.id());
    assert_ne!(base.id(), profile.id());
    assert_ne!(base.id(), branch.id());
}

#[test]
fn resource_labels_are_safe_and_stable() {
    let identity = EnvironmentIdentity::new(project_id(), "My Project", "Preview", "feature/login")
        .expect("identity");
    let labels = identity.resource_labels();
    let label = |name: &str| {
        labels
            .iter()
            .find(|(key, _)| *key == name)
            .map(|(_, value)| value.clone())
            .expect("label")
    };

    assert_eq!(label(LABEL_MANAGED), "true");
    assert_eq!(label(LABEL_PROJECT_ID), project_id().simple());
    assert_eq!(label(LABEL_ENVIRONMENT_ID), identity.id().as_str());
    assert!(labels.iter().all(|(_, value)| {
        value.len() <= 63
            && value
                .bytes()
                .all(|byte| byte.is_ascii_lowercase() || byte.is_ascii_digit() || byte == b'-')
    }));
}

#[test]
fn builds_hostnames_from_raw_app_names() {
    let identity = EnvironmentIdentity::new(project_id(), "myproject", "preview", "feature-login")
        .expect("identity");
    let hostname = identity
        .hostname("frontend", [203, 0, 113, 10], IpDnsDomain::SslipIo)
        .expect("hostname");

    assert_eq!(
        hostname.as_str(),
        "feature-login.frontend.preview.myproject.cb00710a.sslip.io"
    );
}

#[test]
fn rejects_nil_project_identity() {
    let error = EnvironmentIdentity::new(ProjectId::from_uuid([0; 16]), "project", "profile", "branch")
        .expect_err("nil identity");

    assert_eq!(error, NamingError::NilProjectId);
}

#[test]
fn an_environment_without_a_branch_has_no_identity() {
    let error = EnvironmentIdentity::new(project_id(), "project", "profile", "").expect_err("empty");
    assert_eq!(error, NamingError::Empty { kind: "branch" });
}

#[test]
fn formats_ipv4_as_exact_lowercase_hex() {
    assert_eq!(ipv4_hex([203, 0, 113, 10]), "cb00710a");
}

#[test]
fn valid_label_is_unchanged() {
    assert_eq!(
        DnsLabel::new("feature-login").expect("valid label").as_str(),
        "feature-login"
    );
}

#[test]
fn normalized_labels_cannot_collide_with_a_literal_label() {
    let slash = DnsLabel::new("feature/login").expect("normalizable label");
    let hyphen = DnsLabel::new("feature-login").expect("valid label");

    assert!(slash.as_str().starts_with("feature-login-"));
    assert_ne!(slash, hyphen);
    assert_eq!(slash.as_str().len(), "feature-login-".len() + 8);
}

#[test]
fn normalization_is_stable_and_dns_safe() {
    let first = DnsLabel::new("///Feature___LOGIN///").expect("normalizable label");
    let second = DnsLabel::new("///Feature___LOGIN///").expect("normalizable label");

    assert_eq!(first, second);
    assert!(first.as_str().starts_with("feature-login-"));
    assert!(first.as_str().len() <= DNS_LABEL_MAX_BYTES);
    assert!(first
        .as_str()
        .bytes()
        .all(|byte| { byte.is_ascii_lowercase() || byte.is_ascii_digit() || byte == b'-' }));
}

#[test]
fn long_labels_are_truncated_with_a_hash() {
    let label = DnsLabel::new(&"a".repeat(100)).expect("long label");

    assert_eq!(label.as_str().len(), DNS_LABEL_MAX_BYTES);
    assert!(label.as_str().starts_with(&"a".repeat(54)));
}

#[test]
fn rejects_a_label_with_no_dns_characters() {
    assert!(matches!(
        DnsLabel::new("///___"),
        Err(NamingError::Empty { .. })
    ));
}

#[test]
fn constructs_exact_branch_first_hostname() {
    let hostname = Hostname::new(
        &DnsLabel::new("feature-login").expect("branch"),
        &DnsLabel::new("frontend").expect("app"),
        &DnsLabel::new("preview").expect("profile"),
        &DnsLabel::new("myproject").expect("project"),
        [203, 0, 113, 10],
        IpDnsDomain::SslipIo,
    )
    .expect("hostname");

    assert_eq!(
        hostname.as_str(),
        "feature-login.frontend.preview.myproject.cb00710a.sslip.io"
    );
    assert_eq!(
        hostname.https_url(),
        "https://feature-login.frontend.preview.myproject.cb00710a.sslip.io"
    );
}

#[test]
fn rejects_names_over_the_total_dns_limit() {
    let label = DnsLabel::new(&"a".repeat(63)).expect("label");
    let error = Hostname::new(&label, &label, &label, &label, [127, 0, 0, 1], IpDnsDomain::SslipIo)
        .expect_err("complete name should be too long");

    assert!(matches!(error, NamingError::DnsNameTooLong { .. }));
}

#[test]
fn two_domains_encode_addresses() {
    assert_eq!(IpDnsDomain::parse("nip.io"), Ok(IpDnsDomain::NipIo));
    let error = IpDnsDomain::parse("example.com").expect_err("unsupported");
    assert_eq!(error, NamingError::UnsupportedIpDnsDomain("example.com".to_owned()));
    assert!(error.message().contains("example.com"));
}

fn output(stdout: &str) -> Result<GitOutput, GitError> {
    Ok(GitOutput::from_bytes(true, Some(0), stdout.as_bytes().to_vec(), b""))
}

fn failure(stderr: &str) -> Result<GitOutput, GitError> {
    Ok(GitOutput::from_bytes(false, Some(128), Vec::new(), stderr.as_bytes()))
}

fn discover(outcomes: Vec<Result<GitOutput, GitError>>) -> Result<GitContext, GitError> {
    let mut step = GitStep::Root;
    for outcome in outcomes {
        match GitContext::discover("/repository/a/b", step, outcome) {
            GitProgress::Continue(next) => step = next,
            GitProgress::Finished(result) => return result,
        }
    }
    panic!("discovery did not end")
}

const COMMIT: &str = "0123456789ABCDEF0123456789abcdef01234567";

#[test]
fn discovers_root_branch_commit_and_dirty_state() {
    let clean = discover(vec![
        output("/repository\n"),
        output("feature/login\n"),
        output("0123456789ABCDEF0123456789abcdef01234567\n"),
        output(""),
    ])
    .expect("clean context");
    assert_eq!(clean.repo_root(), "/repository");
    assert_eq!(clean.branch(), "feature/login");
    assert!(clean.commit().is_some());
    assert!(!clean.is_detached());
    assert!(!clean.is_dirty());

    let dirty = discover(vec![
        output("/repository\n"),
        output("feature/login\n"),
        output("0123456789ABCDEF0123456789abcdef01234567\n"),
        output("?? untracked.txt\n"),
    ])
    .expect("dirty context");
    assert_eq!(dirty.branch(), clean.branch());
    assert_eq!(dirty.commit(), clean.commit());
    assert!(dirty.is_dirty());
}

#[test]
fn detached_head_uses_twelve_commit_characters() {
    let context = discover(vec![
        output("/repository\n"),
        failure("fatal: ref HEAD is not a symbolic ref"),
        output(COMMIT),
        output("?? dirty.txt\n"),
    ])
    .expect("detached context");
    let commit = COMMIT.to_ascii_lowercase();

    assert!(context.is_detached());
    assert!(context.is_dirty());
    assert_eq!(context.branch(), format!("sha-{}", &commit[..12]));
    assert_eq!(context.commit(), Some(commit.as_str()));
}

#[test]
fn a_branch_without_commits_has_no_commit() {
    let context = discover(vec![output("/repository\n"), output("main\n"), failure("unknown revision"), output("")])
        .expect("unborn branch");
    assert_eq!(context.commit(), None);
    assert_eq!(context.branch(), "main");
    assert!(!context.is_detached());
}

#[test]
fn reports_non_repository_as_a_typed_error() {
    let error = discover(vec![failure(" fatal: not a git repository \n")]).expect_err("not a repository");

    match error {
        GitError::NotRepository { start, stderr } => {
            assert_eq!(start, "/repository/a/b");
            assert_eq!(stderr, "fatal: not a git repository");
        }
        _ => panic!("must be typed"),
    }
}

#[test]
fn git_errors_are_typed() {
    let empty = discover(vec![output("\n")]).expect_err("empty");
    assert!(matches!(empty, GitError::EmptyOutput { .. }));
    let bytes = discover(vec![Ok(GitOutput::from_bytes(true, Some(0), vec![0xff, 0xfe], b""))]).expect_err("bytes");
    assert!(matches!(bytes, GitError::InvalidUtf8 { .. }));
    assert!(bytes.message().ends_with(": invalid utf-8 sequence of 1 bytes from index 0"));
    let commit = discover(vec![output("/r\n"), output("main\n"), output("short\n")]).expect_err("commit");
    assert_eq!(commit, GitError::InvalidCommit("short".to_owned()));
    let failed = discover(vec![output("/r\n"), failure("detached"), failure("broken")]).expect_err("failed");
    assert!(matches!(failed, GitError::CommandFailed { status: Some(128), .. }));
    assert!(failed.message().contains("broken"));
    let timed_out = discover(vec![Err(GitError::TimedOut {
        operation: "finding repository root",
        timeout_ms: 200,
        cleanup: String::new(),
    })])
    .expect_err("timed out");
    assert!(matches!(timed_out, GitError::TimedOut { timeout_ms: 200, .. }));
    assert_eq!(timed_out.message(), "Git timed out while finding repository root after 200ms");
}
