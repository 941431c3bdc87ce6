//! Deterministic environment identity and discovery labels.

use vstd::prelude::*;

use crate::config;
use crate::config::{Project, ProjectId};
use crate::git::GitContext;
use crate::naming;
use crate::naming::{DnsLabel, Hostname, IpDnsDomain, NamingError};
use crate::outside;
use crate::text;

verus! {

/// Resource label marking an object as managed by Lightrail.
pub const LABEL_MANAGED: &'static str = "lightrail-managed";

/// Resource label containing the immutable project UUID.
pub const LABEL_PROJECT_ID: &'static str = "lightrail-project-id";

/// Resource label containing the normalized project slug.
pub const LABEL_PROJECT: &'static str = "lightrail-project";

/// Resource label containing the environment identifier.
pub const LABEL_ENVIRONMENT_ID: &'static str = "lightrail-environment-id";

/// Resource label containing the normalized profile.
pub const LABEL_PROFILE: &'static str = "lightrail-profile";

/// Resource label containing the normalized Git branch or detached-HEAD name.
pub const LABEL_BRANCH: &'static str = "lightrail-branch";

/// A number as eight bytes, the most significant first.
pub open spec fn big_endian(n: u64) -> Seq<u8> {
    seq![
        (n / 72057594037927936) as u8,
        (n / 281474976710656 % 256) as u8,
        (n / 1099511627776 % 256) as u8,
        (n / 4294967296 % 256) as u8,
        (n / 16777216 % 256) as u8,
        (n / 65536 % 256) as u8,
        (n / 256 % 256) as u8,
        (n % 256) as u8,
    ]
}

/// A text behind the length of its UTF-8 encoding.
pub open spec fn length_prefixed(s: Seq<char>) -> Seq<u8> {
    big_endian(text::utf8_len(s) as u64) + vstd::utf8::encode_utf8(s)
}

/// The bytes whose digest names an environment: a fixed heading, the project and the
/// length-prefixed profile and branch.
pub open spec fn identity_bytes(project: Seq<u8>, profile: Seq<char>, branch: Seq<char>) -> Seq<u8> {
    vstd::utf8::encode_utf8("lightrail/environment/v1\0"@) + project + length_prefixed(profile)
        + length_prefixed(branch)
}

/// The identifier of an environment: `lr-` and the first twelve digest bytes in
/// hexadecimal notation.
pub open spec fn environment_id_text(project: Seq<u8>, profile: Seq<char>, branch: Seq<char>) -> Seq<char> {
    "lr-"@ + outside::hex_text(outside::sha256_of(identity_bytes(project, profile, branch)).subrange(0, 12))
}

/// A number is known from its eight bytes.
proof fn lemma_big_endian_injective(a: u64, b: u64)
    requires
        big_endian(a) == big_endian(b),
    ensures
        a == b,
{
    let x = big_endian(a);
    let y = big_endian(b);
    assert(x[0] == y[0] && x[1] == y[1] && x[2] == y[2] && x[3] == y[3]);
    assert(x[4] == y[4] && x[5] == y[5] && x[6] == y[6] && x[7] == y[7]);
    lemma_recompose(a);
    lemma_recompose(b);
}

/// A number is the sum of its eight bytes, each at its place.
proof fn lemma_recompose(n: u64)
    ensures
        n == big_endian(n)[0] * 72057594037927936 + big_endian(n)[1] * 281474976710656 + big_endian(n)[2]
            * 1099511627776 + big_endian(n)[3] * 4294967296 + big_endian(n)[4] * 16777216 + big_endian(n)[5]
            * 65536 + big_endian(n)[6] * 256 + big_endian(n)[7],
{
    assert(n == (n / 72057594037927936) * 72057594037927936 + (n / 281474976710656 % 256) * 281474976710656
        + (n / 1099511627776 % 256) * 1099511627776 + (n / 4294967296 % 256) * 4294967296 + (n / 16777216
        % 256) * 16777216 + (n / 65536 % 256) * 65536 + (n / 256 % 256) * 256 + n % 256) by (bit_vector);
    assert(n / 72057594037927936 < 256) by (bit_vector);
    let b = big_endian(n);
    assert(b[0] == n / 72057594037927936 && b[1] == n / 281474976710656 % 256);
    assert(b[2] == n / 1099511627776 % 256 && b[3] == n / 4294967296 % 256);
    assert(b[4] == n / 16777216 % 256 && b[5] == n / 65536 % 256);
    assert(b[6] == n / 256 % 256 && b[7] == n % 256);
}

/// A text is known from its UTF-8 encoding.
proof fn lemma_utf8_injective(a: Seq<char>, b: Seq<char>)
    requires
        vstd::utf8::encode_utf8(a) == vstd::utf8::encode_utf8(b),
    ensures
        a == b,
{
    vstd::utf8::encode_utf8_decode_utf8(a);
    vstd::utf8::encode_utf8_decode_utf8(b);
}

/// Two length-prefixed texts with anything behind them agree only where the texts do.
proof fn lemma_prefix_splits(a: Seq<char>, x: Seq<u8>, b: Seq<char>, y: Seq<u8>)
    requires
        text::utf8_len(a) <= u64::MAX,
        text::utf8_len(b) <= u64::MAX,
        length_prefixed(a) + x == length_prefixed(b) + y,
    ensures
        a == b,
        x == y,
{
    let s = length_prefixed(a) + x;
    let t = length_prefixed(b) + y;
    assert(s.subrange(0, 8) =~= big_endian(text::utf8_len(a) as u64));
    assert(t.subrange(0, 8) =~= big_endian(text::utf8_len(b) as u64));
    lemma_big_endian_injective(text::utf8_len(a) as u64, text::utf8_len(b) as u64);
    let n = text::utf8_len(a) as int;
    assert(s.subrange(8, 8 + n) =~= vstd::utf8::encode_utf8(a));
    assert(t.subrange(8, 8 + n) =~= vstd::utf8::encode_utf8(b));
    lemma_utf8_injective(a, b);
    assert(s.subrange(8 + n, s.len() as int) =~= x);
    assert(t.subrange(8 + n, t.len() as int) =~= y);
}

/// Different environments are hashed from different bytes: the project, the profile and
/// the branch are known from what is hashed.
pub proof fn identity_bytes_tell_environments_apart(
    project1: Seq<u8>,
    profile1: Seq<char>,
    branch1: Seq<char>,
    project2: Seq<u8>,
    profile2: Seq<char>,
    branch2: Seq<char>,
)
    requires
        project1.len() == 16,
        project2.len() == 16,
        text::utf8_len(profile1) <= u64::MAX,
        text::utf8_len(profile2) <= u64::MAX,
        text::utf8_len(branch1) <= u64::MAX,
        text::utf8_len(branch2) <= u64::MAX,
        identity_bytes(project1, profile1, branch1) == identity_bytes(project2, profile2, branch2),
    ensures
        project1 == project2,
        profile1 == profile2,
        branch1 == branch2,
{
    let head = vstd::utf8::encode_utf8("lightrail/environment/v1\0"@);
    let s = identity_bytes(project1, profile1, branch1);
    let t = identity_bytes(project2, profile2, branch2);
    let n = head.len() as int;
    assert(s.subrange(n, n + 16) =~= project1);
    assert(t.subrange(n, n + 16) =~= project2);
    assert(s.subrange(n + 16, s.len() as int) =~= length_prefixed(profile1) + length_prefixed(branch1));
    assert(t.subrange(n + 16, t.len() as int) =~= length_prefixed(profile2) + length_prefixed(branch2));
    lemma_prefix_splits(profile1, length_prefixed(branch1), profile2, length_prefixed(branch2));
    assert(length_prefixed(branch1) + Seq::<u8>::empty() =~= length_prefixed(branch1));
    assert(length_prefixed(branch2) + Seq::<u8>::empty() =~= length_prefixed(branch2));
    lemma_prefix_splits(branch1, Seq::empty(), branch2, Seq::empty());
}

/// A deterministic, provider-safe environment identifier.
///
/// The identifier uses 96 bits of a domain-separated SHA-256 digest and is
/// stable for the tuple `(project UUID, profile, raw branch)`.
#[derive(Clone, Debug, PartialEq, Eq, PartialOrd, Ord, Hash)]
pub struct EnvironmentId {
    name: String,
}

impl View for EnvironmentId {
    type V = Seq<char>;

    closed spec fn view(&self) -> Seq<char> {
        self.name@
    }
}

impl EnvironmentId {
    /// Returns the provider-safe identifier.
    pub fn as_str(&self) -> (r: &str)
        ensures
            r@ == self@,
    {
        self.name.as_str()
    }
}

/// Appends bytes.
fn append_bytes(out: &mut Vec<u8>, data: &[u8])
    ensures
        final(out)@ == old(out)@ + data@,
{
    let ghost start = out@;
    let mut i: usize = 0;
    assert(start + data@.take(0) =~= start);
    while i < data.len()
        invariant
            i <= data@.len(),
            out@ == start + data@.take(i as int),
        decreases data.len() - i,
    {
        out.push(data[i]);
        assert(out@ =~= start + data@.take(i + 1));
        i += 1;
    }
    assert(data@.take(data@.len() as int) =~= data@);
}

/// Appends a text behind its length.
fn append_length_prefixed(out: &mut Vec<u8>, s: &str)
    ensures
        final(out)@ == old(out)@ + length_prefixed(s@),
{
    let ghost start = out@;
    let n: u64 = text::byte_len(s) as u64;
    let prefix: [u8; 8] = [
        (n / 72057594037927936) as u8,
        (n / 281474976710656 % 256) as u8,
        (n / 1099511627776 % 256) as u8,
        (n / 4294967296 % 256) as u8,
        (n / 16777216 % 256) as u8,
        (n / 65536 % 256) as u8,
        (n / 256 % 256) as u8,
        (n % 256) as u8,
    ];
    assert(prefix@ =~= big_endian(n));
    append_bytes(out, prefix.as_slice());
    append_bytes(out, s.as_bytes());
    assert(out@ =~= start + length_prefixed(s@));
}

/// Derives the identifier of an environment.
fn derive_environment_id(project_id: ProjectId, profile: &str, branch: &str) -> (r: EnvironmentId)
    ensures
        r@ == environment_id_text(project_id@, profile@, branch@),
        is_environment_id(r@),
        provider_safe(r@),
{
    let mut data: Vec<u8> = Vec::new();
    append_bytes(&mut data, "lightrail/environment/v1\0".as_bytes());
    append_bytes(&mut data, project_id.bytes.as_slice());
    append_length_prefixed(&mut data, profile);
    append_length_prefixed(&mut data, branch);
    assert(data@ =~= identity_bytes(project_id@, profile@, branch@));
    let digest = outside::sha256(data.as_slice());
    let short = outside::hex_encode(vstd::slice::slice_subrange(digest.as_slice(), 0, 12));
    let name = text::cat2("lr-", short.as_str());
    proof {
        reveal_strlit("lr-");
        naming::lemma_hex_text(digest@.subrange(0, 12));
        assert(name@.len() == 27);
        assert forall|i: int| 0 <= i < name@.len() implies naming::is_label_char(#[trigger] name@[i]) by {
            if i >= 3 {
                assert(name@[i] == short@[i - 3]);
            }
        }
        assert(name@.subrange(0, 3) =~= "lr-"@);
        assert forall|i: int| 3 <= i < 27 implies text::is_digit(#[trigger] name@[i]) || ('a' <= name@[i] && name@[i]
            <= 'f') by {
            assert(name@[i] == short@[i - 3]);
        }
        vstd::utf8::is_ascii_chars_encode_utf8(name@);
    }
    EnvironmentId { name }
}

/// The shape of the identifier of an environment: a prefix and 24 lowercase hexadecimal digits.
pub open spec fn is_environment_id(s: Seq<char>) -> bool {
    &&& s.len() == 27
    &&& s.subrange(0, 3) == "lr-"@
    &&& forall|i: int| 3 <= i < 27 ==> text::is_digit(#[trigger] s[i]) || ('a' <= s[i] && s[i] <= 'f')
}

/// A text that every label system takes: at most 63 lowercase letters, digits and hyphens.
pub open spec fn provider_safe(s: Seq<char>) -> bool {
    &&& s.len() <= 63
    &&& forall|i: int| 0 <= i < s.len() ==> naming::is_label_char(#[trigger] s[i])
}

/// Provider-independent identity of one profile/branch environment.
#[derive(Debug, PartialEq, Eq)]
pub struct EnvironmentIdentity {
    project_id: ProjectId,
    project: String,
    profile: String,
    branch: String,
    project_label: DnsLabel,
    profile_label: DnsLabel,
    branch_label: DnsLabel,
    id: EnvironmentId,
}

/// The model of [`EnvironmentIdentity`]: what it was made from. Labels and identifier
/// follow from it.
pub struct IdentityV {
    pub project_id: Seq<u8>,
    pub project: Seq<char>,
    pub profile: Seq<char>,
    pub branch: Seq<char>,
}

impl View for EnvironmentIdentity {
    type V = IdentityV;

    closed spec fn view(&self) -> IdentityV {
        IdentityV {
            project_id: self.project_id@,
            project: self.project@,
            profile: self.profile@,
            branch: self.branch@,
        }
    }
}

/// The labels by which the resources of an environment are found again.
pub open spec fn labels_of(identity: IdentityV) -> Seq<(Seq<char>, Seq<char>)> {
    seq![
        (LABEL_BRANCH@, naming::label_of(identity.branch)),
        (
            LABEL_ENVIRONMENT_ID@,
            environment_id_text(identity.project_id, identity.profile, identity.branch),
        ),
        (LABEL_MANAGED@, "true"@),
        (LABEL_PROFILE@, naming::label_of(identity.profile)),
        (LABEL_PROJECT@, naming::label_of(identity.project)),
        (LABEL_PROJECT_ID@, outside::hex_text(identity.project_id)),
    ]
}

/// Tests for an empty semantic value.
fn ensure_non_empty(kind: &'static str, value: &str) -> (r: Result<(), NamingError>)
    ensures
        match r {
            Ok(()) => value@.len() > 0,
            Err(NamingError::Empty { kind: k }) => value@.len() == 0 && k@ == kind@,
            Err(_) => false,
        },
{
    if value.is_empty() {
        Err(NamingError::Empty { kind })
    } else {
        Ok(())
    }
}

/// Why an identity cannot be made, if it cannot.
pub open spec fn identity_problem(
    project_id: Seq<u8>,
    project: Seq<char>,
    profile: Seq<char>,
    branch: Seq<char>,
) -> Option<Seq<char>> {
    if config::is_nil(project_id) {
        Some("project UUID must not be nil"@)
    } else if project.len() == 0 {
        Some("project"@ + " must not be empty"@)
    } else if profile.len() == 0 {
        Some("profile"@ + " must not be empty"@)
    } else if branch.len() == 0 {
        Some("branch"@ + " must not be empty"@)
    } else if naming::normalized(project).len() == 0 || naming::normalized(profile).len() == 0
        || naming::normalized(branch).len() == 0 {
        Some("normalized DNS label"@ + " must not be empty"@)
    } else {
        None
    }
}

impl EnvironmentIdentity {
    /// Labels and identifier belong to the raw values.
    #[verifier::type_invariant]
    closed spec fn valid(self) -> bool {
        &&& self.project_label@ == naming::label_of(self.project@)
        &&& self.profile_label@ == naming::label_of(self.profile@)
        &&& self.branch_label@ == naming::label_of(self.branch@)
        &&& self.id@ == environment_id_text(self.project_id@, self.profile@, self.branch@)
        &&& is_environment_id(self.id@)
        &&& provider_safe(self.id@)
    }

    /// Creates an identity from committed project metadata and raw checkout state.
    ///
    /// Project slugs affect human-facing hostnames and labels but deliberately do
    /// not affect the environment ID. Renaming a project therefore does not
    /// orphan its provider resources.
    ///
    /// # Errors
    ///
    /// Returns [`NamingError`] for a nil project UUID or an empty semantic name.
    pub fn new(project_id: ProjectId, project: &str, profile: &str, branch: &str) -> (r: Result<
        EnvironmentIdentity,
        NamingError,
    >)
        ensures
            match (r, identity_problem(project_id@, project@, profile@, branch@)) {
                (Ok(identity), None) => identity@ == (IdentityV {
                    project_id: project_id@,
                    project: project@,
                    profile: profile@,
                    branch: branch@,
                }),
                (Err(error), Some(problem)) => error.text() == problem,
                _ => false,
            },
    {
        if project_id.is_nil() {
            return Err(NamingError::NilProjectId);
        }
        match ensure_non_empty("project", project) {
            Ok(()) => {},
            Err(error) => return Err(error),
        }
        match ensure_non_empty("profile", profile) {
            Ok(()) => {},
            Err(error) => return Err(error),
        }
        match ensure_non_empty("branch", branch) {
            Ok(()) => {},
            Err(error) => return Err(error),
        }
        let project_label = match DnsLabel::new(project) {
            Ok(label) => label,
            Err(error) => return Err(error),
        };
        let profile_label = match DnsLabel::new(profile) {
            Ok(label) => label,
            Err(error) => return Err(error),
        };
        let branch_label = match DnsLabel::new(branch) {
            Ok(label) => label,
            Err(error) => return Err(error),
        };
        let id = derive_environment_id(project_id, profile, branch);
        Ok(
            EnvironmentIdentity {
                project_id,
                project: project.to_owned(),
                profile: profile.to_owned(),
                branch: branch.to_owned(),
                project_label,
                profile_label,
                branch_label,
                id,
            },
        )
    }

    /// Creates an identity from a validated project and discovered Git checkout.
    ///
    /// # Errors
    ///
    /// Returns [`NamingError`] when project or checkout identity inputs are
    /// empty or invalid.
    pub fn from_git(project: &Project, profile: &str, git: &GitContext) -> (r: Result<
        EnvironmentIdentity,
        NamingError,
    >)
        ensures
            match (r, identity_problem(project.id@, project.slug@, profile@, git@.branch)) {
                (Ok(identity), None) => identity@ == (IdentityV {
                    project_id: project.id@,
                    project: project.slug@,
                    profile: profile@,
                    branch: git@.branch,
                }),
                (Err(error), Some(problem)) => error.text() == problem,
                _ => false,
            },
    {
        EnvironmentIdentity::new(project.id, project.slug.as_str(), profile, git.branch())
    }

    /// Returns the immutable project identity.
    pub fn project_id(&self) -> (r: ProjectId)
        ensures
            r@ == self@.project_id,
    {
        self.project_id
    }

    /// Returns the raw project slug.
    pub fn project(&self) -> (r: &str)
        ensures
            r@ == self@.project,
    {
        self.project.as_str()
    }

    /// Returns the raw profile name.
    pub fn profile(&self) -> (r: &str)
        ensures
            r@ == self@.profile,
    {
        self.profile.as_str()
    }

    /// Returns the raw branch name or detached-HEAD identifier.
    pub fn branch(&self) -> (r: &str)
        ensures
            r@ == self@.branch,
    {
        self.branch.as_str()
    }

    /// Returns the deterministic environment ID.
    pub fn id(&self) -> (r: &EnvironmentId)
        ensures
            r@ == environment_id_text(self@.project_id, self@.profile, self@.branch),
            is_environment_id(r@),
            provider_safe(r@),
    {
        proof {
            use_type_invariant(self);
        }
        &self.id
    }

    /// Returns the normalized branch DNS label.
    pub fn branch_label(&self) -> (r: &DnsLabel)
        ensures
            r@ == naming::label_of(self@.branch),
    {
        proof {
            use_type_invariant(self);
        }
        &self.branch_label
    }

    /// Returns the normalized profile DNS label.
    pub fn profile_label(&self) -> (r: &DnsLabel)
        ensures
            r@ == naming::label_of(self@.profile),
    {
        proof {
            use_type_invariant(self);
        }
        &self.profile_label
    }

    /// Returns the normalized project DNS label.
    pub fn project_label(&self) -> (r: &DnsLabel)
        ensures
            r@ == naming::label_of(self@.project),
    {
        proof {
            use_type_invariant(self);
        }
        &self.project_label
    }

    /// Builds the mandatory branch-first/app-second hostname for one app.
    ///
    /// # Errors
    ///
    /// Returns [`NamingError`] when the app is empty or the resulting DNS name
    /// exceeds the protocol limit.
    pub fn hostname(&self, app: &str, address: [u8; 4], domain: IpDnsDomain) -> (r: Result<
        Hostname,
        NamingError,
    >)
        ensures
            ({
                let full = naming::hostname_text(
                    naming::label_of(self@.branch),
                    naming::label_of(app@),
                    naming::label_of(self@.profile),
                    naming::label_of(self@.project),
                    address@,
                    domain,
                );
                match r {
                    Ok(hostname) => naming::normalized(app@).len() > 0 && hostname@ == full && text::utf8_len(
                        full,
                    ) <= naming::DNS_NAME_MAX_BYTES,
                    Err(NamingError::Empty { kind }) => naming::normalized(app@).len() == 0 && kind@ == (
                    if app@.len() == 0 {
                        "app"@
                    } else {
                        "normalized DNS label"@
                    }),
                    Err(NamingError::DnsNameTooLong { length, maximum }) => naming::normalized(app@).len() > 0
                        && length == text::utf8_len(full) && maximum == naming::DNS_NAME_MAX_BYTES && length
                        > maximum,
                    Err(_) => false,
                }
            }),
    {
        match ensure_non_empty("app", app) {
            Ok(()) => {},
            Err(error) => return Err(error),
        }
        let label = match DnsLabel::new(app) {
            Ok(label) => label,
            Err(error) => return Err(error),
        };
        Hostname::new(
            self.branch_label(),
            &label,
            self.profile_label(),
            self.project_label(),
            address,
            domain,
        )
    }

    /// Returns the common-denominator labels used to rediscover resources, in the
    /// order of their names.
    ///
    /// Every value is lowercase ASCII and at most 63 bytes, making the result
    /// suitable for Docker, Kubernetes, and conservative cloud label systems.
    pub fn resource_labels(&self) -> (r: Vec<(&'static str, String)>)
        ensures
            r@.len() == 6,
            forall|i: int|
                0 <= i < 6 ==> (#[trigger] r@[i]).0@ == labels_of(self@)[i].0 && r@[i].1@ == labels_of(
                    self@,
                )[i].1,
            forall|i: int| 0 <= i < 6 ==> provider_safe((#[trigger] r@[i]).1@),
    {
        let mut out: Vec<(&'static str, String)> = Vec::new();
        let managed = "true".to_owned();
        let project = self.project_id.simple();
        proof {
            reveal_strlit("true");
            naming::lemma_hex_text(self.project_id@);
        }
        out.push((LABEL_BRANCH, self.branch_label().as_str().to_owned()));
        out.push((LABEL_ENVIRONMENT_ID, self.id().as_str().to_owned()));
        out.push((LABEL_MANAGED, managed));
        out.push((LABEL_PROFILE, self.profile_label().as_str().to_owned()));
        out.push((LABEL_PROJECT, self.project_label().as_str().to_owned()));
        out.push((LABEL_PROJECT_ID, project));
        out
    }
}

/// A project that is renamed keeps its environments: the identifier, and every label but
/// that of the name, stay as they are.
pub proof fn renaming_keeps_environments(a: IdentityV, b: IdentityV, i: int)
    requires
        a.project_id == b.project_id,
        a.profile == b.profile,
        a.branch == b.branch,
        0 <= i < 6,
        labels_of(a)[i].0 != LABEL_PROJECT@,
    ensures
        labels_of(a)[i] == labels_of(b)[i],
{
}

/// The resources of an environment are labelled with its own identifier, its project's, and the
/// labels of its project, profile and branch.
pub proof fn resources_are_labelled_as_they_are(identity: IdentityV)
    ensures
        ({
            let labels = labels_of(identity);
            &&& labels.contains(("lightrail-managed"@, "true"@))
            &&& labels.contains(
                (
                    "lightrail-environment-id"@,
                    environment_id_text(identity.project_id, identity.profile, identity.branch),
                ),
            )
            &&& labels.contains(("lightrail-project-id"@, outside::hex_text(identity.project_id)))
            &&& labels.contains(("lightrail-project"@, naming::label_of(identity.project)))
            &&& labels.contains(("lightrail-profile"@, naming::label_of(identity.profile)))
            &&& labels.contains(("lightrail-branch"@, naming::label_of(identity.branch)))
            &&& labels.len() == 6
        }),
{
    let labels = labels_of(identity);
    assert(labels[0] == ("lightrail-branch"@, naming::label_of(identity.branch)));
    assert(labels[1] == (
        "lightrail-environment-id"@,
        environment_id_text(identity.project_id, identity.profile, identity.branch),
    ));
    assert(labels[2] == ("lightrail-managed"@, "true"@));
    assert(labels[3] == ("lightrail-profile"@, naming::label_of(identity.profile)));
    assert(labels[4] == ("lightrail-project"@, naming::label_of(identity.project)));
    assert(labels[5] == ("lightrail-project-id"@, outside::hex_text(identity.project_id)));
}

/// An environment has an identity exactly where the project has an identifier and each of its
/// names leaves something of a DNS label.
pub proof fn identities_need_their_parts(
    project_id: Seq<u8>,
    project: Seq<char>,
    profile: Seq<char>,
    branch: Seq<char>,
)
    ensures
        identity_problem(project_id, project, profile, branch) is None <==> {
            &&& exists|i: int| 0 <= i < project_id.len() && #[trigger] project_id[i] != 0
            &&& project.len() > 0 && profile.len() > 0 && branch.len() > 0
            &&& naming::normalized(project).len() > 0
            &&& naming::normalized(profile).len() > 0
            &&& naming::normalized(branch).len() > 0
        },
{
}

/// Names of environments are short, start with `lr-`, and are safe for every provider.
pub proof fn environment_names_are_safe(s: Seq<char>)
    requires
        is_environment_id(s),
    ensures
        s.len() == 27,
        s[0] == 'l' && s[1] == 'r' && s[2] == '-',
        forall|i: int| 3 <= i < 27 ==> '0' <= #[trigger] s[i] <= '9' || 'a' <= s[i] <= 'f',
        provider_safe(s),
{
    reveal_strlit("lr-");
    let head = s.subrange(0, 3);
    assert(head == "lr-"@);
    assert(s[0] == head[0] && s[1] == head[1] && s[2] == head[2]);
    assert forall|i: int| 0 <= i < s.len() implies naming::is_label_char(#[trigger] s[i]) by {
        if i >= 3 {
            assert('0' <= s[i] <= '9' || 'a' <= s[i] <= 'f');
        }
    }
}

} // verus!
