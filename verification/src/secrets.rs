//! Secret values that are kept outside of the configuration.

use vstd::prelude::*;

use crate::collections::StringSet;
use crate::config;
use crate::config::{IdentifierError, SecretName, MAX_SECRET_NAME_BYTES};
use crate::error::{CliError, CliErrorV};
use crate::output::OutputFormat;
use crate::path;
use crate::protocol::SecretValue;
use crate::text;

verus! {

/// The service under which the keyring of the system holds secrets.
pub const KEYRING_SERVICE: &'static str = "lightrail";

/// The account of a secret: its project, a colon and its name.
pub open spec fn account_of(project_id: Seq<char>, name: Seq<char>) -> Seq<char> {
    project_id + ":"@ + name
}

/// The account of a secret in the keyring of the system.
pub fn keyring_account(project_id: &str, name: &str) -> (r: String)
    ensures
        r@ == project_id@ + ":"@ + name@,
        r@ == account_of(project_id@, name@),
{
    text::cat3(project_id, ":", name)
}

/// A character in the name of a variable.
pub open spec fn variable_char(c: char) -> char {
    if text::is_alnum(c) {
        text::upper(c)
    } else {
        '_'
    }
}

/// The name of the variable that holds a secret.
pub open spec fn variable_name(name: Seq<char>) -> Seq<char> {
    "LIGHTRAIL_SECRET_"@ + Seq::new(name.len(), |i: int| variable_char(name[i]))
}

/// The name of the variable that holds a secret.
pub fn environment_name(name: &str) -> (r: String)
    ensures
        r@ == variable_name(name@),
{
    let chars = text::chars_of(name);
    let mut out: Vec<char> = Vec::new();
    let mut i: usize = 0;
    while i < chars.len()
        invariant
            i <= chars@.len(),
            out@.len() == i,
            forall|k: int| 0 <= k < i ==> (#[trigger] out@[k]) == variable_char(chars@[k]),
        decreases chars.len() - i,
    {
        let c: char = chars[i];
        if text::alnum(c) {
            out.push(text::upper_char(c));
        } else {
            out.push('_');
        }
        i += 1;
    }
    let normalized = text::string_of(&out, 0, out.len());
    assert(normalized@ =~= Seq::new(name@.len(), |k: int| variable_char(name@[k])));
    text::cat2("LIGHTRAIL_SECRET_", normalized.as_str())
}

// ---------------------------------------------------------------------------
// Secrets in memory
// ---------------------------------------------------------------------------

/// A secret of a project.
pub struct StoredSecret {
    pub project: String,
    pub name: String,
    pub value: SecretValue,
}

impl StoredSecret {
    /// Whether it is the one with a name.
    pub open spec fn is_named(self, project: Seq<char>, name: Seq<char>) -> bool {
        self.project@ == project && self.name@ == name
    }
}

/// Secrets that are kept in memory.
pub struct MemoryBackend {
    pub values: Vec<StoredSecret>,
}

impl Default for MemoryBackend {
    fn default() -> (r: MemoryBackend)
        ensures
            r.values@.len() == 0,
            r.wf(),
    {
        MemoryBackend { values: Vec::new() }
    }
}

impl MemoryBackend {
    /// No secret is there twice.
    pub open spec fn wf(self) -> bool {
        forall|i: int, j: int|
            0 <= i < j < self.values@.len() ==> !(#[trigger] self.values@[i]).is_named(
                (#[trigger] self.values@[j]).project@,
                self.values@[j].name@,
            )
    }

    /// A secret stands at a place.
    pub open spec fn stands_at(self, i: int, project: Seq<char>, name: Seq<char>) -> bool {
        0 <= i < self.values@.len() && self.values@[i].is_named(project, name)
    }

    /// A secret has a value.
    pub open spec fn holds(self, project: Seq<char>, name: Seq<char>, value: Seq<char>) -> bool {
        exists|i: int| #[trigger]
            self.stands_at(i, project, name) && self.values@[i].value@ == value
    }

    /// A secret is there.
    pub open spec fn has(self, project: Seq<char>, name: Seq<char>) -> bool {
        exists|i: int| #[trigger] self.stands_at(i, project, name)
    }

    /// Where a secret stands.
    fn position(&self, project: &str, name: &str) -> (r: Option<usize>)
        ensures
            match r {
                Some(i) => self.stands_at(i as int, project@, name@),
                None => !self.has(project@, name@),
            },
    {
        let mut i: usize = 0;
        while i < self.values.len()
            invariant
                i <= self.values@.len(),
                forall|k: int| 0 <= k < i ==> !(#[trigger] self.values@[k]).is_named(project@, name@),
            decreases self.values.len() - i,
        {
            if text::same(self.values[i].project.as_str(), project) && text::same(
                self.values[i].name.as_str(),
                name,
            ) {
                assert(self.stands_at(i as int, project@, name@));
                return Some(i);
            }
            i += 1;
        }
        None
    }

    /// The value of a secret.
    pub fn get(&self, project: &str, name: &str) -> (r: Option<SecretValue>)
        ensures
            match r {
                Some(value) => self.holds(project@, name@, value@),
                None => !self.has(project@, name@),
            },
    {
        match self.position(project, name) {
            Some(i) => Some(self.values[i].value.clone()),
            None => None,
        }
    }

    /// Sets the value of a secret.
    pub fn set(&mut self, project: &str, name: &str, value: SecretValue)
        requires
            old(self).wf(),
        ensures
            final(self).wf(),
            forall|p: Seq<char>, n: Seq<char>, v: Seq<char>| #[trigger]
                final(self).holds(p, n, v) == if p == project@ && n == name@ {
                    v == value@
                } else {
                    old(self).holds(p, n, v)
                },
    {
        let ghost before = *self;
        let ghost model = value@;
        let stored = StoredSecret { project: project.to_owned(), name: name.to_owned(), value };
        let ghost mut at: int = self.values@.len() as int;
        match self.position(project, name) {
            Some(i) => {
                proof {
                    at = i as int;
                }
                self.values.set(i, stored);
            },
            None => {
                proof {
                    assert forall|k: int| 0 <= k < before.values@.len() implies !(
                    #[trigger] before.values@[k]).is_named(project@, name@) by {
                        assert(!before.stands_at(k, project@, name@));
                    }
                }
                self.values.push(stored);
            },
        }
        proof {
            assert(self.stands_at(at, project@, name@));
            assert forall|i: int| 0 <= i < self.values@.len() && i != at implies (
            #[trigger] self.values@[i]) == before.values@[i] && !before.values@[i].is_named(
                project@,
                name@,
            ) by {
                if at < before.values@.len() {
                    if i < at {
                        assert(!before.values@[i].is_named(
                            before.values@[at].project@,
                            before.values@[at].name@,
                        ));
                    } else {
                        assert(!before.values@[at].is_named(
                            before.values@[i].project@,
                            before.values@[i].name@,
                        ));
                    }
                }
            }
            assert forall|i: int, j: int| 0 <= i < j < self.values@.len() implies !(
            #[trigger] self.values@[i]).is_named(
                (#[trigger] self.values@[j]).project@,
                self.values@[j].name@,
            ) by {
                if i != at && j != at {
                    assert(self.values@[i] == before.values@[i]);
                    assert(self.values@[j] == before.values@[j]);
                }
            }
            assert forall|p: Seq<char>, n: Seq<char>, v: Seq<char>| #[trigger]
                self.holds(p, n, v) == if p == project@ && n == name@ {
                    v == model
                } else {
                    before.holds(p, n, v)
                } by {
                if p == project@ && n == name@ {
                    if self.holds(p, n, v) {
                        let i = choose|i: int| #[trigger]
                            self.stands_at(i, p, n) && self.values@[i].value@ == v;
                        assert(i == at);
                    }
                } else {
                    if self.holds(p, n, v) {
                        let i = choose|i: int| #[trigger]
                            self.stands_at(i, p, n) && self.values@[i].value@ == v;
                        assert(before.stands_at(i, p, n));
                    }
                    if before.holds(p, n, v) {
                        let i = choose|i: int| #[trigger]
                            before.stands_at(i, p, n) && before.values@[i].value@ == v;
                        assert(i != at);
                        assert(self.values@[i] == before.values@[i]);
                        assert(self.stands_at(i, p, n));
                    }
                }
            }
        }
    }

    /// Takes a secret out.
    pub fn delete(&mut self, project: &str, name: &str)
        requires
            old(self).wf(),
        ensures
            final(self).wf(),
            forall|p: Seq<char>, n: Seq<char>, v: Seq<char>| #[trigger]
                final(self).holds(p, n, v) == (!(p == project@ && n == name@) && old(self).holds(
                    p,
                    n,
                    v,
                )),
    {
        let ghost before = *self;
        match self.position(project, name) {
            Some(i) => {
                let taken = self.values.remove(i);
                let ghost at = i as int;
                proof {
                    assert forall|k: int, j: int| 0 <= k < j < self.values@.len() implies !(
                    #[trigger] self.values@[k]).is_named(
                        (#[trigger] self.values@[j]).project@,
                        self.values@[j].name@,
                    ) by {
                        let a = if k < at { k } else { k + 1 };
                        let b = if j < at { j } else { j + 1 };
                        assert(self.values@[k] == before.values@[a]);
                        assert(self.values@[j] == before.values@[b]);
                    }
                    assert forall|p: Seq<char>, n: Seq<char>, v: Seq<char>| #[trigger]
                        self.holds(p, n, v) == (!(p == project@ && n == name@) && before.holds(p, n, v)) by {
                        if self.holds(p, n, v) {
                            let k = choose|k: int| #[trigger]
                                self.stands_at(k, p, n) && self.values@[k].value@ == v;
                            let a = if k < at { k } else { k + 1 };
                            assert(self.values@[k] == before.values@[a]);
                            assert(before.stands_at(a, p, n));
                            if a < at {
                                assert(!before.values@[a].is_named(
                                    before.values@[at].project@,
                                    before.values@[at].name@,
                                ));
                            } else {
                                assert(!before.values@[at].is_named(
                                    before.values@[a].project@,
                                    before.values@[a].name@,
                                ));
                            }
                        }
                        if before.holds(p, n, v) && !(p == project@ && n == name@) {
                            let a = choose|a: int| #[trigger]
                                before.stands_at(a, p, n) && before.values@[a].value@ == v;
                            assert(a != at);
                            let k = if a < at { a } else { a - 1 };
                            assert(self.values@[k] == before.values@[a]);
                            assert(self.stands_at(k, p, n));
                        }
                    }
                }
            },
            None => {
                proof {
                    assert forall|p: Seq<char>, n: Seq<char>, v: Seq<char>| #[trigger]
                        self.holds(p, n, v) == (!(p == project@ && n == name@) && before.holds(p, n, v)) by {
                        if before.holds(p, n, v) {
                            let a = choose|a: int| #[trigger]
                                before.stands_at(a, p, n) && before.values@[a].value@ == v;
                            assert(before.has(p, n));
                        }
                    }
                }
            },
        }
    }
}

// ---------------------------------------------------------------------------
// The secrets of a project
// ---------------------------------------------------------------------------

/// The names of the secrets that are stored.
#[derive(Clone, Debug)]
pub struct SecretIndex {
    pub names: StringSet,
}

impl Default for SecretIndex {
    fn default() -> (r: SecretIndex)
        ensures
            r.names@.len() == 0,
            r.names.wf(),
    {
        SecretIndex { names: StringSet::new() }
    }
}

impl SecretIndex {
    /// Notes that a secret is stored.
    pub fn stored(&mut self, name: &str)
        requires
            old(self).names.wf(),
        ensures
            final(self).names.wf(),
            forall|n: Seq<char>| #[trigger]
                final(self).names@.contains(n) == (old(self).names@.contains(n) || n == name@),
    {
        proof {
            crate::collections::lemma_with_text(self.names@, name@);
        }
        self.names.insert(name.to_owned());
    }

    /// Notes that a secret is no longer stored.
    pub fn deleted(&mut self, name: &str)
        requires
            old(self).names.wf(),
        ensures
            final(self).names.wf(),
            forall|n: Seq<char>| #[trigger]
                final(self).names@.contains(n) == (old(self).names@.contains(n) && n != name@),
    {
        self.names.remove(name);
    }

    /// The names, in order.
    pub fn list(&self) -> (r: Vec<String>)
        ensures
            text::texts(r@) == self.names@,
    {
        text::copy_all(&self.names.items)
    }
}

/// Where the secrets of a project are.
#[derive(Clone, Debug)]
pub struct SecretStore {
    pub project_id: String,
    pub index_path: String,
}

/// A secret comes from its variable where that is set, and else from the keyring.
pub open spec fn resolves_to(
    variable: Option<Seq<char>>,
    stored: Option<Seq<char>>,
    found: Option<Seq<char>>,
) -> bool {
    found == if variable is Some {
        variable
    } else {
        stored
    }
}

impl SecretStore {
    /// The secrets of the project whose local files are in a directory.
    pub fn new(project_id: &str, local_dir: &str) -> (r: SecretStore)
        ensures
            r.project_id@ == project_id@,
            r.index_path@ == path::joined_path(local_dir@, "secrets.json"@),
    {
        SecretStore {
            project_id: project_id.to_owned(),
            index_path: path::join(local_dir, "secrets.json"),
        }
    }

    /// The value of a secret: of its variable, or else the stored one. The stored one is
    /// not looked at where there is a variable.
    ///
    /// # Errors
    ///
    /// Returns an error where there is neither, or where the stored one cannot be read.
    pub fn resolve(&self, name: &str, variable: Option<&str>, stored: Result<Option<SecretValue>, CliError>) -> (r:
        Result<SecretValue, CliError>)
        ensures
            match (variable, stored, r) {
                (Some(value), _, Ok(secret)) => secret@ == value@,
                (None, Ok(Some(value)), Ok(secret)) => secret == value,
                (None, Ok(None), Err(e)) => e@ == CliErrorV::SecretUnavailable(
                    name@,
                    variable_name(name@),
                ),
                (None, Err(problem), Err(e)) => e == problem,
                _ => false,
            },
            resolves_to(
                match variable {
                    Some(value) => Some(value@),
                    None => None,
                },
                match stored {
                    Ok(Some(value)) => Some(value@),
                    _ => None,
                },
                match r {
                    Ok(secret) => Some(secret@),
                    Err(_) => None,
                },
            ),
    {
        if let Some(value) = variable {
            return Ok(SecretValue::new(value));
        }
        match stored {
            Ok(Some(value)) => Ok(value),
            Ok(None) => Err(
                CliError::SecretUnavailable { name: name.to_owned(), env: environment_name(name) },
            ),
            Err(e) => Err(e),
        }
    }
}

// ---------------------------------------------------------------------------
// The command that manages secrets
// ---------------------------------------------------------------------------

/// Whether a text can name a secret.
pub open spec fn names_secret(name: Seq<char>) -> bool {
    name.len() > 0 && text::utf8_len(name) <= MAX_SECRET_NAME_BYTES && config::is_identifier(name)
}

/// Rejects what cannot name a secret, before any secret is touched.
pub fn validate_secret_name(name: &str) -> (r: Result<(), CliError>)
    ensures
        match r {
            Ok(()) => names_secret(name@),
            Err(e) => !names_secret(name@) && exists|problem: IdentifierError|
                config::identifier_outcome(
                    "secret name"@,
                    name@,
                    MAX_SECRET_NAME_BYTES,
                    Err(problem),
                ) && e@ == CliErrorV::Usage(#[trigger] problem.text()),
        },
{
    match SecretName::new(name) {
        Ok(_) => Ok(()),
        Err(problem) => {
            assert(config::identifier_outcome("secret name"@, name@, MAX_SECRET_NAME_BYTES, Err(problem)));
            Err(CliError::Usage(problem.message()))
        },
    }
}

/// The secret in what was piped in: without the line ends that it ends with.
///
/// # Errors
///
/// Returns an error where nothing is left.
pub fn piped_secret(input: &str) -> (r: Result<SecretValue, CliError>)
    ensures
        match r {
            Ok(value) => value@ == text::without_line_end(input@) && value@.len() > 0,
            Err(e) => text::without_line_end(input@).len() == 0 && e@ == CliErrorV::Usage(
                "refusing to store an empty secret from stdin"@,
            ),
        },
{
    let value = text::trim_line_end(input);
    if value.as_str().is_empty() {
        return Err(CliError::Usage("refusing to store an empty secret from stdin".to_owned()));
    }
    Ok(SecretValue::new(value.as_str()))
}

/// What a person is asked for, who must be at a terminal.
pub fn secret_prompt(name: &str, terminal: bool) -> (r: Result<String, CliError>)
    ensures
        match r {
            Ok(prompt) => terminal && prompt@ == "Secret "@ + name@,
            Err(e) => !terminal && e@ == CliErrorV::Usage(
                "`secret set` requires a terminal or `--stdin`"@,
            ),
        },
{
    if !terminal {
        return Err(CliError::Usage("`secret set` requires a terminal or `--stdin`".to_owned()));
    }
    Ok(text::cat2("Secret ", name))
}

/// What is said of a secret that was stored or deleted; a document says it instead where the
/// format is one.
pub fn secret_line(name: &str, stored: bool, format: OutputFormat) -> (r: Option<String>)
    ensures
        text::option_of(r) == if format == OutputFormat::Json {
            None
        } else if stored {
            Some("stored secret `"@ + name@ + "`"@)
        } else {
            Some("deleted secret `"@ + name@ + "`"@)
        },
{
    if format == OutputFormat::Json {
        None
    } else if stored {
        Some(text::cat3("stored secret `", name, "`"))
    } else {
        Some(text::cat3("deleted secret `", name, "`"))
    }
}

/// The lines that list secrets; a document lists them instead where the format is one.
pub fn secret_lines(names: &Vec<String>, format: OutputFormat) -> (r: Option<Vec<String>>)
    ensures
        match r {
            None => format == OutputFormat::Json,
            Some(lines) => format != OutputFormat::Json && text::texts(lines@) == if format
                == OutputFormat::Human && names@.len() == 0 {
                seq!["No stored secrets."@]
            } else {
                text::texts(names@)
            },
        },
{
    if format == OutputFormat::Json {
        return None;
    }
    if format == OutputFormat::Human && names.len() == 0 {
        let mut lines: Vec<String> = Vec::new();
        lines.push("No stored secrets.".to_owned());
        assert(text::texts(lines@) =~= seq!["No stored secrets."@]);
        return Some(lines);
    }
    Some(text::copy_all(names))
}

/// A secret that was set is found again; one that was deleted is not.
pub proof fn set_is_read_back(
    before: MemoryBackend,
    set: MemoryBackend,
    deleted: MemoryBackend,
    project: Seq<char>,
    name: Seq<char>,
    value: Seq<char>,
)
    requires
        forall|p: Seq<char>, n: Seq<char>, v: Seq<char>| #[trigger]
            set.holds(p, n, v) == if p == project && n == name {
                v == value
            } else {
                before.holds(p, n, v)
            },
        forall|p: Seq<char>, n: Seq<char>, v: Seq<char>| #[trigger]
            deleted.holds(p, n, v) == (!(p == project && n == name) && set.holds(p, n, v)),
    ensures
        set.holds(project, name, value),
        !deleted.has(project, name),
        forall|p: Seq<char>, n: Seq<char>, v: Seq<char>|
            !(p == project && n == name) ==> #[trigger] deleted.holds(p, n, v) == before.holds(p, n, v),
{
    if deleted.has(project, name) {
        let i = choose|i: int| #[trigger] deleted.stands_at(i, project, name);
        assert(deleted.holds(project, name, deleted.values@[i].value@));
    }
}

/// The variable of a secret is known from its name: a fixed beginning, then each letter in upper
/// case, each digit as it is, and an underscore for anything else.
pub proof fn variables_follow_the_names_of_secrets(name: Seq<char>, i: int)
    requires
        0 <= i < name.len(),
    ensures
        text::has_prefix(variable_name(name), "LIGHTRAIL_SECRET_"@),
        variable_name(name).len() == 17 + name.len(),
        text::is_lower(name[i]) ==> variable_name(name)[17 + i] as u32 == name[i] as u32 - 32,
        text::is_upper(name[i]) || text::is_digit(name[i]) ==> variable_name(name)[17 + i] == name[i],
        !text::is_lower(name[i]) && !text::is_upper(name[i]) && !text::is_digit(name[i]) ==> variable_name(
            name,
        )[17 + i] == '_',
{
    reveal_strlit("LIGHTRAIL_SECRET_");
    assert("LIGHTRAIL_SECRET_"@.len() == 17);
    assert(variable_name(name).subrange(0, 17) =~= "LIGHTRAIL_SECRET_"@);
}

/// Secrets of two projects, or of two names, have two accounts.
pub proof fn accounts_tell_secrets_apart(project: Seq<char>, name: Seq<char>, other: Seq<char>, another: Seq<char>)
    requires
        !project.contains(':'),
        !other.contains(':'),
        account_of(project, name) == account_of(other, another),
    ensures
        project == other,
        name == another,
{
    reveal_strlit(":");
    assert(":"@ =~= seq![':']);
    text::first_parts_are_split_off(project, ':', name);
    text::first_parts_are_split_off(other, ':', another);
}

/// A variable wins over the keyring, the keyring is used without one, and nothing is made up where
/// there is neither.
pub proof fn variables_win_over_the_keyring(
    variable: Option<Seq<char>>,
    stored: Option<Seq<char>>,
    found: Option<Seq<char>>,
)
    requires
        resolves_to(variable, stored, found),
    ensures
        variable matches Some(value) ==> found == Some(value),
        variable is None ==> (stored matches Some(value) ==> found == Some(value)),
        variable is None && stored is None ==> found is None,
{
}

/// A stored secret is found under its own project and name alone.
pub proof fn stored_secrets_have_one_place(
    secret: StoredSecret,
    project: Seq<char>,
    name: Seq<char>,
    other: Seq<char>,
    another: Seq<char>,
)
    ensures
        secret.is_named(secret.project@, secret.name@),
        secret.is_named(project, name) && secret.is_named(other, another) ==> project == other && name == another,
{
}

} // verus!
