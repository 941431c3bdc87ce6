//! The settings that initialization generates for a target.

use vstd::prelude::*;

use crate::address;
use crate::address::IpAddress;
use crate::collections::StringMap;
use crate::config::Isolation;
use crate::dialogue::{failed, first, lift, proceeds, refusal, refuse, text_question, Dialogue, Pause, PauseV};
use crate::error::{settles, CliError, CliErrorV};
use crate::path;
use crate::plugin_host::{FLY_PLUGIN_ID, HETZNER_PLUGIN_ID, KUBERNETES_PLUGIN_ID, SSH_PLUGIN_ID};
use crate::provider;
use crate::text;
use crate::value;
use crate::value::{Data, DataV};

verus! {

/// Supported initial target choices.
#[derive(Clone, Copy, Debug, PartialEq, Eq, Structural)]
pub enum TargetKind {
    /// An existing generic Linux host reached with OpenSSH.
    Ssh,
    /// A dedicated Hetzner Cloud server.
    Hetzner,
    /// An existing Kubernetes cluster selected through kubeconfig.
    Kubernetes,
    /// Agentless Fly.io Apps and Machines.
    Fly,
}

impl TargetKind {
    /// The plugin that provides the target.
    pub open spec fn plugin(self) -> Seq<char> {
        match self {
            TargetKind::Ssh => SSH_PLUGIN_ID@,
            TargetKind::Hetzner => HETZNER_PLUGIN_ID@,
            TargetKind::Kubernetes => KUBERNETES_PLUGIN_ID@,
            TargetKind::Fly => FLY_PLUGIN_ID@,
        }
    }

    /// The boundary that the target supports.
    pub open spec fn boundary(self) -> Isolation {
        match self {
            TargetKind::Ssh => Isolation::Project,
            TargetKind::Hetzner => Isolation::Machine,
            TargetKind::Kubernetes => Isolation::Environment,
            TargetKind::Fly => Isolation::Environment,
        }
    }

    /// The name that users read.
    pub open spec fn title(self) -> Seq<char> {
        match self {
            TargetKind::Ssh => "Generic SSH host"@,
            TargetKind::Hetzner => "Hetzner Cloud"@,
            TargetKind::Kubernetes => "Existing Kubernetes cluster"@,
            TargetKind::Fly => "Fly.io"@,
        }
    }

    /// The plugin that provides the target.
    pub fn target_plugin(self) -> (r: &'static str)
        ensures
            r@ == self.plugin(),
    {
        match self {
            TargetKind::Ssh => SSH_PLUGIN_ID,
            TargetKind::Hetzner => HETZNER_PLUGIN_ID,
            TargetKind::Kubernetes => KUBERNETES_PLUGIN_ID,
            TargetKind::Fly => FLY_PLUGIN_ID,
        }
    }

    /// The boundary that the target supports.
    pub fn default_isolation(self) -> (r: Isolation)
        ensures
            r == self.boundary(),
    {
        match self {
            TargetKind::Ssh => Isolation::Project,
            TargetKind::Hetzner => Isolation::Machine,
            TargetKind::Kubernetes => Isolation::Environment,
            TargetKind::Fly => Isolation::Environment,
        }
    }

    /// The name that users read.
    pub fn to_text(self) -> (r: &'static str)
        ensures
            r@ == self.title(),
    {
        match self {
            TargetKind::Ssh => "Generic SSH host",
            TargetKind::Hetzner => "Hetzner Cloud",
            TargetKind::Kubernetes => "Existing Kubernetes cluster",
            TargetKind::Fly => "Fly.io",
        }
    }
}

/// The problem of an isolation that the target does not support.
pub open spec fn isolation_problem(target: TargetKind, isolation: Isolation) -> Option<CliErrorV> {
    if isolation == target.boundary() {
        None
    } else {
        Some(
            CliErrorV::Config(
                target.title() + " supports only `"@ + target.boundary().text() + "` isolation"@,
            ),
        )
    }
}

/// Rejects an isolation that the target does not support.
pub fn validate_target_isolation(target: TargetKind, isolation: Isolation) -> (r: Result<(), CliError>)
    ensures
        settles(r, isolation_problem(target, isolation)),
{
    let supported = target.default_isolation();
    if isolation == supported {
        return Ok(());
    }
    Err(
        CliError::Config(
            text::cat4(target.to_text(), " supports only `", supported.as_str(), "` isolation"),
        ),
    )
}

// ---------------------------------------------------------------------------
// Tables
// ---------------------------------------------------------------------------

/// The entries with a value under a name that had none.
pub open spec fn with_default(table: Seq<(Seq<char>, DataV)>, key: Seq<char>, v: DataV) -> Seq<
    (Seq<char>, DataV),
> {
    if value::lookup(table, key) is Some {
        table
    } else {
        value::put(table, key, v)
    }
}

/// Sets a value where there is none.
fn insert_default(table: &mut Vec<(String, Data)>, key: &str, v: Data)
    ensures
        value::entry_views(final(table)@) == with_default(value::entry_views(old(table)@), key@, v@),
{
    if value::find_entry(table, key).is_none() {
        value::put_entry(table, key, v);
    }
}

/// Sets a text where there is nothing.
pub fn insert_default_string(table: &mut Vec<(String, Data)>, key: &str, s: &str)
    ensures
        value::entry_views(final(table)@) == with_default(
            value::entry_views(old(table)@),
            key@,
            DataV::Str(s@),
        ),
{
    insert_default(table, key, Data::text(s));
}

/// Sets a number where there is nothing.
pub fn insert_default_integer(table: &mut Vec<(String, Data)>, key: &str, n: i64)
    ensures
        value::entry_views(final(table)@) == with_default(
            value::entry_views(old(table)@),
            key@,
            DataV::Integer(n as int),
        ),
{
    insert_default(table, key, Data::Integer(n as i128));
}

/// Sets a text.
fn put_text(table: &mut Vec<(String, Data)>, key: &str, s: &str)
    ensures
        value::entry_views(final(table)@) == value::put(
            value::entry_views(old(table)@),
            key@,
            DataV::Str(s@),
        ),
{
    value::put_entry(table, key, Data::text(s));
}

/// The reference to a secret.
pub open spec fn secret_reference(name: Seq<char>) -> DataV {
    DataV::Object(seq![("secret"@, DataV::Str(name))])
}

/// The reference to a secret.
fn reference_secret(name: &str) -> (r: Data)
    ensures
        r@ == secret_reference(name@),
{
    broadcast use value::lemma_object_view;

    let mut entries: Vec<(String, Data)> = Vec::new();
    entries.push(("secret".to_owned(), Data::text(name)));
    assert(value::entry_views(entries@) =~= seq![("secret"@, DataV::Str(name@))]);
    Data::Object(entries)
}

/// A list of texts as a value.
pub open spec fn text_list(items: Seq<Seq<char>>) -> DataV {
    DataV::Array(Seq::new(items.len(), |i: int| DataV::Str(items[i])))
}

/// A list of texts as a value.
fn list_of(items: &Vec<String>) -> (r: Data)
    ensures
        r@ == text_list(text::texts(items@)),
{
    broadcast use value::lemma_array_view;

    let mut out: Vec<Data> = Vec::new();
    let mut i: usize = 0;
    while i < items.len()
        invariant
            i <= items@.len(),
            out@.len() == i,
            forall|k: int| 0 <= k < i ==> (#[trigger] out@[k])@ == DataV::Str(items@[k]@),
        decreases items.len() - i,
    {
        out.push(Data::text(items[i].as_str()));
        i += 1;
    }
    let ghost model = text::texts(items@);
    assert(value::item_views(out@) =~= Seq::new(model.len(), |i: int| DataV::Str(model[i])));
    Data::Array(out)
}

/// The entries of a table that may be absent.
pub open spec fn supplied_entries(supplied: Option<DataV>) -> Seq<(Seq<char>, DataV)> {
    match value::entries_of(supplied) {
        Some(entries) => entries,
        None => Seq::empty(),
    }
}

/// The problem of what should be a table.
pub open spec fn table_problem(supplied: Option<DataV>, field: Seq<char>) -> Option<CliErrorV> {
    match supplied {
        None => None,
        Some(DataV::Object(_)) => None,
        Some(_) => Some(CliErrorV::Config("`"@ + field + "` must be a table"@)),
    }
}

/// Copies a table that may be absent.
fn supplied_table(supplied: Option<&Data>, field: &str) -> (r: Result<Vec<(String, Data)>, CliError>)
    ensures
        settles(r, table_problem(value::option_view(supplied), field@)),
        match r {
            Ok(table) => value::entry_views(table@) == supplied_entries(value::option_view(supplied)),
            Err(_) => true,
        },
{
    broadcast use {value::lemma_array_view, value::lemma_object_view};

    match supplied {
        None => {
            let table: Vec<(String, Data)> = Vec::new();
            assert(value::entry_views(table@) =~= Seq::<(Seq<char>, DataV)>::empty());
            Ok(table)
        },
        Some(v) => match v.as_object() {
            Some(entries) => Ok(value::duplicate_entries(entries)),
            None => Err(CliError::Config(text::cat3("`", field, "` must be a table"))),
        },
    }
}

/// The problem of a text setting that may be absent.
pub open spec fn setting_text_problem(table: Seq<(Seq<char>, DataV)>, key: Seq<char>, field: Seq<char>) -> Option<
    CliErrorV,
> {
    match value::lookup(table, key) {
        None => None,
        Some(v) => provider::unless(
            v matches DataV::Str(s) && text::trimmed(s).len() > 0,
            "`"@ + field + "` must be a non-empty string"@,
        ),
    }
}

/// The text of a setting that may be absent, without surrounding whitespace.
pub open spec fn setting_text(table: Seq<(Seq<char>, DataV)>, key: Seq<char>) -> Option<Seq<char>> {
    match value::text_of(value::lookup(table, key)) {
        Some(s) => Some(text::trimmed(s)),
        None => None,
    }
}

/// Reads a text setting that may be absent.
pub fn optional_string_setting(table: &Vec<(String, Data)>, key: &str, field: &str) -> (r: Result<
    Option<String>,
    CliError,
>)
    ensures
        settles(r, setting_text_problem(value::entry_views(table@), key@, field@)),
        match r {
            Ok(s) => text::option_of(s) == setting_text(value::entry_views(table@), key@),
            Err(_) => true,
        },
{
    broadcast use {value::lemma_array_view, value::lemma_object_view};

    match value::find_entry(table, key) {
        None => Ok(None),
        Some(v) => {
            if let Data::Str(s) = v {
                let trimmed = text::trim(s.as_str());
                if !trimmed.as_str().is_empty() {
                    return Ok(Some(trimmed));
                }
            }
            Err(CliError::Config(text::cat3("`", field, "` must be a non-empty string")))
        },
    }
}

// ---------------------------------------------------------------------------
// SSH
// ---------------------------------------------------------------------------

/// A host that is the machine itself.
pub open spec fn is_localhost(host: Seq<char>) -> bool {
    ||| text::lowered(host) == "localhost"@
    ||| text::has_suffix(text::lowered(host), ".localhost"@)
    ||| address::ip_of(host) matches Some(ip) && address::is_loopback_ip(ip)
}

/// Tests for a host that is the machine itself.
pub fn is_localhost_target(host: &str) -> (r: bool)
    ensures
        r == is_localhost(host@),
{
    let lowered = text::to_lower(host);
    if text::same(lowered.as_str(), "localhost") || text::ends_with(lowered.as_str(), ".localhost") {
        return true;
    }
    match address::parse_ip(host) {
        Some(ip) => address::is_loopback(ip),
        None => false,
    }
}

/// The text under a name of a table that may be absent.
pub open spec fn supplied_text(supplied: Option<DataV>, key: Seq<char>) -> Option<Seq<char>> {
    value::text_of(value::field_of(supplied, key))
}

/// The text under a name of a table that may be absent.
fn text_supplied(supplied: Option<&Data>, key: &str) -> (r: Option<String>)
    ensures
        text::option_of(r) == supplied_text(value::option_view(supplied), key@),
{
    match supplied {
        None => None,
        Some(v) => match v.get_str(key) {
            Some(s) => Some(s.to_owned()),
            None => None,
        },
    }
}

/// What stops a text that is supplied, replied or missing.
pub open spec fn answer_stop(
    supplied: Option<Seq<char>>,
    d: Dialogue,
    key: Seq<char>,
    prompt: Seq<char>,
    default: Option<Seq<char>>,
) -> Option<PauseV> {
    if supplied is Some || d.text(key) is Some {
        None
    } else {
        Some(PauseV::Ask(text_question(key, prompt, default)))
    }
}

/// The text that is supplied or replied.
pub open spec fn answer_of(supplied: Option<Seq<char>>, d: Dialogue, key: Seq<char>) -> Seq<char> {
    match supplied {
        Some(s) => s,
        None => match d.text(key) {
            Some(s) => s,
            None => Seq::empty(),
        },
    }
}

/// What stops the SSH host.
pub open spec fn ssh_host_stop(supplied: Option<DataV>, d: Dialogue) -> Option<PauseV> {
    let host = supplied_text(supplied, "host"@);
    if host is None && !d.interactive {
        refusal("generic SSH init needs `settings.target.host` in a non-interactive answers file"@)
    } else {
        answer_stop(host, d, "host"@, "SSH host or IPv4 address"@, None)
    }
}

/// What stops the SSH user.
pub open spec fn ssh_user_stop(supplied: Option<DataV>, d: Dialogue) -> Option<PauseV> {
    if d.interactive {
        answer_stop(supplied_text(supplied, "user"@), d, "user"@, "SSH user"@, Some("root"@))
    } else {
        None
    }
}

/// The SSH user, where one is known.
pub open spec fn ssh_user(supplied: Option<DataV>, d: Dialogue) -> Option<Seq<char>> {
    if d.interactive {
        Some(answer_of(supplied_text(supplied, "user"@), d, "user"@))
    } else {
        supplied_text(supplied, "user"@)
    }
}

/// A host that is itself a public IPv4 address.
pub open spec fn is_public_host(host: Seq<char>) -> bool {
    address::ipv4_of(host) matches Some(octets) && address::is_public(octets)
}

/// The public address of the host, where it is not the host itself.
pub open spec fn ssh_public(supplied: Option<DataV>, d: Dialogue) -> Option<Seq<char>> {
    let host = answer_of(supplied_text(supplied, "host"@), d, "host"@);
    match supplied_text(supplied, "public_ipv4"@) {
        Some(s) => Some(s),
        None => if is_public_host(host) {
            None
        } else {
            Some(answer_of(None, d, "public_ipv4"@))
        },
    }
}

/// What stops the public address.
pub open spec fn ssh_public_stop(supplied: Option<DataV>, d: Dialogue) -> Option<PauseV> {
    let host = answer_of(supplied_text(supplied, "host"@), d, "host"@);
    let given = supplied_text(supplied, "public_ipv4"@);
    first(
        if given is Some || is_public_host(host) {
            None
        } else if d.interactive {
            answer_stop(None, d, "public_ipv4"@, "Public IPv4 used by sslip.io/nip.io"@, None)
        } else {
            refusal(
                "generic SSH init needs `settings.target.public_ipv4` when host is not itself a public IPv4 address"@,
            )
        },
        match ssh_public(supplied, d) {
            None => None,
            Some(s) => match address::ipv4_of(s) {
                None => refusal("`settings.target.public_ipv4` must be an IPv4 address"@),
                Some(octets) => if address::is_public(octets) {
                    None
                } else {
                    refusal("`settings.target.public_ipv4` must be publicly routable"@)
                },
            },
        },
    )
}

/// What stops the SSH settings.
pub open spec fn ssh_stop(supplied: Option<DataV>, d: Dialogue) -> Option<PauseV> {
    let host = answer_of(supplied_text(supplied, "host"@), d, "host"@);
    first(
        ssh_host_stop(supplied, d),
        first(
            ssh_user_stop(supplied, d),
            first(
                if is_localhost(host) {
                    refusal("localhost and loopback SSH targets are not allowed"@)
                } else {
                    None
                },
                ssh_public_stop(supplied, d),
            ),
        ),
    )
}

/// The entries with a text under a name, where there is one.
pub open spec fn with_text(table: Seq<(Seq<char>, DataV)>, key: Seq<char>, s: Option<Seq<char>>) -> Seq<
    (Seq<char>, DataV),
> {
    match s {
        Some(s) => value::put(table, key, DataV::Str(s)),
        None => table,
    }
}

/// The SSH settings.
pub open spec fn ssh_table(supplied: Option<DataV>, d: Dialogue) -> Seq<(Seq<char>, DataV)> {
    let host = answer_of(supplied_text(supplied, "host"@), d, "host"@);
    with_text(
        with_text(
            value::put(seq![("bootstrap"@, DataV::Str("auto"@))], "host"@, DataV::Str(host)),
            "user"@,
            ssh_user(supplied, d),
        ),
        "public_ipv4"@,
        ssh_public(supplied, d),
    )
}

/// The single entry of a table.
fn single(key: &str, v: Data) -> (r: Vec<(String, Data)>)
    ensures
        value::entry_views(r@) == seq![(key@, v@)],
{
    let mut table: Vec<(String, Data)> = Vec::new();
    table.push((key.to_owned(), v));
    assert(value::entry_views(table@) =~= seq![(key@, v@)]);
    table
}

/// Generates the settings of a generic SSH host.
pub fn ssh_settings(supplied: Option<&Data>, d: &Dialogue) -> (r: Result<Data, Pause>)
    ensures
        proceeds(r, ssh_stop(value::option_view(supplied), *d)),
        match r {
            Ok(v) => v@ == DataV::Object(ssh_table(value::option_view(supplied), *d)),
            Err(_) => true,
        },
{
    broadcast use value::lemma_object_view;

    let host = match text_supplied(supplied, "host") {
        Some(host) => host,
        None => if d.interactive {
            d.ask_text("host", "SSH host or IPv4 address", None)?
        } else {
            return refuse(
                "generic SSH init needs `settings.target.host` in a non-interactive answers file".to_owned(),
            );
        },
    };
    let user = match text_supplied(supplied, "user") {
        Some(user) => Some(user),
        None => if d.interactive {
            Some(d.ask_text("user", "SSH user", Some("root"))?)
        } else {
            None
        },
    };
    if is_localhost_target(host.as_str()) {
        return refuse("localhost and loopback SSH targets are not allowed".to_owned());
    }
    let host_is_public = match address::parse_ipv4(host.as_str()) {
        Some(octets) => address::is_public_ipv4(octets),
        None => false,
    };
    let public_ipv4 = match text_supplied(supplied, "public_ipv4") {
        Some(s) => Some(s),
        None => if host_is_public {
            None
        } else if d.interactive {
            Some(d.ask_text("public_ipv4", "Public IPv4 used by sslip.io/nip.io", None)?)
        } else {
            return refuse(
                "generic SSH init needs `settings.target.public_ipv4` when host is not itself a public IPv4 address".to_owned(),
            );
        },
    };
    if let Some(s) = &public_ipv4 {
        match address::parse_ipv4(s.as_str()) {
            None => {
                return refuse("`settings.target.public_ipv4` must be an IPv4 address".to_owned());
            },
            Some(octets) => {
                if !address::is_public_ipv4(octets) {
                    return refuse("`settings.target.public_ipv4` must be publicly routable".to_owned());
                }
            },
        }
    }
    let mut table = single("bootstrap", Data::text("auto"));
    put_text(&mut table, "host", host.as_str());
    if let Some(user) = &user {
        put_text(&mut table, "user", user.as_str());
    }
    if let Some(s) = &public_ipv4 {
        put_text(&mut table, "public_ipv4", s.as_str());
    }
    Ok(Data::Object(table))
}

// ---------------------------------------------------------------------------
// Hetzner
// ---------------------------------------------------------------------------

/// The problem of the first entry that is not a text.
pub open spec fn entries_problem(items: Seq<DataV>, field: Seq<char>) -> Option<CliErrorV> {
    provider::unless(
        forall|i: int|
            0 <= i < items.len() ==> (#[trigger] items[i] matches DataV::Str(s) && text::trimmed(s).len()
                > 0),
        "`"@ + field + "` entries must be non-empty strings"@,
    )
}

/// The problem of what should be a list of texts.
pub open spec fn list_problem(v: DataV, field: Seq<char>) -> Option<CliErrorV> {
    match v {
        DataV::Array(items) => entries_problem(items, field),
        _ => Some(CliErrorV::Config("`"@ + field + "` must be an array of strings"@)),
    }
}

/// The texts of a list, without surrounding whitespace.
pub open spec fn list_texts(v: DataV) -> Seq<Seq<char>> {
    match v {
        DataV::Array(items) => Seq::new(
            items.len(),
            |i: int|
                match items[i] {
                    DataV::Str(s) => text::trimmed(s),
                    _ => Seq::empty(),
                },
        ),
        _ => Seq::empty(),
    }
}

/// Reads a list of texts.
pub fn string_list(v: &Data, field: &str) -> (r: Result<Vec<String>, CliError>)
    ensures
        settles(r, list_problem(v@, field@)),
        match r {
            Ok(items) => text::texts(items@) == list_texts(v@),
            Err(_) => true,
        },
{
    broadcast use {value::lemma_array_view, value::lemma_object_view};

    let items = match v.as_array() {
        Some(items) => items,
        None => {
            return Err(CliError::Config(text::cat3("`", field, "` must be an array of strings")));
        },
    };
    let ghost views = value::item_views(items@);
    let mut out: Vec<String> = Vec::new();
    let mut i: usize = 0;
    while i < items.len()
        invariant
            i <= items@.len(),
            v@ == DataV::Array(views),
            views == value::item_views(items@),
            out@.len() == i,
            forall|k: int|
                0 <= k < i ==> (#[trigger] views[k] matches DataV::Str(s) && text::trimmed(s).len() > 0
                    && out@[k]@ == text::trimmed(s)),
        decreases items.len() - i,
    {
        assert(views[i as int] == items@[i as int]@);
        if let Some(s) = items[i].as_str() {
            let trimmed = text::trim(s);
            if !trimmed.as_str().is_empty() {
                out.push(trimmed);
                i += 1;
                continue ;
            }
        }
        assert(!(views[i as int] matches DataV::Str(s) && text::trimmed(s).len() > 0));
        return Err(CliError::Config(text::cat3("`", field, "` entries must be non-empty strings")));
    }
    assert(text::texts(out@) =~= list_texts(v@));
    Ok(out)
}

/// The parts of a text between commas that are not blank.
pub open spec fn comma_parts(parts: Seq<Seq<char>>) -> Seq<Seq<char>>
    decreases parts.len(),
{
    if parts.len() == 0 {
        Seq::empty()
    } else if text::trimmed(parts.last()).len() > 0 {
        comma_parts(parts.drop_last()).push(text::trimmed(parts.last()))
    } else {
        comma_parts(parts.drop_last())
    }
}

/// The parts of a text between commas that are not blank.
pub open spec fn comma_list(s: Seq<char>) -> Seq<Seq<char>> {
    comma_parts(text::split(s, ','))
}

/// Reads a list whose entries stand between commas.
pub fn comma_separated(s: &str) -> (r: Vec<String>)
    ensures
        text::texts(r@) == comma_list(s@),
{
    let parts = text::split_at_char(s, ',');
    let ghost model = text::split(s@, ',');
    let mut out: Vec<String> = Vec::new();
    let mut i: usize = 0;
    assert(model.take(0) =~= Seq::<Seq<char>>::empty());
    assert(text::texts(out@) =~= Seq::<Seq<char>>::empty());
    assert(text::texts(parts@).len() == parts@.len());
    while i < parts.len()
        invariant
            i <= parts@.len(),
            text::texts(parts@) == model,
            model.len() == parts@.len(),
            text::texts(out@) == comma_parts(model.take(i as int)),
        decreases parts.len() - i,
    {
        let ghost before = out@;
        proof {
            assert(model.take(i + 1).drop_last() =~= model.take(i as int));
            assert(model.take(i + 1).last() == parts@[i as int]@);
        }
        let trimmed = text::trim(parts[i].as_str());
        if !trimmed.as_str().is_empty() {
            out.push(trimmed);
            assert(text::texts(out@) =~= text::texts(before).push(trimmed@));
        }
        i += 1;
    }
    assert(model.take(model.len() as int) =~= model);
    out
}

/// What stops a list that the user types.
pub open spec fn typed_list_stop(d: Dialogue, key: Seq<char>, prompt: Seq<char>) -> Option<PauseV> {
    match d.text(key) {
        None => Some(PauseV::Ask(text_question(key, prompt, None))),
        Some(s) => if comma_list(s).len() == 0 {
            refusal("`settings.target."@ + key + "` must not be empty"@)
        } else {
            None
        },
    }
}

/// Asks for a list whose entries stand between commas.
fn comma_separated_prompt(d: &Dialogue, prompt: &str, key: &str) -> (r: Result<Vec<String>, Pause>)
    ensures
        proceeds(r, typed_list_stop(*d, key@, prompt@)),
        match r {
            Ok(items) => d.text(key@) is Some && text::texts(items@) == comma_list(d.text(key@)->0),
            Err(_) => true,
        },
{
    let typed = d.ask_text(key, prompt, None)?;
    let items = comma_separated(typed.as_str());
    assert(text::texts(items@).len() == items@.len());
    if items.len() == 0 {
        return refuse(text::cat3("`settings.target.", key, "` must not be empty"));
    }
    Ok(items)
}

/// The problem of a source network of SSH connections.
pub open spec fn cidr_problem(cidr: Seq<char>) -> Option<CliErrorV> {
    match text::split_first(cidr, '/') {
        None => Some(
            CliErrorV::Config(
                "SSH source `"@ + cidr + "` must use CIDR notation such as 198.51.100.42/32"@,
            ),
        ),
        Some((ip, prefix)) => match (address::ip_of(ip), text::parsed(prefix, 255)) {
            (None, _) => Some(
                CliErrorV::Config("SSH source CIDR `"@ + cidr + "` has an invalid address"@),
            ),
            (Some(_), None) => Some(
                CliErrorV::Config("SSH source CIDR `"@ + cidr + "` has an invalid prefix"@),
            ),
            (Some(ip), Some(n)) => provider::unless(
                0 < n <= prefix_limit(ip),
                "SSH source CIDR `"@ + cidr + "` is invalid or world-open"@,
            ),
        },
    }
}

/// The longest prefix of an address.
pub open spec fn prefix_limit(ip: address::IpV) -> nat {
    match ip {
        address::IpV::V4(_) => 32,
        address::IpV::V6(_) => 128,
    }
}

/// The first problem among source networks.
pub open spec fn cidrs_problem(cidrs: Seq<Seq<char>>) -> Option<CliErrorV>
    decreases cidrs.len(),
{
    if cidrs.len() == 0 {
        None
    } else {
        provider::first(cidr_problem(cidrs[0]), cidrs_problem(cidrs.subrange(1, cidrs.len() as int)))
    }
}

/// Rejects a source network that is malformed or the whole world.
fn validate_ssh_cidr(cidr: &str) -> (r: Result<(), CliError>)
    ensures
        settles(r, cidr_problem(cidr@)),
{
    let (ip, prefix) = match text::split_once(cidr, '/') {
        Some(parts) => parts,
        None => {
            return Err(
                CliError::Config(
                    text::cat3(
                        "SSH source `",
                        cidr,
                        "` must use CIDR notation such as 198.51.100.42/32",
                    ),
                ),
            );
        },
    };
    let ip = match address::parse_ip(ip.as_str()) {
        Some(ip) => ip,
        None => {
            return Err(
                CliError::Config(text::cat3("SSH source CIDR `", cidr, "` has an invalid address")),
            );
        },
    };
    let prefix: u64 = match text::parse_unsigned(prefix.as_str(), 255) {
        Some(n) => n,
        None => {
            return Err(
                CliError::Config(text::cat3("SSH source CIDR `", cidr, "` has an invalid prefix")),
            );
        },
    };
    let maximum: u64 = match ip {
        IpAddress::V4(_) => 32,
        IpAddress::V6(_) => 128,
    };
    if prefix > maximum || prefix == 0 {
        return Err(
            CliError::Config(text::cat3("SSH source CIDR `", cidr, "` is invalid or world-open")),
        );
    }
    Ok(())
}

/// Rejects source networks that are malformed or the whole world.
pub fn validate_ssh_cidrs(cidrs: &Vec<String>) -> (r: Result<(), CliError>)
    ensures
        settles(r, cidrs_problem(text::texts(cidrs@))),
{
    let ghost all = text::texts(cidrs@);
    let mut i: usize = 0;
    assert(all.subrange(0, all.len() as int) =~= all);
    while i < cidrs.len()
        invariant
            i <= cidrs@.len(),
            all == text::texts(cidrs@),
            cidrs_problem(all) == cidrs_problem(all.subrange(i as int, all.len() as int)),
        decreases cidrs.len() - i,
    {
        let ghost rest = all.subrange(i as int, all.len() as int);
        assert(rest[0] == cidrs@[i as int]@);
        assert(rest.subrange(1, rest.len() as int) =~= all.subrange(i + 1, all.len() as int));
        validate_ssh_cidr(cidrs[i].as_str())?;
        i += 1;
    }
    Ok(())
}

/// The network that a typed source stands for.
pub open spec fn source_network(s: Seq<char>) -> Seq<char> {
    if s.contains('/') {
        s
    } else {
        match address::ip_of(s) {
            Some(ip) => address::ip_text(ip) + "/"@ + text::decimal(prefix_limit(ip)),
            None => s,
        }
    }
}

/// The problem of a typed source.
pub open spec fn source_problem(s: Seq<char>) -> Option<CliErrorV> {
    provider::unless(
        s.contains('/') || address::ip_of(s) is Some,
        "SSH source `"@ + s + "` must be an IP address or CIDR"@,
    )
}

/// The first problem among typed sources.
pub open spec fn sources_problem(sources: Seq<Seq<char>>) -> Option<CliErrorV>
    decreases sources.len(),
{
    if sources.len() == 0 {
        None
    } else {
        provider::first(
            source_problem(sources[0]),
            sources_problem(sources.subrange(1, sources.len() as int)),
        )
    }
}

/// The networks of typed sources.
pub open spec fn source_networks(sources: Seq<Seq<char>>) -> Seq<Seq<char>> {
    Seq::new(sources.len(), |i: int| source_network(sources[i]))
}

/// Turns single addresses into networks.
pub fn normalize_interactive_ssh_sources(sources: Vec<String>) -> (r: Result<Vec<String>, CliError>)
    ensures
        settles(r, sources_problem(text::texts(sources@))),
        match r {
            Ok(networks) => text::texts(networks@) == source_networks(text::texts(sources@)),
            Err(_) => true,
        },
{
    let ghost all = text::texts(sources@);
    let mut out: Vec<String> = Vec::new();
    let mut i: usize = 0;
    assert(all.subrange(0, all.len() as int) =~= all);
    while i < sources.len()
        invariant
            i <= sources@.len(),
            all == text::texts(sources@),
            sources_problem(all) == sources_problem(all.subrange(i as int, all.len() as int)),
            out@.len() == i,
            forall|k: int| 0 <= k < i ==> (#[trigger] out@[k])@ == source_network(all[k]),
        decreases sources.len() - i,
    {
        let ghost rest = all.subrange(i as int, all.len() as int);
        assert(rest[0] == sources@[i as int]@);
        assert(rest.subrange(1, rest.len() as int) =~= all.subrange(i + 1, all.len() as int));
        let source = sources[i].as_str();
        if text::contains_char(source, '/') {
            out.push(source.to_owned());
        } else {
            match address::parse_ip(source) {
                None => {
                    return Err(
                        CliError::Config(
                            text::cat3("SSH source `", source, "` must be an IP address or CIDR"),
                        ),
                    );
                },
                Some(ip) => {
                    let prefix: u128 = match ip {
                        IpAddress::V4(_) => 32,
                        IpAddress::V6(_) => 128,
                    };
                    out.push(
                        text::cat3(
                            address::ip_notation(ip).as_str(),
                            "/",
                            text::number(prefix).as_str(),
                        ),
                    );
                },
            }
        }
        i += 1;
    }
    assert(text::texts(out@) =~= source_networks(all));
    Ok(out)
}

/// The problem of a list that may be absent.
pub open spec fn supplied_list_problem(supplied: Option<DataV>, key: Seq<char>) -> Option<CliErrorV> {
    match value::field_of(supplied, key) {
        None => None,
        Some(v) => list_problem(v, provider::target_field(key)),
    }
}

/// The texts of a list that may be absent; none where it is.
pub open spec fn supplied_list(supplied: Option<DataV>, key: Seq<char>) -> Seq<Seq<char>> {
    match value::field_of(supplied, key) {
        None => Seq::empty(),
        Some(v) => list_texts(v),
    }
}

/// Reads a list that may be absent.
fn list_supplied(supplied: Option<&Data>, key: &str) -> (r: Result<Vec<String>, CliError>)
    ensures
        settles(r, supplied_list_problem(value::option_view(supplied), key@)),
        match r {
            Ok(items) => text::texts(items@) == supplied_list(value::option_view(supplied), key@),
            Err(_) => true,
        },
{
    if let Some(table) = supplied {
        if let Some(v) = table.get(key) {
            return string_list(v, text::cat2("settings.target.", key).as_str());
        }
    }
    let items: Vec<String> = Vec::new();
    assert(text::texts(items@) =~= Seq::<Seq<char>>::empty());
    Ok(items)
}

/// The SSH keys of a Hetzner server.
pub open spec fn hetzner_keys(supplied: Option<DataV>, d: Dialogue) -> Seq<Seq<char>> {
    if supplied_list(supplied, "ssh_keys"@).len() > 0 {
        supplied_list(supplied, "ssh_keys"@)
    } else {
        comma_list(answer_of(None, d, "ssh_keys"@))
    }
}

/// The networks from which SSH is allowed.
pub open spec fn hetzner_sources(supplied: Option<DataV>, d: Dialogue) -> Seq<Seq<char>> {
    if supplied_list(supplied, "allowed_ssh_cidrs"@).len() > 0 {
        supplied_list(supplied, "allowed_ssh_cidrs"@)
    } else {
        source_networks(comma_list(answer_of(None, d, "allowed_ssh_cidrs"@)))
    }
}

/// What stops the SSH keys.
pub open spec fn hetzner_keys_stop(supplied: Option<DataV>, d: Dialogue) -> Option<PauseV> {
    if supplied_list(supplied, "ssh_keys"@).len() > 0 {
        None
    } else if d.interactive {
        typed_list_stop(d, "ssh_keys"@, "Hetzner SSH key names or IDs (comma-separated)"@)
    } else {
        refusal("Hetzner init needs at least one `settings.target.ssh_keys` entry"@)
    }
}

/// What stops the networks from which SSH is allowed.
pub open spec fn hetzner_sources_stop(supplied: Option<DataV>, d: Dialogue) -> Option<PauseV> {
    if supplied_list(supplied, "allowed_ssh_cidrs"@).len() > 0 {
        None
    } else if d.interactive {
        first(
            typed_list_stop(d, "allowed_ssh_cidrs"@, "IP addresses or CIDRs allowed to reach SSH"@),
            failed(sources_problem(comma_list(answer_of(None, d, "allowed_ssh_cidrs"@)))),
        )
    } else {
        refusal(
            "Hetzner init needs `settings.target.allowed_ssh_cidrs`; use a narrow source CIDR, never 0.0.0.0/0"@,
        )
    }
}

/// What stops the Hetzner settings.
pub open spec fn hetzner_stop(supplied: Option<DataV>, d: Dialogue) -> Option<PauseV> {
    first(
        failed(supplied_list_problem(supplied, "ssh_keys"@)),
        first(
            failed(supplied_list_problem(supplied, "allowed_ssh_cidrs"@)),
            first(
                hetzner_keys_stop(supplied, d),
                first(
                    hetzner_sources_stop(supplied, d),
                    failed(cidrs_problem(hetzner_sources(supplied, d))),
                ),
            ),
        ),
    )
}

/// The Hetzner settings.
pub open spec fn hetzner_table(supplied: Option<DataV>, d: Dialogue) -> Seq<(Seq<char>, DataV)> {
    let server_type = match supplied_text(supplied, "server_type"@) {
        Some(s) => s,
        None => "cx23"@,
    };
    let location = match supplied_text(supplied, "location"@) {
        Some(s) => Some(s),
        None => if d.interactive {
            Some("nbg1"@)
        } else {
            None
        },
    };
    let base = seq![("server_type"@, DataV::Str(server_type))];
    let with_token = value::put(base, "token"@, secret_reference("hetzner-token"@));
    let with_bootstrap = value::put(with_token, "bootstrap"@, DataV::Str("cloud-init"@));
    let with_keys = value::put(with_bootstrap, "ssh_keys"@, text_list(hetzner_keys(supplied, d)));
    let with_sources = value::put(
        with_keys,
        "allowed_ssh_cidrs"@,
        text_list(hetzner_sources(supplied, d)),
    );
    with_text(with_sources, "location"@, location)
}

/// Generates the settings of a Hetzner server.
pub fn hetzner_settings(supplied: Option<&Data>, d: &Dialogue) -> (r: Result<Data, Pause>)
    ensures
        proceeds(r, hetzner_stop(value::option_view(supplied), *d)),
        match r {
            Ok(v) => v@ == DataV::Object(hetzner_table(value::option_view(supplied), *d)),
            Err(_) => true,
        },
{
    broadcast use value::lemma_object_view;

    let given_keys = lift(list_supplied(supplied, "ssh_keys"))?;
    let given_sources = lift(list_supplied(supplied, "allowed_ssh_cidrs"))?;
    assert(text::texts(given_keys@).len() == given_keys@.len());
    assert(text::texts(given_sources@).len() == given_sources@.len());
    let server_type = match text_supplied(supplied, "server_type") {
        Some(s) => s,
        None => "cx23".to_owned(),
    };
    let location = match text_supplied(supplied, "location") {
        Some(s) => Some(s),
        None => if d.interactive {
            Some("nbg1".to_owned())
        } else {
            None
        },
    };
    let ssh_keys = if given_keys.len() > 0 {
        given_keys
    } else if d.interactive {
        comma_separated_prompt(d, "Hetzner SSH key names or IDs (comma-separated)", "ssh_keys")?
    } else {
        return refuse("Hetzner init needs at least one `settings.target.ssh_keys` entry".to_owned());
    };
    let allowed_ssh_cidrs = if given_sources.len() > 0 {
        given_sources
    } else if d.interactive {
        let typed = comma_separated_prompt(
            d,
            "IP addresses or CIDRs allowed to reach SSH",
            "allowed_ssh_cidrs",
        )?;
        lift(normalize_interactive_ssh_sources(typed))?
    } else {
        return refuse(
            "Hetzner init needs `settings.target.allowed_ssh_cidrs`; use a narrow source CIDR, never 0.0.0.0/0".to_owned(),
        );
    };
    lift(validate_ssh_cidrs(&allowed_ssh_cidrs))?;

    let mut table = single("server_type", Data::text(server_type.as_str()));
    value::put_entry(&mut table, "token", reference_secret("hetzner-token"));
    put_text(&mut table, "bootstrap", "cloud-init");
    value::put_entry(&mut table, "ssh_keys", list_of(&ssh_keys));
    value::put_entry(&mut table, "allowed_ssh_cidrs", list_of(&allowed_ssh_cidrs));
    if let Some(location) = &location {
        put_text(&mut table, "location", location.as_str());
    }
    Ok(Data::Object(table))
}

// ---------------------------------------------------------------------------
// Kubernetes and Fly.io
// ---------------------------------------------------------------------------

/// A setting that is there and not blank.
pub open spec fn settled_text(table: Seq<(Seq<char>, DataV)>, key: Seq<char>) -> Option<Seq<char>> {
    match setting_text(table, key) {
        Some(s) => if s.len() > 0 {
            Some(s)
        } else {
            None
        },
        None => None,
    }
}

/// What stops a setting that must be there.
pub open spec fn required_stop(
    table: Seq<(Seq<char>, DataV)>,
    key: Seq<char>,
    d: Dialogue,
    prompt: Seq<char>,
    default: Option<Seq<char>>,
) -> Option<PauseV> {
    if settled_text(table, key) is Some {
        None
    } else if !d.interactive {
        refusal("Kubernetes init needs non-empty `settings.target."@ + key + "`"@)
    } else {
        match d.text(key) {
            None => Some(PauseV::Ask(text_question(key, prompt, default))),
            Some(s) => if text::trimmed(s).len() == 0 {
                refusal("`settings.target."@ + key + "` must not be empty"@)
            } else {
                None
            },
        }
    }
}

/// A setting that must be there: supplied or replied, without surrounding whitespace.
pub open spec fn required_text(table: Seq<(Seq<char>, DataV)>, key: Seq<char>, d: Dialogue) -> Seq<char> {
    match settled_text(table, key) {
        Some(s) => s,
        None => text::trimmed(answer_of(None, d, key)),
    }
}

/// Reads a setting that must be there, or asks for it.
pub fn required_setting(
    table: &Vec<(String, Data)>,
    key: &str,
    d: &Dialogue,
    prompt: &str,
    default: Option<&str>,
) -> (r: Result<String, Pause>)
    ensures
        proceeds(
            r,
            required_stop(
                value::entry_views(table@),
                key@,
                *d,
                prompt@,
                match default {
                    Some(s) => Some(s@),
                    None => None,
                },
            ),
        ),
        match r {
            Ok(s) => s@ == required_text(value::entry_views(table@), key@, *d),
            Err(_) => true,
        },
{
    if let Some(v) = value::find_entry(table, key) {
        if let Some(s) = v.as_str() {
            let trimmed = text::trim(s);
            if !trimmed.as_str().is_empty() {
                return Ok(trimmed);
            }
        }
    }
    if !d.interactive {
        return refuse(text::cat3("Kubernetes init needs non-empty `settings.target.", key, "`"));
    }
    let typed = d.ask_text(key, prompt, default)?;
    let trimmed = text::trim(typed.as_str());
    if trimmed.as_str().is_empty() {
        return refuse(text::cat3("`settings.target.", key, "` must not be empty"));
    }
    Ok(trimmed)
}

/// What stops the settings that a Kubernetes target cannot do without.
pub open spec fn kubernetes_required_stop(table: Seq<(Seq<char>, DataV)>, d: Dialogue) -> Option<PauseV> {
    first(
        required_stop(table, "context"@, d, "Kubernetes context"@, None),
        first(
            required_stop(table, "registry"@, d, "OCI registry host"@, Some("ghcr.io"@)),
            first(
                required_stop(table, "repository"@, d, "OCI repository prefix"@, None),
                first(
                    required_stop(
                        table,
                        "ingress_class"@,
                        d,
                        "Existing Kubernetes IngressClass"@,
                        None,
                    ),
                    first(
                        required_stop(
                            table,
                            "ingress_service_namespace"@,
                            d,
                            "Namespace of the LoadBalancer Service backing that IngressClass"@,
                            None,
                        ),
                        required_stop(
                            table,
                            "ingress_service_name"@,
                            d,
                            "Name of the LoadBalancer Service backing that IngressClass"@,
                            None,
                        ),
                    ),
                ),
            ),
        ),
    )
}

/// What stops the Kubernetes settings.
pub open spec fn kubernetes_stop(supplied: Option<DataV>, d: Dialogue) -> Option<PauseV> {
    let table = supplied_entries(supplied);
    first(
        failed(table_problem(supplied, "settings.target"@)),
        first(
            kubernetes_required_stop(table, d),
            first(
                match value::text_of(value::lookup(table, "kubeconfig"@)) {
                    Some(s) => if path::is_absolute(s) {
                        None
                    } else {
                        refusal("`settings.target.kubeconfig` must be an absolute path"@)
                    },
                    None => None,
                },
                failed(provider::kubernetes_problem(kubernetes_table(supplied, d))),
            ),
        ),
    )
}

/// The settings that a Kubernetes target cannot do without.
pub open spec fn kubernetes_required(table: Seq<(Seq<char>, DataV)>, d: Dialogue) -> Seq<(Seq<char>, DataV)> {
    let a = value::put(table, "context"@, DataV::Str(required_text(table, "context"@, d)));
    let b = value::put(a, "registry"@, DataV::Str(required_text(table, "registry"@, d)));
    let c = value::put(b, "repository"@, DataV::Str(required_text(table, "repository"@, d)));
    let e = value::put(c, "ingress_class"@, DataV::Str(required_text(table, "ingress_class"@, d)));
    let f = value::put(
        e,
        "ingress_service_namespace"@,
        DataV::Str(required_text(table, "ingress_service_namespace"@, d)),
    );
    value::put(f, "ingress_service_name"@, DataV::Str(required_text(table, "ingress_service_name"@, d)))
}

/// The Kubernetes settings.
pub open spec fn kubernetes_table(supplied: Option<DataV>, d: Dialogue) -> Seq<(Seq<char>, DataV)> {
    let a = kubernetes_required(supplied_entries(supplied), d);
    let b = with_default(a, "namespace_prefix"@, DataV::Str("lr"@));
    let c = with_default(b, "control_namespace"@, DataV::Str("lightrail-system"@));
    let e = with_default(c, "dns_domain"@, DataV::Str("sslip.io"@));
    let f = with_default(e, "cluster_issuer"@, DataV::Str("letsencrypt"@));
    let g = with_default(f, "replicas"@, DataV::Integer(1));
    let h = with_default(g, "ttl_hours"@, DataV::Integer(72));
    let i = with_default(h, "command_timeout_seconds"@, DataV::Integer(300));
    with_default(i, "readiness_timeout_seconds"@, DataV::Integer(300))
}

/// Generates the settings of a Kubernetes cluster.
pub fn kubernetes_settings(supplied: Option<&Data>, d: &Dialogue) -> (r: Result<Data, Pause>)
    ensures
        proceeds(r, kubernetes_stop(value::option_view(supplied), *d)),
        match r {
            Ok(v) => v@ == DataV::Object(kubernetes_table(value::option_view(supplied), *d)),
            Err(_) => true,
        },
{
    broadcast use value::lemma_object_view;

    let mut table = lift(supplied_table(supplied, "settings.target"))?;
    let context = required_setting(&table, "context", d, "Kubernetes context", None)?;
    let registry = required_setting(&table, "registry", d, "OCI registry host", Some("ghcr.io"))?;
    let repository = required_setting(&table, "repository", d, "OCI repository prefix", None)?;
    let ingress_class = required_setting(
        &table,
        "ingress_class",
        d,
        "Existing Kubernetes IngressClass",
        None,
    )?;
    let ingress_service_namespace = required_setting(
        &table,
        "ingress_service_namespace",
        d,
        "Namespace of the LoadBalancer Service backing that IngressClass",
        None,
    )?;
    let ingress_service_name = required_setting(
        &table,
        "ingress_service_name",
        d,
        "Name of the LoadBalancer Service backing that IngressClass",
        None,
    )?;
    if let Some(v) = value::find_entry(&table, "kubeconfig") {
        if let Some(kubeconfig) = v.as_str() {
            if !path::absolute(kubeconfig) {
                return refuse("`settings.target.kubeconfig` must be an absolute path".to_owned());
            }
        }
    }
    put_text(&mut table, "context", context.as_str());
    put_text(&mut table, "registry", registry.as_str());
    put_text(&mut table, "repository", repository.as_str());
    put_text(&mut table, "ingress_class", ingress_class.as_str());
    put_text(&mut table, "ingress_service_namespace", ingress_service_namespace.as_str());
    put_text(&mut table, "ingress_service_name", ingress_service_name.as_str());
    insert_default_string(&mut table, "namespace_prefix", "lr");
    insert_default_string(&mut table, "control_namespace", "lightrail-system");
    insert_default_string(&mut table, "dns_domain", "sslip.io");
    insert_default_string(&mut table, "cluster_issuer", "letsencrypt");
    insert_default_integer(&mut table, "replicas", 1);
    insert_default_integer(&mut table, "ttl_hours", 72);
    insert_default_integer(&mut table, "command_timeout_seconds", 300);
    insert_default_integer(&mut table, "readiness_timeout_seconds", 300);
    lift(provider::validate_kubernetes_init_settings(&table))?;
    Ok(Data::Object(table))
}

/// What stops the Fly.io settings.
pub open spec fn fly_stop(supplied: Option<DataV>) -> Option<PauseV> {
    first(
        failed(table_problem(supplied, "settings.target"@)),
        failed(provider::fly_problem(fly_table(supplied))),
    )
}

/// The Fly.io settings.
pub open spec fn fly_table(supplied: Option<DataV>) -> Seq<(Seq<char>, DataV)> {
    let a = with_default(supplied_entries(supplied), "organization"@, DataV::Str("personal"@));
    let b = with_default(a, "registry"@, DataV::Str("registry.fly.io"@));
    let c = with_default(b, "platform"@, DataV::Str("linux/amd64"@));
    let e = with_default(c, "app_prefix"@, DataV::Str("lr"@));
    let f = with_default(e, "cpu_kind"@, DataV::Str("shared"@));
    let g = with_default(f, "cpus"@, DataV::Integer(1));
    let h = with_default(g, "memory_mb"@, DataV::Integer(256));
    let i = with_default(h, "ttl_hours"@, DataV::Integer(72));
    let j = with_default(i, "lock_ttl_seconds"@, DataV::Integer(3600));
    let k = with_default(j, "auto_stop"@, DataV::Bool(true));
    value::put(k, "token"@, secret_reference("fly-token"@))
}

/// Generates the settings of Fly.io.
pub fn fly_settings(supplied: Option<&Data>) -> (r: Result<Data, Pause>)
    ensures
        proceeds(r, fly_stop(value::option_view(supplied))),
        match r {
            Ok(v) => v@ == DataV::Object(fly_table(value::option_view(supplied))),
            Err(_) => true,
        },
{
    broadcast use value::lemma_object_view;

    let mut table = lift(supplied_table(supplied, "settings.target"))?;
    insert_default_string(&mut table, "organization", "personal");
    insert_default_string(&mut table, "registry", "registry.fly.io");
    insert_default_string(&mut table, "platform", "linux/amd64");
    insert_default_string(&mut table, "app_prefix", "lr");
    insert_default_string(&mut table, "cpu_kind", "shared");
    insert_default_integer(&mut table, "cpus", 1);
    insert_default_integer(&mut table, "memory_mb", 256);
    insert_default_integer(&mut table, "ttl_hours", 72);
    insert_default_integer(&mut table, "lock_ttl_seconds", 3600);
    insert_default(&mut table, "auto_stop", Data::Bool(true));
    value::put_entry(&mut table, "token", reference_secret("fly-token"));
    lift(provider::validate_fly_init_settings(&table))?;
    Ok(Data::Object(table))
}

// ---------------------------------------------------------------------------
// All settings
// ---------------------------------------------------------------------------

/// What stops the target settings.
#[verifier::opaque]
pub open spec fn target_stop(target: TargetKind, supplied: Option<DataV>, d: Dialogue) -> Option<PauseV> {
    match target {
        TargetKind::Ssh => ssh_stop(supplied, d),
        TargetKind::Hetzner => hetzner_stop(supplied, d),
        TargetKind::Kubernetes => kubernetes_stop(supplied, d),
        TargetKind::Fly => fly_stop(supplied),
    }
}

/// The target settings.
pub open spec fn target_table(target: TargetKind, supplied: Option<DataV>, d: Dialogue) -> Seq<
    (Seq<char>, DataV),
> {
    match target {
        TargetKind::Ssh => ssh_table(supplied, d),
        TargetKind::Hetzner => hetzner_table(supplied, d),
        TargetKind::Kubernetes => kubernetes_table(supplied, d),
        TargetKind::Fly => fly_table(supplied),
    }
}

/// A target on which applications are reached through a public IPv4 address.
pub open spec fn has_own_address(target: TargetKind) -> bool {
    target == TargetKind::Ssh || target == TargetKind::Hetzner
}

/// The exposure settings that are generated.
pub open spec fn exposure_table(target: TargetKind) -> Seq<(Seq<char>, DataV)> {
    if has_own_address(target) {
        value::put(
            seq![("mode"@, DataV::Str("public"@))],
            "tls"@,
            DataV::Str("acme-http-01"@),
        )
    } else {
        Seq::empty()
    }
}

/// The DNS settings that are generated.
pub open spec fn dns_table(target: TargetKind) -> Seq<(Seq<char>, DataV)> {
    if has_own_address(target) {
        value::put(
            seq![("domain"@, DataV::Str("sslip.io"@))],
            "encoding"@,
            DataV::Str("hex-ipv4"@),
        )
    } else {
        Seq::empty()
    }
}

/// The generated settings of all capabilities.
#[verifier::opaque]
pub open spec fn generated(target: TargetKind, supplied: Option<DataV>, d: Dialogue) -> Seq<
    (Seq<char>, DataV),
> {
    value::put(
        value::put(
            seq![("target"@, DataV::Object(target_table(target, supplied, d)))],
            "exposure"@,
            DataV::Object(exposure_table(target)),
        ),
        "dns"@,
        DataV::Object(dns_table(target)),
    )
}

/// The secret that holds the token of a target.
pub open spec fn token_secret(target: TargetKind) -> Option<Seq<char>> {
    match target {
        TargetKind::Hetzner => Some("hetzner-token"@),
        TargetKind::Fly => Some("fly-token"@),
        _ => None,
    }
}

/// The settings whose target names the token by its secret.
pub open spec fn with_token(settings: Seq<(Seq<char>, DataV)>, target: TargetKind) -> Seq<(Seq<char>, DataV)> {
    match token_secret(target) {
        None => settings,
        Some(secret) => value::put(
            settings,
            "target"@,
            DataV::Object(
                value::put(
                    supplied_entries(value::lookup(settings, "target"@)),
                    "token"@,
                    secret_reference(secret),
                ),
            ),
        ),
    }
}

/// The settings with the answers laid over what is generated.
pub open spec fn overlaid(target: TargetKind, answers: Seq<(Seq<char>, DataV)>, d: Dialogue) -> Seq<
    (Seq<char>, DataV),
> {
    with_token(
        value::merged_entries(generated(target, value::lookup(answers, "target"@), d), answers),
        target,
    )
}

/// The DNS domain among the target answers.
pub open spec fn target_domain(answers: Seq<(Seq<char>, DataV)>) -> Option<Seq<char>> {
    setting_text(supplied_entries(value::lookup(answers, "target"@)), "dns_domain"@)
}

/// What stops the DNS settings of Kubernetes.
pub open spec fn kubernetes_dns_problem(
    dns: Seq<(Seq<char>, DataV)>,
    domain: Option<Seq<char>>,
    answers: Seq<(Seq<char>, DataV)>,
) -> Option<CliErrorV> {
    let encoding = value::lookup(dns, "encoding"@);
    let own = setting_text(dns, "domain"@);
    provider::first(
        match dns_stranger(value::names_of(dns)) {
            Some(key) => Some(
                CliErrorV::Config("unknown Kubernetes DNS setting `settings.dns."@ + key + "`"@),
            ),
            None => None,
        },
        provider::first(
            provider::unless(
                encoding is None || encoding == Some(DataV::Str("hex-ipv4"@)),
                "`settings.dns.encoding` must be `hex-ipv4`"@,
            ),
            provider::unless(
                domain is Some || target_domain(answers) is None || own is None || target_domain(answers)
                    == own,
                "`settings.target.dns_domain` and `settings.dns.domain` disagree; keep one value or make them identical"@,
            ),
        ),
    )
}

/// The first DNS setting that Kubernetes does not know.
pub open spec fn dns_stranger(names: Seq<Seq<char>>) -> Option<Seq<char>>
    decreases names.len(),
{
    if names.len() == 0 {
        None
    } else if names[0] != "domain"@ && names[0] != "encoding"@ {
        Some(names[0])
    } else {
        dns_stranger(names.subrange(1, names.len() as int))
    }
}

/// The DNS domain that holds in the end: that of the command line, then that of the target
/// answers, then that of the DNS settings.
pub open spec fn effective_domain(
    domain: Option<Seq<char>>,
    answers: Seq<(Seq<char>, DataV)>,
    dns: Seq<(Seq<char>, DataV)>,
) -> Seq<char> {
    match domain {
        Some(s) => s,
        None => match target_domain(answers) {
            Some(s) => s,
            None => match setting_text(dns, "domain"@) {
                Some(s) => s,
                None => "sslip.io"@,
            },
        },
    }
}

/// The problem of a DNS domain.
pub open spec fn domain_problem(domain: Seq<char>) -> Option<CliErrorV> {
    provider::unless(
        domain == "sslip.io"@ || domain == "nip.io"@,
        "unsupported DNS domain `"@ + domain + "`; use sslip.io or nip.io"@,
    )
}

/// What stops the DNS settings once all settings are overlaid.
pub open spec fn dns_problem(
    target: TargetKind,
    domain: Option<Seq<char>>,
    answers: Seq<(Seq<char>, DataV)>,
    settings: Seq<(Seq<char>, DataV)>,
) -> Option<CliErrorV> {
    match value::lookup(settings, "dns"@) {
        Some(DataV::Object(dns)) => if target == TargetKind::Fly {
            provider::unless(
                domain is None && dns.len() == 0 && value::lookup(
                    supplied_entries(value::lookup(answers, "target"@)),
                    "dns_domain"@,
                ) is None,
                "Fly.io uses its native `fly.dev` hostname; custom DNS settings and `--domain` are not applicable"@,
            )
        } else {
            provider::first(
                setting_text_problem(dns, "domain"@, "settings.dns.domain"@),
                provider::first(
                    if target == TargetKind::Kubernetes {
                        kubernetes_dns_problem(dns, domain, answers)
                    } else {
                        None
                    },
                    provider::first(
                        domain_problem(effective_domain(domain, answers, dns)),
                        if target == TargetKind::Kubernetes {
                            target_table_problem(value::lookup(settings, "target"@))
                        } else {
                            None
                        },
                    ),
                ),
            )
        },
        _ => Some(CliErrorV::Config("`settings.dns` must be a table"@)),
    }
}

/// The problem of target settings that are not a table.
pub open spec fn target_table_problem(v: Option<DataV>) -> Option<CliErrorV> {
    provider::unless(value::entries_of(v) is Some, "`settings.target` must be a table"@)
}

/// What stops the answers from being laid over what is generated.
pub open spec fn overlay_stop(target: TargetKind, answers: Seq<(Seq<char>, DataV)>, d: Dialogue) -> Option<
    PauseV,
> {
    let supplied = value::lookup(answers, "target"@);
    let merged = value::merged_entries(generated(target, supplied, d), answers);
    first(
        target_stop(target, supplied, d),
        failed(
            if token_secret(target) is Some {
                target_table_problem(value::lookup(merged, "target"@))
            } else {
                None
            },
        ),
    )
}

/// What stops the settings.
pub open spec fn settings_stop(
    target: TargetKind,
    domain: Option<Seq<char>>,
    answers: Seq<(Seq<char>, DataV)>,
    d: Dialogue,
) -> Option<PauseV> {
    first(
        failed(
            setting_text_problem(
                supplied_entries(value::lookup(answers, "target"@)),
                "dns_domain"@,
                "settings.target.dns_domain"@,
            ),
        ),
        first(
            overlay_stop(target, answers, d),
            failed(dns_problem(target, domain, answers, overlaid(target, answers, d))),
        ),
    )
}

/// The settings.
pub open spec fn settings_of(
    target: TargetKind,
    domain: Option<Seq<char>>,
    answers: Seq<(Seq<char>, DataV)>,
    d: Dialogue,
) -> Seq<(Seq<char>, DataV)> {
    with_domain(target, domain, answers, overlaid(target, answers, d))
}

/// The settings with the DNS domain that holds in the end. One Kubernetes plugin owns the
/// target and DNS settings together: the domain stands with the target, and nothing is left
/// under DNS.
pub open spec fn with_domain(
    target: TargetKind,
    domain: Option<Seq<char>>,
    answers: Seq<(Seq<char>, DataV)>,
    settings: Seq<(Seq<char>, DataV)>,
) -> Seq<(Seq<char>, DataV)> {
    let dns = supplied_entries(value::lookup(settings, "dns"@));
    let effective = effective_domain(domain, answers, dns);
    match target {
        TargetKind::Fly => settings,
        TargetKind::Kubernetes => value::put(
            value::put(settings, "dns"@, DataV::Object(Seq::empty())),
            "target"@,
            DataV::Object(
                value::put(
                    supplied_entries(value::lookup(settings, "target"@)),
                    "dns_domain"@,
                    DataV::Str(effective),
                ),
            ),
        ),
        _ => value::put(
            settings,
            "dns"@,
            DataV::Object(
                value::put(
                    value::put(dns, "domain"@, DataV::Str(effective)),
                    "encoding"@,
                    DataV::Str("hex-ipv4"@),
                ),
            ),
        ),
    }
}

/// Rejects a DNS domain that is not derived from an address.
pub fn validate_dns_domain(domain: &str) -> (r: Result<String, CliError>)
    ensures
        settles(r, domain_problem(domain@)),
        match r {
            Ok(s) => s@ == domain@,
            Err(_) => true,
        },
{
    if text::same(domain, "sslip.io") || text::same(domain, "nip.io") {
        Ok(domain.to_owned())
    } else {
        Err(
            CliError::Config(
                text::cat3("unsupported DNS domain `", domain, "`; use sslip.io or nip.io"),
            ),
        )
    }
}

/// Names the token of a target by its secret.
fn enforce_target_secret_reference(settings: &mut Vec<(String, Data)>, secret: &str) -> (r: Result<
    (),
    CliError,
>)
    ensures
        settles(
            r,
            target_table_problem(value::lookup(value::entry_views(old(settings)@), "target"@)),
        ),
        r is Ok ==> value::entry_views(final(settings)@) == value::put(
            value::entry_views(old(settings)@),
            "target"@,
            DataV::Object(
                value::put(
                    supplied_entries(value::lookup(value::entry_views(old(settings)@), "target"@)),
                    "token"@,
                    secret_reference(secret@),
                ),
            ),
        ),
{
    broadcast use value::lemma_object_view;

    let mut target = match value::find_entry(settings, "target") {
        Some(v) => match v.as_object() {
            Some(entries) => value::duplicate_entries(entries),
            None => {
                return Err(CliError::Config("`settings.target` must be a table".to_owned()));
            },
        },
        None => {
            return Err(CliError::Config("`settings.target` must be a table".to_owned()));
        },
    };
    value::put_entry(&mut target, "token", reference_secret(secret));
    value::put_entry(settings, "target", Data::Object(target));
    Ok(())
}

/// Rejects DNS settings that Kubernetes does not know or that contradict each other.
fn validate_kubernetes_dns(
    dns: &Vec<(String, Data)>,
    domain: Option<&str>,
    target_dns: &Option<String>,
    own: &Option<String>,
    Ghost(answers): Ghost<Seq<(Seq<char>, DataV)>>,
) -> (r: Result<(), CliError>)
    requires
        text::option_of(*target_dns) == target_domain(answers),
        text::option_of(*own) == setting_text(value::entry_views(dns@), "domain"@),
    ensures
        settles(
            r,
            kubernetes_dns_problem(
                value::entry_views(dns@),
                match domain {
                    Some(s) => Some(s@),
                    None => None,
                },
                answers,
            ),
        ),
{
    broadcast use {value::lemma_array_view, value::lemma_object_view};

    let ghost names = value::names_of(value::entry_views(dns@));
    let mut i: usize = 0;
    assert(names.subrange(0, names.len() as int) =~= names);
    while i < dns.len()
        invariant
            i <= dns@.len(),
            names == value::names_of(value::entry_views(dns@)),
            dns_stranger(names) == dns_stranger(names.subrange(i as int, names.len() as int)),
        decreases dns.len() - i,
    {
        let key = dns[i].0.as_str();
        let ghost rest = names.subrange(i as int, names.len() as int);
        assert(rest[0] == key@);
        assert(rest.subrange(1, rest.len() as int) =~= names.subrange(i + 1, names.len() as int));
        if !(text::same(key, "domain") || text::same(key, "encoding")) {
            return Err(
                CliError::Config(
                    text::cat3("unknown Kubernetes DNS setting `settings.dns.", key, "`"),
                ),
            );
        }
        i += 1;
    }
    if let Some(encoding) = value::find_entry(dns, "encoding") {
        let fits = match encoding.as_str() {
            Some(s) => text::same(s, "hex-ipv4"),
            None => false,
        };
        if !fits {
            return Err(CliError::Config("`settings.dns.encoding` must be `hex-ipv4`".to_owned()));
        }
    }
    if domain.is_none() {
        if let (Some(a), Some(b)) = (target_dns, own) {
            if !text::same(a.as_str(), b.as_str()) {
                return Err(
                    CliError::Config(
                        "`settings.target.dns_domain` and `settings.dns.domain` disagree; keep one value or make them identical".to_owned(),
                    ),
                );
            }
        }
    }
    Ok(())
}

/// The text of an optional reference.
pub open spec fn maybe(s: Option<&str>) -> Option<Seq<char>> {
    match s {
        Some(s) => Some(s@),
        None => None,
    }
}

/// The settings that are generated before the answers are laid over them.
fn default_settings(target: TargetKind, supplied: Option<&Data>, d: &Dialogue) -> (r: Result<
    Vec<(String, Data)>,
    Pause,
>)
    ensures
        proceeds(r, target_stop(target, value::option_view(supplied), *d)),
        match r {
            Ok(settings) => value::entry_views(settings@) == generated(
                target,
                value::option_view(supplied),
                *d,
            ),
            Err(_) => true,
        },
{
    broadcast use value::lemma_object_view;

    reveal(target_stop);
    reveal(generated);
    let target_defaults = match target {
        TargetKind::Ssh => ssh_settings(supplied, d)?,
        TargetKind::Hetzner => hetzner_settings(supplied, d)?,
        TargetKind::Kubernetes => kubernetes_settings(supplied, d)?,
        TargetKind::Fly => fly_settings(supplied)?,
    };
    let (exposure, dns) = match target {
        TargetKind::Ssh | TargetKind::Hetzner => {
            let mut exposure = single("mode", Data::text("public"));
            put_text(&mut exposure, "tls", "acme-http-01");
            let mut dns = single("domain", Data::text("sslip.io"));
            put_text(&mut dns, "encoding", "hex-ipv4");
            (exposure, dns)
        },
        TargetKind::Kubernetes | TargetKind::Fly => {
            let exposure: Vec<(String, Data)> = Vec::new();
            let dns: Vec<(String, Data)> = Vec::new();
            assert(value::entry_views(exposure@) =~= Seq::<(Seq<char>, DataV)>::empty());
            assert(value::entry_views(dns@) =~= Seq::<(Seq<char>, DataV)>::empty());
            (exposure, dns)
        },
    };
    let mut settings = single("target", target_defaults);
    value::put_entry(&mut settings, "exposure", Data::Object(exposure));
    value::put_entry(&mut settings, "dns", Data::Object(dns));
    Ok(settings)
}

/// The names of the settings stand in order.
proof fn lemma_settings_in_order(
    target: TargetKind,
    domain: Option<Seq<char>>,
    answers: Seq<(Seq<char>, DataV)>,
    d: Dialogue,
)
    ensures
        value::in_order(settings_of(target, domain, answers, d)),
        value::in_order(overlaid(target, answers, d)),
{
    reveal(generated);
    let supplied = value::lookup(answers, "target"@);
    let base = seq![("target"@, DataV::Object(target_table(target, supplied, d)))];
    assert(value::in_order(base));
    let with_exposure = value::put(base, "exposure"@, DataV::Object(exposure_table(target)));
    value::lemma_put_in_order(base, "exposure"@, DataV::Object(exposure_table(target)));
    value::lemma_put_in_order(with_exposure, "dns"@, DataV::Object(dns_table(target)));
    let merged = value::merged_entries(generated(target, supplied, d), answers);
    value::lemma_merged_in_order(generated(target, supplied, d), answers);
    if let Some(secret) = token_secret(target) {
        value::lemma_put_in_order(
            merged,
            "target"@,
            DataV::Object(
                value::put(
                    supplied_entries(value::lookup(merged, "target"@)),
                    "token"@,
                    secret_reference(secret),
                ),
            ),
        );
    }
    let settings = overlaid(target, answers, d);
    let dns = supplied_entries(value::lookup(settings, "dns"@));
    let effective = effective_domain(domain, answers, dns);
    value::lemma_put_in_order(settings, "dns"@, DataV::Object(Seq::empty()));
    value::lemma_put_in_order(
        value::put(settings, "dns"@, DataV::Object(Seq::empty())),
        "target"@,
        DataV::Object(
            value::put(
                supplied_entries(value::lookup(settings, "target"@)),
                "dns_domain"@,
                DataV::Str(effective),
            ),
        ),
    );
    value::lemma_put_in_order(
        settings,
        "dns"@,
        DataV::Object(
            value::put(
                value::put(dns, "domain"@, DataV::Str(effective)),
                "encoding"@,
                DataV::Str("hex-ipv4"@),
            ),
        ),
    );
}

/// Lays the answers over what is generated.
fn overlay_answers(target: TargetKind, answers: &StringMap<Data>, d: &Dialogue) -> (r: Result<
    Vec<(String, Data)>,
    Pause,
>)
    ensures
        proceeds(r, overlay_stop(target, value::entry_views(answers.entries@), *d)),
        match r {
            Ok(settings) => value::entry_views(settings@) == overlaid(
                target,
                value::entry_views(answers.entries@),
                *d,
            ),
            Err(_) => true,
        },
{
    broadcast use value::lemma_object_view;

    let supplied = value::find_entry(&answers.entries, "target");
    let defaults = Data::Object(default_settings(target, supplied, d)?);
    let merged = value::merge(&defaults, &Data::Object(value::duplicate_entries(&answers.entries)));
    let mut settings = match merged {
        Data::Object(entries) => entries,
        _ => Vec::new(),
    };
    match target {
        TargetKind::Hetzner => {
            lift(enforce_target_secret_reference(&mut settings, "hetzner-token"))?;
        },
        TargetKind::Fly => {
            lift(enforce_target_secret_reference(&mut settings, "fly-token"))?;
        },
        _ => {},
    }
    Ok(settings)
}

/// Copies the table under a name, where there is one.
fn table_at(settings: &Vec<(String, Data)>, key: &str) -> (r: Option<Vec<(String, Data)>>)
    ensures
        match r {
            Some(table) => value::lookup(value::entry_views(settings@), key@) == Some(
                DataV::Object(value::entry_views(table@)),
            ),
            None => value::entries_of(value::lookup(value::entry_views(settings@), key@)) is None,
        },
{
    broadcast use value::lemma_object_view;

    match value::find_entry(settings, key) {
        Some(v) => match v.as_object() {
            Some(entries) => Some(value::duplicate_entries(entries)),
            None => None,
        },
        None => None,
    }
}

/// Settles the DNS domain.
fn settle_domain(
    target: TargetKind,
    domain: Option<&str>,
    supplied: Option<&Data>,
    settings: Vec<(String, Data)>,
    Ghost(answers): Ghost<Seq<(Seq<char>, DataV)>>,
) -> (r: Result<Vec<(String, Data)>, CliError>)
    requires
        value::option_view(supplied) == value::lookup(answers, "target"@),
        setting_text_problem(
            supplied_entries(value::option_view(supplied)),
            "dns_domain"@,
            "settings.target.dns_domain"@,
        ) is None,
    ensures
        settles(r, dns_problem(target, maybe(domain), answers, value::entry_views(settings@))),
        match r {
            Ok(out) => value::entry_views(out@) == with_domain(
                target,
                maybe(domain),
                answers,
                value::entry_views(settings@),
            ),
            Err(_) => true,
        },
{
    broadcast use {value::lemma_array_view, value::lemma_object_view};

    let mut settings = settings;
    let supplied_object = supplied_table(supplied, "settings.target");
    assert(value::lookup(Seq::<(Seq<char>, DataV)>::empty(), "dns_domain"@) is None);
    let (target_dns, declares_dns) = match &supplied_object {
        Ok(table) => (
            optional_string_setting(table, "dns_domain", "settings.target.dns_domain")?,
            value::find_entry(table, "dns_domain").is_some(),
        ),
        Err(_) => (None, false),
    };
    let mut dns = match table_at(&settings, "dns") {
        Some(table) => table,
        None => {
            return Err(CliError::Config("`settings.dns` must be a table".to_owned()));
        },
    };
    if target == TargetKind::Fly {
        assert(value::entry_views(dns@).len() == dns@.len());
        if domain.is_some() || dns.len() > 0 || declares_dns {
            return Err(
                CliError::Config(
                    "Fly.io uses its native `fly.dev` hostname; custom DNS settings and `--domain` are not applicable".to_owned(),
                ),
            );
        }
        return Ok(settings);
    }
    let own = optional_string_setting(&dns, "domain", "settings.dns.domain")?;
    if target == TargetKind::Kubernetes {
        validate_kubernetes_dns(&dns, domain, &target_dns, &own, Ghost(answers))?;
    }
    let effective = match domain {
        Some(s) => s.to_owned(),
        None => match &target_dns {
            Some(s) => s.clone(),
            None => match &own {
                Some(s) => s.clone(),
                None => "sslip.io".to_owned(),
            },
        },
    };
    let effective = validate_dns_domain(effective.as_str())?;
    if target == TargetKind::Kubernetes {
        let mut target_settings = match table_at(&settings, "target") {
            Some(table) => table,
            None => {
                return Err(CliError::Config("`settings.target` must be a table".to_owned()));
            },
        };
        put_text(&mut target_settings, "dns_domain", effective.as_str());
        value::put_entry(&mut settings, "dns", Data::object());
        value::put_entry(&mut settings, "target", Data::Object(target_settings));
    } else {
        put_text(&mut dns, "domain", effective.as_str());
        put_text(&mut dns, "encoding", "hex-ipv4");
        value::put_entry(&mut settings, "dns", Data::Object(dns));
    }
    Ok(settings)
}

/// Generates the settings of a profile and lays the answers over them.
pub fn build_settings(target: TargetKind, domain: Option<&str>, answers: &StringMap<Data>, d: &Dialogue) -> (r:
    Result<StringMap<Data>, Pause>)
    ensures
        proceeds(r, settings_stop(target, maybe(domain), value::entry_views(answers.entries@), *d)),
        match r {
            Ok(settings) => settings.wf() && value::entry_views(settings.entries@) == settings_of(
                target,
                maybe(domain),
                value::entry_views(answers.entries@),
                *d,
            ),
            Err(_) => true,
        },
{
    let ghost over = value::entry_views(answers.entries@);
    let supplied = value::find_entry(&answers.entries, "target");
    assert(value::lookup(Seq::<(Seq<char>, DataV)>::empty(), "dns_domain"@) is None);
    if let Ok(table) = supplied_table(supplied, "settings.target") {
        lift(optional_string_setting(&table, "dns_domain", "settings.target.dns_domain"))?;
    }
    let settings = overlay_answers(target, answers, d)?;
    let settings = lift(settle_domain(target, domain, supplied, settings, Ghost(over)))?;
    proof {
        lemma_settings_in_order(target, maybe(domain), over, *d);
        assert(crate::collections::keys_of(settings@) =~= value::names_of(value::entry_views(settings@)));
    }
    Ok(StringMap { entries: settings })
}

// ---------------------------------------------------------------------------
// Laws
// ---------------------------------------------------------------------------

/// Where a domain is chosen on the command line, it is the one that addresses are derived
/// under, whatever the answers say; the encoding cannot be overridden.
pub proof fn explicit_domain_wins(
    target: TargetKind,
    domain: Seq<char>,
    answers: Seq<(Seq<char>, DataV)>,
    d: Dialogue,
)
    requires
        has_own_address(target),
        settings_stop(target, Some(domain), answers, d) is None,
    ensures
        ({
            let dns = value::lookup(settings_of(target, Some(domain), answers, d), "dns"@);
            &&& value::field_of(dns, "domain"@) == Some(DataV::Str(domain))
            &&& value::field_of(dns, "encoding"@) == Some(DataV::Str("hex-ipv4"@))
        }),
{
    let settings = overlaid(target, answers, d);
    let dns = supplied_entries(value::lookup(settings, "dns"@));
    let named = value::put(dns, "domain"@, DataV::Str(domain));
    reveal_strlit("domain");
    reveal_strlit("encoding");
    assert("domain"@.len() == 6 && "encoding"@.len() == 8);
    value::lemma_put_found(dns, "domain"@, DataV::Str(domain));
    value::lemma_put_found(named, "encoding"@, DataV::Str("hex-ipv4"@));
    value::lemma_put_kept(named, "encoding"@, DataV::Str("hex-ipv4"@), "domain"@);
    value::lemma_put_found(
        settings,
        "dns"@,
        DataV::Object(value::put(named, "encoding"@, DataV::Str("hex-ipv4"@))),
    );
}

/// Whatever token the answers hold, the settings name it by its secret: a token is never
/// written into the configuration.
pub proof fn token_is_never_committed(
    target: TargetKind,
    domain: Option<Seq<char>>,
    answers: Seq<(Seq<char>, DataV)>,
    d: Dialogue,
)
    requires
        token_secret(target) is Some,
        settings_stop(target, domain, answers, d) is None,
    ensures
        value::field_of(
            value::lookup(settings_of(target, domain, answers, d), "target"@),
            "token"@,
        ) == Some(secret_reference(token_secret(target)->0)),
{
    let supplied = value::lookup(answers, "target"@);
    let merged = value::merged_entries(generated(target, supplied, d), answers);
    let table = supplied_entries(value::lookup(merged, "target"@));
    let secret = secret_reference(token_secret(target)->0);
    value::lemma_put_found(table, "token"@, secret);
    value::lemma_put_found(merged, "target"@, DataV::Object(value::put(table, "token"@, secret)));
    let settings = overlaid(target, answers, d);
    if target == TargetKind::Hetzner {
        let dns = supplied_entries(value::lookup(settings, "dns"@));
        let v = DataV::Object(
            value::put(
                value::put(dns, "domain"@, DataV::Str(effective_domain(domain, answers, dns))),
                "encoding"@,
                DataV::Str("hex-ipv4"@),
            ),
        );
        reveal_strlit("dns");
        reveal_strlit("target");
        assert("dns"@.len() == 3 && "target"@.len() == 6);
        value::lemma_put_kept(settings, "dns"@, v, "target"@);
    }
}

/// The names of what Kubernetes needs differ.
proof fn lemma_required_names()
    ensures
        seq!["context"@, "registry"@, "repository"@, "ingress_class"@, "ingress_service_namespace"@, "ingress_service_name"@].no_duplicates(),
{
    reveal_strlit("context");
    reveal_strlit("registry");
    reveal_strlit("repository");
    reveal_strlit("ingress_class");
    reveal_strlit("ingress_service_namespace");
    reveal_strlit("ingress_service_name");
    assert("context"@.len() == 7);
    assert("registry"@.len() == 8);
    assert("repository"@.len() == 10);
    assert("ingress_class"@.len() == 13);
    assert("ingress_service_namespace"@.len() == 25);
    assert("ingress_service_name"@.len() == 20);
    let names = seq!["context"@, "registry"@, "repository"@, "ingress_class"@, "ingress_service_namespace"@, "ingress_service_name"@];
    assert(names[0] == "context"@);
    assert(names[1] == "registry"@);
    assert(names[2] == "repository"@);
    assert(names[3] == "ingress_class"@);
    assert(names[4] == "ingress_service_namespace"@);
    assert(names[5] == "ingress_service_name"@);
    assert forall|i: int, j: int| 0 <= i < names.len() && 0 <= j < names.len() && i != j implies #[trigger] names[i]
        != #[trigger] names[j] by {
        assert(i == 0 || i == 1 || i == 2 || i == 3 || i == 4 || i == 5);
        assert(j == 0 || j == 1 || j == 2 || j == 3 || j == 4 || j == 5);
    }
}

/// The names of the Hetzner settings differ.
proof fn lemma_hetzner_names()
    ensures
        seq!["server_type"@, "token"@, "bootstrap"@, "ssh_keys"@, "allowed_ssh_cidrs"@, "location"@].no_duplicates(),
{
    reveal_strlit("server_type");
    reveal_strlit("token");
    reveal_strlit("bootstrap");
    reveal_strlit("ssh_keys");
    reveal_strlit("allowed_ssh_cidrs");
    reveal_strlit("location");
    assert("server_type"@.len() == 11);
    assert("token"@.len() == 5);
    assert("bootstrap"@.len() == 9);
    assert("ssh_keys"@.len() == 8);
    assert("allowed_ssh_cidrs"@.len() == 17);
    assert("location"@.len() == 8);
    assert("ssh_keys"@[0] != "location"@[0]);
    let names = seq!["server_type"@, "token"@, "bootstrap"@, "ssh_keys"@, "allowed_ssh_cidrs"@, "location"@];
    assert(names[0] == "server_type"@);
    assert(names[1] == "token"@);
    assert(names[2] == "bootstrap"@);
    assert(names[3] == "ssh_keys"@);
    assert(names[4] == "allowed_ssh_cidrs"@);
    assert(names[5] == "location"@);
    assert forall|i: int, j: int| 0 <= i < names.len() && 0 <= j < names.len() && i != j implies #[trigger] names[i]
        != #[trigger] names[j] by {
        assert(i == 0 || i == 1 || i == 2 || i == 3 || i == 4 || i == 5);
        assert(j == 0 || j == 1 || j == 2 || j == 3 || j == 4 || j == 5);
    }
}

/// The names of the SSH settings differ.
proof fn lemma_ssh_names()
    ensures
        seq!["bootstrap"@, "host"@, "user"@, "public_ipv4"@].no_duplicates(),
{
    reveal_strlit("bootstrap");
    reveal_strlit("host");
    reveal_strlit("user");
    reveal_strlit("public_ipv4");
    assert("bootstrap"@.len() == 9);
    assert("host"@.len() == 4);
    assert("user"@.len() == 4);
    assert("public_ipv4"@.len() == 11);
    assert("host"@[0] != "user"@[0]);
    let names = seq!["bootstrap"@, "host"@, "user"@, "public_ipv4"@];
    assert(names[0] == "bootstrap"@);
    assert(names[1] == "host"@);
    assert(names[2] == "user"@);
    assert(names[3] == "public_ipv4"@);
    assert forall|i: int, j: int| 0 <= i < names.len() && 0 <= j < names.len() && i != j implies #[trigger] names[i]
        != #[trigger] names[j] by {
        assert(i == 0 || i == 1 || i == 2 || i == 3);
        assert(j == 0 || j == 1 || j == 2 || j == 3);
    }
}

/// Setting one value sets it and leaves the others.
proof fn lemma_put_both(table: Seq<(Seq<char>, DataV)>, key: Seq<char>, v: DataV, other: Seq<char>)
    ensures
        value::lookup(value::put(table, key, v), key) == Some(v),
        other != key ==> value::lookup(value::put(table, key, v), other) == value::lookup(table, other),
{
    value::lemma_put_found(table, key, v);
    if other != key {
        value::lemma_put_kept(table, key, v, other);
    }
}

/// What is chosen stays, and what is not chosen is as by default.
proof fn lemma_with_default(table: Seq<(Seq<char>, DataV)>, key: Seq<char>, v: DataV, other: Seq<char>)
    ensures
        value::lookup(with_default(table, key, v), key) == match value::lookup(table, key) {
            Some(chosen) => Some(chosen),
            None => Some(v),
        },
        value::lookup(table, other) is Some ==> value::lookup(with_default(table, key, v), other)
            == value::lookup(table, other),
        other != key ==> value::lookup(with_default(table, key, v), other) == value::lookup(table, other),
{
    lemma_put_both(table, key, v, other);
}

/// Each target has its own plugin and its own boundary: a shared host isolates projects, a cloud
/// server is a machine of its own, and a platform isolates each environment.
pub proof fn targets_have_their_boundary(target: TargetKind, isolation: Isolation)
    ensures
        isolation_problem(target, isolation) is None <==> isolation == match target {
            TargetKind::Ssh => Isolation::Project,
            TargetKind::Hetzner => Isolation::Machine,
            TargetKind::Kubernetes => Isolation::Environment,
            TargetKind::Fly => Isolation::Environment,
        },
        TargetKind::Ssh.plugin() == "dev.lightrail.ssh"@,
        TargetKind::Hetzner.plugin() == "dev.lightrail.hetzner"@,
        TargetKind::Kubernetes.plugin() == "dev.lightrail.kubernetes"@,
        TargetKind::Fly.plugin() == "dev.lightrail.fly"@,
{
}

/// The SSH target is the host that was given or typed, with the user and the public address that
/// were, and it is never this machine. The address that names are derived from is publicly
/// routable.
pub proof fn ssh_targets_are_as_chosen(supplied: Option<DataV>, d: Dialogue)
    requires
        ssh_stop(supplied, d) is None,
    ensures
        ({
            let table = ssh_table(supplied, d);
            let host = value::text_of(value::lookup(table, "host"@));
            &&& host is Some
            &&& value::text_of(value::field_of(supplied, "host"@)) matches Some(given) ==> host == Some(given)
            &&& value::text_of(value::field_of(supplied, "host"@)) is None ==> host == d.text("host"@)
            &&& value::text_of(value::field_of(supplied, "user"@)) matches Some(given) ==> value::lookup(
                table,
                "user"@,
            ) == Some(DataV::Str(given))
            &&& value::text_of(value::field_of(supplied, "public_ipv4"@)) matches Some(given) ==> value::lookup(
                table,
                "public_ipv4"@,
            ) == Some(DataV::Str(given))
            &&& text::lowered(host->0) != "localhost"@
            &&& address::ip_of(host->0) matches Some(ip) ==> !address::is_loopback_ip(ip)
            &&& value::text_of(value::lookup(table, "public_ipv4"@)) matches Some(s) ==> (address::ipv4_of(
                s,
            ) matches Some(octets) && address::is_public(octets))
            &&& value::lookup(table, "public_ipv4"@) is None ==> (address::ipv4_of(host->0) matches Some(octets)
                && address::is_public(octets))
        }),
{
    lemma_ssh_names();
    let names = seq!["bootstrap"@, "host"@, "user"@, "public_ipv4"@];
    assert(names[0] != names[1] && names[0] != names[2] && names[0] != names[3]);
    assert(names[1] != names[2] && names[1] != names[3] && names[2] != names[3]);
    let host = answer_of(supplied_text(supplied, "host"@), d, "host"@);
    let base = seq![("bootstrap"@, DataV::Str("auto"@))];
    assert(base.subrange(1, 1) =~= Seq::<(Seq<char>, DataV)>::empty());
    assert(value::lookup(base, "public_ipv4"@) is None && value::lookup(base, "user"@) is None) by {
        assert(base[0].0 == "bootstrap"@);
        assert(value::lookup(Seq::<(Seq<char>, DataV)>::empty(), "public_ipv4"@) is None);
        assert(value::lookup(Seq::<(Seq<char>, DataV)>::empty(), "user"@) is None);
    }
    let a = value::put(base, "host"@, DataV::Str(host));
    let b = with_text(a, "user"@, ssh_user(supplied, d));
    lemma_put_both(base, "host"@, DataV::Str(host), "public_ipv4"@);
    lemma_put_both(base, "host"@, DataV::Str(host), "user"@);
    if let Some(user) = ssh_user(supplied, d) {
        lemma_put_both(a, "user"@, DataV::Str(user), "host"@);
        lemma_put_both(a, "user"@, DataV::Str(user), "public_ipv4"@);
    }
    if let Some(address) = ssh_public(supplied, d) {
        lemma_put_both(b, "public_ipv4"@, DataV::Str(address), "host"@);
        lemma_put_both(b, "public_ipv4"@, DataV::Str(address), "user"@);
    }
}

/// A network that may reach a server is an address with a prefix, and never the whole world.
pub proof fn networks_are_never_world_open(cidr: Seq<char>)
    requires
        cidr_problem(cidr) is None,
    ensures
        text::split_first(cidr, '/') matches Some((ip, prefix)) && (address::ip_of(ip) matches Some(found) && (
        text::parsed(prefix, 255) matches Some(n) && n > 0 && match found {
            address::IpV::V4(_) => n <= 32,
            address::IpV::V6(_) => n <= 128,
        })),
{
}

/// A list of networks without a problem has none in it.
proof fn lemma_networks(cidrs: Seq<Seq<char>>, i: int)
    requires
        cidrs_problem(cidrs) is None,
        0 <= i < cidrs.len(),
    ensures
        cidr_problem(cidrs[i]) is None,
    decreases cidrs.len(),
{
    if i > 0 {
        let rest = cidrs.subrange(1, cidrs.len() as int);
        assert(rest[i - 1] == cidrs[i]);
        lemma_networks(rest, i - 1);
    }
}

/// The Hetzner settings hold the keys and the networks that were given or typed, at least one of
/// each, and each network is narrower than the world. The token is a reference to a secret.
pub proof fn hetzner_servers_are_not_world_open(supplied: Option<DataV>, d: Dialogue)
    requires
        hetzner_stop(supplied, d) is None,
    ensures
        ({
            let table = hetzner_table(supplied, d);
            &&& value::lookup(table, "allowed_ssh_cidrs"@) matches Some(DataV::Array(networks)) && networks.len()
                > 0 && forall|i: int|
                0 <= i < networks.len() ==> (#[trigger] networks[i] matches DataV::Str(cidr) && (
                text::split_first(cidr, '/') matches Some((ip, prefix)) && address::ip_of(ip) is Some && (
                text::parsed(prefix, 255) matches Some(n) && n > 0)))
            &&& value::lookup(table, "ssh_keys"@) matches Some(DataV::Array(keys)) && keys.len() > 0
            &&& value::field_of(value::lookup(table, "token"@), "secret"@) == Some(DataV::Str("hetzner-token"@))
            &&& value::text_of(value::field_of(supplied, "server_type"@)) matches Some(given) ==> value::lookup(
                table,
                "server_type"@,
            ) == Some(DataV::Str(given))
            &&& value::text_of(value::field_of(supplied, "location"@)) matches Some(given) ==> value::lookup(
                table,
                "location"@,
            ) == Some(DataV::Str(given))
        }),
{
    lemma_hetzner_names();
    let names = seq!["server_type"@, "token"@, "bootstrap"@, "ssh_keys"@, "allowed_ssh_cidrs"@, "location"@];
    assert(forall|i: int, j: int| 0 <= i < 6 && 0 <= j < 6 && i != j ==> #[trigger] names[i] != #[trigger] names[j]);
    assert(names[0] == "server_type"@ && names[1] == "token"@ && names[2] == "bootstrap"@ && names[3]
        == "ssh_keys"@ && names[4] == "allowed_ssh_cidrs"@ && names[5] == "location"@);
    let networks = hetzner_sources(supplied, d);
    let keys = hetzner_keys(supplied, d);
    assert(networks.len() > 0);
    assert(keys.len() > 0);
    assert forall|i: int| 0 <= i < networks.len() implies cidr_problem(#[trigger] networks[i]) is None by {
        lemma_networks(networks, i);
    }
    let server_type = match supplied_text(supplied, "server_type"@) {
        Some(s) => s,
        None => "cx23"@,
    };
    let base = seq![("server_type"@, DataV::Str(server_type))];
    assert(value::lookup(base, names[0]) == Some(DataV::Str(server_type)));
    let token = secret_reference("hetzner-token"@);
    let a = value::put(base, "token"@, token);
    let b = value::put(a, "bootstrap"@, DataV::Str("cloud-init"@));
    let c = value::put(b, "ssh_keys"@, text_list(keys));
    let e = value::put(c, "allowed_ssh_cidrs"@, text_list(networks));
    lemma_put_both(base, names[1], token, names[0]);
    lemma_put_both(a, names[2], DataV::Str("cloud-init"@), names[0]);
    lemma_put_both(a, names[2], DataV::Str("cloud-init"@), names[1]);
    lemma_put_both(b, names[3], text_list(keys), names[0]);
    lemma_put_both(b, names[3], text_list(keys), names[1]);
    lemma_put_both(c, names[4], text_list(networks), names[0]);
    lemma_put_both(c, names[4], text_list(networks), names[1]);
    lemma_put_both(c, names[4], text_list(networks), names[3]);
    let location = match supplied_text(supplied, "location"@) {
        Some(s) => Some(s),
        None => if d.interactive {
            Some("nbg1"@)
        } else {
            None
        },
    };
    if let Some(place) = location {
        lemma_put_both(e, names[5], DataV::Str(place), names[0]);
        lemma_put_both(e, names[5], DataV::Str(place), names[1]);
        lemma_put_both(e, names[5], DataV::Str(place), names[3]);
        lemma_put_both(e, names[5], DataV::Str(place), names[4]);
    }
    let listed = text_list(networks)->Array_0;
    assert forall|i: int| 0 <= i < listed.len() implies (#[trigger] listed[i] matches DataV::Str(cidr) && (
    text::split_first(cidr, '/') matches Some((ip, prefix)) && address::ip_of(ip) is Some && (text::parsed(
        prefix,
        255,
    ) matches Some(n) && n > 0))) by {
        assert(cidr_problem(networks[i]) is None);
        networks_are_never_world_open(networks[i]);
    }
    let reference = token->Object_0;
    assert(reference[0].0 == "secret"@);
    assert(value::lookup(reference, "secret"@) == Some(DataV::Str("hetzner-token"@)));
}

/// The Kubernetes settings name the context, the registry, the repository and the ingress that
/// were given or typed, and everything else that was given stays as it was given.
pub proof fn kubernetes_settings_are_as_chosen(supplied: Option<DataV>, d: Dialogue, other: Seq<char>)
    ensures
        ({
            let given = supplied_entries(supplied);
            let table = kubernetes_table(supplied, d);
            &&& value::lookup(table, "context"@) == Some(DataV::Str(required_text(given, "context"@, d)))
            &&& value::lookup(table, "registry"@) == Some(DataV::Str(required_text(given, "registry"@, d)))
            &&& value::lookup(table, "repository"@) == Some(DataV::Str(required_text(given, "repository"@, d)))
            &&& value::lookup(table, "ingress_class"@) == Some(
                DataV::Str(required_text(given, "ingress_class"@, d)),
            )
            &&& value::lookup(table, "ingress_service_namespace"@) == Some(
                DataV::Str(required_text(given, "ingress_service_namespace"@, d)),
            )
            &&& value::lookup(table, "ingress_service_name"@) == Some(
                DataV::Str(required_text(given, "ingress_service_name"@, d)),
            )
            &&& other != "context"@ && other != "registry"@ && other != "repository"@ && other
                != "ingress_class"@ && other != "ingress_service_namespace"@ && other
                != "ingress_service_name"@ ==> (value::lookup(given, other) matches Some(v) ==> value::lookup(
                table,
                other,
            ) == Some(v))
        }),
{
    lemma_required_names();
    let names = seq!["context"@, "registry"@, "repository"@, "ingress_class"@, "ingress_service_namespace"@, "ingress_service_name"@];
    assert(forall|i: int, j: int| 0 <= i < 6 && 0 <= j < 6 && i != j ==> #[trigger] names[i] != #[trigger] names[j]);
    assert(names[0] == "context"@ && names[1] == "registry"@ && names[2] == "repository"@ && names[3]
        == "ingress_class"@ && names[4] == "ingress_service_namespace"@ && names[5] == "ingress_service_name"@);
    let given = supplied_entries(supplied);
    lemma_required(given, d, names[0]);
    lemma_required(given, d, names[1]);
    lemma_required(given, d, names[2]);
    lemma_required(given, d, names[3]);
    lemma_required(given, d, names[4]);
    lemma_required(given, d, names[5]);
    lemma_required(given, d, other);
    let a = kubernetes_required(given, d);
    lemma_defaults_kept(a, names[0]);
    lemma_defaults_kept(a, names[1]);
    lemma_defaults_kept(a, names[2]);
    lemma_defaults_kept(a, names[3]);
    lemma_defaults_kept(a, names[4]);
    lemma_defaults_kept(a, names[5]);
    lemma_defaults_kept(a, other);
}

/// The table with the defaults of Kubernetes.
spec fn with_cluster_defaults(a: Seq<(Seq<char>, DataV)>) -> Seq<(Seq<char>, DataV)> {
    let b = with_default(a, "namespace_prefix"@, DataV::Str("lr"@));
    let c = with_default(b, "control_namespace"@, DataV::Str("lightrail-system"@));
    let e = with_default(c, "dns_domain"@, DataV::Str("sslip.io"@));
    let f = with_default(e, "cluster_issuer"@, DataV::Str("letsencrypt"@));
    let g = with_default(f, "replicas"@, DataV::Integer(1));
    let h = with_default(g, "ttl_hours"@, DataV::Integer(72));
    let i = with_default(h, "command_timeout_seconds"@, DataV::Integer(300));
    with_default(i, "readiness_timeout_seconds"@, DataV::Integer(300))
}

/// Defaults leave what is there.
proof fn lemma_defaults_kept(a: Seq<(Seq<char>, DataV)>, key: Seq<char>)
    ensures
        value::lookup(a, key) is Some ==> value::lookup(with_cluster_defaults(a), key) == value::lookup(a, key),
{
    let b = with_default(a, "namespace_prefix"@, DataV::Str("lr"@));
    let c = with_default(b, "control_namespace"@, DataV::Str("lightrail-system"@));
    let e = with_default(c, "dns_domain"@, DataV::Str("sslip.io"@));
    let f = with_default(e, "cluster_issuer"@, DataV::Str("letsencrypt"@));
    let g = with_default(f, "replicas"@, DataV::Integer(1));
    let h = with_default(g, "ttl_hours"@, DataV::Integer(72));
    let i = with_default(h, "command_timeout_seconds"@, DataV::Integer(300));
    lemma_with_default(a, "namespace_prefix"@, DataV::Str("lr"@), key);
    lemma_with_default(b, "control_namespace"@, DataV::Str("lightrail-system"@), key);
    lemma_with_default(c, "dns_domain"@, DataV::Str("sslip.io"@), key);
    lemma_with_default(e, "cluster_issuer"@, DataV::Str("letsencrypt"@), key);
    lemma_with_default(f, "replicas"@, DataV::Integer(1), key);
    lemma_with_default(g, "ttl_hours"@, DataV::Integer(72), key);
    lemma_with_default(h, "command_timeout_seconds"@, DataV::Integer(300), key);
    lemma_with_default(i, "readiness_timeout_seconds"@, DataV::Integer(300), key);
}

/// What Kubernetes needs is set, and nothing else is touched.
proof fn lemma_required(table: Seq<(Seq<char>, DataV)>, d: Dialogue, key: Seq<char>)
    ensures
        value::lookup(kubernetes_required(table, d), key) == if key == "context"@ || key == "registry"@ || key
            == "repository"@ || key == "ingress_class"@ || key == "ingress_service_namespace"@ || key
            == "ingress_service_name"@ {
            Some(DataV::Str(required_text(table, key, d)))
        } else {
            value::lookup(table, key)
        },
{
    let a = value::put(table, "context"@, DataV::Str(required_text(table, "context"@, d)));
    let b = value::put(a, "registry"@, DataV::Str(required_text(table, "registry"@, d)));
    let c = value::put(b, "repository"@, DataV::Str(required_text(table, "repository"@, d)));
    let e = value::put(c, "ingress_class"@, DataV::Str(required_text(table, "ingress_class"@, d)));
    let f = value::put(
        e,
        "ingress_service_namespace"@,
        DataV::Str(required_text(table, "ingress_service_namespace"@, d)),
    );
    lemma_put_both(table, "context"@, DataV::Str(required_text(table, "context"@, d)), key);
    lemma_put_both(a, "registry"@, DataV::Str(required_text(table, "registry"@, d)), key);
    lemma_put_both(b, "repository"@, DataV::Str(required_text(table, "repository"@, d)), key);
    lemma_put_both(c, "ingress_class"@, DataV::Str(required_text(table, "ingress_class"@, d)), key);
    lemma_put_both(
        e,
        "ingress_service_namespace"@,
        DataV::Str(required_text(table, "ingress_service_namespace"@, d)),
        key,
    );
    lemma_put_both(
        f,
        "ingress_service_name"@,
        DataV::Str(required_text(table, "ingress_service_name"@, d)),
        key,
    );
}

/// What is given of a needed text is taken without surrounding spaces; what is not given is what
/// was typed.
pub proof fn needed_texts_are_as_given(table: Seq<(Seq<char>, DataV)>, key: Seq<char>, d: Dialogue, s: Seq<char>)
    ensures
        value::lookup(table, key) == Some(DataV::Str(s)) && text::trimmed(s).len() > 0 ==> required_text(
            table,
            key,
            d,
        ) == text::trimmed(s),
        value::lookup(table, key) is None && d.text(key) == Some(s) ==> required_text(table, key, d)
            == text::trimmed(s),
{
}

/// The Fly.io settings keep what was given, and the token is a reference to a secret whatever was
/// given.
pub proof fn fly_settings_are_as_chosen(supplied: Option<DataV>, other: Seq<char>)
    ensures
        other != "token"@ ==> (value::lookup(supplied_entries(supplied), other) matches Some(v) ==> value::lookup(
            fly_table(supplied),
            other,
        ) == Some(v)),
        value::field_of(value::lookup(fly_table(supplied), "token"@), "secret"@) == Some(
            DataV::Str("fly-token"@),
        ),
{
    let s = supplied_entries(supplied);
    let a = with_default(s, "organization"@, DataV::Str("personal"@));
    let b = with_default(a, "registry"@, DataV::Str("registry.fly.io"@));
    let c = with_default(b, "platform"@, DataV::Str("linux/amd64"@));
    let e = with_default(c, "app_prefix"@, DataV::Str("lr"@));
    let f = with_default(e, "cpu_kind"@, DataV::Str("shared"@));
    let g = with_default(f, "cpus"@, DataV::Integer(1));
    let h = with_default(g, "memory_mb"@, DataV::Integer(256));
    let i = with_default(h, "ttl_hours"@, DataV::Integer(72));
    let j = with_default(i, "lock_ttl_seconds"@, DataV::Integer(3600));
    let k = with_default(j, "auto_stop"@, DataV::Bool(true));
    lemma_with_default(s, "organization"@, DataV::Str("personal"@), other);
    lemma_with_default(a, "registry"@, DataV::Str("registry.fly.io"@), other);
    lemma_with_default(b, "platform"@, DataV::Str("linux/amd64"@), other);
    lemma_with_default(c, "app_prefix"@, DataV::Str("lr"@), other);
    lemma_with_default(e, "cpu_kind"@, DataV::Str("shared"@), other);
    lemma_with_default(f, "cpus"@, DataV::Integer(1), other);
    lemma_with_default(g, "memory_mb"@, DataV::Integer(256), other);
    lemma_with_default(h, "ttl_hours"@, DataV::Integer(72), other);
    lemma_with_default(i, "lock_ttl_seconds"@, DataV::Integer(3600), other);
    lemma_with_default(j, "auto_stop"@, DataV::Bool(true), other);
    lemma_put_both(k, "token"@, secret_reference("fly-token"@), other);
    let reference = secret_reference("fly-token"@)->Object_0;
    assert(reference[0].0 == "secret"@);
    assert(value::lookup(reference, "secret"@) == Some(DataV::Str("fly-token"@)));
}

/// A bare address that may reach a server stands for itself alone; a network stays as it is.
pub proof fn bare_addresses_stand_for_themselves(s: Seq<char>)
    ensures
        s.contains('/') ==> source_network(s) == s,
        !s.contains('/') ==> (address::ip_of(s) matches Some(ip) ==> source_network(s) == address::ip_text(ip)
            + "/"@ + text::decimal(
            match ip {
                address::IpV::V4(_) => 32,
                address::IpV::V6(_) => 128,
            },
        )),
{
}

/// An SSH target is never the machine itself, and its address is one that others can reach: the
/// host where that is such an address, and else the one that is given.
pub proof fn ssh_targets_can_be_reached(supplied: Option<DataV>, d: Dialogue)
    requires
        ssh_stop(supplied, d) is None,
    ensures
        ({
            let host = answer_of(supplied_text(supplied, "host"@), d, "host"@);
            &&& text::lowered(host) != "localhost"@
            &&& address::ip_of(host) matches Some(ip) ==> !address::is_loopback_ip(ip)
            &&& ssh_public(supplied, d) matches Some(s) ==> (address::ipv4_of(s) matches Some(octets)
                && address::is_public(octets))
            &&& ssh_public(supplied, d) is None ==> (address::ipv4_of(host) matches Some(octets)
                && address::is_public(octets))
        }),
        value::field_of(supplied, "public_ipv4"@) matches Some(DataV::Str(s)) ==> ssh_public(supplied, d) == Some(s),
        value::field_of(supplied, "host"@) matches Some(DataV::Str(host)) ==> answer_of(
            supplied_text(supplied, "host"@),
            d,
            "host"@,
        ) == host,
{
}

/// Servers with an address of their own are public and have certificates, and their names hold
/// the address; other targets bring their own exposure and names.
pub proof fn servers_are_exposed_with_certificates(target: TargetKind)
    ensures
        target == TargetKind::Ssh || target == TargetKind::Hetzner ==> value::lookup(exposure_table(target), "mode"@)
            == Some(DataV::Str("public"@)) && value::lookup(exposure_table(target), "tls"@) == Some(
            DataV::Str("acme-http-01"@),
        ) && value::lookup(dns_table(target), "domain"@) == Some(DataV::Str("sslip.io"@)) && value::lookup(
            dns_table(target),
            "encoding"@,
        ) == Some(DataV::Str("hex-ipv4"@)),
        target == TargetKind::Kubernetes || target == TargetKind::Fly ==> exposure_table(target).len() == 0
            && dns_table(target).len() == 0,
{
    reveal_strlit("mode");
    reveal_strlit("tls");
    reveal_strlit("domain");
    reveal_strlit("encoding");
    assert("mode"@.len() == 4 && "tls"@.len() == 3 && "domain"@.len() == 6 && "encoding"@.len() == 8);
    let mode = seq![("mode"@, DataV::Str("public"@))];
    assert(value::lookup(mode, "mode"@) == Some(DataV::Str("public"@)));
    value::lemma_put_found(mode, "tls"@, DataV::Str("acme-http-01"@));
    value::lemma_put_kept(mode, "tls"@, DataV::Str("acme-http-01"@), "mode"@);
    let domain = seq![("domain"@, DataV::Str("sslip.io"@))];
    assert(value::lookup(domain, "domain"@) == Some(DataV::Str("sslip.io"@)));
    value::lemma_put_found(domain, "encoding"@, DataV::Str("hex-ipv4"@));
    value::lemma_put_kept(domain, "encoding"@, DataV::Str("hex-ipv4"@), "domain"@);
}

/// Names are given by one of the two public services that encode addresses, and the domain that
/// is given wins over the settings; Fly.io takes no domain.
pub proof fn domains_encode_addresses(
    target: TargetKind,
    domain: Option<Seq<char>>,
    answers: Seq<(Seq<char>, DataV)>,
    d: Dialogue,
)
    requires
        settings_stop(target, domain, answers, d) is None,
    ensures
        target == TargetKind::Fly ==> domain is None,
        target != TargetKind::Fly ==> (value::lookup(overlaid(target, answers, d), "dns"@) matches Some(
            DataV::Object(dns),
        ) && (effective_domain(domain, answers, dns) == "sslip.io"@ || effective_domain(domain, answers, dns)
            == "nip.io"@) && (domain matches Some(s) ==> effective_domain(domain, answers, dns) == s)),
{
}

/// A list that is typed holds each part between commas, trimmed, where anything is left of it.
pub proof fn typed_lists_hold_their_parts(s: Seq<char>, i: int)
    requires
        0 <= i < text::split(s, ',').len(),
        text::trimmed(text::split(s, ',')[i]).len() > 0,
    ensures
        comma_list(s).contains(text::trimmed(text::split(s, ',')[i])),
{
    lemma_comma_parts(text::split(s, ','), i);
}

/// A part with something in it is kept.
proof fn lemma_comma_parts(parts: Seq<Seq<char>>, i: int)
    requires
        0 <= i < parts.len(),
        text::trimmed(parts[i]).len() > 0,
    ensures
        comma_parts(parts).contains(text::trimmed(parts[i])),
    decreases parts.len(),
{
    let kept = comma_parts(parts);
    if i == parts.len() - 1 {
        assert(kept[kept.len() - 1] == text::trimmed(parts[i]));
    } else {
        lemma_comma_parts(parts.drop_last(), i);
        let before = comma_parts(parts.drop_last());
        let k = choose|k: int| 0 <= k < before.len() && before[k] == text::trimmed(parts[i]);
        assert(kept[k] == text::trimmed(parts[i]));
    }
}

/// The keys and the sources of a Hetzner server are those that are given, and else those that are
/// typed.
pub proof fn given_keys_and_sources_are_used(supplied: Option<DataV>, d: Dialogue, items: Seq<DataV>, i: int)
    requires
        0 <= i < items.len(),
        items[i] is Str,
    ensures
        value::field_of(supplied, "ssh_keys"@) == Some(DataV::Array(items)) ==> hetzner_keys(supplied, d).len()
            == items.len() && hetzner_keys(supplied, d)[i] == text::trimmed(items[i]->Str_0),
        value::field_of(supplied, "allowed_ssh_cidrs"@) == Some(DataV::Array(items)) ==> hetzner_sources(
            supplied,
            d,
        ).len() == items.len() && hetzner_sources(supplied, d)[i] == text::trimmed(items[i]->Str_0),
        value::field_of(supplied, "ssh_keys"@) is None ==> (d.text("ssh_keys"@) matches Some(typed) ==> hetzner_keys(
            supplied,
            d,
        ) == comma_list(typed)),
{
}

} // verus!
