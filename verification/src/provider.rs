//! What the bundled providers accept as target settings.

use vstd::prelude::*;

use crate::address;
use crate::error::{settles, CliError, CliErrorV};
use crate::naming;
use crate::path;
use crate::text;
use crate::value;
use crate::value::{Data, DataV};

verus! {

/// The first of two problems.
pub open spec fn first(a: Option<CliErrorV>, b: Option<CliErrorV>) -> Option<CliErrorV> {
    if a is Some {
        a
    } else {
        b
    }
}

/// A problem, where a condition fails.
pub open spec fn unless(condition: bool, message: Seq<char>) -> Option<CliErrorV> {
    if condition {
        None
    } else {
        Some(CliErrorV::Config(message))
    }
}

/// The full name of a target setting.
pub open spec fn target_field(key: Seq<char>) -> Seq<char> {
    "settings.target."@ + key
}

// ---------------------------------------------------------------------------
// Reading settings
// ---------------------------------------------------------------------------

/// A text that can be handed to a provider.
pub open spec fn is_provider_text(s: Seq<char>) -> bool {
    s.len() > 0 && s == text::trimmed(s) && text::no_control(s)
}

/// The problem of a setting that may be absent.
pub open spec fn optional_problem(table: Seq<(Seq<char>, DataV)>, key: Seq<char>, field: Seq<char>) -> Option<
    CliErrorV,
> {
    match value::lookup(table, key) {
        None => None,
        Some(v) => unless(
            v matches DataV::Str(s) && is_provider_text(s),
            "`"@ + field
                + "` must be a non-empty string without surrounding whitespace or control characters"@,
        ),
    }
}

/// The problem of a setting that must be there.
pub open spec fn required_problem(table: Seq<(Seq<char>, DataV)>, key: Seq<char>, field: Seq<char>) -> Option<
    CliErrorV,
> {
    first(
        optional_problem(table, key, field),
        unless(
            value::lookup(table, key) is Some,
            "`"@ + field + "` must be a non-empty string"@,
        ),
    )
}

/// The text of a setting, or another where it is absent.
pub open spec fn text_or(table: Seq<(Seq<char>, DataV)>, key: Seq<char>, default: Seq<char>) -> Seq<char> {
    match value::text_of(value::lookup(table, key)) {
        Some(s) => s,
        None => default,
    }
}

/// The text of a setting that is there.
pub open spec fn text_at(table: Seq<(Seq<char>, DataV)>, key: Seq<char>) -> Seq<char> {
    text_or(table, key, Seq::empty())
}

/// Reads a setting that may be absent.
pub fn optional_provider_string<'a>(table: &'a Vec<(String, Data)>, key: &str, field: &str) -> (r: Result<
    Option<&'a str>,
    CliError,
>)
    ensures
        settles(r, optional_problem(value::entry_views(table@), key@, field@)),
        match r {
            Ok(Some(s)) => value::lookup(value::entry_views(table@), key@) == Some(DataV::Str(s@)),
            Ok(None) => value::lookup(value::entry_views(table@), key@) is None,
            Err(_) => true,
        },
{
    broadcast use {value::lemma_array_view, value::lemma_object_view};

    match value::find_entry(table, key) {
        None => Ok(None),
        Some(v) => {
            if let Data::Str(s) = v {
                if !s.as_str().is_empty() && text::same(text::trim(s.as_str()).as_str(), s.as_str())
                    && text::free_of_control(s.as_str()) {
                    return Ok(Some(s.as_str()));
                }
            }
            Err(
                CliError::Config(
                    text::cat3(
                        "`",
                        field,
                        "` must be a non-empty string without surrounding whitespace or control characters",
                    ),
                ),
            )
        },
    }
}

/// Reads a setting that must be there.
pub fn provider_string<'a>(table: &'a Vec<(String, Data)>, key: &str, field: &str) -> (r: Result<
    &'a str,
    CliError,
>)
    ensures
        settles(r, required_problem(value::entry_views(table@), key@, field@)),
        match r {
            Ok(s) => s@ == text_at(value::entry_views(table@), key@),
            Err(_) => true,
        },
{
    match optional_provider_string(table, key, field)? {
        Some(s) => Ok(s),
        None => Err(CliError::Config(text::cat3("`", field, "` must be a non-empty string"))),
    }
}

/// The problem of a flag that must be there.
pub open spec fn flag_problem(table: Seq<(Seq<char>, DataV)>, key: Seq<char>, field: Seq<char>) -> Option<
    CliErrorV,
> {
    unless(value::flag_of(value::lookup(table, key)) is Some, "`"@ + field + "` must be a boolean"@)
}

/// Reads a flag that must be there.
pub fn provider_boolean(table: &Vec<(String, Data)>, key: &str, field: &str) -> (r: Result<bool, CliError>)
    ensures
        settles(r, flag_problem(value::entry_views(table@), key@, field@)),
        match r {
            Ok(flag) => value::flag_of(value::lookup(value::entry_views(table@), key@)) == Some(flag),
            Err(_) => true,
        },
{
    if let Some(v) = value::find_entry(table, key) {
        if let Some(flag) = v.as_bool() {
            return Ok(flag);
        }
    }
    Err(CliError::Config(text::cat3("`", field, "` must be a boolean")))
}

/// The number of a setting, or another where there is none.
pub open spec fn number_or(table: Seq<(Seq<char>, DataV)>, key: Seq<char>, default: i64) -> i64 {
    match value::integer_of(value::lookup(table, key)) {
        Some(n) => n,
        None => default,
    }
}

/// The problem of a number that must be there and in a range.
pub open spec fn range_problem(
    table: Seq<(Seq<char>, DataV)>,
    key: Seq<char>,
    minimum: i64,
    maximum: i64,
) -> Option<CliErrorV> {
    match value::integer_of(value::lookup(table, key)) {
        None => Some(CliErrorV::Config("`"@ + target_field(key) + "` must be an integer"@)),
        Some(n) => unless(
            minimum <= n <= maximum,
            "`"@ + target_field(key) + "` must be between "@ + text::signed_decimal(minimum as int)
                + " and "@ + text::signed_decimal(maximum as int),
        ),
    }
}

/// Reads a number that must be there and in a range.
pub fn validate_integer_range(table: &Vec<(String, Data)>, key: &str, minimum: i64, maximum: i64) -> (r: Result<
    i64,
    CliError,
>)
    ensures
        settles(r, range_problem(value::entry_views(table@), key@, minimum, maximum)),
        match r {
            Ok(n) => value::integer_of(value::lookup(value::entry_views(table@), key@)) == Some(n),
            Err(_) => true,
        },
{
    let field = text::cat2("settings.target.", key);
    if let Some(v) = value::find_entry(table, key) {
        if let Some(n) = v.as_integer() {
            if minimum <= n && n <= maximum {
                return Ok(n);
            }
            let head = text::cat5(
                "`",
                field.as_str(),
                "` must be between ",
                text::signed_number(minimum as i128).as_str(),
                " and ",
            );
            return Err(
                CliError::Config(
                    text::cat2(head.as_str(), text::signed_number(maximum as i128).as_str()),
                ),
            );
        }
    }
    Err(CliError::Config(text::cat3("`", field.as_str(), "` must be an integer")))
}

// ---------------------------------------------------------------------------
// Names
// ---------------------------------------------------------------------------

/// The problem of a text that goes on a command line.
pub open spec fn argument_problem(s: Seq<char>, field: Seq<char>, maximum: nat) -> Option<CliErrorV> {
    unless(
        !text::has_prefix(s, "-"@) && text::utf8_len(s) <= maximum,
        "`"@ + field + "` is too long or starts with an option prefix"@,
    )
}

/// Rejects a text that does not fit on a command line or reads as an option.
pub fn validate_safe_provider_argument(s: &str, field: &str, maximum: usize) -> (r: Result<(), CliError>)
    ensures
        settles(r, argument_problem(s@, field@, maximum as nat)),
{
    if text::starts_with(s, "-") || text::byte_len(s) > maximum {
        return Err(
            CliError::Config(
                text::cat3("`", field, "` is too long or starts with an option prefix"),
            ),
        );
    }
    Ok(())
}

/// The problem of a text that must be a DNS label.
pub open spec fn label_problem(s: Seq<char>, field: Seq<char>) -> Option<CliErrorV> {
    unless(naming::is_dns_label(s), "`"@ + field + "` must be a lowercase DNS label"@)
}

/// Tests for a DNS label.
pub fn dns_label(s: &str) -> (r: bool)
    ensures
        r == naming::is_dns_label(s@),
{
    let chars = text::chars_of(s);
    if chars.len() == 0 || chars.len() > 63 || chars[0] == '-' || chars[chars.len() - 1] == '-' {
        return false;
    }
    let mut i: usize = 0;
    while i < chars.len()
        invariant
            i <= chars@.len(),
            chars@ == s@,
            forall|k: int| 0 <= k < i ==> naming::is_label_char(#[trigger] s@[k]),
        decreases chars.len() - i,
    {
        let c = chars[i];
        if !(text::lower_letter(c) || text::digit(c) || c == '-') {
            assert(!naming::is_label_char(s@[i as int]));
            return false;
        }
        i += 1;
    }
    true
}

/// Rejects what is not a DNS label.
pub fn validate_dns_label_setting(s: &str, field: &str) -> (r: Result<(), CliError>)
    ensures
        settles(r, label_problem(s@, field@)),
{
    if dns_label(s) {
        Ok(())
    } else {
        Err(CliError::Config(text::cat3("`", field, "` must be a lowercase DNS label")))
    }
}

/// Labels with dots between them.
pub open spec fn is_dns_subdomain(s: Seq<char>) -> bool {
    text::utf8_len(s) <= 253 && forall|i: int|
        0 <= i < text::split(s, '.').len() ==> naming::is_dns_label(#[trigger] text::split(s, '.')[i])
}

/// The problem of a text that must be a DNS subdomain.
pub open spec fn subdomain_problem(s: Seq<char>, field: Seq<char>) -> Option<CliErrorV> {
    unless(is_dns_subdomain(s), "`"@ + field + "` must be a lowercase DNS subdomain"@)
}

/// Tests for labels with dots between them.
pub fn dns_subdomain(s: &str) -> (r: bool)
    ensures
        r == is_dns_subdomain(s@),
{
    if text::byte_len(s) > 253 {
        return false;
    }
    let parts = text::split_at_char(s, '.');
    let ghost model = text::split(s@, '.');
    let mut i: usize = 0;
    assert(text::texts(parts@).len() == parts@.len());
    while i < parts.len()
        invariant
            i <= parts@.len(),
            text::texts(parts@) == model,
            model == text::split(s@, '.'),
            model.len() == parts@.len(),
            forall|k: int| 0 <= k < i ==> naming::is_dns_label(#[trigger] model[k]),
        decreases parts.len() - i,
    {
        assert(model[i as int] == parts@[i as int]@);
        if !dns_label(parts[i].as_str()) {
            return false;
        }
        i += 1;
    }
    true
}

/// Rejects what is not a DNS subdomain.
pub fn validate_dns_subdomain_setting(s: &str, field: &str) -> (r: Result<(), CliError>)
    ensures
        settles(r, subdomain_problem(s@, field@)),
{
    if dns_subdomain(s) {
        Ok(())
    } else {
        Err(CliError::Config(text::cat3("`", field, "` must be a lowercase DNS subdomain")))
    }
}

/// The problem of a text that must be a slug of the provider.
pub open spec fn slug_problem(s: Seq<char>, field: Seq<char>, maximum: nat) -> Option<CliErrorV> {
    unless(
        text::utf8_len(s) <= maximum && !text::has_prefix(s, "-"@) && !text::has_suffix(s, "-"@)
            && text::all_in(s, true, false, true, "-"@),
        "`"@ + field + "` must be a lowercase provider slug no longer than "@ + text::decimal(maximum)
            + " characters"@,
    )
}

/// Rejects what is not a slug of the provider.
pub fn validate_fly_slug(s: &str, field: &str, maximum: usize) -> (r: Result<(), CliError>)
    ensures
        settles(r, slug_problem(s@, field@, maximum as nat)),
{
    if text::byte_len(s) > maximum || text::starts_with(s, "-") || text::ends_with(s, "-")
        || !text::all_in_set(s, true, false, true, "-") {
        return Err(
            CliError::Config(
                text::cat5(
                    "`",
                    field,
                    "` must be a lowercase provider slug no longer than ",
                    text::number(maximum as u128).as_str(),
                    " characters",
                ),
            ),
        );
    }
    Ok(())
}

// ---------------------------------------------------------------------------
// Registries
// ---------------------------------------------------------------------------

/// The number of times a character occurs.
pub open spec fn occurrences(s: Seq<char>, c: char) -> nat
    decreases s.len(),
{
    if s.len() == 0 {
        0
    } else if s.last() == c {
        occurrences(s.drop_last(), c) + 1
    } else {
        occurrences(s.drop_last(), c)
    }
}

/// Counts how often a character occurs.
fn count_char(s: &str, c: char) -> (r: usize)
    ensures
        r == occurrences(s@, c),
{
    let chars = text::chars_of(s);
    let mut n: usize = 0;
    let mut i: usize = 0;
    assert(s@.take(0) =~= Seq::<char>::empty());
    while i < chars.len()
        invariant
            chars@ == s@,
            i <= chars@.len(),
            n <= i,
            n == occurrences(s@.take(i as int), c),
        decreases chars.len() - i,
    {
        assert(s@.take(i + 1).drop_last() =~= s@.take(i as int));
        if chars[i] == c {
            n += 1;
        }
        i += 1;
    }
    assert(s@.take(s@.len() as int) =~= s@);
    n
}

/// A label of a host: letters, digits and hyphens, with a letter or digit at either end.
pub open spec fn is_host_label(s: Seq<char>) -> bool {
    &&& s.len() > 0
    &&& text::utf8_len(s) <= 63
    &&& text::all_in(s, true, true, true, "-"@)
    &&& text::is_alnum(s[0])
    &&& text::is_alnum(s.last())
}

/// Tests for a label of a host.
fn host_label(s: &str) -> (r: bool)
    ensures
        r == is_host_label(s@),
{
    let chars = text::chars_of(s);
    chars.len() > 0 && text::byte_len(s) <= 63 && text::all_in_set(s, true, true, true, "-")
        && text::alnum(chars[0]) && text::alnum(chars[chars.len() - 1])
}

/// A host name or address outside this machine.
pub open spec fn is_remote_host(host: Seq<char>) -> bool {
    let labels = text::split(host, '.');
    if host.len() == 0 || text::lowered(host) == "localhost"@ || text::lowered(host)
        == "localhost.localdomain"@ {
        false
    } else {
        match address::ipv4_of(host) {
            Some(octets) => octets[0] != 127 && octets != seq![0u8, 0, 0, 0],
            None => !text::all_in(host, false, false, true, "."@) && text::utf8_len(host) <= 253 && (
            forall|i: int| 0 <= i < labels.len() ==> is_host_label(#[trigger] labels[i])),
        }
    }
}

/// Tests for a host outside this machine.
fn remote_host(host: &str) -> (r: bool)
    ensures
        r == is_remote_host(host@),
{
    if host.is_empty() {
        return false;
    }
    let lowered = text::to_lower(host);
    if text::same(lowered.as_str(), "localhost") || text::same(lowered.as_str(), "localhost.localdomain") {
        return false;
    }
    match address::parse_ipv4(host) {
        Some(octets) => {
            let zero = octets[0] == 0 && octets[1] == 0 && octets[2] == 0 && octets[3] == 0;
            proof {
                if zero {
                    assert(octets@ =~= seq![0u8, 0, 0, 0]);
                }
            }
            octets[0] != 127 && !zero
        },
        None => {
            if text::all_in_set(host, false, false, true, ".") || text::byte_len(host) > 253 {
                return false;
            }
            let labels = text::split_at_char(host, '.');
            let ghost model = text::split(host@, '.');
            let mut i: usize = 0;
            assert(text::texts(labels@).len() == labels@.len());
            while i < labels.len()
                invariant
                    i <= labels@.len(),
                    address::ipv4_of(host@) is None,
                    text::texts(labels@) == model,
                    model == text::split(host@, '.'),
                    model.len() == labels@.len(),
                    forall|k: int| 0 <= k < i ==> is_host_label(#[trigger] model[k]),
                decreases labels.len() - i,
            {
                assert(model[i as int] == labels@[i as int]@);
                if !host_label(labels[i].as_str()) {
                    assert(!is_remote_host(host@));
                    return false;
                }
                i += 1;
            }
            true
        },
    }
}

/// The host and port of an OCI registry outside this machine: no scheme, no path and no
/// bracketed address.
pub open spec fn is_registry(s: Seq<char>) -> bool {
    &&& s.len() > 0
    &&& !s.contains('/')
    &&& !text::has_prefix(s, "["@)
    &&& occurrences(s, ':') <= 1
    &&& match text::split_first(s, ':') {
        None => is_remote_host(s),
        Some((host, port)) => is_remote_host(host) && (text::parsed(port, 65535) matches Some(n) && n > 0),
    }
}

/// Tests for the host and port of a registry.
pub fn valid_registry_authority(s: &str) -> (r: bool)
    ensures
        r == is_registry(s@),
{
    if s.is_empty() || text::contains_char(s, '/') || text::starts_with(s, "[") {
        return false;
    }
    if count_char(s, ':') > 1 {
        return false;
    }
    match text::split_once(s, ':') {
        Some((host, port)) => remote_host(host.as_str()) && valid_registry_port(port.as_str()),
        None => remote_host(s),
    }
}

/// Tests for a port that can be reached.
fn valid_registry_port(port: &str) -> (r: bool)
    ensures
        r == (text::parsed(port@, 65535) matches Some(n) && n > 0),
{
    match text::parse_unsigned(port, 65535) {
        Some(n) => n > 0,
        None => false,
    }
}

/// The problem of a registry.
pub open spec fn registry_problem(s: Seq<char>) -> Option<CliErrorV> {
    unless(
        is_registry(s),
        "`settings.target.registry` must be a non-loopback OCI registry host without a URL scheme or path"@,
    )
}

/// Rejects what is not a registry.
pub fn validate_registry_setting(s: &str) -> (r: Result<(), CliError>)
    ensures
        settles(r, registry_problem(s@)),
{
    if valid_registry_authority(s) {
        Ok(())
    } else {
        Err(
            CliError::Config(
                "`settings.target.registry` must be a non-loopback OCI registry host without a URL scheme or path".to_owned(),
            ),
        )
    }
}

/// A segment of a repository's path.
pub open spec fn is_repository_part(s: Seq<char>) -> bool {
    s.len() > 0 && s != "."@ && s != ".."@ && text::all_in(s, true, false, true, "._-"@)
}

/// Segments with slashes between them.
pub open spec fn is_repository(s: Seq<char>) -> bool {
    forall|i: int|
        0 <= i < text::split(s, '/').len() ==> is_repository_part(#[trigger] text::split(s, '/')[i])
}

/// The problem of a repository.
pub open spec fn repository_problem(s: Seq<char>) -> Option<CliErrorV> {
    unless(
        is_repository(s),
        "`settings.target.repository` must contain lowercase OCI path segments"@,
    )
}

/// Rejects what is not a repository.
pub fn validate_repository_setting(s: &str) -> (r: Result<(), CliError>)
    ensures
        settles(r, repository_problem(s@)),
{
    let parts = text::split_at_char(s, '/');
    let ghost model = text::split(s@, '/');
    let mut i: usize = 0;
    assert(text::texts(parts@).len() == parts@.len());
    while i < parts.len()
        invariant
            i <= parts@.len(),
            text::texts(parts@) == model,
            model == text::split(s@, '/'),
            model.len() == parts@.len(),
            forall|k: int| 0 <= k < i ==> is_repository_part(#[trigger] model[k]),
        decreases parts.len() - i,
    {
        let part = parts[i].as_str();
        assert(model[i as int] == part@);
        if part.is_empty() || text::same(part, ".") || text::same(part, "..") || !text::all_in_set(
            part,
            true,
            false,
            true,
            "._-",
        ) {
            assert(!is_repository(s@));
            return Err(
                CliError::Config(
                    "`settings.target.repository` must contain lowercase OCI path segments".to_owned(),
                ),
            );
        }
        i += 1;
    }
    Ok(())
}

// ---------------------------------------------------------------------------
// Known settings
// ---------------------------------------------------------------------------

/// The providers whose target settings are known here.
#[derive(Clone, Copy, Debug, PartialEq, Eq)]
pub enum Provider {
    Kubernetes,
    Fly,
}

/// The settings that a provider knows.
pub open spec fn knows(provider: Provider, key: Seq<char>) -> bool {
    match provider {
        Provider::Kubernetes => {
            ||| key == "context"@
            ||| key == "kubeconfig"@
            ||| key == "registry"@
            ||| key == "repository"@
            ||| key == "ingress_class"@
            ||| key == "ingress_service_namespace"@
            ||| key == "ingress_service_name"@
            ||| key == "namespace_prefix"@
            ||| key == "control_namespace"@
            ||| key == "dns_domain"@
            ||| key == "cluster_issuer"@
            ||| key == "image_pull_secret"@
            ||| key == "platforms"@
            ||| key == "replicas"@
            ||| key == "ttl_hours"@
            ||| key == "traefik_http_entrypoint"@
            ||| key == "traefik_https_entrypoint"@
            ||| key == "command_timeout_seconds"@
            ||| key == "readiness_timeout_seconds"@
        },
        Provider::Fly => {
            ||| key == "organization"@
            ||| key == "region"@
            ||| key == "token"@
            ||| key == "registry"@
            ||| key == "platform"@
            ||| key == "app_prefix"@
            ||| key == "cpu_kind"@
            ||| key == "cpus"@
            ||| key == "memory_mb"@
            ||| key == "auto_stop"@
            ||| key == "lock_ttl_seconds"@
            ||| key == "ttl_hours"@
            ||| key == "volume_size_gb"@
            ||| key == "command_timeout_seconds"@
            ||| key == "readiness_timeout_seconds"@
        },
    }
}

/// Tests whether a provider knows a setting.
fn known(provider: Provider, key: &str) -> (r: bool)
    ensures
        r == knows(provider, key@),
{
    match provider {
        Provider::Kubernetes => text::same(key, "context") || text::same(key, "kubeconfig") || text::same(
            key,
            "registry",
        ) || text::same(key, "repository") || text::same(key, "ingress_class") || text::same(
            key,
            "ingress_service_namespace",
        ) || text::same(key, "ingress_service_name") || text::same(key, "namespace_prefix") || text::same(
            key,
            "control_namespace",
        ) || text::same(key, "dns_domain") || text::same(key, "cluster_issuer") || text::same(
            key,
            "image_pull_secret",
        ) || text::same(key, "platforms") || text::same(key, "replicas") || text::same(key, "ttl_hours")
            || text::same(key, "traefik_http_entrypoint") || text::same(key, "traefik_https_entrypoint")
            || text::same(key, "command_timeout_seconds") || text::same(key, "readiness_timeout_seconds"),
        Provider::Fly => text::same(key, "organization") || text::same(key, "region") || text::same(
            key,
            "token",
        ) || text::same(key, "registry") || text::same(key, "platform") || text::same(key, "app_prefix")
            || text::same(key, "cpu_kind") || text::same(key, "cpus") || text::same(key, "memory_mb")
            || text::same(key, "auto_stop") || text::same(key, "lock_ttl_seconds") || text::same(
            key,
            "ttl_hours",
        ) || text::same(key, "volume_size_gb") || text::same(key, "command_timeout_seconds") || text::same(
            key,
            "readiness_timeout_seconds",
        ),
    }
}

/// The first setting that a provider does not know.
pub open spec fn stranger(provider: Provider, names: Seq<Seq<char>>) -> Option<Seq<char>>
    decreases names.len(),
{
    if names.len() == 0 {
        None
    } else if !knows(provider, names[0]) {
        Some(names[0])
    } else {
        stranger(provider, names.subrange(1, names.len() as int))
    }
}

/// The problem of a setting that a provider does not know.
pub open spec fn stranger_problem(provider: Provider, table: Seq<(Seq<char>, DataV)>) -> Option<CliErrorV> {
    match stranger(provider, value::names_of(table)) {
        None => None,
        Some(key) => Some(
            CliErrorV::Config(
                match provider {
                    Provider::Kubernetes => "unknown Kubernetes setting `settings.target."@ + key + "`"@,
                    Provider::Fly => "unknown Fly.io setting `settings.target."@ + key + "`"@,
                },
            ),
        ),
    }
}

/// Rejects settings that a provider does not know.
fn reject_strangers(provider: Provider, table: &Vec<(String, Data)>) -> (r: Result<(), CliError>)
    ensures
        settles(r, stranger_problem(provider, value::entry_views(table@))),
{
    let ghost names = value::names_of(value::entry_views(table@));
    let mut i: usize = 0;
    assert(names.subrange(0, names.len() as int) =~= names);
    while i < table.len()
        invariant
            i <= table@.len(),
            names == value::names_of(value::entry_views(table@)),
            stranger(provider, names) == stranger(provider, names.subrange(i as int, names.len() as int)),
        decreases table.len() - i,
    {
        let key = table[i].0.as_str();
        let ghost rest = names.subrange(i as int, names.len() as int);
        assert(rest[0] == key@);
        if !known(provider, key) {
            return Err(
                CliError::Config(
                    match provider {
                        Provider::Kubernetes => text::cat3(
                            "unknown Kubernetes setting `settings.target.",
                            key,
                            "`",
                        ),
                        Provider::Fly => text::cat3("unknown Fly.io setting `settings.target.", key, "`"),
                    },
                ),
            );
        }
        assert(rest.subrange(1, rest.len() as int) =~= names.subrange(i + 1, names.len() as int));
        i += 1;
    }
    Ok(())
}

// ---------------------------------------------------------------------------
// Kubernetes
// ---------------------------------------------------------------------------

/// The problem of a kubeconfig path, where one is set.
pub open spec fn kubeconfig_problem(table: Seq<(Seq<char>, DataV)>) -> Option<CliErrorV> {
    let path = text_at(table, "kubeconfig"@);
    first(
        optional_problem(table, "kubeconfig"@, "settings.target.kubeconfig"@),
        unless(
            value::lookup(table, "kubeconfig"@) is None || (path::is_absolute(path)
                && !path::components(path).contains(".."@) && text::no_control(path)),
            "`settings.target.kubeconfig` must be an absolute normalized path without control characters"@,
        ),
    )
}

/// The problem of the cluster and the registry.
pub open spec fn cluster_problem(table: Seq<(Seq<char>, DataV)>) -> Option<CliErrorV> {
    first(
        required_problem(table, "context"@, "settings.target.context"@),
        first(
            argument_problem(text_at(table, "context"@), "settings.target.context"@, 253),
            first(
                kubeconfig_problem(table),
                first(
                    required_problem(table, "registry"@, "settings.target.registry"@),
                    first(
                        registry_problem(text_at(table, "registry"@)),
                        first(
                            required_problem(table, "repository"@, "settings.target.repository"@),
                            repository_problem(text_at(table, "repository"@)),
                        ),
                    ),
                ),
            ),
        ),
    )
}

/// The problem of the ingress that serves the applications.
pub open spec fn ingress_problem(table: Seq<(Seq<char>, DataV)>) -> Option<CliErrorV> {
    first(
        required_problem(table, "ingress_class"@, "settings.target.ingress_class"@),
        first(
            subdomain_problem(text_at(table, "ingress_class"@), "settings.target.ingress_class"@),
            first(
                required_problem(
                    table,
                    "ingress_service_namespace"@,
                    "settings.target.ingress_service_namespace"@,
                ),
                first(
                    subdomain_problem(
                        text_at(table, "ingress_service_namespace"@),
                        "settings.target.ingress_service_namespace"@,
                    ),
                    first(
                        required_problem(
                            table,
                            "ingress_service_name"@,
                            "settings.target.ingress_service_name"@,
                        ),
                        label_problem(
                            text_at(table, "ingress_service_name"@),
                            "settings.target.ingress_service_name"@,
                        ),
                    ),
                ),
            ),
        ),
    )
}

/// The problem of the entrypoints of the ingress controller.
pub open spec fn entrypoint_problem(table: Seq<(Seq<char>, DataV)>) -> Option<CliErrorV> {
    let cleartext = text_or(table, "traefik_http_entrypoint"@, "web"@);
    let tls = text_or(table, "traefik_https_entrypoint"@, "websecure"@);
    first(
        optional_problem(
            table,
            "traefik_http_entrypoint"@,
            "settings.target.traefik_http_entrypoint"@,
        ),
        first(
            optional_problem(
                table,
                "traefik_https_entrypoint"@,
                "settings.target.traefik_https_entrypoint"@,
            ),
            first(
                label_problem(cleartext, "settings.target.traefik_http_entrypoint"@),
                first(
                    label_problem(tls, "settings.target.traefik_https_entrypoint"@),
                    unless(
                        cleartext != tls,
                        "Kubernetes Traefik HTTP and HTTPS entrypoints must be distinct"@,
                    ),
                ),
            ),
        ),
    )
}

/// The problem of the names under which resources are made.
pub open spec fn resource_problem(table: Seq<(Seq<char>, DataV)>) -> Option<CliErrorV> {
    let prefix = text_at(table, "namespace_prefix"@);
    let domain = text_at(table, "dns_domain"@);
    first(
        required_problem(table, "namespace_prefix"@, "settings.target.namespace_prefix"@),
        first(
            label_problem(prefix, "settings.target.namespace_prefix"@),
            first(
                unless(
                    text::utf8_len(prefix) <= 32,
                    "`settings.target.namespace_prefix` must be at most 32 characters"@,
                ),
                first(
                    required_problem(table, "control_namespace"@, "settings.target.control_namespace"@),
                    first(
                        subdomain_problem(
                            text_at(table, "control_namespace"@),
                            "settings.target.control_namespace"@,
                        ),
                        first(
                            required_problem(table, "dns_domain"@, "settings.target.dns_domain"@),
                            unless(
                                domain == "sslip.io"@ || domain == "nip.io"@,
                                "`settings.target.dns_domain` must be `sslip.io` or `nip.io`"@,
                            ),
                        ),
                    ),
                ),
            ),
        ),
    )
}

/// The problem of the certificates and of the secret that pulls images.
pub open spec fn credential_problem(table: Seq<(Seq<char>, DataV)>) -> Option<CliErrorV> {
    first(
        required_problem(table, "cluster_issuer"@, "settings.target.cluster_issuer"@),
        first(
            subdomain_problem(text_at(table, "cluster_issuer"@), "settings.target.cluster_issuer"@),
            first(
                optional_problem(table, "image_pull_secret"@, "settings.target.image_pull_secret"@),
                if value::lookup(table, "image_pull_secret"@) is Some {
                    subdomain_problem(
                        text_at(table, "image_pull_secret"@),
                        "settings.target.image_pull_secret"@,
                    )
                } else {
                    None
                },
            ),
        ),
    )
}

/// A platform for which images can be built.
pub open spec fn is_platform(s: Seq<char>) -> bool {
    s == "linux/amd64"@ || s == "linux/arm64"@
}

/// The problem of the first `n` platforms.
pub open spec fn platform_problem(items: Seq<DataV>, n: int) -> Option<CliErrorV>
    decreases n,
{
    if n <= 0 {
        None
    } else {
        first(
            platform_problem(items, n - 1),
            match items[n - 1] {
                DataV::Str(s) => unless(
                    is_platform(s) && !items.take(n - 1).contains(DataV::Str(s)),
                    "`settings.target.platforms` may contain unique `linux/amd64` and `linux/arm64` entries only"@,
                ),
                _ => Some(
                    CliErrorV::Config("`settings.target.platforms` entries must be strings"@),
                ),
            },
        )
    }
}

/// The problem of the platforms, where they are set.
pub open spec fn platforms_problem(table: Seq<(Seq<char>, DataV)>) -> Option<CliErrorV> {
    match value::lookup(table, "platforms"@) {
        None => None,
        Some(DataV::Array(items)) => platform_problem(items, items.len() as int),
        Some(_) => Some(
            CliErrorV::Config("`settings.target.platforms` must be an array of strings"@),
        ),
    }
}

/// The problem of the numbers.
pub open spec fn kubernetes_number_problem(table: Seq<(Seq<char>, DataV)>) -> Option<CliErrorV> {
    first(
        range_problem(table, "replicas"@, 1, 100),
        first(
            range_problem(table, "ttl_hours"@, 1, 8760),
            first(
                range_problem(table, "command_timeout_seconds"@, 1, 3600),
                range_problem(table, "readiness_timeout_seconds"@, 1, 3600),
            ),
        ),
    )
}

/// The first problem of Kubernetes target settings.
pub open spec fn kubernetes_problem(table: Seq<(Seq<char>, DataV)>) -> Option<CliErrorV> {
    first(
        stranger_problem(Provider::Kubernetes, table),
        first(
            cluster_problem(table),
            first(
                ingress_problem(table),
                first(
                    entrypoint_problem(table),
                    first(
                        resource_problem(table),
                        first(
                            credential_problem(table),
                            first(platforms_problem(table), kubernetes_number_problem(table)),
                        ),
                    ),
                ),
            ),
        ),
    )
}

/// Rejects a kubeconfig path that cannot be used.
fn validate_kubeconfig(table: &Vec<(String, Data)>) -> (r: Result<(), CliError>)
    ensures
        settles(r, kubeconfig_problem(value::entry_views(table@))),
{
    if let Some(kubeconfig) = optional_provider_string(table, "kubeconfig", "settings.target.kubeconfig")? {
        let parts = path::path_components(kubeconfig);
        let climbs = crate::collections::contains_text(&parts, "..");
        if !path::absolute(kubeconfig) || climbs || !text::free_of_control(kubeconfig) {
            return Err(
                CliError::Config(
                    "`settings.target.kubeconfig` must be an absolute normalized path without control characters".to_owned(),
                ),
            );
        }
    }
    Ok(())
}

/// Rejects platforms for which no image can be built.
fn validate_platforms(table: &Vec<(String, Data)>) -> (r: Result<(), CliError>)
    ensures
        settles(r, platforms_problem(value::entry_views(table@))),
{
    broadcast use {value::lemma_array_view, value::lemma_object_view};

    let platforms = match value::find_entry(table, "platforms") {
        None => {
            return Ok(());
        },
        Some(v) => v,
    };
    let items = match platforms.as_array() {
        Some(items) => items,
        None => {
            return Err(
                CliError::Config(
                    "`settings.target.platforms` must be an array of strings".to_owned(),
                ),
            );
        },
    };
    let ghost views = value::item_views(items@);
    let mut seen: Vec<String> = Vec::new();
    let mut i: usize = 0;
    while i < items.len()
        invariant
            i <= items@.len(),
            views == value::item_views(items@),
            value::lookup(value::entry_views(table@), "platforms"@) == Some(DataV::Array(views)),
            platform_problem(views, i as int) is None,
            seen@.len() == i,
            forall|k: int| 0 <= k < i ==> #[trigger] views[k] == DataV::Str(seen@[k]@),
        decreases items.len() - i,
    {
        let ghost n = i + 1;
        assert(views[n - 1] == items@[i as int]@);
        let platform = match items[i].as_str() {
            Some(s) => s,
            None => {
                proof {
                    lemma_platform_problem(views, n);
                }
                return Err(
                    CliError::Config("`settings.target.platforms` entries must be strings".to_owned()),
                );
            },
        };
        let repeated = crate::collections::contains_text(&seen, platform);
        proof {
            let before = views.take(n - 1);
            if repeated {
                let k = choose|k: int| 0 <= k < text::texts(seen@).len() && text::texts(seen@)[k] == platform@;
                assert(before[k] == views[k]);
                assert(views[k] == DataV::Str(seen@[k]@));
                assert(before.contains(DataV::Str(platform@)));
            }
            if before.contains(DataV::Str(platform@)) {
                let k = choose|k: int| 0 <= k < before.len() && before[k] == DataV::Str(platform@);
                assert(views[k] == DataV::Str(seen@[k]@));
                assert(text::texts(seen@)[k] == platform@);
                assert(text::texts(seen@).contains(platform@));
            }
        }
        if !(text::same(platform, "linux/amd64") || text::same(platform, "linux/arm64")) || repeated {
            proof {
                lemma_platform_problem(views, n);
            }
            return Err(
                CliError::Config(
                    "`settings.target.platforms` may contain unique `linux/amd64` and `linux/arm64` entries only".to_owned(),
                ),
            );
        }
        seen.push(platform.to_owned());
        i += 1;
    }
    Ok(())
}

/// A problem among the first platforms is the problem of all.
proof fn lemma_platform_problem(items: Seq<DataV>, n: int)
    requires
        0 < n <= items.len(),
        platform_problem(items, n) is Some,
    ensures
        platform_problem(items, items.len() as int) == platform_problem(items, n),
    decreases items.len() - n,
{
    if n < items.len() {
        lemma_platform_problem(items, n + 1);
    }
}

/// Rejects Kubernetes target settings that the bundled plugin cannot use.
pub fn validate_kubernetes_init_settings(table: &Vec<(String, Data)>) -> (r: Result<(), CliError>)
    ensures
        settles(r, kubernetes_problem(value::entry_views(table@))),
{
    reject_strangers(Provider::Kubernetes, table)?;

    let context = provider_string(table, "context", "settings.target.context")?;
    validate_safe_provider_argument(context, "settings.target.context", 253)?;
    validate_kubeconfig(table)?;
    validate_registry_setting(provider_string(table, "registry", "settings.target.registry")?)?;
    validate_repository_setting(provider_string(table, "repository", "settings.target.repository")?)?;

    validate_dns_subdomain_setting(
        provider_string(table, "ingress_class", "settings.target.ingress_class")?,
        "settings.target.ingress_class",
    )?;
    validate_dns_subdomain_setting(
        provider_string(
            table,
            "ingress_service_namespace",
            "settings.target.ingress_service_namespace",
        )?,
        "settings.target.ingress_service_namespace",
    )?;
    validate_dns_label_setting(
        provider_string(table, "ingress_service_name", "settings.target.ingress_service_name")?,
        "settings.target.ingress_service_name",
    )?;

    let cleartext_entrypoint = match optional_provider_string(
        table,
        "traefik_http_entrypoint",
        "settings.target.traefik_http_entrypoint",
    )? {
        Some(s) => s,
        None => "web",
    };
    let tls_entrypoint = match optional_provider_string(
        table,
        "traefik_https_entrypoint",
        "settings.target.traefik_https_entrypoint",
    )? {
        Some(s) => s,
        None => "websecure",
    };
    validate_dns_label_setting(cleartext_entrypoint, "settings.target.traefik_http_entrypoint")?;
    validate_dns_label_setting(tls_entrypoint, "settings.target.traefik_https_entrypoint")?;
    if text::same(cleartext_entrypoint, tls_entrypoint) {
        return Err(
            CliError::Config(
                "Kubernetes Traefik HTTP and HTTPS entrypoints must be distinct".to_owned(),
            ),
        );
    }
    let namespace_prefix = provider_string(table, "namespace_prefix", "settings.target.namespace_prefix")?;
    validate_dns_label_setting(namespace_prefix, "settings.target.namespace_prefix")?;
    if text::byte_len(namespace_prefix) > 32 {
        return Err(
            CliError::Config(
                "`settings.target.namespace_prefix` must be at most 32 characters".to_owned(),
            ),
        );
    }
    validate_dns_subdomain_setting(
        provider_string(table, "control_namespace", "settings.target.control_namespace")?,
        "settings.target.control_namespace",
    )?;
    let dns_domain = provider_string(table, "dns_domain", "settings.target.dns_domain")?;
    if !(text::same(dns_domain, "sslip.io") || text::same(dns_domain, "nip.io")) {
        return Err(
            CliError::Config(
                "`settings.target.dns_domain` must be `sslip.io` or `nip.io`".to_owned(),
            ),
        );
    }
    validate_dns_subdomain_setting(
        provider_string(table, "cluster_issuer", "settings.target.cluster_issuer")?,
        "settings.target.cluster_issuer",
    )?;
    if let Some(secret) = optional_provider_string(
        table,
        "image_pull_secret",
        "settings.target.image_pull_secret",
    )? {
        validate_dns_subdomain_setting(secret, "settings.target.image_pull_secret")?;
    }
    validate_platforms(table)?;
    validate_integer_range(table, "replicas", 1, 100)?;
    validate_integer_range(table, "ttl_hours", 1, 8760)?;
    validate_integer_range(table, "command_timeout_seconds", 1, 3600)?;
    validate_integer_range(table, "readiness_timeout_seconds", 1, 3600)?;
    Ok(())
}

// ---------------------------------------------------------------------------
// Fly.io
// ---------------------------------------------------------------------------

/// The problem of a number that may be absent.
pub open spec fn optional_range_problem(
    table: Seq<(Seq<char>, DataV)>,
    key: Seq<char>,
    minimum: i64,
    maximum: i64,
) -> Option<CliErrorV> {
    if value::lookup(table, key) is Some {
        range_problem(table, key, minimum, maximum)
    } else {
        None
    }
}

/// The problem of the organization, the region and the names of applications.
pub open spec fn fly_name_problem(table: Seq<(Seq<char>, DataV)>) -> Option<CliErrorV> {
    first(
        required_problem(table, "organization"@, "settings.target.organization"@),
        first(
            slug_problem(text_at(table, "organization"@), "settings.target.organization"@, 128),
            first(
                optional_problem(table, "region"@, "settings.target.region"@),
                first(
                    if value::lookup(table, "region"@) is Some {
                        slug_problem(text_at(table, "region"@), "settings.target.region"@, 16)
                    } else {
                        None
                    },
                    first(
                        required_problem(table, "app_prefix"@, "settings.target.app_prefix"@),
                        slug_problem(text_at(table, "app_prefix"@), "settings.target.app_prefix"@, 16),
                    ),
                ),
            ),
        ),
    )
}

/// The problem of the images and the machines.
pub open spec fn fly_machine_problem(table: Seq<(Seq<char>, DataV)>) -> Option<CliErrorV> {
    first(
        required_problem(table, "registry"@, "settings.target.registry"@),
        first(
            unless(
                text_at(table, "registry"@) == "registry.fly.io"@,
                "`settings.target.registry` must be `registry.fly.io` for Fly.io"@,
            ),
            first(
                required_problem(table, "platform"@, "settings.target.platform"@),
                first(
                    unless(
                        is_platform(text_at(table, "platform"@)),
                        "`settings.target.platform` must be `linux/amd64` or `linux/arm64`"@,
                    ),
                    first(
                        required_problem(table, "cpu_kind"@, "settings.target.cpu_kind"@),
                        first(
                            range_problem(table, "cpus"@, 1, 65535),
                            first(
                                range_problem(table, "memory_mb"@, 256, 4294967295),
                                unless(
                                    number_or(table, "memory_mb"@, 0) % 256 == 0,
                                    "`settings.target.memory_mb` must be a multiple of 256"@,
                                ),
                            ),
                        ),
                    ),
                ),
            ),
        ),
    )
}

/// The longer of two times.
pub open spec fn longer(a: i64, b: i64) -> i64 {
    if a < b {
        b
    } else {
        a
    }
}

/// The problem of the times: a lock outlives the longest phase by more than three minutes.
pub open spec fn fly_time_problem(table: Seq<(Seq<char>, DataV)>) -> Option<CliErrorV> {
    let phase = longer(
        number_or(table, "command_timeout_seconds"@, 300),
        number_or(table, "readiness_timeout_seconds"@, 300),
    );
    first(
        flag_problem(table, "auto_stop"@, "settings.target.auto_stop"@),
        first(
            range_problem(table, "lock_ttl_seconds"@, 60, 86400),
            first(
                range_problem(table, "ttl_hours"@, 1, i64::MAX),
                first(
                    optional_range_problem(table, "volume_size_gb"@, 1, 4294967295),
                    first(
                        optional_range_problem(table, "command_timeout_seconds"@, 10, 3000),
                        first(
                            optional_range_problem(table, "readiness_timeout_seconds"@, 10, 3000),
                            unless(
                                number_or(table, "lock_ttl_seconds"@, 0) > phase + 180,
                                "`settings.target.lock_ttl_seconds` must exceed command/readiness timeouts by more than 180 seconds"@,
                            ),
                        ),
                    ),
                ),
            ),
        ),
    )
}

/// The first problem of Fly.io target settings.
pub open spec fn fly_problem(table: Seq<(Seq<char>, DataV)>) -> Option<CliErrorV> {
    first(
        stranger_problem(Provider::Fly, table),
        first(fly_name_problem(table), first(fly_machine_problem(table), fly_time_problem(table))),
    )
}

/// Rejects Fly.io target settings that the bundled plugin cannot use.
pub fn validate_fly_init_settings(table: &Vec<(String, Data)>) -> (r: Result<(), CliError>)
    ensures
        settles(r, fly_problem(value::entry_views(table@))),
{
    reject_strangers(Provider::Fly, table)?;

    validate_fly_slug(
        provider_string(table, "organization", "settings.target.organization")?,
        "settings.target.organization",
        128,
    )?;
    if let Some(region) = optional_provider_string(table, "region", "settings.target.region")? {
        validate_fly_slug(region, "settings.target.region", 16)?;
    }
    validate_fly_slug(
        provider_string(table, "app_prefix", "settings.target.app_prefix")?,
        "settings.target.app_prefix",
        16,
    )?;
    let registry = provider_string(table, "registry", "settings.target.registry")?;
    if !text::same(registry, "registry.fly.io") {
        return Err(
            CliError::Config(
                "`settings.target.registry` must be `registry.fly.io` for Fly.io".to_owned(),
            ),
        );
    }
    let platform = provider_string(table, "platform", "settings.target.platform")?;
    if !(text::same(platform, "linux/amd64") || text::same(platform, "linux/arm64")) {
        return Err(
            CliError::Config(
                "`settings.target.platform` must be `linux/amd64` or `linux/arm64`".to_owned(),
            ),
        );
    }
    provider_string(table, "cpu_kind", "settings.target.cpu_kind")?;
    validate_integer_range(table, "cpus", 1, 65535)?;
    let memory_mb: i64 = validate_integer_range(table, "memory_mb", 256, 4294967295)?;
    if memory_mb % 256 != 0 {
        return Err(
            CliError::Config("`settings.target.memory_mb` must be a multiple of 256".to_owned()),
        );
    }
    provider_boolean(table, "auto_stop", "settings.target.auto_stop")?;
    let lock_ttl: i64 = validate_integer_range(table, "lock_ttl_seconds", 60, 86400)?;
    validate_integer_range(table, "ttl_hours", 1, i64::MAX)?;
    if value::find_entry(table, "volume_size_gb").is_some() {
        validate_integer_range(table, "volume_size_gb", 1, 4294967295)?;
    }
    let command_timeout: i64 = if value::find_entry(table, "command_timeout_seconds").is_some() {
        validate_integer_range(table, "command_timeout_seconds", 10, 3000)?
    } else {
        300
    };
    let readiness_timeout: i64 = if value::find_entry(table, "readiness_timeout_seconds").is_some() {
        validate_integer_range(table, "readiness_timeout_seconds", 10, 3000)?
    } else {
        300
    };
    let phase: i64 = if command_timeout < readiness_timeout {
        readiness_timeout
    } else {
        command_timeout
    };
    if lock_ttl <= phase + 180 {
        return Err(
            CliError::Config(
                "`settings.target.lock_ttl_seconds` must exceed command/readiness timeouts by more than 180 seconds".to_owned(),
            ),
        );
    }
    Ok(())
}

/// Fly.io settings that are accepted hold a lock longer than any phase may take.
pub proof fn fly_lock_outlives_phases(table: Seq<(Seq<char>, DataV)>)
    requires
        fly_problem(table) is None,
    ensures
        number_or(table, "lock_ttl_seconds"@, 0) > number_or(table, "command_timeout_seconds"@, 300) + 180,
        number_or(table, "lock_ttl_seconds"@, 0) > number_or(table, "readiness_timeout_seconds"@, 300)
            + 180,
{
}

/// A text that a provider takes: something, without space around it and without control
/// characters.
proof fn lemma_required(table: Seq<(Seq<char>, DataV)>, key: Seq<char>, field: Seq<char>)
    ensures
        required_problem(table, key, field) is None <==> (value::lookup(table, key) matches Some(DataV::Str(s))
            && s.len() > 0 && text::trimmed(s) == s && text::no_control(s)),
        value::lookup(table, key) matches Some(DataV::Str(s)) ==> text_at(table, key) == s,
{
}

/// A number in its range.
proof fn lemma_range(table: Seq<(Seq<char>, DataV)>, key: Seq<char>, minimum: i64, maximum: i64)
    ensures
        range_problem(table, key, minimum, maximum) is None <==> (value::lookup(table, key) matches Some(
            DataV::Integer(n),
        ) && minimum <= n <= maximum),
{
}

/// Names without a stranger are known, each of them.
proof fn lemma_stranger(provider: Provider, names: Seq<Seq<char>>)
    ensures
        stranger(provider, names) is None <==> forall|i: int|
            0 <= i < names.len() ==> knows(provider, #[trigger] names[i]),
    decreases names.len(),
{
    if names.len() > 0 {
        let rest = names.subrange(1, names.len() as int);
        lemma_stranger(provider, rest);
        if knows(provider, names[0]) {
            assert forall|i: int|
                stranger(provider, rest) is None && 0 <= i < names.len() implies knows(
                provider,
                #[trigger] names[i],
            ) by {
                if i > 0 {
                    assert(rest[i - 1] == names[i]);
                }
            }
            assert forall|i: int|
                stranger(provider, rest) is Some && 0 <= i < rest.len() implies #[trigger] rest[i] == names[i
                + 1] by {}
        }
    }
}

/// Kubernetes settings that are accepted hold what the cluster needs: a context that is no
/// option, a remote registry and a repository, an ingress, an issuer and namespaces with lawful
/// names, one of the two public DNS services, and numbers in their ranges.
pub proof fn accepted_kubernetes_settings_are_usable(table: Seq<(Seq<char>, DataV)>)
    requires
        kubernetes_problem(table) is None,
    ensures
        value::lookup(table, "context"@) matches Some(DataV::Str(s)) && s.len() > 0 && !text::has_prefix(s, "-"@)
            && text::utf8_len(s) <= 253,
        value::lookup(table, "registry"@) matches Some(DataV::Str(s)) && is_registry(s),
        value::lookup(table, "repository"@) matches Some(DataV::Str(s)) && is_repository(s),
        value::lookup(table, "ingress_class"@) matches Some(DataV::Str(s)) && is_dns_subdomain(s),
        value::lookup(table, "ingress_service_namespace"@) matches Some(DataV::Str(s)) && is_dns_subdomain(s),
        value::lookup(table, "ingress_service_name"@) matches Some(DataV::Str(s)) && naming::is_dns_label(s),
        value::lookup(table, "namespace_prefix"@) matches Some(DataV::Str(s)) && naming::is_dns_label(s)
            && text::utf8_len(s) <= 32,
        value::lookup(table, "control_namespace"@) matches Some(DataV::Str(s)) && is_dns_subdomain(s),
        value::lookup(table, "cluster_issuer"@) matches Some(DataV::Str(s)) && is_dns_subdomain(s),
        value::lookup(table, "dns_domain"@) == Some(DataV::Str("sslip.io"@)) || value::lookup(table, "dns_domain"@)
            == Some(DataV::Str("nip.io"@)),
        value::lookup(table, "replicas"@) matches Some(DataV::Integer(n)) && 1 <= n <= 100,
        value::lookup(table, "ttl_hours"@) matches Some(DataV::Integer(n)) && 1 <= n <= 8760,
        value::lookup(table, "command_timeout_seconds"@) matches Some(DataV::Integer(n)) && 1 <= n <= 3600,
        value::lookup(table, "readiness_timeout_seconds"@) matches Some(DataV::Integer(n)) && 1 <= n <= 3600,
        value::lookup(table, "kubeconfig"@) matches Some(v) ==> (v matches DataV::Str(s) && path::is_absolute(s)
            && !path::components(s).contains(".."@)),
        value::lookup(table, "image_pull_secret"@) matches Some(v) ==> (v matches DataV::Str(s)
            && is_dns_subdomain(s)),
        value::lookup(table, "platforms"@) matches Some(v) ==> v is Array,
{
    lemma_required(table, "context"@, "settings.target.context"@);
    lemma_required(table, "registry"@, "settings.target.registry"@);
    lemma_required(table, "repository"@, "settings.target.repository"@);
    lemma_required(table, "ingress_class"@, "settings.target.ingress_class"@);
    lemma_required(table, "ingress_service_namespace"@, "settings.target.ingress_service_namespace"@);
    lemma_required(table, "ingress_service_name"@, "settings.target.ingress_service_name"@);
    lemma_required(table, "namespace_prefix"@, "settings.target.namespace_prefix"@);
    lemma_required(table, "control_namespace"@, "settings.target.control_namespace"@);
    lemma_required(table, "cluster_issuer"@, "settings.target.cluster_issuer"@);
    lemma_required(table, "dns_domain"@, "settings.target.dns_domain"@);
    lemma_range(table, "replicas"@, 1, 100);
    lemma_range(table, "ttl_hours"@, 1, 8760);
    lemma_range(table, "command_timeout_seconds"@, 1, 3600);
    lemma_range(table, "readiness_timeout_seconds"@, 1, 3600);
}

/// The two entry points of an ingress differ, also where one of them is the usual one.
pub proof fn entry_points_differ(table: Seq<(Seq<char>, DataV)>)
    requires
        kubernetes_problem(table) is None,
    ensures
        value::lookup(table, "traefik_http_entrypoint"@) is Some && value::lookup(table, "traefik_https_entrypoint"@)
            is Some ==> value::lookup(table, "traefik_http_entrypoint"@) != value::lookup(
            table,
            "traefik_https_entrypoint"@,
        ),
        value::lookup(table, "traefik_http_entrypoint"@) is None ==> value::lookup(
            table,
            "traefik_https_entrypoint"@,
        ) != Some(DataV::Str("web"@)),
        value::lookup(table, "traefik_https_entrypoint"@) is None ==> value::lookup(
            table,
            "traefik_http_entrypoint"@,
        ) != Some(DataV::Str("websecure"@)),
{
}

/// Platforms that are accepted are the two that images are built for, each at most once.
pub proof fn platforms_are_built_once(items: Seq<DataV>, n: int, i: int)
    requires
        platform_problem(items, n) is None,
        0 <= i < n <= items.len(),
    ensures
        items[i] == DataV::Str("linux/amd64"@) || items[i] == DataV::Str("linux/arm64"@),
        forall|j: int| 0 <= j < i ==> #[trigger] items[j] != items[i],
    decreases n,
{
    if i == n - 1 {
        assert forall|j: int| 0 <= j < i implies #[trigger] items[j] != items[i] by {
            assert(items.take(i)[j] == items[j]);
        }
    } else {
        platforms_are_built_once(items, n - 1, i);
    }
}

/// Fly.io settings that are accepted hold what the provider needs: an organization and a prefix
/// that are slugs, the registry of the provider, a platform that images are built for, a machine
/// of a lawful size, and times in their ranges.
pub proof fn accepted_fly_settings_are_usable(table: Seq<(Seq<char>, DataV)>)
    requires
        fly_problem(table) is None,
    ensures
        value::lookup(table, "organization"@) matches Some(DataV::Str(s)) && s.len() > 0 && text::utf8_len(s) <= 128
            && !text::has_prefix(s, "-"@) && !text::has_suffix(s, "-"@) && text::all_in(s, true, false, true, "-"@),
        value::lookup(table, "app_prefix"@) matches Some(DataV::Str(s)) && s.len() > 0 && text::utf8_len(s) <= 16
            && !text::has_prefix(s, "-"@) && !text::has_suffix(s, "-"@) && text::all_in(s, true, false, true, "-"@),
        value::lookup(table, "region"@) matches Some(v) ==> (v matches DataV::Str(s) && s.len() > 0
            && text::utf8_len(s) <= 16 && !text::has_prefix(s, "-"@) && text::all_in(s, true, false, true, "-"@)),
        value::lookup(table, "registry"@) == Some(DataV::Str("registry.fly.io"@)),
        value::lookup(table, "platform"@) == Some(DataV::Str("linux/amd64"@)) || value::lookup(table, "platform"@)
            == Some(DataV::Str("linux/arm64"@)),
        value::lookup(table, "cpu_kind"@) matches Some(DataV::Str(s)) && s.len() > 0,
        value::lookup(table, "cpus"@) matches Some(DataV::Integer(n)) && 1 <= n <= 65535,
        value::lookup(table, "memory_mb"@) matches Some(DataV::Integer(n)) && 256 <= n <= 4294967295 && n % 256 == 0,
        value::lookup(table, "auto_stop"@) matches Some(DataV::Bool(_)),
        value::lookup(table, "ttl_hours"@) matches Some(DataV::Integer(n)) && n >= 1,
        value::lookup(table, "lock_ttl_seconds"@) matches Some(DataV::Integer(n)) && 60 <= n <= 86400 && n > 480
            || value::lookup(table, "command_timeout_seconds"@) is Some && value::lookup(
            table,
            "readiness_timeout_seconds"@,
        ) is Some,
        value::lookup(table, "command_timeout_seconds"@) matches Some(v) ==> (v matches DataV::Integer(n) && 10 <= n
            <= 3000 && (value::lookup(table, "lock_ttl_seconds"@) matches Some(DataV::Integer(t)) && t > n + 180)),
        value::lookup(table, "readiness_timeout_seconds"@) matches Some(v) ==> (v matches DataV::Integer(n) && 10 <= n
            <= 3000 && (value::lookup(table, "lock_ttl_seconds"@) matches Some(DataV::Integer(t)) && t > n + 180)),
        value::lookup(table, "volume_size_gb"@) matches Some(v) ==> (v matches DataV::Integer(n) && 1 <= n
            <= 4294967295),
{
    lemma_required(table, "organization"@, "settings.target.organization"@);
    lemma_required(table, "app_prefix"@, "settings.target.app_prefix"@);
    lemma_required(table, "registry"@, "settings.target.registry"@);
    lemma_required(table, "platform"@, "settings.target.platform"@);
    lemma_required(table, "cpu_kind"@, "settings.target.cpu_kind"@);
    lemma_range(table, "cpus"@, 1, 65535);
    lemma_range(table, "memory_mb"@, 256, 4294967295);
    lemma_range(table, "lock_ttl_seconds"@, 60, 86400);
    lemma_range(table, "ttl_hours"@, 1, i64::MAX);
}

/// A setting that a provider does not know is rejected, however sound the others are.
pub proof fn unknown_settings_are_rejected(table: Seq<(Seq<char>, DataV)>, i: int)
    requires
        0 <= i < table.len(),
    ensures
        kubernetes_problem(table) is None ==> seq![
            "context"@,
            "kubeconfig"@,
            "registry"@,
            "repository"@,
            "ingress_class"@,
            "ingress_service_namespace"@,
            "ingress_service_name"@,
            "namespace_prefix"@,
            "control_namespace"@,
            "dns_domain"@,
            "cluster_issuer"@,
            "image_pull_secret"@,
            "platforms"@,
            "replicas"@,
            "ttl_hours"@,
            "traefik_http_entrypoint"@,
            "traefik_https_entrypoint"@,
            "command_timeout_seconds"@,
            "readiness_timeout_seconds"@,
        ].contains(table[i].0),
        fly_problem(table) is None ==> seq![
            "organization"@,
            "region"@,
            "token"@,
            "registry"@,
            "platform"@,
            "app_prefix"@,
            "cpu_kind"@,
            "cpus"@,
            "memory_mb"@,
            "auto_stop"@,
            "lock_ttl_seconds"@,
            "ttl_hours"@,
            "volume_size_gb"@,
            "command_timeout_seconds"@,
            "readiness_timeout_seconds"@,
        ].contains(table[i].0),
{
    let names = value::names_of(table);
    lemma_stranger(Provider::Kubernetes, names);
    lemma_stranger(Provider::Fly, names);
    assert(names[i] == table[i].0);
    let key = table[i].0;
    let k = seq![
        "context"@,
        "kubeconfig"@,
        "registry"@,
        "repository"@,
        "ingress_class"@,
        "ingress_service_namespace"@,
        "ingress_service_name"@,
        "namespace_prefix"@,
        "control_namespace"@,
        "dns_domain"@,
        "cluster_issuer"@,
        "image_pull_secret"@,
        "platforms"@,
        "replicas"@,
        "ttl_hours"@,
        "traefik_http_entrypoint"@,
        "traefik_https_entrypoint"@,
        "command_timeout_seconds"@,
        "readiness_timeout_seconds"@,
    ];
    assert(k[0] == "context"@ && k[1] == "kubeconfig"@ && k[2] == "registry"@ && k[3] == "repository"@ && k[4]
        == "ingress_class"@ && k[5] == "ingress_service_namespace"@ && k[6] == "ingress_service_name"@ && k[7]
        == "namespace_prefix"@ && k[8] == "control_namespace"@ && k[9] == "dns_domain"@ && k[10]
        == "cluster_issuer"@ && k[11] == "image_pull_secret"@ && k[12] == "platforms"@ && k[13] == "replicas"@
        && k[14] == "ttl_hours"@ && k[15] == "traefik_http_entrypoint"@ && k[16] == "traefik_https_entrypoint"@
        && k[17] == "command_timeout_seconds"@ && k[18] == "readiness_timeout_seconds"@);
    let f = seq![
        "organization"@,
        "region"@,
        "token"@,
        "registry"@,
        "platform"@,
        "app_prefix"@,
        "cpu_kind"@,
        "cpus"@,
        "memory_mb"@,
        "auto_stop"@,
        "lock_ttl_seconds"@,
        "ttl_hours"@,
        "volume_size_gb"@,
        "command_timeout_seconds"@,
        "readiness_timeout_seconds"@,
    ];
    assert(f[0] == "organization"@ && f[1] == "region"@ && f[2] == "token"@ && f[3] == "registry"@ && f[4]
        == "platform"@ && f[5] == "app_prefix"@ && f[6] == "cpu_kind"@ && f[7] == "cpus"@ && f[8] == "memory_mb"@
        && f[9] == "auto_stop"@ && f[10] == "lock_ttl_seconds"@ && f[11] == "ttl_hours"@ && f[12]
        == "volume_size_gb"@ && f[13] == "command_timeout_seconds"@ && f[14] == "readiness_timeout_seconds"@);
}

/// No registry stands on the machine itself or has a path, and none is an address of the
/// machine itself.
pub proof fn registries_are_remote(s: Seq<char>)
    requires
        is_registry(s),
    ensures
        s.len() > 0,
        !s.contains('/'),
        text::split_first(s, ':') is None ==> text::lowered(s) != "localhost"@ && (address::ipv4_of(s) matches Some(
            octets,
        ) ==> octets[0] != 127 && octets != seq![0u8, 0, 0, 0]),
        text::split_first(s, ':') matches Some((host, port)) ==> text::lowered(host) != "localhost"@ && (
        address::ipv4_of(host) matches Some(octets) ==> octets[0] != 127 && octets != seq![0u8, 0, 0, 0])
            && text::parsed(port, 65535) is Some && text::parsed(port, 65535) != Some(0nat),
{
}

/// No part of a repository climbs out of it.
pub proof fn repositories_have_plain_parts(s: Seq<char>, i: int)
    requires
        is_repository(s),
        0 <= i < text::split(s, '/').len(),
    ensures
        text::split(s, '/')[i].len() > 0,
        text::split(s, '/')[i] != ".."@,
        text::split(s, '/')[i] != "."@,
        text::all_in(text::split(s, '/')[i], true, false, true, "._-"@),
{
    assert(is_repository_part(text::split(s, '/')[i]));
}

} // verus!
