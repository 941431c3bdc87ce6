//! The resolved Compose model and what may be deployed of it.

use vstd::prelude::*;

use crate::collections::StringMap;
use crate::error::{settles, CliError, CliErrorV};
use crate::text;
use crate::value;
use crate::value::{Data, DataV};

verus! {

/// What `docker compose config --format json` prints, as far as it is used.
#[derive(Clone, Debug)]
pub struct ComposeDocument {
    pub name: Option<String>,
    pub services: StringMap<ComposeService>,
}

/// One service of a Compose document.
#[derive(Clone, Debug)]
pub struct ComposeService {
    pub image: Option<String>,
    pub build: Option<Data>,
    pub ports: Vec<Data>,
    pub expose: Vec<Data>,
    pub volumes: Vec<Data>,
    pub healthcheck: Option<Data>,
    pub network_mode: Option<String>,
}

/// The services of a project.
#[derive(Clone, Debug, Eq, PartialEq)]
pub struct ComposeInventory {
    pub project_name: Option<String>,
    pub services: Vec<ServiceInventory>,
}

/// What is known of one service.
#[derive(Clone, Debug, Eq, PartialEq)]
pub struct ServiceInventory {
    pub name: String,
    pub has_build: bool,
    pub image: Option<String>,
    pub internal_ports: Vec<u16>,
    pub has_healthcheck: bool,
    pub local_bind_mounts: Vec<String>,
    pub uses_host_network: bool,
}

/// The model of [`ServiceInventory`].
#[verifier::ext_equal]
pub struct ServiceV {
    pub name: Seq<char>,
    pub has_build: bool,
    pub image: Option<Seq<char>>,
    pub internal_ports: Seq<u16>,
    pub has_healthcheck: bool,
    pub local_bind_mounts: Seq<Seq<char>>,
    pub uses_host_network: bool,
}

impl View for ServiceInventory {
    type V = ServiceV;

    open spec fn view(&self) -> ServiceV {
        ServiceV {
            name: self.name@,
            has_build: self.has_build,
            image: text::option_of(self.image),
            internal_ports: self.internal_ports@,
            has_healthcheck: self.has_healthcheck,
            local_bind_mounts: text::texts(self.local_bind_mounts@),
            uses_host_network: self.uses_host_network,
        }
    }
}

/// The models of services.
pub open spec fn service_views(services: Seq<ServiceInventory>) -> Seq<ServiceV> {
    Seq::new(services.len(), |i: int| services[i]@)
}

// ---------------------------------------------------------------------------
// Ports and mounts
// ---------------------------------------------------------------------------

/// The internal port that a port entry names: a number, a text up to a slash, or the
/// `target` of an entry in long form.
pub open spec fn port_of(v: DataV) -> Option<u16>
    decreases v,
{
    match v {
        DataV::Integer(n) => if 0 <= n <= 65535 {
            Some(n as u16)
        } else {
            None
        },
        DataV::Str(s) => {
            let port = match text::split_first(s, '/') {
                Some(parts) => parts.0,
                None => s,
            };
            match text::parsed(port, 65535) {
                Some(n) => Some(n as u16),
                None => None,
            }
        },
        DataV::Object(entries) => port_of_entries(entries),
        _ => None,
    }
}

/// The port of the first entry called `target`.
pub open spec fn port_of_entries(entries: Seq<(Seq<char>, DataV)>) -> Option<u16>
    decreases entries,
{
    if entries.len() == 0 {
        None
    } else if entries[0].0 == "target"@ {
        port_of(entries[0].1)
    } else {
        port_of_entries(entries.drop_first())
    }
}

/// Reads a port entry.
pub fn port_target(v: &Data) -> (r: Option<u16>)
    ensures
        r == port_of(v@),
    decreases v,
{
    broadcast use value::lemma_object_view;

    match v {
        Data::Integer(n) => if *n >= 0 && *n <= 65535 {
            Some(*n as u16)
        } else {
            None
        },
        Data::Str(s) => {
            let port = match text::split_once(s.as_str(), '/') {
                Some((port, _)) => port,
                None => s.as_str().to_owned(),
            };
            match text::parse_unsigned(port.as_str(), 65535) {
                Some(n) => Some(n as u16),
                None => None,
            }
        },
        Data::Object(entries) => {
            let ghost all = value::entry_views(entries@);
            let mut i: usize = 0;
            assert(all.subrange(0, all.len() as int) =~= all);
            while i < entries.len()
                invariant
                    i <= entries@.len(),
                    all == value::entry_views(entries@),
                    v == Data::Object(*entries),
                    port_of(v@) == port_of_entries(all),
                    port_of_entries(all) == port_of_entries(all.subrange(i as int, all.len() as int)),
                decreases entries.len() - i,
            {
                let ghost rest = all.subrange(i as int, all.len() as int);
                assert(rest[0] == (entries@[i as int].0@, entries@[i as int].1@));
                assert(rest.drop_first() =~= all.subrange(i + 1, all.len() as int));
                if text::same(entries[i].0.as_str(), "target") {
                    assert(decreases_to!(entries@ => entries@[i as int]));
                    return port_target(&entries[i].1);
                }
                i += 1;
            }
            None
        },
        _ => None,
    }
}

/// The local directory that a volume entry binds: the `source` of an entry in long form
/// whose type is `bind`, or the first part of a text where it is a path.
pub open spec fn bind_of(v: DataV) -> Option<Seq<char>> {
    match v {
        DataV::Object(entries) => if value::text_of(value::lookup(entries, "type"@)) == Some("bind"@) {
            value::text_of(value::lookup(entries, "source"@))
        } else {
            None
        },
        DataV::Str(s) => {
            let source = text::split(s, ':')[0];
            if text::has_prefix(source, "."@) || text::has_prefix(source, "/"@) || text::has_prefix(
                source,
                "~"@,
            ) || source.contains('\\') {
                Some(source)
            } else {
                None
            }
        },
        _ => None,
    }
}

/// Reads a volume entry.
pub fn bind_source(v: &Data) -> (r: Option<String>)
    ensures
        match r {
            Some(source) => bind_of(v@) == Some(source@),
            None => bind_of(v@) is None,
        },
{
    broadcast use value::lemma_object_view;

    match v {
        Data::Object(_) => {
            match v.get_str("type") {
                Some(kind) => if !text::same(kind, "bind") {
                    return None;
                },
                None => {
                    return None;
                },
            }
            match v.get_str("source") {
                Some(source) => Some(source.to_owned()),
                None => None,
            }
        },
        Data::Str(s) => {
            let parts = text::split_at_char(s.as_str(), ':');
            proof {
                text::lemma_split_not_empty(s@, ':');
                assert(text::texts(parts@)[0] == parts@[0]@);
            }
            let source = parts[0].as_str();
            if text::starts_with(source, ".") || text::starts_with(source, "/") || text::starts_with(
                source,
                "~",
            ) || text::contains_char(source, '\\') {
                Some(source.to_owned())
            } else {
                None
            }
        },
        _ => None,
    }
}

// ---------------------------------------------------------------------------
// The inventory
// ---------------------------------------------------------------------------

/// Whether an entry names the port.
pub open spec fn names_port(items: Seq<DataV>, port: u16) -> bool {
    exists|i: int| 0 <= i < items.len() && port_of(#[trigger] items[i]) == Some(port)
}

/// Numbers in strictly increasing order.
pub open spec fn increasing(ports: Seq<u16>) -> bool {
    forall|i: int, j: int| 0 <= i < j < ports.len() ==> ports[i] < ports[j]
}

/// The local directories that volume entries bind, in order.
pub open spec fn binds_of(items: Seq<DataV>) -> Seq<Seq<char>>
    decreases items.len(),
{
    if items.len() == 0 {
        Seq::empty()
    } else {
        match bind_of(items.last()) {
            Some(source) => binds_of(items.drop_last()).push(source),
            None => binds_of(items.drop_last()),
        }
    }
}

/// The inventory entry of a service: its ports, each once and in order, are those of its
/// published and its exposed entries.
pub open spec fn describes(s: ServiceV, name: Seq<char>, service: ComposeService) -> bool {
    &&& s.name == name
    &&& s.has_build == (service.build is Some)
    &&& s.image == text::option_of(service.image)
    &&& increasing(s.internal_ports)
    &&& forall|port: u16| #[trigger]
        s.internal_ports.contains(port) <==> names_port(value::item_views(service.ports@), port)
            || names_port(value::item_views(service.expose@), port)
    &&& s.has_healthcheck == (service.healthcheck is Some)
    &&& s.local_bind_mounts == binds_of(value::item_views(service.volumes@))
    &&& s.uses_host_network == (text::option_of(service.network_mode) == Some("host"@))
}

/// Inserts a port into ports that stand in increasing order.
fn insert_port(ports: &mut Vec<u16>, port: u16)
    requires
        increasing(old(ports)@),
    ensures
        increasing(final(ports)@),
        forall|p: u16| #[trigger] final(ports)@.contains(p) <==> old(ports)@.contains(p) || p == port,
{
    let ghost before = ports@;
    let mut i: usize = 0;
    while i < ports.len() && ports[i] < port
        invariant
            ports@ == before,
            i <= ports@.len(),
            increasing(before),
            forall|k: int| 0 <= k < i ==> before[k] < port,
        decreases ports.len() - i,
    {
        i += 1;
    }
    if i < ports.len() && ports[i] == port {
        assert(before.contains(port));
        return;
    }
    assert forall|k: int| i <= k < before.len() implies before[k] > port by {
        assert(before[i as int] > port);
        if k > i {
            assert(before[i as int] < before[k]);
        }
    }
    ports.insert(i, port);
    assert(ports@ =~= before.insert(i as int, port));
    assert forall|p: u16| #[trigger] ports@.contains(p) <==> before.contains(p) || p == port by {
        if before.contains(p) {
            let k = choose|k: int| 0 <= k < before.len() && before[k] == p;
            if k < i {
                assert(ports@[k] == p);
            } else {
                assert(ports@[k + 1] == p);
            }
        }
        if p == port {
            assert(ports@[i as int] == p);
        }
        if ports@.contains(p) && p != port {
            let k = choose|k: int| 0 <= k < ports@.len() && ports@[k] == p;
            if k < i {
                assert(before[k] == p);
            } else {
                assert(before[k - 1] == p);
            }
        }
    }
}

/// Adds the ports that entries name.
fn add_ports(ports: &mut Vec<u16>, items: &Vec<Data>)
    requires
        increasing(old(ports)@),
    ensures
        increasing(final(ports)@),
        forall|p: u16| #[trigger]
            final(ports)@.contains(p) <==> old(ports)@.contains(p) || names_port(
                value::item_views(items@),
                p,
            ),
{
    let ghost before = ports@;
    let ghost views = value::item_views(items@);
    let mut i: usize = 0;
    while i < items.len()
        invariant
            i <= items@.len(),
            views == value::item_views(items@),
            increasing(ports@),
            forall|p: u16| #[trigger]
                ports@.contains(p) <==> before.contains(p) || (exists|k: int|
                    0 <= k < i && port_of(#[trigger] views[k]) == Some(p)),
        decreases items.len() - i,
    {
        let ghost earlier = ports@;
        assert(views[i as int] == items@[i as int]@);
        let target = port_target(&items[i]);
        if let Some(port) = target {
            insert_port(ports, port);
        }
        proof {
            assert forall|p: u16| #[trigger] ports@.contains(p) <==> before.contains(p) || (exists|k: int|
                0 <= k < i + 1 && port_of(#[trigger] views[k]) == Some(p)) by {
                assert(ports@.contains(p) <==> earlier.contains(p) || target == Some(p));
                if target == Some(p) {
                    assert(port_of(views[i as int]) == Some(p));
                }
            }
        }
        i += 1;
    }
}

/// Takes the inventory of a document.
pub fn inventory(document: ComposeDocument) -> (r: ComposeInventory)
    ensures
        text::option_of(r.project_name) == text::option_of(document.name),
        r.services@.len() == document.services.entries@.len(),
        forall|i: int|
            0 <= i < r.services@.len() ==> describes(
                #[trigger] r.services@[i]@,
                document.services.entries@[i].0@,
                document.services.entries@[i].1,
            ),
{
    let ghost entries = document.services.entries@;
    let mut services: Vec<ServiceInventory> = Vec::new();
    let mut i: usize = 0;
    while i < document.services.entries.len()
        invariant
            entries == document.services.entries@,
            i <= entries.len(),
            services@.len() == i,
            forall|k: int|
                0 <= k < i ==> describes(#[trigger] services@[k]@, entries[k].0@, entries[k].1),
        decreases document.services.entries.len() - i,
    {
        let service = &document.services.entries[i].1;
        let mut internal_ports: Vec<u16> = Vec::new();
        add_ports(&mut internal_ports, &service.ports);
        add_ports(&mut internal_ports, &service.expose);
        let mut local_bind_mounts: Vec<String> = Vec::new();
        let ghost volumes = value::item_views(service.volumes@);
        let mut j: usize = 0;
        assert(volumes.take(0) =~= Seq::<DataV>::empty());
        assert(text::texts(local_bind_mounts@) =~= Seq::<Seq<char>>::empty());
        while j < service.volumes.len()
            invariant
                j <= service.volumes@.len(),
                volumes == value::item_views(service.volumes@),
                text::texts(local_bind_mounts@) == binds_of(volumes.take(j as int)),
            decreases service.volumes.len() - j,
        {
            let ghost before = local_bind_mounts@;
            proof {
                assert(volumes.take(j + 1).drop_last() =~= volumes.take(j as int));
                assert(volumes.take(j + 1).last() == service.volumes@[j as int]@);
            }
            if let Some(source) = bind_source(&service.volumes[j]) {
                local_bind_mounts.push(source);
                assert(text::texts(local_bind_mounts@) =~= text::texts(before).push(source@));
            }
            j += 1;
        }
        assert(volumes.take(volumes.len() as int) =~= volumes);
        let uses_host_network = match &service.network_mode {
            Some(mode) => text::same(mode.as_str(), "host"),
            None => false,
        };
        services.push(
            ServiceInventory {
                name: document.services.entries[i].0.as_str().to_owned(),
                has_build: service.build.is_some(),
                image: text::copy_option(&service.image),
                internal_ports,
                has_healthcheck: service.healthcheck.is_some(),
                local_bind_mounts,
                uses_host_network,
            },
        );
        i += 1;
    }
    ComposeInventory { project_name: document.name, services }
}

/// The names of the services that share the host's network.
pub open spec fn host_networked(services: Seq<ServiceV>) -> Seq<Seq<char>>
    decreases services.len(),
{
    if services.len() == 0 {
        Seq::empty()
    } else if services.last().uses_host_network {
        host_networked(services.drop_last()).push(services.last().name)
    } else {
        host_networked(services.drop_last())
    }
}

/// The services that bind local directories, each with the directories.
pub open spec fn mounted(services: Seq<ServiceV>) -> Seq<Seq<char>>
    decreases services.len(),
{
    if services.len() == 0 {
        Seq::empty()
    } else if services.last().local_bind_mounts.len() > 0 {
        mounted(services.drop_last()).push(
            services.last().name + " ("@ + text::joined(services.last().local_bind_mounts, ", "@) + ")"@,
        )
    } else {
        mounted(services.drop_last())
    }
}

/// Why services may not be deployed remotely.
pub open spec fn remote_problem(services: Seq<ServiceV>) -> Option<CliErrorV> {
    if host_networked(services).len() > 0 {
        Some(
            CliErrorV::Config(
                "remote deployment rejects network_mode=host in services: "@ + text::joined(
                    host_networked(services),
                    ", "@,
                ),
            ),
        )
    } else if mounted(services).len() > 0 {
        Some(
            CliErrorV::Config(
                "remote deployment rejects local bind mounts: "@ + text::joined(mounted(services), "; "@),
            ),
        )
    } else {
        None
    }
}

/// Services may be deployed remotely exactly where none shares the host's network and
/// none binds a local directory.
pub proof fn remote_safety_is_complete(services: Seq<ServiceV>)
    ensures
        (remote_problem(services) is None) <==> (forall|i: int|
            0 <= i < services.len() ==> !(#[trigger] services[i]).uses_host_network
                && services[i].local_bind_mounts.len() == 0),
    decreases services.len(),
{
    if services.len() > 0 {
        let before = services.drop_last();
        remote_safety_is_complete(before);
        assert(forall|i: int| 0 <= i < before.len() ==> before[i] == services[i]);
        assert(services.last() == services[services.len() - 1]);
        if remote_problem(services) is None {
            assert(remote_problem(before) is None);
            assert forall|i: int| 0 <= i < services.len() implies !(
            #[trigger] services[i]).uses_host_network && services[i].local_bind_mounts.len() == 0 by {
                if i < before.len() {
                    assert(services[i] == before[i]);
                }
            }
        } else if remote_problem(before) is Some {
            let i = choose|i: int|
                0 <= i < before.len() && ((#[trigger] before[i]).uses_host_network
                    || before[i].local_bind_mounts.len() > 0);
            assert(services[i] == before[i]);
        }
    }
}

impl ComposeInventory {
    /// The service with a name.
    pub fn service(&self, name: &str) -> (r: Option<&ServiceInventory>)
        ensures
            match (r, service_named(service_views(self.services@), name@)) {
                (Some(service), Some(model)) => service@ == model,
                (None, None) => true,
                _ => false,
            },
    {
        let ghost all = service_views(self.services@);
        let mut i: usize = 0;
        assert(all.subrange(0, all.len() as int) =~= all);
        while i < self.services.len()
            invariant
                i <= self.services@.len(),
                all == service_views(self.services@),
                service_named(all, name@) == service_named(
                    all.subrange(i as int, all.len() as int),
                    name@,
                ),
            decreases self.services.len() - i,
        {
            let ghost rest = all.subrange(i as int, all.len() as int);
            assert(rest[0] == self.services@[i as int]@);
            if text::same(self.services[i].name.as_str(), name) {
                return Some(&self.services[i]);
            }
            assert(rest.subrange(1, rest.len() as int) =~= all.subrange(i + 1, all.len() as int));
            i += 1;
        }
        None
    }

    /// The services that listen on a port, in order.
    pub fn public_app_candidates(&self) -> (r: Vec<&ServiceInventory>)
        ensures
            candidate_views(r@) == listening(service_views(self.services@)),
    {
        let mut found: Vec<&ServiceInventory> = Vec::new();
        let ghost all = service_views(self.services@);
        let mut i: usize = 0;
        assert(all.take(0) =~= Seq::<ServiceV>::empty());
        assert(candidate_views(found@) =~= Seq::<ServiceV>::empty());
        while i < self.services.len()
            invariant
                i <= self.services@.len(),
                all == service_views(self.services@),
                candidate_views(found@) == listening(all.take(i as int)),
            decreases self.services.len() - i,
        {
            let ghost before = found@;
            proof {
                assert(all.take(i + 1).drop_last() =~= all.take(i as int));
                assert(all.take(i + 1).last() == self.services@[i as int]@);
            }
            if self.services[i].internal_ports.len() > 0 {
                found.push(&self.services[i]);
                assert(candidate_views(found@) =~= candidate_views(before).push(self.services@[i as int]@));
            }
            i += 1;
        }
        assert(all.take(all.len() as int) =~= all);
        found
    }

    /// Rejects what only works on the local machine.
    pub fn validate_remote_safety(&self) -> (r: Result<(), CliError>)
        ensures
            settles(r, remote_problem(service_views(self.services@))),
    {
        let ghost views = service_views(self.services@);
        let mut networked: Vec<String> = Vec::new();
        let mut bound: Vec<String> = Vec::new();
        let mut i: usize = 0;
        assert(views.take(0) =~= Seq::<ServiceV>::empty());
        assert(text::texts(networked@) =~= Seq::<Seq<char>>::empty());
        assert(text::texts(bound@) =~= Seq::<Seq<char>>::empty());
        while i < self.services.len()
            invariant
                i <= self.services@.len(),
                views == service_views(self.services@),
                text::texts(networked@) == host_networked(views.take(i as int)),
                text::texts(bound@) == mounted(views.take(i as int)),
            decreases self.services.len() - i,
        {
            let service = &self.services[i];
            let ghost networked_before = networked@;
            let ghost bound_before = bound@;
            proof {
                assert(views.take(i + 1).drop_last() =~= views.take(i as int));
                assert(views.take(i + 1).last() == service@);
            }
            if service.uses_host_network {
                networked.push(service.name.as_str().to_owned());
                assert(text::texts(networked@) =~= text::texts(networked_before).push(service.name@));
            }
            if service.local_bind_mounts.len() > 0 {
                let mounts = text::join(&service.local_bind_mounts, ", ");
                let entry = text::cat4(service.name.as_str(), " (", mounts.as_str(), ")");
                bound.push(entry);
                assert(text::texts(bound@) =~= text::texts(bound_before).push(entry@));
            }
            i += 1;
        }
        assert(views.take(views.len() as int) =~= views);
        if networked.len() > 0 {
            assert(text::texts(networked@).len() == networked@.len());
            return Err(
                CliError::Config(
                    text::cat2(
                        "remote deployment rejects network_mode=host in services: ",
                        text::join(&networked, ", ").as_str(),
                    ),
                ),
            );
        }
        assert(text::texts(networked@).len() == 0);
        if bound.len() > 0 {
            assert(text::texts(bound@).len() == bound@.len());
            return Err(
                CliError::Config(
                    text::cat2(
                        "remote deployment rejects local bind mounts: ",
                        text::join(&bound, "; ").as_str(),
                    ),
                ),
            );
        }
        assert(text::texts(bound@).len() == 0);
        Ok(())
    }
}

/// The models of the services that references stand for.
pub open spec fn candidate_views(found: Seq<&ServiceInventory>) -> Seq<ServiceV> {
    Seq::new(found.len(), |i: int| found[i]@)
}

/// The first service with a name.
pub open spec fn service_named(services: Seq<ServiceV>, name: Seq<char>) -> Option<ServiceV>
    decreases services.len(),
{
    if services.len() == 0 {
        None
    } else if services[0].name == name {
        Some(services[0])
    } else {
        service_named(services.subrange(1, services.len() as int), name)
    }
}

/// The services that listen on a port, in order.
pub open spec fn listening(services: Seq<ServiceV>) -> Seq<ServiceV>
    decreases services.len(),
{
    if services.len() == 0 {
        Seq::empty()
    } else if services.last().internal_ports.len() > 0 {
        listening(services.drop_last()).push(services.last())
    } else {
        listening(services.drop_last())
    }
}

// ---------------------------------------------------------------------------
// Asking for the resolved model
// ---------------------------------------------------------------------------

/// The `-f` arguments of files.
pub open spec fn file_arguments(files: Seq<Seq<char>>) -> Seq<Seq<char>>
    decreases files.len(),
{
    if files.len() == 0 {
        Seq::empty()
    } else {
        file_arguments(files.drop_last()).push("-f"@).push(files.last())
    }
}

/// The arguments with which Docker prints the resolved model of files.
pub open spec fn compose_arguments(files: Seq<Seq<char>>) -> Seq<Seq<char>> {
    (seq!["compose"@] + file_arguments(files)) + seq!["config"@, "--format"@, "json"@]
}

/// The arguments with which Docker prints the resolved model; at least one file is needed.
pub fn inspect_arguments(files: &Vec<String>) -> (r: Result<Vec<String>, CliError>)
    ensures
        match r {
            Ok(arguments) => files@.len() > 0 && text::texts(arguments@) == compose_arguments(
                text::texts(files@),
            ),
            Err(e) => files@.len() == 0 && e@ == CliErrorV::Config("at least one Compose file is required"@),
        },
{
    if files.len() == 0 {
        return Err(CliError::Config("at least one Compose file is required".to_owned()));
    }
    let ghost model = text::texts(files@);
    let mut arguments: Vec<String> = Vec::new();
    arguments.push("compose".to_owned());
    let mut i: usize = 0;
    assert(model.take(0) =~= Seq::<Seq<char>>::empty());
    assert(text::texts(arguments@) =~= seq!["compose"@] + file_arguments(model.take(0)));
    while i < files.len()
        invariant
            i <= files@.len(),
            model == text::texts(files@),
            text::texts(arguments@) == seq!["compose"@] + file_arguments(model.take(i as int)),
        decreases files.len() - i,
    {
        let ghost before = arguments@;
        proof {
            assert(model.take(i + 1).drop_last() =~= model.take(i as int));
            assert(model.take(i + 1).last() == files@[i as int]@);
        }
        arguments.push("-f".to_owned());
        arguments.push(files[i].as_str().to_owned());
        assert(text::texts(arguments@) =~= text::texts(before).push("-f"@).push(files@[i as int]@));
        assert(text::texts(arguments@) =~= seq!["compose"@] + file_arguments(model.take(i + 1)));
        i += 1;
    }
    assert(model.take(model.len() as int) =~= model);
    let ghost before = arguments@;
    arguments.push("config".to_owned());
    arguments.push("--format".to_owned());
    arguments.push("json".to_owned());
    assert(text::texts(arguments@) =~= text::texts(before) + seq!["config"@, "--format"@, "json"@]);
    Ok(arguments)
}

/// A project is accepted where it stays here, or can run elsewhere.
pub open spec fn is_accepted(found: ComposeInventory, remote: bool) -> bool {
    remote ==> remote_problem(service_views(found.services@)) is None
}

/// What becomes of Docker's answer: the text that could not be read, or the inventory.
pub fn accept_model(decoded: Result<ComposeDocument, String>, remote: bool) -> (r: Result<
    ComposeInventory,
    CliError,
>)
    ensures
        match (decoded, r) {
            (Err(detail), Err(e)) => e@ == CliErrorV::Config(
                "could not decode `docker compose config --format json`: "@ + detail@,
            ),
            (Err(_), Ok(_)) => false,
            (Ok(document), _) => exists|found: ComposeInventory| #[trigger]
                takes_inventory(found, document) && settles(
                    r,
                    if remote {
                        remote_problem(service_views(found.services@))
                    } else {
                        None
                    },
                ) && (r is Ok ==> r == Ok::<ComposeInventory, CliError>(found)) && (r is Ok <==> is_accepted(
                    found,
                    remote,
                )),
        },
{
    match decoded {
        Err(detail) => Err(
            CliError::Config(
                text::cat2(
                    "could not decode `docker compose config --format json`: ",
                    detail.as_str(),
                ),
            ),
        ),
        Ok(document) => {
            let found = inventory(document);
            assert(takes_inventory(found, document));
            if remote {
                found.validate_remote_safety()?;
            }
            Ok(found)
        },
    }
}

/// An inventory that holds what a document says.
pub open spec fn takes_inventory(found: ComposeInventory, document: ComposeDocument) -> bool {
    &&& text::option_of(found.project_name) == text::option_of(document.name)
    &&& found.services@.len() == document.services.entries@.len()
    &&& forall|i: int|
        0 <= i < found.services@.len() ==> describes(
            #[trigger] found.services@[i]@,
            document.services.entries@[i].0@,
            document.services.entries@[i].1,
        )
}

/// A volume that binds a local directory is recognised, in long form by its type and source, and
/// in short form where the source is a path. A named volume binds none.
pub proof fn bind_mounts_are_recognised(v: DataV, source: Seq<char>)
    ensures
        value::field(v, "type"@) == Some(DataV::Str("bind"@)) && value::field(v, "source"@) == Some(
            DataV::Str(source),
        ) ==> bind_of(v) == Some(source),
        v is Object && value::field(v, "type"@) != Some(DataV::Str("bind"@)) ==> bind_of(v) is None,
        v matches DataV::Str(s) && text::split(s, ':')[0] == source && source.len() > 0 && (source[0] == '.'
            || source[0] == '/' || source[0] == '~' || source.contains('\\')) ==> bind_of(v) == Some(source),
        v matches DataV::Str(s) && text::split(s, ':')[0] == source && !(source.len() > 0 && (source[0] == '.'
            || source[0] == '/' || source[0] == '~')) && !source.contains('\\') ==> bind_of(v) is None,
{
    reveal_strlit(".");
    reveal_strlit("/");
    reveal_strlit("~");
    if source.len() > 0 {
        assert(source.subrange(0, 1) =~= seq![source[0]]);
        assert("."@ =~= seq!['.'] && "/"@ =~= seq!['/'] && "~"@ =~= seq!['~']);
        assert(seq![source[0]][0] == source[0] && seq!['.'][0] == '.' && seq!['/'][0] == '/' && seq!['~'][0]
            == '~');
    }
}

/// Every volume that binds a local directory is listed.
proof fn lemma_binds_listed(items: Seq<DataV>, j: int)
    requires
        0 <= j < items.len(),
        bind_of(items[j]) is Some,
    ensures
        binds_of(items).contains(bind_of(items[j])->0),
    decreases items.len(),
{
    let all = binds_of(items);
    if j == items.len() - 1 {
        assert(all.last() == bind_of(items[j])->0);
        assert(all[all.len() - 1] == bind_of(items[j])->0);
    } else {
        let fewer = items.drop_last();
        assert(fewer[j] == items[j]);
        lemma_binds_listed(fewer, j);
        let before = binds_of(fewer);
        let k = choose|k: int| 0 <= k < before.len() && before[k] == bind_of(items[j])->0;
        assert(all[k] == before[k]);
    }
}

/// Nothing is listed but volumes that bind local directories.
proof fn lemma_nothing_else_listed(items: Seq<DataV>)
    requires
        forall|j: int| 0 <= j < items.len() ==> bind_of(#[trigger] items[j]) is None,
    ensures
        binds_of(items).len() == 0,
    decreases items.len(),
{
    if items.len() > 0 {
        assert(bind_of(items[items.len() - 1]) is None);
        assert forall|j: int| 0 <= j < items.drop_last().len() implies bind_of(
            #[trigger] items.drop_last()[j],
        ) is None by {
            assert(bind_of(items[j]) is None);
        }
        lemma_nothing_else_listed(items.drop_last());
    }
}

/// A project is rejected for remote deployment where any volume of any service binds a local
/// directory, in whatever form it is written.
pub proof fn local_directories_are_rejected(
    found: ComposeInventory,
    document: ComposeDocument,
    i: int,
    j: int,
    source: Seq<char>,
)
    requires
        takes_inventory(found, document),
        0 <= i < document.services.entries@.len(),
        0 <= j < document.services.entries@[i].1.volumes@.len(),
        ({
            let volume = document.services.entries@[i].1.volumes@[j]@;
            ||| value::field(volume, "type"@) == Some(DataV::Str("bind"@)) && value::field(volume, "source"@)
                == Some(DataV::Str(source))
            ||| volume matches DataV::Str(s) && text::split(s, ':')[0] == source && source.len() > 0 && (
            source[0] == '.' || source[0] == '/' || source[0] == '~' || source.contains('\\'))
        }),
    ensures
        found.services@[i]@.local_bind_mounts.contains(source),
        remote_problem(service_views(found.services@)) is Some,
{
    let service = document.services.entries@[i].1;
    let volumes = value::item_views(service.volumes@);
    bind_mounts_are_recognised(volumes[j], source);
    lemma_binds_listed(volumes, j);
    let views = service_views(found.services@);
    assert(describes(found.services@[i]@, document.services.entries@[i].0@, service));
    assert(views[i] == found.services@[i]@);
    remote_safety_is_complete(views);
    assert(views[i].local_bind_mounts.len() > 0);
}

/// A project is rejected for remote deployment where any service shares the network of the host.
pub proof fn host_networks_are_rejected(found: ComposeInventory, document: ComposeDocument, i: int)
    requires
        takes_inventory(found, document),
        0 <= i < document.services.entries@.len(),
        document.services.entries@[i].1.network_mode matches Some(mode) && mode@ == "host"@,
    ensures
        remote_problem(service_views(found.services@)) is Some,
{
    let views = service_views(found.services@);
    assert(describes(
        found.services@[i]@,
        document.services.entries@[i].0@,
        document.services.entries@[i].1,
    ));
    assert(views[i] == found.services@[i]@);
    remote_safety_is_complete(views);
}

/// A project whose services bind no local directory and do not share the network of the host is
/// accepted for remote deployment.
pub proof fn safe_projects_are_accepted(found: ComposeInventory, document: ComposeDocument)
    requires
        takes_inventory(found, document),
        forall|i: int|
            0 <= i < document.services.entries@.len() ==> text::option_of(
                (#[trigger] document.services.entries@[i]).1.network_mode,
            ) != Some("host"@) && forall|j: int|
                0 <= j < document.services.entries@[i].1.volumes@.len() ==> bind_of(
                    (#[trigger] document.services.entries@[i].1.volumes@[j])@,
                ) is None,
    ensures
        remote_problem(service_views(found.services@)) is None,
{
    let views = service_views(found.services@);
    assert forall|i: int| 0 <= i < views.len() implies !(#[trigger] views[i]).uses_host_network
        && views[i].local_bind_mounts.len() == 0 by {
        let entry = document.services.entries@[i];
        assert(describes(found.services@[i]@, entry.0@, entry.1));
        let volumes = value::item_views(entry.1.volumes@);
        assert forall|j: int| 0 <= j < volumes.len() implies bind_of(#[trigger] volumes[j]) is None by {
            assert(bind_of(entry.1.volumes@[j]@) is None);
        }
        lemma_nothing_else_listed(volumes);
    }
    remote_safety_is_complete(views);
}

/// The port inside a container is read from each form of an entry: a number, a text with or
/// without its protocol, and the target of the long form, never the published port.
pub proof fn ports_are_read(port: u16, protocol: Seq<char>, entries: Seq<(Seq<char>, DataV)>)
    ensures
        port_of(DataV::Integer(port as int)) == Some(port),
        port_of(DataV::Str(text::decimal(port as nat))) == Some(port),
        port_of(DataV::Str(text::decimal(port as nat) + seq!['/'] + protocol)) == Some(port),
        value::lookup(entries, "target"@) == Some(DataV::Integer(port as int)) ==> port_of(
            DataV::Object(entries),
        ) == Some(port),
        value::lookup(entries, "target"@) is None ==> port_of(DataV::Object(entries)) is None,
{
    let digits = text::decimal(port as nat);
    text::lemma_decimal(port as nat);
    assert(text::digits_value(digits) == port as nat && text::all_digits(digits) && digits.len() > 0);
    assert(!digits.contains('/')) by {
        if digits.contains('/') {
            let k = choose|k: int| 0 <= k < digits.len() && digits[k] == '/';
            assert(text::is_digit(digits[k]));
        }
    }
    assert(text::is_digit(digits[0]));
    text::lemma_first_index(digits, '/');
    let long = digits + seq!['/'] + protocol;
    text::lemma_first_index(long, '/');
    let at = text::first_index(long, '/');
    assert(long[digits.len() as int] == '/');
    if at < digits.len() {
        assert(long[at] == digits[at]);
        assert(digits.contains('/'));
    }
    assert(at == digits.len());
    assert(long.subrange(0, at) =~= digits);
    lemma_port_entries(entries);
}

/// The port of an entry in long form is that of its target.
proof fn lemma_port_entries(entries: Seq<(Seq<char>, DataV)>)
    ensures
        port_of_entries(entries) == match value::lookup(entries, "target"@) {
            Some(v) => port_of(v),
            None => None,
        },
    decreases entries.len(),
{
    if entries.len() > 0 && entries[0].0 != "target"@ {
        assert(entries.drop_first() =~= entries.subrange(1, entries.len() as int));
        lemma_port_entries(entries.drop_first());
    }
}

/// The arguments of files are pairs.
proof fn lemma_file_arguments(files: Seq<Seq<char>>, i: int)
    requires
        0 <= i < files.len(),
    ensures
        file_arguments(files).len() == 2 * files.len(),
        file_arguments(files)[2 * i] == "-f"@,
        file_arguments(files)[2 * i + 1] == files[i],
    decreases files.len(),
{
    let before = file_arguments(files.drop_last());
    if files.len() > 1 {
        if i < files.len() - 1 {
            lemma_file_arguments(files.drop_last(), i);
        } else {
            lemma_file_arguments(files.drop_last(), 0);
        }
    } else {
        assert(before.len() == 0);
    }
}

/// Compose is asked for the resolved model of every file, in the order of merging, as JSON.
pub proof fn every_file_is_merged_in_order(files: Seq<Seq<char>>, i: int)
    requires
        0 <= i < files.len(),
    ensures
        compose_arguments(files).len() == 2 * files.len() + 4,
        compose_arguments(files)[0] == "compose"@,
        compose_arguments(files)[1 + 2 * i] == "-f"@,
        compose_arguments(files)[2 + 2 * i] == files[i],
        compose_arguments(files)[(2 * files.len() + 1) as int] == "config"@,
        compose_arguments(files)[(2 * files.len() + 2) as int] == "--format"@,
        compose_arguments(files)[(2 * files.len() + 3) as int] == "json"@,
{
    lemma_file_arguments(files, i);
}

/// A service is known as it is composed: by its name, with the ports that it publishes and those
/// that it exposes, each once and in order, and with whether it is built, has an image, or is
/// checked.
pub proof fn services_are_known_as_composed(s: ServiceV, name: Seq<char>, service: ComposeService, port: u16, i: int)
    requires
        describes(s, name, service),
    ensures
        s.name == name,
        0 <= i < service.ports@.len() && port_of(service.ports@[i]@) == Some(port) ==> s.internal_ports.contains(port),
        0 <= i < service.expose@.len() && port_of(service.expose@[i]@) == Some(port) ==> s.internal_ports.contains(
            port,
        ),
        s.internal_ports.contains(port) ==> (exists|k: int|
            0 <= k < service.ports@.len() && port_of((#[trigger] service.ports@[k])@) == Some(port)) || (exists|k: int|
            0 <= k < service.expose@.len() && port_of((#[trigger] service.expose@[k])@) == Some(port)),
        forall|a: int, b: int|
            0 <= a < b < s.internal_ports.len() ==> #[trigger] s.internal_ports[a] < #[trigger] s.internal_ports[b],
        s.has_build <==> service.build is Some,
        s.has_healthcheck <==> service.healthcheck is Some,
        service.image matches Some(image) ==> s.image == Some(image@),
        service.image is None ==> s.image is None,
{
    let published = value::item_views(service.ports@);
    let exposed = value::item_views(service.expose@);
    if 0 <= i < service.ports@.len() && port_of(service.ports@[i]@) == Some(port) {
        assert(port_of(published[i]) == Some(port));
    }
    if 0 <= i < service.expose@.len() && port_of(service.expose@[i]@) == Some(port) {
        assert(port_of(exposed[i]) == Some(port));
    }
    if s.internal_ports.contains(port) {
        if names_port(published, port) {
            let k = choose|k: int| 0 <= k < published.len() && port_of(#[trigger] published[k]) == Some(port);
            assert(port_of(service.ports@[k]@) == Some(port));
        } else {
            let k = choose|k: int| 0 <= k < exposed.len() && port_of(#[trigger] exposed[k]) == Some(port);
            assert(port_of(service.expose@[k]@) == Some(port));
        }
    }
}

/// A project with a volume that binds a local directory is not accepted for remote deployment, in
/// whatever form the volume is written, nor is one with a service on the network of its host; a
/// project that stays here is accepted in any case.
pub proof fn unsafe_projects_are_not_accepted(
    found: ComposeInventory,
    document: ComposeDocument,
    i: int,
    j: int,
    source: Seq<char>,
)
    requires
        takes_inventory(found, document),
        0 <= i < document.services.entries@.len(),
    ensures
        is_accepted(found, false),
        0 <= j < document.services.entries@[i].1.volumes@.len() && value::field(
            document.services.entries@[i].1.volumes@[j]@,
            "type"@,
        ) == Some(DataV::Str("bind"@)) && value::field(document.services.entries@[i].1.volumes@[j]@, "source"@)
            == Some(DataV::Str(source)) ==> !is_accepted(found, true),
        0 <= j < document.services.entries@[i].1.volumes@.len() && (document.services.entries@[i].1.volumes@[j]@
            matches DataV::Str(s) && text::split(s, ':')[0] == source && source.len() > 0 && (source[0] == '.'
            || source[0] == '/' || source[0] == '~')) ==> !is_accepted(found, true),
        document.services.entries@[i].1.network_mode matches Some(mode) ==> (mode@ == "host"@ ==> !is_accepted(
            found,
            true,
        )),
{
    let service = document.services.entries@[i].1;
    if 0 <= j < service.volumes@.len() {
        let volume = service.volumes@[j]@;
        if (value::field(volume, "type"@) == Some(DataV::Str("bind"@)) && value::field(volume, "source"@) == Some(
            DataV::Str(source),
        )) || (volume matches DataV::Str(s) && text::split(s, ':')[0] == source && source.len() > 0 && (source[0]
            == '.' || source[0] == '/' || source[0] == '~')) {
            local_directories_are_rejected(found, document, i, j, source);
        }
    }
    let views = service_views(found.services@);
    assert(describes(found.services@[i]@, document.services.entries@[i].0@, service));
    assert(views[i] == found.services@[i]@);
    remote_safety_is_complete(views);
}

} // verus!
