//! What commands show: aggregated observations, and lines of text.

use vstd::prelude::*;

use crate::collections;
use crate::error::{CliError, CliErrorV};
use crate::models;
use crate::models::{EndpointV, InspectV};
use crate::output::OutputFormat;
use crate::protocol::{Endpoint, InspectResult, LogRecord, ResourceStatus};
use crate::text;
use crate::value;
use crate::value::{Data, DataV};

verus! {

/// What an operation is about to do.
#[derive(Clone, Debug)]
pub struct PlanView {
    pub environment_id: String,
    pub branch: String,
    pub profile: String,
    pub operation: &'static str,
    pub has_changes: bool,
    pub plugins: Vec<PluginPlanView>,
}

/// What one plugin is about to do.
#[derive(Clone, Debug)]
pub struct PluginPlanView {
    pub capability: String,
    pub plugin: String,
    pub plan_id: String,
    pub has_changes: bool,
    pub actions: Vec<ActionView>,
}

/// One action.
#[derive(Clone, Debug)]
pub struct ActionView {
    pub id: String,
    pub summary: String,
    pub destructive: bool,
}

/// What is known of an environment.
#[derive(Clone, Debug)]
pub struct EnvironmentView {
    pub environment_id: String,
    pub branch: String,
    pub profile: String,
    pub status: ResourceStatus,
    pub endpoints: Vec<Endpoint>,
    pub plugins: Vec<PluginStatusView>,
    pub environments: Vec<EnvironmentSummaryView>,
}

/// What is known of one environment among several.
#[derive(Clone, Debug)]
pub struct EnvironmentSummaryView {
    pub environment_id: String,
    pub branch: Option<String>,
    pub profile: Option<String>,
    pub status: ResourceStatus,
    pub endpoints: Vec<Endpoint>,
    pub expires_at: Option<String>,
    pub expires_at_unix: Option<u64>,
}

/// What one plugin observed.
#[derive(Clone, Debug)]
pub struct PluginStatusView {
    pub capability: String,
    pub plugin: String,
    pub status: ResourceStatus,
    pub state: Data,
}

// ---------------------------------------------------------------------------
// Status
// ---------------------------------------------------------------------------

/// How grave a status is.
pub open spec fn rank(status: ResourceStatus) -> int {
    match status {
        ResourceStatus::Ready => 0,
        ResourceStatus::Absent => 1,
        ResourceStatus::Pending => 2,
        ResourceStatus::Destroying => 3,
        ResourceStatus::Degraded => 4,
        ResourceStatus::Unknown => 5,
    }
}

/// How grave a status is.
pub fn status_rank(status: ResourceStatus) -> (r: u8)
    ensures
        r == rank(status),
{
    match status {
        ResourceStatus::Ready => 0,
        ResourceStatus::Absent => 1,
        ResourceStatus::Pending => 2,
        ResourceStatus::Destroying => 3,
        ResourceStatus::Degraded => 4,
        ResourceStatus::Unknown => 5,
    }
}

/// The gravest of several statuses, at least ready.
pub open spec fn worst(statuses: Seq<ResourceStatus>) -> ResourceStatus
    decreases statuses.len(),
{
    if statuses.len() == 0 {
        ResourceStatus::Ready
    } else {
        let before = worst(statuses.drop_last());
        if rank(statuses.last()) > rank(before) {
            statuses.last()
        } else {
            before
        }
    }
}

/// The status of a whole: the gravest of its parts, absent without parts.
pub open spec fn combined(statuses: Seq<ResourceStatus>) -> ResourceStatus {
    if statuses.len() == 0 {
        ResourceStatus::Absent
    } else {
        worst(statuses)
    }
}

/// The status of a whole.
pub fn combined_status(statuses: &Vec<ResourceStatus>) -> (r: ResourceStatus)
    ensures
        r == combined(statuses@),
{
    if statuses.len() == 0 {
        return ResourceStatus::Absent;
    }
    let mut found = ResourceStatus::Ready;
    let mut i: usize = 0;
    assert(statuses@.take(0) =~= Seq::<ResourceStatus>::empty());
    while i < statuses.len()
        invariant
            i <= statuses@.len(),
            found == worst(statuses@.take(i as int)),
        decreases statuses.len() - i,
    {
        assert(statuses@.take(i + 1).drop_last() =~= statuses@.take(i as int));
        if status_rank(statuses[i]) > status_rank(found) {
            found = statuses[i];
        }
        i += 1;
    }
    assert(statuses@.take(statuses@.len() as int) =~= statuses@);
    found
}

/// No part is graver than the whole, and the whole is ready only where every part is.
pub proof fn combined_status_is_the_gravest(statuses: Seq<ResourceStatus>, i: int)
    requires
        0 <= i < statuses.len(),
    ensures
        rank(statuses[i]) <= rank(combined(statuses)),
        combined(statuses) == ResourceStatus::Ready ==> statuses[i] == ResourceStatus::Ready,
{
    lemma_worst(statuses, i);
}

/// No part is graver than the gravest.
proof fn lemma_worst(statuses: Seq<ResourceStatus>, i: int)
    requires
        0 <= i < statuses.len(),
    ensures
        rank(statuses[i]) <= rank(worst(statuses)),
    decreases statuses.len(),
{
    if i < statuses.len() - 1 {
        assert(statuses.drop_last()[i] == statuses[i]);
        lemma_worst(statuses.drop_last(), i);
    }
}

/// The notation of a status.
pub open spec fn status_text(status: ResourceStatus) -> Seq<char> {
    match status {
        ResourceStatus::Absent => "absent"@,
        ResourceStatus::Pending => "pending"@,
        ResourceStatus::Ready => "ready"@,
        ResourceStatus::Degraded => "degraded"@,
        ResourceStatus::Destroying => "destroying"@,
        ResourceStatus::Unknown => "unknown"@,
    }
}

/// The notation of a status.
pub fn human_status(status: ResourceStatus) -> (r: &'static str)
    ensures
        r@ == status_text(status),
{
    match status {
        ResourceStatus::Absent => "absent",
        ResourceStatus::Pending => "pending",
        ResourceStatus::Ready => "ready",
        ResourceStatus::Degraded => "degraded",
        ResourceStatus::Destroying => "destroying",
        ResourceStatus::Unknown => "unknown",
    }
}

/// The status that a text is the notation of.
pub open spec fn status_named(s: Seq<char>) -> Option<ResourceStatus> {
    if s == "absent"@ {
        Some(ResourceStatus::Absent)
    } else if s == "pending"@ {
        Some(ResourceStatus::Pending)
    } else if s == "ready"@ {
        Some(ResourceStatus::Ready)
    } else if s == "degraded"@ {
        Some(ResourceStatus::Degraded)
    } else if s == "destroying"@ {
        Some(ResourceStatus::Destroying)
    } else if s == "unknown"@ {
        Some(ResourceStatus::Unknown)
    } else {
        None
    }
}

/// The status that a value is: its notation, alone or as the only name, with nothing under it.
pub open spec fn status_in(v: DataV) -> Option<ResourceStatus> {
    match v {
        DataV::Str(s) => status_named(s),
        DataV::Object(entries) => if entries.len() == 1 && entries[0].1 is Null {
            status_named(entries[0].0)
        } else {
            None
        },
        _ => None,
    }
}

/// Reads the notation of a status.
fn parse_status(s: &str) -> (r: Option<ResourceStatus>)
    ensures
        r == status_named(s@),
{
    if text::same(s, "absent") {
        Some(ResourceStatus::Absent)
    } else if text::same(s, "pending") {
        Some(ResourceStatus::Pending)
    } else if text::same(s, "ready") {
        Some(ResourceStatus::Ready)
    } else if text::same(s, "degraded") {
        Some(ResourceStatus::Degraded)
    } else if text::same(s, "destroying") {
        Some(ResourceStatus::Destroying)
    } else if text::same(s, "unknown") {
        Some(ResourceStatus::Unknown)
    } else {
        None
    }
}

/// Reads a status.
pub fn read_status(v: &Data) -> (r: Option<ResourceStatus>)
    ensures
        r == status_in(v@),
{
    broadcast use {value::lemma_array_view, value::lemma_object_view};

    match v {
        Data::Str(s) => parse_status(s.as_str()),
        Data::Object(entries) => {
            assert(value::entry_views(entries@).len() == entries@.len());
            if entries.len() != 1 {
                return None;
            }
            assert(value::entry_views(entries@)[0] == (entries@[0].0@, entries@[0].1@));
            match entries[0].1 {
                Data::Null => parse_status(entries[0].0.as_str()),
                _ => None,
            }
        },
        _ => None,
    }
}

// ---------------------------------------------------------------------------
// Addresses
// ---------------------------------------------------------------------------

/// The URLs of addresses.
pub open spec fn urls(endpoints: Seq<EndpointV>) -> Seq<Seq<char>> {
    Seq::new(endpoints.len(), |i: int| endpoints[i].url)
}

/// Addresses with one more: it takes the place of one with the same URL.
pub open spec fn with_endpoint(endpoints: Seq<EndpointV>, e: EndpointV) -> Seq<EndpointV> {
    let at = collections::slot(urls(endpoints), e.url);
    if at < endpoints.len() && endpoints[at].url == e.url {
        endpoints.update(at, e)
    } else {
        endpoints.insert(at, e)
    }
}

/// Addresses with several more.
pub open spec fn with_endpoints(endpoints: Seq<EndpointV>, more: Seq<EndpointV>) -> Seq<EndpointV>
    decreases more.len(),
{
    if more.len() == 0 {
        endpoints
    } else {
        with_endpoint(with_endpoints(endpoints, more.drop_last()), more.last())
    }
}

/// Adds an address.
fn put_endpoint(endpoints: &mut Vec<Endpoint>, e: &Endpoint)
    ensures
        models::endpoint_views(final(endpoints)@) == with_endpoint(
            models::endpoint_views(old(endpoints)@),
            e@,
        ),
{
    let ghost all = models::endpoint_views(endpoints@);
    let ghost keys = urls(all);
    let mut at: usize = 0;
    while at < endpoints.len() && text::less(endpoints[at].url.as_str(), e.url.as_str())
        invariant
            all == models::endpoint_views(endpoints@),
            keys == urls(all),
            at <= endpoints@.len(),
            forall|k: int| 0 <= k < at ==> text::text_lt(#[trigger] keys[k], e.url@),
        decreases endpoints.len() - at,
    {
        assert(keys[at as int] == endpoints@[at as int].url@);
        at += 1;
    }
    proof {
        if at < endpoints@.len() {
            assert(keys[at as int] == endpoints@[at as int].url@);
        }
        collections::lemma_slot_is(keys, e.url@, at as int);
    }
    if at < endpoints.len() && text::same(endpoints[at].url.as_str(), e.url.as_str()) {
        endpoints.set(at, e.duplicate());
    } else {
        endpoints.insert(at, e.duplicate());
    }
    assert(models::endpoint_views(endpoints@) =~= with_endpoint(all, e@));
}

/// Adds addresses.
fn put_endpoints(endpoints: &mut Vec<Endpoint>, more: &Vec<Endpoint>)
    ensures
        models::endpoint_views(final(endpoints)@) == with_endpoints(
            models::endpoint_views(old(endpoints)@),
            models::endpoint_views(more@),
        ),
{
    let ghost base = models::endpoint_views(endpoints@);
    let ghost all = models::endpoint_views(more@);
    let mut i: usize = 0;
    assert(all.take(0) =~= Seq::<EndpointV>::empty());
    while i < more.len()
        invariant
            i <= more@.len(),
            all == models::endpoint_views(more@),
            models::endpoint_views(endpoints@) == with_endpoints(base, all.take(i as int)),
        decreases more.len() - i,
    {
        assert(all.take(i + 1).drop_last() =~= all.take(i as int));
        assert(all.take(i + 1).last() == more@[i as int]@);
        put_endpoint(endpoints, &more[i]);
        i += 1;
    }
    assert(all.take(all.len() as int) =~= all);
}

/// The models of observations.
pub open spec fn inspect_views(items: Seq<InspectResult>) -> Seq<InspectV> {
    Seq::new(items.len(), |i: int| items[i]@)
}

/// The addresses of observations, in the order of their URLs; of two with one URL, the later.
pub open spec fn all_endpoints(inspections: Seq<InspectV>) -> Seq<EndpointV>
    decreases inspections.len(),
{
    if inspections.len() == 0 {
        Seq::empty()
    } else {
        with_endpoints(all_endpoints(inspections.drop_last()), inspections.last().endpoints)
    }
}

/// Collects the addresses of observations.
pub fn collect_endpoints(inspections: &Vec<InspectResult>) -> (r: Vec<Endpoint>)
    ensures
        models::endpoint_views(r@) == all_endpoints(inspect_views(inspections@)),
{
    let ghost all = inspect_views(inspections@);
    let mut out: Vec<Endpoint> = Vec::new();
    let mut i: usize = 0;
    assert(all.take(0) =~= Seq::<InspectV>::empty());
    assert(models::endpoint_views(out@) =~= Seq::<EndpointV>::empty());
    while i < inspections.len()
        invariant
            i <= inspections@.len(),
            all == inspect_views(inspections@),
            models::endpoint_views(out@) == all_endpoints(all.take(i as int)),
        decreases inspections.len() - i,
    {
        assert(all.take(i + 1).drop_last() =~= all.take(i as int));
        assert(all.take(i + 1).last() == inspections@[i as int]@);
        put_endpoints(&mut out, &inspections[i].endpoints);
        i += 1;
    }
    assert(all.take(all.len() as int) =~= all);
    out
}

/// The address that a value is: its two texts, by name or in order.
pub open spec fn endpoint_in(v: DataV) -> Option<EndpointV> {
    match v {
        DataV::Object(entries) => match (
            value::text_of(value::lookup(entries, "app"@)),
            value::text_of(value::lookup(entries, "url"@)),
        ) {
            (Some(app), Some(url)) => Some(EndpointV { app, url }),
            _ => None,
        },
        DataV::Array(items) => if items.len() == 2 {
            match (items[0], items[1]) {
                (DataV::Str(app), DataV::Str(url)) => Some(EndpointV { app, url }),
                _ => None,
            }
        } else {
            None
        },
        _ => None,
    }
}

/// The addresses that a value is; none where any part of it is not an address.
pub open spec fn endpoints_in(v: Option<DataV>) -> Seq<EndpointV> {
    match v {
        Some(DataV::Array(items)) => if forall|i: int|
            0 <= i < items.len() ==> endpoint_in(#[trigger] items[i]) is Some {
            Seq::new(items.len(), |i: int| endpoint_in(items[i])->0)
        } else {
            Seq::empty()
        },
        _ => Seq::empty(),
    }
}

/// Reads an address.
fn read_endpoint(v: &Data) -> (r: Option<Endpoint>)
    ensures
        match (r, endpoint_in(v@)) {
            (Some(e), Some(model)) => e@ == model,
            (None, None) => true,
            _ => false,
        },
{
    broadcast use {value::lemma_array_view, value::lemma_object_view};

    match v {
        Data::Object(_) => match (v.get_str("app"), v.get_str("url")) {
            (Some(app), Some(url)) => Some(Endpoint { app: app.to_owned(), url: url.to_owned() }),
            _ => None,
        },
        Data::Array(items) => {
            assert(value::item_views(items@).len() == items@.len());
            if items.len() != 2 {
                return None;
            }
            assert(value::item_views(items@)[0] == items@[0]@);
            assert(value::item_views(items@)[1] == items@[1]@);
            match (items[0].as_str(), items[1].as_str()) {
                (Some(app), Some(url)) => Some(Endpoint { app: app.to_owned(), url: url.to_owned() }),
                _ => None,
            }
        },
        _ => None,
    }
}

/// Reads addresses.
fn read_endpoints(v: Option<&Data>) -> (r: Vec<Endpoint>)
    ensures
        models::endpoint_views(r@) == endpoints_in(value::option_view(v)),
{
    broadcast use {value::lemma_array_view, value::lemma_object_view};

    let none: Vec<Endpoint> = Vec::new();
    assert(models::endpoint_views(none@) =~= Seq::<EndpointV>::empty());
    let items = match v {
        Some(inner) => match inner.as_array() {
            Some(items) => items,
            None => {
                return none;
            },
        },
        None => {
            return none;
        },
    };
    let ghost views = value::item_views(items@);
    let mut out: Vec<Endpoint> = Vec::new();
    let mut i: usize = 0;
    while i < items.len()
        invariant
            i <= items@.len(),
            views == value::item_views(items@),
            value::option_view(v) == Some(DataV::Array(views)),
            models::endpoint_views(none@) == Seq::<EndpointV>::empty(),
            out@.len() == i,
            forall|k: int| 0 <= k < i ==> endpoint_in(#[trigger] views[k]) == Some(out@[k]@),
        decreases items.len() - i,
    {
        assert(views[i as int] == items@[i as int]@);
        match read_endpoint(&items[i]) {
            Some(e) => {
                out.push(e);
            },
            None => {
                assert(endpoint_in(views[i as int]) is None);
                return none;
            },
        }
        i += 1;
    }
    assert(models::endpoint_views(out@) =~= endpoints_in(value::option_view(v)));
    out
}

// ---------------------------------------------------------------------------
// Summaries
// ---------------------------------------------------------------------------

/// The model of [`EnvironmentSummaryView`].
#[verifier::ext_equal]
pub struct SummaryV {
    pub environment_id: Seq<char>,
    pub branch: Option<Seq<char>>,
    pub profile: Option<Seq<char>>,
    pub status: ResourceStatus,
    pub endpoints: Seq<EndpointV>,
    pub expires_at: Option<Seq<char>>,
    pub expires_at_unix: Option<u64>,
}

impl View for EnvironmentSummaryView {
    type V = SummaryV;

    open spec fn view(&self) -> SummaryV {
        SummaryV {
            environment_id: self.environment_id@,
            branch: text::option_of(self.branch),
            profile: text::option_of(self.profile),
            status: self.status,
            endpoints: models::endpoint_views(self.endpoints@),
            expires_at: text::option_of(self.expires_at),
            expires_at_unix: self.expires_at_unix,
        }
    }
}

/// The models of summaries.
pub open spec fn summary_views(items: Seq<EnvironmentSummaryView>) -> Seq<SummaryV> {
    Seq::new(items.len(), |i: int| items[i]@)
}

/// The first of two that is there.
pub open spec fn either<T>(a: Option<T>, b: Option<T>) -> Option<T> {
    if a is Some {
        a
    } else {
        b
    }
}

/// What two observations of one environment say together: what is known stays, an unknown
/// status gives way, and of two known statuses the graver counts.
pub open spec fn merged_summary(a: SummaryV, b: SummaryV) -> SummaryV {
    SummaryV {
        environment_id: a.environment_id,
        branch: either(a.branch, b.branch),
        profile: either(a.profile, b.profile),
        status: if a.status == ResourceStatus::Unknown || (b.status != ResourceStatus::Unknown && rank(b.status)
            > rank(a.status)) {
            b.status
        } else {
            a.status
        },
        endpoints: with_endpoints(with_endpoints(Seq::empty(), a.endpoints), b.endpoints),
        expires_at: either(a.expires_at, b.expires_at),
        expires_at_unix: either(a.expires_at_unix, b.expires_at_unix),
    }
}

/// Merges an observation into another of the same environment.
pub fn merge_environment_summary(existing: &mut EnvironmentSummaryView, candidate: &EnvironmentSummaryView)
    ensures
        final(existing)@ == merged_summary(old(existing)@, candidate@),
{
    if existing.branch.is_none() {
        existing.branch = text::copy_option(&candidate.branch);
    }
    if existing.profile.is_none() {
        existing.profile = text::copy_option(&candidate.profile);
    }
    if existing.expires_at.is_none() {
        existing.expires_at = text::copy_option(&candidate.expires_at);
    }
    if existing.expires_at_unix.is_none() {
        existing.expires_at_unix = candidate.expires_at_unix;
    }
    if existing.status == ResourceStatus::Unknown || (candidate.status != ResourceStatus::Unknown
        && status_rank(candidate.status) > status_rank(existing.status)) {
        existing.status = candidate.status;
    }
    let mut endpoints: Vec<Endpoint> = Vec::new();
    assert(models::endpoint_views(endpoints@) =~= Seq::<EndpointV>::empty());
    put_endpoints(&mut endpoints, &existing.endpoints);
    put_endpoints(&mut endpoints, &candidate.endpoints);
    existing.endpoints = endpoints;
}

/// The names of summaries.
pub open spec fn summary_ids(items: Seq<SummaryV>) -> Seq<Seq<char>> {
    Seq::new(items.len(), |i: int| items[i].environment_id)
}

/// Summaries with one more, merged into that of the same environment or replacing it.
pub open spec fn with_summary(items: Seq<SummaryV>, s: SummaryV, merging: bool) -> Seq<SummaryV> {
    let at = collections::slot(summary_ids(items), s.environment_id);
    if at < items.len() && items[at].environment_id == s.environment_id {
        items.update(
            at,
            if merging {
                merged_summary(items[at], s)
            } else {
                s
            },
        )
    } else {
        items.insert(at, s)
    }
}

/// Adds a summary.
fn put_summary(items: &mut Vec<EnvironmentSummaryView>, s: EnvironmentSummaryView, merging: bool)
    ensures
        summary_views(final(items)@) == with_summary(summary_views(old(items)@), s@, merging),
{
    let ghost all = summary_views(items@);
    let ghost keys = summary_ids(all);
    let ghost model = s@;
    let mut at: usize = 0;
    while at < items.len() && text::less(items[at].environment_id.as_str(), s.environment_id.as_str())
        invariant
            all == summary_views(items@),
            keys == summary_ids(all),
            at <= items@.len(),
            forall|k: int| 0 <= k < at ==> text::text_lt(#[trigger] keys[k], s.environment_id@),
        decreases items.len() - at,
    {
        assert(keys[at as int] == items@[at as int].environment_id@);
        at += 1;
    }
    proof {
        if at < items@.len() {
            assert(keys[at as int] == items@[at as int].environment_id@);
        }
        collections::lemma_slot_is(keys, s.environment_id@, at as int);
    }
    if at < items.len() && text::same(items[at].environment_id.as_str(), s.environment_id.as_str()) {
        if merging {
            let mut existing = duplicate_summary(&items[at]);
            merge_environment_summary(&mut existing, &s);
            items.set(at, existing);
        } else {
            items.set(at, s);
        }
    } else {
        items.insert(at, s);
    }
    assert(summary_views(items@) =~= with_summary(all, model, merging));
}

/// A copy of a summary.
fn duplicate_summary(s: &EnvironmentSummaryView) -> (r: EnvironmentSummaryView)
    ensures
        r@ == s@,
{
    EnvironmentSummaryView {
        environment_id: s.environment_id.clone(),
        branch: text::copy_option(&s.branch),
        profile: text::copy_option(&s.profile),
        status: s.status,
        endpoints: models::duplicate_endpoints(&s.endpoints),
        expires_at: text::copy_option(&s.expires_at),
        expires_at_unix: s.expires_at_unix,
    }
}

/// The value under the first of two names that is there.
pub open spec fn field_either(v: DataV, a: Seq<char>, b: Seq<char>) -> Option<DataV> {
    either(value::field(v, a), value::field(v, b))
}

/// The environment that an item of an observation describes: a bare name, or named values.
pub open spec fn environment_in(item: DataV, observed: ResourceStatus) -> Option<SummaryV> {
    match item {
        DataV::Str(id) => Some(
            SummaryV {
                environment_id: id,
                branch: None,
                profile: None,
                status: ResourceStatus::Unknown,
                endpoints: Seq::empty(),
                expires_at: None,
                expires_at_unix: None,
            },
        ),
        _ => match value::text_of(field_either(item, "environment_id"@, "id"@)) {
            None => None,
            Some(id) => Some(
                SummaryV {
                    environment_id: id,
                    branch: value::text_of(value::field(item, "branch"@)),
                    profile: value::text_of(value::field(item, "profile"@)),
                    status: match value::field(item, "status"@) {
                        Some(v) => match status_in(v) {
                            Some(status) => status,
                            None => observed,
                        },
                        None => observed,
                    },
                    endpoints: endpoints_in(value::field(item, "endpoints"@)),
                    expires_at: value::text_of(value::field(item, "expires_at"@)),
                    expires_at_unix: value::count_of(value::field(item, "expires_at_unix"@)),
                },
            ),
        },
    }
}

/// Reads the environment that an item of an observation describes.
fn read_environment(item: &Data, observed: ResourceStatus) -> (r: Option<EnvironmentSummaryView>)
    ensures
        match (r, environment_in(item@, observed)) {
            (Some(s), Some(model)) => s@ == model,
            (None, None) => true,
            _ => false,
        },
{
    broadcast use {value::lemma_array_view, value::lemma_object_view};

    if let Data::Str(id) = item {
        let endpoints: Vec<Endpoint> = Vec::new();
        assert(models::endpoint_views(endpoints@) =~= Seq::<EndpointV>::empty());
        return Some(
            EnvironmentSummaryView {
                environment_id: id.clone(),
                branch: None,
                profile: None,
                status: ResourceStatus::Unknown,
                endpoints,
                expires_at: None,
                expires_at_unix: None,
            },
        );
    }
    let found = match item.get("environment_id") {
        Some(v) => Some(v),
        None => item.get("id"),
    };
    let id = match found {
        Some(v) => match v.as_str() {
            Some(s) => s.to_owned(),
            None => {
                return None;
            },
        },
        None => {
            return None;
        },
    };
    let status = match item.get("status") {
        Some(v) => match read_status(v) {
            Some(status) => status,
            None => observed,
        },
        None => observed,
    };
    let expires_at_unix: Option<u64> = match item.get("expires_at_unix") {
        Some(v) => v.as_u64(),
        None => None,
    };
    Some(
        EnvironmentSummaryView {
            environment_id: id,
            branch: item.get_text("branch"),
            profile: item.get_text("profile"),
            status,
            endpoints: read_endpoints(item.get("endpoints")),
            expires_at: item.get_text("expires_at"),
            expires_at_unix,
        },
    )
}

/// Summaries with the environments that items describe.
pub open spec fn with_environments(items: Seq<SummaryV>, found: Seq<DataV>, observed: ResourceStatus) -> Seq<
    SummaryV,
>
    decreases found.len(),
{
    if found.len() == 0 {
        items
    } else {
        let before = with_environments(items, found.drop_last(), observed);
        match environment_in(found.last(), observed) {
            Some(s) => with_summary(before, s, true),
            None => before,
        }
    }
}

/// The environments that observations list.
pub open spec fn listed(inspections: Seq<InspectV>) -> Seq<SummaryV>
    decreases inspections.len(),
{
    if inspections.len() == 0 {
        Seq::empty()
    } else {
        let before = listed(inspections.drop_last());
        match value::items_of(value::field(inspections.last().state, "environments"@)) {
            Some(items) => with_environments(before, items, inspections.last().status),
            None => before,
        }
    }
}

/// The name under which a machine is shown: that of its environment, a label, or the number
/// of its server.
pub open spec fn machine_name(target: DataV) -> Option<Seq<char>> {
    match value::text_of(value::field(target, "environment_id"@)) {
        Some(id) => Some(id),
        None => match value::text_of(value::field(target, "environment_label"@)) {
            Some(label) => Some(label),
            None => match value::count_of(value::field(target, "server_id"@)) {
                Some(n) => Some("hetzner-server-"@ + text::decimal(n as nat)),
                None => None,
            },
        },
    }
}

/// The name under which a machine is shown.
pub fn name_machine(target: &Data) -> (r: Option<String>)
    ensures
        text::option_of(r) == machine_name(target@),
{
    if let Some(id) = target.get_str("environment_id") {
        return Some(id.to_owned());
    }
    if let Some(label) = target.get_str("environment_label") {
        return Some(label.to_owned());
    }
    match target.get("server_id") {
        Some(v) => match v.as_u64() {
            Some(n) => Some(text::cat2("hetzner-server-", text::number(n as u128).as_str())),
            None => None,
        },
        None => None,
    }
}

/// The status of a machine.
pub open spec fn machine_status(target: DataV, observed: ResourceStatus) -> ResourceStatus {
    match value::text_of(value::field(target, "server_status"@)) {
        None => observed,
        Some(s) => if s == "running"@ {
            ResourceStatus::Ready
        } else if s == "initializing"@ || s == "starting"@ || s == "migrating"@ || s == "rebuilding"@ {
            ResourceStatus::Pending
        } else {
            ResourceStatus::Degraded
        },
    }
}

/// Reads the status of a machine.
fn read_machine_status(target: &Data, observed: ResourceStatus) -> (r: ResourceStatus)
    ensures
        r == machine_status(target@, observed),
{
    match target.get_str("server_status") {
        None => observed,
        Some(s) => if text::same(s, "running") {
            ResourceStatus::Ready
        } else if text::same(s, "initializing") || text::same(s, "starting") || text::same(s, "migrating")
            || text::same(s, "rebuilding") {
            ResourceStatus::Pending
        } else {
            ResourceStatus::Degraded
        },
    }
}

/// The summary of a machine: no more than its name and status.
pub open spec fn machine_summary(id: Seq<char>, status: ResourceStatus) -> SummaryV {
    SummaryV {
        environment_id: id,
        branch: None,
        profile: None,
        status,
        endpoints: Seq::empty(),
        expires_at: None,
        expires_at_unix: None,
    }
}

/// Summaries with the machines that a target lists.
pub open spec fn with_machines(items: Seq<SummaryV>, found: Seq<DataV>, observed: ResourceStatus) -> Seq<
    SummaryV,
>
    decreases found.len(),
{
    if found.len() == 0 {
        items
    } else {
        let before = with_machines(items, found.drop_last(), observed);
        match machine_name(found.last()) {
            Some(id) => with_summary(
                before,
                machine_summary(id, machine_status(found.last(), observed)),
                false,
            ),
            None => before,
        }
    }
}

/// The machines that observations list.
pub open spec fn machines(inspections: Seq<InspectV>) -> Seq<SummaryV>
    decreases inspections.len(),
{
    if inspections.len() == 0 {
        Seq::empty()
    } else {
        let before = machines(inspections.drop_last());
        match value::items_of(value::field(inspections.last().state, "targets"@)) {
            Some(items) => with_machines(before, items, inspections.last().status),
            None => before,
        }
    }
}

/// The environments of a project. Where none is listed, the machines are shown, without
/// claiming branches or addresses that were not observed.
pub open spec fn summaries(inspections: Seq<InspectV>) -> Seq<SummaryV> {
    if listed(inspections).len() > 0 {
        listed(inspections)
    } else {
        machines(inspections)
    }
}

/// Adds the environments that items describe.
fn put_environments(out: &mut Vec<EnvironmentSummaryView>, items: &Vec<Data>, observed: ResourceStatus)
    ensures
        summary_views(final(out)@) == with_environments(
            summary_views(old(out)@),
            value::item_views(items@),
            observed,
        ),
{
    let ghost base = summary_views(out@);
    let ghost all = value::item_views(items@);
    let mut i: usize = 0;
    assert(all.take(0) =~= Seq::<DataV>::empty());
    while i < items.len()
        invariant
            i <= items@.len(),
            all == value::item_views(items@),
            summary_views(out@) == with_environments(base, all.take(i as int), observed),
        decreases items.len() - i,
    {
        assert(all.take(i + 1).drop_last() =~= all.take(i as int));
        assert(all.take(i + 1).last() == items@[i as int]@);
        if let Some(s) = read_environment(&items[i], observed) {
            put_summary(out, s, true);
        }
        i += 1;
    }
    assert(all.take(all.len() as int) =~= all);
}

/// Adds the machines that a target lists.
fn put_machines(out: &mut Vec<EnvironmentSummaryView>, items: &Vec<Data>, observed: ResourceStatus)
    ensures
        summary_views(final(out)@) == with_machines(
            summary_views(old(out)@),
            value::item_views(items@),
            observed,
        ),
{
    let ghost base = summary_views(out@);
    let ghost all = value::item_views(items@);
    let mut i: usize = 0;
    assert(all.take(0) =~= Seq::<DataV>::empty());
    while i < items.len()
        invariant
            i <= items@.len(),
            all == value::item_views(items@),
            summary_views(out@) == with_machines(base, all.take(i as int), observed),
        decreases items.len() - i,
    {
        assert(all.take(i + 1).drop_last() =~= all.take(i as int));
        assert(all.take(i + 1).last() == items@[i as int]@);
        if let Some(environment_id) = name_machine(&items[i]) {
            let endpoints: Vec<Endpoint> = Vec::new();
            assert(models::endpoint_views(endpoints@) =~= Seq::<EndpointV>::empty());
            let s = EnvironmentSummaryView {
                environment_id,
                branch: None,
                profile: None,
                status: read_machine_status(&items[i], observed),
                endpoints,
                expires_at: None,
                expires_at_unix: None,
            };
            put_summary(out, s, false);
        }
        i += 1;
    }
    assert(all.take(all.len() as int) =~= all);
}

/// Collects the environments of a project from observations.
pub fn collect_environment_summaries(inspections: &Vec<InspectResult>) -> (r: Vec<EnvironmentSummaryView>)
    ensures
        summary_views(r@) == summaries(inspect_views(inspections@)),
{
    let ghost all = inspect_views(inspections@);
    let mut out: Vec<EnvironmentSummaryView> = Vec::new();
    let mut i: usize = 0;
    assert(all.take(0) =~= Seq::<InspectV>::empty());
    assert(summary_views(out@) =~= Seq::<SummaryV>::empty());
    while i < inspections.len()
        invariant
            i <= inspections@.len(),
            all == inspect_views(inspections@),
            summary_views(out@) == listed(all.take(i as int)),
        decreases inspections.len() - i,
    {
        let inspection = &inspections[i];
        assert(all.take(i + 1).drop_last() =~= all.take(i as int));
        assert(all.take(i + 1).last() == inspection@);
        if let Some(v) = inspection.state.get("environments") {
            if let Some(items) = v.as_array() {
                put_environments(&mut out, items, inspection.status);
            }
        }
        i += 1;
    }
    assert(all.take(all.len() as int) =~= all);
    assert(summary_views(out@).len() == out@.len());
    if out.len() > 0 {
        return out;
    }
    let mut out: Vec<EnvironmentSummaryView> = Vec::new();
    let mut i: usize = 0;
    assert(all.take(0) =~= Seq::<InspectV>::empty());
    assert(summary_views(out@) =~= Seq::<SummaryV>::empty());
    while i < inspections.len()
        invariant
            i <= inspections@.len(),
            all == inspect_views(inspections@),
            summary_views(out@) == machines(all.take(i as int)),
        decreases inspections.len() - i,
    {
        let inspection = &inspections[i];
        assert(all.take(i + 1).drop_last() =~= all.take(i as int));
        assert(all.take(i + 1).last() == inspection@);
        if let Some(v) = inspection.state.get("targets") {
            if let Some(items) = v.as_array() {
                put_machines(&mut out, items, inspection.status);
            }
        }
        i += 1;
    }
    assert(all.take(all.len() as int) =~= all);
    out
}

// ---------------------------------------------------------------------------
// Lines
// ---------------------------------------------------------------------------

/// A text filled up with spaces to a width.
pub open spec fn padded(s: Seq<char>, width: nat) -> Seq<char> {
    s + Seq::new(
        if s.len() < width {
            (width - s.len()) as nat
        } else {
            0
        },
        |i: int| ' ',
    )
}

/// Fills a text up with spaces to a width.
pub fn pad(s: &str, width: usize) -> (r: String)
    ensures
        r@ == padded(s@, width as nat),
{
    let chars = text::chars_of(s);
    let mut out = s.to_owned();
    let mut n: usize = chars.len();
    assert(s@ + Seq::new(0nat, |i: int| ' ') =~= s@);
    while n < width
        invariant
            s@.len() <= n,
            n <= width || n == s@.len(),
            out@ == s@ + Seq::new((n - s@.len()) as nat, |i: int| ' '),
        decreases width - n,
    {
        out.push(' ');
        n += 1;
        assert(out@ =~= s@ + Seq::new((n - s@.len()) as nat, |i: int| ' '));
    }
    assert(out@ =~= padded(s@, width as nat));
    out
}

/// What marks a destructive action.
pub open spec fn mark_of(destructive: bool) -> Seq<char> {
    if destructive {
        " [destructive]"@
    } else {
        ""@
    }
}

/// What marks a destructive action.
fn mark(destructive: bool) -> (r: &'static str)
    ensures
        r@ == mark_of(destructive),
{
    if destructive {
        " [destructive]"
    } else {
        ""
    }
}

/// Appends a line.
pub fn push_line(lines: &mut Vec<String>, line: String)
    ensures
        text::texts(final(lines)@) == text::texts(old(lines)@).push(line@),
{
    let ghost before = lines@;
    lines.push(line);
    assert(text::texts(lines@) =~= text::texts(before).push(line@));
}

/// The plain lines of a plugin's actions.
pub open spec fn plain_actions(capability: Seq<char>, actions: Seq<ActionView>) -> Seq<Seq<char>> {
    Seq::new(
        actions.len(),
        |i: int|
            "  "@ + padded(capability, 9) + " "@ + actions[i].summary@ + mark_of(actions[i].destructive),
    )
}

/// The plain lines of a plan's plugins.
pub open spec fn plain_plugins(plugins: Seq<PluginPlanView>) -> Seq<Seq<char>>
    decreases plugins.len(),
{
    if plugins.len() == 0 {
        Seq::empty()
    } else {
        plain_plugins(plugins.drop_last()) + plain_actions(
            plugins.last().capability@,
            plugins.last().actions@,
        )
    }
}

/// The plain lines of a plan.
pub open spec fn plain_plan(plan: PlanView) -> Seq<Seq<char>> {
    seq![
        plan.operation@ + " "@ + plan.environment_id@ + " ("@ + plan.branch@ + "/"@ + plan.profile@ + ")"@,
    ] + plain_plugins(plan.plugins@)
}

/// The plain lines of a plan.
pub fn render_plain_plan(plan: &PlanView) -> (r: Vec<String>)
    ensures
        text::texts(r@) == plain_plan(*plan),
{
    let mut lines: Vec<String> = Vec::new();
    let head = text::cat5(plan.operation, " ", plan.environment_id.as_str(), " (", plan.branch.as_str());
    lines.push(text::cat4(head.as_str(), "/", plan.profile.as_str(), ")"));
    let ghost plugins = plan.plugins@;
    let ghost first = seq![
        plan.operation@ + " "@ + plan.environment_id@ + " ("@ + plan.branch@ + "/"@ + plan.profile@ + ")"@,
    ];
    let mut i: usize = 0;
    assert(plugins.take(0) =~= Seq::<PluginPlanView>::empty());
    assert(text::texts(lines@) =~= first + plain_plugins(plugins.take(0)));
    while i < plan.plugins.len()
        invariant
            i <= plan.plugins@.len(),
            plugins == plan.plugins@,
            text::texts(lines@) == first + plain_plugins(plugins.take(i as int)),
        decreases plan.plugins.len() - i,
    {
        let plugin = &plan.plugins[i];
        let ghost before = text::texts(lines@);
        let ghost all = plain_actions(plugin.capability@, plugin.actions@);
        let mut j: usize = 0;
        assert(all.take(0) =~= Seq::<Seq<char>>::empty());
        assert(before + Seq::<Seq<char>>::empty() =~= before);
        while j < plugin.actions.len()
            invariant
                j <= plugin.actions@.len(),
                all == plain_actions(plugin.capability@, plugin.actions@),
                text::texts(lines@) == before + all.take(j as int),
            decreases plugin.actions.len() - j,
        {
            let action = &plugin.actions[j];
            let line = text::cat5(
                "  ",
                pad(plugin.capability.as_str(), 9).as_str(),
                " ",
                action.summary.as_str(),
                mark(action.destructive),
            );
            push_line(&mut lines, line);
            assert(before + all.take(j + 1) =~= (before + all.take(j as int)).push(all[j as int]));
            j += 1;
        }
        proof {
            assert(all.take(all.len() as int) =~= all);
            assert(plugins.take(i + 1).drop_last() =~= plugins.take(i as int));
            assert(plugins.take(i + 1).last() == *plugin);
            assert(first + plain_plugins(plugins.take(i + 1)) =~= before + all);
        }
        i += 1;
    }
    assert(plugins.take(plugins.len() as int) =~= plugins);
    lines
}

/// The lines of a plugin's actions for people.
pub open spec fn human_actions(actions: Seq<ActionView>) -> Seq<Seq<char>> {
    Seq::new(actions.len(), |i: int| "  - "@ + actions[i].summary@ + mark_of(actions[i].destructive))
}

/// The lines of a plan's actions for people.
pub open spec fn human_plugins(plugins: Seq<PluginPlanView>) -> Seq<Seq<char>>
    decreases plugins.len(),
{
    if plugins.len() == 0 {
        Seq::empty()
    } else {
        human_plugins(plugins.drop_last()) + human_actions(plugins.last().actions@)
    }
}

/// The lines of a plan for people: no identifiers of the engine, one line where nothing
/// changes, and a hint where a plugin gives no details.
pub open spec fn human_plan(plan: PlanView) -> Seq<Seq<char>> {
    let head = seq!["Plan: "@ + plan.operation@ + " "@ + plan.branch@ + " / "@ + plan.profile@];
    if !plan.has_changes {
        head.push("  No changes"@)
    } else if human_plugins(plan.plugins@).len() == 0 {
        head.push("  Changes reported; use -o json for plugin details"@)
    } else {
        head + human_plugins(plan.plugins@)
    }
}

/// The lines of a plan for people.
pub fn render_human_plan(plan: &PlanView) -> (r: Vec<String>)
    ensures
        text::texts(r@) == human_plan(*plan),
{
    let mut lines: Vec<String> = Vec::new();
    let head = text::cat5("Plan: ", plan.operation, " ", plan.branch.as_str(), " / ");
    lines.push(text::cat2(head.as_str(), plan.profile.as_str()));
    let ghost first = seq!["Plan: "@ + plan.operation@ + " "@ + plan.branch@ + " / "@ + plan.profile@];
    assert(text::texts(lines@) =~= first);
    if !plan.has_changes {
        push_line(&mut lines, "  No changes".to_owned());
        return lines;
    }
    let ghost plugins = plan.plugins@;
    let mut i: usize = 0;
    assert(plugins.take(0) =~= Seq::<PluginPlanView>::empty());
    assert(text::texts(lines@) =~= first + human_plugins(plugins.take(0)));
    while i < plan.plugins.len()
        invariant
            i <= plan.plugins@.len(),
            plugins == plan.plugins@,
            text::texts(lines@) == first + human_plugins(plugins.take(i as int)),
        decreases plan.plugins.len() - i,
    {
        let plugin = &plan.plugins[i];
        let ghost before = text::texts(lines@);
        let ghost all = human_actions(plugin.actions@);
        let mut j: usize = 0;
        assert(all.take(0) =~= Seq::<Seq<char>>::empty());
        assert(before + Seq::<Seq<char>>::empty() =~= before);
        while j < plugin.actions.len()
            invariant
                j <= plugin.actions@.len(),
                all == human_actions(plugin.actions@),
                text::texts(lines@) == before + all.take(j as int),
            decreases plugin.actions.len() - j,
        {
            let action = &plugin.actions[j];
            push_line(&mut lines, text::cat3("  - ", action.summary.as_str(), mark(action.destructive)));
            assert(before + all.take(j + 1) =~= (before + all.take(j as int)).push(all[j as int]));
            j += 1;
        }
        proof {
            assert(all.take(all.len() as int) =~= all);
            assert(plugins.take(i + 1).drop_last() =~= plugins.take(i as int));
            assert(plugins.take(i + 1).last() == *plugin);
            assert(first + human_plugins(plugins.take(i + 1)) =~= before + all);
        }
        i += 1;
    }
    assert(plugins.take(plugins.len() as int) =~= plugins);
    assert(text::texts(lines@).len() == lines@.len());
    if lines.len() == 1 {
        push_line(&mut lines, "  Changes reported; use -o json for plugin details".to_owned());
        assert(first + human_plugins(plugins) =~= first);
    }
    lines
}

/// The lines of a plan; a machine-readable plan is a document of its own.
pub fn plan_lines(plan: &PlanView, format: OutputFormat) -> (r: Option<Vec<String>>)
    ensures
        match r {
            None => format == OutputFormat::Json,
            Some(lines) => match format {
                OutputFormat::Json => false,
                OutputFormat::Plain => text::texts(lines@) == plain_plan(*plan),
                OutputFormat::Human => text::texts(lines@) == human_plan(*plan),
            },
        },
{
    match format {
        OutputFormat::Json => None,
        OutputFormat::Plain => Some(render_plain_plan(plan)),
        OutputFormat::Human => Some(render_human_plan(plan)),
    }
}

/// The URLs of addresses, a line each.
fn push_urls(lines: &mut Vec<String>, endpoints: &Vec<Endpoint>)
    ensures
        text::texts(final(lines)@) == text::texts(old(lines)@) + urls(models::endpoint_views(endpoints@)),
{
    let ghost before = text::texts(lines@);
    let ghost all = urls(models::endpoint_views(endpoints@));
    let mut i: usize = 0;
    assert(before + all.take(0) =~= before);
    while i < endpoints.len()
        invariant
            i <= endpoints@.len(),
            all == urls(models::endpoint_views(endpoints@)),
            text::texts(lines@) == before + all.take(i as int),
        decreases endpoints.len() - i,
    {
        push_line(lines, endpoints[i].url.clone());
        assert(all[i as int] == endpoints@[i as int].url@);
        assert(before + all.take(i + 1) =~= (before + all.take(i as int)).push(all[i as int]));
        i += 1;
    }
    assert(all.take(all.len() as int) =~= all);
}

/// The plain lines of several environments.
pub open spec fn plain_environments(items: Seq<EnvironmentSummaryView>) -> Seq<Seq<char>>
    decreases items.len(),
{
    if items.len() == 0 {
        Seq::empty()
    } else {
        plain_environments(items.drop_last()).push(
            items.last().environment_id@ + "\t"@ + status_text(items.last().status),
        ) + urls(models::endpoint_views(items.last().endpoints@))
    }
}

/// The plain lines of an environment.
pub open spec fn plain_environment(environment: EnvironmentView) -> Seq<Seq<char>> {
    if environment.environments@.len() > 0 {
        plain_environments(environment.environments@)
    } else {
        seq![status_text(environment.status)] + urls(models::endpoint_views(environment.endpoints@))
    }
}

/// The plain lines of an environment.
pub fn render_plain_environment(environment: &EnvironmentView) -> (r: Vec<String>)
    ensures
        text::texts(r@) == plain_environment(*environment),
{
    let mut lines: Vec<String> = Vec::new();
    if environment.environments.len() == 0 {
        lines.push(human_status(environment.status).to_owned());
        assert(text::texts(lines@) =~= seq![status_text(environment.status)]);
        push_urls(&mut lines, &environment.endpoints);
        return lines;
    }
    let ghost all = environment.environments@;
    let mut i: usize = 0;
    assert(all.take(0) =~= Seq::<EnvironmentSummaryView>::empty());
    assert(text::texts(lines@) =~= Seq::<Seq<char>>::empty());
    while i < environment.environments.len()
        invariant
            i <= environment.environments@.len(),
            all == environment.environments@,
            text::texts(lines@) == plain_environments(all.take(i as int)),
        decreases environment.environments.len() - i,
    {
        let item = &environment.environments[i];
        proof {
            assert(all.take(i + 1).drop_last() =~= all.take(i as int));
            assert(all.take(i + 1).last() == *item);
        }
        push_line(
            &mut lines,
            text::cat3(item.environment_id.as_str(), "\t", human_status(item.status)),
        );
        push_urls(&mut lines, &item.endpoints);
        i += 1;
    }
    assert(all.take(all.len() as int) =~= all);
    lines
}

/// A label that says something.
pub open spec fn known(s: Option<Seq<char>>) -> Option<Seq<char>> {
    match s {
        Some(s) => if text::trimmed(s).len() > 0 && text::trimmed(s) != "unknown"@ {
            Some(text::trimmed(s))
        } else {
            None
        },
        None => None,
    }
}

/// A label that says something.
pub fn known_label(s: Option<&str>) -> (r: Option<String>)
    ensures
        text::option_of(r) == known(
            match s {
                Some(s) => Some(s@),
                None => None,
            },
        ),
{
    match s {
        Some(s) => {
            let trimmed = text::trim(s);
            if !trimmed.as_str().is_empty() && !text::same(trimmed.as_str(), "unknown") {
                Some(trimmed)
            } else {
                None
            }
        },
        None => None,
    }
}

/// How people call an environment: by branch and profile, else by its identifier.
pub open spec fn label_of(id: Seq<char>, branch: Option<Seq<char>>, profile: Option<Seq<char>>) -> Seq<char> {
    match (known(branch), known(profile)) {
        (Some(branch), Some(profile)) => branch + " / "@ + profile,
        _ => id,
    }
}

/// How people call an environment.
pub fn human_environment_label(environment_id: &str, branch: Option<&str>, profile: Option<&str>) -> (r: String)
    ensures
        r@ == label_of(
            environment_id@,
            match branch {
                Some(s) => Some(s@),
                None => None,
            },
            match profile {
                Some(s) => Some(s@),
                None => None,
            },
        ),
{
    match (known_label(branch), known_label(profile)) {
        (Some(branch), Some(profile)) => text::cat3(branch.as_str(), " / ", profile.as_str()),
        _ => environment_id.to_owned(),
    }
}

/// The lines of addresses for people.
pub open spec fn human_endpoints(endpoints: Seq<EndpointV>, indent: Seq<char>) -> Seq<Seq<char>> {
    Seq::new(endpoints.len(), |i: int| indent + padded(endpoints[i].app, 16) + " "@ + endpoints[i].url)
}

/// Appends the lines of addresses for people.
fn push_endpoints(lines: &mut Vec<String>, endpoints: &Vec<Endpoint>, indent: &str)
    ensures
        text::texts(final(lines)@) == text::texts(old(lines)@) + human_endpoints(
            models::endpoint_views(endpoints@),
            indent@,
        ),
{
    let ghost before = text::texts(lines@);
    let ghost all = human_endpoints(models::endpoint_views(endpoints@), indent@);
    let mut i: usize = 0;
    assert(before + all.take(0) =~= before);
    while i < endpoints.len()
        invariant
            i <= endpoints@.len(),
            all == human_endpoints(models::endpoint_views(endpoints@), indent@),
            text::texts(lines@) == before + all.take(i as int),
        decreases endpoints.len() - i,
    {
        let e = &endpoints[i];
        assert(models::endpoint_views(endpoints@)[i as int] == e@);
        push_line(lines, text::cat4(indent, pad(e.app.as_str(), 16).as_str(), " ", e.url.as_str()));
        assert(before + all.take(i + 1) =~= (before + all.take(i as int)).push(all[i as int]));
        i += 1;
    }
    assert(all.take(all.len() as int) =~= all);
}

/// The lines of an environment for people.
pub open spec fn human_environment(
    id: Seq<char>,
    branch: Option<Seq<char>>,
    profile: Option<Seq<char>>,
    status: ResourceStatus,
    endpoints: Seq<EndpointV>,
) -> Seq<Seq<char>> {
    let body = seq![label_of(id, branch, profile) + "  "@ + status_text(status)] + human_endpoints(
        endpoints,
        "  "@,
    );
    if status == ResourceStatus::Absent {
        body.push("  Next: run lightrail up"@)
    } else {
        body
    }
}

/// Appends the lines of an environment for people.
fn push_human_environment(
    lines: &mut Vec<String>,
    environment_id: &str,
    branch: Option<&str>,
    profile: Option<&str>,
    status: ResourceStatus,
    endpoints: &Vec<Endpoint>,
)
    ensures
        text::texts(final(lines)@) == text::texts(old(lines)@) + human_environment(
            environment_id@,
            match branch {
                Some(s) => Some(s@),
                None => None,
            },
            match profile {
                Some(s) => Some(s@),
                None => None,
            },
            status,
            models::endpoint_views(endpoints@),
        ),
{
    let ghost before = text::texts(lines@);
    let label = human_environment_label(environment_id, branch, profile);
    push_line(lines, text::cat3(label.as_str(), "  ", human_status(status)));
    push_endpoints(lines, endpoints, "  ");
    if status == ResourceStatus::Absent {
        push_line(lines, "  Next: run lightrail up".to_owned());
    }
    proof {
        let b = match branch {
            Some(s) => Some(s@),
            None => None,
        };
        let p = match profile {
            Some(s) => Some(s@),
            None => None,
        };
        assert(text::texts(lines@) =~= before + human_environment(
            environment_id@,
            b,
            p,
            status,
            models::endpoint_views(endpoints@),
        ));
    }
}

/// The lines of several environments for people.
pub open spec fn human_environments(items: Seq<SummaryV>) -> Seq<Seq<char>>
    decreases items.len(),
{
    if items.len() == 0 {
        Seq::empty()
    } else {
        human_environments(items.drop_last()) + human_environment(
            items.last().environment_id,
            items.last().branch,
            items.last().profile,
            items.last().status,
            items.last().endpoints,
        )
    }
}

/// The lines of what is known of environments, for people.
pub open spec fn human_view(environment: EnvironmentView) -> Seq<Seq<char>> {
    if environment.environments@.len() > 0 {
        human_environments(summary_views(environment.environments@))
    } else {
        human_environment(
            environment.environment_id@,
            Some(environment.branch@),
            Some(environment.profile@),
            environment.status,
            models::endpoint_views(environment.endpoints@),
        )
    }
}

/// The reference to a text that may be there.
fn borrowed(s: &Option<String>) -> (r: Option<&str>)
    ensures
        (match r {
            Some(s) => Some(s@),
            None => None,
        }) == text::option_of(*s),
{
    match s {
        Some(s) => Some(s.as_str()),
        None => None,
    }
}

/// The lines of what is known of environments, for people.
pub fn render_human_environment(environment: &EnvironmentView) -> (r: Vec<String>)
    ensures
        text::texts(r@) == human_view(*environment),
{
    let mut lines: Vec<String> = Vec::new();
    assert(text::texts(lines@) =~= Seq::<Seq<char>>::empty());
    if environment.environments.len() == 0 {
        push_human_environment(
            &mut lines,
            environment.environment_id.as_str(),
            Some(environment.branch.as_str()),
            Some(environment.profile.as_str()),
            environment.status,
            &environment.endpoints,
        );
        assert(text::texts(lines@) =~= human_view(*environment));
        return lines;
    }
    let ghost all = summary_views(environment.environments@);
    let mut i: usize = 0;
    assert(all.take(0) =~= Seq::<SummaryV>::empty());
    while i < environment.environments.len()
        invariant
            i <= environment.environments@.len(),
            all == summary_views(environment.environments@),
            text::texts(lines@) == human_environments(all.take(i as int)),
        decreases environment.environments.len() - i,
    {
        let item = &environment.environments[i];
        proof {
            assert(all.take(i + 1).drop_last() =~= all.take(i as int));
            assert(all.take(i + 1).last() == item@);
        }
        push_human_environment(
            &mut lines,
            item.environment_id.as_str(),
            borrowed(&item.branch),
            borrowed(&item.profile),
            item.status,
            &item.endpoints,
        );
        i += 1;
    }
    assert(all.take(all.len() as int) =~= all);
    lines
}

/// The lines of what is known of environments; a machine-readable view is a document of its
/// own.
pub fn environment_lines(environment: &EnvironmentView, format: OutputFormat) -> (r: Option<Vec<String>>)
    ensures
        match r {
            None => format == OutputFormat::Json,
            Some(lines) => match format {
                OutputFormat::Json => false,
                OutputFormat::Plain => text::texts(lines@) == plain_environment(*environment),
                OutputFormat::Human => text::texts(lines@) == human_view(*environment),
            },
        },
{
    match format {
        OutputFormat::Json => None,
        OutputFormat::Plain => Some(render_plain_environment(environment)),
        OutputFormat::Human => Some(render_human_environment(environment)),
    }
}

// ---------------------------------------------------------------------------
// Addresses and logs
// ---------------------------------------------------------------------------

/// A text that may be there as a value.
pub open spec fn text_or_null(s: Option<Seq<char>>) -> DataV {
    match s {
        Some(s) => DataV::Str(s),
        None => DataV::Null,
    }
}

/// A text that may be there as a value.
pub fn nullable(s: &Option<String>) -> (r: Data)
    ensures
        r@ == text_or_null(text::option_of(*s)),
{
    match s {
        Some(s) => Data::text(s.as_str()),
        None => Data::Null,
    }
}

/// The address of an application in one environment among several.
pub open spec fn environment_url(s: SummaryV, e: EndpointV) -> DataV {
    DataV::Object(
        seq![
            ("app"@, DataV::Str(e.app)),
            ("branch"@, text_or_null(s.branch)),
            ("environment_id"@, DataV::Str(s.environment_id)),
            ("profile"@, text_or_null(s.profile)),
            ("url"@, DataV::Str(e.url)),
        ],
    )
}

/// The addresses of one environment among several.
pub open spec fn environment_urls(s: SummaryV) -> Seq<DataV> {
    Seq::new(s.endpoints.len(), |i: int| environment_url(s, s.endpoints[i]))
}

/// The addresses of several environments.
pub open spec fn aggregate_urls(items: Seq<SummaryV>) -> Seq<DataV>
    decreases items.len(),
{
    if items.len() == 0 {
        Seq::empty()
    } else {
        aggregate_urls(items.drop_last()) + environment_urls(items.last())
    }
}

/// The address of an application on its own.
pub open spec fn endpoint_value(e: EndpointV) -> DataV {
    DataV::Object(seq![("app"@, DataV::Str(e.app)), ("url"@, DataV::Str(e.url))])
}

/// The addresses of applications on their own.
pub open spec fn endpoint_values(endpoints: Seq<EndpointV>) -> Seq<DataV> {
    Seq::new(endpoints.len(), |i: int| endpoint_value(endpoints[i]))
}

/// The address of an application in one environment among several.
fn environment_url_value(s: &EnvironmentSummaryView, e: &Endpoint) -> (r: Data)
    ensures
        r@ == environment_url(s@, e@),
{
    broadcast use value::lemma_object_view;

    let mut out: Vec<(String, Data)> = Vec::new();
    out.push(("app".to_owned(), Data::text(e.app.as_str())));
    out.push(("branch".to_owned(), nullable(&s.branch)));
    out.push(("environment_id".to_owned(), Data::text(s.environment_id.as_str())));
    out.push(("profile".to_owned(), nullable(&s.profile)));
    out.push(("url".to_owned(), Data::text(e.url.as_str())));
    assert(value::entry_views(out@) =~= environment_url(s@, e@)->Object_0);
    Data::Object(out)
}

/// The addresses of several environments.
fn aggregate_url_values(items: &Vec<EnvironmentSummaryView>) -> (r: Vec<Data>)
    ensures
        value::item_views(r@) == aggregate_urls(summary_views(items@)),
{
    let ghost all = summary_views(items@);
    let mut out: Vec<Data> = Vec::new();
    let mut i: usize = 0;
    assert(all.take(0) =~= Seq::<SummaryV>::empty());
    assert(value::item_views(out@) =~= Seq::<DataV>::empty());
    while i < items.len()
        invariant
            i <= items@.len(),
            all == summary_views(items@),
            value::item_views(out@) == aggregate_urls(all.take(i as int)),
        decreases items.len() - i,
    {
        let item = &items[i];
        let ghost before = value::item_views(out@);
        let ghost here = environment_urls(item@);
        proof {
            assert(all.take(i + 1).drop_last() =~= all.take(i as int));
            assert(all.take(i + 1).last() == item@);
            assert(before + here.take(0) =~= before);
        }
        let mut j: usize = 0;
        while j < item.endpoints.len()
            invariant
                j <= item.endpoints@.len(),
                here == environment_urls(item@),
                value::item_views(out@) == before + here.take(j as int),
            decreases item.endpoints.len() - j,
        {
            let ghost earlier = out@;
            let v = environment_url_value(item, &item.endpoints[j]);
            out.push(v);
            proof {
                assert(item@.endpoints[j as int] == item.endpoints@[j as int]@);
                assert(value::item_views(out@) =~= value::item_views(earlier).push(v@));
                assert(before + here.take(j + 1) =~= (before + here.take(j as int)).push(here[j as int]));
            }
            j += 1;
        }
        assert(here.take(here.len() as int) =~= here);
        i += 1;
    }
    assert(all.take(all.len() as int) =~= all);
    out
}

/// The address of an application on its own.
fn endpoint_data(e: &Endpoint) -> (r: Data)
    ensures
        r@ == endpoint_value(e@),
{
    broadcast use value::lemma_object_view;

    let mut entries: Vec<(String, Data)> = Vec::new();
    entries.push(("app".to_owned(), Data::text(e.app.as_str())));
    entries.push(("url".to_owned(), Data::text(e.url.as_str())));
    assert(value::entry_views(entries@) =~= endpoint_value(e@)->Object_0);
    Data::Object(entries)
}

/// The addresses of applications on their own.
fn plain_url_values(endpoints: &Vec<Endpoint>) -> (r: Vec<Data>)
    ensures
        value::item_views(r@) == endpoint_values(models::endpoint_views(endpoints@)),
{
    let mut out: Vec<Data> = Vec::new();
    let mut i: usize = 0;
    while i < endpoints.len()
        invariant
            i <= endpoints@.len(),
            out@.len() == i,
            forall|k: int| 0 <= k < i ==> (#[trigger] out@[k])@ == endpoint_value(endpoints@[k]@),
        decreases endpoints.len() - i,
    {
        out.push(endpoint_data(&endpoints[i]));
        i += 1;
    }
    assert(value::item_views(out@) =~= endpoint_values(models::endpoint_views(endpoints@)));
    out
}

/// The lines of the addresses of several environments, for people.
pub open spec fn human_aggregate(items: Seq<SummaryV>) -> Seq<Seq<char>>
    decreases items.len(),
{
    if items.len() == 0 {
        Seq::empty()
    } else {
        human_aggregate(items.drop_last()) + human_endpoints(
            items.last().endpoints,
            (match items.last().branch {
                Some(branch) => branch,
                None => "unknown"@,
            }) + "/"@,
        )
    }
}

/// The plain lines of the addresses of several environments.
pub open spec fn plain_aggregate(items: Seq<SummaryV>) -> Seq<Seq<char>>
    decreases items.len(),
{
    if items.len() == 0 {
        Seq::empty()
    } else {
        plain_aggregate(items.drop_last()) + urls(items.last().endpoints)
    }
}

/// What a command shows: a document, or lines.
pub enum Shown {
    Document(Data),
    Lines(Vec<String>),
}

/// What is shown of addresses.
pub open spec fn shows_urls(shown: Shown, environment: EnvironmentView, format: OutputFormat) -> bool {
    let items = summary_views(environment.environments@);
    let own = models::endpoint_views(environment.endpoints@);
    let aggregate = aggregate_urls(items).len() > 0;
    match (shown, format) {
        (Shown::Document(v), OutputFormat::Json) => v@ == DataV::Array(
            if aggregate {
                aggregate_urls(items)
            } else {
                endpoint_values(own)
            },
        ),
        (Shown::Lines(lines), OutputFormat::Plain) => text::texts(lines@) == if aggregate {
            plain_aggregate(items)
        } else {
            urls(own)
        },
        (Shown::Lines(lines), OutputFormat::Human) => text::texts(lines@) == if aggregate {
            human_aggregate(items)
        } else {
            human_endpoints(own, ""@)
        },
        _ => false,
    }
}

/// Shows the addresses of an environment, or of several.
///
/// # Errors
///
/// Returns an error where there is none.
pub fn show_urls(environment: &EnvironmentView, format: OutputFormat) -> (r: Result<Shown, CliError>)
    ensures
        match r {
            Ok(shown) => shows_urls(shown, *environment, format) && (environment.endpoints@.len() > 0
                || aggregate_urls(summary_views(environment.environments@)).len() > 0),
            Err(e) => environment.endpoints@.len() == 0 && aggregate_urls(
                summary_views(environment.environments@),
            ).len() == 0 && e@ == CliErrorV::Operation(
                "environment has no discoverable public URLs; run `lightrail up` to create or update it, or `lightrail status` to inspect it"@,
            ),
        },
{
    broadcast use value::lemma_array_view;

    let values = aggregate_url_values(&environment.environments);
    assert(value::item_views(values@).len() == values@.len());
    let aggregate = values.len() > 0;
    if !aggregate && environment.endpoints.len() == 0 {
        return Err(
            CliError::Operation(
                "environment has no discoverable public URLs; run `lightrail up` to create or update it, or `lightrail status` to inspect it".to_owned(),
            ),
        );
    }
    if format == OutputFormat::Json {
        return Ok(
            Shown::Document(
                Data::Array(
                    if aggregate {
                        values
                    } else {
                        plain_url_values(&environment.endpoints)
                    },
                ),
            ),
        );
    }
    let mut lines: Vec<String> = Vec::new();
    assert(text::texts(lines@) =~= Seq::<Seq<char>>::empty());
    if !aggregate {
        if format == OutputFormat::Plain {
            push_urls(&mut lines, &environment.endpoints);
            assert(text::texts(lines@) =~= urls(models::endpoint_views(environment.endpoints@)));
        } else {
            push_endpoints(&mut lines, &environment.endpoints, "");
            assert(text::texts(lines@) =~= human_endpoints(
                models::endpoint_views(environment.endpoints@),
                ""@,
            ));
        }
        return Ok(Shown::Lines(lines));
    }
    let ghost all = summary_views(environment.environments@);
    let mut i: usize = 0;
    assert(all.take(0) =~= Seq::<SummaryV>::empty());
    while i < environment.environments.len()
        invariant
            i <= environment.environments@.len(),
            format != OutputFormat::Json,
            all == summary_views(environment.environments@),
            text::texts(lines@) == if format == OutputFormat::Plain {
                plain_aggregate(all.take(i as int))
            } else {
                human_aggregate(all.take(i as int))
            },
        decreases environment.environments.len() - i,
    {
        let item = &environment.environments[i];
        proof {
            assert(all.take(i + 1).drop_last() =~= all.take(i as int));
            assert(all.take(i + 1).last() == item@);
        }
        if format == OutputFormat::Plain {
            push_urls(&mut lines, &item.endpoints);
        } else {
            let branch = match &item.branch {
                Some(branch) => branch.as_str(),
                None => "unknown",
            };
            push_endpoints(&mut lines, &item.endpoints, text::cat2(branch, "/").as_str());
        }
        i += 1;
    }
    assert(all.take(all.len() as int) =~= all);
    Ok(Shown::Lines(lines))
}

/// The line of a log record: its text, after the service for people.
pub open spec fn log_line(record: LogRecord, format: OutputFormat) -> Seq<char> {
    if format == OutputFormat::Human {
        padded(record.service@, 16) + " "@ + record.line@
    } else {
        record.line@
    }
}

/// The lines of log records; machine-readable records are documents of their own.
pub fn log_lines(records: &Vec<LogRecord>, format: OutputFormat) -> (r: Option<Vec<String>>)
    ensures
        match r {
            None => format == OutputFormat::Json,
            Some(lines) => format != OutputFormat::Json && text::texts(lines@) == Seq::new(
                records@.len(),
                |i: int| log_line(records@[i], format),
            ),
        },
{
    if format == OutputFormat::Json {
        return None;
    }
    let mut lines: Vec<String> = Vec::new();
    let mut i: usize = 0;
    while i < records.len()
        invariant
            i <= records@.len(),
            format != OutputFormat::Json,
            lines@.len() == i,
            forall|k: int| 0 <= k < i ==> (#[trigger] lines@[k])@ == log_line(records@[k], format),
        decreases records.len() - i,
    {
        let record = &records[i];
        if format == OutputFormat::Human {
            lines.push(text::cat3(pad(record.service.as_str(), 16).as_str(), " ", record.line.as_str()));
        } else {
            lines.push(record.line.clone());
        }
        i += 1;
    }
    assert(text::texts(lines@) =~= Seq::new(records@.len(), |i: int| log_line(records@[i], format)));
    Some(lines)
}

/// What is combined is one of the parts.
pub proof fn combined_status_is_reported(statuses: Seq<ResourceStatus>)
    requires
        statuses.len() > 0,
    ensures
        statuses.contains(combined(statuses)),
{
    lemma_worst_reported(statuses);
}

/// The gravest is one of the parts.
proof fn lemma_worst_reported(statuses: Seq<ResourceStatus>)
    requires
        statuses.len() > 0,
    ensures
        statuses.contains(worst(statuses)),
    decreases statuses.len(),
{
    let fewer = statuses.drop_last();
    let last = statuses.len() - 1;
    if fewer.len() > 0 {
        lemma_worst_reported(fewer);
        let k = choose|k: int| 0 <= k < fewer.len() && fewer[k] == worst(fewer);
        assert(statuses[k] == worst(fewer));
        assert(statuses[last as int] == statuses.last());
    } else {
        assert(statuses[last as int] == statuses.last());
        assert(worst(fewer) == ResourceStatus::Ready);
        assert(worst(statuses) == statuses[last as int] || rank(statuses[last as int]) <= rank(
            ResourceStatus::Ready,
        ));
    }
}

/// The order of gravity: what is unknown is graver than what is degraded, then what is being
/// destroyed, what is pending, what is absent, and what is ready.
pub proof fn unknown_is_gravest()
    ensures
        rank(ResourceStatus::Unknown) > rank(ResourceStatus::Degraded),
        rank(ResourceStatus::Degraded) > rank(ResourceStatus::Destroying),
        rank(ResourceStatus::Destroying) > rank(ResourceStatus::Pending),
        rank(ResourceStatus::Pending) > rank(ResourceStatus::Absent),
        rank(ResourceStatus::Absent) > rank(ResourceStatus::Ready),
{
}

/// An address that is added is there, and those with other URLs stay.
proof fn lemma_with_endpoint(endpoints: Seq<EndpointV>, e: EndpointV)
    ensures
        with_endpoint(endpoints, e).contains(e),
        forall|x: EndpointV| #[trigger]
            with_endpoint(endpoints, e).contains(x) ==> x == e || endpoints.contains(x),
        forall|x: EndpointV| x.url != e.url && #[trigger] endpoints.contains(x) ==> with_endpoint(
            endpoints,
            e,
        ).contains(x),
{
    let all = with_endpoint(endpoints, e);
    let at = collections::slot(urls(endpoints), e.url);
    collections::lemma_slot(urls(endpoints), e.url);
    assert(all[at] == e);
    assert forall|x: EndpointV| #[trigger] all.contains(x) implies x == e || endpoints.contains(x) by {
        let k = choose|k: int| 0 <= k < all.len() && all[k] == x;
        if k != at {
            if all.len() == endpoints.len() || k < at {
                assert(endpoints[k] == x);
            } else {
                assert(endpoints[k - 1] == x);
            }
        }
    }
    assert forall|x: EndpointV| x.url != e.url && #[trigger] endpoints.contains(x) implies all.contains(x) by {
        let k = choose|k: int| 0 <= k < endpoints.len() && endpoints[k] == x;
        if all.len() == endpoints.len() || k < at {
            assert(all[k] == x);
        } else {
            assert(all[k + 1] == x);
        }
    }
}

/// An address with the URL is among others.
pub open spec fn has_url(endpoints: Seq<EndpointV>, url: Seq<char>) -> bool {
    exists|i: int| 0 <= i < endpoints.len() && (#[trigger] endpoints[i]).url == url
}

/// Adding addresses keeps every URL and adds no other.
proof fn lemma_with_endpoints(endpoints: Seq<EndpointV>, more: Seq<EndpointV>)
    ensures
        forall|url: Seq<char>| #[trigger]
            has_url(with_endpoints(endpoints, more), url) <==> has_url(endpoints, url) || has_url(more, url),
        forall|x: EndpointV| #[trigger]
            with_endpoints(endpoints, more).contains(x) ==> endpoints.contains(x) || more.contains(x),
    decreases more.len(),
{
    let all = with_endpoints(endpoints, more);
    if more.len() > 0 {
        let fewer = more.drop_last();
        let before = with_endpoints(endpoints, fewer);
        let e = more.last();
        lemma_with_endpoints(endpoints, fewer);
        lemma_with_endpoint(before, e);
        assert(more[more.len() - 1] == e);
        assert forall|url: Seq<char>| #[trigger] has_url(all, url) <==> has_url(endpoints, url) || has_url(
            more,
            url,
        ) by {
            if has_url(all, url) {
                let k = choose|k: int| 0 <= k < all.len() && (#[trigger] all[k]).url == url;
                assert(all.contains(all[k]));
                if all[k] == e {
                    assert(more[more.len() - 1].url == url);
                } else {
                    assert(before.contains(all[k]));
                    let j = choose|j: int| 0 <= j < before.len() && before[j] == all[k];
                    assert(has_url(before, url));
                    if has_url(fewer, url) {
                        let m = choose|m: int| 0 <= m < fewer.len() && (#[trigger] fewer[m]).url == url;
                        assert(more[m].url == url);
                    }
                }
            }
            if has_url(endpoints, url) || has_url(more, url) {
                if e.url == url {
                    assert(all.contains(e));
                    let k = choose|k: int| 0 <= k < all.len() && all[k] == e;
                    assert(all[k].url == url);
                } else {
                    if has_url(more, url) {
                        let m = choose|m: int| 0 <= m < more.len() && (#[trigger] more[m]).url == url;
                        assert(fewer[m].url == url);
                    }
                    assert(has_url(before, url));
                    let j = choose|j: int| 0 <= j < before.len() && (#[trigger] before[j]).url == url;
                    assert(before.contains(before[j]));
                    assert(all.contains(before[j]));
                    let k = choose|k: int| 0 <= k < all.len() && all[k] == before[j];
                    assert(all[k].url == url);
                }
            }
        }
        assert forall|x: EndpointV| #[trigger] all.contains(x) implies endpoints.contains(x) || more.contains(x) by {
            if x == e {
                assert(more[more.len() - 1] == x);
            } else {
                assert(before.contains(x));
                if fewer.contains(x) {
                    let m = choose|m: int| 0 <= m < fewer.len() && fewer[m] == x;
                    assert(more[m] == x);
                }
            }
        }
    } else {
        assert forall|url: Seq<char>| #[trigger] has_url(all, url) <==> has_url(endpoints, url) || has_url(
            more,
            url,
        ) by {}
    }
}

/// Every address that any plugin reports is shown, and no address is shown that none reports.
pub proof fn every_reported_address_is_shown(inspections: Seq<InspectV>, url: Seq<char>)
    ensures
        has_url(all_endpoints(inspections), url) <==> exists|i: int|
            0 <= i < inspections.len() && has_url((#[trigger] inspections[i]).endpoints, url),
    decreases inspections.len(),
{
    let all = all_endpoints(inspections);
    if inspections.len() > 0 {
        let fewer = inspections.drop_last();
        let last = inspections.len() - 1;
        every_reported_address_is_shown(fewer, url);
        lemma_with_endpoints(all_endpoints(fewer), inspections.last().endpoints);
        assert(has_url(all, url) <==> has_url(all_endpoints(fewer), url) || has_url(
            inspections.last().endpoints,
            url,
        ));
        if has_url(all_endpoints(fewer), url) {
            let i = choose|i: int| 0 <= i < fewer.len() && has_url((#[trigger] fewer[i]).endpoints, url);
            assert(inspections[i] == fewer[i]);
        }
        if has_url(inspections.last().endpoints, url) {
            assert(has_url(inspections[last as int].endpoints, url));
        }
        if exists|i: int| 0 <= i < inspections.len() && has_url((#[trigger] inspections[i]).endpoints, url) {
            let i = choose|i: int| 0 <= i < inspections.len() && has_url((#[trigger] inspections[i]).endpoints, url);
            if i < last {
                assert(fewer[i] == inspections[i]);
            }
        }
    }
}

/// What a plugin reports of an environment is shown as reported: its identifier, branch, profile,
/// status and expiry. A status that it does not report is that of the whole observation.
pub proof fn environments_are_shown_as_reported(item: DataV, observed: ResourceStatus, id: Seq<char>)
    requires
        item is Object,
        value::field(item, "environment_id"@) == Some(DataV::Str(id)),
    ensures
        environment_in(item, observed) matches Some(s) && {
            &&& s.environment_id == id
            &&& s.branch == value::text_of(value::field(item, "branch"@))
            &&& s.profile == value::text_of(value::field(item, "profile"@))
            &&& value::field(item, "status"@) is None ==> s.status == observed
            &&& value::field(item, "status"@) == Some(DataV::Str("ready"@)) ==> s.status == ResourceStatus::Ready
            &&& value::field(item, "status"@) == Some(DataV::Str("degraded"@)) ==> s.status
                == ResourceStatus::Degraded
            &&& value::field(item, "status"@) == Some(DataV::Str("absent"@)) ==> s.status
                == ResourceStatus::Absent
            &&& value::field(item, "status"@) == Some(DataV::Str("pending"@)) ==> s.status
                == ResourceStatus::Pending
            &&& value::field(item, "status"@) == Some(DataV::Str("destroying"@)) ==> s.status
                == ResourceStatus::Destroying
            &&& value::field(item, "status"@) == Some(DataV::Str("unknown"@)) ==> s.status
                == ResourceStatus::Unknown
            &&& s.expires_at == value::text_of(value::field(item, "expires_at"@))
            &&& s.expires_at_unix == value::count_of(value::field(item, "expires_at_unix"@))
        },
{
    lemma_status_words();
}

/// The words for statuses differ.
proof fn lemma_status_words()
    ensures
        status_named("absent"@) == Some(ResourceStatus::Absent),
        status_named("pending"@) == Some(ResourceStatus::Pending),
        status_named("ready"@) == Some(ResourceStatus::Ready),
        status_named("degraded"@) == Some(ResourceStatus::Degraded),
        status_named("destroying"@) == Some(ResourceStatus::Destroying),
        status_named("unknown"@) == Some(ResourceStatus::Unknown),
{
    reveal_strlit("absent");
    reveal_strlit("pending");
    reveal_strlit("ready");
    reveal_strlit("degraded");
    reveal_strlit("destroying");
    reveal_strlit("unknown");
    assert("absent"@.len() == 6 && "pending"@.len() == 7 && "ready"@.len() == 5 && "degraded"@.len() == 8
        && "destroying"@.len() == 10 && "unknown"@.len() == 7);
    assert("pending"@[0] != "unknown"@[0]);
}

/// Each status is read back from the word that it is shown by.
pub proof fn statuses_are_read_back(status: ResourceStatus)
    ensures
        status_named(status_text(status)) == Some(status),
{
    lemma_status_words();
}

/// Two reports of one environment become one: what either knows is known, the graver of two known
/// statuses counts, and no address is lost.
pub proof fn reports_of_one_environment_are_joined(a: SummaryV, b: SummaryV, url: Seq<char>)
    ensures
        ({
            let s = merged_summary(a, b);
            &&& s.environment_id == a.environment_id
            &&& a.branch is Some ==> s.branch == a.branch
            &&& a.branch is None ==> s.branch == b.branch
            &&& a.profile is Some ==> s.profile == a.profile
            &&& a.profile is None ==> s.profile == b.profile
            &&& a.status == ResourceStatus::Unknown ==> s.status == b.status
            &&& b.status == ResourceStatus::Unknown ==> s.status == a.status
            &&& a.status != ResourceStatus::Unknown && b.status != ResourceStatus::Unknown ==> rank(s.status)
                >= rank(a.status) && rank(s.status) >= rank(b.status) && (s.status == a.status || s.status
                == b.status)
            &&& has_url(s.endpoints, url) <==> has_url(a.endpoints, url) || has_url(b.endpoints, url)
            &&& a.expires_at_unix is Some ==> s.expires_at_unix == a.expires_at_unix
            &&& a.expires_at_unix is None ==> s.expires_at_unix == b.expires_at_unix
            &&& a.expires_at is Some ==> s.expires_at == a.expires_at
            &&& a.expires_at is None ==> s.expires_at == b.expires_at
        }),
{
    let first = with_endpoints(Seq::empty(), a.endpoints);
    lemma_with_endpoints(Seq::empty(), a.endpoints);
    lemma_with_endpoints(first, b.endpoints);
    assert(has_url(first, url) <==> has_url(Seq::empty(), url) || has_url(a.endpoints, url));
    assert(!has_url(Seq::<EndpointV>::empty(), url));
    assert(has_url(with_endpoints(first, b.endpoints), url) <==> has_url(first, url) || has_url(
        b.endpoints,
        url,
    ));
}

/// A machine is ready where its server runs, pending while that starts or moves, and degraded in
/// any other state.
pub proof fn machines_are_as_their_servers(target: DataV, observed: ResourceStatus, s: Seq<char>)
    ensures
        value::field(target, "server_status"@) is None ==> machine_status(target, observed) == observed,
        value::field(target, "server_status"@) == Some(DataV::Str("running"@)) ==> machine_status(target, observed)
            == ResourceStatus::Ready,
        value::field(target, "server_status"@) == Some(DataV::Str("initializing"@)) ==> machine_status(
            target,
            observed,
        ) != ResourceStatus::Ready,
        value::field(target, "server_status"@) == Some(DataV::Str(s)) && machine_status(target, observed)
            == ResourceStatus::Ready ==> s == "running"@,
        value::field(target, "server_status"@) == Some(DataV::Str(s)) && machine_status(target, observed)
            == ResourceStatus::Pending ==> s == "initializing"@ || s == "starting"@ || s == "migrating"@ || s
            == "rebuilding"@,
{
    reveal_strlit("running");
    reveal_strlit("initializing");
    assert("running"@.len() == 7 && "initializing"@.len() == 12);
}

/// What is shown in plain lines of an environment holds its status and every address.
pub proof fn plain_lines_show_status_and_addresses(environment: EnvironmentView, i: int)
    requires
        environment.environments@.len() == 0,
    ensures
        plain_environment(environment).len() == 1 + environment.endpoints@.len(),
        plain_environment(environment)[0] == status_text(environment.status),
        0 <= i < environment.endpoints@.len() ==> plain_environment(environment)[1 + i]
            == environment.endpoints@[i].url@,
{
}

/// The line of an action stands among those of its plugin, and those among all lines.
proof fn lemma_plain_plugin_lines(plugins: Seq<PluginPlanView>, i: int, k: int) -> (at: int)
    requires
        0 <= i < plugins.len(),
        0 <= k < plugins[i].actions@.len(),
    ensures
        0 <= at < plain_plugins(plugins).len(),
        plain_plugins(plugins)[at] == plain_actions(plugins[i].capability@, plugins[i].actions@)[k],
    decreases plugins.len(),
{
    let before = plain_plugins(plugins.drop_last());
    if i == plugins.len() - 1 {
        before.len() + k
    } else {
        lemma_plain_plugin_lines(plugins.drop_last(), i, k)
    }
}

/// The line of an action that people read stands among all lines.
proof fn lemma_human_plugin_lines(plugins: Seq<PluginPlanView>, i: int, k: int) -> (at: int)
    requires
        0 <= i < plugins.len(),
        0 <= k < plugins[i].actions@.len(),
    ensures
        0 <= at < human_plugins(plugins).len(),
        human_plugins(plugins)[at] == human_actions(plugins[i].actions@)[k],
    decreases plugins.len(),
{
    let before = human_plugins(plugins.drop_last());
    if i == plugins.len() - 1 {
        before.len() + k
    } else {
        lemma_human_plugin_lines(plugins.drop_last(), i, k)
    }
}

/// Every planned action has its line, for people where anything changes and plainly in any case,
/// and an action that destroys is marked as such.
pub proof fn planned_actions_are_shown(plan: PlanView, i: int, k: int)
    requires
        0 <= i < plan.plugins@.len(),
        0 <= k < plan.plugins@[i].actions@.len(),
    ensures
        plan.plugins@[i].actions@[k].destructive ==> plain_plan(plan).contains(
            "  "@ + padded(plan.plugins@[i].capability@, 9) + " "@ + plan.plugins@[i].actions@[k].summary@
                + " [destructive]"@,
        ),
        !plan.plugins@[i].actions@[k].destructive ==> plain_plan(plan).contains(
            "  "@ + padded(plan.plugins@[i].capability@, 9) + " "@ + plan.plugins@[i].actions@[k].summary@ + ""@,
        ),
        plan.has_changes && plan.plugins@[i].actions@[k].destructive ==> human_plan(plan).contains(
            "  - "@ + plan.plugins@[i].actions@[k].summary@ + " [destructive]"@,
        ),
        plan.has_changes && !plan.plugins@[i].actions@[k].destructive ==> human_plan(plan).contains(
            "  - "@ + plan.plugins@[i].actions@[k].summary@ + ""@,
        ),
        !plan.has_changes ==> human_plan(plan).last() == "  No changes"@,
        plain_plan(plan)[0] == plan.operation@ + " "@ + plan.environment_id@ + " ("@ + plan.branch@ + "/"@
            + plan.profile@ + ")"@,
        human_plan(plan)[0] == "Plan: "@ + plan.operation@ + " "@ + plan.branch@ + " / "@ + plan.profile@,
{
    let a = lemma_plain_plugin_lines(plan.plugins@, i, k);
    assert(plain_plan(plan)[1 + a] == plain_plugins(plan.plugins@)[a]);
    let b = lemma_human_plugin_lines(plan.plugins@, i, k);
    if plan.has_changes {
        assert(human_plan(plan)[1 + b] == human_plugins(plan.plugins@)[b]);
    }
}

/// People read the status of an environment behind its name, every address of it, and what to do
/// where there is nothing.
pub proof fn people_read_status_and_addresses(
    id: Seq<char>,
    branch: Option<Seq<char>>,
    profile: Option<Seq<char>>,
    status: ResourceStatus,
    endpoints: Seq<EndpointV>,
    i: int,
)
    requires
        0 <= i < endpoints.len(),
    ensures
        human_environment(id, branch, profile, status, endpoints)[0] == label_of(id, branch, profile) + "  "@
            + status_text(status),
        human_environment(id, branch, profile, status, endpoints)[1 + i] == "  "@ + padded(endpoints[i].app, 16)
            + " "@ + endpoints[i].url,
        status == ResourceStatus::Absent ==> human_environment(id, branch, profile, status, endpoints).last()
            == "  Next: run lightrail up"@,
        status != ResourceStatus::Absent ==> human_environment(id, branch, profile, status, endpoints).len() == 1
            + endpoints.len(),
{
}

/// The lines of an environment stand together among those of all environments.
proof fn lemma_human_environments(items: Seq<SummaryV>, i: int) -> (at: int)
    requires
        0 <= i < items.len(),
    ensures
        0 <= at,
        at + human_environment(
            items[i].environment_id,
            items[i].branch,
            items[i].profile,
            items[i].status,
            items[i].endpoints,
        ).len() <= human_environments(items).len(),
        human_environments(items).subrange(
            at,
            at + human_environment(
                items[i].environment_id,
                items[i].branch,
                items[i].profile,
                items[i].status,
                items[i].endpoints,
            ).len(),
        ) == human_environment(
            items[i].environment_id,
            items[i].branch,
            items[i].profile,
            items[i].status,
            items[i].endpoints,
        ),
    decreases items.len(),
{
    let before = human_environments(items.drop_last());
    let own = human_environment(
        items[i].environment_id,
        items[i].branch,
        items[i].profile,
        items[i].status,
        items[i].endpoints,
    );
    let all = human_environments(items);
    if i == items.len() - 1 {
        assert(all.subrange(before.len() as int, (before.len() + own.len()) as int) =~= own);
        before.len() as int
    } else {
        let at = lemma_human_environments(items.drop_last(), i);
        assert(all.subrange(at, at + own.len()) =~= before.subrange(at, at + own.len()));
        at
    }
}

/// Every environment that is shown to people has a line with its status and one with each of its
/// addresses.
pub proof fn people_read_every_environment(environment: EnvironmentView, i: int, k: int)
    requires
        0 <= i < environment.environments@.len(),
        0 <= k < summary_views(environment.environments@)[i].endpoints.len(),
    ensures
        ({
            let item = summary_views(environment.environments@)[i];
            &&& human_view(environment).contains(
                label_of(item.environment_id, item.branch, item.profile) + "  "@ + status_text(item.status),
            )
            &&& human_view(environment).contains(
                "  "@ + padded(item.endpoints[k].app, 16) + " "@ + item.endpoints[k].url,
            )
        }),
{
    let items = summary_views(environment.environments@);
    let item = items[i];
    let own = human_environment(item.environment_id, item.branch, item.profile, item.status, item.endpoints);
    people_read_status_and_addresses(
        item.environment_id,
        item.branch,
        item.profile,
        item.status,
        item.endpoints,
        k,
    );
    let at = lemma_human_environments(items, i);
    let all = human_environments(items);
    assert(all.subrange(at, at + own.len())[0] == all[at]);
    assert(all.subrange(at, at + own.len())[1 + k] == all[at + 1 + k]);
    assert(all[at] == own[0]);
    assert(all[at + 1 + k] == own[1 + k]);
}

/// The addresses of one environment stand among those of all, for each reader.
proof fn lemma_aggregate(items: Seq<SummaryV>, i: int, k: int) -> (at: int)
    requires
        0 <= i < items.len(),
        0 <= k < items[i].endpoints.len(),
    ensures
        0 <= at < aggregate_urls(items).len(),
        aggregate_urls(items).len() == plain_aggregate(items).len(),
        aggregate_urls(items).len() == human_aggregate(items).len(),
        aggregate_urls(items)[at] == environment_url(items[i], items[i].endpoints[k]),
        plain_aggregate(items)[at] == items[i].endpoints[k].url,
        human_aggregate(items)[at] == (match items[i].branch {
            Some(branch) => branch,
            None => "unknown"@,
        }) + "/"@ + padded(items[i].endpoints[k].app, 16) + " "@ + items[i].endpoints[k].url,
    decreases items.len(),
{
    lemma_aggregate_lengths(items);
    lemma_aggregate_lengths(items.drop_last());
    if i == items.len() - 1 {
        aggregate_urls(items.drop_last()).len() + k
    } else {
        lemma_aggregate(items.drop_last(), i, k)
    }
}

/// Each reader gets as many addresses.
proof fn lemma_aggregate_lengths(items: Seq<SummaryV>)
    ensures
        aggregate_urls(items).len() == plain_aggregate(items).len(),
        aggregate_urls(items).len() == human_aggregate(items).len(),
    decreases items.len(),
{
    if items.len() > 0 {
        lemma_aggregate_lengths(items.drop_last());
    }
}

/// Every address of every environment is printed: plainly by itself, for people with the branch
/// and the application, and in a document with the names of both.
pub proof fn every_address_is_printed(shown: Shown, environment: EnvironmentView, format: OutputFormat, i: int, k: int)
    requires
        shows_urls(shown, environment, format),
        0 <= i < environment.environments@.len(),
        0 <= k < summary_views(environment.environments@)[i].endpoints.len(),
    ensures
        ({
            let item = summary_views(environment.environments@)[i];
            let endpoint = item.endpoints[k];
            &&& format == OutputFormat::Plain ==> (shown matches Shown::Lines(lines) && text::texts(lines@).contains(
                endpoint.url,
            ))
            &&& format == OutputFormat::Human ==> (shown matches Shown::Lines(lines) && text::texts(lines@).contains(
                (match item.branch {
                    Some(branch) => branch,
                    None => "unknown"@,
                }) + "/"@ + padded(endpoint.app, 16) + " "@ + endpoint.url,
            ))
            &&& format == OutputFormat::Json ==> (shown matches Shown::Document(document) && (document@
                matches DataV::Array(found) && exists|n: int|
                0 <= n < found.len() && value::field(#[trigger] found[n], "url"@) == Some(DataV::Str(endpoint.url))
                    && value::field(found[n], "app"@) == Some(DataV::Str(endpoint.app)) && value::field(
                    found[n],
                    "environment_id"@,
                ) == Some(DataV::Str(item.environment_id))))
        }),
{
    let items = summary_views(environment.environments@);
    let at = lemma_aggregate(items, i, k);
    lemma_url_fields(items[i], items[i].endpoints[k]);
    assert(plain_aggregate(items).contains(plain_aggregate(items)[at]));
    assert(human_aggregate(items).contains(human_aggregate(items)[at]));
    if format == OutputFormat::Json {
        let found = shown->Document_0@->Array_0;
        assert(found[at] == environment_url(items[i], items[i].endpoints[k]));
    }
}

/// What a document tells of an address.
proof fn lemma_url_fields(s: SummaryV, e: EndpointV)
    ensures
        value::field(environment_url(s, e), "url"@) == Some(DataV::Str(e.url)),
        value::field(environment_url(s, e), "app"@) == Some(DataV::Str(e.app)),
        value::field(environment_url(s, e), "environment_id"@) == Some(DataV::Str(s.environment_id)),
{
    let entries = environment_url(s, e)->Object_0;
    let names = seq!["app"@, "branch"@, "environment_id"@, "profile"@, "url"@];
    lemma_url_names();
    assert(value::names_of(entries) =~= names);
    value::lemma_distinct(entries, names);
    assert(names[0] == "app"@ && names[2] == "environment_id"@ && names[4] == "url"@);
}

/// The names that an address is written with differ.
proof fn lemma_url_names()
    ensures
        seq!["app"@, "branch"@, "environment_id"@, "profile"@, "url"@].no_duplicates(),
{
    reveal_strlit("app");
    reveal_strlit("branch");
    reveal_strlit("environment_id");
    reveal_strlit("profile");
    reveal_strlit("url");
    assert("app"@.len() == 3);
    assert("branch"@.len() == 6);
    assert("environment_id"@.len() == 14);
    assert("profile"@.len() == 7);
    assert("url"@.len() == 3);
    assert("app"@[0] != "url"@[0]);
    let names = seq!["app"@, "branch"@, "environment_id"@, "profile"@, "url"@];
    assert(names[0] == "app"@);
    assert(names[1] == "branch"@);
    assert(names[2] == "environment_id"@);
    assert(names[3] == "profile"@);
    assert(names[4] == "url"@);
    assert forall|i: int, j: int| 0 <= i < names.len() && 0 <= j < names.len() && i != j implies #[trigger] names[i]
        != #[trigger] names[j] by {
        assert(i == 0 || i == 1 || i == 2 || i == 3 || i == 4);
        assert(j == 0 || j == 1 || j == 2 || j == 3 || j == 4);
    }
}

/// A line of a log is shown as it is; people see the service before it.
pub proof fn log_lines_are_kept(record: LogRecord, format: OutputFormat)
    ensures
        format != OutputFormat::Human ==> log_line(record, format) == record.line@,
        format == OutputFormat::Human ==> log_line(record, format) == padded(record.service@, 16) + " "@
            + record.line@,
{
}

/// A machine is known by its environment, else by its label, else by the number of its server.
pub proof fn machines_are_known_by_their_environment(target: DataV)
    ensures
        value::field(target, "environment_id"@) matches Some(DataV::Str(id)) ==> machine_name(target) == Some(id),
        !(value::field(target, "environment_id"@) matches Some(DataV::Str(_))) ==> (value::field(
            target,
            "environment_label"@,
        ) matches Some(DataV::Str(label)) ==> machine_name(target) == Some(label)),
        !(value::field(target, "environment_id"@) matches Some(DataV::Str(_))) && !(value::field(
            target,
            "environment_label"@,
        ) matches Some(DataV::Str(_))) ==> (value::count_of(value::field(target, "server_id"@)) matches Some(n)
            ==> machine_name(target) == Some("hetzner-server-"@ + text::decimal(n as nat))),
{
}

/// A summary that is added is there under its name, and so is every one that was there.
proof fn lemma_with_summary(items: Seq<SummaryV>, s: SummaryV, merging: bool)
    ensures
        summary_ids(with_summary(items, s, merging)).contains(s.environment_id),
        forall|id: Seq<char>| #[trigger]
            summary_ids(items).contains(id) ==> summary_ids(with_summary(items, s, merging)).contains(id),
{
    let ids = summary_ids(items);
    let after = with_summary(items, s, merging);
    collections::lemma_slot(ids, s.environment_id);
    let at = collections::slot(ids, s.environment_id);
    assert(summary_ids(after)[at] == s.environment_id);
    assert forall|id: Seq<char>| #[trigger] ids.contains(id) implies summary_ids(after).contains(id) by {
        let k = choose|k: int| 0 <= k < ids.len() && ids[k] == id;
        if after.len() == items.len() || k < at {
            assert(summary_ids(after)[k] == id);
        } else {
            assert(summary_ids(after)[k + 1] == id);
        }
    }
}

/// Environments that are added are there, and so is every one that was there.
proof fn lemma_with_environments(items: Seq<SummaryV>, found: Seq<DataV>, observed: ResourceStatus)
    ensures
        forall|id: Seq<char>| #[trigger]
            summary_ids(items).contains(id) ==> summary_ids(with_environments(items, found, observed)).contains(id),
        forall|k: int|
            0 <= k < found.len() ==> (environment_in(#[trigger] found[k], observed) matches Some(s) ==> summary_ids(
                with_environments(items, found, observed),
            ).contains(s.environment_id)),
    decreases found.len(),
{
    if found.len() > 0 {
        let fewer = found.drop_last();
        lemma_with_environments(items, fewer, observed);
        let before = with_environments(items, fewer, observed);
        if let Some(s) = environment_in(found.last(), observed) {
            lemma_with_summary(before, s, true);
        }
        assert forall|k: int| 0 <= k < found.len() implies (environment_in(#[trigger] found[k], observed) matches Some(
            s,
        ) ==> summary_ids(with_environments(items, found, observed)).contains(s.environment_id)) by {
            if k < fewer.len() {
                assert(fewer[k] == found[k]);
            }
        }
    }
}

/// Every environment that some plugin lists under `environments` is among the summaries.
pub proof fn every_listed_environment_is_summarized(inspections: Seq<InspectV>, i: int, k: int)
    requires
        0 <= i < inspections.len(),
        value::field(inspections[i].state, "environments"@) matches Some(DataV::Array(items)) && 0 <= k < items.len()
            && (value::field(items[k], "environment_id"@) matches Some(DataV::Str(_))),
    ensures
        ({
            let items = value::field(inspections[i].state, "environments"@)->0->Array_0;
            let id = value::field(items[k], "environment_id"@)->0->Str_0;
            exists|n: int|
                0 <= n < summaries(inspections).len() && (#[trigger] summaries(inspections)[n]).environment_id == id
        }),
{
    let items = value::field(inspections[i].state, "environments"@)->0->Array_0;
    let id = value::field(items[k], "environment_id"@)->0->Str_0;
    lemma_listed(inspections, i, k);
    let n = choose|n: int|
        0 <= n < summary_ids(listed(inspections)).len() && summary_ids(listed(inspections))[n] == id;
    assert(summaries(inspections)[n].environment_id == id);
}

/// A listed environment stays listed.
proof fn lemma_listed(inspections: Seq<InspectV>, i: int, k: int)
    requires
        0 <= i < inspections.len(),
        value::field(inspections[i].state, "environments"@) matches Some(DataV::Array(items)) && 0 <= k < items.len()
            && (value::field(items[k], "environment_id"@) matches Some(DataV::Str(_))),
    ensures
        summary_ids(listed(inspections)).contains(
            value::field(
                value::field(inspections[i].state, "environments"@)->0->Array_0[k],
                "environment_id"@,
            )->0->Str_0,
        ),
    decreases inspections.len(),
{
    let before = listed(inspections.drop_last());
    let last = inspections.last();
    if let Some(DataV::Array(found)) = value::field(last.state, "environments"@) {
        lemma_with_environments(before, found, last.status);
    }
    if i < inspections.len() - 1 {
        lemma_listed(inspections.drop_last(), i, k);
    } else {
        let items = value::field(inspections[i].state, "environments"@)->0->Array_0;
        assert(environment_in(items[k], last.status) is Some);
    }
}

/// A padded text starts with the text, goes on with spaces alone, and is at least as wide as
/// asked.
pub proof fn padding_adds_spaces(s: Seq<char>, width: nat)
    ensures
        padded(s, width).len() >= width,
        padded(s, width).take(s.len() as int) =~= s,
        forall|i: int| s.len() <= i < padded(s, width).len() ==> #[trigger] padded(s, width)[i] == ' ',
        s.len() >= width ==> padded(s, width) =~= s,
{
}

/// A server that is on its way up is pending, one that runs is ready, one that does anything else
/// is degraded, and one that says nothing is as it was observed.
pub proof fn servers_on_their_way_are_pending(target: DataV, observed: ResourceStatus)
    ensures
        value::field(target, "server_status"@) == Some(DataV::Str("running"@)) ==> machine_status(target, observed)
            == ResourceStatus::Ready,
        value::field(target, "server_status"@) == Some(DataV::Str("initializing"@)) ==> machine_status(
            target,
            observed,
        ) == ResourceStatus::Pending,
        value::field(target, "server_status"@) == Some(DataV::Str("starting"@)) ==> machine_status(target, observed)
            == ResourceStatus::Pending,
        value::field(target, "server_status"@) == Some(DataV::Str("migrating"@)) ==> machine_status(target, observed)
            == ResourceStatus::Pending,
        value::field(target, "server_status"@) == Some(DataV::Str("rebuilding"@)) ==> machine_status(target, observed)
            == ResourceStatus::Pending,
        value::field(target, "server_status"@) matches Some(DataV::Str(s)) ==> (s != "running"@ && s
            != "initializing"@ && s != "starting"@ && s != "migrating"@ && s != "rebuilding"@ ==> machine_status(
            target,
            observed,
        ) == ResourceStatus::Degraded),
        !(value::field(target, "server_status"@) matches Some(DataV::Str(_))) ==> machine_status(target, observed)
            == observed,
{
    reveal_strlit("running");
    reveal_strlit("initializing");
    reveal_strlit("starting");
    reveal_strlit("migrating");
    reveal_strlit("rebuilding");
    assert("running"@.len() == 7 && "initializing"@.len() == 12 && "starting"@.len() == 8 && "migrating"@.len() == 9
        && "rebuilding"@.len() == 10);
}

} // verus!
