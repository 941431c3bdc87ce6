//! Pinned plugins: what may be pinned, where it is installed, and what was downloaded.

use vstd::prelude::*;

use crate::error::{settles, CliError, CliErrorV};
use crate::outside;
use crate::path;
use crate::provider::{first, unless};
use crate::text;
use crate::version;
use crate::version::ProtocolVersion;

verus! {

/// The pinned plugins of a project.
#[derive(Clone, Debug, Eq, PartialEq)]
pub struct PluginLock {
    pub schema: u32,
    pub plugins: Vec<LockedPlugin>,
}

impl Default for PluginLock {
    fn default() -> (r: PluginLock)
        ensures
            r.schema == 1,
            r.plugins@.len() == 0,
    {
        PluginLock { schema: 1, plugins: Vec::new() }
    }
}

/// A pinned plugin.
#[derive(Clone, Debug, Eq, PartialEq)]
pub struct LockedPlugin {
    pub id: String,
    pub version: String,
    pub protocol: String,
    pub source: String,
    pub sha256: String,
}

/// The model of [`LockedPlugin`].
#[verifier::ext_equal]
pub struct LockedV {
    pub id: Seq<char>,
    pub version: Seq<char>,
    pub protocol: Seq<char>,
    pub source: Seq<char>,
    pub sha256: Seq<char>,
}

impl View for LockedPlugin {
    type V = LockedV;

    open spec fn view(&self) -> LockedV {
        LockedV {
            id: self.id@,
            version: self.version@,
            protocol: self.protocol@,
            source: self.source@,
            sha256: self.sha256@,
        }
    }
}

/// The models of pinned plugins.
pub open spec fn locked_views(plugins: Seq<LockedPlugin>) -> Seq<LockedV> {
    Seq::new(plugins.len(), |i: int| plugins[i]@)
}

// ---------------------------------------------------------------------------
// What may be pinned
// ---------------------------------------------------------------------------

/// A component of a path that is safe: letters, digits and some others, with a letter or
/// digit at either end.
pub open spec fn is_safe_component(s: Seq<char>, extra: Seq<char>) -> bool {
    &&& s.len() > 0
    &&& text::utf8_len(s) <= 128
    &&& text::all_in(s, true, true, true, extra)
    &&& text::is_alnum(s[0])
    &&& text::is_alnum(s.last())
}

/// Tests for a component of a path that is safe.
fn safe_component(s: &str, extra: &str) -> (r: bool)
    ensures
        r == is_safe_component(s@, extra@),
{
    let chars = text::chars_of(s);
    chars.len() > 0 && text::byte_len(s) <= 128 && text::all_in_set(s, true, true, true, extra)
        && text::alnum(chars[0]) && text::alnum(chars[chars.len() - 1])
}

/// The problem of an identifier.
pub open spec fn id_problem(id: Seq<char>) -> Option<CliErrorV> {
    unless(is_safe_component(id, ".-_"@), "invalid plugin ID `"@ + id + "`"@)
}

/// Rejects what is no identifier.
pub fn validate_plugin_id(id: &str) -> (r: Result<(), CliError>)
    ensures
        settles(r, id_problem(id@)),
{
    if safe_component(id, ".-_") {
        Ok(())
    } else {
        Err(CliError::Config(text::cat3("invalid plugin ID `", id, "`")))
    }
}

/// The problem of a version: it names a directory.
pub open spec fn version_problem(id: Seq<char>, version: Seq<char>) -> Option<CliErrorV> {
    unless(
        is_safe_component(version, ".-_+"@),
        "plugin `"@ + id + "` has invalid version `"@ + version
            + "`; expected one safe path component"@,
    )
}

/// Rejects a version that cannot name a directory.
pub fn validate_plugin_version(id: &str, version: &str) -> (r: Result<(), CliError>)
    ensures
        settles(r, version_problem(id@, version@)),
{
    if safe_component(version, ".-_+") {
        Ok(())
    } else {
        Err(
            CliError::Config(
                text::cat5(
                    "plugin `",
                    id,
                    "` has invalid version `",
                    version,
                    "`; expected one safe path component",
                ),
            ),
        )
    }
}

/// No safe component climbs or descends: it holds no separator and is not made of dots.
pub proof fn safe_components_stay_in_place(s: Seq<char>, extra: Seq<char>)
    requires
        is_safe_component(s, extra),
        !extra.contains('/'),
    ensures
        !s.contains('/'),
        s != ".."@,
        s != "."@,
{
    if s.contains('/') {
        let i = choose|i: int| 0 <= i < s.len() && s[i] == '/';
        assert(text::in_set(s[i], true, true, true, extra));
    }
    reveal_strlit("..");
    reveal_strlit(".");
    assert(".."@[0] == '.' && "."@[0] == '.');
}

/// The problem of a pinned plugin.
pub open spec fn plugin_problem(p: LockedV) -> Option<CliErrorV> {
    first(
        id_problem(p.id),
        first(
            version_problem(p.id, p.version),
            first(
                unless(
                    version::version_of(p.protocol) is Some,
                    "plugin `"@ + p.id + "` has invalid pinned protocol: "@ + version::parse_error_text(
                        p.protocol,
                    ),
                ),
                first(
                    unless(
                        text::utf8_len(p.sha256) == 64 && text::all_hex(p.sha256),
                        "plugin `"@ + p.id + "` must have a 64-character SHA-256 checksum"@,
                    ),
                    unless(
                        !text::has_prefix(p.source, "http://"@) && (!text::has_part(p.source, "://"@)
                            || text::has_prefix(p.source, "https://"@)),
                        "plugin `"@ + p.id + "` source must be HTTPS or a local path"@,
                    ),
                ),
            ),
        ),
    )
}

impl LockedPlugin {
    /// Rejects what may not be pinned.
    pub fn validate(&self) -> (r: Result<(), CliError>)
        ensures
            settles(r, plugin_problem(self@)),
    {
        validate_plugin_id(self.id.as_str())?;
        validate_plugin_version(self.id.as_str(), self.version.as_str())?;
        if let Err(e) = ProtocolVersion::parse(self.protocol.as_str()) {
            return Err(
                CliError::Config(
                    text::cat4(
                        "plugin `",
                        self.id.as_str(),
                        "` has invalid pinned protocol: ",
                        e.message().as_str(),
                    ),
                ),
            );
        }
        if text::byte_len(self.sha256.as_str()) != 64 || !text::all_hex_digits(self.sha256.as_str()) {
            return Err(
                CliError::Config(
                    text::cat3(
                        "plugin `",
                        self.id.as_str(),
                        "` must have a 64-character SHA-256 checksum",
                    ),
                ),
            );
        }
        let source = self.source.as_str();
        if text::starts_with(source, "http://") || (text::contains_part(source, "://")
            && !text::starts_with(source, "https://")) {
            return Err(
                CliError::Config(
                    text::cat3(
                        "plugin `",
                        self.id.as_str(),
                        "` source must be HTTPS or a local path",
                    ),
                ),
            );
        }
        Ok(())
    }

    /// A copy.
    pub fn duplicate(&self) -> (r: LockedPlugin)
        ensures
            r@ == self@,
    {
        LockedPlugin {
            id: self.id.clone(),
            version: self.version.clone(),
            protocol: self.protocol.clone(),
            source: self.source.clone(),
            sha256: self.sha256.clone(),
        }
    }
}

/// Whether an identifier is pinned.
pub open spec fn is_pinned(plugins: Seq<LockedV>, id: Seq<char>) -> bool {
    exists|i: int| 0 <= i < plugins.len() && (#[trigger] plugins[i]).id == id
}

/// The first problem among pinned plugins after others.
pub open spec fn plugins_problem(plugins: Seq<LockedV>, seen: Seq<LockedV>) -> Option<CliErrorV>
    decreases plugins.len(),
{
    if plugins.len() == 0 {
        None
    } else {
        first(
            plugin_problem(plugins[0]),
            first(
                unless(
                    !is_pinned(seen, plugins[0].id),
                    "plugin `"@ + plugins[0].id + "` occurs more than once in lightrail.lock"@,
                ),
                plugins_problem(plugins.subrange(1, plugins.len() as int), seen.push(plugins[0])),
            ),
        )
    }
}

/// The problem of the pinned plugins of a project.
pub open spec fn lock_problem(schema: u32, plugins: Seq<LockedV>) -> Option<CliErrorV> {
    first(
        unless(
            schema == 1,
            "unsupported lightrail.lock schema "@ + text::decimal(schema as nat) + "; expected 1"@,
        ),
        plugins_problem(plugins, Seq::empty()),
    )
}

/// Finds a pinned plugin among the first `n`.
fn position(plugins: &Vec<LockedPlugin>, n: usize, id: &str) -> (r: Option<usize>)
    requires
        n <= plugins@.len(),
    ensures
        match r {
            Some(i) => i < n && plugins@[i as int].id@ == id@ && forall|k: int|
                0 <= k < i ==> (#[trigger] plugins@[k]).id@ != id@,
            None => forall|k: int| 0 <= k < n ==> (#[trigger] plugins@[k]).id@ != id@,
        },
{
    let mut i: usize = 0;
    while i < n
        invariant
            i <= n <= plugins@.len(),
            forall|k: int| 0 <= k < i ==> (#[trigger] plugins@[k]).id@ != id@,
        decreases n - i,
    {
        if text::same(plugins[i].id.as_str(), id) {
            return Some(i);
        }
        i += 1;
    }
    None
}

/// The place of a pinned plugin after those with smaller identifiers.
pub open spec fn pin_slot(plugins: Seq<LockedV>, id: Seq<char>) -> int
    decreases plugins.len(),
{
    if plugins.len() == 0 || text::text_lt(id, plugins[0].id) {
        0
    } else {
        1 + pin_slot(plugins.subrange(1, plugins.len() as int), id)
    }
}

impl PluginLock {
    /// Rejects what may not be pinned.
    pub fn validate(&self) -> (r: Result<(), CliError>)
        ensures
            settles(r, lock_problem(self.schema, locked_views(self.plugins@))),
    {
        if self.schema != 1 {
            return Err(
                CliError::Config(
                    text::cat3(
                        "unsupported lightrail.lock schema ",
                        text::number(self.schema as u128).as_str(),
                        "; expected 1",
                    ),
                ),
            );
        }
        let ghost all = locked_views(self.plugins@);
        let mut i: usize = 0;
        assert(all.subrange(0, all.len() as int) =~= all);
        assert(all.take(0) =~= Seq::<LockedV>::empty());
        while i < self.plugins.len()
            invariant
                i <= self.plugins@.len(),
                self.schema == 1,
                all == locked_views(self.plugins@),
                plugins_problem(all, Seq::empty()) == plugins_problem(
                    all.subrange(i as int, all.len() as int),
                    all.take(i as int),
                ),
            decreases self.plugins.len() - i,
        {
            let plugin = &self.plugins[i];
            let ghost rest = all.subrange(i as int, all.len() as int);
            proof {
                assert(rest[0] == plugin@);
                assert(rest.subrange(1, rest.len() as int) =~= all.subrange(i + 1, all.len() as int));
                assert(all.take(i + 1) =~= all.take(i as int).push(plugin@));
            }
            plugin.validate()?;
            let earlier = position(&self.plugins, i, plugin.id.as_str());
            proof {
                match earlier {
                    Some(k) => {
                        assert(all.take(i as int)[k as int].id == plugin@.id);
                    },
                    None => {
                        assert forall|k: int| 0 <= k < i implies (#[trigger] all.take(i as int)[k]).id
                            != plugin@.id by {
                            assert(self.plugins@[k].id@ != plugin.id@);
                        }
                    },
                }
            }
            if earlier.is_some() {
                return Err(
                    CliError::Config(
                        text::cat3(
                            "plugin `",
                            plugin.id.as_str(),
                            "` occurs more than once in lightrail.lock",
                        ),
                    ),
                );
            }
            i += 1;
        }
        Ok(())
    }

    /// The pinned plugin with an identifier.
    ///
    /// # Errors
    ///
    /// Returns an error where it is not pinned.
    pub fn pinned(&self, id: &str) -> (r: Result<usize, CliError>)
        ensures
            match r {
                Ok(i) => i < self.plugins@.len() && self.plugins@[i as int].id@ == id@ && forall|k: int|
                    0 <= k < i ==> (#[trigger] self.plugins@[k]).id@ != id@,
                Err(e) => !is_pinned(locked_views(self.plugins@), id@) && e@ == CliErrorV::Usage(
                    "plugin `"@ + id@ + "` is not pinned"@,
                ),
            },
    {
        match position(&self.plugins, self.plugins.len(), id) {
            Some(i) => Ok(i),
            None => {
                assert forall|k: int| 0 <= k < self.plugins@.len() implies (#[trigger] locked_views(
                    self.plugins@,
                )[k]).id != id@ by {
                    assert(self.plugins@[k].id@ != id@);
                }
                Err(CliError::Usage(text::cat3("plugin `", id, "` is not pinned")))
            },
        }
    }

    /// Rejects what is pinned already.
    pub fn check_new(&self, id: &str) -> (r: Result<(), CliError>)
        ensures
            match r {
                Ok(()) => !is_pinned(locked_views(self.plugins@), id@),
                Err(e) => is_pinned(locked_views(self.plugins@), id@) && e@ == CliErrorV::Usage(
                    "plugin `"@ + id@ + "` is already pinned; use `plugin update "@ + id@ + "`"@,
                ),
            },
    {
        match position(&self.plugins, self.plugins.len(), id) {
            Some(i) => {
                assert(locked_views(self.plugins@)[i as int].id == id@);
                Err(
                    CliError::Usage(
                        text::cat5(
                            "plugin `",
                            id,
                            "` is already pinned; use `plugin update ",
                            id,
                            "`",
                        ),
                    ),
                )
            },
            None => {
                assert forall|k: int| 0 <= k < self.plugins@.len() implies (#[trigger] locked_views(
                    self.plugins@,
                )[k]).id != id@ by {
                    assert(self.plugins@[k].id@ != id@);
                }
                Ok(())
            },
        }
    }

    /// Pins a plugin, in the order of identifiers.
    pub fn pin(&mut self, plugin: LockedPlugin)
        ensures
            final(self).schema == old(self).schema,
            locked_views(final(self).plugins@) == sorted(locked_views(old(self).plugins@).push(plugin@)),
    {
        let ghost schema = self.schema;
        let ghost all = locked_views(self.plugins@).push(plugin@);
        self.plugins.push(plugin);
        assert(locked_views(self.plugins@) =~= all);
        let mut out: Vec<LockedPlugin> = Vec::new();
        let mut i: usize = 0;
        assert(all.take(0) =~= Seq::<LockedV>::empty());
        assert(locked_views(out@) =~= Seq::<LockedV>::empty());
        while i < self.plugins.len()
            invariant
                i <= self.plugins@.len(),
                self.schema == schema,
                all == locked_views(self.plugins@),
                locked_views(out@) == sorted(all.take(i as int)),
            decreases self.plugins.len() - i,
        {
            proof {
                assert(all.take(i + 1).drop_last() =~= all.take(i as int));
                assert(all.take(i + 1).last() == self.plugins@[i as int]@);
            }
            insert_sorted(&mut out, self.plugins[i].duplicate());
            i += 1;
        }
        assert(all.take(all.len() as int) =~= all);
        self.plugins = out;
    }

    /// Replaces a pinned plugin by another version of it.
    pub fn repin(&mut self, index: usize, plugin: LockedPlugin)
        requires
            index < old(self).plugins@.len(),
        ensures
            final(self).schema == old(self).schema,
            final(self).plugins@ == old(self).plugins@.update(index as int, plugin),
    {
        self.plugins.set(index, plugin);
    }

    /// Takes a pinned plugin out.
    pub fn unpin(&mut self, index: usize) -> (r: LockedPlugin)
        requires
            index < old(self).plugins@.len(),
        ensures
            final(self).schema == old(self).schema,
            final(self).plugins@ == old(self).plugins@.remove(index as int),
            r == old(self).plugins@[index as int],
    {
        self.plugins.remove(index)
    }
}

/// Plugins in the order of their identifiers; those with one identifier stay in order.
pub open spec fn sorted(plugins: Seq<LockedV>) -> Seq<LockedV>
    decreases plugins.len(),
{
    if plugins.len() == 0 {
        Seq::empty()
    } else {
        let before = sorted(plugins.drop_last());
        before.insert(pin_slot(before, plugins.last().id), plugins.last())
    }
}

/// No plugin stands behind one with a greater identifier.
pub open spec fn in_order(plugins: Seq<LockedV>) -> bool {
    forall|i: int, j: int|
        0 <= i < j < plugins.len() ==> !text::text_lt(
            (#[trigger] plugins[j]).id,
            (#[trigger] plugins[i]).id,
        )
}

/// The place is behind all that are not greater, and before one that is.
proof fn lemma_pin_slot(plugins: Seq<LockedV>, id: Seq<char>)
    ensures
        0 <= pin_slot(plugins, id) <= plugins.len(),
        forall|k: int|
            0 <= k < pin_slot(plugins, id) ==> !text::text_lt(id, (#[trigger] plugins[k]).id),
        pin_slot(plugins, id) < plugins.len() ==> text::text_lt(
            id,
            plugins[pin_slot(plugins, id)].id,
        ),
    decreases plugins.len(),
{
    if plugins.len() > 0 && !text::text_lt(id, plugins[0].id) {
        let rest = plugins.subrange(1, plugins.len() as int);
        lemma_pin_slot(rest, id);
        assert forall|k: int| 0 <= k < pin_slot(plugins, id) implies !text::text_lt(
            id,
            (#[trigger] plugins[k]).id,
        ) by {
            if k > 0 {
                assert(rest[k - 1] == plugins[k]);
            }
        }
    }
}

/// Pinned plugins stand in the order of their identifiers, and are those that were pinned.
pub proof fn pinned_plugins_stand_in_order(plugins: Seq<LockedV>)
    ensures
        in_order(sorted(plugins)),
        sorted(plugins).to_multiset() == plugins.to_multiset(),
    decreases plugins.len(),
{
    broadcast use vstd::seq_lib::group_to_multiset_ensures;

    if plugins.len() > 0 {
        let front = plugins.drop_last();
        let last = plugins.last();
        let before = sorted(front);
        let at = pin_slot(before, last.id);
        let out = before.insert(at, last);
        pinned_plugins_stand_in_order(front);
        lemma_pin_slot(before, last.id);
        assert forall|i: int, j: int| 0 <= i < j < out.len() implies !text::text_lt(
            (#[trigger] out[j]).id,
            (#[trigger] out[i]).id,
        ) by {
            let a = if i < at { i } else { i - 1 };
            let b = if j < at { j } else { j - 1 };
            if i != at && j != at {
                assert(out[i] == before[a] && out[j] == before[b]);
                assert(a < b);
            } else if j == at {
                assert(out[i] == before[i]);
            } else {
                assert(out[j] == before[b]);
                let next = before[at].id;
                if text::text_lt(before[b].id, last.id) {
                    text::lemma_text_lt_transitive(before[b].id, last.id, next);
                    if b != at {
                        assert(!text::text_lt(before[b].id, before[at].id));
                    } else {
                        text::lemma_text_lt_irreflexive(next);
                    }
                }
            }
        }
        assert(plugins =~= front.push(last));
        assert(out.to_multiset() =~= before.to_multiset().insert(last));
    } else {
        assert(sorted(plugins) =~= plugins);
    }
}

/// A plugin that may be pinned.
#[verifier::opaque]
pub open spec fn is_sound(plugin: LockedV) -> bool {
    plugin_problem(plugin) is None
}

/// Plugins that may be pinned together.
pub open spec fn may_be_pinned(plugins: Seq<LockedV>) -> bool {
    &&& forall|i: int| 0 <= i < plugins.len() ==> is_sound(#[trigger] plugins[i])
    &&& forall|i: int, j: int|
        0 <= i < j < plugins.len() ==> (#[trigger] plugins[i]).id != (#[trigger] plugins[j]).id
}

/// No problem is found exactly among plugins that may be pinned together, and none of which
/// was seen before.
proof fn lemma_plugins_problem(plugins: Seq<LockedV>, seen: Seq<LockedV>)
    ensures
        plugins_problem(plugins, seen) is None <==> may_be_pinned(plugins) && forall|i: int|
            0 <= i < plugins.len() ==> !is_pinned(seen, (#[trigger] plugins[i]).id),
    decreases plugins.len(),
{
    if plugins.len() > 0 {
        reveal(is_sound);
        let rest = plugins.subrange(1, plugins.len() as int);
        let more = seen.push(plugins[0]);
        lemma_plugins_problem(rest, more);
        let fresh = forall|i: int|
            0 <= i < plugins.len() ==> !is_pinned(seen, (#[trigger] plugins[i]).id);
        let rest_fresh = forall|i: int|
            0 <= i < rest.len() ==> !is_pinned(more, (#[trigger] rest[i]).id);
        if may_be_pinned(plugins) && fresh {
            assert forall|i: int| 0 <= i < rest.len() implies is_sound(#[trigger] rest[i]) by {
                assert(rest[i] == plugins[i + 1]);
            }
            assert forall|i: int, j: int| 0 <= i < j < rest.len() implies (#[trigger] rest[i]).id != (
            #[trigger] rest[j]).id by {
                assert(rest[i] == plugins[i + 1] && rest[j] == plugins[j + 1]);
            }
            assert forall|i: int| 0 <= i < rest.len() implies !is_pinned(more, (#[trigger] rest[i]).id) by {
                assert(rest[i] == plugins[i + 1]);
                assert(plugins[0].id != plugins[i + 1].id);
                if is_pinned(more, rest[i].id) {
                    let k = choose|k: int| 0 <= k < more.len() && (#[trigger] more[k]).id == rest[i].id;
                    assert(k < seen.len());
                    assert(seen[k].id == rest[i].id);
                }
            }
            assert(is_sound(plugins[0]));
            assert(!is_pinned(seen, plugins[0].id));
        }
        if plugin_problem(plugins[0]) is None && !is_pinned(seen, plugins[0].id) && may_be_pinned(rest)
            && rest_fresh {
            assert forall|i: int| 0 <= i < plugins.len() implies is_sound(
                #[trigger] plugins[i],
            ) by {
                if i > 0 {
                    assert(rest[i - 1] == plugins[i]);
                }
            }
            assert forall|i: int, j: int| 0 <= i < j < plugins.len() implies (#[trigger] plugins[i]).id
                != (#[trigger] plugins[j]).id by {
                assert(rest[j - 1] == plugins[j]);
                if i == 0 {
                    assert(!is_pinned(more, rest[j - 1].id));
                    assert(more[seen.len() as int] == plugins[0]);
                } else {
                    assert(rest[i - 1] == plugins[i]);
                }
            }
            assert forall|i: int| 0 <= i < plugins.len() implies !is_pinned(
                seen,
                (#[trigger] plugins[i]).id,
            ) by {
                if i > 0 {
                    assert(rest[i - 1] == plugins[i]);
                    assert(!is_pinned(more, rest[i - 1].id));
                    if is_pinned(seen, plugins[i].id) {
                        let k = choose|k: int|
                            0 <= k < seen.len() && (#[trigger] seen[k]).id == plugins[i].id;
                        assert(more[k].id == plugins[i].id);
                    }
                }
            }
        }
    }
}

/// Putting a plugin among others adds its identifier.
proof fn lemma_inserted(before: Seq<LockedV>, at: int, plugin: LockedV, id: Seq<char>)
    requires
        0 <= at <= before.len(),
    ensures
        is_pinned(before.insert(at, plugin), id) <==> is_pinned(before, id) || plugin.id == id,
{
    let out = before.insert(at, plugin);
    if is_pinned(out, id) {
        let k = choose|k: int| 0 <= k < out.len() && (#[trigger] out[k]).id == id;
        if k != at {
            assert(before[if k < at { k } else { k - 1 }].id == id);
        }
    }
    if is_pinned(before, id) {
        let b = choose|b: int| 0 <= b < before.len() && (#[trigger] before[b]).id == id;
        assert(out[if b < at { b } else { b + 1 }].id == id);
    }
    if plugin.id == id {
        assert(out[at].id == id);
    }
}

/// Ordering plugins keeps which of them there are.
proof fn lemma_sorted_pinned(plugins: Seq<LockedV>, id: Seq<char>)
    ensures
        is_pinned(sorted(plugins), id) <==> is_pinned(plugins, id),
    decreases plugins.len(),
{
    if plugins.len() > 0 {
        let front = plugins.drop_last();
        let before = sorted(front);
        lemma_sorted_pinned(front, id);
        lemma_pin_slot(before, plugins.last().id);
        lemma_inserted(before, pin_slot(before, plugins.last().id), plugins.last(), id);
        lemma_inserted(front, front.len() as int, plugins.last(), id);
        assert(front.insert(front.len() as int, plugins.last()) =~= plugins);
    }
}

/// A plugin that is not among others may be pinned with them.
proof fn lemma_insert_keeps(before: Seq<LockedV>, at: int, plugin: LockedV)
    requires
        0 <= at <= before.len(),
        may_be_pinned(before),
        is_sound(plugin),
        !is_pinned(before, plugin.id),
    ensures
        may_be_pinned(before.insert(at, plugin)),
{
    let out = before.insert(at, plugin);
    assert forall|i: int| 0 <= i < out.len() implies is_sound(#[trigger] out[i]) by {
        if i != at {
            assert(out[i] == before[if i < at { i } else { i - 1 }]);
        }
    }
    assert forall|i: int, j: int| 0 <= i < j < out.len() implies (#[trigger] out[i]).id != (
    #[trigger] out[j]).id by {
        let a = if i < at { i } else { i - 1 };
        let b = if j < at { j } else { j - 1 };
        if i != at && j != at {
            assert(out[i] == before[a] && out[j] == before[b]);
        } else if i == at {
            assert(out[j] == before[b]);
        } else {
            assert(out[i] == before[a]);
        }
    }
}

/// Ordering plugins keeps that they may be pinned together.
proof fn lemma_sorted_keeps(plugins: Seq<LockedV>)
    requires
        may_be_pinned(plugins),
    ensures
        may_be_pinned(sorted(plugins)),
    decreases plugins.len(),
{
    if plugins.len() > 0 {
        let front = plugins.drop_last();
        let last = plugins.last();
        let before = sorted(front);
        assert forall|i: int| 0 <= i < front.len() implies is_sound(#[trigger] front[i]) by {
            assert(front[i] == plugins[i]);
        }
        assert forall|i: int, j: int| 0 <= i < j < front.len() implies (#[trigger] front[i]).id != (
        #[trigger] front[j]).id by {
            assert(front[i] == plugins[i] && front[j] == plugins[j]);
        }
        lemma_sorted_keeps(front);
        lemma_pin_slot(before, last.id);
        lemma_sorted_pinned(front, last.id);
        if is_pinned(front, last.id) {
            let f = choose|f: int| 0 <= f < front.len() && (#[trigger] front[f]).id == last.id;
            assert(plugins[f].id != plugins[plugins.len() - 1].id);
        }
        assert(is_sound(plugins[plugins.len() - 1]));
        lemma_insert_keeps(before, pin_slot(before, last.id), last);
    }
}

/// Pinning a valid plugin that is not pinned yet leaves the pinned plugins valid.
pub proof fn pinning_keeps_validity(schema: u32, plugins: Seq<LockedV>, plugin: LockedV)
    requires
        lock_problem(schema, plugins) is None,
        plugin_problem(plugin) is None,
        !is_pinned(plugins, plugin.id),
    ensures
        lock_problem(schema, sorted(plugins.push(plugin))) is None,
{
    reveal(is_sound);
    let all = plugins.push(plugin);
    lemma_plugins_problem(plugins, Seq::empty());
    assert forall|i: int| 0 <= i < all.len() implies is_sound(#[trigger] all[i]) by {
        if i < plugins.len() {
            assert(all[i] == plugins[i]);
        }
    }
    assert forall|i: int, j: int| 0 <= i < j < all.len() implies (#[trigger] all[i]).id != (
    #[trigger] all[j]).id by {
        assert(all[i] == plugins[i]);
        if j < plugins.len() {
            assert(all[j] == plugins[j]);
        } else if all[i].id == all[j].id {
            assert(plugins[i].id == plugin.id);
        }
    }
    lemma_sorted_keeps(all);
    lemma_plugins_problem(sorted(all), Seq::empty());
    assert forall|i: int| 0 <= i < sorted(all).len() implies !is_pinned(
        Seq::empty(),
        (#[trigger] sorted(all)[i]).id,
    ) by {}
}

/// Inserts a plugin in the order of identifiers.
fn insert_sorted(plugins: &mut Vec<LockedPlugin>, plugin: LockedPlugin)
    ensures
        locked_views(final(plugins)@) == locked_views(old(plugins)@).insert(
            pin_slot(locked_views(old(plugins)@), plugin@.id),
            plugin@,
        ),
{
    let ghost all = locked_views(plugins@);
    let ghost model = plugin@;
    let mut at: usize = 0;
    assert(all.subrange(0, all.len() as int) =~= all);
    while at < plugins.len() && !text::less(plugin.id.as_str(), plugins[at].id.as_str())
        invariant
            all == locked_views(plugins@),
            at <= plugins@.len(),
            pin_slot(all, plugin.id@) == at + pin_slot(
                all.subrange(at as int, all.len() as int),
                plugin.id@,
            ),
        decreases plugins.len() - at,
    {
        let ghost rest = all.subrange(at as int, all.len() as int);
        assert(rest[0] == plugins@[at as int]@);
        assert(rest.subrange(1, rest.len() as int) =~= all.subrange(at + 1, all.len() as int));
        at += 1;
    }
    proof {
        if at < plugins@.len() {
            assert(all.subrange(at as int, all.len() as int)[0] == plugins@[at as int]@);
        }
    }
    plugins.insert(at, plugin);
    assert(locked_views(plugins@) =~= all.insert(at as int, model));
}

// ---------------------------------------------------------------------------
// Where plugins are installed
// ---------------------------------------------------------------------------

/// The file of an installed plugin.
pub open spec fn installed_path(root: Seq<char>, p: LockedV, file: Seq<char>) -> Seq<char> {
    path::joined_path(path::joined_path(path::joined_path(root, p.id), p.version), file)
}

/// The file of an installed plugin.
pub fn executable_path(root: &str, plugin: &LockedPlugin, file: &str) -> (r: String)
    ensures
        r@ == installed_path(root@, plugin@, file@),
{
    let directory = version_directory(root, plugin);
    path::join(directory.as_str(), file)
}

/// The directory of an installed plugin.
pub fn version_directory(root: &str, plugin: &LockedPlugin) -> (r: String)
    ensures
        r@ == path::joined_path(path::joined_path(root@, plugin@.id), plugin@.version),
{
    let directory = path::join(root, plugin.id.as_str());
    path::join(directory.as_str(), plugin.version.as_str())
}

/// The digest of a file's content.
pub open spec fn digest_text(content: Seq<u8>) -> Seq<char> {
    outside::hex_text(outside::sha256_of(content))
}

/// The digest of a file's content.
pub fn sha256_text(content: &[u8]) -> (r: String)
    ensures
        r@ == digest_text(content@),
{
    let digest = outside::sha256(content);
    outside::hex_encode(digest.as_slice())
}

/// Whether an installed file is the one that is pinned.
pub fn is_installed(plugin: &LockedPlugin, content: Option<&[u8]>) -> (r: Result<bool, CliError>)
    ensures
        match (plugin_problem(plugin@), r) {
            (Some(problem), Err(e)) => e@ == problem,
            (None, Ok(installed)) => installed == match content {
                Some(bytes) => digest_text(bytes@) == text::lowered(plugin@.sha256),
                None => false,
            },
            _ => false,
        },
{
    plugin.validate()?;
    match content {
        None => Ok(false),
        Some(bytes) => {
            let expected = text::to_lower(plugin.sha256.as_str());
            Ok(text::same(sha256_text(bytes).as_str(), expected.as_str()))
        },
    }
}

/// A content whose checksum is the pinned one.
pub open spec fn is_as_pinned(content: Seq<u8>, plugin: LockedV) -> bool {
    digest_text(content) == text::lowered(plugin.sha256)
}

/// Rejects a download that is not what is pinned.
pub fn accept_download(plugin: &LockedPlugin, content: &[u8]) -> (r: Result<(), CliError>)
    ensures
        match r {
            Ok(()) => digest_text(content@) == text::lowered(plugin@.sha256),
            Err(e) => digest_text(content@) != text::lowered(plugin@.sha256) && e@ == CliErrorV::Plugin(
                "checksum mismatch for `"@ + plugin@.id + "`: expected "@ + text::lowered(plugin@.sha256)
                    + ", got "@ + digest_text(content@),
            ),
        },
        r is Ok <==> is_as_pinned(content@, plugin@),
{
    let actual = sha256_text(content);
    let expected = text::to_lower(plugin.sha256.as_str());
    if text::same(actual.as_str(), expected.as_str()) {
        return Ok(());
    }
    let head = text::cat5(
        "checksum mismatch for `",
        plugin.id.as_str(),
        "`: expected ",
        expected.as_str(),
        ", got ",
    );
    Err(CliError::Plugin(text::cat2(head.as_str(), actual.as_str())))
}

/// Where a plugin comes from.
#[derive(Clone, Debug, PartialEq, Eq)]
pub enum PluginSource {
    /// It is downloaded.
    Download(String),
    /// It is copied.
    Copy(String),
}

/// The local file of a source.
pub open spec fn local_path(source: Seq<char>, root: Seq<char>) -> Seq<char> {
    path::joined_path(
        root,
        if text::has_prefix(source, "file:"@) {
            source.subrange("file:"@.len() as int, source.len() as int)
        } else {
            source
        },
    )
}

/// The local file of a source; a relative path is one of the project.
pub fn local_source_path(source: &str, root: &str) -> (r: String)
    ensures
        r@ == local_path(source@, root@),
{
    if text::starts_with(source, "file:") {
        proof {
            reveal_strlit("file:");
        }
        let chars = text::chars_of(source);
        let rest = text::string_of(&chars, 5, chars.len());
        path::join(root, rest.as_str())
    } else {
        path::join(root, source)
    }
}

/// Where a plugin comes from.
pub fn plugin_source(source: &str, root: &str) -> (r: PluginSource)
    ensures
        match r {
            PluginSource::Download(url) => text::has_prefix(source@, "https://"@) && url@ == source@,
            PluginSource::Copy(file) => !text::has_prefix(source@, "https://"@) && file@ == local_path(
                source@,
                root@,
            ),
        },
{
    if text::starts_with(source, "https://") {
        PluginSource::Download(source.to_owned())
    } else {
        PluginSource::Copy(local_source_path(source, root))
    }
}

/// Rejects a local source that is not there.
pub fn check_local_source(file: &str, exists: bool) -> (r: Result<(), CliError>)
    ensures
        match r {
            Ok(()) => exists,
            Err(e) => !exists && e@ == CliErrorV::Plugin("plugin source does not exist: "@ + file@),
        },
{
    if exists {
        Ok(())
    } else {
        Err(CliError::Plugin(text::cat2("plugin source does not exist: ", file)))
    }
}

/// Rejects a source that is not secure before anything is fetched.
pub fn check_source(source: &str) -> (r: Result<(), CliError>)
    ensures
        match r {
            Ok(()) => !text::has_prefix(source@, "http://"@),
            Err(e) => text::has_prefix(source@, "http://"@) && e@ == CliErrorV::Config(
                "plugin sources must use HTTPS or a local path"@,
            ),
        },
{
    if text::starts_with(source, "http://") {
        return Err(CliError::Config("plugin sources must use HTTPS or a local path".to_owned()));
    }
    Ok(())
}

/// Rejects to put a plugin in the place of another.
pub fn check_destination(destination: &str, occupied: bool) -> (r: Result<(), CliError>)
    ensures
        match r {
            Ok(()) => !occupied,
            Err(e) => occupied && e@ == CliErrorV::Plugin(
                "refusing to replace mismatched installed plugin at "@ + destination@,
            ),
        },
{
    if occupied {
        return Err(
            CliError::Plugin(
                text::cat2("refusing to replace mismatched installed plugin at ", destination),
            ),
        );
    }
    Ok(())
}

/// Rejects an update that is another plugin.
pub fn check_update(id: &str, updated: &LockedPlugin) -> (r: Result<(), CliError>)
    ensures
        match r {
            Ok(()) => updated@.id == id@,
            Err(e) => updated@.id != id@ && e@ == CliErrorV::Plugin(
                "updated source changed identity from `"@ + id@ + "` to `"@ + updated@.id + "`"@,
            ),
        },
{
    if text::same(updated.id.as_str(), id) {
        return Ok(());
    }
    Err(
        CliError::Plugin(
            text::cat5(
                "updated source changed identity from `",
                id,
                "` to `",
                updated.id.as_str(),
                "`",
            ),
        ),
    )
}

/// Pins what a candidate declares about itself, with the digest of its content.
pub fn lock_candidate(id: &str, plugin_version: &str, protocol: &ProtocolVersion, source: &str, content: &[u8]) -> (r:
    Result<LockedPlugin, CliError>)
    ensures
        ({
            let p = LockedV {
                id: id@,
                version: plugin_version@,
                protocol: version::version_text(*protocol),
                source: source@,
                sha256: digest_text(content@),
            };
            match r {
                Ok(plugin) => plugin_problem(p) is None && plugin@ == p,
                Err(e) => plugin_problem(p) == Some(e@),
            }
        }),
{
    let plugin = LockedPlugin {
        id: id.to_owned(),
        version: plugin_version.to_owned(),
        protocol: protocol.to_text(),
        source: source.to_owned(),
        sha256: sha256_text(content),
    };
    plugin.validate()?;
    Ok(plugin)
}

/// A pinned plugin is sound exactly where its identifier and version are safe as names of files,
/// its protocol is a version, its checksum is a SHA-256 digest in hexadecimal notation, and its
/// source is HTTPS or a local path.
pub proof fn pinned_plugins_are_sound(p: LockedV)
    ensures
        plugin_problem(p) is None <==> {
            &&& is_safe_component(p.id, ".-_"@)
            &&& is_safe_component(p.version, ".-_+"@)
            &&& version::version_of(p.protocol) is Some
            &&& text::utf8_len(p.sha256) == 64
            &&& forall|i: int| 0 <= i < p.sha256.len() ==> text::is_hex(#[trigger] p.sha256[i])
            &&& !text::has_prefix(p.source, "http://"@)
            &&& text::has_part(p.source, "://"@) ==> text::has_prefix(p.source, "https://"@)
        },
{
}

/// No pinned plugin is fetched without encryption.
pub proof fn plugins_are_never_fetched_in_the_clear(p: LockedV)
    requires
        text::has_prefix(p.source, "http://"@),
    ensures
        plugin_problem(p) is Some,
{
}

/// Pinned plugins one by one, after others.
proof fn lemma_plugins_sound(plugins: Seq<LockedV>, seen: Seq<LockedV>, i: int)
    requires
        plugins_problem(plugins, seen) is None,
        0 <= i < plugins.len(),
    ensures
        plugin_problem(plugins[i]) is None,
        forall|k: int| 0 <= k < seen.len() ==> (#[trigger] seen[k]).id != plugins[i].id,
        forall|k: int| 0 <= k < i ==> (#[trigger] plugins[k]).id != plugins[i].id,
    decreases plugins.len(),
{
    if i == 0 {
        assert forall|k: int| 0 <= k < seen.len() implies (#[trigger] seen[k]).id != plugins[0].id by {
            if seen[k].id == plugins[0].id {
                assert(is_pinned(seen, plugins[0].id));
            }
        }
    } else {
        let rest = plugins.subrange(1, plugins.len() as int);
        let more = seen.push(plugins[0]);
        assert(rest[i - 1] == plugins[i]);
        lemma_plugins_sound(rest, more, i - 1);
        assert forall|k: int| 0 <= k < seen.len() implies (#[trigger] seen[k]).id != plugins[i].id by {
            assert(more[k] == seen[k]);
        }
        assert forall|k: int| 0 <= k < i implies (#[trigger] plugins[k]).id != plugins[i].id by {
            if k == 0 {
                assert(more[seen.len() as int] == plugins[0]);
            } else {
                assert(rest[k - 1] == plugins[k]);
            }
        }
    }
}

/// A lock file is taken only where it has the known schema, each plugin in it is sound, and none
/// is pinned twice.
pub proof fn lock_files_pin_each_plugin_once(schema: u32, plugins: Seq<LockedV>, i: int)
    requires
        lock_problem(schema, plugins) is None,
        0 <= i < plugins.len(),
    ensures
        schema == 1,
        plugin_problem(plugins[i]) is None,
        forall|k: int| 0 <= k < i ==> (#[trigger] plugins[k]).id != plugins[i].id,
{
    lemma_plugins_sound(plugins, Seq::empty(), i);
}

/// Sorting keeps every plugin and adds none.
proof fn lemma_sorted_members(plugins: Seq<LockedV>, p: LockedV)
    ensures
        sorted(plugins).contains(p) <==> plugins.contains(p),
        sorted(plugins).len() == plugins.len(),
    decreases plugins.len(),
{
    if plugins.len() > 0 {
        let fewer = plugins.drop_last();
        let last = plugins.last();
        let before = sorted(fewer);
        let after = sorted(plugins);
        let at = pin_slot(before, last.id);
        lemma_sorted_members(fewer, p);
        lemma_pin_slot_bounds(before, last.id);
        assert(after =~= before.insert(at, last));
        assert(plugins[plugins.len() - 1] == last);
        if after.contains(p) {
            let k = choose|k: int| 0 <= k < after.len() && after[k] == p;
            if k == at {
                assert(plugins[plugins.len() - 1] == p);
            } else {
                let earlier = if k < at {
                    k
                } else {
                    k - 1
                };
                assert(before[earlier] == p);
                assert(before.contains(p));
                let j = choose|j: int| 0 <= j < fewer.len() && fewer[j] == p;
                assert(plugins[j] == p);
            }
        }
        if plugins.contains(p) {
            let j = choose|j: int| 0 <= j < plugins.len() && plugins[j] == p;
            if j < fewer.len() {
                assert(fewer[j] == p);
                assert(fewer.contains(p));
                let k = choose|k: int| 0 <= k < before.len() && before[k] == p;
                let later = if k < at {
                    k
                } else {
                    k + 1
                };
                assert(after[later] == p);
            } else {
                assert(after[at] == p);
            }
        }
    }
}

/// A place is one of the list or its end.
proof fn lemma_pin_slot_bounds(plugins: Seq<LockedV>, id: Seq<char>)
    ensures
        0 <= pin_slot(plugins, id) <= plugins.len(),
    decreases plugins.len(),
{
    if plugins.len() > 0 && !text::text_lt(id, plugins[0].id) {
        lemma_pin_slot_bounds(plugins.subrange(1, plugins.len() as int), id);
    }
}

/// Putting plugins in order loses none and adds none.
pub proof fn ordering_keeps_every_plugin(plugins: Seq<LockedV>, p: LockedV)
    ensures
        sorted(plugins).contains(p) <==> plugins.contains(p),
        sorted(plugins).len() == plugins.len(),
{
    lemma_sorted_members(plugins, p);
}

/// A local source is looked for under the project, with or without its scheme.
pub proof fn local_sources_are_found_in_the_project(path: Seq<char>, root: Seq<char>)
    ensures
        local_path("file:"@ + path, root) == path::joined_path(root, path),
        !text::has_prefix(path, "file:"@) ==> local_path(path, root) == path::joined_path(root, path),
{
    let source = "file:"@ + path;
    assert(source.subrange(0, "file:"@.len() as int) =~= "file:"@);
    assert(source.subrange("file:"@.len() as int, source.len() as int) =~= path);
}

/// Plugins are installed each in a place of its own version.
pub proof fn plugins_are_installed_by_version(root: Seq<char>, p: LockedV, file: Seq<char>)
    requires
        root.len() > 0 && root.last() != '/',
        p.id.len() > 0 && p.id[0] != '/' && p.id.last() != '/',
        p.version.len() > 0 && p.version[0] != '/' && p.version.last() != '/',
        file.len() > 0 && file[0] != '/',
    ensures
        installed_path(root, p, file) == root + "/"@ + p.id + "/"@ + p.version + "/"@ + file,
{
    reveal_strlit("/");
    assert((root + "/"@ + p.id).last() == p.id.last());
    assert((root + "/"@ + p.id + "/"@ + p.version).last() == p.version.last());
}

/// The checksum of a plugin is that of its content, written in hexadecimal digits.
pub proof fn checksums_are_those_of_the_content(content: Seq<u8>)
    ensures
        digest_text(content) == outside::hex_text(outside::sha256_of(content)),
{
}

/// A download is taken exactly where its digest is the pinned checksum, in whatever case that is
/// written.
pub proof fn only_pinned_content_is_taken(content: Seq<u8>, plugin: LockedV)
    ensures
        is_as_pinned(content, plugin) <==> outside::hex_text(outside::sha256_of(content)) == text::lowered(
            plugin.sha256,
        ),
        plugin.sha256 == outside::hex_text(outside::sha256_of(content)) && text::lowered(plugin.sha256)
            == plugin.sha256 ==> is_as_pinned(content, plugin),
{
}

} // verus!
