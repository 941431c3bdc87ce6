//! `down`: destroying an environment, or all of a project.

use vstd::prelude::*;

use crate::config::{Capability, Isolation};
use crate::error::{error_text, CliError, CliErrorV};
use crate::journal::{self, JournalV, OperationJournal, OperationKind, OperationStatus};
use crate::lifecycle::DownOptions;
use crate::output::OutputFormat;
use crate::prepared::{
    self, all_planned, contract_views, contracts_of, planned_of, prepared_views, PlanContractEntry, PreparedCapability, PreparedV,
    DESTROY_ORDER,
};
use crate::project::LoadedProject;
use crate::protocol;
use crate::protocol::{DestroyRequest, DestroyResult};
use crate::text;
use crate::value;
use crate::value::{Data, DataV};
use crate::view::Shown;

verus! {

/// A destruction is forced only where a whole machine is deleted.
pub open spec fn may_force(isolation: Isolation, force: bool) -> bool {
    !force || isolation == Isolation::Machine
}

/// Rejects a forced destruction where nothing but a machine's deletion would excuse it.
pub fn validate_down_force(isolation: Isolation, force: bool) -> (r: Result<(), CliError>)
    ensures
        match r {
            Ok(()) => !force || isolation == Isolation::Machine,
            Err(e) => force && isolation != Isolation::Machine && e@ == CliErrorV::Usage(
                "`down --force` is available only for machine-isolated provider deletion when its remote lock authority is unavailable"@,
            ),
        },
        r is Ok <==> may_force(isolation, force),
{
    if force && isolation != Isolation::Machine {
        return Err(
            CliError::Usage(
                "`down --force` is available only for machine-isolated provider deletion when its remote lock authority is unavailable".to_owned(),
            ),
        );
    }
    Ok(())
}

// ---------------------------------------------------------------------------
// Commands and messages
// ---------------------------------------------------------------------------

/// A text in which every quote is closed, written out and opened again.
pub open spec fn requoted(s: Seq<char>) -> Seq<char>
    decreases s.len(),
{
    if s.len() == 0 {
        Seq::empty()
    } else if s.last() == '\'' {
        requoted(s.drop_last()) + "'\"'\"'"@
    } else {
        requoted(s.drop_last()).push(s.last())
    }
}

/// A value as a shell reads it back.
pub open spec fn quoted(s: Seq<char>) -> Seq<char> {
    if s.len() > 0 && text::all_in(s, true, true, true, "._-"@) {
        s
    } else {
        "'"@ + requoted(s) + "'"@
    }
}

/// Writes a value as a shell reads it back.
pub fn shell_quote_command_value(s: &str) -> (r: String)
    ensures
        r@ == quoted(s@),
{
    if !s.is_empty() && text::all_in_set(s, true, true, true, "._-") {
        return s.to_owned();
    }
    let chars = text::chars_of(s);
    let mut inner = String::new();
    let mut i: usize = 0;
    assert(s@.take(0) =~= Seq::<char>::empty());
    assert(inner@ =~= requoted(s@.take(0)));
    while i < chars.len()
        invariant
            chars@ == s@,
            i <= chars@.len(),
            inner@ == requoted(s@.take(i as int)),
        decreases chars.len() - i,
    {
        assert(s@.take(i + 1).drop_last() =~= s@.take(i as int));
        if chars[i] == '\'' {
            inner = text::cat2(inner.as_str(), "'\"'\"'");
        } else {
            inner.push(chars[i]);
        }
        i += 1;
    }
    assert(s@.take(s@.len() as int) =~= s@);
    text::cat3("'", inner.as_str(), "'")
}

/// Where in a word a shell is.
pub enum Quoting {
    Bare,
    Single,
    Double,
}

/// What a shell has read of a word after one more character. Between single quotes every
/// character stands for itself, and between double quotes those that start no expansion and no
/// escape. Outside of quotes only letters, digits, `.`, `_` and `-` are taken to stand for
/// themselves.
pub open spec fn reads_one(word: Seq<char>, quoting: Quoting, c: char) -> Option<(Seq<char>, Quoting)> {
    if c == '\0' {
        None
    } else {
        match quoting {
            Quoting::Single => if c == '\'' {
                Some((word, Quoting::Bare))
            } else {
                Some((word.push(c), Quoting::Single))
            },
            Quoting::Double => if c == '"' {
                Some((word, Quoting::Bare))
            } else if c == '$' || c == '`' || c == '\\' {
                None
            } else {
                Some((word.push(c), Quoting::Double))
            },
            Quoting::Bare => if c == '\'' {
                Some((word, Quoting::Single))
            } else if c == '"' {
                Some((word, Quoting::Double))
            } else if text::is_alnum(c) || c == '.' || c == '_' || c == '-' {
                Some((word.push(c), Quoting::Bare))
            } else {
                None
            },
        }
    }
}

/// What a shell has read of a word after some characters, where all of them belong to it.
pub open spec fn reads(s: Seq<char>) -> Option<(Seq<char>, Quoting)>
    decreases s.len(),
{
    if s.len() == 0 {
        Some((Seq::empty(), Quoting::Bare))
    } else {
        match reads(s.drop_last()) {
            Some((word, quoting)) => reads_one(word, quoting, s.last()),
            None => None,
        }
    }
}

/// A shell reads the text as one word with the value.
pub open spec fn is_word(s: Seq<char>, value: Seq<char>) -> bool {
    s.len() > 0 && reads(s) == Some((value, Quoting::Bare))
}

/// One more character of a word.
proof fn lemma_reads_more(s: Seq<char>, c: char)
    ensures
        reads(s.push(c)) == match reads(s) {
            Some((word, quoting)) => reads_one(word, quoting, c),
            None => None,
        },
{
    assert(s.push(c).drop_last() =~= s);
}

/// A text of ordinary characters is read as it is.
proof fn lemma_reads_plain(s: Seq<char>)
    requires
        text::all_in(s, true, true, true, "._-"@),
    ensures
        reads(s) == Some((s, Quoting::Bare)),
    decreases s.len(),
{
    reveal_strlit("._-");
    if s.len() > 0 {
        let rest = s.drop_last();
        assert(text::all_in(rest, true, true, true, "._-"@)) by {
            assert forall|i: int| 0 <= i < rest.len() implies rest[i] == s[i] by {}
        }
        lemma_reads_plain(rest);
        let c = s[s.len() - 1];
        assert(text::is_alnum(c) || "._-"@.contains(c));
        assert(rest.push(s.last()) =~= s);
    } else {
        assert(s =~= Seq::<char>::empty());
    }
}

/// After an opening quote, a text in which quotes are written out is read as the text.
proof fn lemma_reads_quoted(s: Seq<char>)
    requires
        !s.contains('\0'),
    ensures
        reads("'"@ + requoted(s)) == Some((s, Quoting::Single)),
    decreases s.len(),
{
    reveal_strlit("'");
    if s.len() == 0 {
        assert("'"@ + requoted(s) =~= Seq::<char>::empty().push('\''));
        lemma_reads_more(Seq::<char>::empty(), '\'');
        assert(s =~= Seq::<char>::empty());
    } else {
        let rest = s.drop_last();
        let c = s.last();
        assert(s.contains(s[s.len() - 1]));
        assert forall|i: int| 0 <= i < rest.len() implies rest[i] != '\0' by {
            assert(s.contains(s[i]));
        }
        lemma_reads_quoted(rest);
        let before = "'"@ + requoted(rest);
        assert(rest.push(c) =~= s);
        if c == '\'' {
            reveal_strlit("'\"'\"'");
            let one = before.push('\'');
            let two = one.push('"');
            let three = two.push('\'');
            let four = three.push('"');
            assert("'"@ + requoted(s) =~= four.push('\''));
            lemma_reads_more(before, '\'');
            lemma_reads_more(one, '"');
            lemma_reads_more(two, '\'');
            lemma_reads_more(three, '"');
            lemma_reads_more(four, '\'');
        } else {
            assert("'"@ + requoted(s) =~= before.push(c));
            lemma_reads_more(before, c);
        }
    }
}

/// A shell reads what is written for a value as one word with that value, whatever it holds, and
/// ordinary values are written as they are.
pub proof fn quoting_keeps_the_value(value: Seq<char>)
    requires
        !value.contains('\0'),
    ensures
        is_word(quoted(value), value),
        value.len() > 0 && text::all_in(value, true, true, true, "._-"@) ==> quoted(value) == value,
{
    if value.len() > 0 && text::all_in(value, true, true, true, "._-"@) {
        lemma_reads_plain(value);
    } else {
        lemma_reads_quoted(value);
        reveal_strlit("'");
        let before = "'"@ + requoted(value);
        assert(quoted(value) =~= before.push('\''));
        lemma_reads_more(before, '\'');
    }
}

/// The command that repeats a destruction with the same scope.
pub open spec fn retry_command(profile: Seq<char>, options: DownOptions, assume_yes: bool) -> Seq<char> {
    "lightrail --profile="@ + quoted(profile) + " down"@ + (if options.all {
        " --all"@
    } else {
        ""@
    }) + (if options.force {
        " --force"@
    } else {
        ""@
    }) + " --lock-timeout "@ + text::decimal((options.lock_timeout_ms / 1000) as nat) + "s"@ + (
    if assume_yes {
        " --yes"@
    } else {
        ""@
    })
}

/// The command that repeats a destruction with the same scope.
pub fn down_retry_command(profile: &str, options: &DownOptions, assume_yes: bool) -> (r: String)
    ensures
        r@ == retry_command(profile@, *options, assume_yes),
{
    let all = if options.all {
        " --all"
    } else {
        ""
    };
    let force = if options.force {
        " --force"
    } else {
        ""
    };
    let yes = if assume_yes {
        " --yes"
    } else {
        ""
    };
    let head = text::cat5(
        "lightrail --profile=",
        shell_quote_command_value(profile).as_str(),
        " down",
        all,
        force,
    );
    text::cat5(
        head.as_str(),
        " --lock-timeout ",
        text::number(options.lock_timeout_ms / 1000).as_str(),
        "s",
        yes,
    )
}

/// The question before a destruction.
pub open spec fn down_question(p: LoadedProject, all: bool) -> Seq<char> {
    if all {
        "Destroy every project environment visible through profile `"@ + p.profile_name@ + "`'s target?"@
    } else {
        "Destroy branch `"@ + p.git@.branch + "` with profile `"@ + p.profile_name@ + "`?"@
    }
}

/// The question before a destruction.
pub fn ask_down(p: &LoadedProject, all: bool) -> (r: String)
    ensures
        r@ == down_question(*p, all),
{
    if all {
        text::cat3(
            "Destroy every project environment visible through profile `",
            p.profile_name.as_str(),
            "`'s target?",
        )
    } else {
        text::cat5(
            "Destroy branch `",
            p.git.branch(),
            "` with profile `",
            p.profile_name.as_str(),
            "`?",
        )
    }
}

/// The line that people read after a destruction.
pub open spec fn destroyed_line(p: LoadedProject, all: bool, already_absent: bool) -> Seq<char> {
    if all && already_absent {
        "Nothing to do: profile `"@ + p.profile_name@ + "`'s target has no environments for project `"@
            + p.config.project.slug@ + "`."@
    } else if all {
        "Destroyed all project environments visible through profile `"@ + p.profile_name@ + "`'s target."@
    } else if already_absent {
        "Nothing to do: "@ + p.git@.branch + " / "@ + p.profile_name@ + " is already absent."@
    } else {
        "Destroyed "@ + p.git@.branch + " / "@ + p.profile_name@ + "."@
    }
}

/// What is shown after a destruction.
pub open spec fn shows_destroyed(
    shown: Shown,
    p: LoadedProject,
    all: bool,
    format: OutputFormat,
    already_absent: bool,
) -> bool {
    match (shown, format) {
        (Shown::Document(v), OutputFormat::Json) => v@ == DataV::Object(
            seq![
                ("already_absent"@, DataV::Bool(already_absent)),
                ("destroyed"@, DataV::Bool(true)),
            ],
        ),
        (Shown::Lines(lines), OutputFormat::Plain) => text::texts(lines@) == seq![
            if already_absent {
                "environment is already absent"@
            } else {
                "environment destroyed"@
            },
        ],
        (Shown::Lines(lines), OutputFormat::Human) => text::texts(lines@) == seq![
            destroyed_line(p, all, already_absent),
        ],
        _ => false,
    }
}

/// One line to show.
pub fn one_line(line: String) -> (r: Shown)
    ensures
        r matches Shown::Lines(lines) && text::texts(lines@) == seq![line@],
{
    let mut lines: Vec<String> = Vec::new();
    lines.push(line);
    assert(text::texts(lines@) =~= seq![line@]);
    Shown::Lines(lines)
}

/// What is shown after a destruction.
pub fn show_destroyed(p: &LoadedProject, options: &DownOptions, already_absent: bool) -> (r: Shown)
    ensures
        shows_destroyed(r, *p, options.all, options.output, already_absent),
{
    broadcast use value::lemma_object_view;

    match options.output {
        OutputFormat::Json => {
            let mut entries: Vec<(String, Data)> = Vec::new();
            entries.push(("already_absent".to_owned(), Data::Bool(already_absent)));
            entries.push(("destroyed".to_owned(), Data::Bool(true)));
            assert(value::entry_views(entries@) =~= seq![
                ("already_absent"@, DataV::Bool(already_absent)),
                ("destroyed"@, DataV::Bool(true)),
            ]);
            Shown::Document(Data::Object(entries))
        },
        OutputFormat::Plain => one_line(
            if already_absent {
                "environment is already absent".to_owned()
            } else {
                "environment destroyed".to_owned()
            },
        ),
        OutputFormat::Human => one_line(
            if options.all && already_absent {
                text::cat5(
                    "Nothing to do: profile `",
                    p.profile_name.as_str(),
                    "`'s target has no environments for project `",
                    p.config.project.slug.as_str(),
                    "`.",
                )
            } else if options.all {
                text::cat3(
                    "Destroyed all project environments visible through profile `",
                    p.profile_name.as_str(),
                    "`'s target.",
                )
            } else if already_absent {
                text::cat5(
                    "Nothing to do: ",
                    p.git.branch(),
                    " / ",
                    p.profile_name.as_str(),
                    " is already absent.",
                )
            } else {
                text::cat5("Destroyed ", p.git.branch(), " / ", p.profile_name.as_str(), ".")
            },
        ),
    }
}

/// What is shown after a destruction that the user called off.
pub open spec fn shows_cancelled(shown: Shown, format: OutputFormat) -> bool {
    match (shown, format) {
        (Shown::Document(v), OutputFormat::Json) => v@ == DataV::Object(
            seq![("cancelled"@, DataV::Bool(true)), ("destroyed"@, DataV::Bool(false))],
        ),
        (Shown::Lines(lines), OutputFormat::Plain) => text::texts(lines@) == seq!["cancelled"@],
        (Shown::Lines(lines), OutputFormat::Human) => text::texts(lines@) == seq![
            "Cancelled; no resources were changed."@,
        ],
        _ => false,
    }
}

/// What is shown after a destruction that the user called off.
pub fn show_cancelled(format: OutputFormat) -> (r: Shown)
    ensures
        shows_cancelled(r, format),
{
    broadcast use value::lemma_object_view;

    match format {
        OutputFormat::Json => {
            let mut entries: Vec<(String, Data)> = Vec::new();
            entries.push(("cancelled".to_owned(), Data::Bool(true)));
            entries.push(("destroyed".to_owned(), Data::Bool(false)));
            assert(value::entry_views(entries@) =~= seq![
                ("cancelled"@, DataV::Bool(true)),
                ("destroyed"@, DataV::Bool(false)),
            ]);
            Shown::Document(Data::Object(entries))
        },
        OutputFormat::Plain => one_line("cancelled".to_owned()),
        OutputFormat::Human => one_line("Cancelled; no resources were changed.".to_owned()),
    }
}

// ---------------------------------------------------------------------------
// Preparing
// ---------------------------------------------------------------------------

/// What is desired, with the word that it is to be destroyed.
pub open spec fn to_destroy(desired: DataV) -> DataV {
    DataV::Object(value::put(desired->Object_0, "destroy"@, DataV::Bool(true)))
}

/// What is desired of an environment that is to be destroyed.
pub fn destroy_desired(desired: &Data) -> (r: Data)
    requires
        desired@ is Object,
    ensures
        r@ == DataV::Object(value::put(desired@->Object_0, "destroy"@, DataV::Bool(true))),
        r@ == to_destroy(desired@),
{
    broadcast use value::lemma_object_view;

    let mut entries = match desired.as_object() {
        Some(entries) => value::duplicate_entries(entries),
        None => Vec::new(),
    };
    value::put_entry(&mut entries, "destroy", Data::Bool(true));
    Data::Object(entries)
}

/// The place of a capability in the order in which environments are destroyed.
pub open spec fn place_of(capability: Capability) -> int {
    if capability == DESTROY_ORDER@[0] {
        0
    } else if capability == DESTROY_ORDER@[1] {
        1
    } else if capability == DESTROY_ORDER@[2] {
        2
    } else {
        3
    }
}

/// Capabilities that stand in the order in which environments are destroyed.
pub open spec fn in_destroy_order(items: Seq<PreparedCapability>) -> bool {
    forall|i: int, j: int|
        0 <= i < j < items.len() ==> place_of((#[trigger] items[i]).capability) < place_of(
            (#[trigger] items[j]).capability,
        )
}

/// The capabilities of `down` while they are prepared, in the order in which they are
/// destroyed. The target comes first to hand and last in order.
pub struct DownPlan {
    pub target: PreparedCapability,
    /// The capability of the order whose turn it is.
    pub place: usize,
    pub prepared: Vec<PreparedCapability>,
    /// Whether all machines of a project are destroyed: each owns what runs on it, so that
    /// nothing but the machines is destroyed.
    pub machines_only: bool,
    /// Whether what cannot be prepared is passed over, as a machine is deleted with all that
    /// runs on it.
    pub forced: bool,
}

impl DownPlan {
    /// What is prepared so far stands in the order in which it is destroyed, before the current
    /// place. Nothing is passed over unless that is forced.
    pub open spec fn wf(self) -> bool {
        &&& self.place <= 3
        &&& self.target.capability == Capability::Target
        &&& in_destroy_order(self.prepared@)
        &&& forall|i: int|
            0 <= i < self.prepared@.len() ==> place_of((#[trigger] self.prepared@[i]).capability) < self.place
        &&& !self.forced ==> self.prepared@.len() == self.place && forall|i: int|
            0 <= i < self.place ==> (#[trigger] self.prepared@[i]).capability == DESTROY_ORDER@[i]
        &&& self.machines_only ==> self.prepared@.len() == 0
    }

    /// Begins with the target.
    pub fn new(target: PreparedCapability, isolation: Isolation, all: bool, force: bool) -> (r: DownPlan)
        requires
            target.capability == Capability::Target,
        ensures
            r.wf(),
            r.target == target,
            r.place == 0,
            r.prepared@.len() == 0,
            r.machines_only == (all && isolation == Isolation::Machine),
            r.forced == (force && isolation == Isolation::Machine),
    {
        let machine = isolation == Isolation::Machine;
        DownPlan {
            target,
            place: 0,
            prepared: Vec::new(),
            machines_only: all && machine,
            forced: force && machine,
        }
    }

    /// The capability that is prepared next, if any is left.
    pub fn next(&self) -> (r: Option<Capability>)
        requires
            self.wf(),
        ensures
            r == if self.place < 3 && !self.machines_only {
                Some(DESTROY_ORDER@[self.place as int])
            } else {
                None
            },
            r matches Some(c) ==> c != Capability::Target,
    {
        let order = DESTROY_ORDER;
        if self.place < 3 && !self.machines_only {
            Some(order[self.place])
        } else {
            None
        }
    }

    /// Takes a capability that was prepared, or passes over one that was not.
    pub fn take(&mut self, outcome: Result<PreparedCapability, CliError>) -> (r: Result<Option<String>, CliError>)
        requires
            old(self).wf(),
            old(self).place < 3,
            !old(self).machines_only,
            outcome matches Ok(item) ==> item.capability == DESTROY_ORDER@[old(self).place as int],
        ensures
            final(self).target == old(self).target,
            final(self).machines_only == old(self).machines_only,
            final(self).forced == old(self).forced,
            match (outcome, r) {
                (Ok(item), Ok(None)) => final(self).wf() && final(self).place == old(self).place + 1
                    && final(self).prepared@ == old(self).prepared@.push(item),
                (Err(e), Ok(Some(warning))) => old(self).forced && final(self).wf() && final(self).place
                    == old(self).place + 1 && final(self).prepared == old(self).prepared && warning@
                    == "warning: skipping "@ + DESTROY_ORDER@[old(self).place as int].text()
                    + " cleanup before forced machine deletion: "@ + error_text(e@),
                (Err(e), Err(f)) => !old(self).forced && e == f && *final(self) == *old(self),
                _ => false,
            },
    {
        let order = DESTROY_ORDER;
        match outcome {
            Ok(item) => {
                self.prepared.push(item);
                self.place = self.place + 1;
                Ok(None)
            },
            Err(error) => {
                if !self.forced {
                    return Err(error);
                }
                let capability = order[self.place];
                self.place = self.place + 1;
                Ok(
                    Some(
                        text::cat4(
                            "warning: skipping ",
                            capability.as_str(),
                            " cleanup before forced machine deletion: ",
                            error.message().as_str(),
                        ),
                    ),
                )
            },
        }
    }

    /// Everything that was prepared, with the target last.
    pub fn finish(self) -> (r: Vec<PreparedCapability>)
        requires
            self.wf(),
        ensures
            r@ == self.prepared@.push(self.target),
            in_destroy_order(r@),
    {
        let mut out = self.prepared;
        out.push(self.target);
        out
    }
}

// ---------------------------------------------------------------------------
// Destroying
// ---------------------------------------------------------------------------

/// What came of a destruction, and whether the operator asked to stop meanwhile.
pub struct DestroyAttempt {
    pub result: Result<DestroyResult, CliError>,
    pub cancelled: bool,
}

/// A destruction that left nothing.
pub open spec fn is_complete(result: DestroyResult) -> bool {
    result.destroyed && result.remaining@.len() == 0
}

/// How a destruction ends: well where nothing failed, and its journal says the same.
pub open spec fn ends_as(done: bool, failures: Seq<Seq<char>>, before: JournalV, after: JournalV) -> bool {
    &&& done == (failures.len() == 0)
    &&& after.actions == before.actions
    &&& after.status == if done {
        OperationStatus::Succeeded
    } else {
        OperationStatus::Failed
    }
    &&& !done ==> after.error is Some
}

/// A request to destroy what was prepared.
pub open spec fn asks_to_destroy(
    request: DestroyRequest,
    item: PreparedV,
    forced: bool,
    bypassed_lock: bool,
) -> bool {
    &&& request.context@ == item.context
    &&& request.current matches Some(current) && current@ == item.current.state
    &&& request.force == is_forced(forced, bypassed_lock, item.capability)
    &&& request.journal@.len() == 0
}

/// The journal after a destruction: one that left nothing completed everything, any other
/// what the plugin reports alone.
pub open spec fn journal_after_destroy(j: JournalV, item: PreparedV, result: DestroyResult) -> JournalV {
    JournalV {
        actions: journal::marked(
            j.actions,
            planned_of(item),
            protocol::journal_views(result.journal@),
            is_complete(result),
        ),
        ..j
    }
}

/// Takes note of a destruction.
pub fn record_destroy(journal: &mut OperationJournal, item: &PreparedCapability, result: &DestroyResult)
    ensures
        final(journal)@ == journal_after_destroy(old(journal)@, item@, *result),
{
    journal::mark_plugin_actions_completed(
        journal,
        item.capability,
        item.plugin_id.as_str(),
        &item.plan,
        &result.journal,
        result.destroyed && result.remaining.len() == 0,
    );
}

/// The journal of a destruction when it begins.
pub open spec fn destroy_journal(
    environment_id: Seq<char>,
    kind: OperationKind,
    operation_id: Seq<u8>,
    items: Seq<PreparedV>,
) -> JournalV {
    JournalV {
        actions: all_planned(items),
        status: OperationStatus::Applying,
        ..journal::fresh_journal(environment_id, kind, operation_id)
    }
}

/// The journal of a destruction when it begins.
pub fn begin_destroy_journal(
    environment_id: &str,
    kind: OperationKind,
    operation_id: [u8; 16],
    items: &Vec<PreparedCapability>,
) -> (r: OperationJournal)
    ensures
        r@ == destroy_journal(environment_id@, kind, operation_id@, prepared_views(items@)),
{
    let mut journal = OperationJournal::of_operation(environment_id, kind, operation_id);
    prepared::record_planned_actions(&mut journal, items);
    assert(Seq::<journal::RecordV>::empty() + all_planned(prepared_views(items@)) =~= all_planned(
        prepared_views(items@),
    ));
    journal.status = OperationStatus::Applying;
    journal
}

/// The state of `down` while capabilities are destroyed.
pub struct DownRun {
    /// The locked plans, in order.
    pub items: Vec<PreparedCapability>,
    /// The capability whose turn it is.
    pub next: usize,
    pub journal: OperationJournal,
    /// What was not destroyed.
    pub failures: Vec<String>,
    /// Whether a machine is deleted whatever becomes of what runs on it.
    pub forced: bool,
    /// Whether the lock was passed over.
    pub bypassed_lock: bool,
}

/// Whether a request skips a plugin's own checks: only in a forced deletion of a machine, and
/// for the machine itself only where its lock could not be had.
pub open spec fn is_forced(forced: bool, bypassed_lock: bool, capability: Capability) -> bool {
    forced && (capability != Capability::Target || bypassed_lock)
}

/// What destroying a capability left.
pub open spec fn destroy_failure(
    item: PreparedV,
    forced: bool,
    result: Result<DestroyResult, CliError>,
    cancelled: bool,
) -> Option<Seq<char>> {
    if cancelled {
        Some("destruction cancelled after the active plugin reached a safe stopping point"@)
    } else {
        match result {
            Ok(result) => if is_complete(result) {
                None
            } else {
                Some(
                    item.plugin_id + " left resources: "@ + text::joined(
                        text::texts(result.remaining@),
                        ", "@,
                    ),
                )
            },
            Err(e) => if forced && item.capability != Capability::Target {
                None
            } else {
                Some(item.plugin_id + ": "@ + error_text(e@))
            },
        }
    }
}

/// The warning about a failure that a forced deletion passes over.
pub open spec fn destroy_warning(
    item: PreparedV,
    forced: bool,
    result: Result<DestroyResult, CliError>,
    cancelled: bool,
) -> Option<Seq<char>> {
    match result {
        Err(e) => if !cancelled && forced && item.capability != Capability::Target {
            Some(
                "warning: "@ + item.capability.text() + " cleanup failed before forced machine deletion: "@
                    + error_text(e@),
            )
        } else {
            None
        },
        Ok(_) => None,
    }
}

impl DownRun {
    /// The current place is one of the items or their end.
    pub open spec fn wf(self) -> bool {
        self.next <= self.items@.len()
    }

    /// Begins to destroy under the lock, where the plans are still those that were shown.
    pub fn start(
        items: Vec<PreparedCapability>,
        shown: &Vec<PlanContractEntry>,
        profile: &str,
        options: &DownOptions,
        isolation: Isolation,
        bypassed_lock: bool,
        environment_id: &str,
        operation_id: [u8; 16],
    ) -> (r: Result<DownRun, CliError>)
        ensures
            match r {
                Ok(run) => {
                    &&& contracts_of(items@) == contract_views(shown@)
                    &&& run.wf()
                    &&& run.items == items
                    &&& run.next == 0
                    &&& run.journal@ == destroy_journal(
                        environment_id@,
                        OperationKind::Down,
                        operation_id@,
                        prepared_views(items@),
                    )
                    &&& run.failures@.len() == 0
                    &&& run.forced == (options.force && isolation == Isolation::Machine)
                    &&& run.bypassed_lock == bypassed_lock
                },
                Err(e) => contracts_of(items@) != contract_views(shown@) && e@ == CliErrorV::Operation(
                    "owned resources changed while waiting for the mutation lock; rerun `"@ + retry_command(
                        profile@,
                        *options,
                        false,
                    ) + "` to review the new plan"@,
                ),
            },
    {
        let now = prepared::plan_contract(&items);
        if !prepared::same_contract(&now, shown) {
            let retry = down_retry_command(profile, options, false);
            return Err(
                CliError::Operation(
                    text::cat3(
                        "owned resources changed while waiting for the mutation lock; rerun `",
                        retry.as_str(),
                        "` to review the new plan",
                    ),
                ),
            );
        }
        let journal = begin_destroy_journal(environment_id, OperationKind::Down, operation_id, &items);
        Ok(
            DownRun {
                items,
                next: 0,
                journal,
                failures: Vec::new(),
                forced: options.force && isolation == Isolation::Machine,
                bypassed_lock,
            },
        )
    }

    /// Whether a capability is left to destroy.
    pub fn pending(&self) -> (r: bool)
        ensures
            r == (self.next < self.items@.len()),
    {
        self.next < self.items.len()
    }

    /// The request that destroys the current capability.
    pub fn request(&self) -> (r: DestroyRequest)
        requires
            self.next < self.items@.len(),
        ensures
            ({
                let item = self.items@[self.next as int]@;
                &&& r.context@ == item.context
                &&& prepared::option_data(r.current) == Some(item.current.state)
                &&& r.force == is_forced(self.forced, self.bypassed_lock, item.capability)
                &&& r.journal@.len() == 0
            }),
            asks_to_destroy(r, self.items@[self.next as int]@, self.forced, self.bypassed_lock),
    {
        let item = &self.items[self.next];
        DestroyRequest {
            context: item.context.duplicate(),
            current: Some(item.current.state.duplicate()),
            force: self.forced && (item.capability != Capability::Target || self.bypassed_lock),
            journal: Vec::new(),
        }
    }

    /// Adds a failure.
    fn fail(&mut self, line: String)
        ensures
            text::texts(final(self).failures@) == text::texts(old(self).failures@).push(line@),
            final(self).failures@.len() == old(self).failures@.len() + 1,
            final(self).items == old(self).items,
            final(self).next == old(self).next,
            final(self).journal == old(self).journal,
            final(self).forced == old(self).forced,
            final(self).bypassed_lock == old(self).bypassed_lock,
    {
        let ghost before = self.failures@;
        self.failures.push(line);
        assert(text::texts(self.failures@) =~= text::texts(before).push(line@));
    }

    /// The lock is lost: nothing more is destroyed.
    pub fn lock_lost(&mut self, failure: &CliError)
        requires
            old(self).wf(),
        ensures
            final(self).wf(),
            text::texts(final(self).failures@) == text::texts(old(self).failures@).push(error_text(failure@)),
            final(self).next == final(self).items@.len(),
            final(self).items == old(self).items,
            final(self).journal == old(self).journal,
            final(self).forced == old(self).forced,
            final(self).bypassed_lock == old(self).bypassed_lock,
    {
        self.fail(failure.message());
        self.next = self.items.len();
    }

    /// Takes note of what destroying the current capability gave. After a cancellation
    /// nothing more is destroyed. Returns a warning, where a forced deletion passes over a
    /// failure.
    pub fn record(&mut self, attempt: DestroyAttempt) -> (r: Option<String>)
        requires
            old(self).wf(),
            old(self).next < old(self).items@.len(),
        ensures
            ({
                let item = old(self).items@[old(self).next as int]@;
                &&& final(self).wf()
                &&& final(self).items == old(self).items
                &&& final(self).forced == old(self).forced
                &&& final(self).bypassed_lock == old(self).bypassed_lock
                &&& final(self).next == if attempt.cancelled {
                    old(self).items@.len() as int
                } else {
                    old(self).next + 1
                }
                &&& final(self).journal@ == match attempt.result {
                    Ok(result) => journal_after_destroy(old(self).journal@, item, result),
                    Err(_) => old(self).journal@,
                }
                &&& text::texts(final(self).failures@) == match destroy_failure(
                    item,
                    old(self).forced,
                    attempt.result,
                    attempt.cancelled,
                ) {
                    Some(line) => text::texts(old(self).failures@).push(line),
                    None => text::texts(old(self).failures@),
                }
                &&& text::option_of(r) == destroy_warning(
                    item,
                    old(self).forced,
                    attempt.result,
                    attempt.cancelled,
                )
            }),
    {
        let at: usize = self.next;
        let count: usize = self.items.len();
        if let Ok(result) = &attempt.result {
            record_destroy(&mut self.journal, &self.items[at], result);
        }
        if attempt.cancelled {
            self.fail(
                "destruction cancelled after the active plugin reached a safe stopping point".to_owned(),
            );
            self.next = count;
            return None;
        }
        self.next = at + 1;
        match attempt.result {
            Ok(result) => {
                if !(result.destroyed && result.remaining.len() == 0) {
                    let remaining = text::join(&result.remaining, ", ");
                    let line = text::cat3(
                        self.items[at].plugin_id.as_str(),
                        " left resources: ",
                        remaining.as_str(),
                    );
                    self.fail(line);
                }
                None
            },
            Err(error) => {
                if self.forced && self.items[at].capability != Capability::Target {
                    return Some(
                        text::cat4(
                            "warning: ",
                            self.items[at].capability.as_str(),
                            " cleanup failed before forced machine deletion: ",
                            error.message().as_str(),
                        ),
                    );
                }
                let line = text::cat3(
                    self.items[at].plugin_id.as_str(),
                    ": ",
                    error.message().as_str(),
                );
                self.fail(line);
                None
            },
        }
    }

    /// Ends the destruction: a failure says everything that was not destroyed, and the
    /// command that tries again.
    pub fn finish(&mut self, profile: &str, options: &DownOptions) -> (r: Result<(), CliError>)
        ensures
            final(self).items == old(self).items,
            final(self).failures == old(self).failures,
            match r {
                Ok(()) => old(self).failures@.len() == 0 && final(self).journal@ == (JournalV {
                    status: OperationStatus::Succeeded,
                    ..old(self).journal@
                }),
                Err(e) => {
                    let message = "destruction incomplete; rerun `"@ + retry_command(profile@, *options, true)
                        + "`: "@ + text::joined(text::texts(old(self).failures@), "; "@);
                    &&& old(self).failures@.len() > 0
                    &&& e@ == CliErrorV::Operation(message)
                    &&& final(self).journal@ == (JournalV {
                        status: OperationStatus::Failed,
                        error: Some(message),
                        ..old(self).journal@
                    })
                },
            },
            ends_as(r is Ok, text::texts(old(self).failures@), old(self).journal@, final(self).journal@),
    {
        if self.failures.len() == 0 {
            self.journal.status = OperationStatus::Succeeded;
            return Ok(());
        }
        let retry = down_retry_command(profile, options, true);
        let message = text::cat4(
            "destruction incomplete; rerun `",
            retry.as_str(),
            "`: ",
            text::join(&self.failures, "; ").as_str(),
        );
        self.journal.status = OperationStatus::Failed;
        self.journal.error = Some(message.clone());
        Err(CliError::Operation(message))
    }
}

/// A machine whose lock is held is never destroyed without its own checks, and without force
/// nothing is.
pub proof fn force_is_scoped(forced: bool, bypassed_lock: bool, capability: Capability)
    ensures
        !forced ==> !is_forced(forced, bypassed_lock, capability),
        !bypassed_lock ==> !is_forced(forced, bypassed_lock, Capability::Target),
{
}

/// The target is destroyed after everything that runs on it.
pub proof fn target_is_destroyed_last(plan: DownPlan, i: int)
    requires
        plan.wf(),
        0 <= i < plan.prepared@.len(),
    ensures
        plan.prepared@[i].capability != Capability::Target,
        plan.prepared@.push(plan.target).last().capability == Capability::Target,
{
}

/// A destruction counts exactly where the plugin reports that everything is destroyed and that
/// nothing is left, and the operator did not stop it. A failed cleanup is passed over only before
/// a machine is deleted by force, and never for the machine itself.
pub proof fn nothing_left_is_passed_over(
    item: PreparedV,
    forced: bool,
    result: Result<DestroyResult, CliError>,
    cancelled: bool,
)
    ensures
        cancelled ==> destroy_failure(item, forced, result, cancelled) is Some,
        result matches Ok(report) && (!report.destroyed || report.remaining@.len() > 0) ==> destroy_failure(
            item,
            forced,
            result,
            cancelled,
        ) is Some,
        result is Err && (!forced || item.capability == Capability::Target) ==> destroy_failure(
            item,
            forced,
            result,
            cancelled,
        ) is Some,
        destroy_failure(item, forced, result, cancelled) is None ==> !cancelled && match result {
            Ok(report) => report.destroyed && report.remaining@.len() == 0,
            Err(_) => forced && item.capability != Capability::Target,
        },
        !cancelled && (result matches Ok(report) && report.destroyed && report.remaining@.len() == 0)
            ==> destroy_failure(item, forced, result, cancelled) is None,
        !cancelled && result is Err && forced && item.capability != Capability::Target ==> destroy_warning(
            item,
            forced,
            result,
            cancelled,
        ) is Some,
{
}

/// A destruction that was tried: of which capability, and what came of it.
pub struct TriedV {
    pub item: PreparedV,
    pub result: Result<DestroyResult, CliError>,
    pub cancelled: bool,
}

/// The failures after some destructions were tried.
pub open spec fn failures_of(tried: Seq<TriedV>, forced: bool) -> Seq<Seq<char>>
    decreases tried.len(),
{
    if tried.len() == 0 {
        Seq::empty()
    } else {
        let before = failures_of(tried.drop_last(), forced);
        let last = tried.last();
        match destroy_failure(last.item, forced, last.result, last.cancelled) {
            Some(line) => before.push(line),
            None => before,
        }
    }
}

/// `down` succeeds only where each destruction that it tried left nothing, but for cleanups that
/// the forced deletion of a machine passes over.
pub proof fn success_means_that_nothing_is_left(tried: Seq<TriedV>, forced: bool, i: int)
    requires
        failures_of(tried, forced).len() == 0,
        0 <= i < tried.len(),
    ensures
        !tried[i].cancelled,
        match tried[i].result {
            Ok(report) => report.destroyed && report.remaining@.len() == 0,
            Err(_) => forced && tried[i].item.capability != Capability::Target,
        },
    decreases tried.len(),
{
    let last = tried.last();
    nothing_left_is_passed_over(last.item, forced, last.result, last.cancelled);
    if i < tried.len() - 1 {
        assert(tried.drop_last()[i] == tried[i]);
        success_means_that_nothing_is_left(tried.drop_last(), forced, i);
    }
}

/// What is left is named in the failure.
pub proof fn what_is_left_is_named(item: PreparedV, forced: bool, report: DestroyResult)
    requires
        report.remaining@.len() == 1,
    ensures
        destroy_failure(item, forced, Ok(report), false) == Some(
            item.plugin_id + " left resources: "@ + report.remaining@[0]@,
        ),
{
    assert(text::texts(report.remaining@).len() == 1);
}

/// The journal marks the actions of a plan completed as a whole only where nothing is left.
pub proof fn journal_tells_what_is_left(j: JournalV, item: PreparedV, report: DestroyResult)
    ensures
        !report.destroyed || report.remaining@.len() > 0 ==> journal_after_destroy(j, item, report)
            == (JournalV {
            actions: journal::marked(
                j.actions,
                planned_of(item),
                protocol::journal_views(report.journal@),
                false,
            ),
            ..j
        }),
        report.destroyed && report.remaining@.len() == 0 ==> journal_after_destroy(j, item, report)
            == (JournalV {
            actions: journal::marked(
                j.actions,
                planned_of(item),
                protocol::journal_views(report.journal@),
                true,
            ),
            ..j
        }),
{
}

/// Environments are destroyed from the outside in: first the names that lead to them, then what
/// exposes them, then what runs, and last the target.
pub proof fn environments_are_destroyed_from_the_outside(plan: DownPlan)
    ensures
        place_of(Capability::Dns) < place_of(Capability::Exposure),
        place_of(Capability::Exposure) < place_of(Capability::Runtime),
        place_of(Capability::Runtime) < place_of(Capability::Target),
{
}

/// The command that goes on with a destruction keeps its profile and its scope: it ends with
/// the consent where that was given, and holds `--all` and `--force` where they were.
pub proof fn going_on_keeps_the_scope(profile: Seq<char>, options: DownOptions, assume_yes: bool)
    ensures
        ({
            let command = retry_command(profile, options, assume_yes);
            &&& text::has_prefix(command, "lightrail --profile="@ + quoted(profile) + " down"@)
            &&& options.all ==> text::has_prefix(
                command,
                "lightrail --profile="@ + quoted(profile) + " down --all"@,
            )
            &&& !options.all && options.force ==> text::has_prefix(
                command,
                "lightrail --profile="@ + quoted(profile) + " down --force"@,
            )
            &&& options.all && options.force ==> text::has_prefix(
                command,
                "lightrail --profile="@ + quoted(profile) + " down --all --force"@,
            )
            &&& !options.all && !options.force ==> text::has_prefix(
                command,
                "lightrail --profile="@ + quoted(profile) + " down --lock-timeout "@,
            )
            &&& assume_yes ==> text::has_suffix(command, "s --yes"@)
            &&& !assume_yes ==> text::has_suffix(
                command,
                " --lock-timeout "@ + text::decimal((options.lock_timeout_ms / 1000) as nat) + "s"@,
            )
        }),
{
    reveal_strlit(" down");
    reveal_strlit(" --all");
    reveal_strlit(" --force");
    reveal_strlit(" --yes");
    reveal_strlit("s --yes");
    reveal_strlit("s");
    reveal_strlit("");
    reveal_strlit(" --lock-timeout ");
    reveal_strlit(" down --all");
    reveal_strlit(" down --force");
    reveal_strlit(" down --all --force");
    reveal_strlit(" down --lock-timeout ");
    let command = retry_command(profile, options, assume_yes);
    let head = "lightrail --profile="@ + quoted(profile);
    let scope = (if options.all {
        " --all"@
    } else {
        ""@
    }) + (if options.force {
        " --force"@
    } else {
        ""@
    });
    let wait = " --lock-timeout "@ + text::decimal((options.lock_timeout_ms / 1000) as nat) + "s"@;
    let consent = if assume_yes {
        " --yes"@
    } else {
        ""@
    };
    assert(command =~= head + (" down"@ + scope) + wait + consent);
    assert(command.subrange(0, (head.len() + 5) as int) =~= head + " down"@);
    if options.all && options.force {
        assert(" down"@ + scope =~= " down --all --force"@);
        assert(command.subrange(0, (head.len() + 19) as int) =~= head + " down --all --force"@);
        assert(command.subrange(0, (head.len() + 11) as int) =~= head + " down --all"@);
    } else if options.all {
        assert(" down"@ + scope =~= " down --all"@);
        assert(command.subrange(0, (head.len() + 11) as int) =~= head + " down --all"@);
    } else if options.force {
        assert(" down"@ + scope =~= " down --force"@);
        assert(command.subrange(0, (head.len() + 13) as int) =~= head + " down --force"@);
    } else {
        assert(" down"@ + scope =~= " down"@);
        assert(command.subrange(0, (head.len() + 21) as int) =~= head + " down --lock-timeout "@);
    }
    if assume_yes {
        assert(command.subrange(command.len() - 7, command.len() as int) =~= "s --yes"@);
    } else {
        assert(command.subrange(command.len() - wait.len(), command.len() as int) =~= wait);
    }
}

/// The question before a destruction names what would be destroyed: the branch and the profile,
/// or the target of the profile where everything is meant.
pub proof fn questions_name_what_is_destroyed(p: LoadedProject)
    ensures
        down_question(p, false) == "Destroy branch `"@ + p.git@.branch + "` with profile `"@ + p.profile_name@
            + "`?"@,
        down_question(p, true) == "Destroy every project environment visible through profile `"@ + p.profile_name@
            + "`'s target?"@,
{
}

/// A destruction is reported as such: people read what was destroyed, or that there was nothing,
/// and a document tells both apart.
pub proof fn destructions_are_reported(
    shown: Shown,
    p: LoadedProject,
    all: bool,
    format: OutputFormat,
    already_absent: bool,
)
    requires
        shows_destroyed(shown, p, all, format, already_absent),
    ensures
        format == OutputFormat::Json ==> (shown matches Shown::Document(v) && value::field(v@, "destroyed"@) == Some(
            DataV::Bool(true),
        ) && value::field(v@, "already_absent"@) == Some(DataV::Bool(already_absent))),
        format == OutputFormat::Human && !all && !already_absent ==> (shown matches Shown::Lines(lines)
            && text::texts(lines@) == seq!["Destroyed "@ + p.git@.branch + " / "@ + p.profile_name@ + "."@]),
        format == OutputFormat::Human && !all && already_absent ==> (shown matches Shown::Lines(lines)
            && text::texts(lines@) == seq![
            "Nothing to do: "@ + p.git@.branch + " / "@ + p.profile_name@ + " is already absent."@,
        ]),
        format == OutputFormat::Plain && already_absent ==> (shown matches Shown::Lines(lines) && text::texts(lines@)
            == seq!["environment is already absent"@]),
        format == OutputFormat::Plain && !already_absent ==> (shown matches Shown::Lines(lines) && text::texts(
            lines@,
        ) == seq!["environment destroyed"@]),
{
    if format == OutputFormat::Json {
        reveal_strlit("destroyed");
        reveal_strlit("already_absent");
        assert("destroyed"@.len() != "already_absent"@.len());
        let entries = shown->Document_0@->Object_0;
        let names = seq!["already_absent"@, "destroyed"@];
        assert(value::names_of(entries) =~= names);
        value::lemma_distinct(entries, names);
        assert(names[0] == "already_absent"@ && names[1] == "destroyed"@);
    }
}

/// Where the question is denied, the answer says that nothing was destroyed.
pub proof fn denied_destructions_change_nothing(shown: Shown, format: OutputFormat)
    requires
        shows_cancelled(shown, format),
    ensures
        format == OutputFormat::Json ==> (shown matches Shown::Document(v) && value::field(v@, "destroyed"@) == Some(
            DataV::Bool(false),
        ) && value::field(v@, "cancelled"@) == Some(DataV::Bool(true))),
        format == OutputFormat::Plain ==> (shown matches Shown::Lines(lines) && text::texts(lines@) == seq![
            "cancelled"@,
        ]),
{
    if format == OutputFormat::Json {
        reveal_strlit("destroyed");
        reveal_strlit("cancelled");
        assert("destroyed"@[0] != "cancelled"@[0]);
        let entries = shown->Document_0@->Object_0;
        let names = seq!["cancelled"@, "destroyed"@];
        assert(value::names_of(entries) =~= names);
        value::lemma_distinct(entries, names);
        assert(names[0] == "cancelled"@ && names[1] == "destroyed"@);
    }
}

/// A destruction that left something anywhere, was not reported as done, or was stopped, does not
/// end well, and its journal says that it failed; it ends well only where every attempt left
/// nothing, but for failures that a forced deletion of the machine passes over.
pub proof fn incomplete_destructions_fail(
    tried: Seq<TriedV>,
    forced: bool,
    done: bool,
    before: JournalV,
    after: JournalV,
    i: int,
)
    requires
        ends_as(done, failures_of(tried, forced), before, after),
        0 <= i < tried.len(),
    ensures
        (tried[i].result matches Ok(report) && (report.remaining@.len() > 0 || !report.destroyed)) ==> !done
            && after.status == OperationStatus::Failed && after.error is Some,
        tried[i].cancelled ==> !done && after.status == OperationStatus::Failed,
        tried[i].result is Err && (!forced || tried[i].item.capability == Capability::Target) ==> !done
            && after.status == OperationStatus::Failed,
        done ==> after.status == OperationStatus::Succeeded,
{
    if failures_of(tried, forced).len() == 0 {
        success_means_that_nothing_is_left(tried, forced, i);
    }
}

/// A request to destroy carries the state that was seen and the settings and secrets that the plan
/// was made for, and forces only what the operator forces: never the target, unless its lock had to
/// be passed by.
pub proof fn requests_destroy_what_was_prepared(
    request: DestroyRequest,
    item: PreparedV,
    forced: bool,
    bypassed_lock: bool,
)
    requires
        asks_to_destroy(request, item, forced, bypassed_lock),
    ensures
        request.context@ == item.context,
        request.current matches Some(current) && current@ == item.current.state,
        !forced ==> !request.force,
        item.capability == Capability::Target && !bypassed_lock ==> !request.force,
        forced && item.capability != Capability::Target ==> request.force,
        request.journal@.len() == 0,
{
}

/// What is to be destroyed is desired as it was, with the word that it is to be destroyed.
pub proof fn destruction_is_desired_by_name(desired: DataV, name: Seq<char>)
    requires
        desired is Object,
    ensures
        value::field(to_destroy(desired), "destroy"@) == Some(DataV::Bool(true)),
        name != "destroy"@ ==> value::field(to_destroy(desired), name) == value::field(desired, name),
{
    value::lemma_put_found(desired->Object_0, "destroy"@, DataV::Bool(true));
    if name != "destroy"@ {
        value::lemma_put_kept(desired->Object_0, "destroy"@, DataV::Bool(true), name);
    }
}

/// Force is refused wherever others share what would be destroyed, and nothing is refused without
/// it.
pub proof fn only_machines_are_forced(isolation: Isolation)
    ensures
        may_force(isolation, false),
        may_force(Isolation::Machine, true),
        !may_force(Isolation::Project, true),
        !may_force(Isolation::Environment, true),
{
}

} // verus!
