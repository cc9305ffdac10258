//! Decisions of the database change hook that feeds the workspace event
//! stream: which patch a row change becomes, and when a coding-agent turn
//! summary change is worth announcing.
use vstd::prelude::*;

use std::collections::HashMap;

use crate::text::{meaningful, opt_str_view, spec_decimal, spec_meaningful, u64_to_decimal};

verus! {

broadcast use vstd::std_specs::hash::group_hash_axioms;

/// A summary patch is emitted when the new trimmed summary holds text and
/// differs from the old trimmed summary (or there was none).
pub open spec fn spec_should_emit(old: Option<Seq<char>>, new: Option<Seq<char>>) -> bool {
    match (spec_meaningful(old), spec_meaningful(new)) {
        (_, None) => false,
        (Some(o), Some(n)) => o != n,
        (None, Some(_)) => true,
    }
}

/// Whether a change of a coding-agent turn's summary should be announced on
/// the event stream: only when the summary text actually changes.
pub fn should_emit_coding_agent_turn_summary_patch(
    old_summary: Option<&str>,
    new_summary: Option<&str>,
) -> (r: bool)
    ensures
        r == spec_should_emit(opt_str_view(old_summary), opt_str_view(new_summary)),
{
    let old_summary = meaningful(old_summary);
    let new_summary = meaningful(new_summary);
    match (old_summary, new_summary) {
        (_, None) => false,
        (Some(o), Some(n)) => !crate::text::str_eq(o, n),
        (None, Some(_)) => true,
    }
}

/// Two successive reports of the same summary text never both emit: once a
/// summary is current, reporting it again (with any surrounding whitespace)
/// is silent.
pub proof fn law_repeated_summary_is_silent(previous: Option<Seq<char>>, summary: Seq<char>)
    requires
        spec_should_emit(previous, Some(summary)),
    ensures
        !spec_should_emit(Some(summary), Some(summary)),
{
}

/// The tables whose changes feed the event stream.
#[derive(Debug, Clone, Copy, PartialEq, Eq, Structural)]
pub enum HookTable {
    Workspaces,
    ExecutionProcesses,
    CodingAgentTurns,
    Scratch,
}

/// The kind of row change reported by SQLite.
#[derive(Debug, Clone, Copy, PartialEq, Eq, Structural)]
pub enum HookOperation {
    Insert,
    Update,
    Delete,
    Unknown,
}

/// What the pre-update hook does with a row change.
#[derive(Debug, Clone, Copy, PartialEq, Eq, Structural)]
pub enum PreupdateAction {
    Nothing,
    /// Compare the old and new summary columns and remember the turn when
    /// [`should_emit_coding_agent_turn_summary_patch`] holds.
    TrackSummaryChange,
    RemoveWorkspace,
    RemoveExecutionProcess,
    RemoveScratch,
}

/// Pre-update hook: deletions become remove patches right away (the row is
/// still readable), and turn updates are checked for a summary change.
pub fn preupdate_action(table: HookTable, operation: HookOperation) -> (r: PreupdateAction)
    ensures
        r == (match (table, operation) {
            (HookTable::CodingAgentTurns, HookOperation::Update) => PreupdateAction::TrackSummaryChange,
            (HookTable::Workspaces, HookOperation::Delete) => PreupdateAction::RemoveWorkspace,
            (HookTable::ExecutionProcesses, HookOperation::Delete) => PreupdateAction::RemoveExecutionProcess,
            (HookTable::Scratch, HookOperation::Delete) => PreupdateAction::RemoveScratch,
            _ => PreupdateAction::Nothing,
        }),
{
    match (table, operation) {
        (HookTable::CodingAgentTurns, HookOperation::Update) => PreupdateAction::TrackSummaryChange,
        (HookTable::Workspaces, HookOperation::Delete) => PreupdateAction::RemoveWorkspace,
        (HookTable::ExecutionProcesses, HookOperation::Delete) => PreupdateAction::RemoveExecutionProcess,
        (HookTable::Scratch, HookOperation::Delete) => PreupdateAction::RemoveScratch,
        _ => PreupdateAction::Nothing,
    }
}

/// What the update hook publishes for a changed row, once the row has been
/// looked up again by its rowid (`found` tells whether it still exists).
#[derive(Debug, Clone, Copy, PartialEq, Eq, Structural)]
pub enum UpdateHookAction {
    /// Nothing is published.
    Skip,
    /// An `add` patch for the record.
    AddRecord,
    /// A `replace` patch for the record.
    ReplaceRecord,
    /// A generic `/entries/{n}` patch that carries the record and the operation.
    Entry,
}

pub open spec fn spec_update_hook_action(table: HookTable, operation: HookOperation, found: bool) -> UpdateHookAction {
    if operation == HookOperation::Delete {
        UpdateHookAction::Skip
    } else if !found {
        match table {
            HookTable::Workspaces => UpdateHookAction::Skip,
            HookTable::CodingAgentTurns => UpdateHookAction::Skip,
            _ => UpdateHookAction::Entry,
        }
    } else if operation == HookOperation::Insert {
        UpdateHookAction::AddRecord
    } else {
        UpdateHookAction::ReplaceRecord
    }
}

/// Update hook: deletions were handled before the change; a row that is
/// found again becomes an `add` on insert and a `replace` otherwise; a
/// vanished workspace or turn publishes nothing, and a vanished process or
/// scratch row falls back to a generic entry patch.
pub fn update_hook_action(table: HookTable, operation: HookOperation, found: bool) -> (r: UpdateHookAction)
    ensures
        r == spec_update_hook_action(table, operation, found),
{
    match operation {
        HookOperation::Delete => UpdateHookAction::Skip,
        _ => {
            if !found {
                match table {
                    HookTable::Workspaces => UpdateHookAction::Skip,
                    HookTable::CodingAgentTurns => UpdateHookAction::Skip,
                    _ => UpdateHookAction::Entry,
                }
            } else {
                match operation {
                    HookOperation::Insert => UpdateHookAction::AddRecord,
                    _ => UpdateHookAction::ReplaceRecord,
                }
            }
        },
    }
}

/// Whether publishing a changed record is followed by a refresh of the owning
/// workspace (its running/errored status depends on processes and turns).
pub fn refreshes_workspace(table: HookTable, action: UpdateHookAction) -> (r: bool)
    ensures
        r == ((table == HookTable::ExecutionProcesses || table == HookTable::CodingAgentTurns)
            && (action == UpdateHookAction::AddRecord || action == UpdateHookAction::ReplaceRecord)),
{
    match (table, action) {
        (HookTable::ExecutionProcesses, UpdateHookAction::AddRecord) => true,
        (HookTable::ExecutionProcesses, UpdateHookAction::ReplaceRecord) => true,
        (HookTable::CodingAgentTurns, UpdateHookAction::AddRecord) => true,
        (HookTable::CodingAgentTurns, UpdateHookAction::ReplaceRecord) => true,
        _ => false,
    }
}

/// The operation name written into a generic entry patch.
pub fn db_op_name(operation: HookOperation) -> (r: &'static str)
    ensures
        r@ == (match operation {
            HookOperation::Insert => "insert"@,
            HookOperation::Delete => "delete"@,
            HookOperation::Update => "update"@,
            HookOperation::Unknown => "unknown"@,
        }),
{
    match operation {
        HookOperation::Insert => "insert",
        HookOperation::Delete => "delete",
        HookOperation::Update => "update",
        HookOperation::Unknown => "unknown",
    }
}

/// Counter that numbers generic entry patches `/entries/1`, `/entries/2`, ...
pub struct EntryCounter {
    pub count: u64,
}

impl EntryCounter {
    pub fn new() -> (r: Self)
        ensures
            r.count == 0,
    {
        EntryCounter { count: 0 }
    }

    /// Advances the counter and returns the number of the next entry.
    pub fn next_entry(&mut self) -> (r: u64)
        requires
            old(self).count < u64::MAX,
        ensures
            r == old(self).count + 1,
            final(self).count == r,
    {
        self.count = self.count + 1;
        self.count
    }
}

/// The path of the `n`-th generic entry patch.
pub fn entry_path(n: u64) -> (r: String)
    ensures
        r@ == "/entries/"@ + spec_decimal(n as nat),
{
    let mut p = String::new();
    p.append("/entries/");
    let d = u64_to_decimal(n);
    p.append(d.as_str());
    p
}

/// The recorded changes after the pre-update of a turn.
pub open spec fn spec_track(changes: Map<i64, u128>, rowid: i64, execution_process_id: u128, old_summary: Option<Seq<char>>, new_summary: Option<Seq<char>>) -> Map<i64, u128> {
    if spec_should_emit(old_summary, new_summary) {
        changes.insert(rowid, execution_process_id)
    } else {
        changes
    }
}

/// The recorded changes after the update hook of a row, and the process
/// whose summary patch it publishes.
pub open spec fn spec_take(changes: Map<i64, u128>, rowid: i64, operation: HookOperation) -> (Map<i64, u128>, Option<u128>) {
    if operation == HookOperation::Update {
        (changes.remove(rowid), if changes.dom().contains(rowid) { Some(changes[rowid]) } else { None })
    } else {
        (changes, None)
    }
}

/// Coding-agent turns whose summary changed in an update that is under way,
/// by rowid, with the execution process each turn belongs to. The pre-update
/// hook records a change; the update hook that follows takes it out and
/// publishes a summary patch for the process.
pub struct TurnSummaryChanges {
    changed: HashMap<i64, u128>,
}

impl TurnSummaryChanges {
    pub closed spec fn view(&self) -> Map<i64, u128> {
        self.changed@
    }

    pub fn new() -> (r: Self)
        ensures
            r@ == Map::<i64, u128>::empty(),
    {
        TurnSummaryChanges { changed: HashMap::new() }
    }

    /// Pre-update of a turn: remembers the turn when its summary text
    /// actually changes, and tells whether it did.
    pub fn track(&mut self, rowid: i64, execution_process_id: u128, old_summary: Option<&str>, new_summary: Option<&str>) -> (r: bool)
        ensures
            r == spec_should_emit(opt_str_view(old_summary), opt_str_view(new_summary)),
            final(self)@ == spec_track(old(self)@, rowid, execution_process_id, opt_str_view(old_summary), opt_str_view(new_summary)),
    {
        if should_emit_coding_agent_turn_summary_patch(old_summary, new_summary) {
            self.changed.insert(rowid, execution_process_id);
            true
        } else {
            false
        }
    }

    /// Update hook for a turn: on an update, takes out the summary change
    /// recorded for the row, giving the process whose summary patch to
    /// publish; other operations take nothing.
    pub fn take_on_update(&mut self, rowid: i64, operation: HookOperation) -> (r: Option<u128>)
        ensures
            (final(self)@, r) == spec_take(old(self)@, rowid, operation),
    {
        match operation {
            HookOperation::Update => self.changed.remove(&rowid),
            _ => None,
        }
    }
}

/// A summary change recorded by the pre-update hook is published by the
/// update of the same row exactly once: the first update takes the turn's
/// process id, a second update of the row finds nothing. A pre-update that
/// does not change the summary text publishes nothing new.
pub proof fn law_summary_change_published_once(
    changes: Map<i64, u128>,
    rowid: i64,
    execution_process_id: u128,
    old_summary: Option<Seq<char>>,
    new_summary: Option<Seq<char>>,
)
    ensures
        ({
            let tracked_changes = spec_track(changes, rowid, execution_process_id, old_summary, new_summary);
            let (after_first, first) = spec_take(tracked_changes, rowid, HookOperation::Update);
            let (_, second) = spec_take(after_first, rowid, HookOperation::Update);
            &&& spec_should_emit(old_summary, new_summary) ==> first == Some(execution_process_id)
            &&& !spec_should_emit(old_summary, new_summary) ==> first == spec_take(changes, rowid, HookOperation::Update).1
            &&& second is None
        }),
{
}

} // verus!
