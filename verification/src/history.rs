//! Audit-edit history: the structural diff between two versions of an
//! action, and the immutable record appended whenever an action is edited.

use vstd::prelude::*;

use crate::model::Action;

verus! {

/// One field of an [`Action`], used as the path of a diff operation.
#[derive(Debug, Clone, Copy, PartialEq, Eq, Structural)]
pub enum ActionField {
    TargetId,
    TargetUsername,
    Offense,
    ActionTaken,
    Server,
    Claimant,
    Report,
}

/// Singleton sequence when `differs` holds, empty otherwise.
pub open spec fn diff_entry(differs: bool, f: ActionField) -> Seq<ActionField> {
    if differs {
        seq![f]
    } else {
        Seq::empty()
    }
}

/// The structural diff between two actions: the ordered list of fields on
/// which they differ, one replace operation per changed field, in field
/// declaration order. Both full snapshots are stored beside it, so the diff
/// is informational, never authoritative.
pub open spec fn spec_diff(a: Action, b: Action) -> Seq<ActionField> {
    diff_entry(a.target_id@ != b.target_id@, ActionField::TargetId)
        + diff_entry(a.target_username@ != b.target_username@, ActionField::TargetUsername)
        + diff_entry(a.offense@ != b.offense@, ActionField::Offense)
        + diff_entry(a.action@ != b.action@, ActionField::ActionTaken)
        + diff_entry(a.server != b.server, ActionField::Server)
        + diff_entry(a.claimant != b.claimant, ActionField::Claimant)
        + diff_entry(a.report != b.report, ActionField::Report)
}

/// Whether two actions agree on every field (their structural forms are
/// byte-identical).
pub open spec fn actions_identical(a: Action, b: Action) -> bool {
    &&& a.target_id@ == b.target_id@
    &&& a.target_username@ == b.target_username@
    &&& a.offense@ == b.offense@
    &&& a.action@ == b.action@
    &&& a.server == b.server
    &&& a.claimant == b.claimant
    &&& a.report == b.report
}

/// The diff of two actions is empty exactly when they are identical.
pub proof fn lemma_diff_empty_iff_identical(a: Action, b: Action)
    ensures
        spec_diff(a, b).len() == 0 <==> actions_identical(a, b),
{
}

fn opt_u32_eq(a: &Option<u32>, b: &Option<u32>) -> (r: bool)
    ensures
        r == (*a == *b),
{
    match (a, b) {
        (Some(x), Some(y)) => *x == *y,
        (None, None) => true,
        _ => false,
    }
}

/// Compute the structural diff of two actions.
#[verifier::rlimit(50)]
pub fn diff_actions(a: &Action, b: &Action) -> (r: Vec<ActionField>)
    ensures
        r@ == spec_diff(*a, *b),
{
    let mut v: Vec<ActionField> = Vec::new();
    if !crate::text::str_eq(a.target_id.as_str(), b.target_id.as_str()) {
        v.push(ActionField::TargetId);
    }
    assert(v@ =~= diff_entry(a.target_id@ != b.target_id@, ActionField::TargetId));
    let ghost d1 = v@;
    if !crate::text::str_eq(a.target_username.as_str(), b.target_username.as_str()) {
        v.push(ActionField::TargetUsername);
    }
    assert(v@ =~= d1 + diff_entry(
        a.target_username@ != b.target_username@,
        ActionField::TargetUsername,
    ));
    let ghost d2 = v@;
    if !crate::text::str_eq(a.offense.as_str(), b.offense.as_str()) {
        v.push(ActionField::Offense);
    }
    assert(v@ =~= d2 + diff_entry(a.offense@ != b.offense@, ActionField::Offense));
    let ghost d3 = v@;
    if !crate::text::str_eq(a.action.as_str(), b.action.as_str()) {
        v.push(ActionField::ActionTaken);
    }
    assert(v@ =~= d3 + diff_entry(a.action@ != b.action@, ActionField::ActionTaken));
    let ghost d4 = v@;
    if a.server != b.server {
        v.push(ActionField::Server);
    }
    assert(v@ =~= d4 + diff_entry(a.server != b.server, ActionField::Server));
    let ghost d5 = v@;
    if a.claimant != b.claimant {
        v.push(ActionField::Claimant);
    }
    assert(v@ =~= d5 + diff_entry(a.claimant != b.claimant, ActionField::Claimant));
    let ghost d6 = v@;
    if !opt_u32_eq(&a.report, &b.report) {
        v.push(ActionField::Report);
    }
    assert(v@ =~= d6 + diff_entry(a.report != b.report, ActionField::Report));
    assert(v@ =~= spec_diff(*a, *b));
    v
}

/// Whether the two actions' structural forms are byte-identical; used by
/// callers to skip no-op edits.
pub fn actions_equal(a: &Action, b: &Action) -> (r: bool)
    ensures
        r == actions_identical(*a, *b),
{
    crate::text::str_eq(a.target_id.as_str(), b.target_id.as_str())
        && crate::text::str_eq(a.target_username.as_str(), b.target_username.as_str())
        && crate::text::str_eq(a.offense.as_str(), b.offense.as_str())
        && crate::text::str_eq(a.action.as_str(), b.action.as_str()) && a.server == b.server
        && a.claimant == b.claimant && opt_u32_eq(&a.report, &b.report)
}

/// Immutable audit-trail record: one edit of one action, with both full
/// snapshots, the editor, the timestamp, and the structural diff.
#[derive(Debug)]
pub struct AuditEdit {
    /// The edited action's identifier.
    pub action_id: u32,
    /// Snapshot of the action before the edit.
    pub old: Action,
    /// The new data the edit supplied.
    pub new: Action,
    /// Who made the edit.
    pub who: u64,
    /// When the edit was made.
    pub time: String,
    /// Structural diff from `old` to `new`.
    pub changes: Vec<ActionField>,
}

} // verus!
