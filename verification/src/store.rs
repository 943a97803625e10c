//! Persistence engine model: the typed store of reports, actions, message
//! links and audit edits, with exact contracts for every operation.
//!
//! Identifiers are allocated like rowids: the `n`-th inserted report (or
//! action) has id `n`, counted from 1, and entities are never physically
//! deleted, so an id is an index into the insertion sequence. Status
//! updates are unconditional here; the guards (ownership, claimability)
//! belong to the lifecycle controller.

use vstd::prelude::*;

use crate::history::{spec_diff, AuditEdit};
use crate::history::diff_actions;
use crate::model::{Action, Report, ReportStatus};

verus! {

/// Typed failures the store itself can report.
#[derive(Debug, Clone, Copy, PartialEq, Eq, Structural)]
pub enum StoreError {
    /// The action id does not exist.
    ActionNotFound(u32),
    /// The consistency probe found a violated invariant.
    Inconsistent,
}

/// Pointer from a report or action id to the (channel, message) pair of its
/// rendered representation.
#[derive(Debug, Clone, Copy, PartialEq, Eq, Structural)]
pub struct MessageLink {
    /// Report or action id, depending on which table the link lives in.
    pub entity: u32,
    /// Channel identifier of the rendered message.
    pub channel: u64,
    /// Message identifier of the rendered message.
    pub message: u64,
}

/// The first link for `id`, if any; mirrors a point lookup that returns the
/// earliest inserted row.
pub open spec fn spec_find_link(links: Seq<MessageLink>, id: int) -> Option<(u64, u64)>
    decreases links.len(),
{
    if links.len() == 0 {
        None
    } else if links[0].entity == id {
        Some((links[0].channel, links[0].message))
    } else {
        spec_find_link(links.drop_first(), id)
    }
}

/// Index of the first action whose back-reference is `rid`, if any.
pub open spec fn spec_action_for_report(actions: Seq<Action>, rid: u32) -> Option<int>
    decreases actions.len(),
{
    if actions.len() == 0 {
        None
    } else if actions[0].report == Some(rid) {
        Some(0int)
    } else {
        match spec_action_for_report(actions.drop_first(), rid) {
            Some(i) => Some(i + 1),
            None => None,
        }
    }
}

proof fn lemma_action_for_report_found(actions: Seq<Action>, rid: u32, i: int)
    requires
        0 <= i < actions.len(),
        actions[i].report == Some(rid),
        forall|k: int| 0 <= k < i ==> actions[k].report != Some(rid),
    ensures
        spec_action_for_report(actions, rid) == Some(i),
    decreases i,
{
    if i > 0 {
        lemma_action_for_report_found(actions.drop_first(), rid, i - 1);
    }
}

proof fn lemma_action_for_report_none(actions: Seq<Action>, rid: u32)
    requires
        forall|k: int| 0 <= k < actions.len() ==> actions[k].report != Some(rid),
    ensures
        spec_action_for_report(actions, rid) is None,
    decreases actions.len(),
{
    if actions.len() > 0 {
        lemma_action_for_report_none(actions.drop_first(), rid);
    }
}

/// A report that carries a claimant has left the open state.
pub open spec fn claimant_consistent(reports: Seq<Report>) -> bool {
    forall|i: int|
        0 <= i < reports.len() && (#[trigger] reports[i]).claimant is Some ==> reports[i].report_status
            != ReportStatus::Open
}

/// Every action's back-reference points at an existing, closed report.
pub open spec fn action_reports_closed(actions: Seq<Action>, reports: Seq<Report>) -> bool {
    forall|i: int|
        0 <= i < actions.len() ==> ((#[trigger] actions[i]).report matches Some(r) ==> 1 <= r
            <= reports.len() && reports[r - 1].report_status == ReportStatus::Closed)
}

/// At most one action references any given report.
pub open spec fn actions_unique(actions: Seq<Action>) -> bool {
    forall|i: int, j: int|
        #![trigger actions[i], actions[j]]
        0 <= i < j < actions.len() && actions[i].report is Some ==> actions[i].report
            != actions[j].report
}

/// No two links name the same entity.
pub open spec fn links_unique(links: Seq<MessageLink>) -> bool {
    forall|i: int, j: int|
        #![trigger links[i], links[j]]
        0 <= i < j < links.len() ==> links[i].entity != links[j].entity
}

/// Every link points at an entity that exists.
pub open spec fn links_resolve(links: Seq<MessageLink>, n: int) -> bool {
    forall|i: int| 0 <= i < links.len() ==> 1 <= (#[trigger] links[i]).entity <= n
}

/// Every audit-edit record names an action that exists.
pub open spec fn edit_refs_resolve(edits: Seq<AuditEdit>, n: int) -> bool {
    forall|i: int| 0 <= i < edits.len() ==> 1 <= (#[trigger] edits[i]).action_id <= n
}

/// The report after a claim: status Claimed, claimant set.
pub open spec fn with_claim(r: Report, c: u64) -> Report {
    Report { report_status: ReportStatus::Claimed, claimant: Some(c), ..r }
}

/// The report with only its status changed.
pub open spec fn with_status(r: Report, st: ReportStatus) -> Report {
    Report { report_status: st, ..r }
}

/// The stored action after an edit: the four operator-editable text fields
/// are taken from the edit, everything else keeps its stored value.
pub open spec fn applied_edit(a: Action, m: Action) -> Action {
    Action {
        target_id: m.target_id,
        target_username: m.target_username,
        offense: m.offense,
        action: m.action,
        ..a
    }
}

/// The store: sole owner of all entity state.
pub struct Store {
    /// Reports, in insertion order; the report with id `n` is at index `n-1`.
    pub reports: Vec<Report>,
    /// Actions, in insertion order; the action with id `n` is at index `n-1`.
    pub actions: Vec<Action>,
    /// Links from report ids to their rendered messages.
    pub report_links: Vec<MessageLink>,
    /// Links from action ids to their rendered messages.
    pub action_links: Vec<MessageLink>,
    /// Append-only audit-edit history.
    pub edits: Vec<AuditEdit>,
}

impl Store {
    /// Whether `id` names an existing report.
    pub open spec fn report_id_valid(self, id: u32) -> bool {
        1 <= id && id <= self.reports@.len()
    }

    /// The report with the given id.
    pub open spec fn spec_report(self, id: u32) -> Report
        recommends
            self.report_id_valid(id),
    {
        self.reports@[id - 1]
    }

    /// Whether `id` names an existing action.
    pub open spec fn action_id_valid(self, id: u32) -> bool {
        1 <= id && id <= self.actions@.len()
    }

    /// The action with the given id.
    pub open spec fn spec_action(self, id: u32) -> Action
        recommends
            self.action_id_valid(id),
    {
        self.actions@[id - 1]
    }

    /// An empty store, the state after schema migration of a fresh database.
    pub fn new() -> (r: Store)
        ensures
            r.reports@.len() == 0,
            r.actions@.len() == 0,
            r.report_links@.len() == 0,
            r.action_links@.len() == 0,
            r.edits@.len() == 0,
    {
        Store {
            reports: Vec::new(),
            actions: Vec::new(),
            report_links: Vec::new(),
            action_links: Vec::new(),
            edits: Vec::new(),
        }
    }

    /// Insert a new report; the id is allocated by the insertion itself.
    pub fn add_report(&mut self, report: Report) -> (id: u32)
        requires
            old(self).reports@.len() < u32::MAX,
        ensures
            id == old(self).reports@.len() + 1,
            final(self).reports@ == old(self).reports@.push(report),
            final(self).actions@ == old(self).actions@,
            final(self).report_links@ == old(self).report_links@,
            final(self).action_links@ == old(self).action_links@,
            final(self).edits@ == old(self).edits@,
    {
        self.reports.push(report);
        self.reports.len() as u32
    }

    /// Insert a new action; the id is allocated by the insertion itself.
    pub fn add_action(&mut self, action: Action) -> (id: u32)
        requires
            old(self).actions@.len() < u32::MAX,
        ensures
            id == old(self).actions@.len() + 1,
            final(self).actions@ == old(self).actions@.push(action),
            final(self).reports@ == old(self).reports@,
            final(self).report_links@ == old(self).report_links@,
            final(self).action_links@ == old(self).action_links@,
            final(self).edits@ == old(self).edits@,
    {
        self.actions.push(action);
        self.actions.len() as u32
    }

    /// Point lookup of a report; absence is a normal result.
    pub fn get_report_from_id(&self, report_id: u32) -> (r: Option<Report>)
        ensures
            r == if self.report_id_valid(report_id) {
                Some(self.spec_report(report_id))
            } else {
                None::<Report>
            },
    {
        if report_id >= 1 && (report_id as usize) <= self.reports.len() {
            Some(self.reports[(report_id - 1) as usize].clone())
        } else {
            None
        }
    }

    /// Point lookup of an action; absence is a normal result.
    pub fn get_action_from_id(&self, id: u32) -> (r: Option<Action>)
        ensures
            r == if self.action_id_valid(id) {
                Some(self.spec_action(id))
            } else {
                None::<Action>
            },
    {
        if id >= 1 && (id as usize) <= self.actions.len() {
            Some(self.actions[(id - 1) as usize].clone())
        } else {
            None
        }
    }

    /// Unconditionally set a report to Claimed with the given claimant; a
    /// missing id is a no-op. The claimability check is the lifecycle
    /// controller's responsibility, not the store's.
    pub fn claim_report(&mut self, id: u32, claimant: u64)
        ensures
            old(self).report_id_valid(id) ==> final(self).reports@ == old(self).reports@.update(
                id - 1,
                with_claim(old(self).spec_report(id), claimant),
            ),
            !old(self).report_id_valid(id) ==> final(self).reports@ == old(self).reports@,
            final(self).actions@ == old(self).actions@,
            final(self).report_links@ == old(self).report_links@,
            final(self).action_links@ == old(self).action_links@,
            final(self).edits@ == old(self).edits@,
    {
        if id >= 1 && (id as usize) <= self.reports.len() {
            let i = (id - 1) as usize;
            let mut r = self.reports[i].clone();
            r.report_status = ReportStatus::Claimed;
            r.claimant = Some(claimant);
            self.reports.set(i, r);
        }
    }

    /// Unconditionally set a report's status to Closed; a missing id is a
    /// no-op.
    pub fn close_report(&mut self, id: u32)
        ensures
            old(self).report_id_valid(id) ==> final(self).reports@ == old(self).reports@.update(
                id - 1,
                with_status(old(self).spec_report(id), ReportStatus::Closed),
            ),
            !old(self).report_id_valid(id) ==> final(self).reports@ == old(self).reports@,
            final(self).actions@ == old(self).actions@,
            final(self).report_links@ == old(self).report_links@,
            final(self).action_links@ == old(self).action_links@,
            final(self).edits@ == old(self).edits@,
    {
        if id >= 1 && (id as usize) <= self.reports.len() {
            let i = (id - 1) as usize;
            let mut r = self.reports[i].clone();
            r.report_status = ReportStatus::Closed;
            self.reports.set(i, r);
        }
    }

    /// Unconditionally set a report's status to Expired; a missing id is a
    /// no-op.
    pub fn expire_report(&mut self, rid: u32)
        ensures
            old(self).report_id_valid(rid) ==> final(self).reports@ == old(self).reports@.update(
                rid - 1,
                with_status(old(self).spec_report(rid), ReportStatus::Expired),
            ),
            !old(self).report_id_valid(rid) ==> final(self).reports@ == old(self).reports@,
            final(self).actions@ == old(self).actions@,
            final(self).report_links@ == old(self).report_links@,
            final(self).action_links@ == old(self).action_links@,
            final(self).edits@ == old(self).edits@,
    {
        if rid >= 1 && (rid as usize) <= self.reports.len() {
            let i = (rid - 1) as usize;
            let mut r = self.reports[i].clone();
            r.report_status = ReportStatus::Expired;
            self.reports.set(i, r);
        }
    }

    /// The claimant of a report, if the report exists and has one.
    pub fn who_claimed_report(&self, id: u32) -> (r: Option<u64>)
        ensures
            r == if self.report_id_valid(id) {
                self.spec_report(id).claimant
            } else {
                None::<u64>
            },
    {
        if id >= 1 && (id as usize) <= self.reports.len() {
            self.reports[(id - 1) as usize].claimant
        } else {
            None
        }
    }

    /// Record the rendered message of a report. The store does not enforce
    /// idempotency: callers must make at most one call per report.
    pub fn add_report_message(&mut self, channel_id: u64, message_id: u64, report_id: u32)
        ensures
            final(self).report_links@ == old(self).report_links@.push(
                MessageLink { entity: report_id, channel: channel_id, message: message_id },
            ),
            final(self).reports@ == old(self).reports@,
            final(self).actions@ == old(self).actions@,
            final(self).action_links@ == old(self).action_links@,
            final(self).edits@ == old(self).edits@,
    {
        self.report_links.push(
            MessageLink { entity: report_id, channel: channel_id, message: message_id },
        );
    }

    /// Record the rendered message of an action. The store does not enforce
    /// idempotency: callers must make at most one call per action.
    pub fn add_action_message(&mut self, channel_id: u64, message_id: u64, action_id: u32)
        ensures
            final(self).action_links@ == old(self).action_links@.push(
                MessageLink { entity: action_id, channel: channel_id, message: message_id },
            ),
            final(self).reports@ == old(self).reports@,
            final(self).actions@ == old(self).actions@,
            final(self).report_links@ == old(self).report_links@,
            final(self).edits@ == old(self).edits@,
    {
        self.action_links.push(
            MessageLink { entity: action_id, channel: channel_id, message: message_id },
        );
    }

    /// The (channel, message) pair of a report's rendered message, if linked.
    pub fn get_report_message(&self, id: u32) -> (r: Option<(u64, u64)>)
        ensures
            r == spec_find_link(self.report_links@, id as int),
    {
        find_link(&self.report_links, id as usize)
    }

    /// The (channel, message) pair of an action's rendered message, if
    /// linked.
    pub fn get_action_message(&self, id: u32) -> (r: Option<(u64, u64)>)
        ensures
            r == spec_find_link(self.action_links@, id as int),
    {
        find_link(&self.action_links, id as usize)
    }

    /// The rendered message of the action that resolved a report: joins
    /// through the action's back-reference. `None` (no such action, or an
    /// action without a link yet) surfaces the recoverable inconsistency to
    /// the caller rather than hiding it.
    pub fn get_action_message_from_report_id(&self, id: u32) -> (r: Option<(u64, u64)>)
        ensures
            r == match spec_action_for_report(self.actions@, id) {
                Some(i) => spec_find_link(self.action_links@, i + 1),
                None => None,
            },
    {
        let n = self.actions.len();
        let mut j: usize = 0;
        while j < n
            invariant
                n == self.actions@.len(),
                j <= n,
                forall|k: int| 0 <= k < j ==> self.actions@[k].report != Some(id),
            decreases n - j,
        {
            let found = match &self.actions[j].report {
                Some(r) => *r == id,
                None => false,
            };
            if found {
                proof {
                    lemma_action_for_report_found(self.actions@, id, j as int);
                }
                return find_link(&self.action_links, j + 1);
            }
            j = j + 1;
        }
        proof {
            lemma_action_for_report_none(self.actions@, id);
        }
        None
    }

    /// Edit an action: update the operator-editable fields of the stored
    /// row and append an immutable audit-edit record in the same logical
    /// operation. Fails exactly when the id does not exist, leaving the
    /// store unchanged. The store does not special-case no-op edits: a
    /// record is appended even when nothing changed.
    pub fn edit_action(&mut self, id: u32, audit: Action, now: String, who: u64) -> (r: Result<
        (),
        StoreError,
    >)
        ensures
            r is Err <==> !old(self).action_id_valid(id),
            r is Err ==> r == Err::<(), StoreError>(StoreError::ActionNotFound(id))
                && final(self).actions@ == old(self).actions@
                && final(self).edits@ == old(self).edits@,
            r is Ok ==> final(self).actions@ == old(self).actions@.update(
                id - 1,
                applied_edit(old(self).spec_action(id), audit),
            ),
            r is Ok ==> final(self).edits@.len() == old(self).edits@.len() + 1
                && final(self).edits@.drop_last() == old(self).edits@ && ({
                let e = final(self).edits@.last();
                &&& e.action_id == id
                &&& e.old == old(self).spec_action(id)
                &&& e.new == audit
                &&& e.who == who
                &&& e.time == now
                &&& e.changes@ == spec_diff(old(self).spec_action(id), audit)
            }),
            final(self).reports@ == old(self).reports@,
            final(self).report_links@ == old(self).report_links@,
            final(self).action_links@ == old(self).action_links@,
    {
        if id >= 1 && (id as usize) <= self.actions.len() {
            let i = (id - 1) as usize;
            let old_a = self.actions[i].clone();
            let changes = diff_actions(&old_a, &audit);
            let stored = Action {
                target_id: audit.target_id.clone(),
                target_username: audit.target_username.clone(),
                offense: audit.offense.clone(),
                action: audit.action.clone(),
                server: old_a.server,
                claimant: old_a.claimant,
                report: old_a.report,
            };
            self.actions.set(i, stored);
            self.edits.push(
                AuditEdit { action_id: id, old: old_a, new: audit, who: who, time: now, changes: changes },
            );
            Ok(())
        } else {
            Err(StoreError::ActionNotFound(id))
        }
    }
}

/// Linear scan for the first link of an entity.
fn find_link(links: &Vec<MessageLink>, id: usize) -> (r: Option<(u64, u64)>)
    ensures
        r == spec_find_link(links@, id as int),
{
    let mut i: usize = 0;
    proof {
        assert(links@.skip(0) =~= links@);
    }
    while i < links.len()
        invariant
            i <= links@.len(),
            spec_find_link(links@, id as int) == spec_find_link(links@.skip(i as int), id as int),
        decreases links@.len() - i,
    {
        proof {
            assert(links@.skip(i as int)[0] == links@[i as int]);
            assert(links@.skip(i as int).drop_first() =~= links@.skip(i as int + 1));
        }
        let l = links[i];
        if (l.entity as usize) == id {
            return Some((l.channel, l.message));
        }
        i = i + 1;
    }
    None
}

} // verus!
