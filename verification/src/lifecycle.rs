//! Lifecycle controller: the state machine over report status, the
//! ownership guards, the report/action coupling, and the expiry sweep.
//!
//! The controller owns the store and is the only mutating path that keeps
//! the cross-entity invariants: a claimed-or-closed report is the only kind
//! that carries a claimant; at most one action ever references a report;
//! a message link is recorded at most once per entity and always points at
//! an entity that exists.
//!
//! Closing a report with an action is a compound operation. Here it is
//! atomic by construction (a single exclusive mutation covers the status
//! change and the action insert), which is the transactional resolution of
//! the crash window between the two steps; the action's message link is
//! recorded afterwards by the collaborator that rendered the message, and
//! a still-missing link is surfaced as an absent lookup result, never
//! hidden. The same exclusivity plays the part of the compare-and-swap fix
//! for racing closers: only a close that observes status Claimed proceeds,
//! every other one is rejected with a typed error.

use vstd::prelude::*;

use crate::history::{actions_identical, spec_diff};
use crate::history::actions_equal;
use crate::model::{Action, AuditModal, Report, ReportStatus};
use crate::stats::{
    count_bad_backrefs, count_bad_edit_refs, count_bad_links, store_consistent,
};
use crate::store::{
    action_reports_closed, actions_unique, claimant_consistent, edit_refs_resolve, links_resolve,
    links_unique, spec_find_link, with_claim, with_status, MessageLink, Store,
};
use crate::text::{parse_utc_seconds, utc_timestamp_of};

verus! {

/// Typed rejections of lifecycle operations. All of them are normal,
/// expected outcomes, not storage failures.
#[derive(Debug, Clone, Copy, PartialEq, Eq, Structural)]
pub enum LifecycleError {
    /// The report or action id does not exist.
    NotFound,
    /// The actor does not own the claim (authorization failure).
    NotOwner,
    /// The report is already claimed or closed, so it cannot be claimed.
    AlreadyClaimed,
    /// The report is not in the claimed state, so it cannot be closed; this
    /// is also the typed rejection a racing second closer observes.
    NotClaimed,
    /// The entity already has a live message link.
    AlreadyLinked,
}

/// Seconds after which an open report expires: 48 hours.
pub const EXPIRY_SECONDS: i64 = 172800;

/// Whether a report is due for expiry at instant `now`: it is still open,
/// its creation timestamp parses, and its age exceeds the threshold. A
/// report whose timestamp does not parse is skipped, never expired.
pub open spec fn should_expire(r: Report, now: i64) -> bool {
    &&& r.report_status == ReportStatus::Open
    &&& match utc_timestamp_of(r.time@) {
        Some(t) => now - t > EXPIRY_SECONDS,
        None => false,
    }
}

/// Ids of the reports a sweep at instant `now` expires, in increasing
/// order; the id of the report at index `i` is `i + 1`.
pub open spec fn sweep_ids(reports: Seq<Report>, now: i64) -> Seq<u32>
    decreases reports.len(),
{
    if reports.len() == 0 {
        Seq::empty()
    } else {
        sweep_ids(reports.drop_last(), now) + if should_expire(reports.last(), now) {
            seq![reports.len() as u32]
        } else {
            Seq::empty()
        }
    }
}

/// The new action a close-with-action records: operator-supplied text, the
/// report's platform, the closing actor as claimant, and the back-reference.
pub open spec fn close_action(details: AuditModal, rep: Report, actor: u64, id: u32) -> Action {
    Action {
        target_id: details.id,
        target_username: details.name,
        offense: details.reason,
        action: details.action,
        server: rep.location,
        claimant: actor,
        report: Some(id),
    }
}

/// The action an edit proposes: the four operator-editable fields from the
/// form, everything else from the stored action.
pub open spec fn edited_action(a: Action, m: AuditModal) -> Action {
    Action {
        target_id: m.id,
        target_username: m.name,
        offense: m.reason,
        action: m.action,
        ..a
    }
}

/// The moderation backend: the lifecycle controller wrapped around the
/// store it exclusively owns.
pub struct LurkChan {
    store: Store,
}

impl LurkChan {
    /// The current store state.
    pub closed spec fn s(self) -> Store {
        self.store
    }

    /// The maintained well-formedness of the whole state.
    pub open spec fn inv(self) -> bool {
        &&& claimant_consistent(self.s().reports@)
        &&& action_reports_closed(self.s().actions@, self.s().reports@)
        &&& actions_unique(self.s().actions@)
        &&& links_unique(self.s().report_links@)
        &&& links_unique(self.s().action_links@)
        &&& links_resolve(self.s().report_links@, self.s().reports@.len() as int)
        &&& links_resolve(self.s().action_links@, self.s().actions@.len() as int)
        &&& edit_refs_resolve(self.s().edits@, self.s().actions@.len() as int)
        &&& self.s().reports@.len() <= u32::MAX
        &&& self.s().actions@.len() <= u32::MAX
    }

    /// A fresh, empty backend.
    pub fn new() -> (r: LurkChan)
        ensures
            r.inv(),
            r.s().reports@.len() == 0,
            r.s().actions@.len() == 0,
            r.s().report_links@.len() == 0,
            r.s().action_links@.len() == 0,
            r.s().edits@.len() == 0,
    {
        LurkChan { store: Store::new() }
    }

    /// Read-only access to the store, for point lookups and aggregates.
    pub fn store(&self) -> (r: &Store)
        ensures
            *r == self.s(),
    {
        &self.store
    }

    /// Ingest a newly filed report: it enters the lifecycle open and
    /// unclaimed, whatever the submitted fields said, and gets the next id.
    pub fn submit_report(&mut self, report: Report) -> (id: u32)
        requires
            old(self).inv(),
            old(self).s().reports@.len() < u32::MAX,
        ensures
            final(self).inv(),
            id == old(self).s().reports@.len() + 1,
            final(self).s().reports@ == old(self).s().reports@.push(
                (Report {
                    report_status: ReportStatus::Open,
                    claimant: None,
                    ..report
                }),
            ),
            final(self).s().actions@ == old(self).s().actions@,
            final(self).s().report_links@ == old(self).s().report_links@,
            final(self).s().action_links@ == old(self).s().action_links@,
            final(self).s().edits@ == old(self).s().edits@,
    {
        let mut r = report;
        r.report_status = ReportStatus::Open;
        r.claimant = None;
        self.store.add_report(r)
    }

    /// Ingest a report from a bulk import, keeping its submitted status
    /// (an imported backlog is typically already closed). A claimant on a
    /// still-open report would be inconsistent and is dropped.
    pub fn import_report(&mut self, report: Report) -> (id: u32)
        requires
            old(self).inv(),
            old(self).s().reports@.len() < u32::MAX,
        ensures
            final(self).inv(),
            id == old(self).s().reports@.len() + 1,
            final(self).s().reports@ == old(self).s().reports@.push(
                (Report {
                    claimant: if report.report_status == ReportStatus::Open {
                        None
                    } else {
                        report.claimant
                    },
                    ..report
                }),
            ),
            final(self).s().actions@ == old(self).s().actions@,
            final(self).s().report_links@ == old(self).s().report_links@,
            final(self).s().action_links@ == old(self).s().action_links@,
            final(self).s().edits@ == old(self).s().edits@,
    {
        let mut r = report;
        if r.report_status == ReportStatus::Open {
            r.claimant = None;
        }
        self.store.add_report(r)
    }

    /// Record a standalone audit entry, one not tied to any report.
    pub fn record_audit(&mut self, action: Action) -> (id: u32)
        requires
            old(self).inv(),
            old(self).s().actions@.len() < u32::MAX,
        ensures
            final(self).inv(),
            id == old(self).s().actions@.len() + 1,
            final(self).s().actions@ == old(self).s().actions@.push(
                (Action { report: None, ..action }),
            ),
            final(self).s().reports@ == old(self).s().reports@,
            final(self).s().report_links@ == old(self).s().report_links@,
            final(self).s().action_links@ == old(self).s().action_links@,
            final(self).s().edits@ == old(self).s().edits@,
    {
        let mut a = action;
        a.report = None;
        self.store.add_action(a)
    }

    /// Claim a report. Succeeds exactly on an existing report that is open
    /// or expired (an expired report reopens by being claimed); the claimed
    /// and closed states are not claimable. On success the actor becomes
    /// the claimant; on any rejection nothing changes.
    pub fn claim_report(&mut self, id: u32, actor: u64) -> (r: Result<(), LifecycleError>)
        requires
            old(self).inv(),
        ensures
            final(self).inv(),
            r is Ok <==> old(self).s().report_id_valid(id) && (old(self).s().spec_report(id).report_status == ReportStatus::Open || old(self).s().spec_report(id).report_status
                == ReportStatus::Expired),
            !old(self).s().report_id_valid(id) ==> r == Err::<(), LifecycleError>(
                LifecycleError::NotFound,
            ),
            old(self).s().report_id_valid(id) && !(old(self).s().spec_report(id).report_status
                == ReportStatus::Open || old(self).s().spec_report(id).report_status
                == ReportStatus::Expired) ==> r == Err::<(), LifecycleError>(
                LifecycleError::AlreadyClaimed,
            ),
            r is Ok ==> final(self).s().reports@ == old(self).s().reports@.update(
                id - 1,
                with_claim(old(self).s().spec_report(id), actor),
            ),
            r is Err ==> final(self).s().reports@ == old(self).s().reports@,
            final(self).s().actions@ == old(self).s().actions@,
            final(self).s().report_links@ == old(self).s().report_links@,
            final(self).s().action_links@ == old(self).s().action_links@,
            final(self).s().edits@ == old(self).s().edits@,
    {
        match self.store.get_report_from_id(id) {
            None => Err(LifecycleError::NotFound),
            Some(rep) => {
                if rep.report_status == ReportStatus::Open || rep.report_status
                    == ReportStatus::Expired {
                    self.store.claim_report(id, actor);
                    Ok(())
                } else {
                    Err(LifecycleError::AlreadyClaimed)
                }
            },
        }
    }

    /// Close a claimed report with a disciplinary action. Only the current
    /// claimant may close; anyone else is rejected with `NotOwner` and
    /// nothing changes. A report not in the claimed state is rejected with
    /// `NotClaimed`; in particular a second, racing close observes the
    /// closed state and is rejected there. On success the report becomes
    /// closed and exactly one new action referencing it is recorded, in one
    /// atomic step.
    pub fn close_report(&mut self, id: u32, actor: u64, details: AuditModal) -> (r: Result<
        u32,
        LifecycleError,
    >)
        requires
            old(self).inv(),
            old(self).s().actions@.len() < u32::MAX,
        ensures
            final(self).inv(),
            r is Ok <==> old(self).s().report_id_valid(id) && old(self).s().spec_report(id).report_status == ReportStatus::Claimed && old(self).s().spec_report(id).claimant
                == Some(actor),
            !old(self).s().report_id_valid(id) ==> r == Err::<u32, LifecycleError>(
                LifecycleError::NotFound,
            ),
            old(self).s().report_id_valid(id) && old(self).s().spec_report(id).report_status
                != ReportStatus::Claimed ==> r == Err::<u32, LifecycleError>(
                LifecycleError::NotClaimed,
            ),
            old(self).s().report_id_valid(id) && old(self).s().spec_report(id).report_status
                == ReportStatus::Claimed && old(self).s().spec_report(id).claimant != Some(actor)
                ==> r == Err::<u32, LifecycleError>(LifecycleError::NotOwner),
            r matches Ok(aid) ==> aid == old(self).s().actions@.len() + 1 && final(self).s().actions@ == old(self).s().actions@.push(
                close_action(details, old(self).s().spec_report(id), actor, id),
            ) && final(self).s().reports@ == old(self).s().reports@.update(
                id - 1,
                with_status(old(self).s().spec_report(id), ReportStatus::Closed),
            ),
            r is Err ==> final(self).s().reports@ == old(self).s().reports@ && final(self).s().actions@ == old(self).s().actions@,
            final(self).s().report_links@ == old(self).s().report_links@,
            final(self).s().action_links@ == old(self).s().action_links@,
            final(self).s().edits@ == old(self).s().edits@,
    {
        match self.store.get_report_from_id(id) {
            None => Err(LifecycleError::NotFound),
            Some(rep) => {
                if !(rep.report_status == ReportStatus::Claimed) {
                    return Err(LifecycleError::NotClaimed);
                }
                let owned = match rep.claimant {
                    Some(c) => c == actor,
                    None => false,
                };
                if !owned {
                    return Err(LifecycleError::NotOwner);
                }
                let action = Action {
                    target_id: details.id,
                    target_username: details.name,
                    offense: details.reason,
                    action: details.action,
                    server: rep.location,
                    claimant: actor,
                    report: Some(id),
                };
                self.store.close_report(id);
                let aid = self.store.add_action(action);
                Ok(aid)
            },
        }
    }

    /// Close a claimed report without recording an action. The ownership
    /// guard is the same as for a close with action.
    pub fn force_close_report(&mut self, id: u32, actor: u64) -> (r: Result<(), LifecycleError>)
        requires
            old(self).inv(),
        ensures
            final(self).inv(),
            r is Ok <==> old(self).s().report_id_valid(id) && old(self).s().spec_report(id).report_status == ReportStatus::Claimed && old(self).s().spec_report(id).claimant
                == Some(actor),
            !old(self).s().report_id_valid(id) ==> r == Err::<(), LifecycleError>(
                LifecycleError::NotFound,
            ),
            old(self).s().report_id_valid(id) && old(self).s().spec_report(id).report_status
                != ReportStatus::Claimed ==> r == Err::<(), LifecycleError>(
                LifecycleError::NotClaimed,
            ),
            old(self).s().report_id_valid(id) && old(self).s().spec_report(id).report_status
                == ReportStatus::Claimed && old(self).s().spec_report(id).claimant != Some(actor)
                ==> r == Err::<(), LifecycleError>(LifecycleError::NotOwner),
            r is Ok ==> final(self).s().reports@ == old(self).s().reports@.update(
                id - 1,
                with_status(old(self).s().spec_report(id), ReportStatus::Closed),
            ),
            r is Err ==> final(self).s().reports@ == old(self).s().reports@,
            final(self).s().actions@ == old(self).s().actions@,
            final(self).s().report_links@ == old(self).s().report_links@,
            final(self).s().action_links@ == old(self).s().action_links@,
            final(self).s().edits@ == old(self).s().edits@,
    {
        match self.store.get_report_from_id(id) {
            None => Err(LifecycleError::NotFound),
            Some(rep) => {
                if !(rep.report_status == ReportStatus::Claimed) {
                    return Err(LifecycleError::NotClaimed);
                }
                let owned = match rep.claimant {
                    Some(c) => c == actor,
                    None => false,
                };
                if !owned {
                    return Err(LifecycleError::NotOwner);
                }
                self.store.close_report(id);
                Ok(())
            },
        }
    }

    /// Edit an action. Only the action's claimant may edit. A byte-identical
    /// edit is recognized as a no-op: the stored action stays as it is and
    /// no audit-edit record is written. Otherwise the operator-editable
    /// fields are updated and an immutable audit-edit record is appended in
    /// the same step.
    pub fn edit_action(&mut self, id: u32, new_fields: AuditModal, actor: u64, now: String) -> (r:
        Result<(), LifecycleError>)
        requires
            old(self).inv(),
        ensures
            final(self).inv(),
            r is Ok <==> old(self).s().action_id_valid(id) && old(self).s().spec_action(id).claimant == actor,
            !old(self).s().action_id_valid(id) ==> r == Err::<(), LifecycleError>(
                LifecycleError::NotFound,
            ),
            old(self).s().action_id_valid(id) && old(self).s().spec_action(id).claimant != actor
                ==> r == Err::<(), LifecycleError>(LifecycleError::NotOwner),
            r is Err ==> final(self).s().actions@ == old(self).s().actions@ && final(self).s().edits@ == old(self).s().edits@,
            r is Ok && actions_identical(
                old(self).s().spec_action(id),
                edited_action(old(self).s().spec_action(id), new_fields),
            ) ==> final(self).s().actions@ == old(self).s().actions@ && final(self).s().edits@
                == old(self).s().edits@,
            r is Ok && !actions_identical(
                old(self).s().spec_action(id),
                edited_action(old(self).s().spec_action(id), new_fields),
            ) ==> final(self).s().actions@ == old(self).s().actions@.update(
                id - 1,
                edited_action(old(self).s().spec_action(id), new_fields),
            ) && final(self).s().edits@.len() == old(self).s().edits@.len() + 1 && final(self).s().edits@.drop_last() == old(self).s().edits@ && ({
                let e = final(self).s().edits@.last();
                &&& e.action_id == id
                &&& e.old == old(self).s().spec_action(id)
                &&& e.new == edited_action(old(self).s().spec_action(id), new_fields)
                &&& e.who == actor
                &&& e.time == now
                &&& e.changes@ == spec_diff(
                    old(self).s().spec_action(id),
                    edited_action(old(self).s().spec_action(id), new_fields),
                )
            }),
            final(self).s().reports@ == old(self).s().reports@,
            final(self).s().report_links@ == old(self).s().report_links@,
            final(self).s().action_links@ == old(self).s().action_links@,
    {
        match self.store.get_action_from_id(id) {
            None => Err(LifecycleError::NotFound),
            Some(old_a) => {
                if old_a.claimant != actor {
                    return Err(LifecycleError::NotOwner);
                }
                let candidate = Action {
                    target_id: new_fields.id,
                    target_username: new_fields.name,
                    offense: new_fields.reason,
                    action: new_fields.action,
                    server: old_a.server,
                    claimant: old_a.claimant,
                    report: old_a.report,
                };
                if actions_equal(&old_a, &candidate) {
                    return Ok(());
                }
                let res = self.store.edit_action(id, candidate, now, actor);
                proof {
                    assert(res is Ok);
                    assert forall|k: int|
                        0 <= k < self.s().edits@.len() implies 1 <= (
                    #[trigger] self.s().edits@[k]).action_id <= self.s().actions@.len() by {
                        if k < self.s().edits@.len() - 1 {
                            assert(self.s().edits@[k] == self.s().edits@.drop_last()[k]);
                        }
                    }
                }
                Ok(())
            },
        }
    }

    /// One expiry sweep at instant `now`: every open report strictly older
    /// than the threshold is transitioned to expired; the expired ids are
    /// returned in increasing order. A report whose stored timestamp does
    /// not parse is skipped without aborting the sweep.
    pub fn run_expiry_sweep(&mut self, now: i64) -> (r: Vec<u32>)
        requires
            old(self).inv(),
        ensures
            final(self).inv(),
            final(self).s().reports@.len() == old(self).s().reports@.len(),
            forall|i: int|
                0 <= i < old(self).s().reports@.len() ==> final(self).s().reports@[i] == (
                if should_expire(old(self).s().reports@[i], now) {
                    with_status(old(self).s().reports@[i], ReportStatus::Expired)
                } else {
                    old(self).s().reports@[i]
                }),
            r@ == sweep_ids(old(self).s().reports@, now),
            final(self).s().actions@ == old(self).s().actions@,
            final(self).s().report_links@ == old(self).s().report_links@,
            final(self).s().action_links@ == old(self).s().action_links@,
            final(self).s().edits@ == old(self).s().edits@,
    {
        let ghost reports0 = self.store.reports@;
        let n = self.store.reports.len();
        let mut out: Vec<u32> = Vec::new();
        let mut i: usize = 0;
        proof {
            assert(sweep_ids(reports0.take(0), now) =~= Seq::<u32>::empty());
        }
        while i < n
            invariant
                self.inv(),
                n == reports0.len(),
                i <= n,
                n <= u32::MAX,
                self.s().reports@.len() == n,
                forall|k: int|
                    0 <= k < i ==> self.s().reports@[k] == (if should_expire(reports0[k], now) {
                        with_status(reports0[k], ReportStatus::Expired)
                    } else {
                        reports0[k]
                    }),
                forall|k: int| i <= k < n ==> self.s().reports@[k] == reports0[k],
                out@ == sweep_ids(reports0.take(i as int), now),
                self.s().actions@ == old(self).s().actions@,
                self.s().report_links@ == old(self).s().report_links@,
                self.s().action_links@ == old(self).s().action_links@,
                self.s().edits@ == old(self).s().edits@,
            decreases n - i,
        {
            let expire: bool;
            {
                let rep = &self.store.reports[i];
                expire = rep.report_status == ReportStatus::Open && (match parse_utc_seconds(
                    rep.time.as_str(),
                ) {
                    Some(t) => (now as i128) - (t as i128) > (EXPIRY_SECONDS as i128),
                    None => false,
                });
            }
            proof {
                assert(reports0.take(i as int + 1).drop_last() =~= reports0.take(i as int));
                assert(reports0.take(i as int + 1).last() == reports0[i as int]);
                assert(expire == should_expire(reports0[i as int], now));
            }
            if expire {
                self.store.expire_report((i as u32) + 1);
                out.push((i as u32) + 1);
            }
            i = i + 1;
        }
        proof {
            assert(reports0.take(n as int) =~= reports0);
        }
        out
    }

    /// Record the rendered message of a report: at most one live link per
    /// report, created by the collaborator in the same logical operation as
    /// the report itself. A second link attempt is rejected.
    pub fn link_report_message(&mut self, id: u32, channel: u64, message: u64) -> (r: Result<
        (),
        LifecycleError,
    >)
        requires
            old(self).inv(),
        ensures
            final(self).inv(),
            r is Ok <==> old(self).s().report_id_valid(id) && spec_find_link(
                old(self).s().report_links@,
                id as int,
            ) is None,
            !old(self).s().report_id_valid(id) ==> r == Err::<(), LifecycleError>(
                LifecycleError::NotFound,
            ),
            old(self).s().report_id_valid(id) && spec_find_link(
                old(self).s().report_links@,
                id as int,
            ) is Some ==> r == Err::<(), LifecycleError>(LifecycleError::AlreadyLinked),
            r is Ok ==> final(self).s().report_links@ == old(self).s().report_links@.push(
                (MessageLink { entity: id, channel, message }),
            ),
            r is Err ==> final(self).s().report_links@ == old(self).s().report_links@,
            final(self).s().reports@ == old(self).s().reports@,
            final(self).s().actions@ == old(self).s().actions@,
            final(self).s().action_links@ == old(self).s().action_links@,
            final(self).s().edits@ == old(self).s().edits@,
    {
        if !(id >= 1 && (id as usize) <= self.store.reports.len()) {
            return Err(LifecycleError::NotFound);
        }
        match self.store.get_report_message(id) {
            Some(_) => Err(LifecycleError::AlreadyLinked),
            None => {
                proof {
                    lemma_find_link_none(self.s().report_links@, id as int);
                }
                self.store.add_report_message(channel, message, id);
                Ok(())
            },
        }
    }

    /// Record the rendered message of an action: at most one live link per
    /// action. A second link attempt is rejected.
    pub fn link_action_message(&mut self, id: u32, channel: u64, message: u64) -> (r: Result<
        (),
        LifecycleError,
    >)
        requires
            old(self).inv(),
        ensures
            final(self).inv(),
            r is Ok <==> old(self).s().action_id_valid(id) && spec_find_link(
                old(self).s().action_links@,
                id as int,
            ) is None,
            !old(self).s().action_id_valid(id) ==> r == Err::<(), LifecycleError>(
                LifecycleError::NotFound,
            ),
            old(self).s().action_id_valid(id) && spec_find_link(
                old(self).s().action_links@,
                id as int,
            ) is Some ==> r == Err::<(), LifecycleError>(LifecycleError::AlreadyLinked),
            r is Ok ==> final(self).s().action_links@ == old(self).s().action_links@.push(
                (MessageLink { entity: id, channel, message }),
            ),
            r is Err ==> final(self).s().action_links@ == old(self).s().action_links@,
            final(self).s().reports@ == old(self).s().reports@,
            final(self).s().actions@ == old(self).s().actions@,
            final(self).s().report_links@ == old(self).s().report_links@,
            final(self).s().edits@ == old(self).s().edits@,
    {
        if !(id >= 1 && (id as usize) <= self.store.actions.len()) {
            return Err(LifecycleError::NotFound);
        }
        match self.store.get_action_message(id) {
            Some(_) => Err(LifecycleError::AlreadyLinked),
            None => {
                proof {
                    lemma_find_link_none(self.s().action_links@, id as int);
                }
                self.store.add_action_message(channel, message, id);
                Ok(())
            },
        }
    }
}

/// Advisory health verdict of the backing store.
#[derive(Debug, Clone, Copy, PartialEq, Eq, Structural)]
pub struct HealthReport {
    /// Referential-integrity violations the store's probe counted.
    pub foreign_key_violations: usize,
    /// Whether the store's consistency probe passed.
    pub integrity_ok: bool,
}

impl LurkChan {
    /// Run the store's health probes. On every state this controller
    /// maintains they are clean, and this contract proves it: the count is
    /// zero and the verdict positive.
    pub fn health_check(&self) -> (r: HealthReport)
        requires
            self.inv(),
            self.s().report_links@.len() + self.s().action_links@.len() + self.s().actions@.len()
                + self.s().edits@.len() <= usize::MAX,
        ensures
            r.foreign_key_violations == 0,
            r.integrity_ok,
    {
        proof {
            lemma_resolving_links_count_none(self.s().report_links@, self.s().reports@.len() as int);
            lemma_resolving_links_count_none(self.s().action_links@, self.s().actions@.len() as int);
            lemma_closed_backrefs_count_none(self.s().actions@, self.s().reports@);
            lemma_resolving_edit_refs_count_none(self.s().edits@, self.s().actions@.len() as int);
            assert(store_consistent(self.s()));
        }
        let fk = self.store.foreign_key_check();
        let integrity_ok = match self.store.integrety_check() {
            Ok(_) => true,
            Err(_) => false,
        };
        HealthReport { foreign_key_violations: fk, integrity_ok }
    }
}

/// Links that all resolve contribute no foreign-key violations.
proof fn lemma_resolving_links_count_none(links: Seq<MessageLink>, n: int)
    requires
        links_resolve(links, n),
    ensures
        count_bad_links(links, n) == 0,
    decreases links.len(),
{
    if links.len() > 0 {
        assert(forall|i: int|
            0 <= i < links.drop_last().len() ==> #[trigger] links.drop_last()[i] == links[i]);
        lemma_resolving_links_count_none(links.drop_last(), n);
    }
}

/// Back-references that all point at closed reports contribute no
/// foreign-key violations.
proof fn lemma_closed_backrefs_count_none(actions: Seq<Action>, reports: Seq<Report>)
    requires
        action_reports_closed(actions, reports),
    ensures
        count_bad_backrefs(actions, reports.len() as int) == 0,
    decreases actions.len(),
{
    if actions.len() > 0 {
        assert(forall|i: int|
            0 <= i < actions.drop_last().len() ==> #[trigger] actions.drop_last()[i]
                == actions[i]);
        lemma_closed_backrefs_count_none(actions.drop_last(), reports);
    }
}

/// Edit records that all resolve contribute no foreign-key violations.
proof fn lemma_resolving_edit_refs_count_none(edits: Seq<crate::history::AuditEdit>, n: int)
    requires
        edit_refs_resolve(edits, n),
    ensures
        count_bad_edit_refs(edits, n) == 0,
    decreases edits.len(),
{
    if edits.len() > 0 {
        assert(forall|i: int|
            0 <= i < edits.drop_last().len() ==> #[trigger] edits.drop_last()[i] == edits[i]);
        lemma_resolving_edit_refs_count_none(edits.drop_last(), n);
    }
}

/// An absent link lookup means no link at all names the entity.
proof fn lemma_find_link_none(links: Seq<MessageLink>, id: int)
    requires
        spec_find_link(links, id) is None,
    ensures
        forall|k: int| 0 <= k < links.len() ==> (#[trigger] links[k]).entity != id,
    decreases links.len(),
{
    if links.len() > 0 {
        lemma_find_link_none(links.drop_first(), id);
        assert forall|k: int| 0 <= k < links.len() implies (#[trigger] links[k]).entity
            != id by {
            if k > 0 {
                assert(links.drop_first()[k - 1] == links[k]);
            }
        }
    }
}

/// Law: a report that carries a claimant is never open. Holds of every
/// state reachable through the controller.
pub proof fn lemma_claimant_implies_not_open(lc: LurkChan, i: int)
    requires
        lc.inv(),
        0 <= i < lc.s().reports@.len(),
        lc.s().reports@[i].claimant is Some,
    ensures
        lc.s().reports@[i].report_status != ReportStatus::Open,
{
}

/// Law: at most one action references any given report — two distinct
/// actions never share a report back-reference. Holds of every state
/// reachable through the controller, racing closers included: the second
/// close is rejected before it can record an action.
pub proof fn lemma_at_most_one_action_per_report(lc: LurkChan, i: int, j: int)
    requires
        lc.inv(),
        0 <= i < lc.s().actions@.len(),
        0 <= j < lc.s().actions@.len(),
        i != j,
        lc.s().actions@[i].report is Some,
    ensures
        lc.s().actions@[i].report != lc.s().actions@[j].report,
{
    if j < i {
        if lc.s().actions@[j].report is Some {
            assert(lc.s().actions@[j].report != lc.s().actions@[i].report);
        }
    }
}

} // verus!
