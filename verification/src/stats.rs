//! Aggregation and health: read-only counts over the store, the
//! foreign-key probe, and the integrity checker that decides the model's
//! consistency predicates. All counts are point-in-time snapshots.

use vstd::prelude::*;

use crate::history::AuditEdit;
use crate::model::{Action, Location, Report, ReportStatus};
use crate::store::{
    action_reports_closed, actions_unique, claimant_consistent, links_resolve, links_unique,
    MessageLink, Store, StoreError,
};

verus! {

/// How many reports name `id` as the reported party.
pub open spec fn count_reported(s: Seq<Report>, id: Seq<char>) -> nat
    decreases s.len(),
{
    if s.len() == 0 {
        0
    } else {
        count_reported(s.drop_last(), id) + if s.last().reported_id@ == id {
            1nat
        } else {
            0nat
        }
    }
}

/// How many reports name `id` as the reporter.
pub open spec fn count_reporter(s: Seq<Report>, id: Seq<char>) -> nat
    decreases s.len(),
{
    if s.len() == 0 {
        0
    } else {
        count_reporter(s.drop_last(), id) + if s.last().reporter_id@ == id {
            1nat
        } else {
            0nat
        }
    }
}

/// How many reports are in the given status.
pub open spec fn count_status(s: Seq<Report>, st: ReportStatus) -> nat
    decreases s.len(),
{
    if s.len() == 0 {
        0
    } else {
        count_status(s.drop_last(), st) + if s.last().report_status == st {
            1nat
        } else {
            0nat
        }
    }
}

/// How many actions belong to the given platform.
pub open spec fn count_server(s: Seq<Action>, loc: Location) -> nat
    decreases s.len(),
{
    if s.len() == 0 {
        0
    } else {
        count_server(s.drop_last(), loc) + if s.last().server == loc {
            1nat
        } else {
            0nat
        }
    }
}

/// How many actions are standalone audits, tied to no report.
pub open spec fn count_no_report(s: Seq<Action>) -> nat
    decreases s.len(),
{
    if s.len() == 0 {
        0
    } else {
        count_no_report(s.drop_last()) + if s.last().report is None {
            1nat
        } else {
            0nat
        }
    }
}

/// How many links fail to resolve to an entity among the first `n`.
pub open spec fn count_bad_links(links: Seq<MessageLink>, n: int) -> nat
    decreases links.len(),
{
    if links.len() == 0 {
        0
    } else {
        count_bad_links(links.drop_last(), n) + if 1 <= links.last().entity <= n {
            0nat
        } else {
            1nat
        }
    }
}

/// How many action back-references fail to resolve to a report among the
/// first `n`.
pub open spec fn count_bad_backrefs(actions: Seq<Action>, n: int) -> nat
    decreases actions.len(),
{
    if actions.len() == 0 {
        0
    } else {
        count_bad_backrefs(actions.drop_last(), n) + match actions.last().report {
            Some(r) => if 1 <= r <= n {
                0nat
            } else {
                1nat
            },
            None => 0nat,
        }
    }
}

/// How many audit-edit records name an action that does not exist among the
/// first `n`.
pub open spec fn count_bad_edit_refs(edits: Seq<AuditEdit>, n: int) -> nat
    decreases edits.len(),
{
    if edits.len() == 0 {
        0
    } else {
        count_bad_edit_refs(edits.drop_last(), n) + if 1 <= edits.last().action_id <= n {
            0nat
        } else {
            1nat
        }
    }
}

/// All of the model's consistency predicates at once: what the integrity
/// probe decides.
pub open spec fn store_consistent(s: Store) -> bool {
    &&& claimant_consistent(s.reports@)
    &&& action_reports_closed(s.actions@, s.reports@)
    &&& actions_unique(s.actions@)
    &&& links_unique(s.report_links@)
    &&& links_unique(s.action_links@)
    &&& links_resolve(s.report_links@, s.reports@.len() as int)
    &&& links_resolve(s.action_links@, s.actions@.len() as int)
}

impl Store {
    /// Total number of reports ever filed.
    pub fn total_report_count(&self) -> (r: u32)
        requires
            self.reports@.len() <= u32::MAX,
        ensures
            r == self.reports@.len(),
    {
        self.reports.len() as u32
    }

    /// Total number of actions ever recorded.
    pub fn total_action_count(&self) -> (r: u32)
        requires
            self.actions@.len() <= u32::MAX,
        ensures
            r == self.actions@.len(),
    {
        self.actions.len() as u32
    }

    /// Number of report message links.
    pub fn get_report_message_count(&self) -> (r: u32)
        requires
            self.report_links@.len() <= u32::MAX,
        ensures
            r == self.report_links@.len(),
    {
        self.report_links.len() as u32
    }

    /// Number of action message links.
    pub fn get_action_message_count(&self) -> (r: u32)
        requires
            self.action_links@.len() <= u32::MAX,
        ensures
            r == self.action_links@.len(),
    {
        self.action_links.len() as u32
    }

    /// How many times the given party has been reported.
    pub fn get_report_count(&self, id: &str) -> (r: u32)
        requires
            self.reports@.len() <= u32::MAX,
        ensures
            r == count_reported(self.reports@, id@),
    {
        let n = self.reports.len();
        let mut c: u32 = 0;
        let mut i: usize = 0;
        proof {
            assert(self.reports@.take(0) =~= Seq::<Report>::empty());
        }
        while i < n
            invariant
                n == self.reports@.len(),
                i <= n,
                n <= u32::MAX,
                c <= i,
                c == count_reported(self.reports@.take(i as int), id@),
            decreases n - i,
        {
            proof {
                assert(self.reports@.take(i + 1).drop_last() =~= self.reports@.take(i as int));
                assert(self.reports@.take(i + 1).last() == self.reports@[i as int]);
            }
            if crate::text::str_eq(self.reports[i].reported_id.as_str(), id) {
                c = c + 1;
            }
            i = i + 1;
        }
        proof {
            assert(self.reports@.take(n as int) =~= self.reports@);
        }
        c
    }

    /// How many reports are currently in the given status.
    pub fn get_report_count_by_status(&self, status: ReportStatus) -> (r: u32)
        requires
            self.reports@.len() <= u32::MAX,
        ensures
            r == count_status(self.reports@, status),
    {
        let n = self.reports.len();
        let mut c: u32 = 0;
        let mut i: usize = 0;
        proof {
            assert(self.reports@.take(0) =~= Seq::<Report>::empty());
        }
        while i < n
            invariant
                n == self.reports@.len(),
                i <= n,
                n <= u32::MAX,
                c <= i,
                c == count_status(self.reports@.take(i as int), status),
            decreases n - i,
        {
            proof {
                assert(self.reports@.take(i + 1).drop_last() =~= self.reports@.take(i as int));
                assert(self.reports@.take(i + 1).last() == self.reports@[i as int]);
            }
            if self.reports[i].report_status == status {
                c = c + 1;
            }
            i = i + 1;
        }
        proof {
            assert(self.reports@.take(n as int) =~= self.reports@);
        }
        c
    }

    /// How many actions were recorded for the given platform.
    pub fn audit_count_from_server(&self, server: Location) -> (r: u32)
        requires
            self.actions@.len() <= u32::MAX,
        ensures
            r == count_server(self.actions@, server),
    {
        let n = self.actions.len();
        let mut c: u32 = 0;
        let mut i: usize = 0;
        proof {
            assert(self.actions@.take(0) =~= Seq::<Action>::empty());
        }
        while i < n
            invariant
                n == self.actions@.len(),
                i <= n,
                n <= u32::MAX,
                c <= i,
                c == count_server(self.actions@.take(i as int), server),
            decreases n - i,
        {
            proof {
                assert(self.actions@.take(i + 1).drop_last() =~= self.actions@.take(i as int));
                assert(self.actions@.take(i + 1).last() == self.actions@[i as int]);
            }
            if self.actions[i].server == server {
                c = c + 1;
            }
            i = i + 1;
        }
        proof {
            assert(self.actions@.take(n as int) =~= self.actions@);
        }
        c
    }

    /// How many actions are standalone audits with no report.
    pub fn audit_count_without_report(&self) -> (r: u32)
        requires
            self.actions@.len() <= u32::MAX,
        ensures
            r == count_no_report(self.actions@),
    {
        let n = self.actions.len();
        let mut c: u32 = 0;
        let mut i: usize = 0;
        proof {
            assert(self.actions@.take(0) =~= Seq::<Action>::empty());
        }
        while i < n
            invariant
                n == self.actions@.len(),
                i <= n,
                n <= u32::MAX,
                c <= i,
                c == count_no_report(self.actions@.take(i as int)),
            decreases n - i,
        {
            proof {
                assert(self.actions@.take(i + 1).drop_last() =~= self.actions@.take(i as int));
                assert(self.actions@.take(i + 1).last() == self.actions@[i as int]);
            }
            let standalone = match &self.actions[i].report {
                None => true,
                Some(_) => false,
            };
            if standalone {
                c = c + 1;
            }
            i = i + 1;
        }
        proof {
            assert(self.actions@.take(n as int) =~= self.actions@);
        }
        c
    }

    /// Count of referential-integrity violations: links that point at
    /// missing entities, action back-references to missing reports, and
    /// edit records for missing actions. Advisory; zero on any state the
    /// lifecycle controller produced.
    pub fn foreign_key_check(&self) -> (r: usize)
        requires
            self.report_links@.len() + self.action_links@.len() + self.actions@.len()
                + self.edits@.len() <= usize::MAX,
        ensures
            r == count_bad_links(self.report_links@, self.reports@.len() as int) + count_bad_links(
                self.action_links@,
                self.actions@.len() as int,
            ) + count_bad_backrefs(self.actions@, self.reports@.len() as int)
                + count_bad_edit_refs(self.edits@, self.actions@.len() as int),
    {
        let nr = self.reports.len();
        let na = self.actions.len();
        let mut v: usize = 0;
        let mut i: usize = 0;
        proof {
            assert(self.report_links@.take(0) =~= Seq::<MessageLink>::empty());
        }
        while i < self.report_links.len()
            invariant
                i <= self.report_links@.len(),
                nr == self.reports@.len(),
                v <= i,
                v == count_bad_links(self.report_links@.take(i as int), nr as int),
            decreases self.report_links@.len() - i,
        {
            proof {
                assert(self.report_links@.take(i + 1).drop_last() =~= self.report_links@.take(
                    i as int,
                ));
                assert(self.report_links@.take(i + 1).last() == self.report_links@[i as int]);
            }
            let e = self.report_links[i].entity;
            if !(e >= 1 && (e as usize) <= nr) {
                v = v + 1;
            }
            i = i + 1;
        }
        proof {
            assert(self.report_links@.take(self.report_links@.len() as int)
                =~= self.report_links@);
            assert(self.action_links@.take(0) =~= Seq::<MessageLink>::empty());
        }
        let ghost v1 = v as int;
        let mut j: usize = 0;
        while j < self.action_links.len()
            invariant
                j <= self.action_links@.len(),
                na == self.actions@.len(),
                v <= v1 + j,
                v1 <= self.report_links@.len(),
                self.report_links@.len() + self.action_links@.len() + self.actions@.len()
                    + self.edits@.len() <= usize::MAX,
                v == v1 + count_bad_links(self.action_links@.take(j as int), na as int),
            decreases self.action_links@.len() - j,
        {
            proof {
                assert(self.action_links@.take(j + 1).drop_last() =~= self.action_links@.take(
                    j as int,
                ));
                assert(self.action_links@.take(j + 1).last() == self.action_links@[j as int]);
            }
            let e = self.action_links[j].entity;
            if !(e >= 1 && (e as usize) <= na) {
                v = v + 1;
            }
            j = j + 1;
        }
        proof {
            assert(self.action_links@.take(self.action_links@.len() as int)
                =~= self.action_links@);
            assert(self.actions@.take(0) =~= Seq::<Action>::empty());
        }
        let ghost v2 = v as int;
        let mut k: usize = 0;
        while k < self.actions.len()
            invariant
                k <= self.actions@.len(),
                nr == self.reports@.len(),
                v <= v2 + k,
                v2 <= self.report_links@.len() + self.action_links@.len(),
                self.report_links@.len() + self.action_links@.len() + self.actions@.len()
                    + self.edits@.len() <= usize::MAX,
                v == v2 + count_bad_backrefs(self.actions@.take(k as int), nr as int),
            decreases self.actions@.len() - k,
        {
            proof {
                assert(self.actions@.take(k + 1).drop_last() =~= self.actions@.take(k as int));
                assert(self.actions@.take(k + 1).last() == self.actions@[k as int]);
            }
            let bad = match &self.actions[k].report {
                Some(r) => !(*r >= 1 && (*r as usize) <= nr),
                None => false,
            };
            if bad {
                v = v + 1;
            }
            k = k + 1;
        }
        proof {
            assert(self.actions@.take(self.actions@.len() as int) =~= self.actions@);
            assert(self.edits@.take(0) =~= Seq::<AuditEdit>::empty());
        }
        let ghost v3 = v as int;
        let mut m: usize = 0;
        while m < self.edits.len()
            invariant
                m <= self.edits@.len(),
                na == self.actions@.len(),
                v <= v3 + m,
                v3 <= self.report_links@.len() + self.action_links@.len() + self.actions@.len(),
                self.report_links@.len() + self.action_links@.len() + self.actions@.len()
                    + self.edits@.len() <= usize::MAX,
                v == v3 + count_bad_edit_refs(self.edits@.take(m as int), na as int),
            decreases self.edits@.len() - m,
        {
            proof {
                assert(self.edits@.take(m + 1).drop_last() =~= self.edits@.take(m as int));
                assert(self.edits@.take(m + 1).last() == self.edits@[m as int]);
            }
            let e = self.edits[m].action_id;
            if !(e >= 1 && (e as usize) <= na) {
                v = v + 1;
            }
            m = m + 1;
        }
        proof {
            assert(self.edits@.take(self.edits@.len() as int) =~= self.edits@);
        }
        v
    }

    /// The store's consistency probe: passes exactly when every modelled
    /// consistency predicate holds. Advisory; the lifecycle controller
    /// maintains all of them.
    pub fn integrety_check(&self) -> (r: Result<(), StoreError>)
        ensures
            r is Ok <==> store_consistent(*self),
            r is Err ==> r == Err::<(), StoreError>(StoreError::Inconsistent),
    {
        if !check_claimant(&self.reports) {
            return Err(StoreError::Inconsistent);
        }
        if !check_backrefs(&self.actions, &self.reports) {
            return Err(StoreError::Inconsistent);
        }
        if !check_unique_actions(&self.actions) {
            return Err(StoreError::Inconsistent);
        }
        if !check_unique_links(&self.report_links) {
            return Err(StoreError::Inconsistent);
        }
        if !check_unique_links(&self.action_links) {
            return Err(StoreError::Inconsistent);
        }
        if !check_links_resolve(&self.report_links, self.reports.len()) {
            return Err(StoreError::Inconsistent);
        }
        if !check_links_resolve(&self.action_links, self.actions.len()) {
            return Err(StoreError::Inconsistent);
        }
        Ok(())
    }
}

/// Decide whether every claimant-carrying report has left the open state.
fn check_claimant(reports: &Vec<Report>) -> (r: bool)
    ensures
        r == claimant_consistent(reports@),
{
    let n = reports.len();
    let mut i: usize = 0;
    while i < n
        invariant
            n == reports@.len(),
            i <= n,
            forall|k: int|
                0 <= k < i && (#[trigger] reports@[k]).claimant is Some ==> reports@[k].report_status
                    != ReportStatus::Open,
        decreases n - i,
    {
        let bad = match &reports[i].claimant {
            Some(_) => reports[i].report_status == ReportStatus::Open,
            None => false,
        };
        if bad {
            return false;
        }
        i = i + 1;
    }
    true
}

/// Decide whether every action back-reference points at a closed, existing
/// report.
fn check_backrefs(actions: &Vec<Action>, reports: &Vec<Report>) -> (r: bool)
    ensures
        r == action_reports_closed(actions@, reports@),
{
    let n = actions.len();
    let nr = reports.len();
    let mut i: usize = 0;
    while i < n
        invariant
            n == actions@.len(),
            nr == reports@.len(),
            i <= n,
            forall|k: int|
                0 <= k < i ==> ((#[trigger] actions@[k]).report matches Some(r) ==> 1 <= r
                    <= reports@.len() && reports@[r - 1].report_status == ReportStatus::Closed),
        decreases n - i,
    {
        let bad = match &actions[i].report {
            Some(r) => {
                if *r >= 1 && (*r as usize) <= nr {
                    !(reports[(*r - 1) as usize].report_status == ReportStatus::Closed)
                } else {
                    true
                }
            },
            None => false,
        };
        if bad {
            return false;
        }
        i = i + 1;
    }
    true
}

/// Decide whether no two actions share a report back-reference.
fn check_unique_actions(actions: &Vec<Action>) -> (r: bool)
    ensures
        r == actions_unique(actions@),
{
    let n = actions.len();
    let mut i: usize = 0;
    while i < n
        invariant
            n == actions@.len(),
            i <= n,
            forall|k: int, l: int|
                #![trigger actions@[k], actions@[l]]
                0 <= k < l < n && k < i && actions@[k].report is Some ==> actions@[k].report
                    != actions@[l].report,
        decreases n - i,
    {
        let has_ref = match &actions[i].report {
            Some(_) => true,
            None => false,
        };
        if has_ref {
            let mut j: usize = i + 1;
            while j < n
                invariant
                    n == actions@.len(),
                    i < n,
                    i < j,
                    j <= n,
                    actions@[i as int].report is Some,
                    forall|l: int|
                        i < l < j ==> actions@[i as int].report != (#[trigger] actions@[l]).report,
                decreases n - j,
            {
                let same = match (&actions[i].report, &actions[j].report) {
                    (Some(a), Some(b)) => *a == *b,
                    _ => false,
                };
                if same {
                    return false;
                }
                j = j + 1;
            }
        }
        i = i + 1;
    }
    true
}

/// Decide whether no two links name the same entity.
fn check_unique_links(links: &Vec<MessageLink>) -> (r: bool)
    ensures
        r == links_unique(links@),
{
    let n = links.len();
    let mut i: usize = 0;
    while i < n
        invariant
            n == links@.len(),
            i <= n,
            forall|k: int, l: int|
                #![trigger links@[k], links@[l]]
                0 <= k < l < n && k < i ==> links@[k].entity != links@[l].entity,
        decreases n - i,
    {
        let mut j: usize = i + 1;
        while j < n
            invariant
                n == links@.len(),
                i < n,
                i < j,
                j <= n,
                forall|l: int| i < l < j ==> links@[i as int].entity != (#[trigger] links@[l]).entity,
            decreases n - j,
        {
            if links[i].entity == links[j].entity {
                return false;
            }
            j = j + 1;
        }
        i = i + 1;
    }
    true
}

/// Decide whether every link resolves to an entity among the first `n`.
fn check_links_resolve(links: &Vec<MessageLink>, n: usize) -> (r: bool)
    ensures
        r == links_resolve(links@, n as int),
{
    let m = links.len();
    let mut i: usize = 0;
    while i < m
        invariant
            m == links@.len(),
            i <= m,
            forall|k: int| 0 <= k < i ==> 1 <= (#[trigger] links@[k]).entity <= n,
        decreases m - i,
    {
        let e = links[i].entity;
        if !(e >= 1 && (e as usize) <= n) {
            return false;
        }
        i = i + 1;
    }
    true
}

/// How many times the value `c` occurs.
pub open spec fn count_of(s: Seq<u64>, c: u64) -> nat
    decreases s.len(),
{
    if s.len() == 0 {
        0
    } else {
        count_of(s.drop_last(), c) + if s.last() == c {
            1nat
        } else {
            0nat
        }
    }
}

/// The claimants of the claimed reports, in report order.
pub open spec fn claims_of(s: Seq<Report>) -> Seq<u64>
    decreases s.len(),
{
    if s.len() == 0 {
        Seq::empty()
    } else {
        claims_of(s.drop_last()) + match s.last().claimant {
            Some(c) => seq![c],
            None => Seq::empty(),
        }
    }
}

/// The issuers of the actions, in action order.
pub open spec fn issuers_of(s: Seq<Action>) -> Seq<u64>
    decreases s.len(),
{
    if s.len() == 0 {
        Seq::empty()
    } else {
        issuers_of(s.drop_last()).push(s.last().claimant)
    }
}

/// Leaderboard entries ordered by count, descending.
pub open spec fn board_sorted(b: Seq<(u64, u32)>) -> bool {
    forall|k: int, l: int|
        #![trigger b[k], b[l]]
        0 <= k < l < b.len() ==> b[k].1 >= b[l].1
}

/// No claimant appears twice on the board.
pub open spec fn board_distinct(b: Seq<(u64, u32)>) -> bool {
    forall|k: int, l: int|
        #![trigger b[k], b[l]]
        0 <= k < l < b.len() ==> b[k].0 != b[l].0
}

/// A value occurs at most as often as the sequence is long.
proof fn lemma_count_of_le_len(s: Seq<u64>, c: u64)
    ensures
        count_of(s, c) <= s.len(),
    decreases s.len(),
{
    if s.len() > 0 {
        lemma_count_of_le_len(s.drop_last(), c);
    }
}

/// Collect the claimants of the claimed reports.
fn collect_claims(reports: &Vec<Report>) -> (r: Vec<u64>)
    ensures
        r@ == claims_of(reports@),
        r@.len() <= reports@.len(),
    decreases reports@.len(),
{
    let n = reports.len();
    let mut out: Vec<u64> = Vec::new();
    let mut i: usize = 0;
    proof {
        assert(claims_of(reports@.take(0)) =~= Seq::<u64>::empty());
    }
    while i < n
        invariant
            n == reports@.len(),
            i <= n,
            out@ == claims_of(reports@.take(i as int)),
            out@.len() <= i,
        decreases n - i,
    {
        proof {
            assert(reports@.take(i + 1).drop_last() =~= reports@.take(i as int));
            assert(reports@.take(i + 1).last() == reports@[i as int]);
        }
        match &reports[i].claimant {
            Some(c) => {
                out.push(*c);
                proof {
                    assert(out@ =~= claims_of(reports@.take(i + 1)));
                }
            },
            None => {
                proof {
                    assert(out@ =~= claims_of(reports@.take(i + 1)));
                }
            },
        }
        i = i + 1;
    }
    proof {
        assert(reports@.take(n as int) =~= reports@);
    }
    out
}

/// Collect the issuers of the actions.
fn collect_issuers(actions: &Vec<Action>) -> (r: Vec<u64>)
    ensures
        r@ == issuers_of(actions@),
        r@.len() == actions@.len(),
{
    let n = actions.len();
    let mut out: Vec<u64> = Vec::new();
    let mut i: usize = 0;
    proof {
        assert(issuers_of(actions@.take(0)) =~= Seq::<u64>::empty());
    }
    while i < n
        invariant
            n == actions@.len(),
            i <= n,
            out@ == issuers_of(actions@.take(i as int)),
            out@.len() == i,
        decreases n - i,
    {
        proof {
            assert(actions@.take(i + 1).drop_last() =~= actions@.take(i as int));
            assert(actions@.take(i + 1).last() == actions@[i as int]);
        }
        out.push(actions[i].claimant);
        proof {
            assert(out@ =~= issuers_of(actions@.take(i + 1)));
        }
        i = i + 1;
    }
    proof {
        assert(actions@.take(n as int) =~= actions@);
    }
    out
}

/// Group equal values and count them: one board entry per distinct value,
/// with its exact occurrence count.
fn build_board(claims: &Vec<u64>) -> (b: Vec<(u64, u32)>)
    requires
        claims@.len() <= u32::MAX,
    ensures
        board_distinct(b@),
        forall|k: int|
            0 <= k < b@.len() ==> (#[trigger] b@[k]).1 == count_of(claims@, b@[k].0) && b@[k].1
                >= 1,
        forall|c: u64| count_of(claims@, c) > 0 ==> exists|k: int| 0 <= k < b@.len() && (#[trigger] b@[k]).0 == c,
{
    let n = claims.len();
    let mut b: Vec<(u64, u32)> = Vec::new();
    let mut i: usize = 0;
    while i < n
        invariant
            n == claims@.len(),
            n <= u32::MAX,
            i <= n,
            board_distinct(b@),
            forall|k: int|
                0 <= k < b@.len() ==> (#[trigger] b@[k]).1 == count_of(
                    claims@.take(i as int),
                    b@[k].0,
                ) && b@[k].1 >= 1,
            forall|c: u64|
                count_of(claims@.take(i as int), c) > 0 ==> exists|k: int|
                    0 <= k < b@.len() && (#[trigger] b@[k]).0 == c,
        decreases n - i,
    {
        let c = claims[i];
        proof {
            assert(claims@.take(i + 1).drop_last() =~= claims@.take(i as int));
            assert(claims@.take(i + 1).last() == claims@[i as int]);
            lemma_count_of_le_len(claims@.take(i as int), c);
        }
        let mut j: usize = 0;
        while j < b.len() && b[j].0 != c
            invariant
                j <= b@.len(),
                forall|l: int| 0 <= l < j ==> (#[trigger] b@[l]).0 != c,
            decreases b@.len() - j,
        {
            j = j + 1;
        }
        let ghost pre = b@;
        if j < b.len() {
            let entry = b[j];
            b.set(j, (entry.0, entry.1 + 1));
            proof {
                let ghost tk = claims@.take(i + 1);
                assert forall|x: u64| #![trigger count_of(tk, x)]
                    count_of(tk, x) > 0 implies exists|k: int|
                    0 <= k < b@.len() && (#[trigger] b@[k]).0 == x by {
                    if x == c {
                        assert(b@[j as int].0 == x);
                    } else {
                        assert(count_of(claims@.take(i as int), x) > 0);
                        let k = choose|k: int| 0 <= k < pre.len() && (#[trigger] pre[k]).0 == x;
                        assert(b@[k].0 == x);
                    }
                }
            }
        } else {
            proof {
                if count_of(claims@.take(i as int), c) > 0 {
                    let k = choose|k: int| 0 <= k < pre.len() && (#[trigger] pre[k]).0 == c;
                    assert(false);
                }
            }
            b.push((c, 1));
            proof {
                let ghost tk = claims@.take(i + 1);
                assert forall|x: u64| #![trigger count_of(tk, x)]
                    count_of(tk, x) > 0 implies exists|k: int|
                    0 <= k < b@.len() && (#[trigger] b@[k]).0 == x by {
                    if x == c {
                        assert(b@[b@.len() - 1].0 == x);
                    } else {
                        assert(count_of(claims@.take(i as int), x) > 0);
                        let k = choose|k: int| 0 <= k < pre.len() && (#[trigger] pre[k]).0 == x;
                        assert(b@[k].0 == x);
                    }
                }
            }
        }
        i = i + 1;
    }
    proof {
        assert(claims@.take(n as int) =~= claims@);
    }
    b
}

/// Insertion sort of board entries by count, descending. Ties keep no
/// particular order.
fn sort_board(input: Vec<(u64, u32)>) -> (r: Vec<(u64, u32)>)
    ensures
        r@.to_multiset() == input@.to_multiset(),
        r@.len() == input@.len(),
        board_sorted(r@),
{
    let n = input.len();
    let mut out: Vec<(u64, u32)> = Vec::new();
    let mut i: usize = 0;
    proof {
        broadcast use vstd::seq_lib::group_to_multiset_ensures;

        assert(input@.take(0) =~= Seq::<(u64, u32)>::empty());
        assert(out@.to_multiset() =~= input@.take(0).to_multiset());
    }
    while i < n
        invariant
            n == input@.len(),
            i <= n,
            out@.len() == i,
            out@.to_multiset() == input@.take(i as int).to_multiset(),
            board_sorted(out@),
        decreases n - i,
    {
        let x = input[i];
        let mut j: usize = 0;
        while j < out.len() && out[j].1 >= x.1
            invariant
                j <= out@.len(),
                forall|k: int| 0 <= k < j ==> (#[trigger] out@[k]).1 >= x.1,
            decreases out@.len() - j,
        {
            j = j + 1;
        }
        let ghost pre = out@;
        out.insert(j, x);
        proof {
            broadcast use vstd::seq_lib::group_to_multiset_ensures;

            assert(out@ == pre.insert(j as int, x));
            assert(out@.remove(j as int) =~= pre);
            assert(out@[j as int] == x);
            assert(out@.contains(out@[j as int]));
            assert(out@.to_multiset().count(x) > 0);
            assert(out@.to_multiset().remove(x) =~= pre.to_multiset());
            assert(out@.to_multiset() =~= pre.to_multiset().insert(x));
            assert(input@.take(i + 1).drop_last() =~= input@.take(i as int));
            assert(input@.take(i + 1) =~= input@.take(i as int).push(x));
            assert(input@.take(i + 1).to_multiset() =~= input@.take(
                i as int,
            ).to_multiset().insert(x));
            assert forall|k: int, l: int|
                #![trigger out@[k], out@[l]]
                0 <= k < l < out@.len() implies out@[k].1 >= out@[l].1 by {
                if l < j {
                    assert(out@[k] == pre[k] && out@[l] == pre[l]);
                } else if k < j && l == j {
                    assert(out@[k] == pre[k]);
                } else if k < j && l > j {
                    assert(out@[k] == pre[k] && out@[l] == pre[l - 1]);
                } else if k == j && l > j {
                    assert(out@[l] == pre[l - 1]);
                    assert(pre[l - 1].1 <= x.1);
                } else {
                    assert(out@[k] == pre[k - 1] && out@[l] == pre[l - 1]);
                }
            }
        }
        i = i + 1;
    }
    proof {
        assert(input@.take(n as int) =~= input@);
    }
    out
}

/// Sort and cut a grouped board: the result is ordered by count descending,
/// has one entry per distinct claimant with its exact count, holds at most
/// `limit` entries, and omits a claimant only when it is full and every
/// omitted count is no larger than the smallest kept one.
#[verifier::rlimit(100)]
fn top_board(claims: &Vec<u64>, limit: u32) -> (r: Vec<(u64, u32)>)
    requires
        claims@.len() <= u32::MAX,
    ensures
        r@.len() <= limit,
        board_sorted(r@),
        board_distinct(r@),
        forall|k: int|
            0 <= k < r@.len() ==> (#[trigger] r@[k]).1 == count_of(claims@, r@[k].0) && r@[k].1
                >= 1,
        forall|c: u64|
            count_of(claims@, c) > 0 ==> (exists|k: int|
                0 <= k < r@.len() && (#[trigger] r@[k]).0 == c) || (r@.len() == limit && (limit
                == 0 || count_of(claims@, c) <= r@[r@.len() - 1].1)),
{
    let board = build_board(claims);
    let mut sorted = sort_board(board);
    proof {
        broadcast use vstd::seq_lib::group_to_multiset_ensures;

        let b = board@;
        let s = sorted@;
        assert(b.no_duplicates()) by {
            assert forall|k: int, l: int|
                0 <= k < b.len() && 0 <= l < b.len() && k != l implies b[k] != b[l] by {
                if k < l {
                    assert(b[k].0 != b[l].0);
                } else {
                    assert(b[l].0 != b[k].0);
                }
            }
        }
        b.lemma_multiset_has_no_duplicates();
        s.lemma_multiset_has_no_duplicates_conv();
        // every sorted entry is a board entry
        assert forall|k: int| #![trigger s[k]] 0 <= k < s.len() implies exists|l: int|
            0 <= l < b.len() && (#[trigger] b[l]) == s[k] by {
            assert(s.contains(s[k]));
            assert(s.to_multiset().count(s[k]) > 0);
            assert(b.to_multiset().count(s[k]) > 0);
            assert(b.contains(s[k]));
        }
        // every board entry appears among the sorted entries
        assert forall|l: int| #![trigger b[l]] 0 <= l < b.len() implies exists|k: int|
            0 <= k < s.len() && (#[trigger] s[k]) == b[l] by {
            assert(b.contains(b[l]));
            assert(b.to_multiset().count(b[l]) > 0);
            assert(s.to_multiset().count(b[l]) > 0);
            assert(s.contains(b[l]));
        }
        // distinct claimants survive sorting
        assert forall|k: int, l: int|
            #![trigger s[k], s[l]]
            0 <= k < l < s.len() implies s[k].0 != s[l].0 by {
            if s[k].0 == s[l].0 {
                if s[k] == s[l] {
                    assert(!s.no_duplicates());
                } else {
                    let bk = choose|m: int| 0 <= m < b.len() && b[m] == s[k];
                    let bl = choose|m: int| 0 <= m < b.len() && b[m] == s[l];
                    assert(b[bk] != b[bl]);
                    assert(bk != bl);
                    assert(b[bk].0 != b[bl].0);
                }
            }
        }
    }
    let ghost full = sorted@;
    sorted.truncate(limit as usize);
    proof {
        if limit as int <= full.len() {
            assert(sorted@ == full.subrange(0, limit as int));
        } else {
            assert(sorted@ == full);
        }
        assert forall|c: u64|
            count_of(claims@, c) > 0 implies (exists|k: int|
            0 <= k < sorted@.len() && (#[trigger] sorted@[k]).0 == c) || (sorted@.len() == limit
            && (limit == 0 || count_of(claims@, c) <= sorted@[sorted@.len() - 1].1)) by {
            let bk = choose|k: int| 0 <= k < board@.len() && (#[trigger] board@[k]).0 == c;
            let sk = choose|k: int| 0 <= k < full.len() && (#[trigger] full[k]) == board@[bk];
            if sk < limit as int {
                assert(sorted@[sk].0 == c);
            } else {
                assert(full.len() > limit);
                assert(sorted@.len() == limit);
                if limit > 0 {
                    assert(full[limit as int - 1].1 >= full[sk].1);
                    assert(full[sk].1 == count_of(claims@, c));
                    assert(sorted@[limit as int - 1] == full[limit as int - 1]);
                }
            }
        }
    }
    sorted
}

impl Store {
    /// Staff leaderboard over claimed reports: at most `limit` entries,
    /// each a claimant with the exact number of reports they claimed,
    /// ordered by count descending; a claimant is left off only when the
    /// board is full and their count is no larger than the smallest listed
    /// one. Ties are broken arbitrarily.
    pub fn leaderboard_reports(&self, limit: u32) -> (r: Vec<(u64, u32)>)
        requires
            self.reports@.len() <= u32::MAX,
        ensures
            r@.len() <= limit,
            board_sorted(r@),
            board_distinct(r@),
            forall|k: int|
                0 <= k < r@.len() ==> (#[trigger] r@[k]).1 == count_of(
                    claims_of(self.reports@),
                    r@[k].0,
                ) && r@[k].1 >= 1,
            forall|c: u64|
                count_of(claims_of(self.reports@), c) > 0 ==> (exists|k: int|
                    0 <= k < r@.len() && (#[trigger] r@[k]).0 == c) || (r@.len() == limit && (
                limit == 0 || count_of(claims_of(self.reports@), c) <= r@[r@.len() - 1].1)),
    {
        let claims = collect_claims(&self.reports);
        top_board(&claims, limit)
    }

    /// Staff leaderboard over issued actions: the same shape as the report
    /// leaderboard, counting the actions each claimant issued.
    pub fn leaderboard_audit(&self, limit: u32) -> (r: Vec<(u64, u32)>)
        requires
            self.actions@.len() <= u32::MAX,
        ensures
            r@.len() <= limit,
            board_sorted(r@),
            board_distinct(r@),
            forall|k: int|
                0 <= k < r@.len() ==> (#[trigger] r@[k]).1 == count_of(
                    issuers_of(self.actions@),
                    r@[k].0,
                ) && r@[k].1 >= 1,
            forall|c: u64|
                count_of(issuers_of(self.actions@), c) > 0 ==> (exists|k: int|
                    0 <= k < r@.len() && (#[trigger] r@[k]).0 == c) || (r@.len() == limit && (
                limit == 0 || count_of(issuers_of(self.actions@), c) <= r@[r@.len() - 1].1)),
    {
        let issuers = collect_issuers(&self.actions);
        top_board(&issuers, limit)
    }
}

/// The reports in a given status, paired with their ids, in id order.
pub open spec fn status_pairs(reports: Seq<Report>, st: ReportStatus) -> Seq<(u32, Report)>
    decreases reports.len(),
{
    if reports.len() == 0 {
        Seq::empty()
    } else {
        status_pairs(reports.drop_last(), st) + if reports.last().report_status == st {
            seq![((reports.len() as u32), reports.last())]
        } else {
            Seq::empty()
        }
    }
}

/// The reports naming `user` as the reported party, with their ids, in id
/// order.
pub open spec fn reported_pairs(reports: Seq<Report>, user: Seq<char>) -> Seq<(u32, Report)>
    decreases reports.len(),
{
    if reports.len() == 0 {
        Seq::empty()
    } else {
        reported_pairs(reports.drop_last(), user) + if reports.last().reported_id@ == user {
            seq![((reports.len() as u32), reports.last())]
        } else {
            Seq::empty()
        }
    }
}

/// The reports naming `user` as the reporter, with their ids, in id order.
pub open spec fn reporter_pairs(reports: Seq<Report>, user: Seq<char>) -> Seq<(u32, Report)>
    decreases reports.len(),
{
    if reports.len() == 0 {
        Seq::empty()
    } else {
        reporter_pairs(reports.drop_last(), user) + if reports.last().reporter_id@ == user {
            seq![((reports.len() as u32), reports.last())]
        } else {
            Seq::empty()
        }
    }
}

/// The actions issued by the staff identity whose decimal text is `user`,
/// with their ids, in id order.
pub open spec fn actioned_pairs(actions: Seq<Action>, user: Seq<char>) -> Seq<(u32, Action)>
    decreases actions.len(),
{
    if actions.len() == 0 {
        Seq::empty()
    } else {
        actioned_pairs(actions.drop_last(), user) + if crate::text::dec_digits(
            actions.last().claimant as nat,
        ) == user {
            seq![((actions.len() as u32), actions.last())]
        } else {
            Seq::empty()
        }
    }
}

/// Strict lexicographic order on character sequences by code point. For the
/// stored ISO-8601 timestamps this is chronological order, and it agrees
/// with the byte order the backing store sorts text by.
pub open spec fn chars_lt(a: Seq<char>, b: Seq<char>) -> bool
    decreases a.len(),
{
    if b.len() == 0 {
        false
    } else if a.len() == 0 {
        true
    } else if (a[0] as u32) < (b[0] as u32) {
        true
    } else if (a[0] as u32) > (b[0] as u32) {
        false
    } else {
        chars_lt(a.drop_first(), b.drop_first())
    }
}

proof fn lemma_chars_lt_trans(a: Seq<char>, b: Seq<char>, c: Seq<char>)
    requires
        chars_lt(a, b),
        chars_lt(b, c),
    ensures
        chars_lt(a, c),
    decreases a.len(),
{
    if a.len() > 0 && b.len() > 0 && c.len() > 0 && (a[0] as u32) == (b[0] as u32) && (b[0] as u32)
        == (c[0] as u32) {
        lemma_chars_lt_trans(a.drop_first(), b.drop_first(), c.drop_first());
    }
}

proof fn lemma_chars_lt_asym(a: Seq<char>, b: Seq<char>)
    requires
        chars_lt(a, b),
    ensures
        !chars_lt(b, a),
    decreases a.len(),
{
    if a.len() > 0 && b.len() > 0 && (a[0] as u32) == (b[0] as u32) {
        lemma_chars_lt_asym(a.drop_first(), b.drop_first());
    }
}

/// Preview entries ordered newest first.
pub open spec fn time_sorted(v: Seq<(u32, Report)>) -> bool {
    forall|k: int, l: int|
        #![trigger v[k], v[l]]
        0 <= k < l < v.len() ==> !chars_lt(v[k].1.time@, v[l].1.time@)
}

fn chars_lt_exec(a: &Vec<char>, b: &Vec<char>) -> (r: bool)
    ensures
        r == chars_lt(a@, b@),
{
    let na = a.len();
    let nb = b.len();
    let mut i: usize = 0;
    proof {
        assert(a@.skip(0) =~= a@);
        assert(b@.skip(0) =~= b@);
    }
    while i < na && i < nb
        invariant
            na == a@.len(),
            nb == b@.len(),
            i <= na,
            i <= nb,
            chars_lt(a@, b@) == chars_lt(a@.skip(i as int), b@.skip(i as int)),
        decreases na - i,
    {
        proof {
            assert(a@.skip(i as int)[0] == a@[i as int]);
            assert(b@.skip(i as int)[0] == b@[i as int]);
            assert(a@.skip(i as int).drop_first() =~= a@.skip(i + 1));
            assert(b@.skip(i as int).drop_first() =~= b@.skip(i + 1));
        }
        let ca = a[i] as u32;
        let cb = b[i] as u32;
        if ca < cb {
            return true;
        }
        if ca > cb {
            return false;
        }
        i = i + 1;
    }
    i < nb
}

/// Whether the first report's timestamp is strictly older than the second's.
fn time_lt(x: &Report, y: &Report) -> (r: bool)
    ensures
        r == chars_lt(x.time@, y.time@),
{
    let a = crate::text::str_chars(x.time.as_str());
    let b = crate::text::str_chars(y.time.as_str());
    chars_lt_exec(&a, &b)
}

/// Insertion sort of preview entries by timestamp, newest first. Entries
/// with equal timestamps keep no particular order.
fn sort_by_time(input: Vec<(u32, Report)>) -> (r: Vec<(u32, Report)>)
    ensures
        r@.to_multiset() == input@.to_multiset(),
        r@.len() == input@.len(),
        time_sorted(r@),
{
    let n = input.len();
    let mut out: Vec<(u32, Report)> = Vec::new();
    let mut i: usize = 0;
    proof {
        broadcast use vstd::seq_lib::group_to_multiset_ensures;

        assert(input@.take(0) =~= Seq::<(u32, Report)>::empty());
        assert(out@.to_multiset() =~= input@.take(0).to_multiset());
    }
    while i < n
        invariant
            n == input@.len(),
            i <= n,
            out@.len() == i,
            out@.to_multiset() == input@.take(i as int).to_multiset(),
            time_sorted(out@),
        decreases n - i,
    {
        let x = (input[i].0, input[i].1.clone());
        proof {
            assert(x == input@[i as int]);
        }
        let mut j: usize = 0;
        while j < out.len() && !time_lt(&out[j].1, &x.1)
            invariant
                j <= out@.len(),
                forall|k: int| 0 <= k < j ==> !chars_lt((#[trigger] out@[k]).1.time@, x.1.time@),
            decreases out@.len() - j,
        {
            j = j + 1;
        }
        let ghost pre = out@;
        out.insert(j, x);
        proof {
            broadcast use vstd::seq_lib::group_to_multiset_ensures;

            assert(out@ == pre.insert(j as int, x));
            assert(out@.remove(j as int) =~= pre);
            assert(out@[j as int] == x);
            assert(out@.contains(out@[j as int]));
            assert(out@.to_multiset().count(x) > 0);
            assert(out@.to_multiset().remove(x) =~= pre.to_multiset());
            assert(out@.to_multiset() =~= pre.to_multiset().insert(x));
            assert(input@.take(i + 1).drop_last() =~= input@.take(i as int));
            assert(input@.take(i + 1) =~= input@.take(i as int).push(x));
            assert(input@.take(i + 1).to_multiset() =~= input@.take(
                i as int,
            ).to_multiset().insert(x));
            assert forall|k: int, l: int|
                #![trigger out@[k], out@[l]]
                0 <= k < l < out@.len() implies !chars_lt(out@[k].1.time@, out@[l].1.time@) by {
                if l < j {
                    assert(out@[k] == pre[k] && out@[l] == pre[l]);
                } else if k < j && l == j {
                    assert(out@[k] == pre[k]);
                } else if k < j && l > j {
                    assert(out@[k] == pre[k] && out@[l] == pre[l - 1]);
                } else if k == j && l > j {
                    assert(out@[l] == pre[l - 1]);
                    assert(chars_lt(pre[j as int].1.time@, x.1.time@));
                    if l - 1 == j {
                        lemma_chars_lt_asym(pre[j as int].1.time@, x.1.time@);
                    } else {
                        if chars_lt(x.1.time@, pre[l - 1].1.time@) {
                            lemma_chars_lt_trans(
                                pre[j as int].1.time@,
                                x.1.time@,
                                pre[l - 1].1.time@,
                            );
                            assert(false);
                        }
                    }
                } else {
                    assert(out@[k] == pre[k - 1] && out@[l] == pre[l - 1]);
                }
            }
        }
        i = i + 1;
    }
    proof {
        assert(input@.take(n as int) =~= input@);
    }
    out
}

/// Pair ids grow with position: each entry's id is the one-based index of
/// its report, and matches are collected in id order.
proof fn lemma_reported_pairs_increasing(reports: Seq<Report>, user: Seq<char>)
    requires
        reports.len() <= u32::MAX,
    ensures
        reported_pairs(reports, user).len() <= reports.len(),
        forall|k: int, l: int|
            #![trigger reported_pairs(reports, user)[k], reported_pairs(reports, user)[l]]
            0 <= k < l < reported_pairs(reports, user).len() ==> reported_pairs(reports, user)[k].0
                < reported_pairs(reports, user)[l].0,
        forall|k: int|
            0 <= k < reported_pairs(reports, user).len() ==> 1 <= (#[trigger] reported_pairs(
                reports,
                user,
            )[k]).0 <= reports.len(),
        reported_pairs(reports, user).len() == count_reported(reports, user),
    decreases reports.len(),
{
    if reports.len() > 0 {
        lemma_reported_pairs_increasing(reports.drop_last(), user);
        let p0 = reported_pairs(reports.drop_last(), user);
        let p = reported_pairs(reports, user);
        assert forall|k: int, l: int|
            #![trigger p[k], p[l]]
            0 <= k < l < p.len() implies p[k].0 < p[l].0 by {
            if l < p0.len() {
                assert(p[k] == p0[k] && p[l] == p0[l]);
            } else {
                assert(p[k] == p0[k]);
                assert(p[l] == (((reports.len() as u32), reports.last())));
                assert(p0[k].0 <= reports.drop_last().len());
            }
        }
        assert forall|k: int|
            0 <= k < p.len() implies 1 <= (#[trigger] p[k]).0 <= reports.len() by {
            if k < p0.len() {
                assert(p[k] == p0[k]);
            } else {
                assert(p[k] == (((reports.len() as u32), reports.last())));
            }
        }
    }
}

proof fn lemma_reporter_pairs_increasing(reports: Seq<Report>, user: Seq<char>)
    requires
        reports.len() <= u32::MAX,
    ensures
        reporter_pairs(reports, user).len() <= reports.len(),
        forall|k: int, l: int|
            #![trigger reporter_pairs(reports, user)[k], reporter_pairs(reports, user)[l]]
            0 <= k < l < reporter_pairs(reports, user).len() ==> reporter_pairs(reports, user)[k].0
                < reporter_pairs(reports, user)[l].0,
        reporter_pairs(reports, user).len() == count_reporter(reports, user),
        forall|k: int|
            0 <= k < reporter_pairs(reports, user).len() ==> 1 <= (#[trigger] reporter_pairs(
                reports,
                user,
            )[k]).0 <= reports.len(),
    decreases reports.len(),
{
    if reports.len() > 0 {
        lemma_reporter_pairs_increasing(reports.drop_last(), user);
        let p0 = reporter_pairs(reports.drop_last(), user);
        let p = reporter_pairs(reports, user);
        assert forall|k: int, l: int|
            #![trigger p[k], p[l]]
            0 <= k < l < p.len() implies p[k].0 < p[l].0 by {
            if l < p0.len() {
                assert(p[k] == p0[k] && p[l] == p0[l]);
            } else {
                assert(p[k] == p0[k]);
                assert(p[l] == (((reports.len() as u32), reports.last())));
                assert(p0[k].0 <= reports.drop_last().len());
            }
        }
        assert forall|k: int|
            0 <= k < p.len() implies 1 <= (#[trigger] p[k]).0 <= reports.len() by {
            if k < p0.len() {
                assert(p[k] == p0[k]);
            } else {
                assert(p[k] == (((reports.len() as u32), reports.last())));
            }
        }
    }
}

proof fn lemma_actioned_pairs_len(actions: Seq<Action>, user: Seq<char>)
    ensures
        actioned_pairs(actions, user).len() <= actions.len(),
    decreases actions.len(),
{
    if actions.len() > 0 {
        lemma_actioned_pairs_len(actions.drop_last(), user);
    }
}

/// Collect the reports naming `user` as the reported party.
fn filter_reported(reports: &Vec<Report>, user: &str) -> (v: Vec<(u32, Report)>)
    requires
        reports@.len() <= u32::MAX,
    ensures
        v@ == reported_pairs(reports@, user@),
{
    let n = reports.len();
    let mut out: Vec<(u32, Report)> = Vec::new();
    let mut i: usize = 0;
    proof {
        assert(reported_pairs(reports@.take(0), user@) =~= Seq::<(u32, Report)>::empty());
    }
    while i < n
        invariant
            n == reports@.len(),
            n <= u32::MAX,
            i <= n,
            out@ == reported_pairs(reports@.take(i as int), user@),
        decreases n - i,
    {
        proof {
            assert(reports@.take(i + 1).drop_last() =~= reports@.take(i as int));
            assert(reports@.take(i + 1).last() == reports@[i as int]);
        }
        if crate::text::str_eq(reports[i].reported_id.as_str(), user) {
            out.push(((i as u32) + 1, reports[i].clone()));
            proof {
                assert(out@ =~= reported_pairs(reports@.take(i + 1), user@));
            }
        } else {
            proof {
                assert(out@ =~= reported_pairs(reports@.take(i + 1), user@));
            }
        }
        i = i + 1;
    }
    proof {
        assert(reports@.take(n as int) =~= reports@);
    }
    out
}

/// Collect the reports naming `user` as the reporter.
fn filter_reporter(reports: &Vec<Report>, user: &str) -> (v: Vec<(u32, Report)>)
    requires
        reports@.len() <= u32::MAX,
    ensures
        v@ == reporter_pairs(reports@, user@),
{
    let n = reports.len();
    let mut out: Vec<(u32, Report)> = Vec::new();
    let mut i: usize = 0;
    proof {
        assert(reporter_pairs(reports@.take(0), user@) =~= Seq::<(u32, Report)>::empty());
    }
    while i < n
        invariant
            n == reports@.len(),
            n <= u32::MAX,
            i <= n,
            out@ == reporter_pairs(reports@.take(i as int), user@),
        decreases n - i,
    {
        proof {
            assert(reports@.take(i + 1).drop_last() =~= reports@.take(i as int));
            assert(reports@.take(i + 1).last() == reports@[i as int]);
        }
        if crate::text::str_eq(reports[i].reporter_id.as_str(), user) {
            out.push(((i as u32) + 1, reports[i].clone()));
            proof {
                assert(out@ =~= reporter_pairs(reports@.take(i + 1), user@));
            }
        } else {
            proof {
                assert(out@ =~= reporter_pairs(reports@.take(i + 1), user@));
            }
        }
        i = i + 1;
    }
    proof {
        assert(reports@.take(n as int) =~= reports@);
    }
    out
}

/// Collect the actions issued by the staff identity whose decimal text is
/// `user`.
fn filter_actioned(actions: &Vec<Action>, user: &str) -> (v: Vec<(u32, Action)>)
    requires
        actions@.len() <= u32::MAX,
    ensures
        v@ == actioned_pairs(actions@, user@),
{
    let n = actions.len();
    let mut out: Vec<(u32, Action)> = Vec::new();
    let mut i: usize = 0;
    proof {
        assert(actioned_pairs(actions@.take(0), user@) =~= Seq::<(u32, Action)>::empty());
    }
    while i < n
        invariant
            n == actions@.len(),
            n <= u32::MAX,
            i <= n,
            out@ == actioned_pairs(actions@.take(i as int), user@),
        decreases n - i,
    {
        proof {
            assert(actions@.take(i + 1).drop_last() =~= actions@.take(i as int));
            assert(actions@.take(i + 1).last() == actions@[i as int]);
        }
        let claim_text = crate::text::u64_to_dec(actions[i].claimant);
        if crate::text::str_eq(claim_text.as_str(), user) {
            out.push(((i as u32) + 1, actions[i].clone()));
            proof {
                assert(out@ =~= actioned_pairs(actions@.take(i + 1), user@));
            }
        } else {
            proof {
                assert(out@ =~= actioned_pairs(actions@.take(i + 1), user@));
            }
        }
        i = i + 1;
    }
    proof {
        assert(actions@.take(n as int) =~= actions@);
    }
    out
}

/// Sort preview entries newest first and keep the ten newest. A match is
/// left out only when the preview is full and its timestamp is no newer
/// than the oldest kept one.
#[verifier::rlimit(100)]
fn top_ten_by_time(matches: Vec<(u32, Report)>) -> (r: Vec<(u32, Report)>)
    requires
        forall|k: int, l: int|
            #![trigger matches@[k], matches@[l]]
            0 <= k < l < matches@.len() ==> matches@[k].0 < matches@[l].0,
    ensures
        r@.len() == (if matches@.len() <= 10 {
            matches@.len()
        } else {
            10nat
        }),
        time_sorted(r@),
        forall|k: int, l: int|
            #![trigger r@[k], r@[l]]
            0 <= k < l < r@.len() ==> r@[k].0 != r@[l].0,
        forall|k: int| 0 <= k < r@.len() ==> matches@.contains(#[trigger] r@[k]),
        forall|l: int|
            0 <= l < matches@.len() ==> r@.contains(#[trigger] matches@[l]) || (r@.len() == 10
                && !chars_lt(r@[9].1.time@, matches@[l].1.time@)),
{
    let ghost m = matches@;
    let mut sorted = sort_by_time(matches);
    proof {
        broadcast use vstd::seq_lib::group_to_multiset_ensures;

        let s = sorted@;
        assert(m.no_duplicates()) by {
            assert forall|k: int, l: int|
                0 <= k < m.len() && 0 <= l < m.len() && k != l implies m[k] != m[l] by {
                if k < l {
                    assert(m[k].0 < m[l].0);
                } else {
                    assert(m[l].0 < m[k].0);
                }
            }
        }
        m.lemma_multiset_has_no_duplicates();
        s.lemma_multiset_has_no_duplicates_conv();
        assert forall|k: int| 0 <= k < s.len() implies m.contains(#[trigger] s[k]) by {
            assert(s.contains(s[k]));
            assert(s.to_multiset().count(s[k]) > 0);
            assert(m.to_multiset().count(s[k]) > 0);
        }
        assert forall|l: int| 0 <= l < m.len() implies s.contains(#[trigger] m[l]) by {
            assert(m.contains(m[l]));
            assert(m.to_multiset().count(m[l]) > 0);
            assert(s.to_multiset().count(m[l]) > 0);
        }
        assert forall|k: int, l: int|
            #![trigger s[k], s[l]]
            0 <= k < l < s.len() implies s[k].0 != s[l].0 by {
            if s[k].0 == s[l].0 {
                if s[k] == s[l] {
                    assert(!s.no_duplicates());
                } else {
                    assert(m.contains(s[k]) && m.contains(s[l]));
                    let bk = choose|q: int| 0 <= q < m.len() && m[q] == s[k];
                    let bl = choose|q: int| 0 <= q < m.len() && m[q] == s[l];
                    assert(m[bk] != m[bl]);
                    assert(bk != bl);
                    if bk < bl {
                        assert(m[bk].0 < m[bl].0);
                    } else {
                        assert(m[bl].0 < m[bk].0);
                    }
                }
            }
        }
    }
    let ghost full = sorted@;
    sorted.truncate(10);
    proof {
        if 10 <= full.len() {
            assert(sorted@ == full.subrange(0, 10));
        } else {
            assert(sorted@ == full);
        }
        assert forall|l: int|
            0 <= l < m.len() implies sorted@.contains(#[trigger] m[l]) || (sorted@.len() == 10
            && !chars_lt(sorted@[9].1.time@, m[l].1.time@)) by {
            assert(full.contains(m[l]));
            let sk = choose|k: int| 0 <= k < full.len() && full[k] == m[l];
            if sk < 10 {
                assert(sorted@[sk] == m[l]);
                assert(sorted@.contains(m[l]));
            } else {
                assert(full.len() > 10);
                assert(sorted@.len() == 10);
                assert(!chars_lt(full[9].1.time@, full[sk].1.time@));
                assert(sorted@[9] == full[9]);
            }
        }
    }
    sorted
}

/// A summary of everything known about one user identity.
#[derive(Debug)]
pub struct UserInfo {
    /// How many times this user has been reported in total.
    pub times_reported: u32,
    /// The newest reports against this user, at most ten.
    pub preview_reported: Vec<(u32, Report)>,
    /// How many times this user has reported someone else in total.
    pub times_reported_others: u32,
    /// The newest reports filed by this user, at most ten.
    pub preview_reported_others: Vec<(u32, Report)>,
    /// How many actions this user has issued in total.
    pub times_actioned: u32,
    /// The most recent actions issued by this user, at most ten, newest
    /// first.
    pub preview_actioned: Vec<(u32, Action)>,
}

impl Store {
    /// All reports in the given status, with their ids, in id order.
    pub fn all_reports_with_status(&self, status: ReportStatus) -> (r: Vec<(u32, Report)>)
        requires
            self.reports@.len() <= u32::MAX,
        ensures
            r@ == status_pairs(self.reports@, status),
    {
        let n = self.reports.len();
        let mut out: Vec<(u32, Report)> = Vec::new();
        let mut i: usize = 0;
        proof {
            assert(status_pairs(self.reports@.take(0), status) =~= Seq::<(u32, Report)>::empty());
        }
        while i < n
            invariant
                n == self.reports@.len(),
                n <= u32::MAX,
                i <= n,
                out@ == status_pairs(self.reports@.take(i as int), status),
            decreases n - i,
        {
            proof {
                assert(self.reports@.take(i + 1).drop_last() =~= self.reports@.take(i as int));
                assert(self.reports@.take(i + 1).last() == self.reports@[i as int]);
            }
            if self.reports[i].report_status == status {
                out.push(((i as u32) + 1, self.reports[i].clone()));
                proof {
                    assert(out@ =~= status_pairs(self.reports@.take(i + 1), status));
                }
            } else {
                proof {
                    assert(out@ =~= status_pairs(self.reports@.take(i + 1), status));
                }
            }
            i = i + 1;
        }
        proof {
            assert(self.reports@.take(n as int) =~= self.reports@);
        }
        out
    }

    /// Everything known about one user identity: exact totals, the newest
    /// ten reports against them and by them (newest first), and their ten
    /// most recent actions, newest first.
    pub fn collect_user_info(&self, user: &str) -> (r: UserInfo)
        requires
            self.reports@.len() <= u32::MAX,
            self.actions@.len() <= u32::MAX,
        ensures
            r.times_reported == count_reported(self.reports@, user@),
            r.times_reported_others == count_reporter(self.reports@, user@),
            r.times_actioned == actioned_pairs(self.actions@, user@).len(),
            r.preview_reported@.len() == (if reported_pairs(self.reports@, user@).len() <= 10 {
                reported_pairs(self.reports@, user@).len()
            } else {
                10nat
            }),
            time_sorted(r.preview_reported@),
            forall|k: int|
                0 <= k < r.preview_reported@.len() ==> reported_pairs(
                    self.reports@,
                    user@,
                ).contains(#[trigger] r.preview_reported@[k]),
            forall|l: int|
                0 <= l < reported_pairs(self.reports@, user@).len() ==> r.preview_reported@.contains(
                    #[trigger] reported_pairs(self.reports@, user@)[l],
                ) || (r.preview_reported@.len() == 10 && !chars_lt(
                    r.preview_reported@[9].1.time@,
                    reported_pairs(self.reports@, user@)[l].1.time@,
                )),
            r.preview_reported_others@.len() == (if reporter_pairs(self.reports@, user@).len()
                <= 10 {
                reporter_pairs(self.reports@, user@).len()
            } else {
                10nat
            }),
            time_sorted(r.preview_reported_others@),
            forall|k: int|
                0 <= k < r.preview_reported_others@.len() ==> reporter_pairs(
                    self.reports@,
                    user@,
                ).contains(#[trigger] r.preview_reported_others@[k]),
            forall|l: int|
                0 <= l < reporter_pairs(self.reports@, user@).len()
                    ==> r.preview_reported_others@.contains(
                    #[trigger] reporter_pairs(self.reports@, user@)[l],
                ) || (r.preview_reported_others@.len() == 10 && !chars_lt(
                    r.preview_reported_others@[9].1.time@,
                    reporter_pairs(self.reports@, user@)[l].1.time@,
                )),
            r.preview_actioned@ == ({
                let ap = actioned_pairs(self.actions@, user@);
                let keep: int = if ap.len() <= 10 {
                    ap.len() as int
                } else {
                    10
                };
                ap.skip(ap.len() - keep).reverse()
            }),
    {
        proof {
            lemma_reported_pairs_increasing(self.reports@, user@);
            lemma_reporter_pairs_increasing(self.reports@, user@);
            lemma_actioned_pairs_len(self.actions@, user@);
        }
        let rp = filter_reported(&self.reports, user);
        let rop = filter_reporter(&self.reports, user);
        let ap = filter_actioned(&self.actions, user);
        let times_reported = rp.len() as u32;
        let times_reported_others = rop.len() as u32;
        let times_actioned = ap.len() as u32;
        let preview_reported = top_ten_by_time(rp);
        let preview_reported_others = top_ten_by_time(rop);
        let ap_len = ap.len();
        let keep: usize = if ap_len <= 10 {
            ap_len
        } else {
            10
        };
        let mut preview_actioned: Vec<(u32, Action)> = Vec::new();
        let mut k: usize = 0;
        while k < keep
            invariant
                keep <= ap_len,
                ap_len == ap@.len(),
                k <= keep,
                preview_actioned@.len() == k,
                forall|q: int|
                    0 <= q < k ==> (#[trigger] preview_actioned@[q]) == ap@[ap_len - 1 - q],
            decreases keep - k,
        {
            let idx = ap_len - 1 - k;
            preview_actioned.push((ap[idx].0, ap[idx].1.clone()));
            k = k + 1;
        }
        proof {
            let aps = actioned_pairs(self.actions@, user@);
            let keepg: int = if aps.len() <= 10 {
                aps.len() as int
            } else {
                10
            };
            assert(preview_actioned@ =~= aps.skip(aps.len() - keepg).reverse());
        }
        let result = UserInfo {
            times_reported,
            preview_reported,
            times_reported_others,
            preview_reported_others,
            times_actioned,
            preview_actioned,
        };
        result
    }
}

} // verus!
