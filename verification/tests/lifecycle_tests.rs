use lurk_chan::history::ActionField;
use lurk_chan::lifecycle::{LifecycleError, LurkChan};
use lurk_chan::model::{Action, AuditModal, Location, Report, ReportStatus};

fn submission(reporter: &str, reported: &str, reason: &str, location: Location, time: &str) -> Report {
    Report {
        reporter_id: reporter.to_string(),
        reporter_name: format!("name-{}", reporter),
        reported_id: reported.to_string(),
        reported_name: format!("name-{}", reported),
        report_reason: reason.to_string(),
        report_status: ReportStatus::Open,
        server: "main".to_string(),
        time: time.to_string(),
        claimant: None,
        location,
    }
}

fn modal(id: &str, name: &str, reason: &str, action: &str) -> AuditModal {
    AuditModal {
        id: id.to_string(),
        name: name.to_string(),
        reason: reason.to_string(),
        action: action.to_string(),
    }
}

// Seconds of 2024-01-01T00:00:00Z.
const T0: i64 = 1704067200;

#[test]
fn submit_claim_close_end_to_end() {
    let mut lc = LurkChan::new();
    let id = lc.submit_report(submission("A", "B", "spam", Location::SL, "2024-01-01T00:00:00Z"));
    assert_eq!(id, 1);
    let rep = lc.store().get_report_from_id(1).unwrap();
    assert_eq!(rep.report_status, ReportStatus::Open);
    assert_eq!(rep.claimant, None);

    assert_eq!(lc.claim_report(1, 1001), Ok(()));
    let rep = lc.store().get_report_from_id(1).unwrap();
    assert_eq!(rep.report_status, ReportStatus::Claimed);
    assert_eq!(rep.claimant, Some(1001));

    let aid = lc.close_report(1, 1001, modal("B", "name-B", "spam", "7-day mute")).unwrap();
    assert_eq!(aid, 1);
    let rep = lc.store().get_report_from_id(1).unwrap();
    assert_eq!(rep.report_status, ReportStatus::Closed);
    assert_eq!(rep.claimant, Some(1001));
    let act = lc.store().get_action_from_id(1).unwrap();
    assert_eq!(act.report, Some(1));
    assert_eq!(act.claimant, 1001);
    assert_eq!(&act.action, "7-day mute");
    assert_eq!(act.server, Location::SL);

    // the resolution link resolves unambiguously once recorded
    assert_eq!(lc.store().get_action_message_from_report_id(1), None);
    assert_eq!(lc.link_action_message(1, 555, 777), Ok(()));
    assert_eq!(lc.store().get_action_message_from_report_id(1), Some((555, 777)));
}

#[test]
fn close_by_non_claimant_is_rejected() {
    let mut lc = LurkChan::new();
    lc.submit_report(submission("A", "B", "spam", Location::SL, "2024-01-01T00:00:00Z"));
    assert_eq!(lc.claim_report(1, 1001), Ok(()));
    // someone else tries to close: typed rejection, nothing changes
    assert_eq!(
        lc.close_report(1, 1002, modal("B", "name-B", "spam", "mute")),
        Err(LifecycleError::NotOwner)
    );
    let rep = lc.store().get_report_from_id(1).unwrap();
    assert_eq!(rep.report_status, ReportStatus::Claimed);
    assert_eq!(rep.claimant, Some(1001));
    assert_eq!(lc.store().total_action_count(), 0);
    assert_eq!(
        lc.force_close_report(1, 1002),
        Err(LifecycleError::NotOwner)
    );
    assert_eq!(lc.store().get_report_from_id(1).unwrap().report_status, ReportStatus::Claimed);
}

#[test]
fn second_close_observes_typed_rejection() {
    let mut lc = LurkChan::new();
    lc.submit_report(submission("A", "B", "spam", Location::SL, "2024-01-01T00:00:00Z"));
    lc.claim_report(1, 1001).unwrap();
    lc.close_report(1, 1001, modal("B", "name-B", "spam", "mute")).unwrap();
    // a racing second close finds the report no longer claimed
    assert_eq!(
        lc.close_report(1, 1001, modal("B", "name-B", "spam", "ban")),
        Err(LifecycleError::NotClaimed)
    );
    // still exactly one action for the report
    assert_eq!(lc.store().total_action_count(), 1);
}

#[test]
fn claim_guards() {
    let mut lc = LurkChan::new();
    assert_eq!(lc.claim_report(1, 5), Err(LifecycleError::NotFound));
    lc.submit_report(submission("A", "B", "spam", Location::SL, "2024-01-01T00:00:00Z"));
    assert_eq!(lc.claim_report(1, 5), Ok(()));
    // claiming a claimed report is rejected
    assert_eq!(lc.claim_report(1, 6), Err(LifecycleError::AlreadyClaimed));
    assert_eq!(lc.store().get_report_from_id(1).unwrap().claimant, Some(5));
    // an expired report reopens by being claimed
    lc.submit_report(submission("A", "C", "spam", Location::SL, "2000-01-01T00:00:00Z"));
    let expired = lc.run_expiry_sweep(T0);
    assert_eq!(expired, vec![2]);
    assert_eq!(lc.store().get_report_from_id(2).unwrap().report_status, ReportStatus::Expired);
    assert_eq!(lc.claim_report(2, 7), Ok(()));
    assert_eq!(lc.store().get_report_from_id(2).unwrap().report_status, ReportStatus::Claimed);
}

#[test]
fn expiry_sweep_respects_threshold() {
    let mut lc = LurkChan::new();
    // 49 hours old: expired by one sweep
    lc.submit_report(submission("A", "B", "spam", Location::SL, "2024-01-01T00:00:00Z"));
    // 47 hours old: untouched
    lc.submit_report(submission("A", "C", "spam", Location::SL, "2024-01-01T02:00:00Z"));
    // unparseable timestamp: skipped, not expired, sweep goes on
    lc.submit_report(submission("A", "D", "spam", Location::SL, "garbage"));
    let now = T0 + 49 * 3600;
    let expired = lc.run_expiry_sweep(now);
    assert_eq!(expired, vec![1]);
    assert_eq!(lc.store().get_report_from_id(1).unwrap().report_status, ReportStatus::Expired);
    assert_eq!(lc.store().get_report_from_id(2).unwrap().report_status, ReportStatus::Open);
    assert_eq!(lc.store().get_report_from_id(3).unwrap().report_status, ReportStatus::Open);
    // a claimed report is never expired, and the unparseable one stays put
    lc.claim_report(2, 5).unwrap();
    let expired = lc.run_expiry_sweep(T0 + 1000 * 3600);
    assert_eq!(expired, Vec::<u32>::new());
    assert_eq!(lc.store().get_report_from_id(2).unwrap().report_status, ReportStatus::Claimed);
    assert_eq!(lc.store().get_report_from_id(3).unwrap().report_status, ReportStatus::Open);
}

#[test]
fn edit_action_skips_noop_and_logs_changes() {
    let mut lc = LurkChan::new();
    lc.submit_report(submission("A", "B", "spam", Location::SL, "2024-01-01T00:00:00Z"));
    lc.claim_report(1, 1001).unwrap();
    lc.close_report(1, 1001, modal("B", "name-B", "spam", "7-day mute")).unwrap();

    // byte-identical edit: recognized as a no-op, no history row written
    let same = modal("B", "name-B", "spam", "7-day mute");
    assert_eq!(lc.edit_action(1, same, 1001, "2024-01-02T00:00:00Z".to_string()), Ok(()));
    assert_eq!(lc.store().edits.len(), 0);

    // a real edit updates the action and appends one record with the diff
    let changed = modal("B", "name-B", "spam", "14-day mute");
    assert_eq!(lc.edit_action(1, changed, 1001, "2024-01-02T00:00:00Z".to_string()), Ok(()));
    assert_eq!(&lc.store().get_action_from_id(1).unwrap().action, "14-day mute");
    assert_eq!(lc.store().edits.len(), 1);
    let e = &lc.store().edits[0];
    assert_eq!(e.action_id, 1);
    assert_eq!(&e.old.action, "7-day mute");
    assert_eq!(&e.new.action, "14-day mute");
    assert_eq!(e.who, 1001);
    assert_eq!(&e.time, "2024-01-02T00:00:00Z");
    assert_eq!(e.changes, vec![ActionField::ActionTaken]);

    // only the claimant may edit
    let intruder = modal("B", "name-B", "spam", "unban");
    assert_eq!(
        lc.edit_action(1, intruder, 1002, "t".to_string()),
        Err(LifecycleError::NotOwner)
    );
    assert_eq!(
        lc.edit_action(9, modal("B", "n", "r", "a"), 1001, "t".to_string()),
        Err(LifecycleError::NotFound)
    );
}

#[test]
fn record_audit_is_standalone() {
    let mut lc = LurkChan::new();
    let aid = lc.record_audit(Action {
        target_id: "X".to_string(),
        target_username: "name-X".to_string(),
        offense: "griefing".to_string(),
        action: "timeout".to_string(),
        server: Location::Discord,
        claimant: 9,
        report: Some(3),
    });
    assert_eq!(aid, 1);
    let a = lc.store().get_action_from_id(1).unwrap();
    // standalone audits are never tied to a report
    assert_eq!(a.report, None);
    assert_eq!(a.claimant, 9);
}

#[test]
fn message_links_are_guarded() {
    let mut lc = LurkChan::new();
    assert_eq!(lc.link_report_message(1, 10, 20), Err(LifecycleError::NotFound));
    lc.submit_report(submission("A", "B", "spam", Location::SL, "2024-01-01T00:00:00Z"));
    assert_eq!(lc.link_report_message(1, 10, 20), Ok(()));
    assert_eq!(lc.store().get_report_message(1), Some((10, 20)));
    // a second live link for the same report is rejected
    assert_eq!(lc.link_report_message(1, 11, 21), Err(LifecycleError::AlreadyLinked));
    assert_eq!(lc.store().get_report_message(1), Some((10, 20)));
}

#[test]
fn health_check_is_clean_on_maintained_state() {
    let mut lc = LurkChan::new();
    lc.submit_report(submission("A", "B", "spam", Location::SL, "2024-01-01T00:00:00Z"));
    lc.claim_report(1, 1001).unwrap();
    lc.close_report(1, 1001, modal("B", "name-B", "spam", "mute")).unwrap();
    lc.link_report_message(1, 10, 20).unwrap();
    lc.link_action_message(1, 30, 40).unwrap();
    let h = lc.health_check();
    assert_eq!(h.foreign_key_violations, 0);
    assert!(h.integrity_ok);
}

#[test]
fn import_keeps_status_but_not_open_claimants() {
    let mut lc = LurkChan::new();
    let mut closed = submission("A", "B", "spam", Location::SL, "2024-01-01T00:00:00Z");
    closed.report_status = ReportStatus::Closed;
    closed.claimant = Some(1001);
    let id = lc.import_report(closed);
    assert_eq!(id, 1);
    let rep = lc.store().get_report_from_id(1).unwrap();
    assert_eq!(rep.report_status, ReportStatus::Closed);
    assert_eq!(rep.claimant, Some(1001));

    let mut odd = submission("A", "C", "spam", Location::SL, "2024-01-01T00:00:00Z");
    odd.claimant = Some(9);
    lc.import_report(odd);
    let rep = lc.store().get_report_from_id(2).unwrap();
    assert_eq!(rep.report_status, ReportStatus::Open);
    assert_eq!(rep.claimant, None);
    assert!(lc.health_check().integrity_ok);
}
