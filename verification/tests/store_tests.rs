use lurk_chan::history::ActionField;
use lurk_chan::model::{Action, Location, Report, ReportStatus};
use lurk_chan::store::{MessageLink, Store, StoreError};

fn report(reported: &str, reporter: &str, status: ReportStatus, claimant: Option<u64>, time: &str) -> Report {
    Report {
        reporter_id: reporter.to_string(),
        reporter_name: format!("name-{}", reporter),
        reported_id: reported.to_string(),
        reported_name: format!("name-{}", reported),
        report_reason: "spam".to_string(),
        report_status: status,
        server: "main".to_string(),
        time: time.to_string(),
        claimant,
        location: Location::SL,
    }
}

fn action(target: &str, claimant: u64, report: Option<u32>) -> Action {
    Action {
        target_id: target.to_string(),
        target_username: format!("name-{}", target),
        offense: "spam".to_string(),
        action: "warn".to_string(),
        server: Location::SL,
        claimant,
        report,
    }
}

#[test]
fn ids_are_allocated_in_insertion_order() {
    let mut s = Store::new();
    let r1 = s.add_report(report("B", "A", ReportStatus::Open, None, "t1"));
    let r2 = s.add_report(report("C", "A", ReportStatus::Open, None, "t2"));
    assert_eq!((r1, r2), (1, 2));
    assert_eq!(s.get_report_from_id(1).unwrap().reported_id, "B");
    assert_eq!(s.get_report_from_id(2).unwrap().reported_id, "C");
    assert!(s.get_report_from_id(0).is_none());
    assert!(s.get_report_from_id(3).is_none());
}

#[test]
fn claim_close_expire_update_status() {
    let mut s = Store::new();
    s.add_report(report("B", "A", ReportStatus::Open, None, "t1"));
    s.claim_report(1, 1001);
    let r = s.get_report_from_id(1).unwrap();
    assert_eq!(r.report_status, ReportStatus::Claimed);
    assert_eq!(r.claimant, Some(1001));
    assert_eq!(s.who_claimed_report(1), Some(1001));
    s.close_report(1);
    assert_eq!(s.get_report_from_id(1).unwrap().report_status, ReportStatus::Closed);
    s.expire_report(1);
    assert_eq!(s.get_report_from_id(1).unwrap().report_status, ReportStatus::Expired);
    // unknown ids are a no-op
    s.claim_report(99, 5);
    assert_eq!(s.total_report_count(), 1);
}

#[test]
fn message_links_resolve_first_match() {
    let mut s = Store::new();
    s.add_report(report("B", "A", ReportStatus::Open, None, "t1"));
    assert_eq!(s.get_report_message(1), None);
    s.add_report_message(10, 20, 1);
    assert_eq!(s.get_report_message(1), Some((10, 20)));
    s.add_action(action("B", 1001, Some(1)));
    s.add_action_message(30, 40, 1);
    assert_eq!(s.get_action_message(1), Some((30, 40)));
    assert_eq!(s.get_action_message_from_report_id(1), Some((30, 40)));
    assert_eq!(s.get_action_message_from_report_id(2), None);
}

#[test]
fn edit_action_appends_history_with_diff() {
    let mut s = Store::new();
    s.add_action(action("B", 1001, None));
    let mut edited = action("B", 1001, None);
    edited.action = "14-day mute".to_string();
    let res = s.edit_action(1, edited, "2024-01-02T00:00:00Z".to_string(), 1001);
    assert!(res.is_ok());
    assert_eq!(s.get_action_from_id(1).unwrap().action, "14-day mute");
    assert_eq!(s.edits.len(), 1);
    let e = &s.edits[0];
    assert_eq!(e.action_id, 1);
    assert_eq!(e.old.action, "warn");
    assert_eq!(e.new.action, "14-day mute");
    assert_eq!(e.who, 1001);
    assert_eq!(e.changes, vec![ActionField::ActionTaken]);
}

#[test]
fn edit_action_missing_id_is_typed() {
    let mut s = Store::new();
    let res = s.edit_action(7, action("B", 1, None), "t".to_string(), 1);
    assert_eq!(res, Err(StoreError::ActionNotFound(7)));
    assert_eq!(s.edits.len(), 0);
}

#[test]
fn counts_are_exact() {
    let mut s = Store::new();
    s.add_report(report("B", "A", ReportStatus::Open, None, "t1"));
    s.add_report(report("B", "C", ReportStatus::Claimed, Some(1), "t2"));
    s.add_report(report("D", "A", ReportStatus::Closed, Some(2), "t3"));
    s.add_action(action("B", 1, None));
    s.add_action(action("D", 2, Some(3)));
    assert_eq!(s.total_report_count(), 3);
    assert_eq!(s.total_action_count(), 2);
    assert_eq!(s.get_report_count("B"), 2);
    assert_eq!(s.get_report_count("D"), 1);
    assert_eq!(s.get_report_count("Z"), 0);
    assert_eq!(s.get_report_count_by_status(ReportStatus::Open), 1);
    assert_eq!(s.get_report_count_by_status(ReportStatus::Claimed), 1);
    assert_eq!(s.get_report_count_by_status(ReportStatus::Expired), 0);
    assert_eq!(s.audit_count_from_server(Location::SL), 2);
    assert_eq!(s.audit_count_from_server(Location::Discord), 0);
    assert_eq!(s.audit_count_without_report(), 1);
    assert_eq!(s.get_report_message_count(), 0);
    s.add_report_message(1, 2, 1);
    assert_eq!(s.get_report_message_count(), 1);
}

#[test]
fn all_reports_with_status_keeps_id_order() {
    let mut s = Store::new();
    s.add_report(report("B", "A", ReportStatus::Open, None, "t1"));
    s.add_report(report("C", "A", ReportStatus::Closed, Some(1), "t2"));
    s.add_report(report("D", "A", ReportStatus::Open, None, "t3"));
    let open = s.all_reports_with_status(ReportStatus::Open);
    assert_eq!(open.len(), 2);
    assert_eq!(open[0].0, 1);
    assert_eq!(open[0].1.reported_id, "B");
    assert_eq!(open[1].0, 3);
    assert_eq!(open[1].1.reported_id, "D");
}

#[test]
fn leaderboards_order_by_count() {
    let mut s = Store::new();
    for _ in 0..3 {
        s.add_report(report("B", "A", ReportStatus::Claimed, Some(1), "t"));
    }
    s.add_report(report("B", "A", ReportStatus::Claimed, Some(2), "t"));
    for _ in 0..2 {
        s.add_report(report("B", "A", ReportStatus::Claimed, Some(3), "t"));
    }
    let board = s.leaderboard_reports(2);
    assert_eq!(board, vec![(1, 3), (3, 2)]);
    let full = s.leaderboard_reports(10);
    assert_eq!(full, vec![(1, 3), (3, 2), (2, 1)]);
    assert_eq!(s.leaderboard_reports(0), vec![]);

    s.add_action(action("B", 9, None));
    s.add_action(action("C", 9, None));
    s.add_action(action("D", 4, None));
    assert_eq!(s.leaderboard_audit(5), vec![(9, 2), (4, 1)]);
}

#[test]
fn integrity_probe_decides_consistency() {
    let mut s = Store::new();
    s.add_report(report("B", "A", ReportStatus::Claimed, Some(1), "t"));
    s.add_action(action("B", 1, None));
    assert!(s.integrety_check().is_ok());
    assert_eq!(s.foreign_key_check(), 0);

    // a claimant on an open report is inconsistent
    let mut bad = Store::new();
    bad.add_report(report("B", "A", ReportStatus::Open, Some(1), "t"));
    assert_eq!(bad.integrety_check(), Err(StoreError::Inconsistent));

    // two actions for one report are inconsistent
    let mut dup = Store::new();
    dup.add_report(report("B", "A", ReportStatus::Closed, Some(1), "t"));
    dup.add_action(action("B", 1, Some(1)));
    dup.add_action(action("B", 2, Some(1)));
    assert_eq!(dup.integrety_check(), Err(StoreError::Inconsistent));

    // a dangling link is a foreign-key violation
    let mut dangling = Store::new();
    dangling.report_links.push(MessageLink { entity: 5, channel: 1, message: 2 });
    assert_eq!(dangling.foreign_key_check(), 1);
    assert_eq!(dangling.integrety_check(), Err(StoreError::Inconsistent));
}

#[test]
fn user_info_collects_previews() {
    let mut s = Store::new();
    s.add_report(report("B", "A", ReportStatus::Open, None, "2024-01-01T00:00:00Z"));
    s.add_report(report("B", "C", ReportStatus::Open, None, "2024-03-01T00:00:00Z"));
    s.add_report(report("D", "B", ReportStatus::Open, None, "2024-02-01T00:00:00Z"));
    s.add_report(report("B", "A", ReportStatus::Open, None, "2024-02-15T00:00:00Z"));
    s.add_action(action("X", 42, None));
    s.add_action(action("Y", 42, None));
    let info = s.collect_user_info("B");
    assert_eq!(info.times_reported, 3);
    assert_eq!(info.times_reported_others, 1);
    assert_eq!(info.times_actioned, 0);
    let ids: Vec<u32> = info.preview_reported.iter().map(|p| p.0).collect();
    // newest first: report 2 (March), report 4 (mid February), report 1 (January)
    assert_eq!(ids, vec![2, 4, 1]);
    assert_eq!(info.preview_reported_others[0].0, 3);

    let info42 = s.collect_user_info("42");
    assert_eq!(info42.times_actioned, 2);
    // most recent action first
    let aids: Vec<u32> = info42.preview_actioned.iter().map(|p| p.0).collect();
    assert_eq!(aids, vec![2, 1]);
}

#[test]
fn user_info_keeps_only_the_ten_newest() {
    let mut s = Store::new();
    for day in 1..=12u32 {
        s.add_report(report(
            "B",
            "A",
            ReportStatus::Open,
            None,
            &format!("2024-01-{:02}T00:00:00Z", day),
        ));
    }
    let info = s.collect_user_info("B");
    assert_eq!(info.times_reported, 12);
    let ids: Vec<u32> = info.preview_reported.iter().map(|p| p.0).collect();
    // the two oldest reports (ids 1 and 2) fall off the preview
    assert_eq!(ids, vec![12, 11, 10, 9, 8, 7, 6, 5, 4, 3]);
}
