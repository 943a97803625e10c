use lurk_chan::model::{Location, Report, ReportStatus};

fn sample_report() -> Report {
    Report {
        reporter_id: "A".to_string(),
        reporter_name: "Alice".to_string(),
        reported_id: "B".to_string(),
        reported_name: "Bob".to_string(),
        report_reason: "spam".to_string(),
        report_status: ReportStatus::Open,
        server: "main".to_string(),
        time: "2024-01-01T00:00:00Z".to_string(),
        claimant: None,
        location: Location::SL,
    }
}

#[test]
fn test_report_status_from_db() {
    assert_eq!(Some(ReportStatus::Open), ReportStatus::from_db("open"));
    assert_eq!(Some(ReportStatus::Closed), ReportStatus::from_db("closed"));
    assert_eq!(Some(ReportStatus::Expired), ReportStatus::from_db("expired"));
    assert_eq!(Some(ReportStatus::Claimed), ReportStatus::from_db("claimed"));
    assert_eq!(None, ReportStatus::from_db("piss"));
}

#[test]
fn test_report_status_to_db() {
    assert_eq!(&ReportStatus::Open.to_db(), "open");
    assert_eq!(&ReportStatus::Closed.to_db(), "closed");
    assert_eq!(&ReportStatus::Expired.to_db(), "expired");
    assert_eq!(&ReportStatus::Claimed.to_db(), "claimed");
}

#[test]
fn location_round_trip() {
    assert_eq!(&Location::SL.to_db(), "sl");
    assert_eq!(&Location::Discord.to_db(), "discord");
    assert_eq!(Some(Location::SL), Location::from_db("sl"));
    assert_eq!(Some(Location::Discord), Location::from_db("discord"));
    assert_eq!(None, Location::from_db("moon"));
    assert_eq!(None, Location::from_db(""));
}

#[test]
fn status_round_trip_all_variants() {
    for st in [
        ReportStatus::Open,
        ReportStatus::Claimed,
        ReportStatus::Closed,
        ReportStatus::Expired,
    ] {
        assert_eq!(Some(st), ReportStatus::from_db(st.to_db().as_str()));
    }
}

#[test]
fn status_string_renders_claimant() {
    let mut r = sample_report();
    assert_eq!(&r.report_status_string(), "Open");
    r.report_status = ReportStatus::Claimed;
    r.claimant = Some(5);
    assert_eq!(&r.report_status_string(), "Claimed by <@!5>");
    r.report_status = ReportStatus::Closed;
    r.claimant = Some(123456789012345678);
    assert_eq!(&r.report_status_string(), "Closed by <@!123456789012345678>");
    r.claimant = None;
    assert_eq!(&r.report_status_string(), "Closed by ???");
    r.report_status = ReportStatus::Expired;
    assert_eq!(&r.report_status_string(), "Expired");
}
