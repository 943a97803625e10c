use lurk_chan::codec::{CodecError, RawAction, RawReport};
use lurk_chan::fields::{action_button_id, button_custom_id, parse_custom_id, report_button_ids, ButtonKind, FieldErrors};
use lurk_chan::model::{Location, Report, ReportStatus};
use lurk_chan::text::{dec_to_u64, do_sl_subs, parse_utc_seconds, u64_to_dec};

#[test]
fn sl_subs_replaces_placeholders() {
    assert_eq!(&do_sl_subs("how [QM] "), "how?");
    assert_eq!(&do_sl_subs("a [QM] b"), "a?b");
    assert_eq!(&do_sl_subs("what [QM]"), "what?");
    assert_eq!(&do_sl_subs("you [AMP] me"), "you&me");
    assert_eq!(&do_sl_subs("tom [AMP]"), "tom&");
    assert_eq!(&do_sl_subs("[AMP] jerry"), "&jerry");
    assert_eq!(&do_sl_subs("plain text"), "plain text");
    // a bare token with no surrounding space is left alone
    assert_eq!(&do_sl_subs("a[QM]b"), "a[QM]b");
    assert_eq!(&do_sl_subs(""), "");
}

#[test]
fn decimal_encoding_round_trips() {
    assert_eq!(&u64_to_dec(0), "0");
    assert_eq!(&u64_to_dec(7), "7");
    assert_eq!(&u64_to_dec(105), "105");
    assert_eq!(&u64_to_dec(u64::MAX), "18446744073709551615");
    for n in [0u64, 1, 9, 10, 99, 100, 123456789012345678, u64::MAX] {
        assert_eq!(Some(n), dec_to_u64(u64_to_dec(n).as_str()));
    }
}

#[test]
fn decimal_parse_rejects_garbage() {
    assert_eq!(Some(123), dec_to_u64("123"));
    assert_eq!(Some(123), dec_to_u64("0123"));
    assert_eq!(None, dec_to_u64(""));
    assert_eq!(None, dec_to_u64("+5"));
    assert_eq!(None, dec_to_u64("12a"));
    assert_eq!(None, dec_to_u64("-1"));
    assert_eq!(Some(u64::MAX), dec_to_u64("18446744073709551615"));
    assert_eq!(None, dec_to_u64("18446744073709551616"));
}

#[test]
fn timestamp_parsing_is_exact() {
    assert_eq!(Some(0), parse_utc_seconds("1970-01-01T00:00:00Z"));
    assert_eq!(Some(1704067200), parse_utc_seconds("2024-01-01T00:00:00Z"));
    assert_eq!(Some(1704067200), parse_utc_seconds("2024-01-01T01:00:00+01:00"));
    assert_eq!(None, parse_utc_seconds("not a time"));
    assert_eq!(None, parse_utc_seconds(""));
}

#[test]
fn custom_id_parses_kind_and_id() {
    assert_eq!(Some((ButtonKind::Claim, 42)), parse_custom_id("claim_42"));
    assert_eq!(Some((ButtonKind::Close, 1)), parse_custom_id("close_1"));
    assert_eq!(Some((ButtonKind::ForceClose, 7)), parse_custom_id("forceclose_7"));
    assert_eq!(Some((ButtonKind::Edit, 4294967295)), parse_custom_id("edit_4294967295"));
    assert_eq!(None, parse_custom_id("edit_4294967296"));
    assert_eq!(None, parse_custom_id("bogus_1"));
    assert_eq!(None, parse_custom_id("claim42"));
    assert_eq!(None, parse_custom_id("claim_"));
    assert_eq!(None, parse_custom_id("claim_x"));
    assert_eq!(None, parse_custom_id(""));
}

fn raw_report() -> RawReport {
    RawReport {
        reporter_id: "A".to_string(),
        reporter_name: "Alice".to_string(),
        reported_id: "B".to_string(),
        reported_name: "Bob".to_string(),
        report_reason: "spam".to_string(),
        report_status: "claimed".to_string(),
        server: "main".to_string(),
        time: "2024-01-01T00:00:00Z".to_string(),
        claimant: Some("1001".to_string()),
        location: "sl".to_string(),
    }
}

#[test]
fn raw_report_round_trip() {
    let rep = raw_report().into_report().unwrap();
    assert_eq!(rep.report_status, ReportStatus::Claimed);
    assert_eq!(rep.claimant, Some(1001));
    assert_eq!(rep.location, Location::SL);
    let raw = RawReport::from_report(rep);
    assert_eq!(&raw.report_status, "claimed");
    assert_eq!(raw.claimant.as_deref(), Some("1001"));
    assert_eq!(&raw.location, "sl");
    let back = raw.into_report().unwrap();
    assert_eq!(back.report_status, ReportStatus::Claimed);
    assert_eq!(back.claimant, Some(1001));
}

#[test]
fn raw_report_rejects_bad_columns() {
    let mut raw = raw_report();
    raw.report_status = "piss".to_string();
    match raw.into_report() {
        Err(CodecError::InvalidReportStatus(s)) => assert_eq!(&s, "piss"),
        other => panic!("unexpected: {:?}", other),
    }
    let mut raw = raw_report();
    raw.claimant = Some("12x".to_string());
    match raw.into_report() {
        Err(CodecError::InvalidNumber(s)) => assert_eq!(&s, "12x"),
        other => panic!("unexpected: {:?}", other),
    }
    let mut raw = raw_report();
    raw.location = "moon".to_string();
    match raw.into_report() {
        Err(CodecError::UnknownLocation(s)) => assert_eq!(&s, "moon"),
        other => panic!("unexpected: {:?}", other),
    }
}

#[test]
fn raw_action_round_trip() {
    let raw = RawAction {
        target_id: "B".to_string(),
        target_username: "Bob".to_string(),
        offense: "spam".to_string(),
        action: "7-day mute".to_string(),
        server: "discord".to_string(),
        claimant: "1001".to_string(),
        report: Some(1),
    };
    let a = raw.into_action().unwrap();
    assert_eq!(a.server, Location::Discord);
    assert_eq!(a.claimant, 1001);
    let raw2 = RawAction::from_action(a);
    assert_eq!(&raw2.server, "discord");
    assert_eq!(&raw2.claimant, "1001");
    assert_eq!(raw2.report, Some(1));
}

fn field(k: &str, v: &str) -> (String, String) {
    (k.to_string(), v.to_string())
}

#[test]
fn from_fields_accepts_rendered_aliases() {
    let fields = vec![
        field("Reporter UserID", "A"),
        field("Reporter Nickname", "Alice"),
        field("Reported UserID", "B"),
        field("Reported Nickname", "Bob"),
        field("Reason", "spam"),
        field("Server Name", "main"),
        field("UTC Timestamp", "2024-01-01T00:00:00Z"),
    ];
    let rep = Report::from_fields(&fields).unwrap();
    assert_eq!(&rep.reporter_id, "A");
    assert_eq!(&rep.reported_name, "Bob");
    assert_eq!(rep.report_status, ReportStatus::Open);
    assert_eq!(rep.claimant, None);
    assert_eq!(rep.location, Location::SL);
}

#[test]
fn from_fields_reads_optional_fields() {
    let fields = vec![
        field("reporter_id", "A"),
        field("reporter_name", "Alice"),
        field("reported_id", "B"),
        field("reported_name", "Bob"),
        field("report_reason", "spam"),
        field("server", "main"),
        field("time", "2024-01-01T00:00:00Z"),
        field("report_status", "Closed"),
        field("claimant", "1001"),
        field("location", "Discord"),
    ];
    let rep = Report::from_fields(&fields).unwrap();
    assert_eq!(rep.report_status, ReportStatus::Closed);
    assert_eq!(rep.claimant, Some(1001));
    assert_eq!(rep.location, Location::Discord);
}

#[test]
fn from_fields_enumerates_problems() {
    let fields = vec![
        field("Reporter UserID", "A"),
        field("Reported UserID", "B"),
        field("report_status", "Weird"),
    ];
    let FieldErrors { bad } = Report::from_fields(&fields).unwrap_err();
    let names: Vec<&str> = bad.iter().map(|s| s.as_str()).collect();
    assert_eq!(
        names,
        vec!["reporter_name", "reported_name", "report_reason", "server", "time", "report_status"]
    );
}

#[test]
fn custom_id_generation_round_trips() {
    for kind in [ButtonKind::Claim, ButtonKind::Close, ButtonKind::ForceClose, ButtonKind::Edit] {
        for id in [0u32, 1, 42, u32::MAX] {
            let s = button_custom_id(kind, id);
            assert_eq!(Some((kind, id)), parse_custom_id(s.as_str()));
        }
    }
    assert_eq!(&button_custom_id(ButtonKind::Claim, 42), "claim_42");
    assert_eq!(&action_button_id(7), "edit_7");
}

#[test]
fn report_buttons_match_status() {
    let open = report_button_ids(ReportStatus::Open, 3);
    assert_eq!(open, vec!["claim_3".to_string()]);
    let expired = report_button_ids(ReportStatus::Expired, 3);
    assert_eq!(expired, vec!["claim_3".to_string()]);
    let claimed = report_button_ids(ReportStatus::Claimed, 3);
    assert_eq!(claimed, vec!["close_3".to_string(), "forceclose_3".to_string()]);
    assert!(report_button_ids(ReportStatus::Closed, 3).is_empty());
}
