//! Row codec: conversions between the typed entities and the text-encoded
//! row form the relational store holds, where enumerations are encoding
//! strings and 64-bit identifiers are decimal text. Parse failures on read
//! indicate data corruption and come back as typed errors carrying the
//! offending raw value.

use vstd::prelude::*;

use crate::model::{Action, Location, Report, ReportStatus};
use crate::text::{dec_digits, dec_to_u64, spec_parse_u64, u64_to_dec};

verus! {

/// Typed decoding failures, each carrying the offending raw value.
#[derive(Debug)]
pub enum CodecError {
    /// The status column holds an unrecognized encoding.
    InvalidReportStatus(String),
    /// The location column holds an unrecognized encoding.
    UnknownLocation(String),
    /// An identifier column does not hold a decimal 64-bit number.
    InvalidNumber(String),
}

/// A report row as stored: enumerations and the claimant as text.
#[derive(Debug)]
pub struct RawReport {
    pub reporter_id: String,
    pub reporter_name: String,
    pub reported_id: String,
    pub reported_name: String,
    pub report_reason: String,
    pub report_status: String,
    pub server: String,
    pub time: String,
    pub claimant: Option<String>,
    pub location: String,
}

/// An action row as stored: the location and the claimant as text.
#[derive(Debug)]
pub struct RawAction {
    pub target_id: String,
    pub target_username: String,
    pub offense: String,
    pub action: String,
    pub server: String,
    pub claimant: String,
    pub report: Option<u32>,
}

impl RawReport {
    /// Whether every encoded column of the row decodes.
    pub open spec fn decodes(self) -> bool {
        &&& ReportStatus::spec_from_db(self.report_status@) is Some
        &&& (match self.claimant {
            Some(c) => spec_parse_u64(c@) is Some,
            None => true,
        })
        &&& Location::spec_from_db(self.location@) is Some
    }

    /// Decode a stored row into a typed report. Fails, with the offending
    /// value, exactly when a column does not decode; the status is checked
    /// first, then the claimant, then the location.
    pub fn into_report(self) -> (r: Result<Report, CodecError>)
        ensures
            r is Ok <==> self.decodes(),
            r matches Ok(rep) ==> {
                &&& rep.reporter_id == self.reporter_id
                &&& rep.reporter_name == self.reporter_name
                &&& rep.reported_id == self.reported_id
                &&& rep.reported_name == self.reported_name
                &&& rep.report_reason == self.report_reason
                &&& Some(rep.report_status) == ReportStatus::spec_from_db(self.report_status@)
                &&& rep.server == self.server
                &&& rep.time == self.time
                &&& (match self.claimant {
                    Some(c) => rep.claimant == spec_parse_u64(c@),
                    None => rep.claimant is None,
                })
                &&& Some(rep.location) == Location::spec_from_db(self.location@)
            },
            ReportStatus::spec_from_db(self.report_status@) is None ==> (r matches Err(e)
                && e matches CodecError::InvalidReportStatus(s) && s@ == self.report_status@),
            self.claimant matches Some(c) ==> (ReportStatus::spec_from_db(self.report_status@)
                is Some && spec_parse_u64(c@) is None ==> (r matches Err(e) && e
                matches CodecError::InvalidNumber(s) && s@ == c@)),
            ReportStatus::spec_from_db(self.report_status@) is Some && (match self.claimant {
                Some(c) => spec_parse_u64(c@) is Some,
                None => true,
            }) && Location::spec_from_db(self.location@) is None ==> (r matches Err(e) && e
                matches CodecError::UnknownLocation(s) && s@ == self.location@),
    {
        let status = match ReportStatus::from_db(self.report_status.as_str()) {
            Some(st) => st,
            None => {
                return Err(CodecError::InvalidReportStatus(self.report_status));
            },
        };
        let claimant = match self.claimant {
            Some(c) => match dec_to_u64(c.as_str()) {
                Some(n) => Some(n),
                None => {
                    return Err(CodecError::InvalidNumber(c));
                },
            },
            None => None,
        };
        let location = match Location::from_db(self.location.as_str()) {
            Some(l) => l,
            None => {
                return Err(CodecError::UnknownLocation(self.location));
            },
        };
        Ok(
            Report {
                reporter_id: self.reporter_id,
                reporter_name: self.reporter_name,
                reported_id: self.reported_id,
                reported_name: self.reported_name,
                report_reason: self.report_reason,
                report_status: status,
                server: self.server,
                time: self.time,
                claimant,
                location,
            },
        )
    }

    /// Encode a typed report as a stored row; total, and exact: every
    /// column is the canonical encoding.
    pub fn from_report(r: Report) -> (raw: RawReport)
        ensures
            raw.reporter_id == r.reporter_id,
            raw.reporter_name == r.reporter_name,
            raw.reported_id == r.reported_id,
            raw.reported_name == r.reported_name,
            raw.report_reason == r.report_reason,
            raw.report_status@ == r.report_status.spec_to_db(),
            raw.server == r.server,
            raw.time == r.time,
            (match r.claimant {
                Some(c) => raw.claimant matches Some(s) && s@ == dec_digits(c as nat),
                None => raw.claimant is None,
            }),
            raw.location@ == r.location.spec_to_db(),
    {
        RawReport {
            reporter_id: r.reporter_id,
            reporter_name: r.reporter_name,
            reported_id: r.reported_id,
            reported_name: r.reported_name,
            report_reason: r.report_reason,
            report_status: r.report_status.to_db(),
            server: r.server,
            time: r.time,
            claimant: match r.claimant {
                Some(c) => Some(u64_to_dec(c)),
                None => None,
            },
            location: r.location.to_db(),
        }
    }
}

/// Encoding a report and decoding the row gives the report back: a row in
/// the shape `from_report` produces always decodes, and every decoded
/// column is the value it was encoded from. The text round trip through
/// the store is exact.
pub proof fn lemma_report_row_round_trip(r: Report, raw: RawReport)
    requires
        raw.report_status@ == r.report_status.spec_to_db(),
        (match r.claimant {
            Some(c) => raw.claimant matches Some(s) && s@ == dec_digits(c as nat),
            None => raw.claimant is None,
        }),
        raw.location@ == r.location.spec_to_db(),
    ensures
        raw.decodes(),
        ReportStatus::spec_from_db(raw.report_status@) == Some(r.report_status),
        Location::spec_from_db(raw.location@) == Some(r.location),
        (match raw.claimant {
            Some(s) => spec_parse_u64(s@) == r.claimant,
            None => r.claimant is None,
        }),
{
    crate::model::lemma_report_status_round_trip(r.report_status);
    crate::model::lemma_location_round_trip(r.location);
    if let Some(c) = r.claimant {
        crate::text::lemma_u64_decimal_round_trip(c);
    }
}

impl RawAction {
    /// Whether every encoded column of the row decodes.
    pub open spec fn decodes(self) -> bool {
        &&& spec_parse_u64(self.claimant@) is Some
        &&& Location::spec_from_db(self.server@) is Some
    }

    /// Decode a stored row into a typed action. Fails, with the offending
    /// value, exactly when a column does not decode; the claimant is
    /// checked before the location.
    pub fn into_action(self) -> (r: Result<Action, CodecError>)
        ensures
            r is Ok <==> self.decodes(),
            r matches Ok(a) ==> {
                &&& a.target_id == self.target_id
                &&& a.target_username == self.target_username
                &&& a.offense == self.offense
                &&& a.action == self.action
                &&& Some(a.server) == Location::spec_from_db(self.server@)
                &&& Some(a.claimant) == spec_parse_u64(self.claimant@)
                &&& a.report == self.report
            },
            spec_parse_u64(self.claimant@) is None ==> (r matches Err(e) && e
                matches CodecError::InvalidNumber(s) && s@ == self.claimant@),
            spec_parse_u64(self.claimant@) is Some && Location::spec_from_db(self.server@) is None
                ==> (r matches Err(e) && e matches CodecError::UnknownLocation(s) && s@
                == self.server@),
    {
        let claimant = match dec_to_u64(self.claimant.as_str()) {
            Some(n) => n,
            None => {
                return Err(CodecError::InvalidNumber(self.claimant));
            },
        };
        let server = match Location::from_db(self.server.as_str()) {
            Some(l) => l,
            None => {
                return Err(CodecError::UnknownLocation(self.server));
            },
        };
        Ok(
            Action {
                target_id: self.target_id,
                target_username: self.target_username,
                offense: self.offense,
                action: self.action,
                server,
                claimant,
                report: self.report,
            },
        )
    }

    /// Encode a typed action as a stored row; total and exact.
    pub fn from_action(a: Action) -> (raw: RawAction)
        ensures
            raw.target_id == a.target_id,
            raw.target_username == a.target_username,
            raw.offense == a.offense,
            raw.action == a.action,
            raw.server@ == a.server.spec_to_db(),
            raw.claimant@ == dec_digits(a.claimant as nat),
            raw.report == a.report,
    {
        RawAction {
            target_id: a.target_id,
            target_username: a.target_username,
            offense: a.offense,
            action: a.action,
            server: a.server.to_db(),
            claimant: u64_to_dec(a.claimant),
            report: a.report,
        }
    }
}

} // verus!
