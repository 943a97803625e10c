//! Entity model: the closed enumerations, the two primary entity kinds, and
//! the plain configuration structs handed to the core at startup.

use vstd::prelude::*;

verus! {

/// Originating platform of a report or action.
#[derive(Debug, Clone, Copy, PartialEq, Eq, Structural)]
pub enum Location {
    SL,
    Discord,
}

/// Lifecycle state of a report.
#[derive(Debug, Clone, Copy, PartialEq, Eq, Structural)]
pub enum ReportStatus {
    Open,
    Claimed,
    Closed,
    Expired,
}

impl ReportStatus {
    /// The stable storage encoding of each status.
    pub open spec fn spec_to_db(self) -> Seq<char> {
        match self {
            ReportStatus::Open => "open"@,
            ReportStatus::Claimed => "claimed"@,
            ReportStatus::Closed => "closed"@,
            ReportStatus::Expired => "expired"@,
        }
    }

    /// The partial inverse of the storage encoding: defined exactly on the
    /// four encodings above.
    pub open spec fn spec_from_db(s: Seq<char>) -> Option<ReportStatus> {
        if s == "open"@ {
            Some(ReportStatus::Open)
        } else if s == "claimed"@ {
            Some(ReportStatus::Claimed)
        } else if s == "closed"@ {
            Some(ReportStatus::Closed)
        } else if s == "expired"@ {
            Some(ReportStatus::Expired)
        } else {
            None
        }
    }

    /// Encode a status for storage; total on the enum.
    pub fn to_db(&self) -> (r: String)
        ensures
            r@ == self.spec_to_db(),
    {
        match self {
            ReportStatus::Open => String::from_str("open"),
            ReportStatus::Claimed => String::from_str("claimed"),
            ReportStatus::Closed => String::from_str("closed"),
            ReportStatus::Expired => String::from_str("expired"),
        }
    }

    /// Decode a storage string; fails (returns `None`) on every string that
    /// is not one of the four encodings.
    pub fn from_db(item: &str) -> (r: Option<ReportStatus>)
        ensures
            r == Self::spec_from_db(item@),
    {
        if crate::text::str_eq(item, "open") {
            Some(ReportStatus::Open)
        } else if crate::text::str_eq(item, "claimed") {
            Some(ReportStatus::Claimed)
        } else if crate::text::str_eq(item, "closed") {
            Some(ReportStatus::Closed)
        } else if crate::text::str_eq(item, "expired") {
            Some(ReportStatus::Expired)
        } else {
            None
        }
    }
}

/// Round trip: decoding an encoded status always yields the status back.
pub proof fn lemma_report_status_round_trip(s: ReportStatus)
    ensures
        ReportStatus::spec_from_db(s.spec_to_db()) == Some(s),
{
    reveal_strlit("open");
    reveal_strlit("claimed");
    reveal_strlit("closed");
    reveal_strlit("expired");
    assert("open"@.len() == 4);
    assert("claimed"@.len() == 7);
    assert("closed"@.len() == 6);
    assert("expired"@.len() == 7);
    assert("claimed"@[0] == 'c' && "expired"@[0] == 'e');
}

impl Location {
    /// The stable storage encoding of each location.
    pub open spec fn spec_to_db(self) -> Seq<char> {
        match self {
            Location::SL => "sl"@,
            Location::Discord => "discord"@,
        }
    }

    /// The partial inverse of the storage encoding.
    pub open spec fn spec_from_db(s: Seq<char>) -> Option<Location> {
        if s == "sl"@ {
            Some(Location::SL)
        } else if s == "discord"@ {
            Some(Location::Discord)
        } else {
            None
        }
    }

    /// Encode a location for storage; total on the enum.
    pub fn to_db(&self) -> (r: String)
        ensures
            r@ == self.spec_to_db(),
    {
        match self {
            Location::SL => String::from_str("sl"),
            Location::Discord => String::from_str("discord"),
        }
    }

    /// Decode a storage string; fails (returns `None`) on any other value.
    pub fn from_db(item: &str) -> (r: Option<Location>)
        ensures
            r == Self::spec_from_db(item@),
    {
        if crate::text::str_eq(item, "sl") {
            Some(Location::SL)
        } else if crate::text::str_eq(item, "discord") {
            Some(Location::Discord)
        } else {
            None
        }
    }
}

/// Round trip: decoding an encoded location always yields the location back.
pub proof fn lemma_location_round_trip(l: Location)
    ensures
        Location::spec_from_db(l.spec_to_db()) == Some(l),
{
    reveal_strlit("sl");
    reveal_strlit("discord");
    assert("sl"@.len() == 2);
    assert("discord"@.len() == 7);
}

/// A filed complaint about one participant, tracked through the
/// open/claimed/closed/expired lifecycle.
#[derive(Debug)]
pub struct Report {
    /// Identifier of the reporter, as supplied by the originating platform.
    pub reporter_id: String,
    /// Display name of the reporter.
    pub reporter_name: String,
    /// Identifier of the reported party.
    pub reported_id: String,
    /// Display name of the reported party.
    pub reported_name: String,
    /// Free-text reason for the report.
    pub report_reason: String,
    /// Current lifecycle state.
    pub report_status: ReportStatus,
    /// Label of the originating server.
    pub server: String,
    /// Creation timestamp, an ISO-8601 string as supplied at ingestion.
    pub time: String,
    /// Staff identity that owns the report; set only once the report leaves
    /// the open state.
    pub claimant: Option<u64>,
    /// Originating platform.
    pub location: Location,
}

impl Clone for Report {
    fn clone(&self) -> (res: Self)
        ensures
            res == *self,
    {
        Report {
            reporter_id: self.reporter_id.clone(),
            reporter_name: self.reporter_name.clone(),
            reported_id: self.reported_id.clone(),
            reported_name: self.reported_name.clone(),
            report_reason: self.report_reason.clone(),
            report_status: self.report_status,
            server: self.server.clone(),
            time: self.time.clone(),
            claimant: self.claimant,
            location: self.location,
        }
    }
}

/// A recorded disciplinary decision (audit entry), optionally tied back to
/// the report that prompted it.
#[derive(Debug)]
pub struct Action {
    /// Identifier of the target, as supplied by the originating platform.
    pub target_id: String,
    /// Display name of the target.
    pub target_username: String,
    /// What the target did.
    pub offense: String,
    /// What was done about it.
    pub action: String,
    /// Platform the action applies to.
    pub server: Location,
    /// Staff identity that issued the action; always present.
    pub claimant: u64,
    /// Back-reference to the report this action resolves, if any.
    pub report: Option<u32>,
}

impl Clone for Action {
    fn clone(&self) -> (res: Self)
        ensures
            res == *self,
    {
        Action {
            target_id: self.target_id.clone(),
            target_username: self.target_username.clone(),
            offense: self.offense.clone(),
            action: self.action.clone(),
            server: self.server,
            claimant: self.claimant,
            report: self.report,
        }
    }
}

/// The status line rendered for a report: the state, who owns it, and --
/// for a claimed or closed report -- a mention of the claimant. The
/// resolution link, when one exists, is appended by the rendering layer.
pub open spec fn status_text(st: ReportStatus, claimant: Option<u64>) -> Seq<char> {
    match st {
        ReportStatus::Open => "Open"@,
        ReportStatus::Expired => "Expired"@,
        ReportStatus::Claimed => match claimant {
            Some(c) => "Claimed by <@!"@ + crate::text::dec_digits(c as nat) + ">"@,
            None => "Claimed by ???"@,
        },
        ReportStatus::Closed => match claimant {
            Some(c) => "Closed by <@!"@ + crate::text::dec_digits(c as nat) + ">"@,
            None => "Closed by ???"@,
        },
    }
}

impl Report {
    /// Render the status line for this report.
    pub fn report_status_string(&self) -> (r: String)
        ensures
            r@ == status_text(self.report_status, self.claimant),
    {
        match self.report_status {
            ReportStatus::Open => String::from_str("Open"),
            ReportStatus::Expired => String::from_str("Expired"),
            ReportStatus::Claimed => match self.claimant {
                Some(c) => {
                    let mut s = String::from_str("Claimed by <@!");
                    let d = crate::text::u64_to_dec(c);
                    s.append(d.as_str());
                    s.append(">");
                    proof {
                        assert(s@ =~= "Claimed by <@!"@ + crate::text::dec_digits(c as nat)
                            + ">"@);
                    }
                    s
                },
                None => String::from_str("Claimed by ???"),
            },
            ReportStatus::Closed => match self.claimant {
                Some(c) => {
                    let mut s = String::from_str("Closed by <@!");
                    let d = crate::text::u64_to_dec(c);
                    s.append(d.as_str());
                    s.append(">");
                    proof {
                        assert(s@ =~= "Closed by <@!"@ + crate::text::dec_digits(c as nat)
                            + ">"@);
                    }
                    s
                },
                None => String::from_str("Closed by ???"),
            },
        }
    }
}

/// Operator-supplied fields for creating or editing an action: the free-text
/// answers of the audit form.
#[derive(Debug)]
pub struct AuditModal {
    /// Identifier of the user the action targets.
    pub id: String,
    /// Display name of the user the action targets.
    pub name: String,
    /// Reason for the action.
    pub reason: String,
    /// The action taken.
    pub action: String,
}

impl Clone for AuditModal {
    fn clone(&self) -> (res: Self)
        ensures
            res == *self,
    {
        AuditModal {
            id: self.id.clone(),
            name: self.name.clone(),
            reason: self.reason.clone(),
            action: self.action.clone(),
        }
    }
}

impl AuditModal {
    /// Prefill the audit form from an existing action, as done when an
    /// action is edited.
    pub fn from_action(a: &Action) -> (r: AuditModal)
        ensures
            r.id == a.target_id,
            r.name == a.target_username,
            r.reason == a.offense,
            r.action == a.action,
    {
        AuditModal {
            id: a.target_id.clone(),
            name: a.target_username.clone(),
            reason: a.offense.clone(),
            action: a.action.clone(),
        }
    }
}

/// Connection settings for the chat platform.
#[derive(Debug)]
pub struct MainConfig {
    /// Gateway authentication token.
    pub token: String,
}

/// Channels used for the first supported platform's audit log.
#[derive(Debug, Clone, Copy)]
pub struct SLConfig {
    /// Channel that receives audit-log messages.
    pub audit: u64,
}

/// Channels used for the second supported platform.
#[derive(Debug, Clone, Copy)]
pub struct DiscordConfig {
    /// Channel that receives incoming reports.
    pub reports: u64,
    /// Channel that receives audit-log messages.
    pub audit: u64,
    /// Channel that carries the rolling statistics message.
    pub stats: u64,
    /// Optional guild used for command registration while debugging.
    pub debug_guild: Option<u64>,
}

/// Explicit configuration handed to the core at startup; no ambient global
/// state.
#[derive(Debug)]
pub struct Config {
    pub main: MainConfig,
    pub secret_lab: SLConfig,
    pub discord: DiscordConfig,
}

} // verus!
