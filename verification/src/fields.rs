//! Reconstruction of entities from externally rendered key/value fields,
//! and the routing tokens carried by interactive components: an explicit,
//! validated field-by-field constructor in place of reflective
//! deserialization, and the parser for the `kind_id` custom identifiers.

use vstd::prelude::*;

use crate::model::{Location, Report, ReportStatus};
use crate::text::{spec_parse_u64, str_chars, str_eq};

verus! {

/// The first value stored under `key`, if any.
pub open spec fn spec_lookup(fields: Seq<(String, String)>, key: Seq<char>) -> Option<Seq<char>>
    decreases fields.len(),
{
    if fields.len() == 0 {
        None
    } else if fields[0].0@ == key {
        Some(fields[0].1@)
    } else {
        spec_lookup(fields.drop_first(), key)
    }
}

/// The value stored under the canonical key, or failing that under the
/// rendered alias.
pub open spec fn spec_field(
    fields: Seq<(String, String)>,
    key: Seq<char>,
    alias: Seq<char>,
) -> Option<Seq<char>> {
    match spec_lookup(fields, key) {
        Some(v) => Some(v),
        None => spec_lookup(fields, alias),
    }
}

/// The status a rendered variant name denotes, if any.
pub open spec fn spec_status_name(s: Seq<char>) -> Option<ReportStatus> {
    if s == "Open"@ {
        Some(ReportStatus::Open)
    } else if s == "Claimed"@ {
        Some(ReportStatus::Claimed)
    } else if s == "Closed"@ {
        Some(ReportStatus::Closed)
    } else if s == "Expired"@ {
        Some(ReportStatus::Expired)
    } else {
        None
    }
}

/// The location a rendered variant name denotes, if any.
pub open spec fn spec_location_name(s: Seq<char>) -> Option<Location> {
    if s == "SL"@ {
        Some(Location::SL)
    } else if s == "Discord"@ {
        Some(Location::Discord)
    } else {
        None
    }
}

/// Singleton list of a field name when it is a problem, empty otherwise.
pub open spec fn name_entry(bad: bool, name: Seq<char>) -> Seq<Seq<char>> {
    if bad {
        seq![name]
    } else {
        Seq::empty()
    }
}

/// The field names a dictionary fails on, in field order: a required field
/// that is absent, or an optional field whose value does not parse.
pub open spec fn spec_problems(fields: Seq<(String, String)>) -> Seq<Seq<char>> {
    name_entry(spec_field(fields, "reporter_id"@, "Reporter UserID"@) is None, "reporter_id"@)
        + name_entry(
        spec_field(fields, "reporter_name"@, "Reporter Nickname"@) is None,
        "reporter_name"@,
    ) + name_entry(spec_field(fields, "reported_id"@, "Reported UserID"@) is None, "reported_id"@)
        + name_entry(
        spec_field(fields, "reported_name"@, "Reported Nickname"@) is None,
        "reported_name"@,
    ) + name_entry(spec_field(fields, "report_reason"@, "Reason"@) is None, "report_reason"@)
        + name_entry(spec_field(fields, "server"@, "Server Name"@) is None, "server"@)
        + name_entry(spec_field(fields, "time"@, "UTC Timestamp"@) is None, "time"@) + name_entry(
        match spec_lookup(fields, "report_status"@) {
            Some(v) => spec_status_name(v) is None,
            None => false,
        },
        "report_status"@,
    ) + name_entry(
        match spec_lookup(fields, "claimant"@) {
            Some(v) => spec_parse_u64(v) is None,
            None => false,
        },
        "claimant"@,
    ) + name_entry(
        match spec_lookup(fields, "location"@) {
            Some(v) => spec_location_name(v) is None,
            None => false,
        },
        "location"@,
    )
}

/// The character sequences of a list of strings.
pub open spec fn views_of(v: Seq<String>) -> Seq<Seq<char>> {
    v.map_values(|x: String| x@)
}

/// Typed parse failure: every missing required field and every invalid
/// optional field, by canonical name, in field order.
#[derive(Debug)]
pub struct FieldErrors {
    pub bad: Vec<String>,
}

/// Record a problem field by its canonical name when `flag` holds.
fn note_problem(bad: &mut Vec<String>, flag: bool, name: &str)
    ensures
        views_of(final(bad)@) == views_of(old(bad)@) + name_entry(flag, name@),
{
    if flag {
        let n = String::from_str(name);
        bad.push(n);
        proof {
            assert(views_of(bad@) =~= views_of(old(bad)@) + name_entry(flag, name@));
        }
    } else {
        proof {
            assert(views_of(bad@) =~= views_of(old(bad)@) + name_entry(flag, name@));
        }
    }
}

/// Linear scan for the first value stored under `key`.
fn lookup_one(fields: &Vec<(String, String)>, key: &str) -> (r: Option<String>)
    ensures
        r is Some <==> spec_lookup(fields@, key@) is Some,
        r matches Some(v) ==> spec_lookup(fields@, key@) == Some(v@),
{
    let mut i: usize = 0;
    proof {
        assert(fields@.skip(0) =~= fields@);
    }
    while i < fields.len()
        invariant
            i <= fields@.len(),
            spec_lookup(fields@, key@) == spec_lookup(fields@.skip(i as int), key@),
        decreases fields@.len() - i,
    {
        proof {
            assert(fields@.skip(i as int)[0] == fields@[i as int]);
            assert(fields@.skip(i as int).drop_first() =~= fields@.skip(i as int + 1));
        }
        if str_eq(fields[i].0.as_str(), key) {
            return Some(fields[i].1.clone());
        }
        i = i + 1;
    }
    None
}

/// Look a field up under its canonical key, then under its alias.
fn lookup2(fields: &Vec<(String, String)>, key: &str, alias: &str) -> (r: Option<String>)
    ensures
        r is Some <==> spec_field(fields@, key@, alias@) is Some,
        r matches Some(v) ==> spec_field(fields@, key@, alias@) == Some(v@),
{
    match lookup_one(fields, key) {
        Some(v) => Some(v),
        None => lookup_one(fields, alias),
    }
}

/// The status a rendered variant name denotes.
fn status_from_name(s: &str) -> (r: Option<ReportStatus>)
    ensures
        r == spec_status_name(s@),
{
    if str_eq(s, "Open") {
        Some(ReportStatus::Open)
    } else if str_eq(s, "Claimed") {
        Some(ReportStatus::Claimed)
    } else if str_eq(s, "Closed") {
        Some(ReportStatus::Closed)
    } else if str_eq(s, "Expired") {
        Some(ReportStatus::Expired)
    } else {
        None
    }
}

/// The location a rendered variant name denotes.
fn location_from_name(s: &str) -> (r: Option<Location>)
    ensures
        r == spec_location_name(s@),
{
    if str_eq(s, "SL") {
        Some(Location::SL)
    } else if str_eq(s, "Discord") {
        Some(Location::Discord)
    } else {
        None
    }
}

impl Report {
    /// Reconstruct a report from an externally supplied dictionary of
    /// fields, as parsed out of a rendered message. Each field is accepted
    /// under its canonical name or its rendered alias; the optional fields
    /// (status, claimant, location) default to open, unclaimed, and the
    /// first platform. Fails, never panics, with the list of every missing
    /// or invalid field.
    #[verifier::rlimit(100)]
    pub fn from_fields(fields: &Vec<(String, String)>) -> (r: Result<Report, FieldErrors>)
        ensures
            r is Ok <==> spec_problems(fields@).len() == 0,
            r matches Err(e) ==> views_of(e.bad@) == spec_problems(fields@),
            r matches Ok(rep) ==> {
                &&& spec_field(fields@, "reporter_id"@, "Reporter UserID"@) == Some(
                    rep.reporter_id@,
                )
                &&& spec_field(fields@, "reporter_name"@, "Reporter Nickname"@) == Some(
                    rep.reporter_name@,
                )
                &&& spec_field(fields@, "reported_id"@, "Reported UserID"@) == Some(
                    rep.reported_id@,
                )
                &&& spec_field(fields@, "reported_name"@, "Reported Nickname"@) == Some(
                    rep.reported_name@,
                )
                &&& spec_field(fields@, "report_reason"@, "Reason"@) == Some(rep.report_reason@)
                &&& spec_field(fields@, "server"@, "Server Name"@) == Some(rep.server@)
                &&& spec_field(fields@, "time"@, "UTC Timestamp"@) == Some(rep.time@)
                &&& (match spec_lookup(fields@, "report_status"@) {
                    Some(v) => Some(rep.report_status) == spec_status_name(v),
                    None => rep.report_status == ReportStatus::Open,
                })
                &&& (match spec_lookup(fields@, "claimant"@) {
                    Some(v) => rep.claimant == spec_parse_u64(v),
                    None => rep.claimant is None,
                })
                &&& (match spec_lookup(fields@, "location"@) {
                    Some(v) => Some(rep.location) == spec_location_name(v),
                    None => rep.location == Location::SL,
                })
            },
    {
        let mut bad: Vec<String> = Vec::new();
        proof {
            assert(views_of(bad@) =~= Seq::<Seq<char>>::empty());
        }
        let reporter_id = lookup2(fields, "reporter_id", "Reporter UserID");
        note_problem(&mut bad, reporter_id.is_none(), "reporter_id");
        let reporter_name = lookup2(fields, "reporter_name", "Reporter Nickname");
        note_problem(&mut bad, reporter_name.is_none(), "reporter_name");
        let reported_id = lookup2(fields, "reported_id", "Reported UserID");
        note_problem(&mut bad, reported_id.is_none(), "reported_id");
        let reported_name = lookup2(fields, "reported_name", "Reported Nickname");
        note_problem(&mut bad, reported_name.is_none(), "reported_name");
        let report_reason = lookup2(fields, "report_reason", "Reason");
        note_problem(&mut bad, report_reason.is_none(), "report_reason");
        let server = lookup2(fields, "server", "Server Name");
        note_problem(&mut bad, server.is_none(), "server");
        let time = lookup2(fields, "time", "UTC Timestamp");
        note_problem(&mut bad, time.is_none(), "time");
        let status = match lookup_one(fields, "report_status") {
            Some(v) => status_from_name(v.as_str()),
            None => Some(ReportStatus::Open),
        };
        note_problem(&mut bad, status.is_none(), "report_status");
        let claimant = match lookup_one(fields, "claimant") {
            Some(v) => match crate::text::dec_to_u64(v.as_str()) {
                Some(n) => Some(Some(n)),
                None => None,
            },
            None => Some(None),
        };
        note_problem(&mut bad, claimant.is_none(), "claimant");
        let location = match lookup_one(fields, "location") {
            Some(v) => location_from_name(v.as_str()),
            None => Some(Location::SL),
        };
        note_problem(&mut bad, location.is_none(), "location");
        proof {
            assert(Seq::<Seq<char>>::empty() + name_entry(
                spec_field(fields@, "reporter_id"@, "Reporter UserID"@) is None,
                "reporter_id"@,
            ) =~= name_entry(
                spec_field(fields@, "reporter_id"@, "Reporter UserID"@) is None,
                "reporter_id"@,
            ));
            assert(views_of(bad@) == spec_problems(fields@));
        }
        if bad.len() > 0 {
            return Err(FieldErrors { bad });
        }
        proof {
            assert(views_of(bad@).len() == 0);
        }
        let rep = Report {
            reporter_id: option_take(reporter_id),
            reporter_name: option_take(reporter_name),
            reported_id: option_take(reported_id),
            reported_name: option_take(reported_name),
            report_reason: option_take(report_reason),
            report_status: option_take(status),
            server: option_take(server),
            time: option_take(time),
            claimant: option_take(claimant),
            location: option_take(location),
        };
        Ok(rep)
    }
}

/// Unwrap an option that the surrounding checks have shown to be present.
fn option_take<T>(o: Option<T>) -> (r: T)
    requires
        o is Some,
    ensures
        o == Some(r),
{
    match o {
        Some(v) => v,
        None => vstd::pervasive::unreached(),
    }
}

/// The kinds of interactive component a report or action message carries.
#[derive(Debug, Clone, Copy, PartialEq, Eq, Structural)]
pub enum ButtonKind {
    /// Claim (or reopen and claim) a report.
    Claim,
    /// Close a report with an action.
    Close,
    /// Close a report without an action.
    ForceClose,
    /// Edit an action.
    Edit,
}

/// Position of the first separator in a custom identifier.
pub open spec fn spec_first_sep(s: Seq<char>) -> Option<int>
    decreases s.len(),
{
    if s.len() == 0 {
        None
    } else if s[0] == '_' {
        Some(0int)
    } else {
        match spec_first_sep(s.drop_first()) {
            Some(i) => Some(i + 1),
            None => None,
        }
    }
}

/// The button kind a routing token denotes, if any.
pub open spec fn spec_button_kind(s: Seq<char>) -> Option<ButtonKind> {
    if s == "claim"@ {
        Some(ButtonKind::Claim)
    } else if s == "close"@ {
        Some(ButtonKind::Close)
    } else if s == "forceclose"@ {
        Some(ButtonKind::ForceClose)
    } else if s == "edit"@ {
        Some(ButtonKind::Edit)
    } else {
        None
    }
}

/// What a component's custom identifier decodes to: the token before the
/// first separator names the kind, the digits after it the entity id.
pub open spec fn spec_custom_id(s: Seq<char>) -> Option<(ButtonKind, u32)> {
    match spec_first_sep(s) {
        None => None,
        Some(i) => match spec_button_kind(s.take(i)) {
            None => None,
            Some(kind) => match spec_parse_u64(s.skip(i + 1)) {
                Some(n) => if n <= u32::MAX {
                    Some((kind, n as u32))
                } else {
                    None
                },
                None => None,
            },
        },
    }
}

proof fn lemma_first_sep_found(s: Seq<char>, i: int)
    requires
        0 <= i < s.len(),
        s[i] == '_',
        forall|k: int| 0 <= k < i ==> s[k] != '_',
    ensures
        spec_first_sep(s) == Some(i),
    decreases i,
{
    if i > 0 {
        lemma_first_sep_found(s.drop_first(), i - 1);
    }
}

proof fn lemma_first_sep_none(s: Seq<char>)
    requires
        forall|k: int| 0 <= k < s.len() ==> s[k] != '_',
    ensures
        spec_first_sep(s) is None,
    decreases s.len(),
{
    if s.len() > 0 {
        lemma_first_sep_none(s.drop_first());
    }
}

/// Decode a component's custom identifier into its kind and entity id;
/// fails (returns `None`) on any identifier the system never produces.
pub fn parse_custom_id(s: &str) -> (r: Option<(ButtonKind, u32)>)
    ensures
        r == spec_custom_id(s@),
{
    let cs = str_chars(s);
    let n = cs.len();
    let mut i: usize = 0;
    while i < n
        invariant
            n == cs@.len(),
            cs@ == s@,
            i <= n,
            forall|k: int| 0 <= k < i ==> cs@[k] != '_',
        decreases n - i,
    {
        if cs[i] == '_' {
            proof {
                lemma_first_sep_found(cs@, i as int);
            }
            let mut kind_chars: Vec<char> = Vec::new();
            let mut k: usize = 0;
            while k < i
                invariant
                    k <= i,
                    i < n,
                    n == cs@.len(),
                    kind_chars@ == cs@.take(i as int).take(k as int),
                decreases i - k,
            {
                kind_chars.push(cs[k]);
                proof {
                    assert(kind_chars@ =~= cs@.take(i as int).take(k + 1));
                }
                k = k + 1;
            }
            proof {
                assert(cs@.take(i as int).take(i as int) =~= cs@.take(i as int));
            }
            let kind_str = crate::text::string_from_chars(kind_chars);
            let kind = if str_eq(kind_str.as_str(), "claim") {
                Some(ButtonKind::Claim)
            } else if str_eq(kind_str.as_str(), "close") {
                Some(ButtonKind::Close)
            } else if str_eq(kind_str.as_str(), "forceclose") {
                Some(ButtonKind::ForceClose)
            } else if str_eq(kind_str.as_str(), "edit") {
                Some(ButtonKind::Edit)
            } else {
                None
            };
            let kind = match kind {
                Some(kd) => kd,
                None => {
                    return None;
                },
            };
            let mut digit_chars: Vec<char> = Vec::new();
            let mut m: usize = i + 1;
            while m < n
                invariant
                    i + 1 <= m <= n,
                    n == cs@.len(),
                    digit_chars@ == cs@.skip(i as int + 1).take(m - i - 1),
                decreases n - m,
            {
                digit_chars.push(cs[m]);
                proof {
                    assert(digit_chars@ =~= cs@.skip(i as int + 1).take(m - i));
                }
                m = m + 1;
            }
            proof {
                assert(cs@.skip(i as int + 1).take(n - i - 1) =~= cs@.skip(i as int + 1));
            }
            let value = match crate::text::parse_digit_chars(&digit_chars) {
                Some(v) => v,
                None => {
                    return None;
                },
            };
            if value > 0xFFFF_FFFF {
                return None;
            }
            return Some((kind, value as u32));
        }
        i = i + 1;
    }
    proof {
        lemma_first_sep_none(cs@);
    }
    None
}

/// The routing token of each button kind.
pub open spec fn spec_kind_token(kind: ButtonKind) -> Seq<char> {
    match kind {
        ButtonKind::Claim => "claim"@,
        ButtonKind::Close => "close"@,
        ButtonKind::ForceClose => "forceclose"@,
        ButtonKind::Edit => "edit"@,
    }
}

/// The custom identifier carried by a button: its routing token, the
/// separator, and the entity id in decimal.
pub open spec fn spec_custom_id_of(kind: ButtonKind, id: u32) -> Seq<char> {
    spec_kind_token(kind) + "_"@ + crate::text::dec_digits(id as nat)
}

/// Build the custom identifier for a button.
pub fn button_custom_id(kind: ButtonKind, id: u32) -> (r: String)
    ensures
        r@ == spec_custom_id_of(kind, id),
{
    let mut s = match kind {
        ButtonKind::Claim => String::from_str("claim"),
        ButtonKind::Close => String::from_str("close"),
        ButtonKind::ForceClose => String::from_str("forceclose"),
        ButtonKind::Edit => String::from_str("edit"),
    };
    s.append("_");
    let d = crate::text::u64_to_dec(id as u64);
    s.append(d.as_str());
    proof {
        assert(s@ =~= spec_kind_token(kind) + "_"@ + crate::text::dec_digits(id as nat));
    }
    s
}

/// No routing token contains the separator.
proof fn lemma_tokens_have_no_sep(kind: ButtonKind)
    ensures
        forall|k: int|
            0 <= k < spec_kind_token(kind).len() ==> spec_kind_token(kind)[k] != '_',
        spec_kind_token(kind).len() >= 1,
{
    reveal_strlit("claim");
    reveal_strlit("close");
    reveal_strlit("forceclose");
    reveal_strlit("edit");
    let tok = spec_kind_token(kind);
    assert forall|k: int| 0 <= k < tok.len() implies tok[k] != '_' by {
        match kind {
            ButtonKind::Claim => {
                if k == 0 {
                    assert(tok[0] == 'c');
                } else if k == 1 {
                    assert(tok[1] == 'l');
                } else if k == 2 {
                    assert(tok[2] == 'a');
                } else if k == 3 {
                    assert(tok[3] == 'i');
                } else {
                    assert(tok[4] == 'm');
                }
            },
            ButtonKind::Close => {
                if k == 0 {
                    assert(tok[0] == 'c');
                } else if k == 1 {
                    assert(tok[1] == 'l');
                } else if k == 2 {
                    assert(tok[2] == 'o');
                } else if k == 3 {
                    assert(tok[3] == 's');
                } else {
                    assert(tok[4] == 'e');
                }
            },
            ButtonKind::ForceClose => {
                if k == 0 {
                    assert(tok[0] == 'f');
                } else if k == 1 {
                    assert(tok[1] == 'o');
                } else if k == 2 {
                    assert(tok[2] == 'r');
                } else if k == 3 {
                    assert(tok[3] == 'c');
                } else if k == 4 {
                    assert(tok[4] == 'e');
                } else if k == 5 {
                    assert(tok[5] == 'c');
                } else if k == 6 {
                    assert(tok[6] == 'l');
                } else if k == 7 {
                    assert(tok[7] == 'o');
                } else if k == 8 {
                    assert(tok[8] == 's');
                } else {
                    assert(tok[9] == 'e');
                }
            },
            ButtonKind::Edit => {
                if k == 0 {
                    assert(tok[0] == 'e');
                } else if k == 1 {
                    assert(tok[1] == 'd');
                } else if k == 2 {
                    assert(tok[2] == 'i');
                } else {
                    assert(tok[3] == 't');
                }
            },
        }
    }
}

/// Round trip: the custom identifier built for a button decodes back to
/// the same kind and entity id, so a rendered component always routes to
/// the entity it was rendered for.
pub proof fn lemma_custom_id_round_trip(kind: ButtonKind, id: u32)
    ensures
        spec_custom_id(spec_custom_id_of(kind, id)) == Some((kind, id)),
{
    reveal_strlit("claim");
    reveal_strlit("close");
    reveal_strlit("forceclose");
    reveal_strlit("edit");
    reveal_strlit("_");
    let tok = spec_kind_token(kind);
    let digits = crate::text::dec_digits(id as nat);
    let s = spec_custom_id_of(kind, id);
    lemma_tokens_have_no_sep(kind);
    crate::text::lemma_u64_decimal_round_trip(id as u64);
    assert(s.len() == tok.len() + 1 + digits.len());
    assert(s[tok.len() as int] == '_');
    assert forall|k: int| 0 <= k < tok.len() implies s[k] != '_' by {
        assert(s[k] == tok[k]);
    }
    lemma_first_sep_found(s, tok.len() as int);
    assert(s.take(tok.len() as int) =~= tok);
    assert(spec_button_kind(tok) == Some(kind)) by {
        assert("claim"@.len() == 5);
        assert("close"@.len() == 5);
        assert("forceclose"@.len() == 10);
        assert("edit"@.len() == 4);
        assert("claim"@[1] == 'l' && "close"@[1] == 'l');
        assert("claim"@[2] == 'a' && "close"@[2] == 'o');
    }
    assert(s.skip(tok.len() as int + 1) =~= digits);
    assert(spec_parse_u64(digits) == Some(id as u64));
}

/// The custom identifiers of the buttons a report's rendered message
/// carries in each state: claim (or reopen and claim) while open or
/// expired, close and force-close while claimed, nothing once closed.
pub open spec fn spec_report_button_ids(status: ReportStatus, id: u32) -> Seq<Seq<char>> {
    match status {
        ReportStatus::Open => seq![spec_custom_id_of(ButtonKind::Claim, id)],
        ReportStatus::Expired => seq![spec_custom_id_of(ButtonKind::Claim, id)],
        ReportStatus::Claimed => seq![
            spec_custom_id_of(ButtonKind::Close, id),
            spec_custom_id_of(ButtonKind::ForceClose, id),
        ],
        ReportStatus::Closed => Seq::empty(),
    }
}

/// Build the custom identifiers of a report message's buttons.
pub fn report_button_ids(status: ReportStatus, id: u32) -> (r: Vec<String>)
    ensures
        views_of(r@) == spec_report_button_ids(status, id),
{
    let mut v: Vec<String> = Vec::new();
    match status {
        ReportStatus::Open => {
            v.push(button_custom_id(ButtonKind::Claim, id));
        },
        ReportStatus::Expired => {
            v.push(button_custom_id(ButtonKind::Claim, id));
        },
        ReportStatus::Claimed => {
            v.push(button_custom_id(ButtonKind::Close, id));
            v.push(button_custom_id(ButtonKind::ForceClose, id));
        },
        ReportStatus::Closed => {},
    }
    proof {
        assert(views_of(v@) =~= spec_report_button_ids(status, id));
    }
    v
}

/// Build the custom identifier of an action message's single edit button.
pub fn action_button_id(id: u32) -> (r: String)
    ensures
        r@ == spec_custom_id_of(ButtonKind::Edit, id),
{
    button_custom_id(ButtonKind::Edit, id)
}

} // verus!
