use std::collections::HashMap;

use vstd::prelude::*;

use crate::config::{opt_text, opt_view};
use crate::mailer::{address_is_valid, is_address};
use crate::time::{now, parse_rfc3339, rfc3339_instant, Timestamp};

verus! {

#[derive(Debug)]
pub struct SendEmailRequest {
    /// The sender, by address or by local part; the default sender when absent.
    pub from: Option<String>,
    pub to: Vec<String>,
    pub reply_to: Option<String>,
    pub subject: String,
    pub body: String,
}

#[derive(Debug)]
pub struct SendGroupEmailRequest {
    pub from: Option<String>,
    pub group_name: String,
    pub reply_to: Option<String>,
    pub subject: String,
    pub body: String,
}

#[derive(Debug)]
pub struct SendEmailWithTemplateRequest {
    pub from: Option<String>,
    pub to: Vec<String>,
    pub reply_to: Option<String>,
    pub subject: String,
    pub template_name: String,
    pub template_data: HashMap<String, String>,
}

#[derive(Debug)]
pub enum ManageGroupsRequest {
    Add(AddGroupRequest),
    Remove(RemoveGroupRequest),
    Update(UpdateGroupRequest),
}

#[derive(Debug)]
pub struct AddGroupRequest {
    pub name: String,
}

#[derive(Debug)]
pub struct UpdateGroupRequest {
    pub name: String,
    pub new_name: Option<String>,
}

#[derive(Debug)]
pub struct RemoveGroupRequest {
    pub name: String,
}

#[derive(Debug)]
pub enum ManageRecipientsRequest {
    Add(AddRecipientRequest),
    Remove(RemoveRecipientRequest),
    Update(UpdateRecipientRequest),
}

#[derive(Debug)]
pub struct AddRecipientRequest {
    pub name: String,
    pub email: String,
}

#[derive(Debug)]
pub struct UpdateRecipientRequest {
    pub email: String,
    pub new_name: Option<String>,
    pub new_email: Option<String>,
}

#[derive(Debug)]
pub struct RemoveRecipientRequest {
    pub email: String,
}

#[derive(Debug)]
pub enum ManageTemplatesRequest {
    Add(AddTemplateRequest),
    Remove(RemoveTemplateRequest),
    Update(UpdateTemplateRequest),
}

#[derive(Debug)]
pub struct AddTemplateRequest {
    pub name: String,
    pub format_string: String,
}

#[derive(Debug)]
pub struct UpdateTemplateRequest {
    pub name: String,
    pub new_name: Option<String>,
    pub new_format_string: Option<String>,
}

#[derive(Debug)]
pub struct RemoveTemplateRequest {
    pub name: String,
}

/// Filters for the history of sent mail: a recipient address and RFC 3339
/// start and end dates.
#[derive(Debug)]
pub struct GetEmailHistoryRequest {
    pub to: Option<String>,
    pub start_date: Option<String>,
    pub end_date: Option<String>,
}

#[derive(Debug)]
pub struct CreateEventRequest {
    pub title: String,
    pub description: Option<String>,
    pub start_time: Timestamp,
    pub end_time: Option<Timestamp>,
    pub is_all_day: bool,
}

#[derive(Debug)]
pub struct SendEventInvitationRequest {
    pub event_id: i32,
    pub from: Option<String>,
    pub to: SendEventInvitationTo,
    pub subject: String,
    pub template: InvitationTemplate,
}

#[derive(Debug)]
pub struct SendEventInvitationTo {
    /// Groups to invite, by name.
    pub groups: Vec<InvitationTarget>,
    /// People to invite, by address.
    pub individuals: Vec<InvitationTarget>,
}

#[derive(Debug)]
pub struct InvitationTarget {
    pub party: String,
    pub is_required: bool,
}

#[derive(Debug)]
pub enum InvitationTemplate {
    /// The text of the invitation.
    CustomText(String),
    /// The name of a stored template.
    StoredTemplate(String),
}

/// A date filter as it was given: absent, not RFC 3339, or an instant.
#[derive(Clone, Copy, Debug, PartialEq, Eq, Structural)]
pub enum DateInput {
    Absent,
    Unreadable,
    At(Timestamp),
}

pub open spec fn date_input_of(s: Option<Seq<char>>) -> DateInput {
    match s {
        None => DateInput::Absent,
        Some(t) => match rfc3339_instant(t) {
            Some(x) => DateInput::At(x),
            None => DateInput::Unreadable,
        },
    }
}

/// Reads an optional RFC 3339 date.
pub fn read_date(s: Option<&String>) -> (r: DateInput)
    ensures
        r == date_input_of(opt_view(s)),
{
    match s {
        None => DateInput::Absent,
        Some(t) => match parse_rfc3339(t.as_str()) {
            Some(x) => DateInput::At(x),
            None => DateInput::Unreadable,
        },
    }
}

/// Both dates are readable, the start is not after the end, and the start
/// is not after `now`.
pub open spec fn range_ok(start: DateInput, end: DateInput, now: Timestamp) -> bool {
    &&& start != DateInput::Unreadable
    &&& end != DateInput::Unreadable
    &&& (start is At && end is At) ==> start->At_0.spec_le(end->At_0)
    &&& start is At ==> start->At_0.spec_le(now)
}

/// A history request is valid when it has a filter, its recipient address
/// (if any) is an address, and its dates pass `range_ok`.
pub open spec fn history_filters_ok(to_valid: Option<bool>, start: DateInput, end: DateInput, now: Timestamp) -> bool {
    &&& !(to_valid is None && start == DateInput::Absent && end == DateInput::Absent)
    &&& to_valid != Some(false)
    &&& range_ok(start, end, now)
}

/// The time window for a date filter: both bounds as given, from the start
/// until `now`, or from the Unix epoch until the end; none without a
/// readable date.
pub open spec fn window_of(start: DateInput, end: DateInput, now: Timestamp) -> Option<(Timestamp, Timestamp)> {
    match (start, end) {
        (DateInput::At(s), DateInput::At(e)) => Some((s, e)),
        (DateInput::At(s), DateInput::Absent) => Some((s, now)),
        (DateInput::Absent, DateInput::At(e)) => Some((Timestamp { secs: 0, nanos: 0 }, e)),
        _ => None,
    }
}

/// Checks a date filter against `now`.
pub fn time_range_ok(start: DateInput, end: DateInput, now: Timestamp) -> (r: bool)
    ensures
        r == range_ok(start, end, now),
{
    if start == DateInput::Unreadable || end == DateInput::Unreadable {
        return false;
    }
    if let (DateInput::At(s), DateInput::At(e)) = (start, end) {
        if !s.le(&e) {
            return false;
        }
    }
    if let DateInput::At(s) = start {
        if !s.le(&now) {
            return false;
        }
    }
    true
}

/// Checks the filters of a history request: `to_valid` says whether a
/// recipient address was given and whether it is one.
pub fn check_history_filters(to_valid: Option<bool>, start: DateInput, end: DateInput, now: Timestamp) -> (r: bool)
    ensures
        r == history_filters_ok(to_valid, start, end, now),
{
    if to_valid.is_none() && start == DateInput::Absent && end == DateInput::Absent {
        return false;
    }
    if to_valid == Some(false) {
        return false;
    }
    time_range_ok(start, end, now)
}

/// The window that a date filter selects.
pub fn time_window(start: DateInput, end: DateInput, now: Timestamp) -> (r: Option<(Timestamp, Timestamp)>)
    ensures
        r == window_of(start, end, now),
{
    match (start, end) {
        (DateInput::At(s), DateInput::At(e)) => Some((s, e)),
        (DateInput::At(s), DateInput::Absent) => Some((s, now)),
        (DateInput::Absent, DateInput::At(e)) => Some((Timestamp::unix_epoch(), e)),
        _ => None,
    }
}

/// A history request that starts in the future, that starts after it ends,
/// or that has no filter at all is not valid.
pub proof fn lemma_history_request_rejections(to_valid: Option<bool>, start: DateInput, end: DateInput, now: Timestamp)
    ensures
        start is At && !start->At_0.spec_le(now) ==> !history_filters_ok(to_valid, start, end, now),
        start is At && end is At && !start->At_0.spec_le(end->At_0)
            ==> !history_filters_ok(to_valid, start, end, now),
        to_valid is None && start == DateInput::Absent && end == DateInput::Absent
            ==> !history_filters_ok(to_valid, start, end, now),
{
}

/// Checks two optional RFC 3339 dates against the current time: see
/// `range_ok`. Without a start date the clock decides nothing.
pub fn is_valid_start_end_time(start_date: Option<&String>, end_date: Option<&String>) -> (r: bool)
    ensures
        exists|t: Timestamp| r == range_ok(date_input_of(opt_view(start_date)), date_input_of(opt_view(end_date)), t),
        forall|t: Timestamp| !(date_input_of(opt_view(start_date)) is At)
            ==> r == #[trigger] range_ok(date_input_of(opt_view(start_date)), date_input_of(opt_view(end_date)), t),
        r ==> date_input_of(opt_view(start_date)) != DateInput::Unreadable,
        r ==> date_input_of(opt_view(end_date)) != DateInput::Unreadable,
        r ==> (date_input_of(opt_view(start_date)) is At && date_input_of(opt_view(end_date)) is At
            ==> date_input_of(opt_view(start_date))->At_0.spec_le(date_input_of(opt_view(end_date))->At_0)),
{
    let t = now();
    time_range_ok(read_date(start_date), read_date(end_date), t)
}

/// The window for two optional RFC 3339 dates, an open end running until
/// the current time.
pub fn parse_start_end_time(start_date: Option<&String>, end_date: Option<&String>) -> (r: Option<(Timestamp, Timestamp)>)
    ensures
        exists|t: Timestamp| r == window_of(date_input_of(opt_view(start_date)), date_input_of(opt_view(end_date)), t),
{
    let t = now();
    time_window(read_date(start_date), read_date(end_date), t)
}

impl GetEmailHistoryRequest {
    pub open spec fn to_valid(self) -> Option<bool> {
        match self.to {
            Some(t) => Some(is_address(t@)),
            None => None,
        }
    }

    /// Valid at time `now`: see `history_filters_ok`.
    pub fn is_valid_at(&self, now: Timestamp) -> (r: bool)
        ensures
            r == history_filters_ok(self.to_valid(), date_input_of(opt_text(self.start_date)),
                date_input_of(opt_text(self.end_date)), now),
    {
        let to_valid = match &self.to {
            Some(t) => Some(address_is_valid(t.as_str())),
            None => None,
        };
        check_history_filters(to_valid, read_date(self.start_date.as_ref()), read_date(self.end_date.as_ref()), now)
    }

    /// Valid at the current time: see `history_filters_ok`. Without a
    /// start date the clock decides nothing.
    pub fn is_valid(&self) -> (r: bool)
        ensures
            exists|t: Timestamp| r == history_filters_ok(self.to_valid(), date_input_of(opt_text(self.start_date)),
                date_input_of(opt_text(self.end_date)), t),
            forall|t: Timestamp| !(date_input_of(opt_text(self.start_date)) is At) ==> r == #[trigger] history_filters_ok(
                self.to_valid(), date_input_of(opt_text(self.start_date)), date_input_of(opt_text(self.end_date)), t),
            r ==> !(self.to is None && self.start_date is None && self.end_date is None),
            r ==> self.to_valid() != Some(false),
            date_input_of(opt_text(self.start_date)) is At && date_input_of(opt_text(self.end_date)) is At
                && !date_input_of(opt_text(self.start_date))->At_0.spec_le(date_input_of(opt_text(self.end_date))->At_0) ==> !r,
    {
        let t = now();
        self.is_valid_at(t)
    }
}

} // verus!
