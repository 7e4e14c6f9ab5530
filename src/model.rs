use vstd::prelude::*;

use crate::error::{ErrorKind, MailerError};
use crate::time::Timestamp;

verus! {

/// Whether a recipient is still listed. Removal only makes a recipient
/// inactive, so that past mail and invitations can still refer to it.
#[derive(Clone, Copy, Debug, PartialEq, Eq, Structural)]
pub enum RecipientStatus {
    Active,
    Inactive,
}

impl RecipientStatus {
    /// The text under which the status is stored.
    pub fn as_str(&self) -> (r: &'static str)
        ensures
            *self == RecipientStatus::Active ==> r@ == "Active"@,
            *self == RecipientStatus::Inactive ==> r@ == "Inactive"@,
    {
        match self {
            RecipientStatus::Active => "Active",
            RecipientStatus::Inactive => "Inactive",
        }
    }

    /// Reads a status back from its stored text.
    pub fn try_from_str(value: &str) -> (r: Result<RecipientStatus, MailerError>)
        ensures
            value@ == "Active"@ <==> r == Ok::<RecipientStatus, MailerError>(RecipientStatus::Active),
            value@ == "Inactive"@ <==> r == Ok::<RecipientStatus, MailerError>(RecipientStatus::Inactive),
            r is Err ==> r->Err_0.kind == ErrorKind::InvalidArgument,
    {
        proof {
            reveal_strlit("Active");
            reveal_strlit("Inactive");
            assert("Active"@.len() != "Inactive"@.len());
        }
        if str_eq(value, "Active") {
            Ok(RecipientStatus::Active)
        } else if str_eq(value, "Inactive") {
            Ok(RecipientStatus::Inactive)
        } else {
            Err(MailerError::new(ErrorKind::InvalidArgument, "Invalid recipient status"))
        }
    }
}

/// Character-wise equality of two strings.
pub fn str_eq(a: &str, b: &str) -> (r: bool)
    ensures
        r == (a@ == b@),
{
    let n = a.unicode_len();
    if n != b.unicode_len() {
        return false;
    }
    let mut i: usize = 0;
    while i < n
        invariant
            n == a@.len() == b@.len(),
            i <= n,
            forall|j: int| 0 <= j < i ==> a@[j] == b@[j],
        decreases n - i,
    {
        if a.get_char(i) != b.get_char(i) {
            return false;
        }
        i = i + 1;
    }
    assert(a@ =~= b@);
    true
}

#[derive(Clone, Debug, PartialEq, Eq)]
pub struct Recipient {
    pub id: i32,
    pub name: String,
    pub email: String,
    pub status: RecipientStatus,
}

impl Recipient {
    pub fn duplicate(&self) -> (r: Recipient)
        ensures
            r == *self,
    {
        Recipient { id: self.id, name: self.name.clone(), email: self.email.clone(), status: self.status }
    }

    pub open spec fn is_active(self) -> bool {
        self.status == RecipientStatus::Active
    }
}

#[derive(Clone, Debug, PartialEq, Eq)]
pub struct Group {
    pub id: i32,
    pub name: String,
}

impl Group {
    pub fn duplicate(&self) -> (r: Group)
        ensures
            r == *self,
    {
        Group { id: self.id, name: self.name.clone() }
    }
}

/// Membership of a recipient in a group.
#[derive(Clone, Copy, Debug, PartialEq, Eq, Structural)]
pub struct RecipientGroup {
    pub group_id: i32,
    pub recipient_id: i32,
}

/// A message template: `format_string` holds `{placeholder}` tokens.
#[derive(Clone, Debug, PartialEq, Eq)]
pub struct Template {
    pub id: i32,
    pub name: String,
    pub format_string: String,
}

impl Template {
    pub fn duplicate(&self) -> (r: Template)
        ensures
            r == *self,
    {
        Template { id: self.id, name: self.name.clone(), format_string: self.format_string.clone() }
    }
}

/// One sent message.
#[derive(Clone, Debug, PartialEq, Eq)]
pub struct EmailRecord {
    pub id: i32,
    pub subject: String,
    pub body: String,
    pub sent_at: Timestamp,
}

impl EmailRecord {
    pub fn duplicate(&self) -> (r: EmailRecord)
        ensures
            r == *self,
    {
        EmailRecord { id: self.id, subject: self.subject.clone(), body: self.body.clone(), sent_at: self.sent_at }
    }
}

/// Links a sent message to one of the recipients it reached.
#[derive(Clone, Copy, Debug, PartialEq, Eq, Structural)]
pub struct RecipientEmailRecord {
    pub email_history_id: i32,
    pub recipient_id: i32,
}

#[derive(Clone, Debug, PartialEq, Eq)]
pub struct Event {
    pub id: i32,
    pub title: String,
    pub description: Option<String>,
    pub start_time: Timestamp,
    pub end_time: Option<Timestamp>,
    pub is_all_day: bool,
}

impl Event {
    pub fn duplicate(&self) -> (r: Event)
        ensures
            r == *self,
    {
        let description = match &self.description {
            Some(d) => Some(d.clone()),
            None => None,
        };
        Event {
            id: self.id,
            title: self.title.clone(),
            description,
            start_time: self.start_time,
            end_time: self.end_time,
            is_all_day: self.is_all_day,
        }
    }
}

/// Whether an invitee must attend.
#[derive(Clone, Copy, Debug, PartialEq, Eq, Structural)]
pub enum InvitationType {
    Required,
    Optional,
}

impl InvitationType {
    pub fn as_str(&self) -> (r: &'static str)
        ensures
            *self == InvitationType::Required ==> r@ == "Required"@,
            *self == InvitationType::Optional ==> r@ == "Optional"@,
    {
        match self {
            InvitationType::Required => "Required",
            InvitationType::Optional => "Optional",
        }
    }
}

#[derive(Clone, Copy, Debug, PartialEq, Eq, Structural)]
pub struct EventAttendee {
    pub id: i32,
    pub event_id: i32,
    pub recipient_id: i32,
    pub invitation_type: InvitationType,
}

} // verus!
