use vstd::prelude::*;

use crate::config::DatabaseConfig;
use crate::error::{ErrorKind, MailerError};
use crate::model::{
    EmailRecord, Event, EventAttendee, Group, InvitationType, Recipient, RecipientEmailRecord,
    RecipientGroup, RecipientStatus, Template,
};
use crate::time::{now, Timestamp};

verus! {

/// The tables of the store.
#[derive(Clone, Copy, Debug, PartialEq, Eq, Structural)]
pub enum Table {
    Recipients,
    Groups,
    GroupRecipients,
    Templates,
    EmailHistory,
    EmailHistoryRecipients,
    Events,
    EventAttendees,
}

/// The relational store: one vector of rows per table, in insertion order,
/// and the next identifier that each table with its own key hands out.
#[derive(Debug)]
pub struct Database {
    pub db_path: String,
    pub recipients: Vec<Recipient>,
    pub groups: Vec<Group>,
    pub group_recipients: Vec<RecipientGroup>,
    pub templates: Vec<Template>,
    pub email_history: Vec<EmailRecord>,
    pub email_history_recipients: Vec<RecipientEmailRecord>,
    pub events: Vec<Event>,
    pub event_attendees: Vec<EventAttendee>,
    pub next_recipient_id: i32,
    pub next_group_id: i32,
    pub next_template_id: i32,
    pub next_email_record_id: i32,
    pub next_event_id: i32,
    pub next_attendee_id: i32,
}

pub open spec fn has_recipient(s: Seq<Recipient>, id: i32) -> bool {
    exists|i: int| 0 <= i < s.len() && (#[trigger] s[i]).id == id
}

pub open spec fn has_group(s: Seq<Group>, id: i32) -> bool {
    exists|i: int| 0 <= i < s.len() && (#[trigger] s[i]).id == id
}

pub open spec fn has_template(s: Seq<Template>, id: i32) -> bool {
    exists|i: int| 0 <= i < s.len() && (#[trigger] s[i]).id == id
}

pub open spec fn has_email_record(s: Seq<EmailRecord>, id: i32) -> bool {
    exists|i: int| 0 <= i < s.len() && (#[trigger] s[i]).id == id
}

pub open spec fn has_event(s: Seq<Event>, id: i32) -> bool {
    exists|i: int| 0 <= i < s.len() && (#[trigger] s[i]).id == id
}

/// Identifiers and e-mail addresses are unique, and every identifier lies
/// below the next one to be handed out.
pub open spec fn recipients_ok(s: Seq<Recipient>, next: i32) -> bool {
    &&& forall|i: int, j: int|
        0 <= i < s.len() && 0 <= j < s.len() && i != j ==> (#[trigger] s[i]).id != (#[trigger] s[j]).id
            && s[i].email@ != s[j].email@
    &&& forall|i: int| 0 <= i < s.len() ==> 0 < (#[trigger] s[i]).id < next
    &&& next >= 1
}

pub open spec fn groups_ok(s: Seq<Group>, next: i32) -> bool {
    &&& forall|i: int, j: int|
        0 <= i < s.len() && 0 <= j < s.len() && i != j ==> (#[trigger] s[i]).id != (#[trigger] s[j]).id
            && s[i].name@ != s[j].name@
    &&& forall|i: int| 0 <= i < s.len() ==> 0 < (#[trigger] s[i]).id < next
    &&& next >= 1
}

pub open spec fn templates_ok(s: Seq<Template>, next: i32) -> bool {
    &&& forall|i: int, j: int|
        0 <= i < s.len() && 0 <= j < s.len() && i != j ==> (#[trigger] s[i]).id != (#[trigger] s[j]).id
            && s[i].name@ != s[j].name@
    &&& forall|i: int| 0 <= i < s.len() ==> 0 < (#[trigger] s[i]).id < next
    &&& next >= 1
}

pub open spec fn email_history_ok(s: Seq<EmailRecord>, next: i32) -> bool {
    &&& forall|i: int, j: int|
        0 <= i < s.len() && 0 <= j < s.len() && i != j ==> (#[trigger] s[i]).id != (#[trigger] s[j]).id
    &&& forall|i: int| 0 <= i < s.len() ==> 0 < (#[trigger] s[i]).id < next
    &&& next >= 1
}

pub open spec fn events_ok(s: Seq<Event>, next: i32) -> bool {
    &&& forall|i: int, j: int|
        0 <= i < s.len() && 0 <= j < s.len() && i != j ==> (#[trigger] s[i]).id != (#[trigger] s[j]).id
    &&& forall|i: int| 0 <= i < s.len() ==> 0 < (#[trigger] s[i]).id < next
    &&& next >= 1
}

impl Database {
    /// The store's invariant: keys and unique columns are unique, and every
    /// row of a link table refers to rows that exist.
    pub open spec fn wf(self) -> bool {
        &&& recipients_ok(self.recipients@, self.next_recipient_id)
        &&& groups_ok(self.groups@, self.next_group_id)
        &&& templates_ok(self.templates@, self.next_template_id)
        &&& email_history_ok(self.email_history@, self.next_email_record_id)
        &&& events_ok(self.events@, self.next_event_id)
        &&& forall|i: int, j: int|
            0 <= i < self.group_recipients@.len() && 0 <= j < self.group_recipients@.len() && i != j
                ==> #[trigger] self.group_recipients@[i] != #[trigger] self.group_recipients@[j]
        &&& forall|i: int|
            0 <= i < self.group_recipients@.len() ==> has_group(
                self.groups@,
                (#[trigger] self.group_recipients@[i]).group_id,
            ) && has_recipient(self.recipients@, self.group_recipients@[i].recipient_id)
        &&& forall|i: int, j: int|
            0 <= i < self.email_history_recipients@.len() && 0 <= j
                < self.email_history_recipients@.len() && i != j
                ==> #[trigger] self.email_history_recipients@[i]
                != #[trigger] self.email_history_recipients@[j]
        &&& forall|i: int|
            0 <= i < self.email_history_recipients@.len() ==> has_email_record(
                self.email_history@,
                (#[trigger] self.email_history_recipients@[i]).email_history_id,
            ) && has_recipient(self.recipients@, self.email_history_recipients@[i].recipient_id)
        &&& forall|i: int, j: int|
            0 <= i < self.event_attendees@.len() && 0 <= j < self.event_attendees@.len() && i != j
                ==> (#[trigger] self.event_attendees@[i]).id != (#[trigger] self.event_attendees@[j]).id
        &&& self.next_attendee_id >= 1
        &&& forall|i: int|
            0 <= i < self.event_attendees@.len() ==> 0 < (#[trigger] self.event_attendees@[i]).id
                < self.next_attendee_id && has_event(self.events@, self.event_attendees@[i].event_id)
                && has_recipient(self.recipients@, self.event_attendees@[i].recipient_id)
    }

    /// Table `t` (with its key counter) is the same in `self` and `o`.
    pub open spec fn agrees_on(self, o: Database, t: Table) -> bool {
        match t {
            Table::Recipients => self.recipients@ == o.recipients@ && self.next_recipient_id
                == o.next_recipient_id,
            Table::Groups => self.groups@ == o.groups@ && self.next_group_id == o.next_group_id,
            Table::GroupRecipients => self.group_recipients@ == o.group_recipients@,
            Table::Templates => self.templates@ == o.templates@ && self.next_template_id
                == o.next_template_id,
            Table::EmailHistory => self.email_history@ == o.email_history@
                && self.next_email_record_id == o.next_email_record_id,
            Table::EmailHistoryRecipients => self.email_history_recipients@
                == o.email_history_recipients@,
            Table::Events => self.events@ == o.events@ && self.next_event_id == o.next_event_id,
            Table::EventAttendees => self.event_attendees@ == o.event_attendees@
                && self.next_attendee_id == o.next_attendee_id,
        }
    }

    /// Every table but `a`, `b` and `c` is the same in `self` and `o`.
    pub open spec fn unchanged_outside(self, o: Database, a: Table, b: Table, c: Table) -> bool {
        &&& (a == Table::Recipients || b == Table::Recipients || c == Table::Recipients || self.agrees_on(o, Table::Recipients))
        &&& (a == Table::Groups || b == Table::Groups || c == Table::Groups || self.agrees_on(o, Table::Groups))
        &&& (a == Table::GroupRecipients || b == Table::GroupRecipients || c == Table::GroupRecipients || self.agrees_on(o, Table::GroupRecipients))
        &&& (a == Table::Templates || b == Table::Templates || c == Table::Templates || self.agrees_on(o, Table::Templates))
        &&& (a == Table::EmailHistory || b == Table::EmailHistory || c == Table::EmailHistory || self.agrees_on(o, Table::EmailHistory))
        &&& (a == Table::EmailHistoryRecipients || b == Table::EmailHistoryRecipients || c == Table::EmailHistoryRecipients || self.agrees_on(o, Table::EmailHistoryRecipients))
        &&& (a == Table::Events || b == Table::Events || c == Table::Events || self.agrees_on(o, Table::Events))
        &&& (a == Table::EventAttendees || b == Table::EventAttendees || c == Table::EventAttendees || self.agrees_on(o, Table::EventAttendees))
    }

    /// Every table but `t` is the same in `self` and `o`.
    pub open spec fn unchanged_but(self, o: Database, t: Table) -> bool {
        self.unchanged_outside(o, t, t, t)
    }

    /// The recipients that listings show: the active ones, in order.
    pub open spec fn active_recipients(self) -> Seq<Recipient> {
        self.recipients@.filter(|r: Recipient| r.is_active())
    }

    /// The row with identifier `id`, if there is one.
    pub open spec fn recipient_by_id(self, id: i32) -> Option<Recipient> {
        if has_recipient(self.recipients@, id) {
            Some(self.recipients@[choose|i: int| 0 <= i < self.recipients@.len() && (#[trigger] self.recipients@[i]).id == id])
        } else {
            None
        }
    }

    /// The active row whose e-mail address is `email`, if there is one.
    pub open spec fn active_recipient_with_email(self, email: Seq<char>) -> Option<Recipient> {
        if exists|i: int| 0 <= i < self.recipients@.len() && (#[trigger] self.recipients@[i]).email@ == email && self.recipients@[i].is_active() {
            Some(self.recipients@[choose|i: int| 0 <= i < self.recipients@.len() && (#[trigger] self.recipients@[i]).email@ == email && self.recipients@[i].is_active()])
        } else {
            None
        }
    }

    pub open spec fn email_taken(self, email: Seq<char>) -> bool {
        exists|i: int| 0 <= i < self.recipients@.len() && (#[trigger] self.recipients@[i]).email@ == email
    }

    /// An empty store for the database at `config.db_path`.
    pub fn new(config: DatabaseConfig) -> (r: Database)
        ensures
            r.wf(),
            r.db_path@ == config.db_path@,
            r.recipients@.len() == 0 && r.groups@.len() == 0 && r.group_recipients@.len() == 0,
            r.templates@.len() == 0 && r.email_history@.len() == 0,
            r.email_history_recipients@.len() == 0,
            r.events@.len() == 0 && r.event_attendees@.len() == 0,
            r.next_recipient_id == 1 && r.next_group_id == 1 && r.next_template_id == 1,
            r.next_email_record_id == 1 && r.next_event_id == 1 && r.next_attendee_id == 1,
    {
        Database {
            db_path: config.db_path,
            recipients: Vec::new(),
            groups: Vec::new(),
            group_recipients: Vec::new(),
            templates: Vec::new(),
            email_history: Vec::new(),
            email_history_recipients: Vec::new(),
            events: Vec::new(),
            event_attendees: Vec::new(),
            next_recipient_id: 1,
            next_group_id: 1,
            next_template_id: 1,
            next_email_record_id: 1,
            next_event_id: 1,
            next_attendee_id: 1,
        }
    }

    fn recipient_index(&self, id: i32) -> (r: Option<usize>)
        ensures
            r matches Some(k) ==> k < self.recipients@.len() && self.recipients@[k as int].id == id,
            r is None <==> !has_recipient(self.recipients@, id),
    {
        let mut i: usize = 0;
        while i < self.recipients.len()
            invariant
                i <= self.recipients@.len(),
                forall|j: int| 0 <= j < i ==> (#[trigger] self.recipients@[j]).id != id,
            decreases self.recipients@.len() - i,
        {
            if self.recipients[i].id == id {
                return Some(i);
            }
            i = i + 1;
        }
        None
    }

    fn email_index(&self, email: &String) -> (r: Option<usize>)
        ensures
            r matches Some(k) ==> k < self.recipients@.len() && self.recipients@[k as int].email@
                == email@,
            r is None <==> !self.email_taken(email@),
    {
        let mut i: usize = 0;
        while i < self.recipients.len()
            invariant
                i <= self.recipients@.len(),
                forall|j: int| 0 <= j < i ==> (#[trigger] self.recipients@[j]).email@ != email@,
            decreases self.recipients@.len() - i,
        {
            if self.recipients[i].email == *email {
                return Some(i);
            }
            i = i + 1;
        }
        None
    }

    /// The active recipients, in insertion order.
    pub fn list_recipients(&self) -> (r: Result<Vec<Recipient>, MailerError>)
        ensures
            r is Ok,
            r->Ok_0@ == self.active_recipients(),
    {
        let mut out: Vec<Recipient> = Vec::new();
        let mut i: usize = 0;
        while i < self.recipients.len()
            invariant
                i <= self.recipients@.len(),
                out@ == self.recipients@.subrange(0, i as int).filter(|r: Recipient| r.is_active()),
            decreases self.recipients@.len() - i,
        {
            proof {
                reveal(Seq::filter);
                assert(self.recipients@.subrange(0, i + 1).drop_last() =~= self.recipients@.subrange(0, i as int));
            }
            if self.recipients[i].status == RecipientStatus::Active {
                out.push(self.recipients[i].duplicate());
            }
            i = i + 1;
        }
        assert(self.recipients@.subrange(0, i as int) =~= self.recipients@);
        Ok(out)
    }

    /// The recipient with identifier `id`, active or not.
    pub fn get_recipient(&self, id: i32) -> (r: Result<Recipient, MailerError>)
        requires
            self.wf(),
        ensures
            r is Ok <==> has_recipient(self.recipients@, id),
            r is Ok ==> Some(r->Ok_0) == self.recipient_by_id(id),
            r is Err ==> r->Err_0.kind == ErrorKind::NotFound,
    {
        match self.recipient_index(id) {
            Some(k) => Ok(self.recipients[k].duplicate()),
            None => Err(MailerError::new(ErrorKind::NotFound, "Recipient not found")),
        }
    }

    /// The active recipient whose address is exactly `email_str`.
    pub fn find_recipient_by_email(&self, email_str: String) -> (r: Result<Recipient, MailerError>)
        requires
            self.wf(),
        ensures
            r is Ok <==> self.active_recipient_with_email(email_str@) is Some,
            r is Ok ==> Some(r->Ok_0) == self.active_recipient_with_email(email_str@),
            r is Err ==> r->Err_0.kind == ErrorKind::NotFound,
    {
        match self.email_index(&email_str) {
            Some(k) => {
                if self.recipients[k].status == RecipientStatus::Active {
                    Ok(self.recipients[k].duplicate())
                } else {
                    Err(MailerError::new(ErrorKind::NotFound, "Recipient not found"))
                }
            },
            None => Err(MailerError::new(ErrorKind::NotFound, "Recipient not found")),
        }
    }

    /// Adds an active recipient. Fails with `Conflict` when the address is
    /// already stored, active or not.
    pub fn new_recipient(&mut self, name_str: String, email_str: String) -> (r: Result<Recipient, MailerError>)
        requires
            old(self).wf(),
        ensures
            final(self).wf(),
            old(self).email_taken(email_str@) ==> r is Err && r->Err_0.kind == ErrorKind::Conflict,
            !old(self).email_taken(email_str@) && old(self).next_recipient_id < i32::MAX ==> r is Ok,
            r is Err ==> *final(self) == *old(self),
            r is Err ==> r->Err_0.kind == ErrorKind::Conflict || r->Err_0.kind == ErrorKind::StoreError,
            r is Err && !old(self).email_taken(email_str@) ==> r->Err_0.kind == ErrorKind::StoreError,
            r is Ok ==> {
                &&& r->Ok_0.id == old(self).next_recipient_id
                &&& r->Ok_0.name@ == name_str@ && r->Ok_0.email@ == email_str@
                &&& r->Ok_0.status == RecipientStatus::Active
                &&& final(self).recipients@ == old(self).recipients@.push(r->Ok_0)
                &&& final(self).next_recipient_id == old(self).next_recipient_id + 1
                &&& final(self).unchanged_but(*old(self), Table::Recipients)
            },
    {
        if self.email_index(&email_str).is_some() {
            return Err(MailerError::new(ErrorKind::Conflict, "Recipient email already exists"));
        }
        if self.next_recipient_id == i32::MAX {
            return Err(MailerError::new(ErrorKind::StoreError, "No recipient identifier left"));
        }
        let row = Recipient { id: self.next_recipient_id, name: name_str, email: email_str, status: RecipientStatus::Active };
        let ghost before = *self;
        self.recipients.push(row.duplicate());
        self.next_recipient_id = self.next_recipient_id + 1;
        proof {
            lemma_recipients_extend(before.recipients@, self.recipients@);
        }
        Ok(row)
    }

    /// Changes the name and address of recipient `recipient_id`. Fails with
    /// `NotFound` when there is no such row and with `Conflict` when another
    /// row holds the new address.
    pub fn update_recipient(&mut self, recipient_id: i32, new_name: String, new_email: String) -> (r: Result<Recipient, MailerError>)
        requires
            old(self).wf(),
        ensures
            final(self).wf(),
            !has_recipient(old(self).recipients@, recipient_id) ==> r is Err && r->Err_0.kind == ErrorKind::NotFound,
            has_recipient(old(self).recipients@, recipient_id) ==> (r is Err <==> exists|i: int| 0 <= i < old(self).recipients@.len()
                && (#[trigger] old(self).recipients@[i]).email@ == new_email@ && old(self).recipients@[i].id != recipient_id),
            r is Err ==> *final(self) == *old(self),
            r is Err ==> r->Err_0.kind == ErrorKind::NotFound || r->Err_0.kind == ErrorKind::Conflict,
            r is Ok ==> {
                &&& exists|k: int| 0 <= k < old(self).recipients@.len() && (#[trigger] old(self).recipients@[k]).id == recipient_id
                    && final(self).recipients@ == old(self).recipients@.update(k, r->Ok_0)
                    && r->Ok_0.status == old(self).recipients@[k].status
                &&& r->Ok_0.id == recipient_id && r->Ok_0.name@ == new_name@ && r->Ok_0.email@ == new_email@
                &&& final(self).next_recipient_id == old(self).next_recipient_id
                &&& final(self).unchanged_but(*old(self), Table::Recipients)
            },
    {
        let k = match self.recipient_index(recipient_id) {
            Some(k) => k,
            None => {
                return Err(MailerError::new(ErrorKind::NotFound, "Recipient not found"));
            },
        };
        match self.email_index(&new_email) {
            Some(j) => {
                if j != k {
                    return Err(MailerError::new(ErrorKind::Conflict, "Recipient email already exists"));
                }
            },
            None => {},
        }
        let row = Recipient { id: recipient_id, name: new_name, email: new_email, status: self.recipients[k].status };
        let ghost before = *self;
        self.recipients.set(k, row.duplicate());
        proof {
            lemma_recipients_extend(before.recipients@, self.recipients@);
            assert(has_recipient(before.recipients@, recipient_id));
        }
        Ok(row)
    }

    /// Marks recipient `recipient_id` inactive; the row stays, so that it can
    /// still be found by identifier. Marking an inactive recipient again
    /// changes nothing and succeeds. Fails with `NotFound` when there is no
    /// such row.
    pub fn remove_recipient(&mut self, recipient_id: i32) -> (r: Result<Recipient, MailerError>)
        requires
            old(self).wf(),
        ensures
            final(self).wf(),
            r is Ok <==> has_recipient(old(self).recipients@, recipient_id),
            r is Err ==> *final(self) == *old(self) && r->Err_0.kind == ErrorKind::NotFound,
            r is Ok ==> {
                &&& exists|k: int| 0 <= k < old(self).recipients@.len() && (#[trigger] old(self).recipients@[k]).id == recipient_id
                    && r->Ok_0 == (Recipient { status: RecipientStatus::Inactive, ..old(self).recipients@[k] })
                    && final(self).recipients@ == old(self).recipients@.update(k, r->Ok_0)
                &&& final(self).next_recipient_id == old(self).next_recipient_id
                &&& final(self).unchanged_but(*old(self), Table::Recipients)
            },
    {
        let k = match self.recipient_index(recipient_id) {
            Some(k) => k,
            None => {
                return Err(MailerError::new(ErrorKind::NotFound, "Recipient not found"));
            },
        };
        let cur = self.recipients[k].duplicate();
        let row = Recipient { id: cur.id, name: cur.name, email: cur.email, status: RecipientStatus::Inactive };
        let ghost before = *self;
        self.recipients.set(k, row.duplicate());
        proof {
            lemma_recipients_extend(before.recipients@, self.recipients@);
        }
        Ok(row)
    }
}

/// A table that keeps the identifiers of all old rows still has them.
pub proof fn lemma_recipients_extend(old_rows: Seq<Recipient>, new_rows: Seq<Recipient>)
    requires
        old_rows.len() <= new_rows.len(),
        forall|i: int| 0 <= i < old_rows.len() ==> (#[trigger] new_rows[i]).id == old_rows[i].id,
    ensures
        forall|id: i32| has_recipient(old_rows, id) ==> #[trigger] has_recipient(new_rows, id),
{
    assert forall|id: i32| has_recipient(old_rows, id) implies #[trigger] has_recipient(new_rows, id) by {
        let i = choose|i: int| 0 <= i < old_rows.len() && (#[trigger] old_rows[i]).id == id;
        assert(new_rows[i].id == id);
    }
}

/// Where each row of `s.filter(p)` sits in `s`: increasing positions.
pub proof fn lemma_filter_positions<A>(s: Seq<A>, p: spec_fn(A) -> bool) -> (idx: Seq<int>)
    ensures
        idx.len() == s.filter(p).len(),
        forall|m: int| 0 <= m < idx.len() ==> 0 <= #[trigger] idx[m] < s.len() && s.filter(p)[m] == s[idx[m]] && p(s[idx[m]]),
        forall|m1: int, m2: int| 0 <= m1 < m2 < idx.len() ==> #[trigger] idx[m1] < #[trigger] idx[m2],
    decreases s.len(),
{
    reveal(Seq::filter);
    if s.len() == 0 {
        Seq::<int>::empty()
    } else {
        let sub = lemma_filter_positions(s.drop_last(), p);
        if p(s.last()) {
            let idx = sub.push(s.len() - 1);
            assert forall|m: int| 0 <= m < idx.len() implies 0 <= #[trigger] idx[m] < s.len() && s.filter(p)[m] == s[idx[m]] && p(s[idx[m]]) by {
                if m < sub.len() {
                    assert(idx[m] == sub[m]);
                }
            }
            idx
        } else {
            sub
        }
    }
}

/// Removing the row at `k` keeps every other identifier.
pub proof fn lemma_group_removed(old_rows: Seq<Group>, k: int)
    requires
        0 <= k < old_rows.len(),
    ensures
        forall|id: i32| id != old_rows[k].id && has_group(old_rows, id) ==> #[trigger] has_group(old_rows.remove(k), id),
{
    let new_rows = old_rows.remove(k);
    assert forall|id: i32| id != old_rows[k].id && has_group(old_rows, id) implies #[trigger] has_group(new_rows, id) by {
        let i = choose|i: int| 0 <= i < old_rows.len() && (#[trigger] old_rows[i]).id == id;
        if i < k {
            assert(new_rows[i] == old_rows[i]);
        } else {
            assert(new_rows[i - 1] == old_rows[i]);
        }
    }
}

impl Database {
    pub open spec fn group_named(self, name: Seq<char>) -> Option<Group> {
        if exists|i: int| 0 <= i < self.groups@.len() && (#[trigger] self.groups@[i]).name@ == name {
            Some(self.groups@[choose|i: int| 0 <= i < self.groups@.len() && (#[trigger] self.groups@[i]).name@ == name])
        } else {
            None
        }
    }

    pub open spec fn template_named(self, name: Seq<char>) -> Option<Template> {
        if exists|i: int| 0 <= i < self.templates@.len() && (#[trigger] self.templates@[i]).name@ == name {
            Some(self.templates@[choose|i: int| 0 <= i < self.templates@.len() && (#[trigger] self.templates@[i]).name@ == name])
        } else {
            None
        }
    }

    /// The active recipient with identifier `id`, if there is one.
    pub open spec fn active_recipient_by_id(self, id: i32) -> Option<Recipient> {
        match self.recipient_by_id(id) {
            Some(r) => if r.is_active() { Some(r) } else { None },
            None => None,
        }
    }

    /// What a membership row contributes to the members of group `gid`.
    pub open spec fn member_row(self, gid: i32) -> spec_fn(RecipientGroup) -> Option<Recipient> {
        |l: RecipientGroup| if l.group_id == gid { self.active_recipient_by_id(l.recipient_id) } else { None }
    }

    /// The active members of group `gid`, in the order they were added.
    pub open spec fn group_members(self, gid: i32) -> Seq<Recipient> {
        self.group_recipients@.filter_map(self.member_row(gid))
    }

    fn group_index(&self, id: i32) -> (r: Option<usize>)
        ensures
            r matches Some(k) ==> k < self.groups@.len() && self.groups@[k as int].id == id,
            r is None <==> !has_group(self.groups@, id),
    {
        let mut i: usize = 0;
        while i < self.groups.len()
            invariant
                i <= self.groups@.len(),
                forall|j: int| 0 <= j < i ==> (#[trigger] self.groups@[j]).id != id,
            decreases self.groups@.len() - i,
        {
            if self.groups[i].id == id {
                return Some(i);
            }
            i = i + 1;
        }
        None
    }

    fn group_name_index(&self, name: &String) -> (r: Option<usize>)
        ensures
            r matches Some(k) ==> k < self.groups@.len() && self.groups@[k as int].name@ == name@,
            r is None <==> self.group_named(name@) is None,
    {
        let mut i: usize = 0;
        while i < self.groups.len()
            invariant
                i <= self.groups@.len(),
                forall|j: int| 0 <= j < i ==> (#[trigger] self.groups@[j]).name@ != name@,
            decreases self.groups@.len() - i,
        {
            if self.groups[i].name == *name {
                return Some(i);
            }
            i = i + 1;
        }
        None
    }

    fn template_index(&self, id: i32) -> (r: Option<usize>)
        ensures
            r matches Some(k) ==> k < self.templates@.len() && self.templates@[k as int].id == id,
            r is None <==> !has_template(self.templates@, id),
    {
        let mut i: usize = 0;
        while i < self.templates.len()
            invariant
                i <= self.templates@.len(),
                forall|j: int| 0 <= j < i ==> (#[trigger] self.templates@[j]).id != id,
            decreases self.templates@.len() - i,
        {
            if self.templates[i].id == id {
                return Some(i);
            }
            i = i + 1;
        }
        None
    }

    fn template_name_index(&self, name: &String) -> (r: Option<usize>)
        ensures
            r matches Some(k) ==> k < self.templates@.len() && self.templates@[k as int].name@ == name@,
            r is None <==> self.template_named(name@) is None,
    {
        let mut i: usize = 0;
        while i < self.templates.len()
            invariant
                i <= self.templates@.len(),
                forall|j: int| 0 <= j < i ==> (#[trigger] self.templates@[j]).name@ != name@,
            decreases self.templates@.len() - i,
        {
            if self.templates[i].name == *name {
                return Some(i);
            }
            i = i + 1;
        }
        None
    }

    /// All groups, in insertion order.
    pub fn list_groups(&self) -> (r: Result<Vec<Group>, MailerError>)
        ensures
            r is Ok && r->Ok_0@ == self.groups@,
    {
        let mut out: Vec<Group> = Vec::new();
        let mut i: usize = 0;
        while i < self.groups.len()
            invariant
                i <= self.groups@.len(),
                out@ == self.groups@.subrange(0, i as int),
            decreases self.groups@.len() - i,
        {
            out.push(self.groups[i].duplicate());
            i = i + 1;
            assert(out@ =~= self.groups@.subrange(0, i as int));
        }
        assert(self.groups@.subrange(0, i as int) =~= self.groups@);
        Ok(out)
    }

    /// All templates, in insertion order.
    pub fn list_templates(&self) -> (r: Result<Vec<Template>, MailerError>)
        ensures
            r is Ok && r->Ok_0@ == self.templates@,
    {
        let mut out: Vec<Template> = Vec::new();
        let mut i: usize = 0;
        while i < self.templates.len()
            invariant
                i <= self.templates@.len(),
                out@ == self.templates@.subrange(0, i as int),
            decreases self.templates@.len() - i,
        {
            out.push(self.templates[i].duplicate());
            i = i + 1;
            assert(out@ =~= self.templates@.subrange(0, i as int));
        }
        assert(self.templates@.subrange(0, i as int) =~= self.templates@);
        Ok(out)
    }

    /// The group called `group_name`; `NotFound` when there is none.
    pub fn find_group_by_name(&self, group_name: String) -> (r: Result<Group, MailerError>)
        requires
            self.wf(),
        ensures
            r is Ok <==> self.group_named(group_name@) is Some,
            r is Ok ==> Some(r->Ok_0) == self.group_named(group_name@),
            r is Err ==> r->Err_0.kind == ErrorKind::NotFound,
    {
        match self.group_name_index(&group_name) {
            Some(k) => Ok(self.groups[k].duplicate()),
            None => Err(MailerError::new(ErrorKind::NotFound, "Group not found")),
        }
    }

    /// The template called `template_name`; `NotFound` when there is none.
    pub fn find_template_by_name(&self, template_name: String) -> (r: Result<Template, MailerError>)
        requires
            self.wf(),
        ensures
            r is Ok <==> self.template_named(template_name@) is Some,
            r is Ok ==> Some(r->Ok_0) == self.template_named(template_name@),
            r is Err ==> r->Err_0.kind == ErrorKind::NotFound,
    {
        match self.template_name_index(&template_name) {
            Some(k) => Ok(self.templates[k].duplicate()),
            None => Err(MailerError::new(ErrorKind::NotFound, "Template not found")),
        }
    }

    /// Adds a group. Fails with `Conflict` when the name is taken.
    pub fn new_group(&mut self, group_name: String) -> (r: Result<Group, MailerError>)
        requires
            old(self).wf(),
        ensures
            final(self).wf(),
            old(self).group_named(group_name@) is Some ==> r is Err && r->Err_0.kind == ErrorKind::Conflict,
            old(self).group_named(group_name@) is None && old(self).next_group_id < i32::MAX ==> r is Ok,
            r is Err ==> *final(self) == *old(self),
            r is Err ==> r->Err_0.kind == ErrorKind::Conflict || r->Err_0.kind == ErrorKind::StoreError,
            r is Ok ==> {
                &&& r->Ok_0.id == old(self).next_group_id && r->Ok_0.name@ == group_name@
                &&& final(self).groups@ == old(self).groups@.push(r->Ok_0)
                &&& final(self).next_group_id == old(self).next_group_id + 1
                &&& final(self).unchanged_but(*old(self), Table::Groups)
            },
    {
        if self.group_name_index(&group_name).is_some() {
            return Err(MailerError::new(ErrorKind::Conflict, "Group name already exists"));
        }
        if self.next_group_id == i32::MAX {
            return Err(MailerError::new(ErrorKind::StoreError, "No group identifier left"));
        }
        let row = Group { id: self.next_group_id, name: group_name };
        let ghost before = *self;
        self.groups.push(row.duplicate());
        self.next_group_id = self.next_group_id + 1;
        proof {
            assert forall|id: i32| has_group(before.groups@, id) implies #[trigger] has_group(self.groups@, id) by {
                let i = choose|i: int| 0 <= i < before.groups@.len() && (#[trigger] before.groups@[i]).id == id;
                assert(self.groups@[i].id == id);
            }
        }
        Ok(row)
    }

    /// Renames group `group_id`. Fails with `NotFound` when there is no such
    /// group and with `Conflict` when another group has the new name.
    pub fn update_group(&mut self, group_id: i32, new_name: String) -> (r: Result<Group, MailerError>)
        requires
            old(self).wf(),
        ensures
            final(self).wf(),
            !has_group(old(self).groups@, group_id) ==> r is Err && r->Err_0.kind == ErrorKind::NotFound,
            has_group(old(self).groups@, group_id) ==> (r is Err <==> exists|i: int| 0 <= i < old(self).groups@.len()
                && (#[trigger] old(self).groups@[i]).name@ == new_name@ && old(self).groups@[i].id != group_id),
            r is Err ==> *final(self) == *old(self),
            r is Err ==> r->Err_0.kind == ErrorKind::NotFound || r->Err_0.kind == ErrorKind::Conflict,
            r is Ok ==> {
                &&& r->Ok_0.id == group_id && r->Ok_0.name@ == new_name@
                &&& exists|k: int| 0 <= k < old(self).groups@.len() && (#[trigger] old(self).groups@[k]).id == group_id
                    && final(self).groups@ == old(self).groups@.update(k, r->Ok_0)
                &&& final(self).next_group_id == old(self).next_group_id
                &&& final(self).unchanged_but(*old(self), Table::Groups)
            },
    {
        let k = match self.group_index(group_id) {
            Some(k) => k,
            None => {
                return Err(MailerError::new(ErrorKind::NotFound, "Group not found"));
            },
        };
        match self.group_name_index(&new_name) {
            Some(j) => {
                if j != k {
                    return Err(MailerError::new(ErrorKind::Conflict, "Group name already exists"));
                }
            },
            None => {},
        }
        let row = Group { id: group_id, name: new_name };
        let ghost before = *self;
        self.groups.set(k, row.duplicate());
        proof {
            assert forall|id: i32| has_group(before.groups@, id) implies #[trigger] has_group(self.groups@, id) by {
                let i = choose|i: int| 0 <= i < before.groups@.len() && (#[trigger] before.groups@[i]).id == id;
                assert(self.groups@[i].id == id);
            }
        }
        Ok(row)
    }

    /// Deletes group `group_id` and its memberships; the recipients stay.
    /// Fails with `NotFound` when there is no such group.
    pub fn remove_group(&mut self, group_id: i32) -> (r: Result<Group, MailerError>)
        requires
            old(self).wf(),
        ensures
            final(self).wf(),
            r is Ok <==> has_group(old(self).groups@, group_id),
            r is Err ==> *final(self) == *old(self) && r->Err_0.kind == ErrorKind::NotFound,
            r is Ok ==> {
                &&& exists|k: int| 0 <= k < old(self).groups@.len() && (#[trigger] old(self).groups@[k]).id == group_id
                    && r->Ok_0 == old(self).groups@[k] && final(self).groups@ == old(self).groups@.remove(k)
                &&& final(self).group_recipients@ == old(self).group_recipients@.filter(|l: RecipientGroup| l.group_id != group_id)
                &&& !has_group(final(self).groups@, group_id)
                &&& final(self).next_group_id == old(self).next_group_id
                &&& final(self).unchanged_outside(*old(self), Table::Groups, Table::GroupRecipients, Table::GroupRecipients)
            },
    {
        let k = match self.group_index(group_id) {
            Some(k) => k,
            None => {
                return Err(MailerError::new(ErrorKind::NotFound, "Group not found"));
            },
        };
        let ghost before = *self;
        let removed = self.groups.remove(k);
        let mut kept: Vec<RecipientGroup> = Vec::new();
        let mut i: usize = 0;
        while i < self.group_recipients.len()
            invariant
                i <= self.group_recipients@.len(),
                self.group_recipients@ == before.group_recipients@,
                kept@ == self.group_recipients@.subrange(0, i as int).filter(|l: RecipientGroup| l.group_id != group_id),
            decreases self.group_recipients@.len() - i,
        {
            proof {
                reveal(Seq::filter);
                assert(self.group_recipients@.subrange(0, i + 1).drop_last() =~= self.group_recipients@.subrange(0, i as int));
            }
            let l = self.group_recipients[i];
            if l.group_id != group_id {
                kept.push(l);
            }
            i = i + 1;
        }
        assert(self.group_recipients@.subrange(0, i as int) =~= self.group_recipients@);
        self.group_recipients = kept;
        proof {
            let links = before.group_recipients@;
            let pred = |l: RecipientGroup| l.group_id != group_id;
            let idx = lemma_filter_positions(links, pred);
            lemma_group_removed(before.groups@, k as int);
            assert forall|i: int| 0 <= i < self.groups@.len() implies (#[trigger] self.groups@[i]).id != group_id by {
                if i < k {
                    assert(self.groups@[i] == before.groups@[i]);
                } else {
                    assert(self.groups@[i] == before.groups@[i + 1]);
                }
            }
            assert forall|m: int| 0 <= m < self.group_recipients@.len() implies has_group(
                self.groups@, (#[trigger] self.group_recipients@[m]).group_id) && has_recipient(self.recipients@, self.group_recipients@[m].recipient_id) by {
                assert(self.group_recipients@[m] == links[idx[m]]);
            }
            assert forall|m1: int, m2: int| 0 <= m1 < self.group_recipients@.len() && 0 <= m2 < self.group_recipients@.len() && m1 != m2
                implies #[trigger] self.group_recipients@[m1] != #[trigger] self.group_recipients@[m2] by {
                if m1 < m2 {
                    assert(idx[m1] < idx[m2]);
                } else {
                    assert(idx[m2] < idx[m1]);
                }
            }
        }
        Ok(removed)
    }

    /// Adds a template. Fails with `Conflict` when the name is taken.
    pub fn new_template(&mut self, name: String, format_string: String) -> (r: Result<Template, MailerError>)
        requires
            old(self).wf(),
        ensures
            final(self).wf(),
            old(self).template_named(name@) is Some ==> r is Err && r->Err_0.kind == ErrorKind::Conflict,
            old(self).template_named(name@) is None && old(self).next_template_id < i32::MAX ==> r is Ok,
            r is Err ==> *final(self) == *old(self),
            r is Err ==> r->Err_0.kind == ErrorKind::Conflict || r->Err_0.kind == ErrorKind::StoreError,
            r is Ok ==> {
                &&& r->Ok_0.id == old(self).next_template_id && r->Ok_0.name@ == name@
                &&& r->Ok_0.format_string@ == format_string@
                &&& final(self).templates@ == old(self).templates@.push(r->Ok_0)
                &&& final(self).next_template_id == old(self).next_template_id + 1
                &&& final(self).unchanged_but(*old(self), Table::Templates)
            },
    {
        if self.template_name_index(&name).is_some() {
            return Err(MailerError::new(ErrorKind::Conflict, "Template name already exists"));
        }
        if self.next_template_id == i32::MAX {
            return Err(MailerError::new(ErrorKind::StoreError, "No template identifier left"));
        }
        let row = Template { id: self.next_template_id, name, format_string };
        self.templates.push(row.duplicate());
        self.next_template_id = self.next_template_id + 1;
        Ok(row)
    }

    /// Replaces the name and format string of template `template_id`. Fails
    /// with `NotFound` when there is no such template and with `Conflict`
    /// when another template has the new name.
    pub fn update_template(&mut self, template_id: i32, new_name: String, new_format_string: String) -> (r: Result<Template, MailerError>)
        requires
            old(self).wf(),
        ensures
            final(self).wf(),
            !has_template(old(self).templates@, template_id) ==> r is Err && r->Err_0.kind == ErrorKind::NotFound,
            has_template(old(self).templates@, template_id) ==> (r is Err <==> exists|i: int| 0 <= i < old(self).templates@.len()
                && (#[trigger] old(self).templates@[i]).name@ == new_name@ && old(self).templates@[i].id != template_id),
            r is Err ==> *final(self) == *old(self),
            r is Err ==> r->Err_0.kind == ErrorKind::NotFound || r->Err_0.kind == ErrorKind::Conflict,
            r is Ok ==> {
                &&& r->Ok_0.id == template_id && r->Ok_0.name@ == new_name@
                &&& r->Ok_0.format_string@ == new_format_string@
                &&& exists|k: int| 0 <= k < old(self).templates@.len() && (#[trigger] old(self).templates@[k]).id == template_id
                    && final(self).templates@ == old(self).templates@.update(k, r->Ok_0)
                &&& final(self).next_template_id == old(self).next_template_id
                &&& final(self).unchanged_but(*old(self), Table::Templates)
            },
    {
        let k = match self.template_index(template_id) {
            Some(k) => k,
            None => {
                return Err(MailerError::new(ErrorKind::NotFound, "Template not found"));
            },
        };
        match self.template_name_index(&new_name) {
            Some(j) => {
                if j != k {
                    return Err(MailerError::new(ErrorKind::Conflict, "Template name already exists"));
                }
            },
            None => {},
        }
        let row = Template { id: template_id, name: new_name, format_string: new_format_string };
        self.templates.set(k, row.duplicate());
        Ok(row)
    }

    /// Deletes template `template_id`. Fails with `NotFound` when there is no
    /// such template.
    pub fn remove_template(&mut self, template_id: i32) -> (r: Result<Template, MailerError>)
        requires
            old(self).wf(),
        ensures
            final(self).wf(),
            r is Ok <==> has_template(old(self).templates@, template_id),
            r is Err ==> *final(self) == *old(self) && r->Err_0.kind == ErrorKind::NotFound,
            r is Ok ==> {
                &&& exists|k: int| 0 <= k < old(self).templates@.len() && (#[trigger] old(self).templates@[k]).id == template_id
                    && r->Ok_0 == old(self).templates@[k] && final(self).templates@ == old(self).templates@.remove(k)
                &&& !has_template(final(self).templates@, template_id)
                &&& final(self).next_template_id == old(self).next_template_id
                &&& final(self).unchanged_but(*old(self), Table::Templates)
            },
    {
        let k = match self.template_index(template_id) {
            Some(k) => k,
            None => {
                return Err(MailerError::new(ErrorKind::NotFound, "Template not found"));
            },
        };
        let ghost before = *self;
        let removed = self.templates.remove(k);
        proof {
            assert forall|i: int| 0 <= i < self.templates@.len() implies (#[trigger] self.templates@[i]).id != template_id by {
                if i < k {
                    assert(self.templates@[i] == before.templates@[i]);
                } else {
                    assert(self.templates@[i] == before.templates@[i + 1]);
                }
            }
        }
        Ok(removed)
    }
}

impl Database {
    fn members_of(&self, gid: i32) -> (r: Vec<Recipient>)
        requires
            self.wf(),
        ensures
            r@ == self.group_members(gid),
    {
        let mut out: Vec<Recipient> = Vec::new();
        let mut i: usize = 0;
        while i < self.group_recipients.len()
            invariant
                self.wf(),
                i <= self.group_recipients@.len(),
                out@ == self.group_recipients@.subrange(0, i as int).filter_map(self.member_row(gid)),
            decreases self.group_recipients@.len() - i,
        {
            proof {
                assert(self.group_recipients@.subrange(0, i + 1).drop_last() =~= self.group_recipients@.subrange(0, i as int));
            }
            let l = self.group_recipients[i];
            if l.group_id == gid {
                proof {
                    assert(has_recipient(self.recipients@, self.group_recipients@[i as int].recipient_id));
                }
                match self.recipient_index(l.recipient_id) {
                    Some(k) => {
                        if self.recipients[k].status == RecipientStatus::Active {
                            out.push(self.recipients[k].duplicate());
                            assert(out@ =~= self.group_recipients@.subrange(0, i + 1).filter_map(self.member_row(gid)));
                        }
                    },
                    None => {},
                }
            }
            i = i + 1;
        }
        assert(self.group_recipients@.subrange(0, i as int) =~= self.group_recipients@);
        out
    }

    /// The active members of group `by_group_id`, once the group is found;
    /// empty when there is no such group.
    pub fn list_recipients_in_group(&self, by_group_id: i32) -> (r: Result<Vec<Recipient>, MailerError>)
        requires
            self.wf(),
        ensures
            r is Ok,
            has_group(self.groups@, by_group_id) ==> r->Ok_0@ == self.group_members(by_group_id),
            !has_group(self.groups@, by_group_id) ==> r->Ok_0@.len() == 0,
    {
        match self.group_index(by_group_id) {
            Some(_) => Ok(self.members_of(by_group_id)),
            None => Ok(Vec::new()),
        }
    }

    /// The active members of group `group_id`, read from the memberships
    /// alone.
    pub fn find_recipients_by_group_id(&self, group_id: i32) -> (r: Result<Vec<Recipient>, MailerError>)
        requires
            self.wf(),
        ensures
            r is Ok && r->Ok_0@ == self.group_members(group_id),
    {
        Ok(self.members_of(group_id))
    }

    fn membership_index(&self, group_id: i32, recipient_id: i32) -> (r: Option<usize>)
        ensures
            r matches Some(k) ==> k < self.group_recipients@.len() && self.group_recipients@[k as int]
                == (RecipientGroup { group_id, recipient_id }),
            r is None <==> !self.group_recipients@.contains(RecipientGroup { group_id, recipient_id }),
    {
        let mut i: usize = 0;
        while i < self.group_recipients.len()
            invariant
                i <= self.group_recipients@.len(),
                forall|j: int| 0 <= j < i ==> #[trigger] self.group_recipients@[j] != (RecipientGroup { group_id, recipient_id }),
            decreases self.group_recipients@.len() - i,
        {
            let l = self.group_recipients[i];
            if l.group_id == group_id && l.recipient_id == recipient_id {
                return Some(i);
            }
            i = i + 1;
        }
        None
    }

    /// Makes recipient `recipient_id` a member of group `group_id`. Fails
    /// with `NotFound` when either does not exist and with `Conflict` when
    /// the membership is already there.
    pub fn add_recipient_to_group(&mut self, group_id: i32, recipient_id: i32) -> (r: Result<(), MailerError>)
        requires
            old(self).wf(),
        ensures
            final(self).wf(),
            !has_group(old(self).groups@, group_id) || !has_recipient(old(self).recipients@, recipient_id)
                ==> r is Err && r->Err_0.kind == ErrorKind::NotFound,
            has_group(old(self).groups@, group_id) && has_recipient(old(self).recipients@, recipient_id) ==> {
                &&& old(self).group_recipients@.contains(RecipientGroup { group_id, recipient_id })
                    ==> r is Err && r->Err_0.kind == ErrorKind::Conflict
                &&& !old(self).group_recipients@.contains(RecipientGroup { group_id, recipient_id }) ==> r is Ok
            },
            r is Err ==> *final(self) == *old(self),
            r is Ok ==> {
                &&& final(self).group_recipients@ == old(self).group_recipients@.push(RecipientGroup { group_id, recipient_id })
                &&& final(self).unchanged_but(*old(self), Table::GroupRecipients)
            },
    {
        if self.group_index(group_id).is_none() {
            return Err(MailerError::new(ErrorKind::NotFound, "Group not found"));
        }
        if self.recipient_index(recipient_id).is_none() {
            return Err(MailerError::new(ErrorKind::NotFound, "Recipient not found"));
        }
        if self.membership_index(group_id, recipient_id).is_some() {
            return Err(MailerError::new(ErrorKind::Conflict, "Recipient already in group"));
        }
        self.group_recipients.push(RecipientGroup { group_id, recipient_id });
        Ok(())
    }

    /// Ends the membership of recipient `recipient_id` in group `group_id`,
    /// if there is one.
    pub fn remove_recipient_from_group(&mut self, group_id: i32, recipient_id: i32) -> (r: Result<(), MailerError>)
        requires
            old(self).wf(),
        ensures
            final(self).wf(),
            r is Ok,
            final(self).group_recipients@ == old(self).group_recipients@.filter(
                |l: RecipientGroup| l != (RecipientGroup { group_id, recipient_id })),
            !final(self).group_recipients@.contains(RecipientGroup { group_id, recipient_id }),
            final(self).unchanged_but(*old(self), Table::GroupRecipients),
    {
        let ghost before = *self;
        let mut kept: Vec<RecipientGroup> = Vec::new();
        let mut i: usize = 0;
        while i < self.group_recipients.len()
            invariant
                i <= self.group_recipients@.len(),
                self.group_recipients@ == before.group_recipients@,
                kept@ == self.group_recipients@.subrange(0, i as int).filter(
                    |l: RecipientGroup| l != (RecipientGroup { group_id, recipient_id })),
            decreases self.group_recipients@.len() - i,
        {
            proof {
                reveal(Seq::filter);
                assert(self.group_recipients@.subrange(0, i + 1).drop_last() =~= self.group_recipients@.subrange(0, i as int));
            }
            let l = self.group_recipients[i];
            if !(l.group_id == group_id && l.recipient_id == recipient_id) {
                kept.push(l);
            }
            i = i + 1;
        }
        assert(self.group_recipients@.subrange(0, i as int) =~= self.group_recipients@);
        self.group_recipients = kept;
        proof {
            let links = before.group_recipients@;
            let pred = |l: RecipientGroup| l != (RecipientGroup { group_id, recipient_id });
            let idx = lemma_filter_positions(links, pred);
            assert forall|m: int| 0 <= m < self.group_recipients@.len() implies has_group(
                self.groups@, (#[trigger] self.group_recipients@[m]).group_id) && has_recipient(self.recipients@, self.group_recipients@[m].recipient_id) by {
                assert(self.group_recipients@[m] == links[idx[m]]);
            }
            assert forall|m1: int, m2: int| 0 <= m1 < self.group_recipients@.len() && 0 <= m2 < self.group_recipients@.len() && m1 != m2
                implies #[trigger] self.group_recipients@[m1] != #[trigger] self.group_recipients@[m2] by {
                if m1 < m2 {
                    assert(idx[m1] < idx[m2]);
                } else {
                    assert(idx[m2] < idx[m1]);
                }
            }
            if self.group_recipients@.contains(RecipientGroup { group_id, recipient_id }) {
                let m = choose|m: int| 0 <= m < self.group_recipients@.len() && self.group_recipients@[m] == RecipientGroup { group_id, recipient_id };
                assert(pred(links[idx[m]]));
            }
        }
        Ok(())
    }
}

/// Removing the row at `k` keeps every other identifier.
pub proof fn lemma_event_removed(old_rows: Seq<Event>, k: int)
    requires
        0 <= k < old_rows.len(),
    ensures
        forall|id: i32| id != old_rows[k].id && has_event(old_rows, id) ==> #[trigger] has_event(old_rows.remove(k), id),
{
    let new_rows = old_rows.remove(k);
    assert forall|id: i32| id != old_rows[k].id && has_event(old_rows, id) implies #[trigger] has_event(new_rows, id) by {
        let i = choose|i: int| 0 <= i < old_rows.len() && (#[trigger] old_rows[i]).id == id;
        if i < k {
            assert(new_rows[i] == old_rows[i]);
        } else {
            assert(new_rows[i - 1] == old_rows[i]);
        }
    }
}

/// `t` lies in the closed interval `window`, or there is no window.
pub open spec fn in_window(t: Timestamp, window: Option<(Timestamp, Timestamp)>) -> bool {
    match window {
        Some((start, end)) => start.spec_le(t) && t.spec_le(end),
        None => true,
    }
}

/// An event starting at `start` falls in `[from, to]`, or after `from`
/// when `to` is absent.
pub open spec fn starts_within(start: Timestamp, from: Timestamp, to: Option<Timestamp>) -> bool {
    from.spec_le(start) && match to {
        Some(t) => start.spec_le(t),
        None => true,
    }
}

impl Database {
    pub open spec fn email_record_by_id(self, id: i32) -> Option<EmailRecord> {
        if has_email_record(self.email_history@, id) {
            Some(self.email_history@[choose|i: int| 0 <= i < self.email_history@.len() && (#[trigger] self.email_history@[i]).id == id])
        } else {
            None
        }
    }

    pub open spec fn event_by_id(self, id: i32) -> Option<Event> {
        if has_event(self.events@, id) {
            Some(self.events@[choose|i: int| 0 <= i < self.events@.len() && (#[trigger] self.events@[i]).id == id])
        } else {
            None
        }
    }

    /// What one row of the message/recipient links contributes to a history
    /// query: the linked message, when the link is to `by_recipient` (if
    /// given) and the message was sent within `window` (if given).
    pub open spec fn history_row(self, window: Option<(Timestamp, Timestamp)>, by_recipient: Option<i32>) -> spec_fn(RecipientEmailRecord) -> Option<EmailRecord> {
        |l: RecipientEmailRecord|
            if by_recipient matches Some(rid) && l.recipient_id != rid {
                None
            } else {
                match self.email_record_by_id(l.email_history_id) {
                    Some(rec) => if in_window(rec.sent_at, window) { Some(rec) } else { None },
                    None => None,
                }
            }
    }

    /// The join of sent messages with their recipient links, filtered.
    pub open spec fn history_matching(self, window: Option<(Timestamp, Timestamp)>, by_recipient: Option<i32>) -> Seq<EmailRecord> {
        self.email_history_recipients@.filter_map(self.history_row(window, by_recipient))
    }

    pub open spec fn events_starting_within(self, from: Timestamp, to: Option<Timestamp>) -> Seq<Event> {
        self.events@.filter(|e: Event| starts_within(e.start_time, from, to))
    }

    pub open spec fn attendees_of(self, event_id: i32) -> Seq<EventAttendee> {
        self.event_attendees@.filter(|a: EventAttendee| a.event_id == event_id)
    }

    fn email_record_index(&self, id: i32) -> (r: Option<usize>)
        ensures
            r matches Some(k) ==> k < self.email_history@.len() && self.email_history@[k as int].id == id,
            r is None <==> !has_email_record(self.email_history@, id),
    {
        let mut i: usize = 0;
        while i < self.email_history.len()
            invariant
                i <= self.email_history@.len(),
                forall|j: int| 0 <= j < i ==> (#[trigger] self.email_history@[j]).id != id,
            decreases self.email_history@.len() - i,
        {
            if self.email_history[i].id == id {
                return Some(i);
            }
            i = i + 1;
        }
        None
    }

    fn link_index(&self, email_history_id: i32, recipient_id: i32) -> (r: Option<usize>)
        ensures
            r matches Some(k) ==> k < self.email_history_recipients@.len() && self.email_history_recipients@[k as int]
                == (RecipientEmailRecord { email_history_id, recipient_id }),
            r is None <==> !self.email_history_recipients@.contains(RecipientEmailRecord { email_history_id, recipient_id }),
    {
        let mut i: usize = 0;
        while i < self.email_history_recipients.len()
            invariant
                i <= self.email_history_recipients@.len(),
                forall|j: int| 0 <= j < i ==> #[trigger] self.email_history_recipients@[j] != (RecipientEmailRecord { email_history_id, recipient_id }),
            decreases self.email_history_recipients@.len() - i,
        {
            let l = self.email_history_recipients[i];
            if l.email_history_id == email_history_id && l.recipient_id == recipient_id {
                return Some(i);
            }
            i = i + 1;
        }
        None
    }

    fn event_index(&self, id: i32) -> (r: Option<usize>)
        ensures
            r matches Some(k) ==> k < self.events@.len() && self.events@[k as int].id == id,
            r is None <==> !has_event(self.events@, id),
    {
        let mut i: usize = 0;
        while i < self.events.len()
            invariant
                i <= self.events@.len(),
                forall|j: int| 0 <= j < i ==> (#[trigger] self.events@[j]).id != id,
            decreases self.events@.len() - i,
        {
            if self.events[i].id == id {
                return Some(i);
            }
            i = i + 1;
        }
        None
    }

    /// Records a message sent at `sent_at`.
    pub fn add_email_record_at(&mut self, new_subject: String, new_body: String, sent_at: Timestamp) -> (r: Result<EmailRecord, MailerError>)
        requires
            old(self).wf(),
        ensures
            final(self).wf(),
            r is Ok <==> old(self).next_email_record_id < i32::MAX,
            r is Err ==> *final(self) == *old(self) && r->Err_0.kind == ErrorKind::StoreError,
            r is Ok ==> {
                &&& r->Ok_0.id == old(self).next_email_record_id
                &&& r->Ok_0.subject@ == new_subject@ && r->Ok_0.body@ == new_body@
                &&& r->Ok_0.sent_at == sent_at
                &&& final(self).email_history@ == old(self).email_history@.push(r->Ok_0)
                &&& final(self).next_email_record_id == old(self).next_email_record_id + 1
                &&& final(self).unchanged_but(*old(self), Table::EmailHistory)
            },
    {
        if self.next_email_record_id == i32::MAX {
            return Err(MailerError::new(ErrorKind::StoreError, "No email record identifier left"));
        }
        let row = EmailRecord { id: self.next_email_record_id, subject: new_subject, body: new_body, sent_at };
        let ghost before = *self;
        self.email_history.push(row.duplicate());
        self.next_email_record_id = self.next_email_record_id + 1;
        proof {
            assert forall|id: i32| has_email_record(before.email_history@, id) implies #[trigger] has_email_record(self.email_history@, id) by {
                let i = choose|i: int| 0 <= i < before.email_history@.len() && (#[trigger] before.email_history@[i]).id == id;
                assert(self.email_history@[i].id == id);
            }
        }
        Ok(row)
    }

    /// Links message `add_email_history_id` to recipient `add_recipient_id`.
    /// Fails with `NotFound` when either does not exist and with `Conflict`
    /// when the link is already there.
    pub fn add_recipient_email_record(&mut self, add_email_history_id: i32, add_recipient_id: i32) -> (r: Result<(), MailerError>)
        requires
            old(self).wf(),
        ensures
            final(self).wf(),
            !has_email_record(old(self).email_history@, add_email_history_id) || !has_recipient(old(self).recipients@, add_recipient_id)
                ==> r is Err && r->Err_0.kind == ErrorKind::NotFound,
            has_email_record(old(self).email_history@, add_email_history_id) && has_recipient(old(self).recipients@, add_recipient_id) ==> {
                let link = RecipientEmailRecord { email_history_id: add_email_history_id, recipient_id: add_recipient_id };
                &&& old(self).email_history_recipients@.contains(link) ==> r is Err && r->Err_0.kind == ErrorKind::Conflict
                &&& !old(self).email_history_recipients@.contains(link) ==> r is Ok
            },
            r is Err ==> *final(self) == *old(self),
            r is Ok ==> {
                &&& final(self).email_history_recipients@ == old(self).email_history_recipients@.push(
                    RecipientEmailRecord { email_history_id: add_email_history_id, recipient_id: add_recipient_id })
                &&& final(self).unchanged_but(*old(self), Table::EmailHistoryRecipients)
            },
    {
        if self.email_record_index(add_email_history_id).is_none() {
            return Err(MailerError::new(ErrorKind::NotFound, "Email record not found"));
        }
        if self.recipient_index(add_recipient_id).is_none() {
            return Err(MailerError::new(ErrorKind::NotFound, "Recipient not found"));
        }
        let link = RecipientEmailRecord { email_history_id: add_email_history_id, recipient_id: add_recipient_id };
        if self.link_index(add_email_history_id, add_recipient_id).is_some() {
            return Err(MailerError::new(ErrorKind::Conflict, "Email record already linked to recipient"));
        }
        self.email_history_recipients.push(link);
        Ok(())
    }

    /// The messages joined with their recipient links, restricted to those
    /// sent within `start_end_time` and to links to `by_recipient_id`, for
    /// whichever of the two is given. Fails with `InvalidArgument` when
    /// neither is.
    pub fn list_email_records_by_criteria(&self, start_end_time: Option<(Timestamp, Timestamp)>, by_recipient_id: Option<i32>) -> (r: Result<Vec<EmailRecord>, MailerError>)
        requires
            self.wf(),
        ensures
            r is Err <==> start_end_time is None && by_recipient_id is None,
            r is Err ==> r->Err_0.kind == ErrorKind::InvalidArgument,
            r is Ok ==> r->Ok_0@ == self.history_matching(start_end_time, by_recipient_id),
    {
        if start_end_time.is_none() && by_recipient_id.is_none() {
            return Err(MailerError::new(ErrorKind::InvalidArgument, "At least one filter must be provided for listing email records."));
        }
        let mut out: Vec<EmailRecord> = Vec::new();
        let mut i: usize = 0;
        while i < self.email_history_recipients.len()
            invariant
                self.wf(),
                i <= self.email_history_recipients@.len(),
                out@ == self.email_history_recipients@.subrange(0, i as int).filter_map(self.history_row(start_end_time, by_recipient_id)),
            decreases self.email_history_recipients@.len() - i,
        {
            proof {
                assert(self.email_history_recipients@.subrange(0, i + 1).drop_last() =~= self.email_history_recipients@.subrange(0, i as int));
            }
            let l = self.email_history_recipients[i];
            let wanted = match by_recipient_id {
                Some(rid) => l.recipient_id == rid,
                None => true,
            };
            if wanted {
                match self.email_record_index(l.email_history_id) {
                    Some(k) => {
                        let sent_at = self.email_history[k].sent_at;
                        let inside = match start_end_time {
                            Some((start, end)) => start.le(&sent_at) && sent_at.le(&end),
                            None => true,
                        };
                        if inside {
                            out.push(self.email_history[k].duplicate());
                        }
                    },
                    None => {},
                }
            }
            i = i + 1;
        }
        assert(self.email_history_recipients@.subrange(0, i as int) =~= self.email_history_recipients@);
        Ok(out)
    }

    /// Adds an event.
    pub fn add_event(
        &mut self,
        new_title: String,
        new_description: Option<String>,
        new_start_time: Timestamp,
        new_end_time: Option<Timestamp>,
        new_is_all_day: bool,
    ) -> (r: Result<Event, MailerError>)
        requires
            old(self).wf(),
        ensures
            final(self).wf(),
            r is Ok <==> old(self).next_event_id < i32::MAX,
            r is Err ==> *final(self) == *old(self) && r->Err_0.kind == ErrorKind::StoreError,
            r is Ok ==> {
                &&& r->Ok_0 == (Event {
                    id: old(self).next_event_id,
                    title: new_title,
                    description: new_description,
                    start_time: new_start_time,
                    end_time: new_end_time,
                    is_all_day: new_is_all_day,
                })
                &&& final(self).events@ == old(self).events@.push(r->Ok_0)
                &&& final(self).next_event_id == old(self).next_event_id + 1
                &&& final(self).unchanged_but(*old(self), Table::Events)
            },
    {
        if self.next_event_id == i32::MAX {
            return Err(MailerError::new(ErrorKind::StoreError, "No event identifier left"));
        }
        let row = Event {
            id: self.next_event_id,
            title: new_title,
            description: new_description,
            start_time: new_start_time,
            end_time: new_end_time,
            is_all_day: new_is_all_day,
        };
        let ghost before = *self;
        self.events.push(row.duplicate());
        self.next_event_id = self.next_event_id + 1;
        proof {
            assert forall|id: i32| has_event(before.events@, id) implies #[trigger] has_event(self.events@, id) by {
                let i = choose|i: int| 0 <= i < before.events@.len() && (#[trigger] before.events@[i]).id == id;
                assert(self.events@[i].id == id);
            }
        }
        Ok(row)
    }

    /// The event with identifier `id`; `NotFound` when there is none.
    pub fn find_event_by_id(&self, id: i32) -> (r: Result<Event, MailerError>)
        requires
            self.wf(),
        ensures
            r is Ok <==> has_event(self.events@, id),
            r is Ok ==> Some(r->Ok_0) == self.event_by_id(id),
            r is Err ==> r->Err_0.kind == ErrorKind::NotFound,
    {
        match self.event_index(id) {
            Some(k) => Ok(self.events[k].duplicate()),
            None => Err(MailerError::new(ErrorKind::NotFound, "Event not found")),
        }
    }

    /// The events that start at or after `from_time` and, when `to_time` is
    /// given, not after it.
    pub fn list_events(&self, from_time: Timestamp, to_time: Option<Timestamp>) -> (r: Result<Vec<Event>, MailerError>)
        ensures
            r is Ok && r->Ok_0@ == self.events_starting_within(from_time, to_time),
    {
        let mut out: Vec<Event> = Vec::new();
        let mut i: usize = 0;
        while i < self.events.len()
            invariant
                i <= self.events@.len(),
                out@ == self.events@.subrange(0, i as int).filter(|e: Event| starts_within(e.start_time, from_time, to_time)),
            decreases self.events@.len() - i,
        {
            proof {
                reveal(Seq::filter);
                assert(self.events@.subrange(0, i + 1).drop_last() =~= self.events@.subrange(0, i as int));
            }
            let start = self.events[i].start_time;
            let upper = match to_time {
                Some(t) => start.le(&t),
                None => true,
            };
            if from_time.le(&start) && upper {
                out.push(self.events[i].duplicate());
            }
            i = i + 1;
        }
        assert(self.events@.subrange(0, i as int) =~= self.events@);
        Ok(out)
    }

    /// Deletes event `event_id` and its attendees; returns how many events
    /// were deleted (0 when there was no such event).
    pub fn remove_event(&mut self, event_id: i32) -> (r: Result<usize, MailerError>)
        requires
            old(self).wf(),
        ensures
            final(self).wf(),
            r is Ok,
            !has_event(old(self).events@, event_id) ==> r->Ok_0 == 0 && *final(self) == *old(self),
            has_event(old(self).events@, event_id) ==> {
                &&& r->Ok_0 == 1
                &&& exists|k: int| 0 <= k < old(self).events@.len() && (#[trigger] old(self).events@[k]).id == event_id
                    && final(self).events@ == old(self).events@.remove(k)
                &&& final(self).event_attendees@ == old(self).event_attendees@.filter(|a: EventAttendee| a.event_id != event_id)
                &&& final(self).next_event_id == old(self).next_event_id
                &&& final(self).next_attendee_id == old(self).next_attendee_id
                &&& final(self).unchanged_outside(*old(self), Table::Events, Table::EventAttendees, Table::EventAttendees)
            },
            !has_event(final(self).events@, event_id),
    {
        let k = match self.event_index(event_id) {
            Some(k) => k,
            None => {
                return Ok(0);
            },
        };
        let ghost before = *self;
        self.events.remove(k);
        let mut kept: Vec<EventAttendee> = Vec::new();
        let mut i: usize = 0;
        while i < self.event_attendees.len()
            invariant
                i <= self.event_attendees@.len(),
                self.event_attendees@ == before.event_attendees@,
                kept@ == self.event_attendees@.subrange(0, i as int).filter(|a: EventAttendee| a.event_id != event_id),
            decreases self.event_attendees@.len() - i,
        {
            proof {
                reveal(Seq::filter);
                assert(self.event_attendees@.subrange(0, i + 1).drop_last() =~= self.event_attendees@.subrange(0, i as int));
            }
            let a = self.event_attendees[i];
            if a.event_id != event_id {
                kept.push(a);
            }
            i = i + 1;
        }
        assert(self.event_attendees@.subrange(0, i as int) =~= self.event_attendees@);
        self.event_attendees = kept;
        proof {
            let rows = before.event_attendees@;
            let pred = |a: EventAttendee| a.event_id != event_id;
            let idx = lemma_filter_positions(rows, pred);
            lemma_event_removed(before.events@, k as int);
            assert forall|i: int| 0 <= i < self.events@.len() implies (#[trigger] self.events@[i]).id != event_id by {
                if i < k {
                    assert(self.events@[i] == before.events@[i]);
                } else {
                    assert(self.events@[i] == before.events@[i + 1]);
                }
            }
            assert forall|m: int| 0 <= m < self.event_attendees@.len() implies 0 < (#[trigger] self.event_attendees@[m]).id
                < self.next_attendee_id && has_event(self.events@, self.event_attendees@[m].event_id)
                && has_recipient(self.recipients@, self.event_attendees@[m].recipient_id) by {
                assert(self.event_attendees@[m] == rows[idx[m]]);
            }
            assert forall|m1: int, m2: int| 0 <= m1 < self.event_attendees@.len() && 0 <= m2 < self.event_attendees@.len() && m1 != m2
                implies (#[trigger] self.event_attendees@[m1]).id != (#[trigger] self.event_attendees@[m2]).id by {
                if m1 < m2 {
                    assert(idx[m1] < idx[m2]);
                } else {
                    assert(idx[m2] < idx[m1]);
                }
            }
        }
        Ok(1)
    }

    /// Invites recipient `new_recipient_id` to event `new_event_id`. Fails
    /// with `NotFound` when either does not exist.
    pub fn add_event_attendee(&mut self, new_event_id: i32, new_recipient_id: i32, new_invitation_type: InvitationType) -> (r: Result<EventAttendee, MailerError>)
        requires
            old(self).wf(),
        ensures
            final(self).wf(),
            !has_event(old(self).events@, new_event_id) || !has_recipient(old(self).recipients@, new_recipient_id)
                ==> r is Err && r->Err_0.kind == ErrorKind::NotFound,
            has_event(old(self).events@, new_event_id) && has_recipient(old(self).recipients@, new_recipient_id)
                && old(self).next_attendee_id < i32::MAX ==> r is Ok,
            r is Err ==> *final(self) == *old(self),
            r is Err ==> r->Err_0.kind == ErrorKind::NotFound || r->Err_0.kind == ErrorKind::StoreError,
            r is Err && has_event(old(self).events@, new_event_id) && has_recipient(old(self).recipients@, new_recipient_id)
                ==> r->Err_0.kind == ErrorKind::StoreError,
            r is Ok ==> {
                &&& r->Ok_0 == (EventAttendee {
                    id: old(self).next_attendee_id,
                    event_id: new_event_id,
                    recipient_id: new_recipient_id,
                    invitation_type: new_invitation_type,
                })
                &&& final(self).event_attendees@ == old(self).event_attendees@.push(r->Ok_0)
                &&& final(self).next_attendee_id == old(self).next_attendee_id + 1
                &&& final(self).unchanged_but(*old(self), Table::EventAttendees)
            },
    {
        if self.event_index(new_event_id).is_none() {
            return Err(MailerError::new(ErrorKind::NotFound, "Event not found"));
        }
        if self.recipient_index(new_recipient_id).is_none() {
            return Err(MailerError::new(ErrorKind::NotFound, "Recipient not found"));
        }
        if self.next_attendee_id == i32::MAX {
            return Err(MailerError::new(ErrorKind::StoreError, "No attendee identifier left"));
        }
        let row = EventAttendee {
            id: self.next_attendee_id,
            event_id: new_event_id,
            recipient_id: new_recipient_id,
            invitation_type: new_invitation_type,
        };
        self.event_attendees.push(row);
        self.next_attendee_id = self.next_attendee_id + 1;
        Ok(row)
    }

    /// The attendees of event `by_event_id`, in the order they were added.
    pub fn list_event_attendees(&self, by_event_id: i32) -> (r: Result<Vec<EventAttendee>, MailerError>)
        ensures
            r is Ok && r->Ok_0@ == self.attendees_of(by_event_id),
    {
        let mut out: Vec<EventAttendee> = Vec::new();
        let mut i: usize = 0;
        while i < self.event_attendees.len()
            invariant
                i <= self.event_attendees@.len(),
                out@ == self.event_attendees@.subrange(0, i as int).filter(|a: EventAttendee| a.event_id == by_event_id),
            decreases self.event_attendees@.len() - i,
        {
            proof {
                reveal(Seq::filter);
                assert(self.event_attendees@.subrange(0, i + 1).drop_last() =~= self.event_attendees@.subrange(0, i as int));
            }
            let a = self.event_attendees[i];
            if a.event_id == by_event_id {
                out.push(a);
            }
            i = i + 1;
        }
        assert(self.event_attendees@.subrange(0, i as int) =~= self.event_attendees@);
        Ok(out)
    }
}

impl Database {
    /// Records a message sent now.
    pub fn add_email_record(&mut self, new_subject: String, new_body: String) -> (r: Result<EmailRecord, MailerError>)
        requires
            old(self).wf(),
        ensures
            final(self).wf(),
            r is Ok <==> old(self).next_email_record_id < i32::MAX,
            r is Err ==> *final(self) == *old(self) && r->Err_0.kind == ErrorKind::StoreError,
            r is Ok ==> {
                &&& r->Ok_0.id == old(self).next_email_record_id
                &&& r->Ok_0.subject@ == new_subject@ && r->Ok_0.body@ == new_body@
                &&& final(self).email_history@ == old(self).email_history@.push(r->Ok_0)
                &&& final(self).next_email_record_id == old(self).next_email_record_id + 1
                &&& final(self).unchanged_but(*old(self), Table::EmailHistory)
            },
    {
        let sent_at = now();
        self.add_email_record_at(new_subject, new_body, sent_at)
    }

    /// The identifier of the recipient with address `email_str`, active or
    /// not; a new active recipient called `name_str` when there is none.
    pub fn upsert_recipient(&mut self, name_str: String, email_str: String) -> (r: Result<i32, MailerError>)
        requires
            old(self).wf(),
        ensures
            final(self).wf(),
            r is Err <==> !old(self).email_taken(email_str@) && old(self).next_recipient_id == i32::MAX,
            r is Err ==> *final(self) == *old(self) && r->Err_0.kind == ErrorKind::StoreError,
            r is Ok ==> {
                &&& exists|k: int| 0 <= k < final(self).recipients@.len() && (#[trigger] final(self).recipients@[k]).id == r->Ok_0
                    && final(self).recipients@[k].email@ == email_str@
                &&& old(self).email_taken(email_str@) ==> *final(self) == *old(self)
                &&& !old(self).email_taken(email_str@) ==> {
                    &&& final(self).recipients@.len() == old(self).recipients@.len() + 1
                    &&& r->Ok_0 == old(self).next_recipient_id
                    &&& final(self).recipients@.last().id == r->Ok_0
                    &&& final(self).recipients@.last().name@ == name_str@
                    &&& final(self).recipients@.last().email@ == email_str@
                    &&& final(self).recipients@.last().status == RecipientStatus::Active
                }
                &&& final(self).unchanged_but(*old(self), Table::Recipients)
                &&& final(self).next_recipient_id <= old(self).next_recipient_id + 1
                &&& old(self).recipients@.len() <= final(self).recipients@.len()
                &&& forall|i: int| 0 <= i < old(self).recipients@.len() ==> #[trigger] final(self).recipients@[i] == old(self).recipients@[i]
            },
    {
        match self.email_index(&email_str) {
            Some(k) => {
                let id = self.recipients[k].id;
                Ok(id)
            },
            None => {
                let ghost before = *self;
                let row = match self.new_recipient(name_str, email_str) {
                    Ok(row) => row,
                    Err(e) => {
                        return Err(e);
                    },
                };
                proof {
                    assert(self.recipients@[before.recipients@.len() as int] == row);
                }
                Ok(row.id)
            },
        }
    }
}


/// An item is in `s.filter_map(f)` exactly when `f` maps some item of `s` to it.
pub proof fn lemma_filter_map_contains_iff<A, B>(s: Seq<A>, f: spec_fn(A) -> Option<B>, b: B)
    ensures
        s.filter_map(f).contains(b) <==> exists|i: int| 0 <= i < s.len() && f(#[trigger] s[i]) == Some(b),
    decreases s.len(),
{
    if s.len() > 0 {
        let rest = s.drop_last();
        lemma_filter_map_contains_iff(rest, f, b);
        if rest.filter_map(f).contains(b) {
            let i = choose|i: int| 0 <= i < rest.len() && f(#[trigger] rest[i]) == Some(b);
            assert(s[i] == rest[i]);
            let j = choose|j: int| 0 <= j < rest.filter_map(f).len() && rest.filter_map(f)[j] == b;
            assert(s.filter_map(f)[j] == b);
        }
        if exists|i: int| 0 <= i < s.len() && f(#[trigger] s[i]) == Some(b) {
            let i = choose|i: int| 0 <= i < s.len() && f(#[trigger] s[i]) == Some(b);
            if i < s.len() - 1 {
                assert(rest[i] == s[i]);
                let j = choose|j: int| 0 <= j < rest.filter_map(f).len() && rest.filter_map(f)[j] == b;
                assert(s.filter_map(f)[j] == b);
            } else {
                assert(s.filter_map(f)[s.filter_map(f).len() - 1] == b);
            }
        }
        if s.filter_map(f).contains(b) && !rest.filter_map(f).contains(b) {
            let j = choose|j: int| 0 <= j < s.filter_map(f).len() && s.filter_map(f)[j] == b;
            if j < rest.filter_map(f).len() {
                assert(rest.filter_map(f)[j] == b);
            } else {
                assert(f(s[s.len() - 1]) == Some(b));
            }
        }
    }
}

/// Removing recipient `before.recipients@[k]` (making it inactive) takes it
/// out of the listing of recipients, while its identifier still resolves to
/// the same row, name and address unchanged.
pub proof fn lemma_removed_recipient_unlisted_but_resolvable(before: Database, after: Database, k: int)
    requires
        before.wf(),
        0 <= k < before.recipients@.len(),
        after.recipients@ == before.recipients@.update(k, Recipient { status: RecipientStatus::Inactive, ..before.recipients@[k] }),
    ensures
        forall|i: int| 0 <= i < after.active_recipients().len() ==> (#[trigger] after.active_recipients()[i]).id != before.recipients@[k].id,
        after.recipient_by_id(before.recipients@[k].id) matches Some(rc) && rc.id == before.recipients@[k].id
            && rc.name == before.recipients@[k].name && rc.email == before.recipients@[k].email
            && rc.status == RecipientStatus::Inactive,
{
    let id = before.recipients@[k].id;
    let pred = |r: Recipient| r.is_active();
    assert forall|i: int| 0 <= i < after.active_recipients().len() implies (#[trigger] after.active_recipients()[i]).id != id by {
        let listed = after.active_recipients();
        after.recipients@.filter_lemma(pred);
        assert(listed.contains(listed[i]));
        after.recipients@.lemma_filter_contains_rev(pred, listed[i]);
        let j = choose|j: int| 0 <= j < after.recipients@.len() && after.recipients@[j] == listed[i];
        assert(pred(listed[i]));
        if j != k {
            assert(after.recipients@[j] == before.recipients@[j]);
        }
    }
    assert(has_recipient(after.recipients@, id)) by {
        assert(after.recipients@[k].id == id);
    }
    let c = choose|i: int| 0 <= i < after.recipients@.len() && (#[trigger] after.recipients@[i]).id == id;
    if c != k {
        assert(after.recipients@[c] == before.recipients@[c]);
    }
}

/// After a group is removed (its row deleted and its memberships with it),
/// the group is gone and has no members.
pub proof fn lemma_removed_group_has_no_members(before: Database, after: Database, k: int)
    requires
        0 <= k < before.groups@.len(),
        before.wf(),
        after.groups@ == before.groups@.remove(k),
        after.group_recipients@ == before.group_recipients@.filter(|l: RecipientGroup| l.group_id != before.groups@[k].id),
    ensures
        !has_group(after.groups@, before.groups@[k].id),
        after.group_members(before.groups@[k].id).len() == 0,
{
    let gid = before.groups@[k].id;
    assert forall|i: int| 0 <= i < after.groups@.len() implies (#[trigger] after.groups@[i]).id != gid by {
        if i < k {
            assert(after.groups@[i] == before.groups@[i]);
        } else {
            assert(after.groups@[i] == before.groups@[i + 1]);
        }
    }
    let pred = |l: RecipientGroup| l.group_id != gid;
    before.group_recipients@.filter_lemma(pred);
    let members = after.group_members(gid);
    if members.len() > 0 {
        lemma_filter_map_contains_iff(after.group_recipients@, after.member_row(gid), members[0]);
        assert(members.contains(members[0]));
        let i = choose|i: int| 0 <= i < after.group_recipients@.len() && (after.member_row(gid))(#[trigger] after.group_recipients@[i]) == Some(members[0]);
        assert(pred(after.group_recipients@[i]));
    }
}

/// After an event is removed (its row deleted and its attendees with it),
/// the event is gone and has no attendees.
pub proof fn lemma_removed_event_has_no_attendees(before: Database, after: Database, k: int)
    requires
        0 <= k < before.events@.len(),
        before.wf(),
        after.events@ == before.events@.remove(k),
        after.event_attendees@ == before.event_attendees@.filter(|a: EventAttendee| a.event_id != before.events@[k].id),
    ensures
        !has_event(after.events@, before.events@[k].id),
        after.attendees_of(before.events@[k].id).len() == 0,
{
    let eid = before.events@[k].id;
    assert forall|i: int| 0 <= i < after.events@.len() implies (#[trigger] after.events@[i]).id != eid by {
        if i < k {
            assert(after.events@[i] == before.events@[i]);
        } else {
            assert(after.events@[i] == before.events@[i + 1]);
        }
    }
    let kept = |a: EventAttendee| a.event_id != eid;
    let here = |a: EventAttendee| a.event_id == eid;
    before.event_attendees@.filter_lemma(kept);
    after.event_attendees@.filter_lemma(here);
    let listed = after.attendees_of(eid);
    if listed.len() > 0 {
        assert(listed.contains(listed[0]));
        after.event_attendees@.lemma_filter_contains_rev(here, listed[0]);
        let j = choose|j: int| 0 <= j < after.event_attendees@.len() && after.event_attendees@[j] == listed[0];
        assert(kept(after.event_attendees@[j]));
    }
}

/// With only a time window, the history holds exactly the messages that
/// were sent within the window and reached someone.
pub proof fn lemma_history_by_window(db: Database, window: (Timestamp, Timestamp), rec: EmailRecord)
    ensures
        db.history_matching(Some(window), None).contains(rec) <==> exists|i: int|
            0 <= i < db.email_history_recipients@.len()
            && db.email_record_by_id((#[trigger] db.email_history_recipients@[i]).email_history_id) == Some(rec)
            && in_window(rec.sent_at, Some(window)),
{
    lemma_filter_map_contains_iff(db.email_history_recipients@, db.history_row(Some(window), None), rec);
}

/// With only a recipient, the history holds exactly the messages linked to
/// that recipient, whenever they were sent.
pub proof fn lemma_history_by_recipient(db: Database, recipient_id: i32, rec: EmailRecord)
    ensures
        db.history_matching(None, Some(recipient_id)).contains(rec) <==> exists|i: int|
            0 <= i < db.email_history_recipients@.len()
            && (#[trigger] db.email_history_recipients@[i]).recipient_id == recipient_id
            && db.email_record_by_id(db.email_history_recipients@[i].email_history_id) == Some(rec),
{
    lemma_filter_map_contains_iff(db.email_history_recipients@, db.history_row(None, Some(recipient_id)), rec);
}

fn check_recipients(s: &Vec<Recipient>, next: i32) -> (r: bool)
    ensures
        r == recipients_ok(s@, next),
{
    if next < 1 {
        return false;
    }
    let n = s.len();
    let mut i: usize = 0;
    while i < n
        invariant
            n == s@.len(),
            i <= n,
            next >= 1,
            forall|a: int, b: int| 0 <= a < i && 0 <= b < n && a != b ==> (#[trigger] s@[a]).id != (#[trigger] s@[b]).id && s@[a].email@ != s@[b].email@,
            forall|a: int| 0 <= a < i ==> 0 < (#[trigger] s@[a]).id < next,
        decreases n - i,
    {
        if !(0 < s[i].id && s[i].id < next) {
            return false;
        }
        let mut j: usize = 0;
        while j < n
            invariant
                n == s@.len(),
                i < n,
                j <= n,
                next >= 1,
                forall|a: int, b: int| 0 <= a < i && 0 <= b < n && a != b ==> (#[trigger] s@[a]).id != (#[trigger] s@[b]).id && s@[a].email@ != s@[b].email@,
                forall|a: int| 0 <= a <= i ==> 0 < (#[trigger] s@[a]).id < next,
                forall|b: int| 0 <= b < j && b != i ==> (#[trigger] s@[i as int]).id != (#[trigger] s@[b]).id && s@[i as int].email@ != s@[b].email@,
            decreases n - j,
        {
            if j != i && (s[i].id == s[j].id || s[i].email == s[j].email) {
                return false;
            }
            j = j + 1;
        }
        i = i + 1;
    }
    true
}

fn check_groups(s: &Vec<Group>, next: i32) -> (r: bool)
    ensures
        r == groups_ok(s@, next),
{
    if next < 1 {
        return false;
    }
    let n = s.len();
    let mut i: usize = 0;
    while i < n
        invariant
            n == s@.len(),
            i <= n,
            next >= 1,
            forall|a: int, b: int| 0 <= a < i && 0 <= b < n && a != b ==> (#[trigger] s@[a]).id != (#[trigger] s@[b]).id && s@[a].name@ != s@[b].name@,
            forall|a: int| 0 <= a < i ==> 0 < (#[trigger] s@[a]).id < next,
        decreases n - i,
    {
        if !(0 < s[i].id && s[i].id < next) {
            return false;
        }
        let mut j: usize = 0;
        while j < n
            invariant
                n == s@.len(),
                i < n,
                j <= n,
                next >= 1,
                forall|a: int, b: int| 0 <= a < i && 0 <= b < n && a != b ==> (#[trigger] s@[a]).id != (#[trigger] s@[b]).id && s@[a].name@ != s@[b].name@,
                forall|a: int| 0 <= a <= i ==> 0 < (#[trigger] s@[a]).id < next,
                forall|b: int| 0 <= b < j && b != i ==> (#[trigger] s@[i as int]).id != (#[trigger] s@[b]).id && s@[i as int].name@ != s@[b].name@,
            decreases n - j,
        {
            if j != i && (s[i].id == s[j].id || s[i].name == s[j].name) {
                return false;
            }
            j = j + 1;
        }
        i = i + 1;
    }
    true
}

fn check_templates(s: &Vec<Template>, next: i32) -> (r: bool)
    ensures
        r == templates_ok(s@, next),
{
    if next < 1 {
        return false;
    }
    let n = s.len();
    let mut i: usize = 0;
    while i < n
        invariant
            n == s@.len(),
            i <= n,
            next >= 1,
            forall|a: int, b: int| 0 <= a < i && 0 <= b < n && a != b ==> (#[trigger] s@[a]).id != (#[trigger] s@[b]).id && s@[a].name@ != s@[b].name@,
            forall|a: int| 0 <= a < i ==> 0 < (#[trigger] s@[a]).id < next,
        decreases n - i,
    {
        if !(0 < s[i].id && s[i].id < next) {
            return false;
        }
        let mut j: usize = 0;
        while j < n
            invariant
                n == s@.len(),
                i < n,
                j <= n,
                next >= 1,
                forall|a: int, b: int| 0 <= a < i && 0 <= b < n && a != b ==> (#[trigger] s@[a]).id != (#[trigger] s@[b]).id && s@[a].name@ != s@[b].name@,
                forall|a: int| 0 <= a <= i ==> 0 < (#[trigger] s@[a]).id < next,
                forall|b: int| 0 <= b < j && b != i ==> (#[trigger] s@[i as int]).id != (#[trigger] s@[b]).id && s@[i as int].name@ != s@[b].name@,
            decreases n - j,
        {
            if j != i && (s[i].id == s[j].id || s[i].name == s[j].name) {
                return false;
            }
            j = j + 1;
        }
        i = i + 1;
    }
    true
}

fn check_email_history(s: &Vec<EmailRecord>, next: i32) -> (r: bool)
    ensures
        r == email_history_ok(s@, next),
{
    if next < 1 {
        return false;
    }
    let n = s.len();
    let mut i: usize = 0;
    while i < n
        invariant
            n == s@.len(),
            i <= n,
            next >= 1,
            forall|a: int, b: int| 0 <= a < i && 0 <= b < n && a != b ==> (#[trigger] s@[a]).id != (#[trigger] s@[b]).id,
            forall|a: int| 0 <= a < i ==> 0 < (#[trigger] s@[a]).id < next,
        decreases n - i,
    {
        if !(0 < s[i].id && s[i].id < next) {
            return false;
        }
        let mut j: usize = 0;
        while j < n
            invariant
                n == s@.len(),
                i < n,
                j <= n,
                next >= 1,
                forall|a: int, b: int| 0 <= a < i && 0 <= b < n && a != b ==> (#[trigger] s@[a]).id != (#[trigger] s@[b]).id,
                forall|a: int| 0 <= a <= i ==> 0 < (#[trigger] s@[a]).id < next,
                forall|b: int| 0 <= b < j && b != i ==> (#[trigger] s@[i as int]).id != (#[trigger] s@[b]).id,
            decreases n - j,
        {
            if j != i && (s[i].id == s[j].id) {
                return false;
            }
            j = j + 1;
        }
        i = i + 1;
    }
    true
}

fn check_events(s: &Vec<Event>, next: i32) -> (r: bool)
    ensures
        r == events_ok(s@, next),
{
    if next < 1 {
        return false;
    }
    let n = s.len();
    let mut i: usize = 0;
    while i < n
        invariant
            n == s@.len(),
            i <= n,
            next >= 1,
            forall|a: int, b: int| 0 <= a < i && 0 <= b < n && a != b ==> (#[trigger] s@[a]).id != (#[trigger] s@[b]).id,
            forall|a: int| 0 <= a < i ==> 0 < (#[trigger] s@[a]).id < next,
        decreases n - i,
    {
        if !(0 < s[i].id && s[i].id < next) {
            return false;
        }
        let mut j: usize = 0;
        while j < n
            invariant
                n == s@.len(),
                i < n,
                j <= n,
                next >= 1,
                forall|a: int, b: int| 0 <= a < i && 0 <= b < n && a != b ==> (#[trigger] s@[a]).id != (#[trigger] s@[b]).id,
                forall|a: int| 0 <= a <= i ==> 0 < (#[trigger] s@[a]).id < next,
                forall|b: int| 0 <= b < j && b != i ==> (#[trigger] s@[i as int]).id != (#[trigger] s@[b]).id,
            decreases n - j,
        {
            if j != i && (s[i].id == s[j].id) {
                return false;
            }
            j = j + 1;
        }
        i = i + 1;
    }
    true
}

impl Database {
    /// Decides the store's invariant; for a store whose rows were loaded
    /// from elsewhere.
    pub fn is_well_formed(&self) -> (r: bool)
        ensures
            r == self.wf(),
    {
        if !check_recipients(&self.recipients, self.next_recipient_id) || !check_groups(&self.groups, self.next_group_id)
            || !check_templates(&self.templates, self.next_template_id)
            || !check_email_history(&self.email_history, self.next_email_record_id)
            || !check_events(&self.events, self.next_event_id) {
            return false;
        }
        self.check_links()
    }

    fn check_links(&self) -> (r: bool)
        requires
            recipients_ok(self.recipients@, self.next_recipient_id),
            groups_ok(self.groups@, self.next_group_id),
            templates_ok(self.templates@, self.next_template_id),
            email_history_ok(self.email_history@, self.next_email_record_id),
            events_ok(self.events@, self.next_event_id),
        ensures
            r == self.wf(),
    {
        let n = self.group_recipients.len();
        let mut i: usize = 0;
        while i < n
            invariant
                n == self.group_recipients@.len(),
                i <= n,
                forall|a: int, b: int| 0 <= a < i && 0 <= b < n && a != b ==> #[trigger] self.group_recipients@[a] != #[trigger] self.group_recipients@[b],
                forall|a: int| 0 <= a < i ==> has_group(self.groups@, (#[trigger] self.group_recipients@[a]).group_id)
                    && has_recipient(self.recipients@, self.group_recipients@[a].recipient_id),
            decreases n - i,
        {
            let l = self.group_recipients[i];
            if self.group_index(l.group_id).is_none() || self.recipient_index(l.recipient_id).is_none() {
                return false;
            }
            let mut j: usize = 0;
            while j < n
                invariant
                    n == self.group_recipients@.len(),
                    i < n,
                    j <= n,
                    l == self.group_recipients@[i as int],
                    forall|b: int| 0 <= b < j && b != i ==> self.group_recipients@[i as int] != #[trigger] self.group_recipients@[b],
                decreases n - j,
            {
                let m = self.group_recipients[j];
                if j != i && m.group_id == l.group_id && m.recipient_id == l.recipient_id {
                    return false;
                }
                j = j + 1;
            }
            i = i + 1;
        }
        let n = self.email_history_recipients.len();
        let mut i: usize = 0;
        while i < n
            invariant
                n == self.email_history_recipients@.len(),
                i <= n,
                forall|a: int, b: int| 0 <= a < i && 0 <= b < n && a != b ==> #[trigger] self.email_history_recipients@[a] != #[trigger] self.email_history_recipients@[b],
                forall|a: int| 0 <= a < i ==> has_email_record(self.email_history@, (#[trigger] self.email_history_recipients@[a]).email_history_id)
                    && has_recipient(self.recipients@, self.email_history_recipients@[a].recipient_id),
            decreases n - i,
        {
            let l = self.email_history_recipients[i];
            if self.email_record_index(l.email_history_id).is_none() || self.recipient_index(l.recipient_id).is_none() {
                return false;
            }
            let mut j: usize = 0;
            while j < n
                invariant
                    n == self.email_history_recipients@.len(),
                    i < n,
                    j <= n,
                    l == self.email_history_recipients@[i as int],
                    forall|b: int| 0 <= b < j && b != i ==> self.email_history_recipients@[i as int] != #[trigger] self.email_history_recipients@[b],
                decreases n - j,
            {
                let m = self.email_history_recipients[j];
                if j != i && m.email_history_id == l.email_history_id && m.recipient_id == l.recipient_id {
                    return false;
                }
                j = j + 1;
            }
            i = i + 1;
        }
        if self.next_attendee_id < 1 {
            return false;
        }
        let n = self.event_attendees.len();
        let mut i: usize = 0;
        while i < n
            invariant
                n == self.event_attendees@.len(),
                i <= n,
                forall|a: int, b: int| 0 <= a < i && 0 <= b < n && a != b ==> (#[trigger] self.event_attendees@[a]).id != (#[trigger] self.event_attendees@[b]).id,
                forall|a: int| 0 <= a < i ==> 0 < (#[trigger] self.event_attendees@[a]).id < self.next_attendee_id
                    && has_event(self.events@, self.event_attendees@[a].event_id)
                    && has_recipient(self.recipients@, self.event_attendees@[a].recipient_id),
            decreases n - i,
        {
            let l = self.event_attendees[i];
            if !(0 < l.id && l.id < self.next_attendee_id) || self.event_index(l.event_id).is_none()
                || self.recipient_index(l.recipient_id).is_none() {
                return false;
            }
            let mut j: usize = 0;
            while j < n
                invariant
                    n == self.event_attendees@.len(),
                    i < n,
                    j <= n,
                    l == self.event_attendees@[i as int],
                    forall|b: int| 0 <= b < j && b != i ==> self.event_attendees@[i as int].id != (#[trigger] self.event_attendees@[b]).id,
                decreases n - j,
            {
                if j != i && self.event_attendees[j].id == l.id {
                    return false;
                }
                j = j + 1;
            }
            i = i + 1;
        }
        true
    }
}

} // verus!
