use std::collections::HashMap;

use vstd::prelude::*;

use crate::config::{opt_text, Config};
use crate::database::{has_email_record, has_event, has_group, has_recipient, Database, Table};
use crate::error::{new_rmcp_error, ErrorKind, MailerError};
use crate::mailer::{MailboxAddress, Mailer, OutgoingEmail};
use crate::model::{EmailRecord, Event, EventAttendee, Group, InvitationType, Recipient, RecipientEmailRecord, RecipientGroup, RecipientStatus, Template};
use crate::request::{
    date_input_of, history_filters_ok, range_ok, read_date, time_range_ok, time_window,
    window_of, CreateEventRequest, GetEmailHistoryRequest, InvitationTarget, InvitationTemplate, ManageGroupsRequest,
    ManageRecipientsRequest, ManageTemplatesRequest, SendEmailRequest, SendEmailWithTemplateRequest,
    SendEventInvitationRequest, SendGroupEmailRequest,
};
use crate::template::rendered;
use crate::time::{now, Timestamp};

verus! {

/// The link of message `record_id` to recipient `recipient_id`.
pub open spec fn link_for(record_id: i32, recipient_id: i32) -> RecipientEmailRecord {
    RecipientEmailRecord { email_history_id: record_id, recipient_id }
}

/// The links of message `record_id` to the recipients `ids`, each recipient
/// once, in the order of first appearance.
pub open spec fn links_for(record_id: i32, ids: Seq<i32>) -> Seq<RecipientEmailRecord>
    decreases ids.len(),
{
    if ids.len() == 0 {
        Seq::empty()
    } else {
        let prev = links_for(record_id, ids.drop_last());
        if ids.drop_last().contains(ids.last()) {
            prev
        } else {
            prev.push(link_for(record_id, ids.last()))
        }
    }
}

pub proof fn lemma_links_for_contains(record_id: i32, ids: Seq<i32>, l: RecipientEmailRecord)
    requires
        links_for(record_id, ids).contains(l),
    ensures
        l.email_history_id == record_id && ids.contains(l.recipient_id),
    decreases ids.len(),
{
    if ids.len() > 0 {
        let prev = links_for(record_id, ids.drop_last());
        if prev.contains(l) {
            lemma_links_for_contains(record_id, ids.drop_last(), l);
            let k = choose|k: int| 0 <= k < ids.drop_last().len() && ids.drop_last()[k] == l.recipient_id;
            assert(ids[k] == l.recipient_id);
        } else {
            assert(l == link_for(record_id, ids.last()));
            assert(ids[ids.len() - 1] == l.recipient_id);
        }
    }
}

/// The attendee rows that inviting `ids` with `types` to `event_id` adds,
/// numbered from `first_id`.
pub open spec fn attendee_rows(first_id: i32, event_id: i32, ids: Seq<i32>, types: Seq<InvitationType>) -> Seq<EventAttendee> {
    Seq::new(ids.len(), |i: int| EventAttendee {
        id: (first_id + i) as i32,
        event_id,
        recipient_id: ids[i],
        invitation_type: types[i],
    })
}

/// What persisting a delivered message wrote: its history row and the
/// recipients it reached, one identifier per envelope address.
#[derive(Debug)]
pub struct DeliveryRecord {
    pub record: EmailRecord,
    pub recipient_ids: Vec<i32>,
}

/// The service: a mailer and the store it keeps in step with what was sent.
#[derive(Debug)]
pub struct MailerService {
    pub mailer: Mailer,
    pub db: Database,
}

fn contains_before(v: &Vec<i32>, n: usize, x: i32) -> (r: bool)
    requires
        n <= v@.len(),
    ensures
        r == v@.subrange(0, n as int).contains(x),
{
    let mut i: usize = 0;
    while i < n
        invariant
            n <= v@.len(),
            i <= n,
            forall|j: int| 0 <= j < i ==> v@[j] != x,
        decreases n - i,
    {
        if v[i] == x {
            assert(v@.subrange(0, n as int)[i as int] == x);
            return true;
        }
        i = i + 1;
    }
    false
}

impl MailerService {
    pub open spec fn wf(self) -> bool {
        self.db.wf()
    }

    /// A service for `config`, with an empty store.
    pub fn new(config: Config) -> (r: Self)
        ensures
            r.wf(),
            r.mailer.config == config.mailer_config,
            r.db.db_path@ == config.db_config.db_path@,
            r.db.recipients@.len() == 0 && r.db.groups@.len() == 0 && r.db.templates@.len() == 0,
            r.db.email_history@.len() == 0 && r.db.events@.len() == 0,
    {
        MailerService { mailer: Mailer::new(config.mailer_config), db: Database::new(config.db_config) }
    }

    /// Looks up or creates a recipient for each envelope address, in order;
    /// a new recipient is named after the address's user part.
    pub fn save_recipient_record(&mut self, envelope: &Vec<MailboxAddress>) -> (r: Result<Vec<i32>, MailerError>)
        requires
            old(self).wf(),
        ensures
            final(self).wf(),
            final(self).mailer == old(self).mailer,
            old(self).db.next_recipient_id + envelope@.len() <= i32::MAX ==> r is Ok,
            r is Err ==> r->Err_0.kind == ErrorKind::StoreError,
            final(self).db.unchanged_but(old(self).db, Table::Recipients),
            upserts_only(old(self).db.recipients@, final(self).db.recipients@, envelope@, envelope@.len() as int),
            r is Ok ==> r->Ok_0@.len() == envelope@.len(),
            r is Ok ==> forall|i: int| 0 <= i < envelope@.len() ==> #[trigger] resolves_to(final(self).db, r->Ok_0@[i], envelope@[i].address@),
            r is Ok ==> reuses_rows(old(self).db.recipients@, envelope@, r->Ok_0@, envelope@.len() as int),
    {
        let ghost start = self.db;
        let mut ids: Vec<i32> = Vec::new();
        let mut i: usize = 0;
        while i < envelope.len()
            invariant
                self.db.wf(),
                self.mailer == old(self).mailer,
                start == old(self).db,
                i <= envelope@.len(),
                ids@.len() == i,
                self.db.next_recipient_id <= start.next_recipient_id + i,
                self.db.unchanged_but(start, Table::Recipients),
                upserts_only(start.recipients@, self.db.recipients@, envelope@, i as int),
                forall|j: int| 0 <= j < i ==> #[trigger] resolves_to(self.db, ids@[j], envelope@[j].address@),
                reuses_rows(start.recipients@, envelope@, ids@, i as int),
            decreases envelope@.len() - i,
        {
            let ghost mid = self.db;
            let id = match self.db.upsert_recipient(envelope[i].user.clone(), envelope[i].address.clone()) {
                Ok(id) => id,
                Err(e) => {
                    return Err(e);
                },
            };
            proof {
                assert forall|j: int| 0 <= j < i implies #[trigger] resolves_to(self.db, ids@[j], envelope@[j].address@) by {
                    assert(resolves_to(mid, ids@[j], envelope@[j].address@));
                    let k = choose|k: int| 0 <= k < mid.recipients@.len()
                        && (#[trigger] mid.recipients@[k]).id == ids@[j]
                        && mid.recipients@[k].email@ == envelope@[j].address@;
                    assert(self.db.recipients@[k] == mid.recipients@[k]);
                }
                let before = start.recipients@;
                let m = envelope@[i as int];
                if mid.email_taken(m.address@) {
                    assert(self.db == mid);
                } else {
                    assert(!holds_address(before, m.address@)) by {
                        if holds_address(before, m.address@) {
                            let k = choose|k: int| 0 <= k < before.len() && (#[trigger] before[k]).email@ == m.address@;
                            assert(mid.recipients@[k] == before[k]);
                        }
                    }
                    let last = self.db.recipients@.len() - 1;
                    assert(created_for(before, self.db.recipients@[last], envelope@[i as int]));
                }
                assert forall|k: int| before.len() <= k < self.db.recipients@.len() implies comes_from(before, #[trigger] self.db.recipients@[k], envelope@, i + 1) by {
                    if k < mid.recipients@.len() {
                        assert(self.db.recipients@[k] == mid.recipients@[k]);
                        let j = choose|j: int| 0 <= j < i && #[trigger] created_for(before, mid.recipients@[k], envelope@[j]);
                        assert(comes_from(before, mid.recipients@[k], envelope@, i as int));
                        assert(created_for(before, self.db.recipients@[k], envelope@[j]));
                    } else {
                        assert(created_for(before, self.db.recipients@[k], envelope@[i as int]));
                    }
                }
                if holds_address(before, m.address@) {
                    let k0 = choose|k: int| 0 <= k < before.len() && (#[trigger] before[k]).email@ == m.address@;
                    assert(mid.recipients@[k0] == before[k0]);
                    assert(self.db == mid);
                    let k = choose|k: int| 0 <= k < self.db.recipients@.len() && (#[trigger] self.db.recipients@[k]).id == id
                        && self.db.recipients@[k].email@ == m.address@;
                    assert(k == k0);
                }
            }
            ids.push(id);
            proof {
                assert forall|j: int| 0 <= j < i + 1 && #[trigger] holds_address(start.recipients@, envelope@[j].address@) implies exists|k: int|
                    0 <= k < start.recipients@.len() && (#[trigger] start.recipients@[k]).id == ids@[j] && start.recipients@[k].email@ == envelope@[j].address@ by {
                    if j < i {
                        assert(reuses_rows(start.recipients@, envelope@, ids@.drop_last(), i as int));
                        assert(ids@.drop_last()[j] == ids@[j]);
                    }
                }
            }
            i = i + 1;
        }
        Ok(ids)
    }

    /// Records a sent message and links it once to each recipient in
    /// `recipient_ids`.
    pub fn save_email_record_with_recipient_ids(&mut self, email_subject: String, email_body: String, recipient_ids: &Vec<i32>) -> (r: Result<EmailRecord, MailerError>)
        requires
            old(self).wf(),
            forall|i: int| 0 <= i < recipient_ids@.len() ==> has_recipient(old(self).db.recipients@, #[trigger] recipient_ids@[i]),
        ensures
            final(self).wf(),
            final(self).mailer == old(self).mailer,
            r is Ok <==> old(self).db.next_email_record_id < i32::MAX,
            r is Err ==> final(self).db == old(self).db && r->Err_0.kind == ErrorKind::StoreError,
            r is Ok ==> {
                &&& r->Ok_0.id == old(self).db.next_email_record_id
                &&& r->Ok_0.subject@ == email_subject@ && r->Ok_0.body@ == email_body@
                &&& final(self).db.email_history@ == old(self).db.email_history@.push(r->Ok_0)
                &&& final(self).db.email_history_recipients@ == old(self).db.email_history_recipients@ + links_for(r->Ok_0.id, recipient_ids@)
                &&& final(self).db.unchanged_outside(old(self).db, Table::EmailHistory, Table::EmailHistoryRecipients, Table::EmailHistoryRecipients)
            },
    {
        let ghost start = self.db;
        let record = match self.db.add_email_record(email_subject, email_body) {
            Ok(rec) => rec,
            Err(e) => {
                return Err(e);
            },
        };
        let ghost after_record = self.db;
        proof {
            assert(self.db.agrees_on(start, Table::EmailHistoryRecipients));
            assert(links_for(record.id, recipient_ids@.subrange(0, 0)) =~= Seq::<RecipientEmailRecord>::empty());
            assert(self.db.email_history_recipients@ =~= start.email_history_recipients@ + links_for(record.id, recipient_ids@.subrange(0, 0)));
            assert(has_email_record(self.db.email_history@, record.id)) by {
                assert(self.db.email_history@[start.email_history@.len() as int] == record);
            }
        }
        let mut i: usize = 0;
        while i < recipient_ids.len()
            invariant
                self.db.wf(),
                start.wf(),
                self.mailer == old(self).mailer,
                start == old(self).db,
                record.id == start.next_email_record_id,
                has_email_record(self.db.email_history@, record.id),
                i <= recipient_ids@.len(),
                self.db.email_history@ == after_record.email_history@,
                after_record.email_history@ == start.email_history@.push(record),
                self.db.email_history_recipients@ == start.email_history_recipients@ + links_for(record.id, recipient_ids@.subrange(0, i as int)),
                self.db.unchanged_outside(start, Table::EmailHistory, Table::EmailHistoryRecipients, Table::EmailHistoryRecipients),
                self.db.next_email_record_id == after_record.next_email_record_id,
                forall|j: int| 0 <= j < recipient_ids@.len() ==> has_recipient(start.recipients@, #[trigger] recipient_ids@[j]),
                email_history_ok_below(start, record.id),
            decreases recipient_ids@.len() - i,
        {
            let rid = recipient_ids[i];
            let ghost prefix = recipient_ids@.subrange(0, i as int);
            proof {
                assert(recipient_ids@.subrange(0, i + 1).drop_last() =~= prefix);
                assert(recipient_ids@.subrange(0, i + 1).last() == rid);
                assert(self.db.agrees_on(start, Table::Recipients));
                assert(has_recipient(start.recipients@, recipient_ids@[i as int]));
            }
            if !contains_before(recipient_ids, i, rid) {
                let ghost mid = self.db;
                proof {
                    let link = link_for(record.id, rid);
                    if self.db.email_history_recipients@.contains(link) {
                        let m = choose|m: int| 0 <= m < self.db.email_history_recipients@.len() && self.db.email_history_recipients@[m] == link;
                        if m < start.email_history_recipients@.len() {
                            assert(start.email_history_recipients@[m] == link);
                            assert(has_email_record(start.email_history@, record.id));
                            let q = choose|q: int| 0 <= q < start.email_history@.len() && (#[trigger] start.email_history@[q]).id == record.id;
                            assert(start.email_history@[q].id < start.next_email_record_id);
                        } else {
                            let n = m - start.email_history_recipients@.len();
                            assert(links_for(record.id, prefix)[n] == link);
                            lemma_links_for_contains(record.id, prefix, link);
                        }
                    }
                }
                match self.db.add_recipient_email_record(record.id, rid) {
                    Ok(()) => {},
                    Err(e) => {
                        return Err(e);
                    },
                }
                proof {
                    assert(self.db.agrees_on(mid, Table::EmailHistory));
                    assert(self.db.email_history_recipients@ =~= start.email_history_recipients@ + links_for(record.id, recipient_ids@.subrange(0, i + 1)));
                }
            }
            i = i + 1;
        }
        proof {
            assert(recipient_ids@.subrange(0, i as int) =~= recipient_ids@);
        }
        Ok(record)
    }

    /// Invites each of `recipient_ids` to event `event_id`, with the
    /// matching entry of `invitation_types`.
    pub fn save_event_attendee(&mut self, event_id: i32, recipient_ids: &Vec<i32>, invitation_types: &Vec<InvitationType>) -> (r: Result<Vec<EventAttendee>, MailerError>)
        requires
            old(self).wf(),
            has_event(old(self).db.events@, event_id),
            recipient_ids@.len() == invitation_types@.len(),
            forall|i: int| 0 <= i < recipient_ids@.len() ==> has_recipient(old(self).db.recipients@, #[trigger] recipient_ids@[i]),
        ensures
            final(self).wf(),
            final(self).mailer == old(self).mailer,
            r is Ok <==> old(self).db.next_attendee_id + recipient_ids@.len() <= i32::MAX,
            r is Err ==> r->Err_0.kind == ErrorKind::StoreError,
            final(self).db.unchanged_but(old(self).db, Table::EventAttendees),
            r is Ok ==> {
                &&& r->Ok_0@ == attendee_rows(old(self).db.next_attendee_id, event_id, recipient_ids@, invitation_types@)
                &&& final(self).db.event_attendees@ == old(self).db.event_attendees@ + r->Ok_0@
                &&& final(self).db.next_attendee_id == old(self).db.next_attendee_id + recipient_ids@.len()
            },
    {
        let ghost start = self.db;
        let mut rows: Vec<EventAttendee> = Vec::new();
        let mut i: usize = 0;
        while i < recipient_ids.len()
            invariant
                self.db.wf(),
                self.mailer == old(self).mailer,
                start == old(self).db,
                has_event(start.events@, event_id),
                recipient_ids@.len() == invitation_types@.len(),
                forall|j: int| 0 <= j < recipient_ids@.len() ==> has_recipient(start.recipients@, #[trigger] recipient_ids@[j]),
                i <= recipient_ids@.len(),
                self.db.unchanged_but(start, Table::EventAttendees),
                rows@ == attendee_rows(start.next_attendee_id, event_id, recipient_ids@.subrange(0, i as int), invitation_types@.subrange(0, i as int)),
                self.db.event_attendees@ == start.event_attendees@ + rows@,
                self.db.next_attendee_id == start.next_attendee_id + i,
            decreases recipient_ids@.len() - i,
        {
            let ghost mid = self.db;
            proof {
                assert(self.db.agrees_on(start, Table::Events));
                assert(self.db.agrees_on(start, Table::Recipients));
                assert(has_recipient(start.recipients@, recipient_ids@[i as int]));
            }
            let row = match self.db.add_event_attendee(event_id, recipient_ids[i], invitation_types[i]) {
                Ok(row) => row,
                Err(e) => {
                    return Err(e);
                },
            };
            rows.push(row);
            proof {
                assert(rows@ =~= attendee_rows(start.next_attendee_id, event_id, recipient_ids@.subrange(0, i + 1), invitation_types@.subrange(0, i + 1)));
                assert(self.db.event_attendees@ =~= start.event_attendees@ + rows@);
            }
            i = i + 1;
        }
        proof {
            assert(recipient_ids@.subrange(0, i as int) =~= recipient_ids@);
            assert(invitation_types@.subrange(0, i as int) =~= invitation_types@);
        }
        Ok(rows)
    }
}

/// The e-mail addresses of `rs`, in order.
pub open spec fn emails_of(rs: Seq<Recipient>) -> Seq<Seq<char>> {
    rs.map_values(|r: Recipient| r.email@)
}

/// The invitees that the group targets of an invitation stand for: the
/// active members of each group that exists, with the target's flag.
pub open spec fn group_invitees(db: Database, groups: Seq<InvitationTarget>) -> Seq<(Seq<char>, bool)>
    decreases groups.len(),
{
    if groups.len() == 0 {
        Seq::empty()
    } else {
        let prev = group_invitees(db, groups.drop_last());
        let t = groups.last();
        match db.group_named(t.party@) {
            Some(g) => prev + db.group_members(g.id).map_values(|r: Recipient| (r.email@, t.is_required)),
            None => prev,
        }
    }
}

/// The individual targets of an invitation with their flags.
pub open spec fn individual_invitees(individuals: Seq<InvitationTarget>) -> Seq<(Seq<char>, bool)> {
    individuals.map_values(|t: InvitationTarget| (t.party@, t.is_required))
}

/// The invitation type that an `is_required` flag stands for.
pub open spec fn invitation_type_of(required: bool) -> InvitationType {
    if required { InvitationType::Required } else { InvitationType::Optional }
}

fn clone_opt(o: &Option<String>) -> (r: Option<String>)
    ensures
        r == *o,
{
    match o {
        Some(s) => Some(s.clone()),
        None => None,
    }
}

impl MailerService {
    /// Persists a delivered message: a recipient for each envelope address
    /// (looked up, or created under the address's user part), one history
    /// row, and one link from it to each distinct recipient.
    pub fn record_delivery(&mut self, sent: &OutgoingEmail) -> (r: Result<DeliveryRecord, MailerError>)
        requires
            old(self).wf(),
        ensures
            final(self).wf(),
            final(self).mailer == old(self).mailer,
            old(self).db.next_recipient_id + sent.envelope@.len() <= i32::MAX
                && old(self).db.next_email_record_id < i32::MAX ==> r is Ok,
            upserts_only(old(self).db.recipients@, final(self).db.recipients@, sent.envelope@, sent.envelope@.len() as int),
            r is Err ==> r->Err_0.kind == ErrorKind::StoreError,
            final(self).db.unchanged_outside(old(self).db, Table::Recipients, Table::EmailHistory, Table::EmailHistoryRecipients),
            r is Ok ==> {
                let d = r->Ok_0;
                &&& d.recipient_ids@.len() == sent.envelope@.len()
                &&& forall|i: int| 0 <= i < sent.envelope@.len() ==> #[trigger] resolves_to(final(self).db, d.recipient_ids@[i], sent.envelope@[i].address@)
                &&& d.record.subject@ == sent.subject@ && d.record.body@ == sent.body@
                &&& d.record.id == old(self).db.next_email_record_id
                &&& reuses_rows(old(self).db.recipients@, sent.envelope@, d.recipient_ids@, sent.envelope@.len() as int)
                &&& final(self).db.email_history@ == old(self).db.email_history@.push(d.record)
                &&& final(self).db.email_history_recipients@ == old(self).db.email_history_recipients@ + links_for(d.record.id, d.recipient_ids@)
            },
    {
        let ghost start = self.db;
        let ids = self.save_recipient_record(&sent.envelope)?;
        let ghost mid = self.db;
        proof {
            assert forall|i: int| 0 <= i < ids@.len() implies has_recipient(self.db.recipients@, #[trigger] ids@[i]) by {
                assert(resolves_to(self.db, ids@[i], sent.envelope@[i].address@));
            }
            assert(self.db.agrees_on(start, Table::EmailHistory));
            assert(self.db.agrees_on(start, Table::EmailHistoryRecipients));
        }
        let record = self.save_email_record_with_recipient_ids(sent.subject.clone(), sent.body.clone(), &ids)?;
        proof {
            assert(self.db.agrees_on(mid, Table::Recipients));
            assert forall|i: int| 0 <= i < sent.envelope@.len() implies #[trigger] resolves_to(self.db, ids@[i], sent.envelope@[i].address@) by {
                assert(resolves_to(mid, ids@[i], sent.envelope@[i].address@));
            }
        }
        Ok(DeliveryRecord { record, recipient_ids: ids })
    }

    /// Persists a delivered invitation: as `record_delivery`, then one
    /// attendee per envelope address, required or optional as the matching
    /// entry of `required` says.
    pub fn record_invitation(&mut self, event_id: i32, sent: &OutgoingEmail, required: &Vec<bool>) -> (r: Result<(DeliveryRecord, Vec<EventAttendee>), MailerError>)
        requires
            old(self).wf(),
            has_event(old(self).db.events@, event_id),
            sent.envelope@.len() == required@.len(),
        ensures
            final(self).wf(),
            final(self).mailer == old(self).mailer,
            old(self).db.next_recipient_id + sent.envelope@.len() <= i32::MAX
                && old(self).db.next_email_record_id < i32::MAX
                && old(self).db.next_attendee_id + sent.envelope@.len() <= i32::MAX ==> r is Ok,
            upserts_only(old(self).db.recipients@, final(self).db.recipients@, sent.envelope@, sent.envelope@.len() as int),
            r is Err ==> r->Err_0.kind == ErrorKind::StoreError,
            r is Ok ==> {
                let d = (r->Ok_0).0;
                &&& d.recipient_ids@.len() == sent.envelope@.len()
                &&& forall|i: int| 0 <= i < sent.envelope@.len() ==> #[trigger] resolves_to(final(self).db, d.recipient_ids@[i], sent.envelope@[i].address@)
                &&& reuses_rows(old(self).db.recipients@, sent.envelope@, d.recipient_ids@, sent.envelope@.len() as int)
                &&& final(self).db.email_history@ == old(self).db.email_history@.push(d.record)
                &&& d.record.subject@ == sent.subject@ && d.record.body@ == sent.body@
                &&& final(self).db.email_history_recipients@ == old(self).db.email_history_recipients@ + links_for(d.record.id, d.recipient_ids@)
                &&& (r->Ok_0).1@ == attendee_rows(old(self).db.next_attendee_id, event_id, d.recipient_ids@, required@.map_values(|b: bool| invitation_type_of(b)))
                &&& final(self).db.event_attendees@ == old(self).db.event_attendees@ + (r->Ok_0).1@
            },
    {
        let ghost start = self.db;
        let delivery = self.record_delivery(sent)?;
        let ghost mid = self.db;
        let mut types: Vec<InvitationType> = Vec::new();
        let mut i: usize = 0;
        while i < required.len()
            invariant
                i <= required@.len(),
                types@ == required@.subrange(0, i as int).map_values(|b: bool| invitation_type_of(b)),
            decreases required@.len() - i,
        {
            types.push(if required[i] { InvitationType::Required } else { InvitationType::Optional });
            i = i + 1;
            assert(types@ =~= required@.subrange(0, i as int).map_values(|b: bool| invitation_type_of(b)));
        }
        assert(required@.subrange(0, i as int) =~= required@);
        proof {
            assert(self.db.agrees_on(start, Table::Events));
            assert(self.db.agrees_on(start, Table::EventAttendees));
            assert forall|i: int| 0 <= i < delivery.recipient_ids@.len() implies has_recipient(self.db.recipients@, #[trigger] delivery.recipient_ids@[i]) by {
                assert(resolves_to(self.db, delivery.recipient_ids@[i], sent.envelope@[i].address@));
            }
        }
        let attendees = self.save_event_attendee(event_id, &delivery.recipient_ids, &types)?;
        proof {
            assert(self.db.agrees_on(mid, Table::Recipients));
            assert(self.db.agrees_on(mid, Table::EmailHistory));
            assert(self.db.agrees_on(mid, Table::EmailHistoryRecipients));
            assert forall|i: int| 0 <= i < sent.envelope@.len() implies #[trigger] resolves_to(self.db, delivery.recipient_ids@[i], sent.envelope@[i].address@) by {
                assert(resolves_to(mid, delivery.recipient_ids@[i], sent.envelope@[i].address@));
            }
        }
        Ok((delivery, attendees))
    }

    /// The request that sends `email_request` to the active members of its
    /// group. Fails with `NotFound` when there is no such group.
    pub fn group_email_request(&self, email_request: SendGroupEmailRequest) -> (r: Result<SendEmailRequest, MailerError>)
        requires
            self.wf(),
        ensures
            r is Ok <==> self.db.group_named(email_request.group_name@) is Some,
            r is Err ==> r->Err_0.kind == ErrorKind::NotFound,
            r is Ok ==> {
                let members = self.db.group_members(self.db.group_named(email_request.group_name@)->0.id);
                &&& r->Ok_0.to@.map_values(|s: String| s@) == emails_of(members)
                &&& r->Ok_0.from == email_request.from
                &&& r->Ok_0.reply_to == email_request.reply_to
                &&& r->Ok_0.subject == email_request.subject
                &&& r->Ok_0.body == email_request.body
            },
    {
        let group = match self.db.find_group_by_name(email_request.group_name) {
            Ok(g) => g,
            Err(_) => {
                return Err(MailerError::new(ErrorKind::NotFound, "Group not found"));
            },
        };
        let recipients = self.db.find_recipients_by_group_id(group.id)?;
        let mut to: Vec<String> = Vec::new();
        let mut i: usize = 0;
        while i < recipients.len()
            invariant
                i <= recipients@.len(),
                to@.len() == i,
                forall|j: int| 0 <= j < i ==> (#[trigger] to@[j])@ == recipients@[j].email@,
            decreases recipients@.len() - i,
        {
            to.push(recipients[i].email.clone());
            i = i + 1;
        }
        assert(to@.map_values(|s: String| s@) =~= emails_of(recipients@));
        Ok(SendEmailRequest {
            from: email_request.from,
            to,
            reply_to: email_request.reply_to,
            subject: email_request.subject,
            body: email_request.body,
        })
    }

    /// The request that sends the rendered template of `email_request`.
    /// Fails with `NotFound` when there is no such template and with
    /// `InvalidArgument` when rendering fails.
    pub fn template_email_request(&self, email_request: SendEmailWithTemplateRequest) -> (r: Result<SendEmailRequest, MailerError>)
        requires
            self.wf(),
        ensures
            self.db.template_named(email_request.template_name@) is None ==> r is Err && r->Err_0.kind == ErrorKind::NotFound,
            self.db.template_named(email_request.template_name@) matches Some(t) ==> {
                let out = rendered(t.format_string@, email_request.template_data.deep_view());
                &&& r is Ok <==> out is Ok
                &&& r is Err ==> r->Err_0.kind == ErrorKind::InvalidArgument
                &&& r is Err ==> r->Err_0.message@ == "RMCP error: "@ + ("Failed to render template: "@ + out->Err_0)
                &&& r is Ok ==> r->Ok_0.body@ == out->Ok_0
            },
            r is Ok ==> {
                &&& r->Ok_0.from == email_request.from
                &&& r->Ok_0.to == email_request.to
                &&& r->Ok_0.reply_to == email_request.reply_to
                &&& r->Ok_0.subject == email_request.subject
            },
    {
        let template = match self.db.find_template_by_name(email_request.template_name) {
            Ok(t) => t,
            Err(_) => {
                return Err(MailerError::new(ErrorKind::NotFound, "Template not found"));
            },
        };
        let body = match template.format(email_request.template_data) {
            Ok(b) => b,
            Err(e) => {
                return Err(new_rmcp_error(e.as_str()));
            },
        };
        Ok(SendEmailRequest {
            from: email_request.from,
            to: email_request.to,
            reply_to: email_request.reply_to,
            subject: email_request.subject,
            body,
        })
    }
}

impl MailerService {
    /// Adds, removes or renames a group, by name.
    pub fn manage_mail_group(&mut self, manage_group_request: ManageGroupsRequest) -> (r: Result<String, MailerError>)
        requires
            old(self).wf(),
        ensures
            final(self).wf(),
            final(self).mailer == old(self).mailer,
            r is Err ==> final(self).db == old(self).db,
            match manage_group_request {
                ManageGroupsRequest::Add(a) => {
                    &&& final(self).db.unchanged_but(old(self).db, Table::Groups)
                    &&& old(self).db.group_named(a.name@) is Some ==> r is Err && r->Err_0.kind == ErrorKind::Conflict
                    &&& old(self).db.group_named(a.name@) is None && old(self).db.next_group_id < i32::MAX ==> r is Ok
                    &&& r is Ok ==> final(self).db.groups@.len() == old(self).db.groups@.len() + 1
                        && final(self).db.groups@.last().name@ == a.name@
                        && final(self).db.groups@.drop_last() == old(self).db.groups@
                },
                ManageGroupsRequest::Remove(a) => {
                    &&& final(self).db.unchanged_outside(old(self).db, Table::Groups, Table::GroupRecipients, Table::GroupRecipients)
                    &&& final(self).db.next_group_id == old(self).db.next_group_id
                    &&& r is Ok <==> old(self).db.group_named(a.name@) is Some
                    &&& r is Err ==> r->Err_0.kind == ErrorKind::NotFound
                    &&& r is Ok ==> exists|k: int| 0 <= k < old(self).db.groups@.len()
                        && (#[trigger] old(self).db.groups@[k]) == old(self).db.group_named(a.name@)->0
                        && final(self).db.groups@ == old(self).db.groups@.remove(k)
                        && final(self).db.group_recipients@ == old(self).db.group_recipients@.filter(
                            |l: RecipientGroup| l.group_id != old(self).db.groups@[k].id)
                },
                ManageGroupsRequest::Update(u) => {
                    &&& final(self).db.unchanged_but(old(self).db, Table::Groups)
                    &&& final(self).db.next_group_id == old(self).db.next_group_id
                    &&& old(self).db.group_named(u.name@) is None ==> r is Err && r->Err_0.kind == ErrorKind::NotFound
                    &&& old(self).db.group_named(u.name@) is Some && (forall|i: int| 0 <= i < old(self).db.groups@.len()
                        && (#[trigger] old(self).db.groups@[i]).name@ == opt_text(u.new_name).unwrap_or(u.name@)
                        ==> old(self).db.groups@[i].id == old(self).db.group_named(u.name@)->0.id) ==> r is Ok
                    &&& r is Ok ==> exists|k: int| 0 <= k < old(self).db.groups@.len()
                        && (#[trigger] old(self).db.groups@[k]) == old(self).db.group_named(u.name@)->0
                        && final(self).db.groups@ == old(self).db.groups@.update(k, final(self).db.groups@[k])
                        && final(self).db.groups@[k].id == old(self).db.groups@[k].id
                        && final(self).db.groups@[k].name@ == opt_text(u.new_name).unwrap_or(u.name@)
                },
            },
    {
        match manage_group_request {
            ManageGroupsRequest::Add(add_request) => {
                self.db.new_group(add_request.name)?;
                Ok(String::from_str("Group added successfully!"))
            },
            ManageGroupsRequest::Remove(remove_request) => {
                let group = match self.db.find_group_by_name(remove_request.name) {
                    Ok(g) => g,
                    Err(_) => {
                        return Err(MailerError::new(ErrorKind::NotFound, "Group not found"));
                    },
                };
                self.db.remove_group(group.id)?;
                Ok(String::from_str("Group removed successfully!"))
            },
            ManageGroupsRequest::Update(update_request) => {
                let group = match self.db.find_group_by_name(update_request.name.clone()) {
                    Ok(g) => g,
                    Err(_) => {
                        return Err(MailerError::new(ErrorKind::NotFound, "Group not found"));
                    },
                };
                let new_name = match update_request.new_name {
                    Some(n) => n,
                    None => update_request.name,
                };
                self.db.update_group(group.id, new_name)?;
                Ok(String::from_str("Group updated successfully!"))
            },
        }
    }

    /// Adds a recipient, removes (deactivates) one, or changes its name or
    /// address; the last two find it by its active address.
    pub fn manage_recipient(&mut self, manage_recipient_request: ManageRecipientsRequest) -> (r: Result<String, MailerError>)
        requires
            old(self).wf(),
        ensures
            final(self).wf(),
            final(self).mailer == old(self).mailer,
            r is Err ==> final(self).db == old(self).db,
            match manage_recipient_request {
                ManageRecipientsRequest::Add(a) => {
                    &&& final(self).db.unchanged_but(old(self).db, Table::Recipients)
                    &&& old(self).db.email_taken(a.email@) ==> r is Err && r->Err_0.kind == ErrorKind::Conflict
                    &&& !old(self).db.email_taken(a.email@) && old(self).db.next_recipient_id < i32::MAX ==> r is Ok
                    &&& r is Ok ==> final(self).db.recipients@.len() == old(self).db.recipients@.len() + 1
                        && final(self).db.recipients@.last().name@ == a.name@
                        && final(self).db.recipients@.last().email@ == a.email@
                        && final(self).db.recipients@.last().status == RecipientStatus::Active
                        && final(self).db.recipients@.drop_last() == old(self).db.recipients@
                },
                ManageRecipientsRequest::Remove(a) => {
                    &&& final(self).db.unchanged_but(old(self).db, Table::Recipients)
                    &&& final(self).db.next_recipient_id == old(self).db.next_recipient_id
                    &&& r is Ok <==> old(self).db.active_recipient_with_email(a.email@) is Some
                    &&& r is Err ==> r->Err_0.kind == ErrorKind::NotFound
                    &&& r is Ok ==> exists|k: int| 0 <= k < old(self).db.recipients@.len()
                        && (#[trigger] old(self).db.recipients@[k]) == old(self).db.active_recipient_with_email(a.email@)->0
                        && final(self).db.recipients@ == old(self).db.recipients@.update(k,
                            Recipient { status: RecipientStatus::Inactive, ..old(self).db.recipients@[k] })
                },
                ManageRecipientsRequest::Update(u) => {
                    &&& final(self).db.unchanged_but(old(self).db, Table::Recipients)
                    &&& final(self).db.next_recipient_id == old(self).db.next_recipient_id
                    &&& old(self).db.active_recipient_with_email(u.email@) is None ==> r is Err && r->Err_0.kind == ErrorKind::NotFound
                    &&& old(self).db.active_recipient_with_email(u.email@) is Some && (forall|i: int| 0 <= i < old(self).db.recipients@.len()
                        && (#[trigger] old(self).db.recipients@[i]).email@ == opt_text(u.new_email).unwrap_or(u.email@)
                        ==> old(self).db.recipients@[i].id == old(self).db.active_recipient_with_email(u.email@)->0.id) ==> r is Ok
                    &&& r is Ok ==> exists|k: int| 0 <= k < old(self).db.recipients@.len()
                        && (#[trigger] old(self).db.recipients@[k]) == old(self).db.active_recipient_with_email(u.email@)->0
                        && final(self).db.recipients@ == old(self).db.recipients@.update(k, final(self).db.recipients@[k])
                        && final(self).db.recipients@[k].status == old(self).db.recipients@[k].status
                        && final(self).db.recipients@[k].id == old(self).db.recipients@[k].id
                        && final(self).db.recipients@[k].name@ == opt_text(u.new_name).unwrap_or(old(self).db.recipients@[k].name@)
                        && final(self).db.recipients@[k].email@ == opt_text(u.new_email).unwrap_or(u.email@)
                },
            },
    {
        match manage_recipient_request {
            ManageRecipientsRequest::Add(add_request) => {
                self.db.new_recipient(add_request.name, add_request.email)?;
                Ok(String::from_str("Recipient added successfully!"))
            },
            ManageRecipientsRequest::Remove(remove_request) => {
                let recipient = match self.db.find_recipient_by_email(remove_request.email) {
                    Ok(rc) => rc,
                    Err(_) => {
                        return Err(MailerError::new(ErrorKind::NotFound, "Recipient not found"));
                    },
                };
                self.db.remove_recipient(recipient.id)?;
                Ok(String::from_str("Recipient removed successfully!"))
            },
            ManageRecipientsRequest::Update(update_request) => {
                let recipient = match self.db.find_recipient_by_email(update_request.email) {
                    Ok(rc) => rc,
                    Err(_) => {
                        return Err(MailerError::new(ErrorKind::NotFound, "Recipient not found"));
                    },
                };
                let name = match update_request.new_name {
                    Some(n) => n,
                    None => recipient.name,
                };
                let email = match update_request.new_email {
                    Some(e) => e,
                    None => recipient.email,
                };
                self.db.update_recipient(recipient.id, name, email)?;
                Ok(String::from_str("Recipient updated successfully!"))
            },
        }
    }

    /// Adds the active recipient with address `email` to the group called
    /// `group_name`.
    pub fn add_recipient_to_group(&mut self, group_name: String, email: String) -> (r: Result<String, MailerError>)
        requires
            old(self).wf(),
        ensures
            final(self).wf(),
            final(self).mailer == old(self).mailer,
            r is Err ==> final(self).db == old(self).db,
            old(self).db.group_named(group_name@) is None ==> r is Err && r->Err_0.kind == ErrorKind::NotFound,
            old(self).db.active_recipient_with_email(email@) is None ==> r is Err && r->Err_0.kind == ErrorKind::NotFound,
            r is Ok ==> final(self).db.group_recipients@ == old(self).db.group_recipients@.push(RecipientGroup {
                group_id: old(self).db.group_named(group_name@)->0.id,
                recipient_id: old(self).db.active_recipient_with_email(email@)->0.id,
            }),
            old(self).db.group_named(group_name@) is Some && old(self).db.active_recipient_with_email(email@) is Some
                && !old(self).db.group_recipients@.contains(RecipientGroup {
                    group_id: old(self).db.group_named(group_name@)->0.id,
                    recipient_id: old(self).db.active_recipient_with_email(email@)->0.id,
                }) ==> r is Ok,
    {
        let group = match self.db.find_group_by_name(group_name) {
            Ok(g) => g,
            Err(_) => {
                return Err(MailerError::new(ErrorKind::NotFound, "Group not found"));
            },
        };
        let recipient = match self.db.find_recipient_by_email(email) {
            Ok(rc) => rc,
            Err(_) => {
                return Err(MailerError::new(ErrorKind::NotFound, "Recipient not found"));
            },
        };
        proof {
            assert(has_group(self.db.groups@, group.id)) by {
                let i = choose|i: int| 0 <= i < self.db.groups@.len() && (#[trigger] self.db.groups@[i]).name@ == group_name@;
                assert(self.db.groups@[i] == group);
            }
            assert(has_recipient(self.db.recipients@, recipient.id)) by {
                let i = choose|i: int| 0 <= i < self.db.recipients@.len() && (#[trigger] self.db.recipients@[i]).email@ == email@ && self.db.recipients@[i].is_active();
                assert(self.db.recipients@[i] == recipient);
            }
        }
        self.db.add_recipient_to_group(group.id, recipient.id)?;
        Ok(String::from_str("Recipient added to group successfully!"))
    }

    /// Adds, removes or changes a template, by name.
    pub fn manage_email_template(&mut self, manage_template_request: ManageTemplatesRequest) -> (r: Result<String, MailerError>)
        requires
            old(self).wf(),
        ensures
            final(self).wf(),
            final(self).mailer == old(self).mailer,
            r is Err ==> final(self).db == old(self).db,
            match manage_template_request {
                ManageTemplatesRequest::Add(a) => {
                    &&& final(self).db.unchanged_but(old(self).db, Table::Templates)
                    &&& old(self).db.template_named(a.name@) is Some ==> r is Err && r->Err_0.kind == ErrorKind::Conflict
                    &&& old(self).db.template_named(a.name@) is None && old(self).db.next_template_id < i32::MAX ==> r is Ok
                    &&& r is Ok ==> final(self).db.templates@.len() == old(self).db.templates@.len() + 1
                        && final(self).db.templates@.last().name@ == a.name@
                        && final(self).db.templates@.last().format_string@ == a.format_string@
                        && final(self).db.templates@.drop_last() == old(self).db.templates@
                },
                ManageTemplatesRequest::Remove(a) => {
                    &&& final(self).db.unchanged_but(old(self).db, Table::Templates)
                    &&& final(self).db.next_template_id == old(self).db.next_template_id
                    &&& r is Ok <==> old(self).db.template_named(a.name@) is Some
                    &&& r is Err ==> r->Err_0.kind == ErrorKind::NotFound
                    &&& r is Ok ==> exists|k: int| 0 <= k < old(self).db.templates@.len()
                        && (#[trigger] old(self).db.templates@[k]) == old(self).db.template_named(a.name@)->0
                        && final(self).db.templates@ == old(self).db.templates@.remove(k)
                },
                ManageTemplatesRequest::Update(u) => {
                    &&& final(self).db.unchanged_but(old(self).db, Table::Templates)
                    &&& final(self).db.next_template_id == old(self).db.next_template_id
                    &&& old(self).db.template_named(u.name@) is None ==> r is Err && r->Err_0.kind == ErrorKind::NotFound
                    &&& old(self).db.template_named(u.name@) is Some && (forall|i: int| 0 <= i < old(self).db.templates@.len()
                        && (#[trigger] old(self).db.templates@[i]).name@ == opt_text(u.new_name).unwrap_or(u.name@)
                        ==> old(self).db.templates@[i].id == old(self).db.template_named(u.name@)->0.id) ==> r is Ok
                    &&& r is Ok ==> exists|k: int| 0 <= k < old(self).db.templates@.len()
                        && (#[trigger] old(self).db.templates@[k]) == old(self).db.template_named(u.name@)->0
                        && final(self).db.templates@ == old(self).db.templates@.update(k, final(self).db.templates@[k])
                        && final(self).db.templates@[k].id == old(self).db.templates@[k].id
                        && final(self).db.templates@[k].name@ == opt_text(u.new_name).unwrap_or(u.name@)
                        && final(self).db.templates@[k].format_string@
                            == opt_text(u.new_format_string).unwrap_or(old(self).db.templates@[k].format_string@)
                },
            },
    {
        match manage_template_request {
            ManageTemplatesRequest::Add(add_request) => {
                self.db.new_template(add_request.name, add_request.format_string)?;
                Ok(String::from_str("Email template added successfully!"))
            },
            ManageTemplatesRequest::Remove(remove_request) => {
                let template = match self.db.find_template_by_name(remove_request.name) {
                    Ok(t) => t,
                    Err(_) => {
                        return Err(MailerError::new(ErrorKind::NotFound, "Template not found"));
                    },
                };
                self.db.remove_template(template.id)?;
                Ok(String::from_str("Email template removed successfully!"))
            },
            ManageTemplatesRequest::Update(update_request) => {
                let template = match self.db.find_template_by_name(update_request.name.clone()) {
                    Ok(t) => t,
                    Err(_) => {
                        return Err(MailerError::new(ErrorKind::NotFound, "Template not found"));
                    },
                };
                let name = match update_request.new_name {
                    Some(n) => n,
                    None => update_request.name,
                };
                let format_string = match update_request.new_format_string {
                    Some(f) => f,
                    None => template.format_string,
                };
                self.db.update_template(template.id, name, format_string)?;
                Ok(String::from_str("Email template updated successfully!"))
            },
        }
    }
}

/// The earliest instant that a timestamp can hold.
pub open spec fn earliest() -> Timestamp {
    Timestamp { secs: i64::MIN, nanos: 0 }
}

/// What a history query gives at time `now`: an `InvalidArgument` error
/// for a request that is not valid; nothing when it names an address that
/// is not an active recipient (its filters are combined with AND); else the
/// messages that match its time window and recipient.
pub open spec fn records_outcome(db: Database, request: GetEmailHistoryRequest, now: Timestamp, r: Result<Vec<EmailRecord>, MailerError>) -> bool {
    let start = date_input_of(opt_text(request.start_date));
    let end = date_input_of(opt_text(request.end_date));
    let window = window_of(start, end, now);
    if !history_filters_ok(request.to_valid(), start, end, now) {
        r is Err && r->Err_0.kind == ErrorKind::InvalidArgument
    } else {
        match opt_text(request.to) {
            Some(t) => match db.active_recipient_with_email(t) {
                Some(rc) => r is Ok && r->Ok_0@ == db.history_matching(window, Some(rc.id)),
                None => r is Ok && r->Ok_0@.len() == 0,
            },
            None => r is Ok && r->Ok_0@ == db.history_matching(window, None),
        }
    }
}

/// What listing events gives at time `now`: an `InvalidArgument` error
/// when the dates are not a valid range, else the events in their window,
/// or all events when no date is given.
pub open spec fn events_outcome(db: Database, start_date: Option<String>, end_date: Option<String>, now: Timestamp, r: Result<Vec<Event>, MailerError>) -> bool {
    let start = date_input_of(opt_text(start_date));
    let end = date_input_of(opt_text(end_date));
    if !range_ok(start, end, now) {
        r is Err && r->Err_0.kind == ErrorKind::InvalidArgument
    } else {
        r is Ok && r->Ok_0@ == match window_of(start, end, now) {
            Some((s, e)) => db.events_starting_within(s, Some(e)),
            None => db.events_starting_within(earliest(), None),
        }
    }
}

impl MailerService {
    /// The format string of the template called `template_name`.
    pub fn get_email_template(&self, template_name: String) -> (r: Result<String, MailerError>)
        requires
            self.wf(),
        ensures
            r is Ok <==> self.db.template_named(template_name@) is Some,
            r is Ok ==> r->Ok_0@ == self.db.template_named(template_name@)->0.format_string@,
            r is Err ==> r->Err_0.kind == ErrorKind::NotFound,
    {
        match self.db.find_template_by_name(template_name) {
            Ok(t) => Ok(t.format_string),
            Err(_) => Err(MailerError::new(ErrorKind::NotFound, "Template not found")),
        }
    }

    /// The active recipients and all groups.
    pub fn describe_phone_book(&self) -> (r: Result<(Vec<Recipient>, Vec<Group>), MailerError>)
        ensures
            r is Ok,
            (r->Ok_0).0@ == self.db.active_recipients(),
            (r->Ok_0).1@ == self.db.groups@,
    {
        let recipients = self.db.list_recipients()?;
        let groups = self.db.list_groups()?;
        Ok((recipients, groups))
    }

    /// All templates.
    pub fn describe_email_template(&self) -> (r: Result<Vec<Template>, MailerError>)
        ensures
            r is Ok && r->Ok_0@ == self.db.templates@,
    {
        self.db.list_templates()
    }

    /// The history that `get_email_history_request` asks for, judged at
    /// time `now`: see `records_outcome`.
    pub fn get_email_records_at(&self, get_email_history_request: &GetEmailHistoryRequest, now: Timestamp) -> (r: Result<Vec<EmailRecord>, MailerError>)
        requires
            self.wf(),
        ensures
            records_outcome(self.db, *get_email_history_request, now, r),
    {
        if !get_email_history_request.is_valid_at(now) {
            return Err(new_rmcp_error("Invalid request: At least one filter must be provided (to, start_date, end_date)"));
        }
        let window = time_window(
            read_date(get_email_history_request.start_date.as_ref()),
            read_date(get_email_history_request.end_date.as_ref()),
            now,
        );
        let recipient_id = match &get_email_history_request.to {
            Some(to) => match self.db.find_recipient_by_email(to.clone()) {
                Ok(rc) => Some(rc.id),
                Err(_) => {
                    return Ok(Vec::new());
                },
            },
            None => None,
        };
        self.db.list_email_records_by_criteria(window, recipient_id)
    }

    /// The history that `get_email_history_request` asks for, judged at the
    /// current time. Without a start date the clock decides nothing.
    pub fn get_email_records(&self, get_email_history_request: &GetEmailHistoryRequest) -> (r: Result<Vec<EmailRecord>, MailerError>)
        requires
            self.wf(),
        ensures
            exists|t: Timestamp| records_outcome(self.db, *get_email_history_request, t, r),
            forall|t: Timestamp| !(date_input_of(opt_text(get_email_history_request.start_date)) is At)
                ==> #[trigger] records_outcome(self.db, *get_email_history_request, t, r),
    {
        let now = now();
        let r = self.get_email_records_at(get_email_history_request, now);
        proof {
            let start = date_input_of(opt_text(get_email_history_request.start_date));
            let end = date_input_of(opt_text(get_email_history_request.end_date));
            assert forall|t: Timestamp| !(start is At) implies #[trigger] records_outcome(self.db, *get_email_history_request, t, r) by {
                assert(window_of(start, end, t) == window_of(start, end, now));
                assert(history_filters_ok(get_email_history_request.to_valid(), start, end, t)
                    == history_filters_ok(get_email_history_request.to_valid(), start, end, now));
            }
        }
        r
    }

    /// Adds an event; also returns the other events that start within its
    /// span (after its start when it has no end).
    pub fn create_event(&mut self, event_request: CreateEventRequest) -> (r: Result<(Event, Vec<Event>), MailerError>)
        requires
            old(self).wf(),
        ensures
            final(self).wf(),
            final(self).mailer == old(self).mailer,
            r is Ok <==> old(self).db.next_event_id < i32::MAX,
            r is Err ==> final(self).db == old(self).db && r->Err_0.kind == ErrorKind::StoreError,
            r is Ok ==> {
                let e = (r->Ok_0).0;
                &&& e.id == old(self).db.next_event_id
                &&& e.title == event_request.title && e.description == event_request.description
                &&& e.start_time == event_request.start_time && e.end_time == event_request.end_time
                &&& e.is_all_day == event_request.is_all_day
                &&& final(self).db.events@ == old(self).db.events@.push(e)
                &&& (r->Ok_0).1@ == final(self).db.events_starting_within(e.start_time, e.end_time).filter(|x: Event| x.id != e.id)
            },
    {
        let start = event_request.start_time;
        let end = event_request.end_time;
        let new_event = self.db.add_event(
            event_request.title,
            event_request.description,
            event_request.start_time,
            event_request.end_time,
            event_request.is_all_day,
        )?;
        let within = self.db.list_events(start, end)?;
        let mut others: Vec<Event> = Vec::new();
        let mut i: usize = 0;
        while i < within.len()
            invariant
                i <= within@.len(),
                others@ == within@.subrange(0, i as int).filter(|x: Event| x.id != new_event.id),
            decreases within@.len() - i,
        {
            proof {
                reveal(Seq::filter);
                assert(within@.subrange(0, i + 1).drop_last() =~= within@.subrange(0, i as int));
            }
            if within[i].id != new_event.id {
                others.push(within[i].duplicate());
            }
            i = i + 1;
        }
        assert(within@.subrange(0, i as int) =~= within@);
        Ok((new_event, others))
    }

    /// The events within the dates given, judged at time `now`: see
    /// `events_outcome`.
    pub fn list_events_at(&self, start_date: Option<String>, end_date: Option<String>, now: Timestamp) -> (r: Result<Vec<Event>, MailerError>)
        ensures
            events_outcome(self.db, start_date, end_date, now, r),
    {
        let start = read_date(start_date.as_ref());
        let end = read_date(end_date.as_ref());
        if !time_range_ok(start, end, now) {
            return Err(new_rmcp_error("Invalid request: start_date and end_date must be valid RFC3339 dates with reasonable range"));
        }
        match time_window(start, end, now) {
            Some((s, e)) => self.db.list_events(s, Some(e)),
            None => self.db.list_events(Timestamp { secs: i64::MIN, nanos: 0 }, None),
        }
    }

    /// The events within the dates given, judged at the current time.
    /// Without a start date the clock decides nothing.
    pub fn list_events(&self, start_date: Option<String>, end_date: Option<String>) -> (r: Result<Vec<Event>, MailerError>)
        ensures
            exists|t: Timestamp| events_outcome(self.db, start_date, end_date, t, r),
            forall|t: Timestamp| !(date_input_of(opt_text(start_date)) is At)
                ==> #[trigger] events_outcome(self.db, start_date, end_date, t, r),
    {
        let now = now();
        let ghost start = date_input_of(opt_text(start_date));
        let ghost end = date_input_of(opt_text(end_date));
        let ghost sd = start_date;
        let ghost ed = end_date;
        let r = self.list_events_at(start_date, end_date, now);
        proof {
            assert forall|t: Timestamp| !(start is At) implies #[trigger] events_outcome(self.db, sd, ed, t, r) by {
                assert(window_of(start, end, t) == window_of(start, end, now));
                assert(range_ok(start, end, t) == range_ok(start, end, now));
            }
        }
        r
    }

    /// The request that sends the invitation `invitation_request`, and for
    /// each of its addresses whether attendance is required: the active
    /// members of each named group that exists, then the individuals. Fails
    /// with `NotFound` when the event or the stored template does not exist
    /// and with `InvalidArgument` when the template cannot be rendered
    /// without data.
    pub fn invitation_request(&self, invitation_request: SendEventInvitationRequest) -> (r: Result<(SendEmailRequest, Vec<bool>), MailerError>)
        requires
            self.wf(),
        ensures
            !has_event(self.db.events@, invitation_request.event_id) ==> r is Err && r->Err_0.kind == ErrorKind::NotFound,
            r is Ok ==> has_event(self.db.events@, invitation_request.event_id),
            r is Ok ==> {
                let invitees = group_invitees(self.db, invitation_request.to.groups@) + individual_invitees(invitation_request.to.individuals@);
                let req = (r->Ok_0).0;
                let flags = (r->Ok_0).1;
                &&& req.to@.len() == invitees.len() && flags@.len() == invitees.len()
                &&& forall|i: int| 0 <= i < invitees.len() ==> (#[trigger] invitees[i]) == (req.to@[i]@, flags@[i])
                &&& req.from == invitation_request.from
                &&& req.reply_to is None
                &&& req.subject == invitation_request.subject
                &&& invitation_request.template matches InvitationTemplate::CustomText(t) ==> req.body == t
            },
            has_event(self.db.events@, invitation_request.event_id) && invitation_request.template is CustomText ==> r is Ok,
            has_event(self.db.events@, invitation_request.event_id) && invitation_request.template is StoredTemplate ==> {
                let name = invitation_request.template->StoredTemplate_0;
                &&& self.db.template_named(name@) is None ==> r is Err && r->Err_0.kind == ErrorKind::NotFound
                &&& self.db.template_named(name@) is Some ==> {
                    let out = rendered(self.db.template_named(name@)->0.format_string@, Map::empty());
                    &&& (r is Ok <==> out is Ok)
                    &&& r is Ok ==> (r->Ok_0).0.body@ == out->Ok_0
                    &&& r is Err ==> r->Err_0.kind == ErrorKind::InvalidArgument
                }
            },
    {
        if self.db.find_event_by_id(invitation_request.event_id).is_err() {
            return Err(MailerError::new(ErrorKind::NotFound, "Event not found"));
        }
        let ghost db = self.db;
        let groups = &invitation_request.to.groups;
        let mut to: Vec<String> = Vec::new();
        let mut flags: Vec<bool> = Vec::new();
        let mut g: usize = 0;
        while g < groups.len()
            invariant
                self.wf(),
                db == self.db,
                g <= groups@.len(),
                to@.len() == flags@.len(),
                to@.len() == group_invitees(db, groups@.subrange(0, g as int)).len(),
                forall|i: int| 0 <= i < to@.len() ==> (#[trigger] group_invitees(db, groups@.subrange(0, g as int))[i]) == (to@[i]@, flags@[i]),
            decreases groups@.len() - g,
        {
            let ghost before = group_invitees(db, groups@.subrange(0, g as int));
            proof {
                assert(groups@.subrange(0, g + 1).drop_last() =~= groups@.subrange(0, g as int));
                assert(groups@.subrange(0, g + 1).last() == groups@[g as int]);
            }
            let target = &groups[g];
            match self.db.find_group_by_name(target.party.clone()) {
                Ok(group) => {
                    let members = self.db.find_recipients_by_group_id(group.id)?;
                    let ghost added = members@.map_values(|rc: Recipient| (rc.email@, target.is_required));
                    let mut m: usize = 0;
                    while m < members.len()
                        invariant
                            m <= members@.len(),
                            added == members@.map_values(|rc: Recipient| (rc.email@, target.is_required)),
                            to@.len() == flags@.len(),
                            to@.len() == before.len() + m,
                            forall|i: int| 0 <= i < before.len() ==> (#[trigger] before[i]) == (to@[i]@, flags@[i]),
                            forall|i: int| 0 <= i < m ==> (#[trigger] added[i]) == (to@[before.len() + i]@, flags@[before.len() + i]),
                        decreases members@.len() - m,
                    {
                        to.push(members[m].email.clone());
                        flags.push(target.is_required);
                        assert(added[m as int] == (members@[m as int].email@, target.is_required));
                        m = m + 1;
                    }
                    proof {
                        let now_seq = group_invitees(db, groups@.subrange(0, g + 1));
                        assert(now_seq =~= before + added);
                        assert forall|i: int| 0 <= i < to@.len() implies (#[trigger] now_seq[i]) == (to@[i]@, flags@[i]) by {
                            if i < before.len() {
                                assert(now_seq[i] == before[i]);
                            } else {
                                assert(now_seq[i] == added[i - before.len()]);
                            }
                        }
                    }
                },
                Err(_) => {
                    proof {
                        assert(group_invitees(db, groups@.subrange(0, g + 1)) == before);
                    }
                },
            }
            g = g + 1;
        }
        proof {
            assert(groups@.subrange(0, g as int) =~= groups@);
        }
        let ghost from_groups = group_invitees(db, groups@);
        let individuals = &invitation_request.to.individuals;
        let mut k: usize = 0;
        while k < individuals.len()
            invariant
                k <= individuals@.len(),
                to@.len() == flags@.len(),
                to@.len() == from_groups.len() + k,
                forall|i: int| 0 <= i < from_groups.len() ==> (#[trigger] from_groups[i]) == (to@[i]@, flags@[i]),
                forall|i: int| 0 <= i < k ==> (#[trigger] individual_invitees(individuals@)[i]) == (to@[from_groups.len() + i]@, flags@[from_groups.len() + i]),
            decreases individuals@.len() - k,
        {
            to.push(individuals[k].party.clone());
            flags.push(individuals[k].is_required);
            k = k + 1;
        }
        proof {
            let invitees = from_groups + individual_invitees(individuals@);
            assert forall|i: int| 0 <= i < invitees.len() implies (#[trigger] invitees[i]) == (to@[i]@, flags@[i]) by {
                if i < from_groups.len() {
                    assert(invitees[i] == from_groups[i]);
                } else {
                    assert(invitees[i] == individual_invitees(individuals@)[i - from_groups.len()]);
                }
            }
        }
        let body = match invitation_request.template {
            InvitationTemplate::CustomText(text) => text,
            InvitationTemplate::StoredTemplate(name) => {
                let template = match self.db.find_template_by_name(name) {
                    Ok(t) => t,
                    Err(_) => {
                        return Err(MailerError::new(ErrorKind::NotFound, "Template not found"));
                    },
                };
                let no_data: HashMap<String, String> = HashMap::new();
                proof {
                    vstd::std_specs::hash::lemma_hashmap_deepview_dom(no_data);
                    assert(no_data@.dom() =~= Set::<String>::empty());
                    assert(no_data.deep_view().dom() =~= Set::<Seq<char>>::empty());
                    assert(no_data.deep_view() =~= Map::<Seq<char>, Seq<char>>::empty());
                }
                match template.format(no_data) {
                    Ok(b) => b,
                    Err(e) => {
                        return Err(new_rmcp_error(e.as_str()));
                    },
                }
            },
        };
        Ok((SendEmailRequest { from: invitation_request.from, to, reply_to: None, subject: invitation_request.subject, body }, flags))
    }
}

impl Default for MailerService {
    /// A service for the default configuration.
    fn default() -> (r: Self)
        ensures
            r.wf(),
            r.mailer.config.smtp_host@ == "localhost"@,
            r.db.db_path@ == "mailer.db"@,
            r.db.recipients@.len() == 0 && r.db.groups@.len() == 0,
    {
        MailerService::new(Config::default())
    }
}

/// Some row of `rows` has address `address`.
pub open spec fn holds_address(rows: Seq<Recipient>, address: Seq<char>) -> bool {
    exists|k: int| 0 <= k < rows.len() && (#[trigger] rows[k]).email@ == address
}

/// `row` is the recipient that recording creates for mailbox `m` when
/// `before` does not hold its address: active, with that address, named
/// after the address's user part.
pub open spec fn created_for(before: Seq<Recipient>, row: Recipient, m: MailboxAddress) -> bool {
    &&& row.email@ == m.address@
    &&& row.name@ == m.user@
    &&& row.status == RecipientStatus::Active
    &&& !holds_address(before, m.address@)
}

/// `after` keeps every row of `before` unchanged, and each row it adds was
/// created for one of the first `n` mailboxes of `envelope`.
pub open spec fn upserts_only(before: Seq<Recipient>, after: Seq<Recipient>, envelope: Seq<MailboxAddress>, n: int) -> bool {
    &&& before.len() <= after.len()
    &&& forall|k: int| 0 <= k < before.len() ==> #[trigger] after[k] == before[k]
    &&& forall|k: int| before.len() <= k < after.len() ==> comes_from(before, #[trigger] after[k], envelope, n)
}

/// `row` was created for one of the first `n` mailboxes of `envelope`.
pub open spec fn comes_from(before: Seq<Recipient>, row: Recipient, envelope: Seq<MailboxAddress>, n: int) -> bool {
    exists|j: int| 0 <= j < n && #[trigger] created_for(before, row, envelope[j])
}

/// Each of the first `n` mailboxes whose address `before` already holds
/// got the identifier of that existing row.
pub open spec fn reuses_rows(before: Seq<Recipient>, envelope: Seq<MailboxAddress>, ids: Seq<i32>, n: int) -> bool {
    forall|j: int| 0 <= j < n && #[trigger] holds_address(before, envelope[j].address@) ==> exists|k: int|
        0 <= k < before.len() && (#[trigger] before[k]).id == ids[j] && before[k].email@ == envelope[j].address@
}

/// The report of a send whose message was delivered: `done` when recording
/// it succeeded; otherwise `done` followed by why recording failed, since
/// delivery is never undone and never reported as failed.
pub fn delivery_report(done: &str, recorded: &Result<(), MailerError>) -> (r: String)
    ensures
        recorded is Ok ==> r@ == done@,
        recorded is Err ==> r@ == ((done@ + " (recording it failed: "@) + recorded->Err_0.message@) + ")"@,
{
    match recorded {
        Ok(()) => String::from_str(done),
        Err(e) => String::from_str(done).concat(" (recording it failed: ").concat(e.message.as_str()).concat(")"),
    }
}

/// `id` is a recipient of `db` with address `address`.
pub open spec fn resolves_to(db: Database, id: i32, address: Seq<char>) -> bool {
    exists|k: int| 0 <= k < db.recipients@.len() && (#[trigger] db.recipients@[k]).id == id && db.recipients@[k].email@ == address
}

/// Every message in `db` has an identifier below `bound`.
pub open spec fn email_history_ok_below(db: Database, bound: i32) -> bool {
    forall|i: int| 0 <= i < db.email_history@.len() ==> (#[trigger] db.email_history@[i]).id < bound
}

} // verus!
