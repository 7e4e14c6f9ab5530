use mailer::config::DatabaseConfig;
use mailer::database::Database;
use mailer::error::ErrorKind;
use mailer::model::{InvitationType, Recipient, RecipientStatus};
use mailer::time::Timestamp;

fn empty_db() -> Database {
    Database::new(DatabaseConfig { db_path: "test.db".to_string() })
}

fn at(secs: i64) -> Timestamp {
    Timestamp { secs, nanos: 0 }
}

#[test]
fn new_database_is_empty() {
    let db = empty_db();
    assert!(db.list_recipients().unwrap().is_empty());
    assert!(db.list_groups().unwrap().is_empty());
    assert!(db.list_templates().unwrap().is_empty());
    assert_eq!(db.db_path, "test.db");
}

#[test]
fn recipient_lifecycle() {
    let mut db = empty_db();
    let nr = db.new_recipient("me".to_string(), "me@domain.com".to_string()).unwrap();
    assert_eq!(nr.id, 1);
    assert_eq!(nr.status, RecipientStatus::Active);
    assert!(!db.list_recipients().unwrap().is_empty());

    let updated = db.update_recipient(nr.id, "me2".to_string(), "me2@domain.com".to_string()).unwrap();
    assert_eq!(updated.name, "me2");
    assert_eq!(updated.email, "me2@domain.com");
    assert_eq!(updated.id, nr.id);

    let removed = db.remove_recipient(nr.id).unwrap();
    assert_eq!(removed.name, "me2");
    assert_eq!(removed.id, nr.id);
    assert_eq!(removed.email, "me2@domain.com");
    assert_eq!(removed.status, RecipientStatus::Inactive);
    assert!(db.list_recipients().unwrap().is_empty());
}

#[test]
fn removed_recipient_stays_resolvable_by_id() {
    let mut db = empty_db();
    let a = db.new_recipient("a".to_string(), "a@x.com".to_string()).unwrap();
    let b = db.new_recipient("b".to_string(), "b@x.com".to_string()).unwrap();
    db.remove_recipient(a.id).unwrap();
    let listed = db.list_recipients().unwrap();
    assert_eq!(listed.len(), 1);
    assert_eq!(listed[0].id, b.id);
    let found = db.get_recipient(a.id).unwrap();
    assert_eq!(found.email, "a@x.com");
    assert_eq!(found.status, RecipientStatus::Inactive);
    // an inactive recipient is not found by address, and removing it again succeeds
    assert_eq!(db.find_recipient_by_email("a@x.com".to_string()).unwrap_err().kind, ErrorKind::NotFound);
    assert_eq!(db.remove_recipient(a.id).unwrap().status, RecipientStatus::Inactive);
}

#[test]
fn recipient_errors() {
    let mut db = empty_db();
    let a = db.new_recipient("a".to_string(), "a@x.com".to_string()).unwrap();
    db.new_recipient("b".to_string(), "b@x.com".to_string()).unwrap();
    db.remove_recipient(a.id).unwrap();
    // the address of an inactive recipient is still taken
    assert_eq!(db.new_recipient("c".to_string(), "a@x.com".to_string()).unwrap_err().kind, ErrorKind::Conflict);
    assert_eq!(db.update_recipient(99, "z".to_string(), "z@x.com".to_string()).unwrap_err().kind, ErrorKind::NotFound);
    assert_eq!(db.update_recipient(a.id, "a".to_string(), "b@x.com".to_string()).unwrap_err().kind, ErrorKind::Conflict);
    assert_eq!(db.remove_recipient(42).unwrap_err().kind, ErrorKind::NotFound);
    assert_eq!(db.get_recipient(42).unwrap_err().kind, ErrorKind::NotFound);
}

#[test]
fn identifiers_run_out() {
    let mut db = empty_db();
    db.next_recipient_id = i32::MAX;
    let e = db.new_recipient("a".to_string(), "a@x.com".to_string()).unwrap_err();
    assert_eq!(e.kind, ErrorKind::StoreError);
    assert!(db.recipients.is_empty());
}

#[test]
fn group_lifecycle() {
    let mut db = empty_db();
    let ng = db.new_group("test".to_string()).unwrap();
    assert!(!db.list_groups().unwrap().is_empty());
    assert_eq!(db.new_group("test".to_string()).unwrap_err().kind, ErrorKind::Conflict);

    let updated = db.update_group(ng.id, "test2".to_string()).unwrap();
    assert_eq!(updated.name, "test2");
    assert_eq!(updated.id, ng.id);
    assert_eq!(db.find_group_by_name("test2".to_string()).unwrap().id, ng.id);
    assert_eq!(db.find_group_by_name("test".to_string()).unwrap_err().kind, ErrorKind::NotFound);

    let removed = db.remove_group(ng.id).unwrap();
    assert_eq!(removed.id, ng.id);
    assert_eq!(removed.name, "test2");
    assert!(db.list_groups().unwrap().is_empty());
    assert_eq!(db.remove_group(ng.id).unwrap_err().kind, ErrorKind::NotFound);
}

#[test]
fn recipient_group_membership() {
    let mut db = empty_db();
    let nr2 = db.new_recipient("Some One".to_string(), "someone@domain.com".to_string()).unwrap();
    let ng2 = db.new_group("test3".to_string()).unwrap();
    assert!(db.list_recipients_in_group(ng2.id).unwrap().is_empty());
    db.add_recipient_to_group(ng2.id, nr2.id).unwrap();
    assert_eq!(db.add_recipient_to_group(ng2.id, nr2.id).unwrap_err().kind, ErrorKind::Conflict);
    assert_eq!(db.add_recipient_to_group(ng2.id, 77).unwrap_err().kind, ErrorKind::NotFound);
    assert_eq!(db.add_recipient_to_group(77, nr2.id).unwrap_err().kind, ErrorKind::NotFound);
    let res = db.list_recipients_in_group(ng2.id).unwrap();
    assert_eq!(res.len(), 1);
    assert_eq!(
        res[0],
        Recipient { id: nr2.id, name: nr2.name.clone(), email: nr2.email.clone(), status: nr2.status }
    );
    assert_eq!(db.find_recipients_by_group_id(ng2.id).unwrap().len(), 1);
    db.remove_recipient_from_group(ng2.id, nr2.id).unwrap();
    assert_eq!(db.list_recipients_in_group(ng2.id).unwrap().len(), 0);
}

#[test]
fn inactive_members_are_not_listed() {
    let mut db = empty_db();
    let a = db.new_recipient("a".to_string(), "a@x.com".to_string()).unwrap();
    let b = db.new_recipient("b".to_string(), "b@x.com".to_string()).unwrap();
    let g = db.new_group("g".to_string()).unwrap();
    db.add_recipient_to_group(g.id, a.id).unwrap();
    db.add_recipient_to_group(g.id, b.id).unwrap();
    db.remove_recipient(a.id).unwrap();
    let members = db.find_recipients_by_group_id(g.id).unwrap();
    assert_eq!(members.len(), 1);
    assert_eq!(members[0].email, "b@x.com");
}

#[test]
fn removed_group_cascades_to_memberships() {
    let mut db = empty_db();
    let a = db.new_recipient("a".to_string(), "a@x.com".to_string()).unwrap();
    let g = db.new_group("g".to_string()).unwrap();
    let h = db.new_group("h".to_string()).unwrap();
    db.add_recipient_to_group(g.id, a.id).unwrap();
    db.add_recipient_to_group(h.id, a.id).unwrap();
    db.remove_group(g.id).unwrap();
    assert_eq!(db.group_recipients.len(), 1);
    assert_eq!(db.group_recipients[0].group_id, h.id);
    assert!(db.list_recipients_in_group(g.id).unwrap().is_empty());
    assert!(db.find_recipients_by_group_id(g.id).unwrap().is_empty());
    // the member itself stays
    assert_eq!(db.list_recipients().unwrap().len(), 1);
}

#[test]
fn template_lifecycle() {
    let mut db = empty_db();
    let nt = db.new_template("test".to_string(), "template {name}".to_string()).unwrap();
    assert!(!db.list_templates().unwrap().is_empty());
    assert_eq!(db.new_template("test".to_string(), "x".to_string()).unwrap_err().kind, ErrorKind::Conflict);
    let updated = db.update_template(nt.id, "test2".to_string(), "template {name} {version}".to_string()).unwrap();
    assert_eq!(updated.name, "test2");
    assert_eq!(updated.id, nt.id);
    assert_eq!(db.find_template_by_name("test2".to_string()).unwrap().format_string, "template {name} {version}");
    let removed = db.remove_template(nt.id).unwrap();
    assert_eq!(removed.id, nt.id);
    assert_eq!(removed.name, "test2");
    assert!(db.list_templates().unwrap().is_empty());
    assert_eq!(db.remove_template(nt.id).unwrap_err().kind, ErrorKind::NotFound);
}

#[test]
fn email_record_queries() {
    let mut db = empty_db();
    let rec = db.add_email_record_at("Test Subject".to_string(), "Test Body".to_string(), at(1000)).unwrap();
    assert_eq!(rec.subject, "Test Subject");
    assert_eq!(rec.body, "Test Body");
    let other = db.add_email_record_at("Other".to_string(), "Body".to_string(), at(5000)).unwrap();
    let nr = db.new_recipient("someone2".to_string(), "someone2@domain.com".to_string()).unwrap();
    let nr2 = db.new_recipient("someone3".to_string(), "someone3@domain.com".to_string()).unwrap();
    db.add_recipient_email_record(rec.id, nr.id).unwrap();
    db.add_recipient_email_record(other.id, nr2.id).unwrap();
    assert_eq!(db.add_recipient_email_record(rec.id, nr.id).unwrap_err().kind, ErrorKind::Conflict);
    assert_eq!(db.add_recipient_email_record(99, nr.id).unwrap_err().kind, ErrorKind::NotFound);

    let both = db.list_email_records_by_criteria(Some((at(940), at(1060))), Some(nr.id)).unwrap();
    assert_eq!(both.len(), 1);
    assert_eq!(both[0].id, rec.id);
    assert_eq!(both[0].subject, "Test Subject");
    assert_eq!(both[0].body, "Test Body");

    let by_recipient = db.list_email_records_by_criteria(None, Some(nr.id)).unwrap();
    assert_eq!(both, by_recipient);

    let by_time = db.list_email_records_by_criteria(Some((at(940), at(1060))), None).unwrap();
    assert_eq!(both, by_time);

    // the window is closed at both ends
    let edges = db.list_email_records_by_criteria(Some((at(1000), at(5000))), None).unwrap();
    assert_eq!(edges.len(), 2);

    let none = db.list_email_records_by_criteria(Some((at(2000), at(3000))), None).unwrap();
    assert!(none.is_empty());

    let e = db.list_email_records_by_criteria(None, None).unwrap_err();
    assert_eq!(e.kind, ErrorKind::InvalidArgument);
}

#[test]
fn email_record_uses_the_clock() {
    let mut db = empty_db();
    let rec = db.add_email_record("s".to_string(), "b".to_string()).unwrap();
    // some time after 2020-01-01
    assert!(rec.sent_at.secs > 1_577_836_800);
    assert!(rec.sent_at.nanos < 2_000_000_000);
}

#[test]
fn event_lifecycle() {
    let mut db = empty_db();
    let ev = db
        .add_event("Test Event".to_string(), Some("This is a test event".to_string()), at(10_000), None, false)
        .unwrap();
    assert_eq!(ev.title, "Test Event");
    assert_eq!(ev.description, Some("This is a test event".to_string()));
    let events = db.list_events(at(10_000 - 86_400), Some(at(10_000 + 86_400))).unwrap();
    assert!(!events.is_empty());
    assert!(db.list_events(at(10_001), None).unwrap().is_empty());
    assert_eq!(db.find_event_by_id(ev.id).unwrap().title, "Test Event");

    let recipient = db.new_recipient("Attendee".to_string(), "attendee@domain.com".to_string()).unwrap();
    let attendee = db.add_event_attendee(ev.id, recipient.id, InvitationType::Required).unwrap();
    assert_eq!(attendee.event_id, ev.id);
    assert_eq!(attendee.recipient_id, recipient.id);
    assert_eq!(attendee.invitation_type, InvitationType::Required);
    assert_eq!(db.add_event_attendee(99, recipient.id, InvitationType::Optional).unwrap_err().kind, ErrorKind::NotFound);

    let attendees = db.list_event_attendees(ev.id).unwrap();
    assert_eq!(attendees.len(), 1);
    assert_eq!(attendees[0].invitation_type, InvitationType::Required);

    assert_eq!(db.remove_event(ev.id).unwrap(), 1);
    assert!(db.list_event_attendees(ev.id).unwrap().is_empty());
    assert_eq!(db.remove_event(ev.id).unwrap(), 0);
    assert_eq!(db.find_event_by_id(ev.id).unwrap_err().kind, ErrorKind::NotFound);
}

#[test]
fn upsert_reuses_existing_rows() {
    let mut db = empty_db();
    let a = db.new_recipient("a".to_string(), "a@x.com".to_string()).unwrap();
    assert_eq!(db.upsert_recipient("other".to_string(), "a@x.com".to_string()).unwrap(), a.id);
    let id = db.upsert_recipient("new".to_string(), "new@x.com".to_string()).unwrap();
    assert_ne!(id, a.id);
    assert_eq!(db.get_recipient(id).unwrap().name, "new");
    assert_eq!(db.recipients.len(), 2);
}

#[test]
fn status_text_round_trip() {
    assert_eq!(RecipientStatus::Active.as_str(), "Active");
    assert_eq!(RecipientStatus::Inactive.as_str(), "Inactive");
    assert_eq!(RecipientStatus::try_from_str("Active").unwrap(), RecipientStatus::Active);
    assert_eq!(RecipientStatus::try_from_str("Inactive").unwrap(), RecipientStatus::Inactive);
    assert_eq!(RecipientStatus::try_from_str("active").unwrap_err().kind, ErrorKind::InvalidArgument);
    assert_eq!(InvitationType::Optional.as_str(), "Optional");
}

#[test]
fn schema_statements_in_order() {
    let sqls = mailer::schema::create_all_tables_sqls();
    assert_eq!(sqls.len(), 9);
    assert_eq!(sqls[0], "PRAGMA foreign_keys = ON;");
    assert!(sqls[1].starts_with("CREATE TABLE IF NOT EXISTS recipients"));
    assert!(sqls[8].starts_with("CREATE TABLE IF NOT EXISTS event_attendees"));
    assert!(sqls[8].contains("ON DELETE CASCADE"));
}

#[test]
fn well_formedness_check() {
    let mut db = empty_db();
    let a = db.new_recipient("a".to_string(), "a@x.com".to_string()).unwrap();
    let g = db.new_group("g".to_string()).unwrap();
    db.add_recipient_to_group(g.id, a.id).unwrap();
    assert!(db.is_well_formed());

    let mut duplicate_email = empty_db();
    duplicate_email.recipients.push(Recipient { id: 1, name: "a".to_string(), email: "a@x.com".to_string(), status: RecipientStatus::Active });
    duplicate_email.recipients.push(Recipient { id: 2, name: "b".to_string(), email: "a@x.com".to_string(), status: RecipientStatus::Active });
    duplicate_email.next_recipient_id = 3;
    assert!(!duplicate_email.is_well_formed());

    let mut stale_counter = empty_db();
    stale_counter.recipients.push(Recipient { id: 5, name: "a".to_string(), email: "a@x.com".to_string(), status: RecipientStatus::Active });
    assert!(!stale_counter.is_well_formed());

    let mut dangling = empty_db();
    dangling.group_recipients.push(mailer::model::RecipientGroup { group_id: 1, recipient_id: 1 });
    assert!(!dangling.is_well_formed());
}
