use mailer::config::DatabaseConfig;
use mailer::database::Database;
use mailer::error::MailerError;
use mailer::model::{InvitationType, Recipient};
use mailer::time::Timestamp;

fn ts(t: chrono::DateTime<chrono::Utc>) -> Timestamp {
    Timestamp { secs: t.timestamp(), nanos: t.timestamp_subsec_nanos() }
}

fn script_for_recipient(db: &mut Database) -> Result<(), MailerError> {
    let nr = db.new_recipient("me".to_string(), "me@domain.com".to_string())?;
    assert!(!db.list_recipients()?.is_empty());

    let updated_recipient = db.update_recipient(nr.id, "me2".to_string(), "me2@domain.com".to_string())?;
    assert_eq!(updated_recipient.name, "me2");
    assert_eq!(updated_recipient.email, "me2@domain.com");
    assert_eq!(updated_recipient.id, nr.id);

    let removed_recipient = db.remove_recipient(nr.id)?;
    assert_eq!(removed_recipient.name, "me2");
    assert_eq!(removed_recipient.id, nr.id);
    assert_eq!(removed_recipient.email, "me2@domain.com");
    assert!(db.list_recipients()?.is_empty());
    Ok(())
}

fn script_for_group(db: &mut Database) -> Result<(), MailerError> {
    let ng = db.new_group("test".to_string())?;
    assert!(!db.list_groups()?.is_empty());

    let updated_group = db.update_group(ng.id, "test2".to_string())?;
    assert_eq!(updated_group.name, "test2");
    assert_eq!(updated_group.id, ng.id);

    let removed_group = db.remove_group(ng.id)?;
    assert_eq!(removed_group.id, ng.id);
    assert_eq!(removed_group.name, "test2");
    assert!(db.list_groups()?.is_empty());
    Ok(())
}

fn script_for_recipient_group(db: &mut Database) -> Result<(), MailerError> {
    let nr2 = db.new_recipient("Some One".to_string(), "someone@domain.com".to_string())?;
    let ng2 = db.new_group("test3".to_string())?;
    db.add_recipient_to_group(ng2.id, nr2.id)?;
    let res = db.list_recipients_in_group(ng2.id)?;
    assert_eq!(res.len(), 1);
    assert_eq!(
        res[0],
        Recipient { id: nr2.id, name: nr2.name.clone(), email: nr2.email.clone(), status: nr2.status }
    );
    db.remove_recipient_from_group(ng2.id, nr2.id)?;
    let res = db.list_recipients_in_group(ng2.id)?;
    assert_eq!(res.len(), 0);
    Ok(())
}

fn script_for_template(db: &mut Database) -> Result<(), MailerError> {
    let nt = db.new_template("test".to_string(), "template {name}".to_string())?;
    assert!(!db.list_templates()?.is_empty());

    let updated_template = db.update_template(nt.id, "test2".to_string(), "template {name} {version}".to_string())?;
    assert_eq!(updated_template.name, "test2");
    assert_eq!(updated_template.id, nt.id);

    let removed_template = db.remove_template(nt.id)?;
    assert_eq!(removed_template.id, nt.id);
    assert_eq!(removed_template.name, "test2");
    assert!(db.list_templates()?.is_empty());
    Ok(())
}

fn script_for_email_record(db: &mut Database) -> Result<(), MailerError> {
    let new_email_record = db.add_email_record("Test Subject".to_string(), "Test Body".to_string())?;
    assert_eq!(new_email_record.subject, "Test Subject");
    assert_eq!(new_email_record.body, "Test Body");

    let nr = db.new_recipient("someone2".to_string(), "someone2@domain.com".to_string())?;
    db.add_recipient_email_record(new_email_record.id, nr.id)?;

    let start_end_time = (
        ts(chrono::Utc::now().checked_sub_signed(chrono::Duration::minutes(1)).unwrap()),
        ts(chrono::Utc::now().checked_add_signed(chrono::Duration::minutes(1)).unwrap()),
    );

    let records = db.list_email_records_by_criteria(Some(start_end_time), Some(nr.id))?;
    assert!(!records.is_empty());
    assert_eq!(records[0].id, new_email_record.id);
    assert_eq!(records[0].subject, "Test Subject");
    assert_eq!(records[0].body, "Test Body");

    let records_2 = db.list_email_records_by_criteria(None, Some(nr.id))?;
    assert_eq!(records, records_2);

    let records_3 = db.list_email_records_by_criteria(Some(start_end_time), None)?;
    assert_eq!(records, records_3);
    Ok(())
}

fn script_for_event(db: &mut Database) -> Result<(), MailerError> {
    let new_event = db.add_event(
        "Test Event".to_string(),
        Some("This is a test event".to_string()),
        ts(chrono::Utc::now()),
        None,
        false,
    )?;
    assert_eq!(new_event.title, "Test Event");
    assert_eq!(new_event.description, Some("This is a test event".to_string()));

    let events = db.list_events(
        ts(chrono::Utc::now().checked_sub_signed(chrono::Duration::days(1)).unwrap()),
        Some(ts(chrono::Utc::now().checked_add_signed(chrono::Duration::days(1)).unwrap())),
    )?;
    assert!(!events.is_empty());

    let recipient = db.new_recipient("Attendee".to_string(), "attendee@domain.com".to_string())?;

    let attendee = db.add_event_attendee(new_event.id, recipient.id, InvitationType::Required)?;
    assert_eq!(attendee.event_id, new_event.id);
    assert_eq!(attendee.recipient_id, recipient.id);
    assert_eq!(attendee.invitation_type, InvitationType::Required);

    let attendees = db.list_event_attendees(new_event.id)?;
    assert!(!attendees.is_empty());

    let attendee = &attendees[0];
    assert_eq!(attendee.event_id, new_event.id);
    assert_eq!(attendee.recipient_id, recipient.id);
    assert_eq!(attendee.invitation_type, InvitationType::Required);

    db.remove_event(new_event.id)?;
    let attendees_after_removal = db.list_event_attendees(new_event.id)?;
    assert!(attendees_after_removal.is_empty());
    Ok(())
}

#[test]
fn mod_test_database() {
    let mut db = Database::new(DatabaseConfig { db_path: "test.db".to_string() });

    assert!(db.list_recipients().unwrap().is_empty());
    assert!(db.list_groups().unwrap().is_empty());

    script_for_recipient(&mut db).expect("Failed to run test_script_for_recipient");
    script_for_group(&mut db).expect("Failed to run test_script_for_group");
    script_for_recipient_group(&mut db).expect("Failed to run test_script_for_recipient_group");
    script_for_template(&mut db).expect("Failed to run test_script_for_template");
    script_for_email_record(&mut db).expect("Failed to run test_script_for_email_record");
    script_for_event(&mut db).expect("Failed to run test_script_for_event");
    assert!(db.is_well_formed());
}
