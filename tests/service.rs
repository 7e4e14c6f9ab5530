use std::collections::HashMap;

use mailer::config::{Config, DatabaseConfig, MailSender, MailerConfig};
use mailer::error::{ErrorKind, MailerError};
use mailer::model::InvitationType;
use mailer::request::{
    AddGroupRequest, AddRecipientRequest, AddTemplateRequest, CreateEventRequest, GetEmailHistoryRequest,
    InvitationTarget, InvitationTemplate, ManageGroupsRequest, ManageRecipientsRequest, ManageTemplatesRequest,
    RemoveGroupRequest, RemoveRecipientRequest, RemoveTemplateRequest, SendEmailWithTemplateRequest,
    SendEventInvitationRequest, SendEventInvitationTo, SendGroupEmailRequest, UpdateGroupRequest,
    UpdateRecipientRequest, UpdateTemplateRequest,
};
use mailer::service::{delivery_report, MailerService};
use mailer::time::Timestamp;

fn service() -> MailerService {
    MailerService::new(Config {
        sse_server_host: "127.0.0.1:3000".to_string(),
        db_config: DatabaseConfig { db_path: "mem.db".to_string() },
        mailer_config: MailerConfig {
            smtp_port: 2525,
            smtp_host: "localhost".to_string(),
            senders: vec![MailSender { email: "bot@x.com".to_string(), credentials: None }],
        },
    })
}

fn add_recipient(s: &mut MailerService, name: &str, email: &str) {
    s.manage_recipient(ManageRecipientsRequest::Add(AddRecipientRequest {
        name: name.to_string(),
        email: email.to_string(),
    }))
    .unwrap();
}

fn add_group(s: &mut MailerService, name: &str) {
    s.manage_mail_group(ManageGroupsRequest::Add(AddGroupRequest { name: name.to_string() })).unwrap();
}

fn at(secs: i64) -> Timestamp {
    Timestamp { secs, nanos: 0 }
}

#[test]
fn send_to_group_records_history() {
    let mut s = service();
    add_recipient(&mut s, "me", "me@x.com");
    add_group(&mut s, "eng");
    s.add_recipient_to_group("eng".to_string(), "me@x.com".to_string()).unwrap();
    let req = s
        .group_email_request(SendGroupEmailRequest {
            from: None,
            group_name: "eng".to_string(),
            reply_to: None,
            subject: "Hi".to_string(),
            body: "there".to_string(),
        })
        .unwrap();
    assert_eq!(req.to, vec!["me@x.com".to_string()]);
    let sent = s.mailer.compose(&req).unwrap();
    let delivery = s.record_delivery(&sent).unwrap();
    let me = s.db.find_recipient_by_email("me@x.com".to_string()).unwrap();
    assert_eq!(delivery.recipient_ids, vec![me.id]);
    assert_eq!(s.db.email_history.len(), 1);
    assert_eq!(s.db.email_history[0].subject, "Hi");
    assert_eq!(s.db.email_history[0].body, "there");
    assert_eq!(s.db.email_history_recipients.len(), 1);
    assert_eq!(s.db.email_history_recipients[0].email_history_id, s.db.email_history[0].id);
    assert_eq!(s.db.email_history_recipients[0].recipient_id, me.id);
}

#[test]
fn unknown_group_is_not_found() {
    let s = service();
    let e = s
        .group_email_request(SendGroupEmailRequest {
            from: None,
            group_name: "nope".to_string(),
            reply_to: None,
            subject: "s".to_string(),
            body: "b".to_string(),
        })
        .unwrap_err();
    assert_eq!(e.kind, ErrorKind::NotFound);
}

#[test]
fn delivery_upserts_new_recipients_once() {
    let mut s = service();
    add_recipient(&mut s, "known", "known@x.com");
    let req = mailer::request::SendEmailRequest {
        from: None,
        to: vec!["known@x.com".to_string(), "New Person <new@x.com>".to_string(), "new@x.com".to_string()],
        reply_to: None,
        subject: "s".to_string(),
        body: "b".to_string(),
    };
    let sent = s.mailer.compose(&req).unwrap();
    let delivery = s.record_delivery(&sent).unwrap();
    assert_eq!(delivery.recipient_ids.len(), 3);
    assert_eq!(delivery.recipient_ids[1], delivery.recipient_ids[2]);
    let created = s.db.get_recipient(delivery.recipient_ids[1]).unwrap();
    assert_eq!(created.name, "new");
    assert_eq!(created.email, "new@x.com");
    assert_eq!(created.status, mailer::model::RecipientStatus::Active);
    // the known address kept its row; exactly one row was added
    assert_eq!(s.db.recipients.len(), 2);
    assert_eq!(s.db.recipients[0].name, "known");
    // one link per distinct recipient
    assert_eq!(s.db.email_history_recipients.len(), 2);
}

#[test]
fn event_invitation_creates_attendees() {
    let mut s = service();
    add_recipient(&mut s, "a", "a@x.com");
    add_recipient(&mut s, "b", "b@x.com");
    add_group(&mut s, "team");
    s.add_recipient_to_group("team".to_string(), "a@x.com".to_string()).unwrap();
    s.add_recipient_to_group("team".to_string(), "b@x.com".to_string()).unwrap();
    let (event, _) = s
        .create_event(CreateEventRequest {
            title: "Kickoff".to_string(),
            description: None,
            start_time: at(1_000),
            end_time: Some(at(2_000)),
            is_all_day: false,
        })
        .unwrap();
    let (req, required) = s
        .invitation_request(SendEventInvitationRequest {
            event_id: event.id,
            from: None,
            to: SendEventInvitationTo {
                groups: vec![InvitationTarget { party: "team".to_string(), is_required: true }],
                individuals: vec![InvitationTarget { party: "guest@y.org".to_string(), is_required: false }],
            },
            subject: "Invitation".to_string(),
            template: InvitationTemplate::CustomText("Please come".to_string()),
        })
        .unwrap();
    assert_eq!(req.to, vec!["a@x.com".to_string(), "b@x.com".to_string(), "guest@y.org".to_string()]);
    assert_eq!(required, vec![true, true, false]);
    assert_eq!(req.body, "Please come");
    let sent = s.mailer.compose(&req).unwrap();
    let (delivery, attendees) = s.record_invitation(event.id, &sent, &required).unwrap();
    assert_eq!(attendees.len(), 3);
    let listed = s.db.list_event_attendees(event.id).unwrap();
    assert_eq!(listed.len(), 3);
    assert_eq!(listed[0].invitation_type, InvitationType::Required);
    assert_eq!(listed[2].invitation_type, InvitationType::Optional);
    let guest = s.db.find_recipient_by_email("guest@y.org".to_string()).unwrap();
    assert_eq!(guest.name, "guest");
    assert_eq!(delivery.recipient_ids[2], guest.id);
    assert_eq!(s.db.email_history.len(), 1);
}

#[test]
fn invitation_to_unknown_event_is_not_found() {
    let s = service();
    let e = s
        .invitation_request(SendEventInvitationRequest {
            event_id: 5,
            from: None,
            to: SendEventInvitationTo { groups: vec![], individuals: vec![] },
            subject: "x".to_string(),
            template: InvitationTemplate::StoredTemplate("none".to_string()),
        })
        .unwrap_err();
    assert_eq!(e.kind, ErrorKind::NotFound);
}

#[test]
fn template_email_renders_body() {
    let mut s = service();
    s.manage_email_template(ManageTemplatesRequest::Add(AddTemplateRequest {
        name: "greet".to_string(),
        format_string: "Dear {name}".to_string(),
    }))
    .unwrap();
    let mut data = HashMap::new();
    data.insert("name".to_string(), "Ann".to_string());
    let req = s
        .template_email_request(SendEmailWithTemplateRequest {
            from: None,
            to: vec!["ann@x.com".to_string()],
            reply_to: None,
            subject: "Hello".to_string(),
            template_name: "greet".to_string(),
            template_data: data,
        })
        .unwrap();
    assert_eq!(req.body, "Dear Ann");
    let missing = s
        .template_email_request(SendEmailWithTemplateRequest {
            from: None,
            to: vec!["ann@x.com".to_string()],
            reply_to: None,
            subject: "Hello".to_string(),
            template_name: "greet".to_string(),
            template_data: HashMap::new(),
        })
        .unwrap_err();
    assert_eq!(missing.kind, ErrorKind::InvalidArgument);
    let unknown = s
        .template_email_request(SendEmailWithTemplateRequest {
            from: None,
            to: vec![],
            reply_to: None,
            subject: "Hello".to_string(),
            template_name: "other".to_string(),
            template_data: HashMap::new(),
        })
        .unwrap_err();
    assert_eq!(unknown.kind, ErrorKind::NotFound);
}

#[test]
fn manage_handlers() {
    let mut s = service();
    add_group(&mut s, "g");
    assert_eq!(
        s.manage_mail_group(ManageGroupsRequest::Add(AddGroupRequest { name: "g".to_string() })).unwrap_err().kind,
        ErrorKind::Conflict
    );
    assert_eq!(
        s.manage_mail_group(ManageGroupsRequest::Update(UpdateGroupRequest {
            name: "g".to_string(),
            new_name: Some("h".to_string()),
        }))
        .unwrap(),
        "Group updated successfully!"
    );
    assert_eq!(s.db.groups[0].name, "h");
    assert_eq!(
        s.manage_mail_group(ManageGroupsRequest::Remove(RemoveGroupRequest { name: "g".to_string() })).unwrap_err().kind,
        ErrorKind::NotFound
    );
    s.manage_mail_group(ManageGroupsRequest::Remove(RemoveGroupRequest { name: "h".to_string() })).unwrap();
    assert!(s.db.groups.is_empty());

    add_recipient(&mut s, "r", "r@x.com");
    s.manage_recipient(ManageRecipientsRequest::Update(UpdateRecipientRequest {
        email: "r@x.com".to_string(),
        new_name: None,
        new_email: Some("r2@x.com".to_string()),
    }))
    .unwrap();
    assert_eq!(s.db.recipients[0].name, "r");
    assert_eq!(s.db.recipients[0].email, "r2@x.com");
    s.manage_recipient(ManageRecipientsRequest::Remove(RemoveRecipientRequest { email: "r2@x.com".to_string() }))
        .unwrap();
    assert!(s.describe_phone_book().unwrap().0.is_empty());
    assert_eq!(
        s.manage_recipient(ManageRecipientsRequest::Remove(RemoveRecipientRequest { email: "r2@x.com".to_string() }))
            .unwrap_err()
            .kind,
        ErrorKind::NotFound
    );

    s.manage_email_template(ManageTemplatesRequest::Add(AddTemplateRequest {
        name: "t".to_string(),
        format_string: "a {b}".to_string(),
    }))
    .unwrap();
    s.manage_email_template(ManageTemplatesRequest::Update(UpdateTemplateRequest {
        name: "t".to_string(),
        new_name: None,
        new_format_string: Some("c {d}".to_string()),
    }))
    .unwrap();
    assert_eq!(s.get_email_template("t".to_string()).unwrap(), "c {d}");
    assert_eq!(s.describe_email_template().unwrap().len(), 1);
    s.manage_email_template(ManageTemplatesRequest::Remove(RemoveTemplateRequest { name: "t".to_string() })).unwrap();
    assert_eq!(s.get_email_template("t".to_string()).unwrap_err().kind, ErrorKind::NotFound);
}

#[test]
fn history_query_through_the_service() {
    let mut s = service();
    add_recipient(&mut s, "me", "me@x.com");
    let me = s.db.find_recipient_by_email("me@x.com".to_string()).unwrap();
    let rec = s.db.add_email_record_at("s".to_string(), "b".to_string(), at(1_696_118_400)).unwrap();
    s.db.add_recipient_email_record(rec.id, me.id).unwrap();
    let now = at(1_800_000_000);
    let by_to = GetEmailHistoryRequest { to: Some("me@x.com".to_string()), start_date: None, end_date: None };
    assert_eq!(s.get_email_records_at(&by_to, now).unwrap().len(), 1);
    let by_dates = GetEmailHistoryRequest {
        to: None,
        start_date: Some("2023-09-30T00:00:00Z".to_string()),
        end_date: Some("2023-10-02T00:00:00Z".to_string()),
    };
    assert_eq!(s.get_email_records_at(&by_dates, now).unwrap().len(), 1);
    let open_end = GetEmailHistoryRequest { to: None, start_date: Some("2023-10-02T00:00:00Z".to_string()), end_date: None };
    assert!(s.get_email_records_at(&open_end, now).unwrap().is_empty());
    let nothing = GetEmailHistoryRequest { to: None, start_date: None, end_date: None };
    assert_eq!(s.get_email_records_at(&nothing, now).unwrap_err().kind, ErrorKind::InvalidArgument);
    // filters combine with AND: an address that is no active recipient matches nothing
    let unknown = GetEmailHistoryRequest { to: Some("who@x.com".to_string()), start_date: None, end_date: None };
    assert!(s.get_email_records_at(&unknown, now).unwrap().is_empty());
    let unknown_in_window = GetEmailHistoryRequest {
        to: Some("who@x.com".to_string()),
        start_date: Some("2023-09-30T00:00:00Z".to_string()),
        end_date: Some("2023-10-02T00:00:00Z".to_string()),
    };
    assert!(s.get_email_records_at(&unknown_in_window, now).unwrap().is_empty());
    let reversed = GetEmailHistoryRequest {
        to: None,
        start_date: Some("2023-10-02T00:00:00Z".to_string()),
        end_date: Some("2023-09-30T00:00:00Z".to_string()),
    };
    assert_eq!(s.get_email_records(&reversed).unwrap_err().kind, ErrorKind::InvalidArgument);
    assert_eq!(s.get_email_records(&by_to).unwrap().len(), 1);
}

#[test]
fn events_listing_and_overlap() {
    let mut s = service();
    let (first, others) = s
        .create_event(CreateEventRequest {
            title: "one".to_string(),
            description: Some("d".to_string()),
            start_time: at(1_000),
            end_time: Some(at(5_000)),
            is_all_day: false,
        })
        .unwrap();
    assert!(others.is_empty());
    let (_, overlapping) = s
        .create_event(CreateEventRequest {
            title: "two".to_string(),
            description: None,
            start_time: at(1_000),
            end_time: None,
            is_all_day: true,
        })
        .unwrap();
    assert_eq!(overlapping.len(), 1);
    assert_eq!(overlapping[0].id, first.id);
    assert_eq!(s.list_events_at(None, None, at(10)).unwrap().len(), 2);
    let from = "1970-01-01T01:00:00Z".to_string();
    assert_eq!(s.list_events_at(Some(from.clone()), None, at(20_000)).unwrap().len(), 0);
    assert_eq!(
        s.list_events_at(Some("garbage".to_string()), None, at(20_000)).unwrap_err().kind,
        ErrorKind::InvalidArgument
    );
    assert_eq!(s.list_events(None, None).unwrap().len(), 2);
}

#[test]
fn default_service_is_empty() {
    let s = MailerService::default();
    assert_eq!(s.mailer.config.smtp_host, "localhost");
    assert_eq!(s.db.db_path, "mailer.db");
    assert!(s.describe_phone_book().unwrap().1.is_empty());
}

#[test]
fn invitation_with_stored_template() {
    let mut s = service();
    let (event, _) = s
        .create_event(CreateEventRequest {
            title: "Review".to_string(),
            description: None,
            start_time: at(100),
            end_time: None,
            is_all_day: false,
        })
        .unwrap();
    s.manage_email_template(ManageTemplatesRequest::Add(AddTemplateRequest {
        name: "plain".to_string(),
        format_string: "Join us".to_string(),
    }))
    .unwrap();
    s.manage_email_template(ManageTemplatesRequest::Add(AddTemplateRequest {
        name: "needs_data".to_string(),
        format_string: "Hello {who}".to_string(),
    }))
    .unwrap();
    let request = |template: InvitationTemplate| SendEventInvitationRequest {
        event_id: event.id,
        from: None,
        to: SendEventInvitationTo {
            groups: vec![],
            individuals: vec![InvitationTarget { party: "p@x.com".to_string(), is_required: true }],
        },
        subject: "s".to_string(),
        template,
    };
    let (req, _) = s.invitation_request(request(InvitationTemplate::StoredTemplate("plain".to_string()))).unwrap();
    assert_eq!(req.body, "Join us");
    let e = s.invitation_request(request(InvitationTemplate::StoredTemplate("needs_data".to_string()))).unwrap_err();
    assert_eq!(e.kind, ErrorKind::InvalidArgument);
    let e = s.invitation_request(request(InvitationTemplate::StoredTemplate("missing".to_string()))).unwrap_err();
    assert_eq!(e.kind, ErrorKind::NotFound);
}

#[test]
fn template_failure_message_is_kept() {
    let mut s = service();
    s.manage_email_template(ManageTemplatesRequest::Add(AddTemplateRequest {
        name: "greet".to_string(),
        format_string: "Dear {name}".to_string(),
    }))
    .unwrap();
    let e = s
        .template_email_request(SendEmailWithTemplateRequest {
            from: None,
            to: vec!["ann@x.com".to_string()],
            reply_to: None,
            subject: "Hello".to_string(),
            template_name: "greet".to_string(),
            template_data: HashMap::new(),
        })
        .unwrap_err();
    assert_eq!(e.message, "RMCP error: Failed to render template: MissingData: Missing Data for Argument \"name\"");
}

#[test]
fn delivery_report_keeps_success() {
    assert_eq!(delivery_report("Email sent successfully!", &Ok(())), "Email sent successfully!");
    let failed = Err(MailerError { kind: ErrorKind::StoreError, message: "disk full".to_string() });
    assert_eq!(delivery_report("Email sent successfully!", &failed), "Email sent successfully! (recording it failed: disk full)");
}
