use std::collections::HashMap;

use mailer::config::{local_part_of, Config, MailSender, MailerConfig, SMTPCredentials};
use mailer::error::{new_rmcp_error, ErrorKind};
use mailer::mailer::{Mailer, TransportPlan};
use mailer::model::Template;
use mailer::request::{
    check_history_filters, is_valid_start_end_time, parse_start_end_time, read_date, time_range_ok, time_window, DateInput, GetEmailHistoryRequest, SendEmailRequest,
};
use mailer::time::Timestamp;

fn senders() -> MailerConfig {
    MailerConfig {
        smtp_port: 2525,
        smtp_host: "localhost".to_string(),
        senders: vec![
            MailSender { email: "a@x.com".to_string(), credentials: None },
            MailSender {
                email: "b@x.com".to_string(),
                credentials: Some(SMTPCredentials { username: "buser".to_string(), password: "secret".to_string() }),
            },
        ],
    }
}

fn request(to: Vec<&str>) -> SendEmailRequest {
    SendEmailRequest {
        from: None,
        to: to.into_iter().map(|s| s.to_string()).collect(),
        reply_to: None,
        subject: "Hi".to_string(),
        body: "there".to_string(),
    }
}

fn at(secs: i64) -> Timestamp {
    Timestamp { secs, nanos: 0 }
}

#[test]
fn default_config_values() {
    let config = Config::default();
    assert_eq!(config.sse_server_host, "127.0.0.1:3000");
    assert_eq!(config.db_config.db_path, "mailer.db");
    assert_eq!(config.mailer_config.smtp_port, 2525);
    assert_eq!(config.mailer_config.smtp_host, "localhost");
    assert_eq!(config.mailer_config.senders.len(), 1);
    let first = config.mailer_config.default_sender().unwrap();
    assert_eq!(first.email, "test@test.com");
    assert!(first.credentials.is_none());
}

#[test]
fn sender_resolution() {
    let config = senders();
    assert_eq!(config.resolve_sender(None).unwrap().email, "a@x.com");
    let full = "b@x.com".to_string();
    assert_eq!(config.resolve_sender(Some(&full)).unwrap().email, "b@x.com");
    let short = "b".to_string();
    assert_eq!(config.resolve_sender(Some(&short)).unwrap().email, "b@x.com");
    let unknown = "c@x.com".to_string();
    assert_eq!(config.resolve_sender(Some(&unknown)).unwrap_err().kind, ErrorKind::InvalidArgument);
}

#[test]
fn sender_resolution_prefers_exact_address() {
    let config = MailerConfig {
        smtp_port: 25,
        smtp_host: "h".to_string(),
        senders: vec![
            MailSender { email: "b@one.com".to_string(), credentials: None },
            MailSender { email: "b".to_string(), credentials: None },
        ],
    };
    let from = "b".to_string();
    assert_eq!(config.resolve_sender(Some(&from)).unwrap().email, "b");
    let empty = MailerConfig { smtp_port: 25, smtp_host: "h".to_string(), senders: vec![] };
    assert!(empty.default_sender().is_none());
    assert_eq!(empty.resolve_sender(None).unwrap_err().kind, ErrorKind::InvalidArgument);
}

#[test]
fn find_sender_by_address_or_local_part() {
    let config = senders();
    assert_eq!(config.find_sender("b@x.com").unwrap().email, "b@x.com");
    assert_eq!(config.find_sender("b").unwrap().credentials.as_ref().unwrap().password, "secret");
    assert!(config.find_sender("c@x.com").is_none());
    // the user name of the credentials does not name a sender
    assert!(config.find_sender("buser").is_none());
}

#[test]
fn local_part_examples() {
    assert_eq!(local_part_of("user@example.com"), "user");
    assert_eq!(local_part_of("a@b@c"), "a@b");
    assert_eq!(local_part_of("plain"), "plain");
    assert_eq!(local_part_of(""), "");
}

#[test]
fn rmcp_error_message() {
    let e = new_rmcp_error("Group not found");
    assert_eq!(e.message, "RMCP error: Group not found");
    assert_eq!(e.kind, ErrorKind::InvalidArgument);
}

#[test]
fn template_substitutes_placeholders() {
    let t = Template { id: 1, name: "t".to_string(), format_string: "Hello {name}, version {version}!".to_string() };
    let mut data = HashMap::new();
    data.insert("name".to_string(), "World".to_string());
    data.insert("version".to_string(), "2".to_string());
    assert_eq!(t.format(data).unwrap(), "Hello World, version 2!");
}

#[test]
fn template_missing_key_fails_naming_it() {
    let t = Template { id: 1, name: "t".to_string(), format_string: "Hello {name}".to_string() };
    let e = t.format(HashMap::new()).unwrap_err();
    assert_eq!(e, "Failed to render template: MissingData: Missing Data for Argument \"name\"");
}

#[test]
fn template_single_placeholder_with_text_around() {
    let t = Template { id: 1, name: "t".to_string(), format_string: "Dear {first_name}, welcome}".to_string() };
    let mut data = HashMap::new();
    data.insert("first_name".to_string(), "Ann {x}".to_string());
    // the value is put in verbatim, not expanded again
    assert_eq!(t.format(data).unwrap(), "Dear Ann {x}, welcome}");
}

#[test]
fn template_with_unclosed_brace_is_unchanged() {
    let t = Template { id: 1, name: "t".to_string(), format_string: "a{b".to_string() };
    assert_eq!(t.format(HashMap::new()).unwrap(), "a{b");
}

#[test]
fn template_without_placeholders_is_unchanged() {
    let t = Template { id: 1, name: "t".to_string(), format_string: "Plain text, no tokens.".to_string() };
    let mut data = HashMap::new();
    data.insert("unused".to_string(), "x".to_string());
    assert_eq!(t.format(data).unwrap(), "Plain text, no tokens.");
}

#[test]
fn rfc3339_dates_are_read_in_utc() {
    let z = "2023-10-01T00:00:00Z".to_string();
    assert_eq!(read_date(Some(&z)), DateInput::At(at(1_696_118_400)));
    let plus_two = "2023-10-01T02:00:00+02:00".to_string();
    assert_eq!(read_date(Some(&plus_two)), DateInput::At(at(1_696_118_400)));
    let bad = "2023-10-01".to_string();
    assert_eq!(read_date(Some(&bad)), DateInput::Unreadable);
    assert_eq!(read_date(None), DateInput::Absent);
}

#[test]
fn history_request_validation() {
    let now = at(2_000_000_000);
    let none = GetEmailHistoryRequest { to: None, start_date: None, end_date: None };
    assert!(!none.is_valid_at(now));
    let future = GetEmailHistoryRequest { to: None, start_date: Some("2100-01-01T00:00:00Z".to_string()), end_date: None };
    assert!(!future.is_valid_at(now));
    let reversed = GetEmailHistoryRequest {
        to: None,
        start_date: Some("2023-10-31T00:00:00Z".to_string()),
        end_date: Some("2023-10-01T00:00:00Z".to_string()),
    };
    assert!(!reversed.is_valid_at(now));
    let ok = GetEmailHistoryRequest {
        to: None,
        start_date: Some("2023-10-01T00:00:00Z".to_string()),
        end_date: Some("2023-10-31T00:00:00Z".to_string()),
    };
    assert!(ok.is_valid_at(now));
    assert!(ok.is_valid());
    let bad_to = GetEmailHistoryRequest { to: Some("not an address".to_string()), start_date: None, end_date: None };
    assert!(!bad_to.is_valid_at(now));
    let good_to = GetEmailHistoryRequest { to: Some("me@x.com".to_string()), start_date: None, end_date: None };
    assert!(good_to.is_valid_at(now));
}

#[test]
fn history_filter_rules() {
    let now = at(100);
    assert!(!check_history_filters(None, DateInput::Absent, DateInput::Absent, now));
    assert!(!check_history_filters(Some(false), DateInput::Absent, DateInput::Absent, now));
    assert!(check_history_filters(Some(true), DateInput::Absent, DateInput::Absent, now));
    assert!(!check_history_filters(None, DateInput::At(at(101)), DateInput::Absent, now));
    assert!(check_history_filters(None, DateInput::At(at(100)), DateInput::Absent, now));
    assert!(!check_history_filters(None, DateInput::At(at(50)), DateInput::At(at(40)), now));
    assert!(!time_range_ok(DateInput::Unreadable, DateInput::Absent, now));
    assert!(time_range_ok(DateInput::Absent, DateInput::At(at(500)), now));
}

#[test]
fn time_windows() {
    let now = at(100);
    assert_eq!(time_window(DateInput::At(at(1)), DateInput::At(at(2)), now), Some((at(1), at(2))));
    assert_eq!(time_window(DateInput::At(at(1)), DateInput::Absent, now), Some((at(1), now)));
    assert_eq!(time_window(DateInput::Absent, DateInput::At(at(2)), now), Some((at(0), at(2))));
    assert_eq!(time_window(DateInput::Absent, DateInput::Absent, now), None);
    assert_eq!(time_window(DateInput::Unreadable, DateInput::At(at(2)), now), None);
}

#[test]
fn compose_resolves_envelope_addresses() {
    let mailer = Mailer::new(senders());
    let mut req = request(vec!["Me <me@x.com>", "you@y.org"]);
    req.from = Some("b".to_string());
    let m = mailer.compose(&req).unwrap();
    assert_eq!(m.sender.email, "b@x.com");
    assert_eq!(m.from.address, "b@x.com");
    assert_eq!(m.from.user, "b");
    assert_eq!(m.envelope.len(), 2);
    assert_eq!(m.envelope[0].address, "me@x.com");
    assert_eq!(m.envelope[0].user, "me");
    assert_eq!(m.envelope[1].address, "you@y.org");
    assert_eq!(m.subject, "Hi");
    assert_eq!(m.body, "there");
    assert_eq!(
        m.transport,
        TransportPlan::Authenticated {
            host: "localhost".to_string(),
            port: 2525,
            username: "buser".to_string(),
            password: "secret".to_string(),
        }
    );
}

#[test]
fn compose_rejects_bad_addresses() {
    let mailer = Mailer::new(senders());
    let bad = request(vec!["me@x.com", "not an address"]);
    assert_eq!(mailer.compose(&bad).unwrap_err().kind, ErrorKind::InvalidArgument);
    let empty = request(vec![]);
    assert_eq!(mailer.compose(&empty).unwrap_err().kind, ErrorKind::InvalidArgument);
    let mut bad_reply = request(vec!["me@x.com"]);
    bad_reply.reply_to = Some("nope".to_string());
    assert_eq!(mailer.compose(&bad_reply).unwrap_err().kind, ErrorKind::InvalidArgument);
    let mut unknown_sender = request(vec!["me@x.com"]);
    unknown_sender.from = Some("c@x.com".to_string());
    assert_eq!(mailer.compose(&unknown_sender).unwrap_err().kind, ErrorKind::InvalidArgument);
}

#[test]
fn transport_without_credentials_is_unauthenticated() {
    let mailer = Mailer::new(senders());
    let plan = mailer.build_transport(&mailer.config.senders[0]);
    assert_eq!(plan, TransportPlan::Unauthenticated { host: "localhost".to_string(), port: 2525 });
    let m = mailer.compose(&request(vec!["me@x.com"])).unwrap();
    assert_eq!(m.transport, plan);
}

#[test]
fn date_pairs_against_the_clock() {
    let past = "2023-10-01T00:00:00Z".to_string();
    let later = "2023-10-31T00:00:00Z".to_string();
    let future = "2999-01-01T00:00:00Z".to_string();
    let bad = "yesterday".to_string();
    assert!(is_valid_start_end_time(Some(&past), Some(&later)));
    assert!(!is_valid_start_end_time(Some(&later), Some(&past)));
    assert!(!is_valid_start_end_time(Some(&future), None));
    assert!(!is_valid_start_end_time(Some(&bad), None));
    assert!(is_valid_start_end_time(None, None));
    assert_eq!(parse_start_end_time(Some(&past), Some(&later)), Some((at(1_696_118_400), at(1_698_710_400))));
    assert_eq!(parse_start_end_time(None, Some(&later)), Some((at(0), at(1_698_710_400))));
    let (start, until_now) = parse_start_end_time(Some(&past), None).unwrap();
    assert_eq!(start, at(1_696_118_400));
    assert!(until_now.secs > 1_696_118_400);
    assert_eq!(parse_start_end_time(None, None), None);
    assert_eq!(parse_start_end_time(Some(&bad), Some(&later)), None);
}
