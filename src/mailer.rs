use vstd::prelude::*;

use crate::config::{opt_text, sender_known, selects_sender, MailSender, MailerConfig};
use crate::error::{ErrorKind, MailerError};
use crate::request::SendEmailRequest;

verus! {

/// Whether a text is an e-mail address (`user@domain`).
pub uninterp spec fn is_address(s: Seq<char>) -> bool;

/// The address and the address's user part of a mailbox text such as
/// `Name <user@domain>` or `user@domain`, or `None` when it is not one.
pub uninterp spec fn mailbox_parts(s: Seq<char>) -> Option<(Seq<char>, Seq<char>)>;

/// Relies on lettre's `Address` parser (`FromStr`): it splits the text at
/// its last `@` and checks the user and the domain; the outcome depends on
/// the text alone. A text without `@` is refused.
#[verifier::external_body]
pub(crate) fn address_is_valid(s: &str) -> (r: bool)
    ensures
        r == is_address(s@),
        !s@.contains('@') ==> !r,
{
    s.parse::<lettre::Address>().is_ok()
}

/// A mailbox after parsing: its address and the address's user part.
#[derive(Clone, Debug, PartialEq, Eq)]
pub struct MailboxAddress {
    pub address: String,
    pub user: String,
}

impl MailboxAddress {
    pub fn duplicate(&self) -> (r: MailboxAddress)
        ensures
            r == *self,
    {
        MailboxAddress { address: self.address.clone(), user: self.user.clone() }
    }
}

/// Relies on lettre's `Mailbox` parser (`FromStr`), which reads a mailbox
/// with or without a display name and checks its address; the address is
/// taken as the `Address` writes itself (`Display`) and its user part from
/// `Address::user`. The outcome depends on the text alone.
#[verifier::external_body]
fn parse_mailbox(s: &str) -> (r: Option<MailboxAddress>)
    ensures
        r is Some <==> mailbox_parts(s@) is Some,
        r is Some ==> mailbox_parts(s@) == Some((r->0.address@, r->0.user@)),
{
    s.parse::<lettre::message::Mailbox>()
        .ok()
        .map(|m| MailboxAddress { address: m.email.to_string(), user: m.email.user().to_string() })
}

/// How to reach the relay: logged in with the sender's credentials, or
/// without authentication.
#[derive(Clone, Debug, PartialEq, Eq)]
pub enum TransportPlan {
    Authenticated { host: String, port: u16, username: String, password: String },
    Unauthenticated { host: String, port: u16 },
}

/// A message ready for the transport. `envelope` holds the parsed `to`
/// mailboxes in order: the addresses that delivery uses.
#[derive(Debug)]
pub struct OutgoingEmail {
    pub sender: MailSender,
    pub from: MailboxAddress,
    pub to: Vec<String>,
    pub envelope: Vec<MailboxAddress>,
    pub reply_to: Option<String>,
    pub subject: String,
    pub body: String,
    pub transport: TransportPlan,
}

/// Every text in `to` is a mailbox.
pub open spec fn all_mailboxes(to: Seq<String>) -> bool {
    forall|i: int| 0 <= i < to.len() ==> (#[trigger] mailbox_parts(to[i]@)) is Some
}

/// `envelope` holds the parsed mailboxes of `to`, in order.
pub open spec fn envelope_of(to: Seq<String>, envelope: Seq<MailboxAddress>) -> bool {
    &&& envelope.len() == to.len()
    &&& forall|i: int| 0 <= i < to.len() ==> mailbox_parts(to[i]@) == Some(((#[trigger] envelope[i]).address@, envelope[i].user@))
}

/// A message can be built from `from` and `req`.
pub open spec fn composable(from: MailSender, req: SendEmailRequest) -> bool {
    &&& mailbox_parts(from.email@) is Some
    &&& req.to@.len() > 0
    &&& all_mailboxes(req.to@)
    &&& req.reply_to matches Some(r) ==> mailbox_parts(r@) is Some
}

/// The transport that `sender` needs on `config`'s relay.
pub open spec fn plan_for(config: MailerConfig, sender: MailSender) -> TransportPlan {
    match sender.credentials {
        Some(c) => TransportPlan::Authenticated {
            host: config.smtp_host,
            port: config.smtp_port,
            username: c.username,
            password: c.password,
        },
        None => TransportPlan::Unauthenticated { host: config.smtp_host, port: config.smtp_port },
    }
}

#[derive(Debug)]
pub struct Mailer {
    pub config: MailerConfig,
}

impl Mailer {
    pub fn new(config: MailerConfig) -> (r: Self)
        ensures
            r.config == config,
    {
        Mailer { config }
    }

    /// Checks every address of `email_request` and of the sender and puts
    /// the message together. Fails with `InvalidArgument` on the first
    /// address that is not a mailbox, or when there is no recipient.
    pub fn build_email(&self, email_request: &SendEmailRequest, from: &MailSender) -> (r: Result<OutgoingEmail, MailerError>)
        ensures
            r is Ok <==> composable(*from, *email_request),
            r is Err ==> r->Err_0.kind == ErrorKind::InvalidArgument,
            r is Ok ==> {
                let m = r->Ok_0;
                &&& m.sender == *from
                &&& mailbox_parts(from.email@) == Some((m.from.address@, m.from.user@))
                &&& m.to@ == email_request.to@
                &&& envelope_of(email_request.to@, m.envelope@)
                &&& m.reply_to == email_request.reply_to
                &&& m.subject == email_request.subject
                &&& m.body == email_request.body
                &&& m.transport == plan_for(self.config, *from)
            },
    {
        let from_box = match parse_mailbox(from.email.as_str()) {
            Some(b) => b,
            None => {
                return Err(MailerError::new(ErrorKind::InvalidArgument, "Invalid sender email"));
            },
        };
        let mut envelope: Vec<MailboxAddress> = Vec::new();
        let mut to: Vec<String> = Vec::new();
        let mut i: usize = 0;
        while i < email_request.to.len()
            invariant
                i <= email_request.to@.len(),
                to@ == email_request.to@.subrange(0, i as int),
                envelope_of(to@, envelope@),
            decreases email_request.to@.len() - i,
        {
            match parse_mailbox(email_request.to[i].as_str()) {
                Some(b) => {
                    envelope.push(b);
                    to.push(email_request.to[i].clone());
                },
                None => {
                    return Err(MailerError::new(ErrorKind::InvalidArgument, "Invalid recipient email"));
                },
            }
            i = i + 1;
            assert(to@ =~= email_request.to@.subrange(0, i as int));
        }
        assert(to@ =~= email_request.to@);
        assert forall|j: int| 0 <= j < to@.len() implies (#[trigger] mailbox_parts(email_request.to@[j]@)) is Some by {
            assert(mailbox_parts(to@[j]@) == Some((envelope@[j].address@, envelope@[j].user@)));
        }
        if to.len() == 0 {
            return Err(MailerError::new(ErrorKind::InvalidArgument, "At least one recipient is required"));
        }
        let reply_to = match &email_request.reply_to {
            Some(r) => {
                if parse_mailbox(r.as_str()).is_none() {
                    return Err(MailerError::new(ErrorKind::InvalidArgument, "Invalid reply-to email"));
                }
                Some(r.clone())
            },
            None => None,
        };
        Ok(OutgoingEmail {
            sender: from.duplicate(),
            from: from_box,
            to,
            envelope,
            reply_to,
            subject: email_request.subject.clone(),
            body: email_request.body.clone(),
            transport: self.build_transport(from),
        })
    }

    /// The transport for `sender`: authenticated when it has credentials,
    /// otherwise unauthenticated, on the configured host and port.
    pub fn build_transport(&self, sender: &MailSender) -> (r: TransportPlan)
        ensures
            r == plan_for(self.config, *sender),
    {
        match &sender.credentials {
            Some(c) => TransportPlan::Authenticated {
                host: self.config.smtp_host.clone(),
                port: self.config.smtp_port,
                username: c.username.clone(),
                password: c.password.clone(),
            },
            None => TransportPlan::Unauthenticated { host: self.config.smtp_host.clone(), port: self.config.smtp_port },
        }
    }

    /// Resolves the sender of `email_request` and builds its message, ready
    /// for delivery.
    pub fn compose(&self, email_request: &SendEmailRequest) -> (r: Result<OutgoingEmail, MailerError>)
        ensures
            !sender_known(self.config.senders@, opt_text(email_request.from)) ==> r is Err,
            r is Err ==> r->Err_0.kind == ErrorKind::InvalidArgument,
            r is Ok ==> exists|i: int| {
                &&& selects_sender(self.config.senders@, opt_text(email_request.from), i)
                &&& r->Ok_0.sender == self.config.senders@[i]
                &&& composable(self.config.senders@[i], *email_request)
            },
            r is Ok ==> {
                let m = r->Ok_0;
                &&& m.to@ == email_request.to@
                &&& envelope_of(email_request.to@, m.envelope@)
                &&& m.reply_to == email_request.reply_to
                &&& m.subject == email_request.subject
                &&& m.body == email_request.body
                &&& m.transport == plan_for(self.config, m.sender)
            },
            forall|i: int| selects_sender(self.config.senders@, opt_text(email_request.from), i)
                && composable(self.config.senders@[i], *email_request) ==> r is Ok,
    {
        let sender = self.config.resolve_sender(email_request.from.as_ref())?;
        self.build_email(email_request, sender)
    }
}

} // verus!
