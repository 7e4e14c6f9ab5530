use vstd::prelude::*;

use crate::error::{ErrorKind, MailerError};

verus! {

/// Position of the last `c` in `s`, or -1.
pub open spec fn last_index_of(s: Seq<char>, c: char) -> int
    decreases s.len(),
{
    if s.len() == 0 {
        -1
    } else if s.last() == c {
        s.len() - 1
    } else {
        last_index_of(s.drop_last(), c)
    }
}

/// The part of an address before its last `@`; the whole text when it has
/// none.
pub open spec fn local_part(email: Seq<char>) -> Seq<char> {
    let k = last_index_of(email, '@');
    if k < 0 {
        email
    } else {
        email.subrange(0, k)
    }
}

/// Computes `local_part(email@)`.
pub fn local_part_of(email: &str) -> (r: String)
    ensures
        r@ == local_part(email@),
{
    let n = email.unicode_len();
    let mut seen: bool = false;
    let mut found: usize = 0;
    let mut i: usize = 0;
    while i < n
        invariant
            n == email@.len(),
            i <= n,
            seen ==> found < i && found == last_index_of(email@.subrange(0, i as int), '@'),
            !seen ==> last_index_of(email@.subrange(0, i as int), '@') == -1,
        decreases n - i,
    {
        let ghost prefix = email@.subrange(0, i + 1);
        proof {
            assert(prefix.drop_last() =~= email@.subrange(0, i as int));
            assert(prefix.last() == email@[i as int]);
        }
        if email.get_char(i) == '@' {
            seen = true;
            found = i;
        }
        i = i + 1;
    }
    assert(email@.subrange(0, i as int) =~= email@);
    if !seen {
        String::from_str(email)
    } else {
        String::from_str(email.substring_char(0, found))
    }
}

#[derive(Clone, Debug)]
pub struct Config {
    pub sse_server_host: String,
    pub db_config: DatabaseConfig,
    pub mailer_config: MailerConfig,
}

impl Default for Config {
    fn default() -> (r: Self)
        ensures
            r.sse_server_host@ == "127.0.0.1:3000"@,
            r.db_config.db_path@ == "mailer.db"@,
            r.mailer_config.smtp_port == 2525,
            r.mailer_config.smtp_host@ == "localhost"@,
            r.mailer_config.senders@.len() == 1,
            r.mailer_config.senders@[0].email@ == "test@test.com"@,
            r.mailer_config.senders@[0].credentials is None,
    {
        Config {
            sse_server_host: String::from_str("127.0.0.1:3000"),
            db_config: DatabaseConfig::default(),
            mailer_config: MailerConfig::default(),
        }
    }
}

#[derive(Clone, Debug)]
pub struct MailerConfig {
    pub smtp_port: u16,
    pub smtp_host: String,
    pub senders: Vec<MailSender>,
}

/// Sender `i` is the one that `from` selects: with no `from`, the first
/// sender; else the first whose address is `from`, or, when no address is,
/// the first whose local part is `from`.
pub open spec fn selects_sender(senders: Seq<MailSender>, from: Option<Seq<char>>, i: int) -> bool {
    &&& 0 <= i < senders.len()
    &&& match from {
        None => i == 0,
        Some(f) => {
            ||| senders[i].email@ == f && forall|j: int| 0 <= j < i ==> (#[trigger] senders[j]).email@ != f
            ||| (forall|j: int| 0 <= j < senders.len() ==> (#[trigger] senders[j]).email@ != f)
                && local_part(senders[i].email@) == f
                && forall|j: int| 0 <= j < i ==> local_part((#[trigger] senders[j]).email@) != f
        },
    }
}

/// The text of an optional string.
pub open spec fn opt_view(s: Option<&String>) -> Option<Seq<char>> {
    match s {
        Some(t) => Some(t@),
        None => None,
    }
}

/// The text of an optional owned string.
pub open spec fn opt_text(s: Option<String>) -> Option<Seq<char>> {
    match s {
        Some(t) => Some(t@),
        None => None,
    }
}

/// Some sender answers to `from`.
pub open spec fn sender_known(senders: Seq<MailSender>, from: Option<Seq<char>>) -> bool {
    match from {
        None => senders.len() > 0,
        Some(f) => exists|j: int| 0 <= j < senders.len() && ((#[trigger] senders[j]).email@ == f || local_part(senders[j].email@) == f),
    }
}

impl MailerConfig {
    /// The first configured sender, if any.
    pub fn default_sender(&self) -> (r: Option<&MailSender>)
        ensures
            r is Some <==> self.senders@.len() > 0,
            r matches Some(s) ==> *s == self.senders@[0],
    {
        if self.senders.len() > 0 {
            Some(&self.senders[0])
        } else {
            None
        }
    }

    /// The sender that `from` names: the first sender whose address is
    /// exactly `from`, or, when no address is, the first whose local part
    /// (the text before the last `@`) is `from`; `None` when no sender
    /// answers.
    pub fn find_sender(&self, from: &str) -> (r: Option<&MailSender>)
        ensures
            r is Some <==> sender_known(self.senders@, Some(from@)),
            r matches Some(s) ==> exists|i: int| selects_sender(self.senders@, Some(from@), i) && *s == self.senders@[i],
    {
        let mut i: usize = 0;
        while i < self.senders.len()
            invariant
                i <= self.senders@.len(),
                forall|j: int| 0 <= j < i ==> (#[trigger] self.senders@[j]).email@ != from@,
            decreases self.senders@.len() - i,
        {
            if crate::model::str_eq(self.senders[i].email.as_str(), from) {
                assert(selects_sender(self.senders@, Some(from@), i as int));
                assert(self.senders@[i as int].email@ == from@);
                return Some(&self.senders[i]);
            }
            i = i + 1;
        }
        let mut k: usize = 0;
        while k < self.senders.len()
            invariant
                k <= self.senders@.len(),
                forall|j: int| 0 <= j < self.senders@.len() ==> (#[trigger] self.senders@[j]).email@ != from@,
                forall|j: int| 0 <= j < k ==> local_part((#[trigger] self.senders@[j]).email@) != from@,
            decreases self.senders@.len() - k,
        {
            let user = local_part_of(self.senders[k].email.as_str());
            if crate::model::str_eq(user.as_str(), from) {
                assert(selects_sender(self.senders@, Some(from@), k as int));
                assert(local_part(self.senders@[k as int].email@) == from@);
                return Some(&self.senders[k]);
            }
            k = k + 1;
        }
        None
    }

    /// The sender that `from` selects: the first sender when `from` is
    /// absent, else the one that `find_sender` finds. Fails with
    /// `InvalidArgument` when none answers.
    pub fn resolve_sender(&self, from: Option<&String>) -> (r: Result<&MailSender, MailerError>)
        ensures
            r is Ok <==> sender_known(self.senders@, opt_view(from)),
            r matches Ok(s) ==> exists|i: int| selects_sender(self.senders@, opt_view(from), i) && *s == self.senders@[i],
            r matches Err(e) ==> e.kind == ErrorKind::InvalidArgument,
    {
        match from {
            None => match self.default_sender() {
                Some(s) => Ok(s),
                None => Err(MailerError::new(ErrorKind::InvalidArgument, "No sender is configured")),
            },
            Some(f) => match self.find_sender(f.as_str()) {
                Some(s) => Ok(s),
                None => Err(MailerError::new(ErrorKind::InvalidArgument, "Sender not found")),
            },
        }
    }
}

impl Default for MailerConfig {
    fn default() -> (r: Self)
        ensures
            r.smtp_port == 2525,
            r.smtp_host@ == "localhost"@,
            r.senders@.len() == 1,
            r.senders@[0].email@ == "test@test.com"@,
            r.senders@[0].credentials is None,
    {
        let mut senders: Vec<MailSender> = Vec::new();
        senders.push(MailSender { email: String::from_str("test@test.com"), credentials: None });
        MailerConfig { smtp_port: 2525, smtp_host: String::from_str("localhost"), senders }
    }
}

/// A configured sender identity; with credentials it logs in to the relay.
#[derive(Clone, Debug)]
pub struct MailSender {
    pub email: String,
    pub credentials: Option<SMTPCredentials>,
}

impl MailSender {
    pub fn duplicate(&self) -> (r: MailSender)
        ensures
            r == *self,
    {
        let credentials = match &self.credentials {
            Some(c) => Some(SMTPCredentials { username: c.username.clone(), password: c.password.clone() }),
            None => None,
        };
        MailSender { email: self.email.clone(), credentials }
    }
}

#[derive(Clone, Debug)]
pub struct SMTPCredentials {
    pub username: String,
    pub password: String,
}

#[derive(Clone, Debug)]
pub struct DatabaseConfig {
    pub db_path: String,
}

impl Default for DatabaseConfig {
    fn default() -> (r: Self)
        ensures
            r.db_path@ == "mailer.db"@,
    {
        DatabaseConfig { db_path: String::from_str("mailer.db") }
    }
}

} // verus!
