use vstd::prelude::*;

verus! {

pub const FOREIGN_KEYS_ON: &'static str = "PRAGMA foreign_keys = ON;";

pub const CREATE_RECIPIENTS: &'static str = "CREATE TABLE IF NOT EXISTS recipients (id INTEGER NOT NULL PRIMARY KEY AUTOINCREMENT, name TEXT NOT NULL, email TEXT NOT NULL UNIQUE, status TEXT NOT NULL CHECK (status IN ('Active', 'Inactive')));";

pub const CREATE_GROUPS: &'static str = "CREATE TABLE IF NOT EXISTS groups (id INTEGER NOT NULL PRIMARY KEY AUTOINCREMENT, name TEXT NOT NULL UNIQUE);";

pub const CREATE_GROUP_RECIPIENTS: &'static str = "CREATE TABLE IF NOT EXISTS group_recipients (group_id INTEGER, recipient_id INTEGER, PRIMARY KEY (group_id, recipient_id), FOREIGN KEY (group_id) REFERENCES groups(id) ON DELETE CASCADE, FOREIGN KEY (recipient_id) REFERENCES recipients(id) ON DELETE CASCADE);";

pub const CREATE_TEMPLATES: &'static str = "CREATE TABLE IF NOT EXISTS templates (id INTEGER NOT NULL PRIMARY KEY AUTOINCREMENT, name TEXT NOT NULL UNIQUE, format_string TEXT NOT NULL);";

pub const CREATE_EMAIL_HISTORY: &'static str = "CREATE TABLE IF NOT EXISTS email_history (id INTEGER NOT NULL PRIMARY KEY AUTOINCREMENT, subject TEXT NOT NULL, body TEXT NOT NULL, sent_at DATETIME DEFAULT CURRENT_TIMESTAMP);";

pub const CREATE_EMAIL_HISTORY_RECIPIENTS: &'static str = "CREATE TABLE IF NOT EXISTS email_history_recipients (email_history_id INTEGER, recipient_id INTEGER, PRIMARY KEY (email_history_id, recipient_id), FOREIGN KEY (email_history_id) REFERENCES email_history(id), FOREIGN KEY (recipient_id) REFERENCES recipients(id));";

pub const CREATE_EVENTS: &'static str = "CREATE TABLE IF NOT EXISTS events (id INTEGER NOT NULL PRIMARY KEY AUTOINCREMENT, title TEXT NOT NULL, description TEXT, start_time DATETIME NOT NULL, end_time DATETIME, is_all_day BOOLEAN NOT NULL DEFAULT 0);";

pub const CREATE_EVENT_ATTENDEES: &'static str = "CREATE TABLE IF NOT EXISTS event_attendees (id INTEGER NOT NULL PRIMARY KEY AUTOINCREMENT, event_id INTEGER NOT NULL, recipient_id INTEGER NOT NULL, invitation_type TEXT NOT NULL CHECK (invitation_type IN ('Required', 'Optional')), FOREIGN KEY (event_id) REFERENCES events(id) ON DELETE CASCADE, FOREIGN KEY (recipient_id) REFERENCES recipients(id) ON DELETE CASCADE);";

/// The statements that set up a SQLite file for the store, in the order in
/// which they must run: foreign keys on, then each table after the tables
/// it refers to.
pub fn create_all_tables_sqls() -> (r: Vec<&'static str>)
    ensures
        r@ == seq![
            FOREIGN_KEYS_ON,
            CREATE_RECIPIENTS,
            CREATE_GROUPS,
            CREATE_GROUP_RECIPIENTS,
            CREATE_TEMPLATES,
            CREATE_EMAIL_HISTORY,
            CREATE_EMAIL_HISTORY_RECIPIENTS,
            CREATE_EVENTS,
            CREATE_EVENT_ATTENDEES,
        ],
{
    let r = vec![
        FOREIGN_KEYS_ON,
        CREATE_RECIPIENTS,
        CREATE_GROUPS,
        CREATE_GROUP_RECIPIENTS,
        CREATE_TEMPLATES,
        CREATE_EMAIL_HISTORY,
        CREATE_EMAIL_HISTORY_RECIPIENTS,
        CREATE_EVENTS,
        CREATE_EVENT_ATTENDEES,
    ];
    assert(r@ =~= seq![
        FOREIGN_KEYS_ON,
        CREATE_RECIPIENTS,
        CREATE_GROUPS,
        CREATE_GROUP_RECIPIENTS,
        CREATE_TEMPLATES,
        CREATE_EMAIL_HISTORY,
        CREATE_EMAIL_HISTORY_RECIPIENTS,
        CREATE_EVENTS,
        CREATE_EVENT_ATTENDEES,
    ]);
    r
}

} // verus!
