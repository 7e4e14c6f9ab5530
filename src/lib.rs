//! An address-book backed mailing service: recipients, groups, templates,
//! calendar events and the history of sent mail, kept consistent with what
//! was actually delivered.

pub mod error;
pub mod time;
pub mod model;
pub mod config;
pub mod database;
pub mod schema;
pub mod template;
pub mod request;
pub mod mailer;
pub mod service;
