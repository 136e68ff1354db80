use vstd::prelude::*;

verus! {

/// A mailbox of an email account.
#[derive(Debug)]
pub struct Mailbox {
    pub label: String,
    pub slug: String,
}

/// An email: sender, date (seconds since the UNIX epoch), subject and body.
#[derive(Debug)]
pub struct Email {
    pub id: u32,
    pub from_name: String,
    pub from_email: String,
    pub date: i64,
    pub subject: String,
    pub body_text: String,
    /// From the email headers.
    pub message_id: Option<String>,
    /// From the email headers.
    pub in_reply_to: Vec<String>,
}

/// A summary of a group of emails.
#[derive(Debug)]
pub struct Bucket {
    pub summary: String,
}

/// An entity found in an email: its type and the text that matched.
#[derive(Debug)]
pub struct Entity {
    pub entity_type: String,
    pub matching_text: String,
}

} // verus!
