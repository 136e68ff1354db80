use vstd::prelude::*;

verus! {

/// A person's name.
#[derive(Debug)]
pub struct Person {
    pub first_name: Option<String>,
    pub last_name: Option<String>,
}

/// A phone number with its country code.
#[derive(Debug)]
pub struct PhoneNumber {
    pub country_code: String,
    pub number: String,
}

/// A postal address.
#[derive(Debug)]
pub struct Address {
    pub street: String,
    pub city: Option<String>,
    pub state: Option<String>,
    pub zip: String,
    pub country: String,
}

/// The ways to reach a contact.
#[derive(Debug)]
pub enum ContactType {
    Email,
    Phone(PhoneNumber),
    WhatsApp(PhoneNumber),
    Telegram(PhoneNumber),
    AddressSingle(String),
    Address(Address),
    Twitter,
    Facebook,
    Instagram,
    LinkedIn,
    GitHub,
    Other(String),
}

/// One way to reach someone, with its value.
#[derive(Debug)]
pub struct Contact {
    pub contact_type: ContactType,
    pub value: String,
}

} // verus!
