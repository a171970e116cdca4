//! The checks that a payload passes before anything is stored.

use vstd::prelude::*;
use vstd::string::*;
use crate::entities::{ClientPayload, OrderPayload, SupplierPayload};
use crate::errors::{Error, ErrorView};

verus! {

/// The least number of characters in a name.
pub const NAME_MIN: u64 = 3;

/// The least number of characters in a phone number.
pub const PHONE_MIN: u64 = 7;

/// The greatest number of characters in a phone number.
pub const PHONE_MAX: u64 = 15;

/// The least number of characters in an order's title.
pub const TITLE_MIN: u64 = 1;

/// A name is long enough.
pub open spec fn name_ok(name: Seq<char>) -> bool {
    name.len() >= NAME_MIN
}

/// A phone number is neither too short nor too long.
pub open spec fn phone_ok(phone: Seq<char>) -> bool {
    PHONE_MIN <= phone.len() <= PHONE_MAX
}

/// An order's title is not empty.
pub open spec fn title_ok(title: Seq<char>) -> bool {
    title.len() >= TITLE_MIN
}

/// What is wrong with a name.
pub open spec fn name_problem() -> Seq<char> {
    "name: length must be at least 3"@
}

/// What is wrong with a phone number.
pub open spec fn phone_problem() -> Seq<char> {
    "phone: length must be between 7 and 15"@
}

/// What is wrong with a title.
pub open spec fn title_problem() -> Seq<char> {
    "title: length must be at least 1"@
}

/// What is wrong with a name and a phone number, if anything: the problem
/// of each that fails, the name's first, one to a line.
pub open spec fn contact_problems(name: Seq<char>, phone: Seq<char>) -> Option<Seq<char>> {
    if name_ok(name) && phone_ok(phone) {
        None
    } else if name_ok(name) {
        Some(phone_problem())
    } else if phone_ok(phone) {
        Some(name_problem())
    } else {
        Some(name_problem() + "\n"@ + phone_problem())
    }
}

/// What is wrong with an order's title, if anything.
pub open spec fn title_problems(title: Seq<char>) -> Option<Seq<char>> {
    if title_ok(title) {
        None
    } else {
        Some(title_problem())
    }
}

/// Whether a text has at least `min` characters and, where `max` is given,
/// at most `max`.
pub open spec fn length_within(text: Seq<char>, min: u64, max: Option<u64>) -> bool {
    &&& min <= text.len()
    &&& max matches Some(most) ==> text.len() <= most
}

/// `validator::validate_length` on a string, with a lower bound and
/// possibly an upper one. It counts the string's characters and holds the
/// count against the bounds, both inclusive.
#[verifier::external_body]
fn has_length_within(text: &String, min: u64, max: Option<u64>) -> (ok: bool)
    ensures
        ok == length_within(text@, min, max),
{
    validator::validate_length(text, Some(min), max, None)
}

/// The error for a payload with the problems `problems`, if there are any.
pub open spec fn rejection(problems: Option<Seq<char>>) -> Result<(), ErrorView> {
    match problems {
        None => Ok(()),
        Some(msg) => Err(ErrorView::InvalidPayload { msg }),
    }
}

/// What a result without a value holds.
pub open spec fn unit_outcome(r: Result<(), Error>) -> Result<(), ErrorView> {
    match r {
        Ok(()) => Ok(()),
        Err(e) => Err(e@),
    }
}

/// Checks a name and a phone number.
pub fn check_contact(name: &String, phone: &String) -> (r: Result<(), Error>)
    ensures
        unit_outcome(r) == rejection(contact_problems(name@, phone@)),
{
    let name_fits = has_length_within(name, NAME_MIN, None);
    let phone_fits = has_length_within(phone, PHONE_MIN, Some(PHONE_MAX));
    if name_fits && phone_fits {
        Ok(())
    } else if name_fits {
        Err(Error::InvalidPayload { msg: "phone: length must be between 7 and 15".to_owned() })
    } else if phone_fits {
        Err(Error::InvalidPayload { msg: "name: length must be at least 3".to_owned() })
    } else {
        let mut msg = "name: length must be at least 3".to_owned();
        msg.append("\n");
        msg.append("phone: length must be between 7 and 15");
        Err(Error::InvalidPayload { msg })
    }
}

impl ClientPayload {
    /// What is wrong with the payload, if anything.
    pub open spec fn problems(&self) -> Option<Seq<char>> {
        contact_problems(self.name@, self.phone@)
    }

    /// Checks the payload.
    pub fn validate(&self) -> (r: Result<(), Error>)
        ensures
            unit_outcome(r) == rejection(self.problems()),
    {
        check_contact(&self.name, &self.phone)
    }
}

impl SupplierPayload {
    /// What is wrong with the payload, if anything.
    pub open spec fn problems(&self) -> Option<Seq<char>> {
        contact_problems(self.name@, self.phone@)
    }

    /// Checks the payload.
    pub fn validate(&self) -> (r: Result<(), Error>)
        ensures
            unit_outcome(r) == rejection(self.problems()),
    {
        check_contact(&self.name, &self.phone)
    }
}

impl OrderPayload {
    /// What is wrong with the payload, if anything.
    pub open spec fn problems(&self) -> Option<Seq<char>> {
        title_problems(self.title@)
    }

    /// Checks the payload.
    pub fn validate(&self) -> (r: Result<(), Error>)
        ensures
            unit_outcome(r) == rejection(self.problems()),
    {
        if has_length_within(&self.title, TITLE_MIN, None) {
            Ok(())
        } else {
            Err(Error::InvalidPayload { msg: "title: length must be at least 1".to_owned() })
        }
    }
}

} // verus!
