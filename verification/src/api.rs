//! Bodies of the user-registration endpoint.
use vstd::prelude::*;

use crate::text::{all_white_space, char_count, is_blank};

verus! {

/// The longest name and e-mail address accepted, in characters.
pub const MAX_USER_FIELD_LENGTH: usize = 255;

/// A request to register a user.
#[derive(Clone, Debug, PartialEq, Eq)]
pub struct CreateUserRequest {
    pub name: String,
    pub email: String,
}

/// The reply to a registration: the new user's ID.
#[derive(Clone, Copy, Debug, PartialEq, Eq, Structural)]
pub struct CreateUserResponse {
    pub id: u128,
}

/// A registered user.
#[derive(Clone, Debug, PartialEq, Eq)]
pub struct User {
    pub id: u128,
    pub name: String,
    pub email: String,
    pub icon_url: String,
}

/// The body of an error reply of the registration endpoint.
#[derive(Clone, Debug, PartialEq, Eq)]
pub struct ErrorResponse {
    pub message: String,
}

/// Whether `EmailAddress::is_valid` of the `email_address` crate accepts
/// `address`.
pub uninterp spec fn email_valid_of(address: Seq<char>) -> bool;

/// Calls `EmailAddress::is_valid` of the `email_address` crate, which parses
/// the address by the rules of RFC 5322 and its companions.
///
/// Trusted: the answer is a function of `address` alone, named
/// `email_valid_of`.
#[verifier::external_body]
fn is_valid_email(address: &str) -> (r: bool)
    ensures
        r == email_valid_of(address@),
{
    email_address::EmailAddress::is_valid(address)
}

/// Why a registration request is refused, if it is: a blank name, a name or
/// address over 255 characters, or an invalid address, checked in this
/// order.
pub open spec fn user_request_refusal(name: Seq<char>, email: Seq<char>) -> Option<Seq<char>> {
    if all_white_space(name) {
        Some("name must not be blank"@)
    } else if name.len() > MAX_USER_FIELD_LENGTH {
        Some("name must be at most 255 characters"@)
    } else if email.len() > MAX_USER_FIELD_LENGTH {
        Some("email must be at most 255 characters"@)
    } else if !email_valid_of(email) {
        Some("email must be a valid email address"@)
    } else {
        None
    }
}

impl CreateUserRequest {
    /// Checks the request.
    pub fn validate(&self) -> (r: Result<(), &'static str>)
        ensures
            match user_request_refusal(self.name@, self.email@) {
                Some(m) => r matches Err(e) && e@ == m,
                None => r is Ok,
            },
    {
        if is_blank(self.name.as_str()) {
            return Err("name must not be blank");
        }
        if char_count(self.name.as_str()) > MAX_USER_FIELD_LENGTH {
            return Err("name must be at most 255 characters");
        }
        if char_count(self.email.as_str()) > MAX_USER_FIELD_LENGTH {
            return Err("email must be at most 255 characters");
        }
        if !is_valid_email(self.email.as_str()) {
            return Err("email must be a valid email address");
        }
        Ok(())
    }
}

} // verus!
