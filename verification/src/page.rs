//! What a page knows about its visitor and shows in its frame.

use crate::template::VERSION;
use vstd::prelude::*;

verus! {

/// Whether the visitor passed the verification, and what to tell them.
#[derive(Debug, PartialEq, Eq)]
pub struct ValidationState {
    pub is_validated: bool,
    pub validation_message: String,
}

impl Default for ValidationState {
    fn default() -> (state: ValidationState)
        ensures
            !state.is_validated,
            state.validation_message@ == Seq::<char>::empty(),
    {
        ValidationState { is_validated: false, validation_message: String::new() }
    }
}

impl ValidationState {
    /// The state that the cookies of a request lead to.
    ///
    /// `cookie` is the value of the verification cookie, if the request
    /// carries a valid one. A request without cookies is not validated, nor
    /// is one without that cookie; otherwise the visitor is validated and
    /// the message is the value of the cookie.
    pub fn from_cookie(has_cookie_header: bool, cookie: Option<String>) -> (state: ValidationState)
        ensures
            state.is_validated == (has_cookie_header && cookie is Some),
            state.validation_message@ == if !has_cookie_header {
                "Cookie header not found"@
            } else {
                match cookie {
                    Some(value) => value@,
                    None => "Invalid Turnstile"@,
                }
            },
    {
        if !has_cookie_header {
            return ValidationState {
                is_validated: false,
                validation_message: String::from_str("Cookie header not found"),
            };
        }
        match cookie {
            Some(value) => ValidationState { is_validated: true, validation_message: value },
            None => ValidationState {
                is_validated: false,
                validation_message: String::from_str("Invalid Turnstile"),
            },
        }
    }
}

/// The values that the frame of every page shows.
#[derive(Debug, PartialEq, Eq)]
pub struct BaseTemplate {
    pub title: String,
    pub page_title: String,
    pub site_key: String,
    pub current_year: String,
    pub version: String,
    pub is_validated: bool,
    pub validation_message: String,
}

impl BaseTemplate {
    /// The frame of a page with these titles, for a visitor in this state.
    pub fn new(site_key: String, state: &ValidationState, title: &str, page_title: &str) -> (base:
        BaseTemplate)
        ensures
            base.title@ == title@,
            base.page_title@ == page_title@,
            base.site_key@ == site_key@,
            base.current_year@ == "2024"@,
            base.version@ == VERSION@,
            base.is_validated == state.is_validated,
            base.validation_message@ == state.validation_message@,
    {
        BaseTemplate {
            title: String::from_str(title),
            page_title: String::from_str(page_title),
            site_key,
            current_year: String::from_str("2024"),
            version: String::from_str(VERSION),
            is_validated: state.is_validated,
            validation_message: state.validation_message.clone(),
        }
    }
}

/// The answer of the verification service.
#[derive(Debug, PartialEq, Eq)]
pub struct TurnstileResponse {
    pub success: bool,
    pub error_codes: Option<Vec<String>>,
}

} // verus!
