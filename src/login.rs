//! What the sign-in page starts from.

use vstd::prelude::*;

verus! {

/// The notice shown when the sign-in page opens for an expired session.
pub const EXPIRED_SESSION_NOTICE: &'static str =
    "Your login session has expired. Attempting to redirect you to the login page.";

/// Properties of the sign-in page: the account to sign in again, when the
/// page was opened because its session expired.
#[derive(Clone, Debug, PartialEq, Eq)]
pub struct LoginProps {
    pub did: Option<String>,
}

impl LoginProps {
    /// The notice shown when the page opens: present exactly when an account
    /// has to sign in again.
    pub fn starting_error(&self) -> (r: Option<String>)
        ensures
            r is Some <==> self.did is Some,
            r is Some ==> r->0@ == EXPIRED_SESSION_NOTICE@,
    {
        match self.did {
            Some(_) => Some(EXPIRED_SESSION_NOTICE.to_owned()),
            None => None,
        }
    }
}

} // verus!
