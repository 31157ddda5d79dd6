//! Account shapes of the authentication stubs: what the register, login
//! and logout endpoints exchange. Nothing is persisted; the server answers
//! from the request alone.

use vstd::prelude::*;

verus! {

/// An account as a client submits it.
#[derive(Debug, Clone, PartialEq)]
pub struct User {
    pub id: String,
}

impl User {
    /// An account with the given identifier.
    pub fn new(id: String) -> (user: User)
        ensures
            user.id@ == id@,
    {
        User { id: id }
    }
}

/// The outcome an authentication endpoint reports.
#[derive(Debug, Clone, PartialEq)]
pub enum UserResponse {
    Registered,
    AlreadyExist,
    DoesNotExist,
    LoginFailed,
    LogedIn,
    LogedOut,
}

} // verus!
