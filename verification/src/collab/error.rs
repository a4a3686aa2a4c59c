//! Why a message or a request could not be handled.

use vstd::prelude::*;

verus! {

/// Why a message or a request could not be handled.
#[derive(Debug, PartialEq, Eq)]
pub enum HandlerError {
    NotAContact,
    RingingFailed,
    InvalidLocation,
    InvalidSummary,
    InvalidLanguageServer,
    NoSuchPeer,
    ContactIsYourself,
    AccessDenied,
    MessageTooLong,
    MessageBlank,
    NonceBlank,
    UserNotFound,
    NoResponse,
    /// Something that the server relies on failed, and said why.
    Failed(String),
}

/// What a client is told of an error.
pub open spec fn error_text(error: HandlerError) -> Seq<char> {
    match error {
        HandlerError::NotAContact => "cannot call a user who isn't a contact"@,
        HandlerError::RingingFailed => "failed to ring call recipient"@,
        HandlerError::InvalidLocation => "invalid location"@,
        HandlerError::InvalidSummary => "invalid summary"@,
        HandlerError::InvalidLanguageServer => "invalid language server"@,
        HandlerError::NoSuchPeer => "no such peer"@,
        HandlerError::ContactIsYourself => "cannot add yourself as a contact"@,
        HandlerError::AccessDenied => "access denied"@,
        HandlerError::MessageTooLong => "message is too long"@,
        HandlerError::MessageBlank => "message can't be blank"@,
        HandlerError::NonceBlank => "nonce can't be blank"@,
        HandlerError::UserNotFound => "user not found"@,
        HandlerError::NoResponse => "handler did not send a response"@,
        HandlerError::Failed(reason) => reason@,
    }
}

impl HandlerError {
    /// What a client is told of this error.
    pub fn text(&self) -> (text: String)
        ensures
            text@ == error_text(*self),
    {
        match self {
            HandlerError::NotAContact => "cannot call a user who isn't a contact".to_string(),
            HandlerError::RingingFailed => "failed to ring call recipient".to_string(),
            HandlerError::InvalidLocation => "invalid location".to_string(),
            HandlerError::InvalidSummary => "invalid summary".to_string(),
            HandlerError::InvalidLanguageServer => "invalid language server".to_string(),
            HandlerError::NoSuchPeer => "no such peer".to_string(),
            HandlerError::ContactIsYourself => "cannot add yourself as a contact".to_string(),
            HandlerError::AccessDenied => "access denied".to_string(),
            HandlerError::MessageTooLong => "message is too long".to_string(),
            HandlerError::MessageBlank => "message can't be blank".to_string(),
            HandlerError::NonceBlank => "nonce can't be blank".to_string(),
            HandlerError::UserNotFound => "user not found".to_string(),
            HandlerError::NoResponse => "handler did not send a response".to_string(),
            HandlerError::Failed(reason) => reason.clone(),
        }
    }
}

/// What a client is told of an error tells it from every other error that the server has words for,
/// and where something else failed, the client is told just what that said.
pub proof fn law_errors_can_be_told_apart(error: HandlerError, other: HandlerError)
    ensures
        error matches HandlerError::Failed(reason) ==> error_text(error) == reason@,
        error !is Failed && other !is Failed && error_text(error) == error_text(other) ==> error
            == other,
        error !is Failed ==> error_text(error).len() > 0,
{
    reveal_strlit("cannot call a user who isn't a contact");
    reveal_strlit("failed to ring call recipient");
    reveal_strlit("invalid location");
    reveal_strlit("invalid summary");
    reveal_strlit("invalid language server");
    reveal_strlit("no such peer");
    reveal_strlit("cannot add yourself as a contact");
    reveal_strlit("access denied");
    reveal_strlit("message is too long");
    reveal_strlit("message can't be blank");
    reveal_strlit("nonce can't be blank");
    reveal_strlit("user not found");
    reveal_strlit("handler did not send a response");
    assert("cannot call a user who isn't a contact"@.len() == 38);
    assert("failed to ring call recipient"@.len() == 29);
    assert("invalid location"@.len() == 16);
    assert("invalid summary"@.len() == 15);
    assert("invalid language server"@.len() == 23);
    assert("no such peer"@.len() == 12);
    assert("cannot add yourself as a contact"@.len() == 32);
    assert("access denied"@.len() == 13);
    assert("message is too long"@.len() == 19);
    assert("message can't be blank"@.len() == 22);
    assert("nonce can't be blank"@.len() == 20);
    assert("user not found"@.len() == 14);
    assert("handler did not send a response"@.len() == 31);
    if error !is Failed && other !is Failed && error_text(error) == error_text(other) {
        assert(error_text(error).len() == error_text(other).len());
    }
}

} // verus!
