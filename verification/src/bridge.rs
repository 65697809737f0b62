//! What the frontend makes of what comes back over the invoke bridge.

use crate::wire::{AppError, ErrorKind, Response};
use vstd::prelude::*;
use vstd::string::StringExecFns;

verus! {

/// How sending a command ended.
#[derive(Debug)]
pub enum SendOutcome {
    /// The command could not be serialized, for the given reason.
    Unserializable(String),
    /// The backend answered; with a response, where the answer could be read as one.
    Answered(Option<Response>),
    /// The backend refused; with an error, where the refusal could be read as one.
    Refused(Option<AppError>),
}

/// The error for what cannot be read.
pub open spec fn unreadable() -> crate::wire::ErrorModel {
    crate::wire::ErrorModel { kind: ErrorKind::Serialization, message: "Could not deserialize"@ }
}

/// The error for a command that cannot be serialized.
pub open spec fn unserializable(reason: Seq<char>) -> crate::wire::ErrorModel {
    crate::wire::ErrorModel {
        kind: ErrorKind::Serialization,
        message: "could not serialize command: "@ + reason,
    }
}

fn unreadable_error() -> (r: AppError)
    ensures
        r@ == unreadable(),
{
    AppError::new(ErrorKind::Serialization, "Could not deserialize".to_owned())
}

/// The response to a command, or the error that the frontend reports.
pub fn settle(outcome: SendOutcome) -> (r: Result<Response, AppError>)
    ensures
        match outcome {
            SendOutcome::Unserializable(reason) => r matches Err(e) && e@ == unserializable(
                reason@,
            ),
            SendOutcome::Answered(Some(response)) => r == Ok::<Response, AppError>(response),
            SendOutcome::Refused(Some(error)) => r == Err::<Response, AppError>(error),
            _ => r matches Err(e) && e@ == unreadable(),
        },
{
    match outcome {
        SendOutcome::Unserializable(reason) => {
            let mut message = "could not serialize command: ".to_owned();
            message.append(reason.as_str());
            Err(AppError::new(ErrorKind::Serialization, message))
        },
        SendOutcome::Answered(Some(response)) => Ok(response),
        SendOutcome::Answered(None) => Err(unreadable_error()),
        SendOutcome::Refused(Some(error)) => Err(error),
        SendOutcome::Refused(None) => Err(unreadable_error()),
    }
}

/// An answer that can be read is the response, and a refusal that can be read is the error. What
/// cannot be read or sent is an error of serialization, which gives the reason where there is one.
pub proof fn outcomes_are_settled(outcome: SendOutcome, r: Result<Response, AppError>)
    requires
        call_ensures(settle, (outcome,), r),
    ensures
        r is Ok <==> outcome is Answered && outcome->Answered_0 is Some,
        r matches Ok(response) ==> outcome->Answered_0 == Some(response),
        outcome matches SendOutcome::Refused(Some(error)) ==> r->Err_0 == error,
        outcome matches SendOutcome::Refused(None) ==> r->Err_0.kind is Serialization
            && r->Err_0.message@ == "Could not deserialize"@,
        outcome matches SendOutcome::Answered(None) ==> r->Err_0.kind is Serialization
            && r->Err_0.message@ == "Could not deserialize"@,
        outcome matches SendOutcome::Unserializable(reason) ==> r->Err_0.kind is Serialization
            && r->Err_0.message@ == "could not serialize command: "@ + reason@,
{
}

} // verus!
