//! The parts of the request protocol that decide what a reply says.
use vstd::prelude::*;
use crate::text::push_str;

verus! {

/// The error of a failed request: a protocol code and a message.
#[derive(Clone, Debug, PartialEq, Eq)]
pub struct ResponseError {
    pub code: String,
    pub message: String,
}

impl ResponseError {
    pub fn new(code: &str, message: &str) -> (error: Self)
        ensures
            error.code@ == code@,
            error.message@ == message@,
    {
        ResponseError { code: code.to_owned(), message: message.to_owned() }
    }
}

/// The reply to a method a module does not have.
pub fn method_not_found(method: &str) -> (error: ResponseError)
    ensures
        error.code@ == "METHOD_NOT_FOUND"@,
        error.message@ == "Unknown method: "@ + method@,
{
    let mut message = String::new();
    push_str(&mut message, "Unknown method: ");
    push_str(&mut message, method);
    ResponseError { code: "METHOD_NOT_FOUND".to_owned(), message }
}

} // verus!
