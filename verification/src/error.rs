//! The library's error type and the decisions taken on failed or empty
//! service replies.
use vstd::prelude::*;

verus! {

/// An error of a service call.
#[derive(Debug)]
pub enum VaporError {
    /// The AWS service (or the SDK) reported an error, or a reply lacked
    /// what the operation needs. `code` is the service's error code, if any.
    AwsSdk { code: Option<String>, message: String },
}

impl VaporError {
    /// An error without a service error code, for replies that lack what the
    /// operation promises.
    pub fn without_code(message: String) -> (e: VaporError)
        ensures
            e == (VaporError::AwsSdk { code: None, message }),
    {
        VaporError::AwsSdk { code: None, message }
    }

    /// The error code carried by the error.
    pub fn code(&self) -> (c: Option<String>)
        ensures
            c == (match self {
                VaporError::AwsSdk { code, .. } => *code,
            }),
    {
        match self {
            VaporError::AwsSdk { code, .. } => match code {
                Some(c) => Some(c.clone()),
                None => None,
            },
        }
    }

    /// The message carried by the error.
    pub fn message(&self) -> (m: String)
        ensures
            m == (match self {
                VaporError::AwsSdk { message, .. } => *message,
            }),
    {
        match self {
            VaporError::AwsSdk { message, .. } => message.clone(),
        }
    }
}

/// A failed service call, as the caller sees it: the error it maps to and
/// whether the service said the requested resource does not exist.
#[derive(Debug)]
pub struct SdkFailure {
    pub not_found: bool,
    pub error: VaporError,
}

/// The outcome of a describe call whose missing resource is an answer, not
/// an error: a "not found" failure becomes `Ok(None)`, every other failure
/// is passed on.
pub fn absent_when_not_found<T>(outcome: Result<Option<T>, SdkFailure>) -> (r: Result<
    Option<T>,
    VaporError,
>)
    ensures
        r == (match outcome {
            Ok(v) => Ok(v),
            Err(f) => if f.not_found {
                Ok(None)
            } else {
                Err(f.error)
            },
        }),
{
    match outcome {
        Ok(v) => Ok(v),
        Err(f) => {
            if f.not_found {
                Ok(None)
            } else {
                Err(f.error)
            }
        },
    }
}

/// The value a reply must carry, or the error that says it was missing.
pub fn require_present<T>(value: Option<T>, missing: VaporError) -> (r: Result<T, VaporError>)
    ensures
        r == (match value {
            Some(v) => Ok(v),
            None => Err(missing),
        }),
{
    match value {
        Some(v) => Ok(v),
        None => Err(missing),
    }
}

} // verus!
