//! How tasks end.
use vstd::prelude::*;
use vstd::string::*;

verus! {

/// Task failed to execute to completion. `P` is what it panicked with.
#[derive(Debug)]
pub struct JoinError<P> {
    repr: JoinErrorRepr<P>,
}

/// Reason why a task did not complete.
#[derive(Debug)]
pub enum JoinErrorRepr<P> {
    /// Aborted.
    Aborted,
    /// Panicked.
    Panicked(P),
    /// Thread failed.
    Failed,
}

/// Returns the text of a panic payload: `string` if it is a `String`, else
/// `slice` if it is a string slice.
pub fn panic_payload_as_str<'a>(string: Option<&'a str>, slice: Option<&'a str>) -> (text: Option<
    &'a str,
>)
    ensures
        text == (if string is Some {
            string
        } else {
            slice
        }),
{
    if let Some(s) = string {
        return Some(s);
    }
    if let Some(s) = slice {
        return Some(s);
    }
    None
}

impl<P> JoinError<P> {
    /// The reason.
    pub closed spec fn reason(&self) -> JoinErrorRepr<P> {
        self.repr
    }

    /// Creates an error from its reason.
    pub fn new(repr: JoinErrorRepr<P>) -> (e: JoinError<P>)
        ensures
            e.reason() == repr,
    {
        JoinError { repr }
    }

    /// Returns true if the error was caused by the task being cancelled.
    pub fn is_cancelled(&self) -> (r: bool)
        ensures
            r == (self.reason() is Aborted),
    {
        matches!(&self.repr, JoinErrorRepr::Aborted)
    }

    /// Returns true if the error was caused by thread failure.
    pub fn is_failed(&self) -> (r: bool)
        ensures
            r == (self.reason() is Failed),
    {
        matches!(&self.repr, JoinErrorRepr::Failed)
    }

    /// Returns true if the error was caused by the task panicking.
    pub fn is_panic(&self) -> (r: bool)
        ensures
            r == (self.reason() is Panicked),
    {
        matches!(&self.repr, JoinErrorRepr::Panicked(_))
    }

    /// Returns what the task panicked with.
    pub fn into_panic(self) -> (payload: P)
        requires
            self.reason() is Panicked,
        ensures
            self.reason() == JoinErrorRepr::Panicked(payload),
    {
        match self.repr {
            JoinErrorRepr::Panicked(p) => p,
            _ => {
                assert(false);
                vstd::pervasive::unreached()
            },
        }
    }

    /// Returns what the task panicked with if it panicked, and the error itself
    /// otherwise.
    pub fn try_into_panic(self) -> (r: Result<P, JoinError<P>>)
        ensures
            match r {
                Ok(payload) => self.reason() == JoinErrorRepr::Panicked(payload),
                Err(e) => !(self.reason() is Panicked) && e == self,
            },
    {
        match self.repr {
            JoinErrorRepr::Panicked(p) => Ok(p),
            JoinErrorRepr::Aborted => Err(JoinError { repr: JoinErrorRepr::Aborted }),
            JoinErrorRepr::Failed => Err(JoinError { repr: JoinErrorRepr::Failed }),
        }
    }

    /// The text shown for this error, `payload` being the text of the panic
    /// payload.
    pub open spec fn text(&self, payload: Option<Seq<char>>) -> Seq<char> {
        match self.reason() {
            JoinErrorRepr::Aborted => "task was cancelled"@,
            JoinErrorRepr::Panicked(_) => match payload {
                Some(message) => "task panicked with message "@ + message,
                None => "task panicked"@,
            },
            JoinErrorRepr::Failed => "task failed"@,
        }
    }

    /// Returns the text shown for this error, `payload` being the text of the
    /// panic payload.
    pub fn message(&self, payload: Option<&str>) -> (s: String)
        ensures
            s@ == self.text(
                match payload {
                    Some(p) => Some(p@),
                    None => None,
                },
            ),
    {
        match &self.repr {
            JoinErrorRepr::Aborted => "task was cancelled".to_owned(),
            JoinErrorRepr::Panicked(_) => match payload {
                Some(message) => "task panicked with message ".to_owned().concat(message),
                None => "task panicked".to_owned(),
            },
            JoinErrorRepr::Failed => "task failed".to_owned(),
        }
    }
}

/// Returns the result of a task: what it sent, or failure if it ended without
/// sending anything.
pub fn join_result<T, P>(sent: Option<Result<T, JoinError<P>>>) -> (r: Result<T, JoinError<P>>)
    ensures
        match sent {
            Some(result) => r == result,
            None => r matches Err(e) && e.reason() is Failed,
        },
{
    match sent {
        Some(result) => result,
        None => Err(JoinError::new(JoinErrorRepr::Failed)),
    }
}

} // verus!
