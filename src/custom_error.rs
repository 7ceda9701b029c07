use vstd::prelude::*;
use vstd::string::StringExecFns;

verus! {

/// An error carrying a message and, optionally, the text of the error that
/// caused it.
#[derive(Debug, Clone)]
pub struct CustomError {
    message: String,
    cause: Option<String>,
}

/// The text that `describe` produces for a message and an optional cause.
pub open spec fn describe_spec(message: Seq<char>, cause: Option<Seq<char>>) -> Seq<char> {
    match cause {
        Some(c) => "CustomError: "@ + message + "; caused by: "@ + c,
        None => "CustomError: "@ + message,
    }
}

impl CustomError {
    pub closed spec fn message_view(&self) -> Seq<char> {
        self.message@
    }

    pub closed spec fn cause_view(&self) -> Option<Seq<char>> {
        match self.cause {
            Some(c) => Some(c@),
            None => None,
        }
    }

    /// An error with `message`, caused by an error whose text is `cause`.
    pub fn with_cause(message: &str, cause: String) -> (r: CustomError)
        ensures
            r.message_view() == message@,
            r.cause_view() == Some(cause@),
    {
        CustomError { message: message.to_owned(), cause: Some(cause) }
    }

    pub fn message(&self) -> (r: &str)
        ensures
            r@ == self.message_view(),
    {
        self.message.as_str()
    }

    /// The text of the underlying cause, if there is one.
    pub fn source(&self) -> (r: Option<&str>)
        ensures
            r.is_some() == self.cause_view().is_some(),
            r.is_some() ==> r.unwrap()@ == self.cause_view().unwrap(),
    {
        match &self.cause {
            Some(c) => Some(c.as_str()),
            None => None,
        }
    }

    /// The human-readable chain: the message, then the cause if any.
    pub fn describe(&self) -> (r: String)
        ensures
            r@ == describe_spec(self.message_view(), self.cause_view()),
    {
        let mut text = String::from_str("CustomError: ");
        text.append(self.message.as_str());
        match &self.cause {
            Some(c) => {
                text.append("; caused by: ");
                text.append(c.as_str());
            },
            None => {},
        }
        text
    }
}

/// Boxes a new `CustomError` with `message` caused by `cause`.
pub fn custom_err_with_cause(message: &str, cause: String) -> (r: Box<CustomError>)
    ensures
        r.message_view() == message@,
        r.cause_view() == Some(cause@),
{
    Box::new(CustomError::with_cause(message, cause))
}

} // verus!
