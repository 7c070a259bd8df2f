use vstd::prelude::*;
use vstd::string::StringExecFns;

verus! {

/// An error carrying a human-readable message, used for decode and
/// processing failures.
#[derive(Debug)]
pub struct Error {
    message: String,
}

impl View for Error {
    type V = Seq<char>;

    closed spec fn view(&self) -> Seq<char> {
        self.message@
    }
}

impl Error {
    /// Builds an error from a message.
    pub fn new(msg: &str) -> (e: Error)
        ensures
            e@ == msg@,
    {
        Error { message: msg.to_owned() }
    }

    /// Builds an error from an owned message.
    pub fn from_string(msg: &String) -> (e: Error)
        ensures
            e@ == msg@,
    {
        Error::new(msg.as_str())
    }

    /// Builds an error that names the parameter the message is about.
    pub fn new_param(param: &str, msg: &str) -> (e: Error)
        ensures
            e@ == param@ + ": "@ + msg@,
    {
        let mut s = param.to_owned();
        s.append(": ");
        s.append(msg);
        Error { message: s }
    }

    /// The error's message.
    pub fn as_str(&self) -> (s: &str)
        ensures
            s@ == self@,
    {
        self.message.as_str()
    }
}

} // verus!
