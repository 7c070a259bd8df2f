use crate::numbers::{dec_seq_of, fmt_u64_dec, lemma_dec_seq_of_digits};
use crate::parsers::{ascii_to_string, chars_of};
use vstd::prelude::*;
use vstd::string::StringExecFns;

verus! {

/// A status code of the mail protocol, with its standard text.
#[derive(Clone, Debug)]
pub struct SmtpStatusCode {
    pub number: usize,
    pub text: String,
}

/// The standard text that goes with a status code; empty for a code that
/// has none.
pub open spec fn status_text(n: int) -> Seq<char> {
    if n == 211 {
        "System status"@
    } else if n == 220 {
        "Service ready"@
    } else if n == 250 {
        "Requested mail action okay, completed"@
    } else if n == 251 {
        "User not local; will forward"@
    } else if n == 252 {
        "Cannot verify the user, but it will try to deliver the message anyway"@
    } else if n == 354 {
        "Start mail input"@
    } else if n == 421 {
        "Service is unavailable because the server is shutting down"@
    } else if n == 450 {
        "Requested mail action not taken: mailbox unavailable"@
    } else if n == 451 {
        "Requested action aborted: local error in processing"@
    } else if n == 452 {
        "Requested action not taken: insufficient system storage"@
    } else if n == 455 {
        "Server unable to accommodate parameters"@
    } else if n == 500 {
        "Syntax error, command unrecognized"@
    } else if n == 501 {
        "Syntax error in parameters or arguments"@
    } else if n == 502 {
        "Command not implemented"@
    } else if n == 503 {
        "Bad sequence of commands"@
    } else if n == 504 {
        "Command parameter is not implemented"@
    } else if n == 521 {
        "Server does not accept mail"@
    } else if n == 523 {
        "Encryption Needed"@
    } else if n == 550 {
        "Requested action not taken: mailbox unavailable"@
    } else if n == 552 {
        "Requested mail action aborted: exceeded storage allocation"@
    } else if n == 553 {
        "Requested action not taken: mailbox name not allowed"@
    } else if n == 554 {
        "Transaction has failed"@
    } else if n == 556 {
        "Domain does not accept mail"@
    } else {
        Seq::<char>::empty()
    }
}

impl SmtpStatusCode {
    /// The code's form on the wire: the number, a space, and the text.
    pub open spec fn spec_str(self) -> Seq<char> {
        chars_of(dec_seq_of(self.number as nat)) + " "@ + self.text@
    }

    /// The status code for a number, with its standard text.
    pub fn from_number(error_number: usize) -> (r: SmtpStatusCode)
        ensures
            r.number == error_number,
            r.text@ == status_text(error_number as int),
    {
        let text = if error_number == 211 {
            String::from_str("System status")
        } else if error_number == 220 {
            String::from_str("Service ready")
        } else if error_number == 250 {
            String::from_str("Requested mail action okay, completed")
        } else if error_number == 251 {
            String::from_str("User not local; will forward")
        } else if error_number == 252 {
            String::from_str("Cannot verify the user, but it will try to deliver the message anyway")
        } else if error_number == 354 {
            String::from_str("Start mail input")
        } else if error_number == 421 {
            String::from_str("Service is unavailable because the server is shutting down")
        } else if error_number == 450 {
            String::from_str("Requested mail action not taken: mailbox unavailable")
        } else if error_number == 451 {
            String::from_str("Requested action aborted: local error in processing")
        } else if error_number == 452 {
            String::from_str("Requested action not taken: insufficient system storage")
        } else if error_number == 455 {
            String::from_str("Server unable to accommodate parameters")
        } else if error_number == 500 {
            String::from_str("Syntax error, command unrecognized")
        } else if error_number == 501 {
            String::from_str("Syntax error in parameters or arguments")
        } else if error_number == 502 {
            String::from_str("Command not implemented")
        } else if error_number == 503 {
            String::from_str("Bad sequence of commands")
        } else if error_number == 504 {
            String::from_str("Command parameter is not implemented")
        } else if error_number == 521 {
            String::from_str("Server does not accept mail")
        } else if error_number == 523 {
            String::from_str("Encryption Needed")
        } else if error_number == 550 {
            String::from_str("Requested action not taken: mailbox unavailable")
        } else if error_number == 552 {
            String::from_str("Requested mail action aborted: exceeded storage allocation")
        } else if error_number == 553 {
            String::from_str("Requested action not taken: mailbox name not allowed")
        } else if error_number == 554 {
            String::from_str("Transaction has failed")
        } else if error_number == 556 {
            String::from_str("Domain does not accept mail")
        } else {
            String::new()
        };
        SmtpStatusCode { number: error_number, text }
    }

    pub fn to_string(&self) -> (r: String)
        ensures
            r@ == self.spec_str(),
    {
        let d = fmt_u64_dec(self.number as u64);
        proof {
            lemma_dec_seq_of_digits(self.number as nat);
        }
        let mut r = ascii_to_string(d.as_slice());
        r.append(" ");
        r.append(self.text.as_str());
        r
    }
}

} // verus!
