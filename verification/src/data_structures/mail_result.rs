use crate::parsers::str_eq;
use vstd::prelude::*;
use vstd::string::StringExecFns;

verus! {

/// The outcome the daemon reports for a transaction step.
#[derive(Clone, Copy, Debug, Eq, PartialEq, Structural)]
pub enum MailResult {
    Okay,
    PermFail,
    TempFail,
}

impl MailResult {
    /// The result's name on the wire.
    pub open spec fn spec_str(self) -> Seq<char> {
        match self {
            MailResult::Okay => "ok"@,
            MailResult::PermFail => "permfail"@,
            MailResult::TempFail => "tempfail"@,
        }
    }

    /// The result named by a string, if any.
    pub open spec fn spec_from(s: Seq<char>) -> Result<MailResult, ()> {
        if s == "ok"@ {
            Ok(MailResult::Okay)
        } else if s == "permfail"@ {
            Ok(MailResult::PermFail)
        } else if s == "tempfail"@ {
            Ok(MailResult::TempFail)
        } else {
            Err(())
        }
    }

    pub fn to_string(&self) -> (r: String)
        ensures
            r@ == self.spec_str(),
    {
        match self {
            MailResult::Okay => String::from_str("ok"),
            MailResult::PermFail => String::from_str("permfail"),
            MailResult::TempFail => String::from_str("tempfail"),
        }
    }

    pub fn from_str(s: &str) -> (r: Result<MailResult, ()>)
        ensures
            r == MailResult::spec_from(s@),
    {
        if str_eq(s, "ok") {
            Ok(MailResult::Okay)
        } else if str_eq(s, "permfail") {
            Ok(MailResult::PermFail)
        } else if str_eq(s, "tempfail") {
            Ok(MailResult::TempFail)
        } else {
            Err(())
        }
    }
}

/// Reading a result's name back yields the same result.
pub proof fn lemma_mail_result_round(v: MailResult)
    ensures
        MailResult::spec_from(v.spec_str()) == Ok::<MailResult, ()>(v),
{
    reveal_strlit("ok");
    reveal_strlit("permfail");
    reveal_strlit("tempfail");
    assert("ok"@.len() == 2);
    assert("permfail"@.len() == 8);
    assert("tempfail"@.len() == 8);
    assert("permfail"@[0] == 'p');
    assert("tempfail"@[0] == 't');
    assert("ok"@ != "permfail"@);
    assert("ok"@ != "tempfail"@);
    assert("permfail"@ != "tempfail"@);
}

} // verus!
