use crate::parsers::str_eq;
use vstd::prelude::*;
use vstd::string::StringExecFns;

verus! {

/// The outcome the daemon reports for an authentication attempt.
#[derive(Clone, Copy, Debug, Eq, PartialEq, Structural)]
pub enum AuthResult {
    Pass,
    Fail,
    Error,
}

impl AuthResult {
    /// The result's name on the wire.
    pub open spec fn spec_str(self) -> Seq<char> {
        match self {
            AuthResult::Pass => "pass"@,
            AuthResult::Fail => "fail"@,
            AuthResult::Error => "error"@,
        }
    }

    /// The result named by a string, if any.
    pub open spec fn spec_from(s: Seq<char>) -> Result<AuthResult, ()> {
        if s == "pass"@ {
            Ok(AuthResult::Pass)
        } else if s == "fail"@ {
            Ok(AuthResult::Fail)
        } else if s == "error"@ {
            Ok(AuthResult::Error)
        } else {
            Err(())
        }
    }

    pub fn to_string(&self) -> (r: String)
        ensures
            r@ == self.spec_str(),
    {
        match self {
            AuthResult::Pass => String::from_str("pass"),
            AuthResult::Fail => String::from_str("fail"),
            AuthResult::Error => String::from_str("error"),
        }
    }

    pub fn from_str(s: &str) -> (r: Result<AuthResult, ()>)
        ensures
            r == AuthResult::spec_from(s@),
    {
        if str_eq(s, "pass") {
            Ok(AuthResult::Pass)
        } else if str_eq(s, "fail") {
            Ok(AuthResult::Fail)
        } else if str_eq(s, "error") {
            Ok(AuthResult::Error)
        } else {
            Err(())
        }
    }
}

/// Reading a result's name back yields the same result.
pub proof fn lemma_auth_result_round(v: AuthResult)
    ensures
        AuthResult::spec_from(v.spec_str()) == Ok::<AuthResult, ()>(v),
{
    reveal_strlit("pass");
    reveal_strlit("fail");
    reveal_strlit("error");
    assert("pass"@.len() == 4);
    assert("fail"@.len() == 4);
    assert("error"@.len() == 5);
    assert("pass"@[0] == 'p');
    assert("fail"@[0] == 'f');
    assert("pass"@ != "fail"@);
    assert("pass"@ != "error"@);
    assert("fail"@ != "error"@);
}

} // verus!
