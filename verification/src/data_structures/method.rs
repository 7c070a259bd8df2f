use crate::parsers::str_eq;
use vstd::prelude::*;
use vstd::string::StringExecFns;

verus! {

/// How a client identified itself.
#[derive(Clone, Copy, Debug, Eq, PartialEq, Structural)]
pub enum Method {
    Helo,
    Ehlo,
}

impl Method {
    /// The method's name on the wire.
    pub open spec fn spec_str(self) -> Seq<char> {
        match self {
            Method::Helo => "HELO"@,
            Method::Ehlo => "EHLO"@,
        }
    }

    /// The method named by a string, if any.
    pub open spec fn spec_from(s: Seq<char>) -> Result<Method, ()> {
        if s == "HELO"@ {
            Ok(Method::Helo)
        } else if s == "EHLO"@ {
            Ok(Method::Ehlo)
        } else {
            Err(())
        }
    }

    pub fn to_string(&self) -> (r: String)
        ensures
            r@ == self.spec_str(),
    {
        match self {
            Method::Helo => String::from_str("HELO"),
            Method::Ehlo => String::from_str("EHLO"),
        }
    }

    pub fn from_str(s: &str) -> (r: Result<Method, ()>)
        ensures
            r == Method::spec_from(s@),
    {
        if str_eq(s, "HELO") {
            Ok(Method::Helo)
        } else if str_eq(s, "EHLO") {
            Ok(Method::Ehlo)
        } else {
            Err(())
        }
    }
}

/// Reading a method's name back yields the same method.
pub proof fn lemma_method_round(v: Method)
    ensures
        Method::spec_from(v.spec_str()) == Ok::<Method, ()>(v),
{
    reveal_strlit("HELO");
    reveal_strlit("EHLO");
    assert("HELO"@.len() == 4);
    assert("EHLO"@.len() == 4);
    assert("HELO"@[0] == 'H');
    assert("EHLO"@[0] == 'E');
    assert("HELO"@ != "EHLO"@);
}

} // verus!
