use crate::parsers::str_eq;
use vstd::prelude::*;
use vstd::string::StringExecFns;

verus! {

/// The traffic direction a record pertains to.
#[derive(Clone, Copy, Debug, Eq, PartialEq, Structural)]
pub enum SubSystem {
    SmtpIn,
    SmtpOut,
}

impl SubSystem {
    /// The subsystem's name on the wire.
    pub open spec fn spec_str(self) -> Seq<char> {
        match self {
            SubSystem::SmtpIn => "smtp-in"@,
            SubSystem::SmtpOut => "smtp-out"@,
        }
    }

    /// The subsystem named by a string, if any.
    pub open spec fn spec_from(s: Seq<char>) -> Result<SubSystem, ()> {
        if s == "smtp-in"@ {
            Ok(SubSystem::SmtpIn)
        } else if s == "smtp-out"@ {
            Ok(SubSystem::SmtpOut)
        } else {
            Err(())
        }
    }

    pub fn to_string(&self) -> (r: String)
        ensures
            r@ == self.spec_str(),
    {
        match self {
            SubSystem::SmtpIn => String::from_str("smtp-in"),
            SubSystem::SmtpOut => String::from_str("smtp-out"),
        }
    }

    pub fn from_str(s: &str) -> (r: Result<SubSystem, ()>)
        ensures
            r == SubSystem::spec_from(s@),
    {
        if str_eq(s, "smtp-in") {
            Ok(SubSystem::SmtpIn)
        } else if str_eq(s, "smtp-out") {
            Ok(SubSystem::SmtpOut)
        } else {
            Err(())
        }
    }
}

/// A subsystem's name is a nonempty parameter field.
pub proof fn lemma_subsystem_str_wf(v: SubSystem)
    ensures
        crate::entry::wf_field(v.spec_str()),
        v.spec_str().len() > 0,
{
    reveal_strlit("smtp-in");
    reveal_strlit("smtp-out");
    assert forall|i: int|
        0 <= i < v.spec_str().len() implies 0x20 <= ((#[trigger] v.spec_str()[i]) as int) <= 0x7e
        && v.spec_str()[i] != '|' by {}
    crate::parsers::lemma_ascii_wf_field(v.spec_str());
}

/// Reading a subsystem's name back yields the same subsystem.
pub proof fn lemma_subsystem_round(v: SubSystem)
    ensures
        SubSystem::spec_from(v.spec_str()) == Ok::<SubSystem, ()>(v),
{
    reveal_strlit("smtp-in");
    reveal_strlit("smtp-out");
    assert("smtp-in"@.len() == 7);
    assert("smtp-out"@.len() == 8);
    match v {
        SubSystem::SmtpIn => {
            assert(SubSystem::spec_from(v.spec_str()) == Ok::<SubSystem, ()>(v));
        },
        SubSystem::SmtpOut => {
            assert(v.spec_str() == "smtp-out"@);
            assert("smtp-out"@ != "smtp-in"@);
            assert(SubSystem::spec_from(v.spec_str()) == Ok::<SubSystem, ()>(v));
        },
    }
}

} // verus!
