use crate::parsers::str_eq;
use vstd::prelude::*;
use vstd::string::StringExecFns;

verus! {

/// Which sort of filter a filter-report record speaks of.
#[derive(Clone, Copy, Debug, Eq, PartialEq, Structural)]
pub enum FilterKind {
    Builtin,
    Proc,
}

impl FilterKind {
    /// The kind's name on the wire.
    pub open spec fn spec_str(self) -> Seq<char> {
        match self {
            FilterKind::Builtin => "builtin"@,
            FilterKind::Proc => "proc"@,
        }
    }

    /// The kind named by a string, if any.
    pub open spec fn spec_from(s: Seq<char>) -> Result<FilterKind, ()> {
        if s == "builtin"@ {
            Ok(FilterKind::Builtin)
        } else if s == "proc"@ {
            Ok(FilterKind::Proc)
        } else {
            Err(())
        }
    }

    pub fn to_string(&self) -> (r: String)
        ensures
            r@ == self.spec_str(),
    {
        match self {
            FilterKind::Builtin => String::from_str("builtin"),
            FilterKind::Proc => String::from_str("proc"),
        }
    }

    pub fn from_str(s: &str) -> (r: Result<FilterKind, ()>)
        ensures
            r == FilterKind::spec_from(s@),
    {
        if str_eq(s, "builtin") {
            Ok(FilterKind::Builtin)
        } else if str_eq(s, "proc") {
            Ok(FilterKind::Proc)
        } else {
            Err(())
        }
    }
}

/// Reading a kind's name back yields the same kind.
pub proof fn lemma_filter_kind_round(v: FilterKind)
    ensures
        FilterKind::spec_from(v.spec_str()) == Ok::<FilterKind, ()>(v),
{
    reveal_strlit("builtin");
    reveal_strlit("proc");
    assert("builtin"@.len() == 7);
    assert("proc"@.len() == 4);
    assert("builtin"@ != "proc"@);
}

} // verus!
