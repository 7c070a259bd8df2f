use vstd::prelude::*;

verus! {

/// A connection endpoint as reported on the wire: either a socket address
/// in its textual form, or the path of a local socket.
#[derive(Clone, Debug)]
pub enum Address {
    Ip(String),
    UnixSocket(String),
}

impl Address {
    /// The endpoint's text.
    pub open spec fn spec_str(self) -> Seq<char> {
        match self {
            Address::Ip(s) => s@,
            Address::UnixSocket(p) => p@,
        }
    }

    pub fn to_string(&self) -> (r: String)
        ensures
            r@ == self.spec_str(),
    {
        match self {
            Address::Ip(s) => s.clone(),
            Address::UnixSocket(p) => p.clone(),
        }
    }
}

} // verus!
