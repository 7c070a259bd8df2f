use crate::data_structures::smtp_status::SmtpStatusCode;
use vstd::prelude::*;
use vstd::string::StringExecFns;

verus! {

/// A handler's verdict for a filter request.
#[derive(Clone, Debug)]
pub enum FilterResponse {
    Proceed,
    Junk,
    Reject(SmtpStatusCode),
    Disconnect(SmtpStatusCode),
    Rewrite(String),
    Report(String),
}

impl FilterResponse {
    /// The decision text that goes on the wire.
    pub open spec fn spec_str(self) -> Seq<char> {
        match self {
            FilterResponse::Proceed => "proceed"@,
            FilterResponse::Junk => "junk"@,
            FilterResponse::Reject(e) => "reject|"@ + e.spec_str(),
            FilterResponse::Disconnect(e) => "disconnect|"@ + e.spec_str(),
            FilterResponse::Rewrite(s) => "rewrite|"@ + s@,
            FilterResponse::Report(s) => "report|"@ + s@,
        }
    }

    pub fn to_string(&self) -> (r: String)
        ensures
            r@ == self.spec_str(),
    {
        match self {
            FilterResponse::Proceed => String::from_str("proceed"),
            FilterResponse::Junk => String::from_str("junk"),
            FilterResponse::Reject(e) => {
                let mut r = String::from_str("reject|");
                let t = e.to_string();
                r.append(t.as_str());
                r
            },
            FilterResponse::Disconnect(e) => {
                let mut r = String::from_str("disconnect|");
                let t = e.to_string();
                r.append(t.as_str());
                r
            },
            FilterResponse::Rewrite(s) => {
                let mut r = String::from_str("rewrite|");
                r.append(s.as_str());
                r
            },
            FilterResponse::Report(s) => {
                let mut r = String::from_str("report|");
                r.append(s.as_str());
                r
            },
        }
    }
}

} // verus!
