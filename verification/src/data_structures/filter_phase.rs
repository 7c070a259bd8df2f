use crate::parsers::str_eq;
use vstd::prelude::*;
use vstd::string::StringExecFns;

verus! {

/// The protocol step a filter request pertains to.
#[derive(Clone, Copy, Debug, Eq, PartialEq, Structural)]
pub enum FilterPhase {
    Connect,
    Helo,
    Ehlo,
    StartTls,
    Auth,
    MailFrom,
    RcptTo,
    Data,
    DataLine,
    Commit,
}

impl FilterPhase {
    /// The phase's name on the wire.
    pub open spec fn spec_str(self) -> Seq<char> {
        match self {
            FilterPhase::Connect => "connect"@,
            FilterPhase::Helo => "helo"@,
            FilterPhase::Ehlo => "ehlo"@,
            FilterPhase::StartTls => "starttls"@,
            FilterPhase::Auth => "auth"@,
            FilterPhase::MailFrom => "mail-from"@,
            FilterPhase::RcptTo => "rcpt-to"@,
            FilterPhase::Data => "data"@,
            FilterPhase::DataLine => "data-line"@,
            FilterPhase::Commit => "commit"@,
        }
    }

    /// The phase named by a string, if any.
    pub open spec fn spec_from(s: Seq<char>) -> Result<FilterPhase, ()> {
        if s == "connect"@ {
            Ok(FilterPhase::Connect)
        } else if s == "helo"@ {
            Ok(FilterPhase::Helo)
        } else if s == "ehlo"@ {
            Ok(FilterPhase::Ehlo)
        } else if s == "starttls"@ {
            Ok(FilterPhase::StartTls)
        } else if s == "auth"@ {
            Ok(FilterPhase::Auth)
        } else if s == "mail-from"@ {
            Ok(FilterPhase::MailFrom)
        } else if s == "rcpt-to"@ {
            Ok(FilterPhase::RcptTo)
        } else if s == "data"@ {
            Ok(FilterPhase::Data)
        } else if s == "data-line"@ {
            Ok(FilterPhase::DataLine)
        } else if s == "commit"@ {
            Ok(FilterPhase::Commit)
        } else {
            Err(())
        }
    }

    pub fn to_string(&self) -> (r: String)
        ensures
            r@ == self.spec_str(),
    {
        match self {
            FilterPhase::Connect => String::from_str("connect"),
            FilterPhase::Helo => String::from_str("helo"),
            FilterPhase::Ehlo => String::from_str("ehlo"),
            FilterPhase::StartTls => String::from_str("starttls"),
            FilterPhase::Auth => String::from_str("auth"),
            FilterPhase::MailFrom => String::from_str("mail-from"),
            FilterPhase::RcptTo => String::from_str("rcpt-to"),
            FilterPhase::Data => String::from_str("data"),
            FilterPhase::DataLine => String::from_str("data-line"),
            FilterPhase::Commit => String::from_str("commit"),
        }
    }

    pub fn from_str(s: &str) -> (r: Result<FilterPhase, ()>)
        ensures
            r == FilterPhase::spec_from(s@),
    {
        if str_eq(s, "connect") {
            Ok(FilterPhase::Connect)
        } else if str_eq(s, "helo") {
            Ok(FilterPhase::Helo)
        } else if str_eq(s, "ehlo") {
            Ok(FilterPhase::Ehlo)
        } else if str_eq(s, "starttls") {
            Ok(FilterPhase::StartTls)
        } else if str_eq(s, "auth") {
            Ok(FilterPhase::Auth)
        } else if str_eq(s, "mail-from") {
            Ok(FilterPhase::MailFrom)
        } else if str_eq(s, "rcpt-to") {
            Ok(FilterPhase::RcptTo)
        } else if str_eq(s, "data") {
            Ok(FilterPhase::Data)
        } else if str_eq(s, "data-line") {
            Ok(FilterPhase::DataLine)
        } else if str_eq(s, "commit") {
            Ok(FilterPhase::Commit)
        } else {
            Err(())
        }
    }
}

/// A name on the wire is a nonempty parameter field.
pub proof fn lemma_filter_phase_str_wf(v: FilterPhase)
    ensures
        crate::entry::wf_field(v.spec_str()),
        v.spec_str().len() > 0,
{
    reveal_strlit("connect");
    reveal_strlit("helo");
    reveal_strlit("ehlo");
    reveal_strlit("starttls");
    reveal_strlit("auth");
    reveal_strlit("mail-from");
    reveal_strlit("rcpt-to");
    reveal_strlit("data");
    reveal_strlit("data-line");
    reveal_strlit("commit");
    assert forall|i: int|
        0 <= i < v.spec_str().len() implies 0x20 <= ((#[trigger] v.spec_str()[i]) as int) <= 0x7e
        && v.spec_str()[i] != '|' by {}
    crate::parsers::lemma_ascii_wf_field(v.spec_str());
}

/// Reading a phase's name back yields the same phase.
pub proof fn lemma_filter_phase_round(v: FilterPhase)
    ensures
        FilterPhase::spec_from(v.spec_str()) == Ok::<FilterPhase, ()>(v),
{
    reveal_strlit("connect");
    reveal_strlit("helo");
    reveal_strlit("ehlo");
    reveal_strlit("starttls");
    reveal_strlit("auth");
    reveal_strlit("mail-from");
    reveal_strlit("rcpt-to");
    reveal_strlit("data");
    reveal_strlit("data-line");
    reveal_strlit("commit");
    assert("connect"@.len() == 7);
    assert("helo"@.len() == 4);
    assert("ehlo"@.len() == 4);
    assert("starttls"@.len() == 8);
    assert("auth"@.len() == 4);
    assert("mail-from"@.len() == 9);
    assert("rcpt-to"@.len() == 7);
    assert("data"@.len() == 4);
    assert("data-line"@.len() == 9);
    assert("commit"@.len() == 6);
    assert("helo"@[0] == 'h');
    assert("ehlo"@[0] == 'e');
    assert("helo"@[0] == 'h');
    assert("auth"@[0] == 'a');
    assert("ehlo"@[0] == 'e');
    assert("auth"@[0] == 'a');
    assert("connect"@[0] == 'c');
    assert("rcpt-to"@[0] == 'r');
    assert("helo"@[0] == 'h');
    assert("data"@[0] == 'd');
    assert("ehlo"@[0] == 'e');
    assert("data"@[0] == 'd');
    assert("auth"@[0] == 'a');
    assert("data"@[0] == 'd');
    assert("mail-from"@[0] == 'm');
    assert("data-line"@[0] == 'd');
    assert("connect"@ != "helo"@);
    assert("connect"@ != "ehlo"@);
    assert("helo"@ != "ehlo"@);
    assert("connect"@ != "starttls"@);
    assert("helo"@ != "starttls"@);
    assert("ehlo"@ != "starttls"@);
    assert("connect"@ != "auth"@);
    assert("helo"@ != "auth"@);
    assert("ehlo"@ != "auth"@);
    assert("starttls"@ != "auth"@);
    assert("connect"@ != "mail-from"@);
    assert("helo"@ != "mail-from"@);
    assert("ehlo"@ != "mail-from"@);
    assert("starttls"@ != "mail-from"@);
    assert("auth"@ != "mail-from"@);
    assert("connect"@ != "rcpt-to"@);
    assert("helo"@ != "rcpt-to"@);
    assert("ehlo"@ != "rcpt-to"@);
    assert("starttls"@ != "rcpt-to"@);
    assert("auth"@ != "rcpt-to"@);
    assert("mail-from"@ != "rcpt-to"@);
    assert("connect"@ != "data"@);
    assert("helo"@ != "data"@);
    assert("ehlo"@ != "data"@);
    assert("starttls"@ != "data"@);
    assert("auth"@ != "data"@);
    assert("mail-from"@ != "data"@);
    assert("rcpt-to"@ != "data"@);
    assert("connect"@ != "data-line"@);
    assert("helo"@ != "data-line"@);
    assert("ehlo"@ != "data-line"@);
    assert("starttls"@ != "data-line"@);
    assert("auth"@ != "data-line"@);
    assert("mail-from"@ != "data-line"@);
    assert("rcpt-to"@ != "data-line"@);
    assert("data"@ != "data-line"@);
    assert("connect"@ != "commit"@);
    assert("helo"@ != "commit"@);
    assert("ehlo"@ != "commit"@);
    assert("starttls"@ != "commit"@);
    assert("auth"@ != "commit"@);
    assert("mail-from"@ != "commit"@);
    assert("rcpt-to"@ != "commit"@);
    assert("data"@ != "commit"@);
    assert("data-line"@ != "commit"@);
}

} // verus!
