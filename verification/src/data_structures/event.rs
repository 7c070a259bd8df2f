use crate::parsers::str_eq;
use vstd::prelude::*;
use vstd::string::StringExecFns;

verus! {

/// The tag of a report record.
#[derive(Clone, Copy, Debug, Eq, PartialEq, Structural)]
pub enum Event {
    LinkAuth,
    LinkConnect,
    LinkDisconnect,
    LinkGreeting,
    LinkIdentify,
    LinkTls,
    TxBegin,
    TxMail,
    TxReset,
    TxRcpt,
    TxEnvelope,
    TxData,
    TxCommit,
    TxRollback,
    ProtocolClient,
    ProtocolServer,
    FilterResponse,
    FilterReport,
    Timeout,
}

impl Event {
    /// The event's name on the wire.
    pub open spec fn spec_str(self) -> Seq<char> {
        match self {
            Event::LinkAuth => "link-auth"@,
            Event::LinkConnect => "link-connect"@,
            Event::LinkDisconnect => "link-disconnect"@,
            Event::LinkGreeting => "link-greeting"@,
            Event::LinkIdentify => "link-identify"@,
            Event::LinkTls => "link-tls"@,
            Event::TxBegin => "tx-begin"@,
            Event::TxMail => "tx-mail"@,
            Event::TxReset => "tx-reset"@,
            Event::TxRcpt => "tx-rcpt"@,
            Event::TxEnvelope => "tx-envelope"@,
            Event::TxData => "tx-data"@,
            Event::TxCommit => "tx-commit"@,
            Event::TxRollback => "tx-rollback"@,
            Event::ProtocolClient => "protocol-client"@,
            Event::ProtocolServer => "protocol-server"@,
            Event::FilterResponse => "filter-response"@,
            Event::FilterReport => "filter-report"@,
            Event::Timeout => "timeout"@,
        }
    }

    /// The event named by a string, if any.
    pub open spec fn spec_from(s: Seq<char>) -> Result<Event, ()> {
        if s == "link-auth"@ {
            Ok(Event::LinkAuth)
        } else if s == "link-connect"@ {
            Ok(Event::LinkConnect)
        } else if s == "link-disconnect"@ {
            Ok(Event::LinkDisconnect)
        } else if s == "link-greeting"@ {
            Ok(Event::LinkGreeting)
        } else if s == "link-identify"@ {
            Ok(Event::LinkIdentify)
        } else if s == "link-tls"@ {
            Ok(Event::LinkTls)
        } else if s == "tx-begin"@ {
            Ok(Event::TxBegin)
        } else if s == "tx-mail"@ {
            Ok(Event::TxMail)
        } else if s == "tx-reset"@ {
            Ok(Event::TxReset)
        } else if s == "tx-rcpt"@ {
            Ok(Event::TxRcpt)
        } else if s == "tx-envelope"@ {
            Ok(Event::TxEnvelope)
        } else if s == "tx-data"@ {
            Ok(Event::TxData)
        } else if s == "tx-commit"@ {
            Ok(Event::TxCommit)
        } else if s == "tx-rollback"@ {
            Ok(Event::TxRollback)
        } else if s == "protocol-client"@ {
            Ok(Event::ProtocolClient)
        } else if s == "protocol-server"@ {
            Ok(Event::ProtocolServer)
        } else if s == "filter-response"@ {
            Ok(Event::FilterResponse)
        } else if s == "filter-report"@ {
            Ok(Event::FilterReport)
        } else if s == "timeout"@ {
            Ok(Event::Timeout)
        } else {
            Err(())
        }
    }

    pub fn to_string(&self) -> (r: String)
        ensures
            r@ == self.spec_str(),
    {
        match self {
            Event::LinkAuth => String::from_str("link-auth"),
            Event::LinkConnect => String::from_str("link-connect"),
            Event::LinkDisconnect => String::from_str("link-disconnect"),
            Event::LinkGreeting => String::from_str("link-greeting"),
            Event::LinkIdentify => String::from_str("link-identify"),
            Event::LinkTls => String::from_str("link-tls"),
            Event::TxBegin => String::from_str("tx-begin"),
            Event::TxMail => String::from_str("tx-mail"),
            Event::TxReset => String::from_str("tx-reset"),
            Event::TxRcpt => String::from_str("tx-rcpt"),
            Event::TxEnvelope => String::from_str("tx-envelope"),
            Event::TxData => String::from_str("tx-data"),
            Event::TxCommit => String::from_str("tx-commit"),
            Event::TxRollback => String::from_str("tx-rollback"),
            Event::ProtocolClient => String::from_str("protocol-client"),
            Event::ProtocolServer => String::from_str("protocol-server"),
            Event::FilterResponse => String::from_str("filter-response"),
            Event::FilterReport => String::from_str("filter-report"),
            Event::Timeout => String::from_str("timeout"),
        }
    }

    pub fn from_str(s: &str) -> (r: Result<Event, ()>)
        ensures
            r == Event::spec_from(s@),
    {
        if str_eq(s, "link-auth") {
            Ok(Event::LinkAuth)
        } else if str_eq(s, "link-connect") {
            Ok(Event::LinkConnect)
        } else if str_eq(s, "link-disconnect") {
            Ok(Event::LinkDisconnect)
        } else if str_eq(s, "link-greeting") {
            Ok(Event::LinkGreeting)
        } else if str_eq(s, "link-identify") {
            Ok(Event::LinkIdentify)
        } else if str_eq(s, "link-tls") {
            Ok(Event::LinkTls)
        } else if str_eq(s, "tx-begin") {
            Ok(Event::TxBegin)
        } else if str_eq(s, "tx-mail") {
            Ok(Event::TxMail)
        } else if str_eq(s, "tx-reset") {
            Ok(Event::TxReset)
        } else if str_eq(s, "tx-rcpt") {
            Ok(Event::TxRcpt)
        } else if str_eq(s, "tx-envelope") {
            Ok(Event::TxEnvelope)
        } else if str_eq(s, "tx-data") {
            Ok(Event::TxData)
        } else if str_eq(s, "tx-commit") {
            Ok(Event::TxCommit)
        } else if str_eq(s, "tx-rollback") {
            Ok(Event::TxRollback)
        } else if str_eq(s, "protocol-client") {
            Ok(Event::ProtocolClient)
        } else if str_eq(s, "protocol-server") {
            Ok(Event::ProtocolServer)
        } else if str_eq(s, "filter-response") {
            Ok(Event::FilterResponse)
        } else if str_eq(s, "filter-report") {
            Ok(Event::FilterReport)
        } else if str_eq(s, "timeout") {
            Ok(Event::Timeout)
        } else {
            Err(())
        }
    }
}

/// A name on the wire is a nonempty parameter field.
pub proof fn lemma_event_str_wf(v: Event)
    ensures
        crate::entry::wf_field(v.spec_str()),
        v.spec_str().len() > 0,
{
    reveal_strlit("link-auth");
    reveal_strlit("link-connect");
    reveal_strlit("link-disconnect");
    reveal_strlit("link-greeting");
    reveal_strlit("link-identify");
    reveal_strlit("link-tls");
    reveal_strlit("tx-begin");
    reveal_strlit("tx-mail");
    reveal_strlit("tx-reset");
    reveal_strlit("tx-rcpt");
    reveal_strlit("tx-envelope");
    reveal_strlit("tx-data");
    reveal_strlit("tx-commit");
    reveal_strlit("tx-rollback");
    reveal_strlit("protocol-client");
    reveal_strlit("protocol-server");
    reveal_strlit("filter-response");
    reveal_strlit("filter-report");
    reveal_strlit("timeout");
    assert forall|i: int|
        0 <= i < v.spec_str().len() implies 0x20 <= ((#[trigger] v.spec_str()[i]) as int) <= 0x7e
        && v.spec_str()[i] != '|' by {}
    crate::parsers::lemma_ascii_wf_field(v.spec_str());
}

/// Reading an event's name back yields the same event.
pub proof fn lemma_event_round(v: Event)
    ensures
        Event::spec_from(v.spec_str()) == Ok::<Event, ()>(v),
{
    reveal_strlit("link-auth");
    reveal_strlit("link-connect");
    reveal_strlit("link-disconnect");
    reveal_strlit("link-greeting");
    reveal_strlit("link-identify");
    reveal_strlit("link-tls");
    reveal_strlit("tx-begin");
    reveal_strlit("tx-mail");
    reveal_strlit("tx-reset");
    reveal_strlit("tx-rcpt");
    reveal_strlit("tx-envelope");
    reveal_strlit("tx-data");
    reveal_strlit("tx-commit");
    reveal_strlit("tx-rollback");
    reveal_strlit("protocol-client");
    reveal_strlit("protocol-server");
    reveal_strlit("filter-response");
    reveal_strlit("filter-report");
    reveal_strlit("timeout");
    assert("link-auth"@.len() == 9);
    assert("link-connect"@.len() == 12);
    assert("link-disconnect"@.len() == 15);
    assert("link-greeting"@.len() == 13);
    assert("link-identify"@.len() == 13);
    assert("link-tls"@.len() == 8);
    assert("tx-begin"@.len() == 8);
    assert("tx-mail"@.len() == 7);
    assert("tx-reset"@.len() == 8);
    assert("tx-rcpt"@.len() == 7);
    assert("tx-envelope"@.len() == 11);
    assert("tx-data"@.len() == 7);
    assert("tx-commit"@.len() == 9);
    assert("tx-rollback"@.len() == 11);
    assert("protocol-client"@.len() == 15);
    assert("protocol-server"@.len() == 15);
    assert("filter-response"@.len() == 15);
    assert("filter-report"@.len() == 13);
    assert("timeout"@.len() == 7);
    assert("link-greeting"@[5] == 'g');
    assert("link-identify"@[5] == 'i');
    assert("link-tls"@[0] == 'l');
    assert("tx-begin"@[0] == 't');
    assert("link-tls"@[0] == 'l');
    assert("tx-reset"@[0] == 't');
    assert("tx-begin"@[3] == 'b');
    assert("tx-reset"@[3] == 'r');
    assert("tx-mail"@[3] == 'm');
    assert("tx-rcpt"@[3] == 'r');
    assert("tx-mail"@[3] == 'm');
    assert("tx-data"@[3] == 'd');
    assert("tx-rcpt"@[3] == 'r');
    assert("tx-data"@[3] == 'd');
    assert("link-auth"@[0] == 'l');
    assert("tx-commit"@[0] == 't');
    assert("tx-envelope"@[3] == 'e');
    assert("tx-rollback"@[3] == 'r');
    assert("link-disconnect"@[0] == 'l');
    assert("protocol-client"@[0] == 'p');
    assert("link-disconnect"@[0] == 'l');
    assert("protocol-server"@[0] == 'p');
    assert("protocol-client"@[9] == 'c');
    assert("protocol-server"@[9] == 's');
    assert("link-disconnect"@[0] == 'l');
    assert("filter-response"@[0] == 'f');
    assert("protocol-client"@[0] == 'p');
    assert("filter-response"@[0] == 'f');
    assert("protocol-server"@[0] == 'p');
    assert("filter-response"@[0] == 'f');
    assert("link-greeting"@[0] == 'l');
    assert("filter-report"@[0] == 'f');
    assert("link-identify"@[0] == 'l');
    assert("filter-report"@[0] == 'f');
    assert("tx-mail"@[1] == 'x');
    assert("timeout"@[1] == 'i');
    assert("tx-rcpt"@[1] == 'x');
    assert("timeout"@[1] == 'i');
    assert("tx-data"@[1] == 'x');
    assert("timeout"@[1] == 'i');
    assert("link-auth"@ != "link-connect"@);
    assert("link-auth"@ != "link-disconnect"@);
    assert("link-connect"@ != "link-disconnect"@);
    assert("link-auth"@ != "link-greeting"@);
    assert("link-connect"@ != "link-greeting"@);
    assert("link-disconnect"@ != "link-greeting"@);
    assert("link-auth"@ != "link-identify"@);
    assert("link-connect"@ != "link-identify"@);
    assert("link-disconnect"@ != "link-identify"@);
    assert("link-greeting"@ != "link-identify"@);
    assert("link-auth"@ != "link-tls"@);
    assert("link-connect"@ != "link-tls"@);
    assert("link-disconnect"@ != "link-tls"@);
    assert("link-greeting"@ != "link-tls"@);
    assert("link-identify"@ != "link-tls"@);
    assert("link-auth"@ != "tx-begin"@);
    assert("link-connect"@ != "tx-begin"@);
    assert("link-disconnect"@ != "tx-begin"@);
    assert("link-greeting"@ != "tx-begin"@);
    assert("link-identify"@ != "tx-begin"@);
    assert("link-tls"@ != "tx-begin"@);
    assert("link-auth"@ != "tx-mail"@);
    assert("link-connect"@ != "tx-mail"@);
    assert("link-disconnect"@ != "tx-mail"@);
    assert("link-greeting"@ != "tx-mail"@);
    assert("link-identify"@ != "tx-mail"@);
    assert("link-tls"@ != "tx-mail"@);
    assert("tx-begin"@ != "tx-mail"@);
    assert("link-auth"@ != "tx-reset"@);
    assert("link-connect"@ != "tx-reset"@);
    assert("link-disconnect"@ != "tx-reset"@);
    assert("link-greeting"@ != "tx-reset"@);
    assert("link-identify"@ != "tx-reset"@);
    assert("link-tls"@ != "tx-reset"@);
    assert("tx-begin"@ != "tx-reset"@);
    assert("tx-mail"@ != "tx-reset"@);
    assert("link-auth"@ != "tx-rcpt"@);
    assert("link-connect"@ != "tx-rcpt"@);
    assert("link-disconnect"@ != "tx-rcpt"@);
    assert("link-greeting"@ != "tx-rcpt"@);
    assert("link-identify"@ != "tx-rcpt"@);
    assert("link-tls"@ != "tx-rcpt"@);
    assert("tx-begin"@ != "tx-rcpt"@);
    assert("tx-mail"@ != "tx-rcpt"@);
    assert("tx-reset"@ != "tx-rcpt"@);
    assert("link-auth"@ != "tx-envelope"@);
    assert("link-connect"@ != "tx-envelope"@);
    assert("link-disconnect"@ != "tx-envelope"@);
    assert("link-greeting"@ != "tx-envelope"@);
    assert("link-identify"@ != "tx-envelope"@);
    assert("link-tls"@ != "tx-envelope"@);
    assert("tx-begin"@ != "tx-envelope"@);
    assert("tx-mail"@ != "tx-envelope"@);
    assert("tx-reset"@ != "tx-envelope"@);
    assert("tx-rcpt"@ != "tx-envelope"@);
    assert("link-auth"@ != "tx-data"@);
    assert("link-connect"@ != "tx-data"@);
    assert("link-disconnect"@ != "tx-data"@);
    assert("link-greeting"@ != "tx-data"@);
    assert("link-identify"@ != "tx-data"@);
    assert("link-tls"@ != "tx-data"@);
    assert("tx-begin"@ != "tx-data"@);
    assert("tx-mail"@ != "tx-data"@);
    assert("tx-reset"@ != "tx-data"@);
    assert("tx-rcpt"@ != "tx-data"@);
    assert("tx-envelope"@ != "tx-data"@);
    assert("link-auth"@ != "tx-commit"@);
    assert("link-connect"@ != "tx-commit"@);
    assert("link-disconnect"@ != "tx-commit"@);
    assert("link-greeting"@ != "tx-commit"@);
    assert("link-identify"@ != "tx-commit"@);
    assert("link-tls"@ != "tx-commit"@);
    assert("tx-begin"@ != "tx-commit"@);
    assert("tx-mail"@ != "tx-commit"@);
    assert("tx-reset"@ != "tx-commit"@);
    assert("tx-rcpt"@ != "tx-commit"@);
    assert("tx-envelope"@ != "tx-commit"@);
    assert("tx-data"@ != "tx-commit"@);
    assert("link-auth"@ != "tx-rollback"@);
    assert("link-connect"@ != "tx-rollback"@);
    assert("link-disconnect"@ != "tx-rollback"@);
    assert("link-greeting"@ != "tx-rollback"@);
    assert("link-identify"@ != "tx-rollback"@);
    assert("link-tls"@ != "tx-rollback"@);
    assert("tx-begin"@ != "tx-rollback"@);
    assert("tx-mail"@ != "tx-rollback"@);
    assert("tx-reset"@ != "tx-rollback"@);
    assert("tx-rcpt"@ != "tx-rollback"@);
    assert("tx-envelope"@ != "tx-rollback"@);
    assert("tx-data"@ != "tx-rollback"@);
    assert("tx-commit"@ != "tx-rollback"@);
    assert("link-auth"@ != "protocol-client"@);
    assert("link-connect"@ != "protocol-client"@);
    assert("link-disconnect"@ != "protocol-client"@);
    assert("link-greeting"@ != "protocol-client"@);
    assert("link-identify"@ != "protocol-client"@);
    assert("link-tls"@ != "protocol-client"@);
    assert("tx-begin"@ != "protocol-client"@);
    assert("tx-mail"@ != "protocol-client"@);
    assert("tx-reset"@ != "protocol-client"@);
    assert("tx-rcpt"@ != "protocol-client"@);
    assert("tx-envelope"@ != "protocol-client"@);
    assert("tx-data"@ != "protocol-client"@);
    assert("tx-commit"@ != "protocol-client"@);
    assert("tx-rollback"@ != "protocol-client"@);
    assert("link-auth"@ != "protocol-server"@);
    assert("link-connect"@ != "protocol-server"@);
    assert("link-disconnect"@ != "protocol-server"@);
    assert("link-greeting"@ != "protocol-server"@);
    assert("link-identify"@ != "protocol-server"@);
    assert("link-tls"@ != "protocol-server"@);
    assert("tx-begin"@ != "protocol-server"@);
    assert("tx-mail"@ != "protocol-server"@);
    assert("tx-reset"@ != "protocol-server"@);
    assert("tx-rcpt"@ != "protocol-server"@);
    assert("tx-envelope"@ != "protocol-server"@);
    assert("tx-data"@ != "protocol-server"@);
    assert("tx-commit"@ != "protocol-server"@);
    assert("tx-rollback"@ != "protocol-server"@);
    assert("protocol-client"@ != "protocol-server"@);
    assert("link-auth"@ != "filter-response"@);
    assert("link-connect"@ != "filter-response"@);
    assert("link-disconnect"@ != "filter-response"@);
    assert("link-greeting"@ != "filter-response"@);
    assert("link-identify"@ != "filter-response"@);
    assert("link-tls"@ != "filter-response"@);
    assert("tx-begin"@ != "filter-response"@);
    assert("tx-mail"@ != "filter-response"@);
    assert("tx-reset"@ != "filter-response"@);
    assert("tx-rcpt"@ != "filter-response"@);
    assert("tx-envelope"@ != "filter-response"@);
    assert("tx-data"@ != "filter-response"@);
    assert("tx-commit"@ != "filter-response"@);
    assert("tx-rollback"@ != "filter-response"@);
    assert("protocol-client"@ != "filter-response"@);
    assert("protocol-server"@ != "filter-response"@);
    assert("link-auth"@ != "filter-report"@);
    assert("link-connect"@ != "filter-report"@);
    assert("link-disconnect"@ != "filter-report"@);
    assert("link-greeting"@ != "filter-report"@);
    assert("link-identify"@ != "filter-report"@);
    assert("link-tls"@ != "filter-report"@);
    assert("tx-begin"@ != "filter-report"@);
    assert("tx-mail"@ != "filter-report"@);
    assert("tx-reset"@ != "filter-report"@);
    assert("tx-rcpt"@ != "filter-report"@);
    assert("tx-envelope"@ != "filter-report"@);
    assert("tx-data"@ != "filter-report"@);
    assert("tx-commit"@ != "filter-report"@);
    assert("tx-rollback"@ != "filter-report"@);
    assert("protocol-client"@ != "filter-report"@);
    assert("protocol-server"@ != "filter-report"@);
    assert("filter-response"@ != "filter-report"@);
    assert("link-auth"@ != "timeout"@);
    assert("link-connect"@ != "timeout"@);
    assert("link-disconnect"@ != "timeout"@);
    assert("link-greeting"@ != "timeout"@);
    assert("link-identify"@ != "timeout"@);
    assert("link-tls"@ != "timeout"@);
    assert("tx-begin"@ != "timeout"@);
    assert("tx-mail"@ != "timeout"@);
    assert("tx-reset"@ != "timeout"@);
    assert("tx-rcpt"@ != "timeout"@);
    assert("tx-envelope"@ != "timeout"@);
    assert("tx-data"@ != "timeout"@);
    assert("tx-commit"@ != "timeout"@);
    assert("tx-rollback"@ != "timeout"@);
    assert("protocol-client"@ != "timeout"@);
    assert("protocol-server"@ != "timeout"@);
    assert("filter-response"@ != "timeout"@);
    assert("filter-report"@ != "timeout"@);
    match v {
        Event::LinkAuth => {
        },
        Event::LinkConnect => {
        },
        Event::LinkDisconnect => {
        },
        Event::LinkGreeting => {
        },
        Event::LinkIdentify => {
        },
        Event::LinkTls => {
        },
        Event::TxBegin => {
        },
        Event::TxMail => {
        },
        Event::TxReset => {
        },
        Event::TxRcpt => {
        },
        Event::TxEnvelope => {
        },
        Event::TxData => {
        },
        Event::TxCommit => {
        },
        Event::TxRollback => {
        },
        Event::ProtocolClient => {
        },
        Event::ProtocolServer => {
        },
        Event::FilterResponse => {
        },
        Event::FilterReport => {
        },
        Event::Timeout => {
        },
    }
}

} // verus!
