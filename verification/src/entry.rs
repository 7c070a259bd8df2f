use crate::data_structures::event::Event;
use crate::data_structures::filter_phase::FilterPhase;
use crate::data_structures::subsystem::SubSystem;
use crate::data_structures::timeval::TimeVal;
use crate::errors::Error;
use crate::parsers::entry::{parse_entry, sp_parse_entry};
use crate::parsers::{body_byte, str_eq};
use vstd::prelude::*;
use vstd::string::StringExecFns;
use vstd::string::StringSliceAdditionalSpecFns;

verus! {

/// Whether a record is a report or a filter request.
#[derive(Clone, Copy, Debug, Eq, PartialEq, Structural)]
pub enum Kind {
    Report,
    Filter,
}

impl Kind {
    /// The kind's name on the wire.
    pub open spec fn spec_str(self) -> Seq<char> {
        match self {
            Kind::Report => "report"@,
            Kind::Filter => "filter"@,
        }
    }

    /// The kind named by a string, if any.
    pub open spec fn spec_from(s: Seq<char>) -> Result<Kind, ()> {
        if s == "report"@ {
            Ok(Kind::Report)
        } else if s == "filter"@ {
            Ok(Kind::Filter)
        } else {
            Err(())
        }
    }

    pub fn to_string(&self) -> (r: String)
        ensures
            r@ == self.spec_str(),
    {
        match self {
            Kind::Report => String::from_str("report"),
            Kind::Filter => String::from_str("filter"),
        }
    }

    pub fn from_str(s: &str) -> (r: Result<Kind, ()>)
        ensures
            r == Kind::spec_from(s@),
    {
        if str_eq(s, "report") {
            Ok(Kind::Report)
        } else if str_eq(s, "filter") {
            Ok(Kind::Filter)
        } else {
            Err(())
        }
    }
}

/// A kind's name is a nonempty parameter field.
pub proof fn lemma_kind_str_wf(v: Kind)
    ensures
        wf_field(v.spec_str()),
        v.spec_str().len() > 0,
{
    reveal_strlit("report");
    reveal_strlit("filter");
    assert forall|i: int|
        0 <= i < v.spec_str().len() implies 0x20 <= ((#[trigger] v.spec_str()[i]) as int) <= 0x7e
        && v.spec_str()[i] != '|' by {}
    crate::parsers::lemma_ascii_wf_field(v.spec_str());
}

/// Reading a kind's name back yields the same kind.
pub proof fn lemma_kind_round(v: Kind)
    ensures
        Kind::spec_from(v.spec_str()) == Ok::<Kind, ()>(v),
{
    reveal_strlit("report");
    reveal_strlit("filter");
    assert("report"@.len() == 6);
    assert("filter"@.len() == 6);
    assert("report"@[0] == 'r');
    assert("filter"@[0] == 'f');
    assert("report"@ != "filter"@);
}

/// A well-formed parameter field: every byte of its UTF-8 encoding is a
/// parameter byte, so the field fits between delimiters on the wire.
pub open spec fn wf_field(s: Seq<char>) -> bool {
    forall|i: int|
        0 <= i < vstd::utf8::encode_utf8(s).len() ==> crate::parsers::param_byte(
            #[trigger] vstd::utf8::encode_utf8(s)[i],
        )
}

pub open spec fn wf_params(ps: Seq<Seq<char>>) -> bool {
    forall|i: int| 0 <= i < ps.len() ==> wf_field(#[trigger] ps[i])
}

/// The mathematical content of a report record.
pub struct ReportEntryV {
    pub version: Seq<char>,
    pub timestamp: TimeVal,
    pub subsystem: SubSystem,
    pub event: Event,
    pub session_id: u64,
    pub params: Seq<Seq<char>>,
}

impl ReportEntryV {
    pub open spec fn wf(self) -> bool {
        &&& self.version.len() > 0
        &&& wf_field(self.version)
        &&& self.timestamp.wf()
        &&& wf_params(self.params)
    }
}

/// The mathematical content of a filter request record.
pub struct FilterEntryV {
    pub version: Seq<char>,
    pub timestamp: TimeVal,
    pub subsystem: SubSystem,
    pub phase: FilterPhase,
    pub session_id: u64,
    pub token: u64,
    pub params: Seq<Seq<char>>,
    pub data_line: Option<Seq<u8>>,
}

impl FilterEntryV {
    pub open spec fn wf(self) -> bool {
        &&& self.version.len() > 0
        &&& wf_field(self.version)
        &&& self.timestamp.wf()
        &&& (self.data_line is Some <==> self.phase == FilterPhase::DataLine)
        &&& (self.phase == FilterPhase::DataLine ==> self.params.len() == 0)
        &&& wf_params(self.params)
        &&& (self.data_line matches Some(d) ==> forall|i: int|
            0 <= i < d.len() ==> body_byte(#[trigger] d[i]))
    }
}

/// The mathematical content of one record.
pub enum EntryV {
    Report(ReportEntryV),
    Filter(FilterEntryV),
}

/// A report record: the common fields and the raw parameter tail.
pub struct ReportEntry {
    pub version: String,
    pub timestamp: TimeVal,
    pub subsystem: SubSystem,
    pub event: Event,
    pub session_id: u64,
    pub params: Vec<String>,
}

impl View for ReportEntry {
    type V = ReportEntryV;

    open spec fn view(&self) -> ReportEntryV {
        ReportEntryV {
            version: self.version@,
            timestamp: self.timestamp,
            subsystem: self.subsystem,
            event: self.event,
            session_id: self.session_id,
            params: self.params.deep_view(),
        }
    }
}

/// A filter request record: the common fields, the per-request token that
/// the response must echo, and the raw parameter tail.  For the data-line
/// phase the payload is kept verbatim, as bytes.
pub struct FilterEntry {
    pub version: String,
    pub timestamp: TimeVal,
    pub subsystem: SubSystem,
    pub phase: FilterPhase,
    pub session_id: u64,
    pub token: u64,
    pub params: Vec<String>,
    pub data_line: Option<Vec<u8>>,
}

impl View for FilterEntry {
    type V = FilterEntryV;

    open spec fn view(&self) -> FilterEntryV {
        FilterEntryV {
            version: self.version@,
            timestamp: self.timestamp,
            subsystem: self.subsystem,
            phase: self.phase,
            session_id: self.session_id,
            token: self.token,
            params: self.params.deep_view(),
            data_line: match self.data_line {
                Some(d) => Some(d@),
                None => None,
            },
        }
    }
}

/// One decoded wire record.
pub enum Entry {
    V1Report(ReportEntry),
    V1Filter(FilterEntry),
}

impl View for Entry {
    type V = EntryV;

    open spec fn view(&self) -> EntryV {
        match self {
            Entry::V1Report(r) => EntryV::Report(r@),
            Entry::V1Filter(f) => EntryV::Filter(f@),
        }
    }
}

impl EntryV {
    pub open spec fn wf(self) -> bool {
        match self {
            EntryV::Report(r) => r.wf(),
            EntryV::Filter(f) => f.wf(),
        }
    }

    pub open spec fn kind(self) -> Kind {
        match self {
            EntryV::Report(_) => Kind::Report,
            EntryV::Filter(_) => Kind::Filter,
        }
    }

    pub open spec fn session_id(self) -> u64 {
        match self {
            EntryV::Report(r) => r.session_id,
            EntryV::Filter(f) => f.session_id,
        }
    }

    pub open spec fn subsystem(self) -> SubSystem {
        match self {
            EntryV::Report(r) => r.subsystem,
            EntryV::Filter(f) => f.subsystem,
        }
    }
}

impl Entry {
    /// Decodes one wire line into a record.
    pub fn from_str(entry: &str) -> (r: Result<Entry, Error>)
        ensures
            r is Ok <==> sp_parse_entry(entry.spec_bytes()) is Some,
            r is Ok ==> r->Ok_0@ == sp_parse_entry(entry.spec_bytes())->Some_0,
            r is Ok ==> r->Ok_0@.wf(),
    {
        parse_entry(entry.as_bytes())
    }

    /// The event a report record carries; a filter request carries a phase
    /// instead.
    pub fn get_event(&self) -> (r: Option<Event>)
        ensures
            match self {
                Entry::V1Report(rep) => r == Some(rep.event),
                Entry::V1Filter(_) => r is None,
            },
    {
        match self {
            Entry::V1Report(rep) => Some(rep.event),
            Entry::V1Filter(_) => None,
        }
    }

    /// The phase a filter request carries.
    pub fn get_phase(&self) -> (r: Option<FilterPhase>)
        ensures
            match self {
                Entry::V1Report(_) => r is None,
                Entry::V1Filter(f) => r == Some(f.phase),
            },
    {
        match self {
            Entry::V1Report(_) => None,
            Entry::V1Filter(f) => Some(f.phase),
        }
    }

    /// The session the record belongs to.
    pub fn get_session_id(&self) -> (r: u64)
        ensures
            r == self@.session_id(),
    {
        match self {
            Entry::V1Report(rep) => rep.session_id,
            Entry::V1Filter(f) => f.session_id,
        }
    }

    /// Whether the record closes its session.
    pub fn is_disconnect(&self) -> (r: bool)
        ensures
            r == (self@ matches EntryV::Report(rep) && rep.event == Event::LinkDisconnect),
    {
        match self {
            Entry::V1Report(rep) => rep.event == Event::LinkDisconnect,
            Entry::V1Filter(_) => false,
        }
    }
}

} // verus!
