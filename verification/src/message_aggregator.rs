use crate::encoder::{encode_data_line, push_str, sp_data_line_bytes};
use crate::entry::FilterEntry;
use vstd::prelude::*;
use vstd::string::StringSliceAdditionalSpecFns;

verus! {

/// What can go wrong while a message is being collected.
pub enum Error {
    AlreadyComplete,
}

/// What one appended line did to the collection.
pub enum Status {
    Okay,
    Incomplete,
    Error(Error),
}

enum State {
    Headers,
    Done,
}

/// The payload a stored header echoes: its name's bytes, then its
/// separator, then its value.
pub open spec fn sp_header_line(h: (String, Vec<u8>, Vec<u8>)) -> Seq<u8> {
    vstd::utf8::encode_utf8(h.0@) + h.1@ + h.2@
}

/// Collects the data lines of one message so they can be edited and then
/// echoed; the single-dot sentinel closes the collection.
pub struct MessageAggregator {
    pub headers: Vec<(String, Vec<u8>, Vec<u8>)>,
    state: State,
    entry: FilterEntry,
}

impl MessageAggregator {
    /// Whether the sentinel has been seen.
    pub closed spec fn is_done(self) -> bool {
        self.state is Done
    }

    /// The request the collected message belongs to.
    pub closed spec fn entry_spec(self) -> crate::entry::FilterEntryV {
        self.entry@
    }

    /// The headers collected so far.
    pub closed spec fn headers_spec(self) -> Seq<(String, Vec<u8>, Vec<u8>)> {
        self.headers@
    }

    /// Starts collecting the message of one request.
    pub fn new(entry: FilterEntry) -> (r: MessageAggregator)
        ensures
            r.headers_spec().len() == 0,
            !r.is_done(),
            r.entry_spec() == entry@,
    {
        MessageAggregator { headers: Vec::new(), state: State::Headers, entry }
    }

    /// The wire lines that echo the collected message: one data line per
    /// header, then the single-dot sentinel.
    pub fn return_message(&self) -> (lines: Vec<Vec<u8>>)
        ensures
            lines@.len() == self.headers_spec().len() + 1,
            forall|i: int|
                0 <= i < self.headers_spec().len() ==> (#[trigger] lines@[i])@
                    == sp_data_line_bytes(
                    self.entry_spec().session_id,
                    self.entry_spec().token,
                    sp_header_line(self.headers_spec()[i]),
                ),
            lines@[lines@.len() - 1]@ == sp_data_line_bytes(
                self.entry_spec().session_id,
                self.entry_spec().token,
                seq![0x2eu8],
            ),
    {
        let mut lines: Vec<Vec<u8>> = Vec::new();
        let mut i: usize = 0;
        while i < self.headers.len()
            invariant
                i <= self.headers@.len(),
                lines@.len() == i,
                forall|j: int|
                    0 <= j < i ==> (#[trigger] lines@[j])@ == sp_data_line_bytes(
                        self.entry_spec().session_id,
                        self.entry_spec().token,
                        sp_header_line(self.headers_spec()[j]),
                    ),
            decreases self.headers@.len() - i,
        {
            let mut line: Vec<u8> = Vec::new();
            let h = &self.headers[i];
            push_str(&mut line, h.0.as_str());
            line.extend_from_slice(h.1.as_slice());
            line.extend_from_slice(h.2.as_slice());
            let encoded = encode_data_line(&self.entry, line.as_slice());
            let ghost before = lines@;
            lines.push(encoded);
            proof {
                assert(line@ =~= sp_header_line(self.headers_spec()[i as int]));
                assert(lines@[before.len() as int]@ == sp_data_line_bytes(
                    self.entry_spec().session_id,
                    self.entry_spec().token,
                    sp_header_line(self.headers_spec()[i as int]),
                ));
            }
            i += 1;
        }
        let dot: [u8; 1] = [0x2e];
        let sentinel = encode_data_line(&self.entry, dot.as_slice());
        proof {
            assert(dot@ =~= seq![0x2eu8]);
        }
        lines.push(sentinel);
        lines
    }

    /// Feeds one data line: the sentinel completes the message; feeding a
    /// completed message is an error; anything else is kept for later.
    pub fn append(&mut self, data_line: &[u8]) -> (s: Status)
        ensures
            old(self).is_done() ==> s is Error && *final(self) == *old(self),
            !old(self).is_done() && data_line@ == seq![0x2eu8] ==> s is Okay
                && final(self).is_done() && final(self).headers_spec() == old(self).headers_spec()
                && final(self).entry_spec() == old(self).entry_spec(),
            !old(self).is_done() && data_line@ != seq![0x2eu8] ==> s is Incomplete && *final(self)
                == *old(self),
    {
        match self.state {
            State::Headers => self.append_header(data_line),
            State::Done => Status::Error(Error::AlreadyComplete),
        }
    }

    /// Feeds one header line; the sentinel ends the header section.
    fn append_header(&mut self, data_line: &[u8]) -> (s: Status)
        requires
            !old(self).is_done(),
        ensures
            data_line@ == seq![0x2eu8] ==> s is Okay && final(self).is_done()
                && final(self).headers_spec() == old(self).headers_spec()
                && final(self).entry_spec() == old(self).entry_spec(),
            data_line@ != seq![0x2eu8] ==> s is Incomplete && *final(self) == *old(self),
    {
        if data_line.len() == 1 && data_line[0] == 0x2e {
            proof {
                assert(data_line@ =~= seq![0x2eu8]);
            }
            self.state = State::Done;
            return Status::Okay;
        }
        proof {
            if data_line@ == seq![0x2eu8] {
                assert(data_line@.len() == 1 && data_line@[0] == 0x2e);
            }
        }
        Status::Incomplete
    }
}

} // verus!
