use crate::data_structures::subsystem::SubSystem;
use crate::errors::Error;
use crate::numbers::dec_val;
use crate::parsers::entry::{p_eol, p_field, p_sep, sp_eol, sp_field, sp_sep};
use crate::parsers::{class_fn, lemma_prefix_len_bounds, sp_take, str_eq, take_prefix, ByteClass};
use vstd::prelude::*;

verus! {

// The startup handshake: four configuration lines, in this exact order,
// before any record may be decoded.
//
//   config|smtpd-version|<version>
//   config|smtp-session-timeout|<seconds>
//   config|subsystem|<smtp-in|smtp-out>
//   config|ready

/// What the handshake negotiates.
pub struct Handshake {
    pub smtpd_version: String,
    pub smtp_session_timeout: usize,
    pub subsystem: SubSystem,
}

/// The mathematical content of a finished handshake.
pub struct HandshakeV {
    pub smtpd_version: Seq<char>,
    pub smtp_session_timeout: usize,
    pub subsystem: SubSystem,
}

impl View for Handshake {
    type V = HandshakeV;

    open spec fn view(&self) -> HandshakeV {
        HandshakeV {
            smtpd_version: self.smtpd_version@,
            smtp_session_timeout: self.smtp_session_timeout,
            subsystem: self.subsystem,
        }
    }
}

/// Consumes `config|<key>|` for the given key.
pub open spec fn sp_config_key(key: Seq<char>, s: Seq<u8>) -> Option<Seq<u8>> {
    match sp_field(s) {
        None => None,
        Some((c, s1)) => if c != "config"@ {
            None
        } else {
            match sp_sep(s1) {
                None => None,
                Some(s2) => match sp_field(s2) {
                    None => None,
                    Some((k, s3)) => if k != key {
                        None
                    } else {
                        sp_sep(s3)
                    },
                },
            }
        },
    }
}

/// Consumes the version line and yields the daemon's version.
pub open spec fn sp_version_line(s: Seq<u8>) -> Option<(Seq<char>, Seq<u8>)> {
    match sp_config_key("smtpd-version"@, s) {
        None => None,
        Some(s1) => match sp_field(s1) {
            None => None,
            Some((v, s2)) => match sp_eol(s2) {
                None => None,
                Some(s3) => Some((v, s3)),
            },
        },
    }
}

/// Consumes the timeout line and yields the session timeout in seconds.
pub open spec fn sp_timeout_line(s: Seq<u8>) -> Option<(usize, Seq<u8>)> {
    match sp_config_key("smtp-session-timeout"@, s) {
        None => None,
        Some(s1) => {
            let (ds, s2) = sp_take(ByteClass::DecDigit, s1);
            if ds.len() == 0 || dec_val(ds) > usize::MAX {
                None
            } else {
                match sp_eol(s2) {
                    None => None,
                    Some(s3) => Some((dec_val(ds) as usize, s3)),
                }
            }
        },
    }
}

/// Consumes the subsystem line and yields the negotiated subsystem.
pub open spec fn sp_subsystem_line(s: Seq<u8>) -> Option<(SubSystem, Seq<u8>)> {
    match sp_config_key("subsystem"@, s) {
        None => None,
        Some(s1) => match sp_field(s1) {
            None => None,
            Some((v, s2)) => match SubSystem::spec_from(v) {
                Err(_) => None,
                Ok(ss) => match sp_eol(s2) {
                    None => None,
                    Some(s3) => Some((ss, s3)),
                },
            },
        },
    }
}

/// Consumes the ready line.
pub open spec fn sp_ready_line(s: Seq<u8>) -> Option<Seq<u8>> {
    match sp_field(s) {
        None => None,
        Some((c, s1)) => if c != "config"@ {
            None
        } else {
            match sp_sep(s1) {
                None => None,
                Some(s2) => match sp_field(s2) {
                    None => None,
                    Some((k, s3)) => if k != "ready"@ {
                        None
                    } else {
                        sp_eol(s3)
                    },
                },
            }
        },
    }
}

/// Consumes the whole handshake: the four lines in their fixed order.
pub open spec fn sp_handshake(s: Seq<u8>) -> Option<(HandshakeV, Seq<u8>)> {
    match sp_version_line(s) {
        None => None,
        Some((version, s1)) => match sp_timeout_line(s1) {
            None => None,
            Some((timeout, s2)) => match sp_subsystem_line(s2) {
                None => None,
                Some((subsystem, s3)) => match sp_ready_line(s3) {
                    None => None,
                    Some(s4) => Some(
                        (
                            HandshakeV {
                                smtpd_version: version,
                                smtp_session_timeout: timeout,
                                subsystem,
                            },
                            s4,
                        ),
                    ),
                },
            },
        },
    }
}

/// Consumes `config|<key>|`.
fn p_config_key<'a>(key: &str, s: &'a [u8]) -> (r: Option<&'a [u8]>)
    ensures
        r is Some <==> sp_config_key(key@, s@) is Some,
        r matches Some(rest) ==> Some(rest@) == sp_config_key(key@, s@),
{
    let (c, s1) = match p_field(s) {
        Some(v) => v,
        None => {
            return None;
        },
    };
    if !str_eq(c.as_str(), "config") {
        return None;
    }
    let s2 = match p_sep(s1) {
        Some(v) => v,
        None => {
            return None;
        },
    };
    let (k, s3) = match p_field(s2) {
        Some(v) => v,
        None => {
            return None;
        },
    };
    if !str_eq(k.as_str(), key) {
        return None;
    }
    p_sep(s3)
}

/// Consumes the version line.
pub(crate) fn p_version_line<'a>(s: &'a [u8]) -> (r: Option<(String, &'a [u8])>)
    ensures
        r is Some <==> sp_version_line(s@) is Some,
        r matches Some((v, rest)) ==> Some((v@, rest@)) == sp_version_line(s@),
{
    let s1 = match p_config_key("smtpd-version", s) {
        Some(v) => v,
        None => {
            return None;
        },
    };
    let (v, s2) = match p_field(s1) {
        Some(v) => v,
        None => {
            return None;
        },
    };
    match p_eol(s2) {
        Some(s3) => Some((v, s3)),
        None => None,
    }
}

/// Consumes the timeout line.
pub(crate) fn p_timeout_line<'a>(s: &'a [u8]) -> (r: Option<(usize, &'a [u8])>)
    ensures
        r is Some <==> sp_timeout_line(s@) is Some,
        r matches Some((v, rest)) ==> Some((v, rest@)) == sp_timeout_line(s@),
{
    let s1 = match p_config_key("smtp-session-timeout", s) {
        Some(v) => v,
        None => {
            return None;
        },
    };
    let (ds, s2) = take_prefix(ByteClass::DecDigit, s1);
    if ds.len() == 0 {
        return None;
    }
    proof {
        lemma_prefix_len_bounds(class_fn(ByteClass::DecDigit), s1@);
        assert forall|i: int| 0 <= i < ds@.len() implies crate::numbers::is_dec_digit(
            #[trigger] ds@[i],
        ) by {
            assert(class_fn(ByteClass::DecDigit)(ds@[i]));
        }
    }
    let v64 = match crate::numbers::parse_u64_dec(ds) {
        Some(v) => v,
        None => {
            proof {
                crate::numbers::lemma_dec_val_bounds(ds@);
            }
            return None;
        },
    };
    if v64 > (usize::MAX as u64) {
        return None;
    }
    let v = v64 as usize;
    match p_eol(s2) {
        Some(s3) => Some((v, s3)),
        None => None,
    }
}

/// Consumes the subsystem line.
pub(crate) fn p_subsystem_line<'a>(s: &'a [u8]) -> (r: Option<(SubSystem, &'a [u8])>)
    ensures
        r is Some <==> sp_subsystem_line(s@) is Some,
        r matches Some((v, rest)) ==> Some((v, rest@)) == sp_subsystem_line(s@),
{
    let s1 = match p_config_key("subsystem", s) {
        Some(v) => v,
        None => {
            return None;
        },
    };
    let (v, s2) = match p_field(s1) {
        Some(v) => v,
        None => {
            return None;
        },
    };
    let ss = match SubSystem::from_str(v.as_str()) {
        Ok(ss) => ss,
        Err(_) => {
            return None;
        },
    };
    match p_eol(s2) {
        Some(s3) => Some((ss, s3)),
        None => None,
    }
}

/// Consumes the ready line.
pub(crate) fn p_ready_line<'a>(s: &'a [u8]) -> (r: Option<&'a [u8]>)
    ensures
        r is Some <==> sp_ready_line(s@) is Some,
        r matches Some(rest) ==> Some(rest@) == sp_ready_line(s@),
{
    let (c, s1) = match p_field(s) {
        Some(v) => v,
        None => {
            return None;
        },
    };
    if !str_eq(c.as_str(), "config") {
        return None;
    }
    let s2 = match p_sep(s1) {
        Some(v) => v,
        None => {
            return None;
        },
    };
    let (k, s3) = match p_field(s2) {
        Some(v) => v,
        None => {
            return None;
        },
    };
    if !str_eq(k.as_str(), "ready") {
        return None;
    }
    p_eol(s3)
}

/// Reads the whole handshake from the front of the input and hands back
/// what follows it.
pub fn parse_handshake(input: &[u8]) -> (r: Result<(&[u8], Handshake), Error>)
    ensures
        r is Ok <==> sp_handshake(input@) is Some,
        r matches Ok((rest, h)) ==> Some((h@, rest@)) == sp_handshake(input@),
{
    let (version, s1) = match p_version_line(input) {
        Some(v) => v,
        None => {
            return Err(Error::new_param("smtpd-version", "malformed or missing"));
        },
    };
    let (timeout, s2) = match p_timeout_line(s1) {
        Some(v) => v,
        None => {
            return Err(Error::new_param("smtp-session-timeout", "malformed or missing"));
        },
    };
    let (subsystem, s3) = match p_subsystem_line(s2) {
        Some(v) => v,
        None => {
            return Err(Error::new_param("subsystem", "malformed or missing"));
        },
    };
    let s4 = match p_ready_line(s3) {
        Some(v) => v,
        None => {
            return Err(Error::new_param("ready", "malformed or missing"));
        },
    };
    Ok((s4, Handshake { smtpd_version: version, smtp_session_timeout: timeout, subsystem }))
}

/// Where the negotiation stands: the four lines are consumed in this
/// exact order, and any deviation is fatal.
#[derive(Clone, Copy, Debug, Eq, PartialEq, Structural)]
pub enum NegotiationStep {
    AwaitVersion,
    AwaitTimeout,
    AwaitSubsystem,
    AwaitReady,
    Done,
}

/// The one-shot handshake state machine: it is fed one complete line at a
/// time and must see the version, timeout, subsystem and ready lines, in
/// that order, before steady-state processing may begin.
pub struct HandshakeNegotiator {
    step: NegotiationStep,
    smtpd_version: Option<String>,
    smtp_session_timeout: Option<usize>,
    subsystem: Option<SubSystem>,
}

impl HandshakeNegotiator {
    pub closed spec fn step_spec(self) -> NegotiationStep {
        self.step
    }

    pub closed spec fn version_spec(self) -> Option<Seq<char>> {
        match self.smtpd_version {
            Some(v) => Some(v@),
            None => None,
        }
    }

    pub closed spec fn timeout_spec(self) -> Option<usize> {
        self.smtp_session_timeout
    }

    pub closed spec fn subsystem_spec(self) -> Option<SubSystem> {
        self.subsystem
    }

    /// Each consumed line leaves its value behind.
    pub closed spec fn wf(self) -> bool {
        &&& (self.step is AwaitVersion ==> self.smtpd_version is None
            && self.smtp_session_timeout is None && self.subsystem is None)
        &&& (!(self.step is AwaitVersion) ==> self.smtpd_version is Some)
        &&& (self.step is AwaitSubsystem || self.step is AwaitReady || self.step is Done
            ==> self.smtp_session_timeout is Some)
        &&& (self.step is AwaitReady || self.step is Done ==> self.subsystem is Some)
    }

    pub fn new() -> (r: HandshakeNegotiator)
        ensures
            r.step_spec() is AwaitVersion,
            r.wf(),
    {
        HandshakeNegotiator {
            step: NegotiationStep::AwaitVersion,
            smtpd_version: None,
            smtp_session_timeout: None,
            subsystem: None,
        }
    }

    /// Feeds one complete line.  The line must be the one the current step
    /// expects; a wrong, malformed or extra line is an error and leaves
    /// the negotiator as it was.  Answers whether the handshake is done.
    pub fn feed_line(&mut self, input: &[u8]) -> (r: Result<bool, Error>)
        requires
            old(self).wf(),
        ensures
            final(self).wf(),
            r is Err ==> *final(self) == *old(self),
            r matches Ok(done) ==> (done <==> final(self).step_spec() is Done),
            match old(self).step_spec() {
                NegotiationStep::AwaitVersion => {
                    &&& (r is Ok <==> sp_version_line(input@) is Some)
                    &&& (r is Ok ==> final(self).step_spec() is AwaitTimeout
                        && final(self).version_spec() == Some(sp_version_line(input@)->Some_0.0))
                },
                NegotiationStep::AwaitTimeout => {
                    &&& (r is Ok <==> sp_timeout_line(input@) is Some)
                    &&& (r is Ok ==> final(self).step_spec() is AwaitSubsystem
                        && final(self).timeout_spec() == Some(sp_timeout_line(input@)->Some_0.0))
                },
                NegotiationStep::AwaitSubsystem => {
                    &&& (r is Ok <==> sp_subsystem_line(input@) is Some)
                    &&& (r is Ok ==> final(self).step_spec() is AwaitReady
                        && final(self).subsystem_spec() == Some(sp_subsystem_line(input@)->Some_0.0))
                },
                NegotiationStep::AwaitReady => {
                    &&& (r is Ok <==> sp_ready_line(input@) is Some)
                    &&& (r is Ok ==> final(self).step_spec() is Done)
                },
                NegotiationStep::Done => r is Err,
            },
    {
        match self.step {
            NegotiationStep::AwaitVersion => match p_version_line(input) {
                Some((v, _)) => {
                    self.smtpd_version = Some(v);
                    self.step = NegotiationStep::AwaitTimeout;
                    Ok(false)
                },
                None => Err(Error::new_param("smtpd-version", "malformed or out of order")),
            },
            NegotiationStep::AwaitTimeout => match p_timeout_line(input) {
                Some((t, _)) => {
                    self.smtp_session_timeout = Some(t);
                    self.step = NegotiationStep::AwaitSubsystem;
                    Ok(false)
                },
                None => Err(Error::new_param("smtp-session-timeout", "malformed or out of order")),
            },
            NegotiationStep::AwaitSubsystem => match p_subsystem_line(input) {
                Some((ss, _)) => {
                    self.subsystem = Some(ss);
                    self.step = NegotiationStep::AwaitReady;
                    Ok(false)
                },
                None => Err(Error::new_param("subsystem", "malformed or out of order")),
            },
            NegotiationStep::AwaitReady => match p_ready_line(input) {
                Some(_) => {
                    self.step = NegotiationStep::Done;
                    Ok(true)
                },
                None => Err(Error::new_param("ready", "malformed or out of order")),
            },
            NegotiationStep::Done => Err(Error::new_param("handshake", "already complete")),
        }
    }

    /// What the finished handshake negotiated.
    pub fn result(self) -> (r: Handshake)
        requires
            self.wf(),
            self.step_spec() is Done,
        ensures
            Some(r.smtpd_version@) == self.version_spec(),
            Some(r.smtp_session_timeout) == self.timeout_spec(),
            Some(r.subsystem) == self.subsystem_spec(),
    {
        let version = match self.smtpd_version {
            Some(v) => v,
            None => {
                proof {
                    assert(false);
                }
                String::new()
            },
        };
        let timeout = match self.smtp_session_timeout {
            Some(t) => t,
            None => {
                proof {
                    assert(false);
                }
                0
            },
        };
        let subsystem = match self.subsystem {
            Some(s) => s,
            None => {
                proof {
                    assert(false);
                }
                SubSystem::SmtpIn
            },
        };
        Handshake { smtpd_version: version, smtp_session_timeout: timeout, subsystem }
    }
}

} // verus!
