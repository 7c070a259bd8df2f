use crate::data_structures::auth_result::AuthResult;
use crate::data_structures::event::Event;
use crate::data_structures::filter_kind::FilterKind;
use crate::data_structures::filter_response::FilterResponse;
use crate::data_structures::filter_phase::FilterPhase;
use crate::data_structures::mail_result::MailResult;
use crate::data_structures::method::Method;
use crate::data_structures::subsystem::SubSystem;
use crate::encoder::{
    encode_data_line, filter_result_line, register_line, register_ready_line, sp_data_line_bytes,
    sp_filter_result_bytes, sp_register_bytes, sp_register_ready_bytes,
};
use crate::entry::{Entry, EntryV, Kind};
use crate::errors::Error;
use crate::filter::Filter;
use crate::numbers::{all_dec_digits, dec_val};
use crate::parsers::entry::{parse_entry, sp_parse_entry};
use crate::parsers::parameters::{
    parse_filter_auth, parse_filter_connect, parse_filter_ehlo, parse_filter_helo,
    parse_filter_mail_from, parse_filter_rcpt_to, parse_filter_starttls,
    parse_report_filter_report, parse_report_filter_response, parse_report_link_auth,
    parse_report_link_connect, parse_report_link_greeting, parse_report_link_identify,
    parse_report_link_tls, parse_report_protocol_client, parse_report_protocol_server,
    parse_report_tx_begin, parse_report_tx_commit, parse_report_tx_data, parse_report_tx_envelope,
    parse_report_tx_mail, parse_report_tx_rcpt, parse_report_tx_reset, parse_report_tx_rollback,
};
use vstd::prelude::*;

verus! {

/// Whether a record's parameter tail has the shape its event or phase
/// fixes.  A violated shape is a decode error, not a handler error.
pub open spec fn params_ok(e: EntryV) -> bool {
    match e {
        EntryV::Report(r) => {
            let p = r.params;
            match r.event {
                Event::LinkAuth => p.len() == 2 && p[0].len() > 0 && AuthResult::spec_from(
                    p[1],
                ) is Ok,
                Event::LinkConnect => p.len() == 4 && p[0].len() > 0 && p[1].len() > 0 && p[2].len()
                    > 0 && p[3].len() > 0,
                Event::LinkDisconnect => true,
                Event::LinkGreeting => p.len() == 1 && p[0].len() > 0,
                Event::LinkIdentify => p.len() == 2 && Method::spec_from(p[0]) is Ok && p[1].len()
                    > 0,
                Event::LinkTls => p.len() == 1 && p[0].len() > 0,
                Event::TxBegin => p.len() == 1 && p[0].len() > 0,
                Event::TxMail => p.len() == 3 && p[0].len() > 0 && MailResult::spec_from(
                    p[1],
                ) is Ok && p[2].len() > 0,
                Event::TxReset => p.len() == 0 || (p.len() == 1 && p[0].len() > 0),
                Event::TxRcpt => p.len() == 3 && p[0].len() > 0 && MailResult::spec_from(
                    p[1],
                ) is Ok && p[2].len() > 0,
                Event::TxEnvelope => p.len() == 2 && p[0].len() > 0 && p[1].len() > 0,
                Event::TxData => p.len() == 2 && p[0].len() > 0 && MailResult::spec_from(
                    p[1],
                ) is Ok,
                Event::TxCommit => p.len() == 2 && p[0].len() > 0 && ({
                    let b = vstd::utf8::encode_utf8(p[1]);
                    b.len() > 0 && all_dec_digits(b) && dec_val(b) <= usize::MAX
                }),
                Event::TxRollback => p.len() == 1 && p[0].len() > 0,
                Event::ProtocolClient => p.len() == 1 && p[0].len() > 0,
                Event::ProtocolServer => p.len() == 1 && p[0].len() > 0,
                Event::FilterResponse => (p.len() == 2 || p.len() == 3)
                    && FilterPhase::spec_from(p[0]) is Ok && p[1].len() > 0 && (p.len() == 3
                    ==> p[2].len() > 0),
                Event::FilterReport => p.len() == 3 && FilterKind::spec_from(p[0]) is Ok
                    && p[1].len() > 0 && p[2].len() > 0,
                Event::Timeout => true,
            }
        },
        EntryV::Filter(f) => {
            let p = f.params;
            match f.phase {
                FilterPhase::Connect => p.len() == 4 && p[0].len() > 0 && p[1].len() > 0
                    && p[2].len() > 0 && p[3].len() > 0,
                FilterPhase::Helo => p.len() == 1 && p[0].len() > 0,
                FilterPhase::Ehlo => p.len() == 1 && p[0].len() > 0,
                FilterPhase::StartTls => p.len() == 1 && p[0].len() > 0,
                FilterPhase::Auth => p.len() == 1 && p[0].len() > 0,
                FilterPhase::MailFrom => p.len() == 1 && p[0].len() > 0,
                FilterPhase::RcptTo => p.len() == 1 && p[0].len() > 0,
                FilterPhase::Data => true,
                FilterPhase::DataLine => true,
                FilterPhase::Commit => true,
            }
        },
    }
}

/// Whether a line is a data-line echo for the given session and token.
pub open spec fn is_echo_line(l: Seq<u8>, sid: u64, token: u64) -> bool {
    exists|p: Seq<u8>| l == sp_data_line_bytes(sid, token, p)
}

/// Decodes one wire line, runs the matching callback of the filter, and
/// returns the outbound lines the record calls for: none for a report,
/// exactly one decision line for a filter request, and one echo line per
/// payload the data-line callback handed back.
pub fn line<T: Filter>(user_object: &mut T, input: &[u8]) -> (r: Result<Vec<Vec<u8>>, Error>)
    ensures
        r is Ok <==> (sp_parse_entry(input@) matches Some(e) && params_ok(e)),
        r is Err ==> *final(user_object) == *old(user_object),
        r matches Ok(lines) ==> match sp_parse_entry(input@)->Some_0 {
            EntryV::Report(_) => lines@.len() == 0,
            EntryV::Filter(f) => if f.phase == FilterPhase::DataLine {
                forall|i: int|
                    0 <= i < lines@.len() ==> is_echo_line(
                        (#[trigger] lines@[i])@,
                        f.session_id,
                        f.token,
                    )
            } else {
                lines@.len() == 1 && exists|resp: FilterResponse|
                    lines@[0]@ == sp_filter_result_bytes(
                        f.session_id,
                        f.token,
                        resp.spec_str(),
                    )
            },
        },
{
    let entry = match parse_entry(input) {
        Ok(e) => e,
        Err(e) => {
            return Err(e);
        },
    };
    let ghost ev = entry@;
    proof {
        assert(Some(ev) == sp_parse_entry(input@));
    }
    match entry {
        Entry::V1Report(rep) => {
            match rep.event {
                Event::LinkAuth => {
                    let (username, result) = match parse_report_link_auth(&rep.params) {
                        Ok(v) => v,
                        Err(e) => {
                            return Err(e);
                        },
                    };
                    user_object.on_report_link_auth(&rep, username.as_str(), result);
                },
                Event::LinkConnect => {
                    let (rdns, fcrdns, src, dest) = match parse_report_link_connect(&rep.params) {
                        Ok(v) => v,
                        Err(e) => {
                            return Err(e);
                        },
                    };
                    user_object.on_report_link_connect(
                        &rep,
                        rdns.as_str(),
                        fcrdns.as_str(),
                        &src,
                        &dest,
                    );
                },
                Event::LinkDisconnect => {
                    user_object.on_report_link_disconnect(&rep);
                },
                Event::LinkGreeting => {
                    let hostname = match parse_report_link_greeting(&rep.params) {
                        Ok(v) => v,
                        Err(e) => {
                            return Err(e);
                        },
                    };
                    user_object.on_report_link_greeting(&rep, hostname.as_str());
                },
                Event::LinkIdentify => {
                    let (method, identity) = match parse_report_link_identify(&rep.params) {
                        Ok(v) => v,
                        Err(e) => {
                            return Err(e);
                        },
                    };
                    user_object.on_report_link_identify(&rep, method, identity.as_str());
                },
                Event::LinkTls => {
                    let s = match parse_report_link_tls(&rep.params) {
                        Ok(v) => v,
                        Err(e) => {
                            return Err(e);
                        },
                    };
                    user_object.on_report_link_tls(&rep, s.as_str());
                },
                Event::TxBegin => {
                    let id = match parse_report_tx_begin(&rep.params) {
                        Ok(v) => v,
                        Err(e) => {
                            return Err(e);
                        },
                    };
                    user_object.on_report_tx_begin(&rep, id.as_str());
                },
                Event::TxMail => {
                    let (id, result, addr) = match parse_report_tx_mail(&rep.params) {
                        Ok(v) => v,
                        Err(e) => {
                            return Err(e);
                        },
                    };
                    user_object.on_report_tx_mail(&rep, id.as_str(), result, addr.as_str());
                },
                Event::TxReset => {
                    let id = match parse_report_tx_reset(&rep.params) {
                        Ok(v) => v,
                        Err(e) => {
                            return Err(e);
                        },
                    };
                    user_object.on_report_tx_reset(&rep, &id);
                },
                Event::TxRcpt => {
                    let (id, result, addr) = match parse_report_tx_rcpt(&rep.params) {
                        Ok(v) => v,
                        Err(e) => {
                            return Err(e);
                        },
                    };
                    user_object.on_report_tx_rcpt(&rep, id.as_str(), result, addr.as_str());
                },
                Event::TxEnvelope => {
                    let (msg, env) = match parse_report_tx_envelope(&rep.params) {
                        Ok(v) => v,
                        Err(e) => {
                            return Err(e);
                        },
                    };
                    user_object.on_report_tx_envelope(&rep, msg.as_str(), env.as_str());
                },
                Event::TxData => {
                    let (id, result) = match parse_report_tx_data(&rep.params) {
                        Ok(v) => v,
                        Err(e) => {
                            return Err(e);
                        },
                    };
                    user_object.on_report_tx_data(&rep, id.as_str(), result);
                },
                Event::TxCommit => {
                    let (id, size) = match parse_report_tx_commit(&rep.params) {
                        Ok(v) => v,
                        Err(e) => {
                            return Err(e);
                        },
                    };
                    user_object.on_report_tx_commit(&rep, id.as_str(), size);
                },
                Event::TxRollback => {
                    let id = match parse_report_tx_rollback(&rep.params) {
                        Ok(v) => v,
                        Err(e) => {
                            return Err(e);
                        },
                    };
                    user_object.on_report_tx_rollback(&rep, id.as_str());
                },
                Event::ProtocolClient => {
                    let cmd = match parse_report_protocol_client(&rep.params) {
                        Ok(v) => v,
                        Err(e) => {
                            return Err(e);
                        },
                    };
                    user_object.on_report_protocol_client(&rep, cmd.as_str());
                },
                Event::ProtocolServer => {
                    let res = match parse_report_protocol_server(&rep.params) {
                        Ok(v) => v,
                        Err(e) => {
                            return Err(e);
                        },
                    };
                    user_object.on_report_protocol_server(&rep, res.as_str());
                },
                Event::FilterResponse => {
                    let (phase, res, param) = match parse_report_filter_response(&rep.params) {
                        Ok(v) => v,
                        Err(e) => {
                            return Err(e);
                        },
                    };
                    user_object.on_report_filter_response(&rep, phase, res.as_str(), &param);
                },
                Event::FilterReport => {
                    let (kind, name, message) = match parse_report_filter_report(&rep.params) {
                        Ok(v) => v,
                        Err(e) => {
                            return Err(e);
                        },
                    };
                    user_object.on_report_filter_report(
                        &rep,
                        kind,
                        name.as_str(),
                        message.as_str(),
                    );
                },
                Event::Timeout => {
                    user_object.on_report_timeout(&rep);
                },
            }
            Ok(Vec::new())
        },
        Entry::V1Filter(f) => {
            if let FilterPhase::DataLine = f.phase {
                let payloads = match &f.data_line {
                    Some(d) => {
                        let dl: Vec<u8> = d.clone();
                        user_object.on_filter_data_line(&f, dl.as_slice())
                    },
                    None => {
                        proof {
                            assert(false);
                        }
                        Vec::new()
                    },
                };
                let mut lines: Vec<Vec<u8>> = Vec::new();
                let mut i: usize = 0;
                while i < payloads.len()
                    invariant
                        forall|j: int|
                            0 <= j < lines@.len() ==> is_echo_line(
                                (#[trigger] lines@[j])@,
                                f.session_id,
                                f.token,
                            ),
                    decreases payloads@.len() - i,
                {
                    let l = encode_data_line(&f, payloads[i].as_slice());
                    let ghost before = lines@;
                    lines.push(l);
                    proof {
                        assert(lines@[before.len() as int]@ == sp_data_line_bytes(
                            f.session_id,
                            f.token,
                            payloads@[i as int]@,
                        ));
                        assert(is_echo_line(lines@[before.len() as int]@, f.session_id, f.token));
                    }
                    i += 1;
                }
                proof {
                    let sf = sp_parse_entry(input@)->Some_0->Filter_0;
                    assert(ev == EntryV::Filter(f@));
                    assert(sf == f@);
                    assert(sf.session_id == f.session_id && sf.token == f.token);
                }
                Ok(lines)
            } else {
                let response = match f.phase {
                    FilterPhase::Auth => {
                        let auth = match parse_filter_auth(&f.params) {
                            Ok(v) => v,
                            Err(e) => {
                                return Err(e);
                            },
                        };
                        user_object.on_filter_auth(&f, auth.as_str())
                    },
                    FilterPhase::Commit => user_object.on_filter_commit(&f),
                    FilterPhase::Connect => {
                        let (rdns, fcrdns, src, dest) = match parse_filter_connect(&f.params) {
                            Ok(v) => v,
                            Err(e) => {
                                return Err(e);
                            },
                        };
                        user_object.on_filter_connect(
                            &f,
                            rdns.as_str(),
                            fcrdns.as_str(),
                            &src,
                            &dest,
                        )
                    },
                    FilterPhase::Data => user_object.on_filter_data(&f),
                    FilterPhase::Ehlo => {
                        let identity = match parse_filter_ehlo(&f.params) {
                            Ok(v) => v,
                            Err(e) => {
                                return Err(e);
                            },
                        };
                        user_object.on_filter_ehlo(&f, identity.as_str())
                    },
                    FilterPhase::Helo => {
                        let identity = match parse_filter_helo(&f.params) {
                            Ok(v) => v,
                            Err(e) => {
                                return Err(e);
                            },
                        };
                        user_object.on_filter_helo(&f, identity.as_str())
                    },
                    FilterPhase::MailFrom => {
                        let address = match parse_filter_mail_from(&f.params) {
                            Ok(v) => v,
                            Err(e) => {
                                return Err(e);
                            },
                        };
                        user_object.on_filter_mail_from(&f, address.as_str())
                    },
                    FilterPhase::RcptTo => {
                        let address = match parse_filter_rcpt_to(&f.params) {
                            Ok(v) => v,
                            Err(e) => {
                                return Err(e);
                            },
                        };
                        user_object.on_filter_rcpt_to(&f, address.as_str())
                    },
                    FilterPhase::StartTls => {
                        let tls = match parse_filter_starttls(&f.params) {
                            Ok(v) => v,
                            Err(e) => {
                                return Err(e);
                            },
                        };
                        user_object.on_filter_starttls(&f, tls.as_str())
                    },
                    FilterPhase::DataLine => {
                        proof {
                            assert(false);
                        }
                        FilterResponse::Proceed
                    },
                };
                let l = filter_result_line(&f, &response);
                let mut lines: Vec<Vec<u8>> = Vec::new();
                lines.push(l);
                proof {
                    let sf = sp_parse_entry(input@)->Some_0->Filter_0;
                    assert(ev == EntryV::Filter(f@));
                    assert(sf == f@);
                    assert(lines@[0]@ == sp_filter_result_bytes(
                        sf.session_id,
                        sf.token,
                        response.spec_str(),
                    ));
                }
                Ok(lines)
            }
        },
    }
}

/// The capability lines a declaration list calls for: one line per
/// enabled entry, in order.
pub open spec fn sp_register_caps(caps: Seq<(bool, Kind, Seq<char>)>, ss: SubSystem) -> Seq<
    Seq<u8>,
>
    decreases caps.len(),
{
    if caps.len() == 0 {
        Seq::empty()
    } else {
        (if caps[0].0 {
            seq![sp_register_bytes(caps[0].1, ss, caps[0].2)]
        } else {
            Seq::empty()
        }) + sp_register_caps(caps.skip(1), ss)
    }
}

/// The whole registration reply: the capability lines, then readiness.
pub open spec fn sp_register_reply(caps: Seq<(bool, Kind, Seq<char>)>, ss: SubSystem) -> Seq<
    Seq<u8>,
> {
    sp_register_caps(caps, ss) + seq![sp_register_ready_bytes()]
}

pub proof fn lemma_register_caps_snoc(caps: Seq<(bool, Kind, Seq<char>)>, c: (bool, Kind, Seq<char>), ss: SubSystem)
    ensures
        sp_register_caps(caps.push(c), ss) =~= sp_register_caps(caps, ss) + (if c.0 {
            seq![sp_register_bytes(c.1, ss, c.2)]
        } else {
            Seq::<Seq<u8>>::empty()
        }),
    decreases caps.len(),
{
    if caps.len() == 0 {
        assert(caps.push(c)[0] == c);
        assert(caps.push(c).skip(1) =~= Seq::<(bool, Kind, Seq<char>)>::empty());
        assert(sp_register_caps(caps.push(c).skip(1), ss) =~= Seq::<Seq<u8>>::empty());
        assert(sp_register_caps(caps, ss) =~= Seq::<Seq<u8>>::empty());
    } else {
        assert(caps.push(c)[0] == caps[0]);
        assert(caps.push(c).skip(1) =~= caps.skip(1).push(c));
        lemma_register_caps_snoc(caps.skip(1), c, ss);
    }
}

/// The declaration list as spec values.
pub open spec fn caps_view(c: Seq<(bool, Kind, &str)>) -> Seq<(bool, Kind, Seq<char>)> {
    c.map_values(|t: (bool, Kind, &str)| (t.0, t.1, t.2@))
}

/// Builds the registration reply for a declaration list: exactly one
/// capability line per enabled entry, in order, then the readiness line.
pub fn register_lines_for(caps: &Vec<(bool, Kind, &str)>, ss: SubSystem) -> (lines: Vec<Vec<u8>>)
    ensures
        lines@.len() == sp_register_reply(caps_view(caps@), ss).len(),
        forall|i: int|
            0 <= i < lines@.len() ==> (#[trigger] lines@[i])@ == sp_register_reply(
                caps_view(caps@),
                ss,
            )[i],
{
    let ghost cv = caps_view(caps@);
    let mut lines: Vec<Vec<u8>> = Vec::new();
    let mut i: usize = 0;
    proof {
        assert(cv.take(0) =~= Seq::<(bool, Kind, Seq<char>)>::empty());
        assert(sp_register_caps(cv.take(0), ss) =~= Seq::<Seq<u8>>::empty());
    }
    while i < caps.len()
        invariant
            cv == caps_view(caps@),
            0 <= i <= cv.len(),
            cv.len() == caps@.len(),
            lines@.len() == sp_register_caps(cv.take(i as int), ss).len(),
            forall|j: int|
                0 <= j < lines@.len() ==> (#[trigger] lines@[j])@ == sp_register_caps(
                    cv.take(i as int),
                    ss,
                )[j],
        decreases cv.len() - i,
    {
        let (enabled, kind, name) = caps[i];
        let ghost before = lines@;
        if enabled {
            let l = register_line(kind, ss, name);
            lines.push(l);
        }
        proof {
            assert(cv[i as int] == (caps@[i as int].0, caps@[i as int].1, caps@[i as int].2@));
            lemma_register_caps_snoc(cv.take(i as int), cv[i as int], ss);
            assert(cv.take(i + 1) =~= cv.take(i as int).push(cv[i as int]));
        }
        i += 1;
    }
    proof {
        assert(cv.take(cv.len() as int) =~= cv);
    }
    let ready = register_ready_line();
    lines.push(ready);
    lines
}

/// The canonical capability table, in its fixed order, with the given
/// answers.
pub open spec fn sp_canonical_caps(flags: Seq<bool>) -> Seq<(bool, Kind, Seq<char>)> {
    seq![
        (flags[0], Kind::Filter, "auth"@),
        (flags[1], Kind::Filter, "commit"@),
        (flags[2], Kind::Filter, "connect"@),
        (flags[3], Kind::Filter, "data"@),
        (flags[4], Kind::Filter, "data-line"@),
        (flags[5], Kind::Filter, "ehlo"@),
        (flags[6], Kind::Filter, "helo"@),
        (flags[7], Kind::Filter, "mail-from"@),
        (flags[8], Kind::Filter, "rcpt-to"@),
        (flags[9], Kind::Filter, "starttls"@),
        (flags[10], Kind::Report, "link-auth"@),
        (flags[11], Kind::Report, "link-connect"@),
        (flags[12], Kind::Report, "link-disconnect"@),
        (flags[13], Kind::Report, "link-greeting"@),
        (flags[14], Kind::Report, "link-identify"@),
        (flags[15], Kind::Report, "link-tls"@),
        (flags[16], Kind::Report, "tx-begin"@),
        (flags[17], Kind::Report, "tx-mail"@),
        (flags[18], Kind::Report, "tx-reset"@),
        (flags[19], Kind::Report, "tx-rcpt"@),
        (flags[20], Kind::Report, "tx-envelope"@),
        (flags[21], Kind::Report, "tx-data"@),
        (flags[22], Kind::Report, "tx-commit"@),
        (flags[23], Kind::Report, "tx-rollback"@),
        (flags[24], Kind::Report, "protocol-client"@),
        (flags[25], Kind::Report, "protocol-server"@),
        (flags[26], Kind::Report, "filter-response"@),
        (flags[27], Kind::Report, "filter-report"@),
        (flags[28], Kind::Report, "timeout"@),
    ]
}

fn push_cap<'a>(caps: &mut Vec<(bool, Kind, &'a str)>, enabled: bool, kind: Kind, name: &'a str)
    ensures
        final(caps)@.len() == old(caps)@.len() + 1,
        forall|j: int| 0 <= j < old(caps)@.len() ==> final(caps)@[j] == old(caps)@[j],
        final(caps)@[old(caps)@.len() as int] == (enabled, kind, name),
{
    caps.push((enabled, kind, name));
}

/// Collects the canonical capability table with the filter's answers.
#[verifier::rlimit(100)]
fn collect_caps<T: Filter>(obj: &T) -> (caps: Vec<(bool, Kind, &'static str)>)
    ensures
        caps@.len() == 29,
        caps_view(caps@) =~~= sp_canonical_caps(Seq::new(29, |i: int| caps@[i].0)),
{
    let mut caps: Vec<(bool, Kind, &'static str)> = Vec::new();
    push_cap(&mut caps, obj.has_filter_auth(), Kind::Filter, "auth");
    push_cap(&mut caps, obj.has_filter_commit(), Kind::Filter, "commit");
    push_cap(&mut caps, obj.has_filter_connect(), Kind::Filter, "connect");
    push_cap(&mut caps, obj.has_filter_data(), Kind::Filter, "data");
    push_cap(&mut caps, obj.has_filter_data_line(), Kind::Filter, "data-line");
    push_cap(&mut caps, obj.has_filter_ehlo(), Kind::Filter, "ehlo");
    push_cap(&mut caps, obj.has_filter_helo(), Kind::Filter, "helo");
    push_cap(&mut caps, obj.has_filter_mail_from(), Kind::Filter, "mail-from");
    push_cap(&mut caps, obj.has_filter_rcpt_to(), Kind::Filter, "rcpt-to");
    push_cap(&mut caps, obj.has_filter_starttls(), Kind::Filter, "starttls");
    push_cap(&mut caps, obj.has_report_link_auth(), Kind::Report, "link-auth");
    push_cap(&mut caps, obj.has_report_link_connect(), Kind::Report, "link-connect");
    push_cap(&mut caps, obj.has_report_link_disconnect(), Kind::Report, "link-disconnect");
    push_cap(&mut caps, obj.has_report_link_greeting(), Kind::Report, "link-greeting");
    push_cap(&mut caps, obj.has_report_link_identify(), Kind::Report, "link-identify");
    push_cap(&mut caps, obj.has_report_link_tls(), Kind::Report, "link-tls");
    push_cap(&mut caps, obj.has_report_tx_begin(), Kind::Report, "tx-begin");
    push_cap(&mut caps, obj.has_report_tx_mail(), Kind::Report, "tx-mail");
    push_cap(&mut caps, obj.has_report_tx_reset(), Kind::Report, "tx-reset");
    push_cap(&mut caps, obj.has_report_tx_rcpt(), Kind::Report, "tx-rcpt");
    push_cap(&mut caps, obj.has_report_tx_envelope(), Kind::Report, "tx-envelope");
    push_cap(&mut caps, obj.has_report_tx_data(), Kind::Report, "tx-data");
    push_cap(&mut caps, obj.has_report_tx_commit(), Kind::Report, "tx-commit");
    push_cap(&mut caps, obj.has_report_tx_rollback(), Kind::Report, "tx-rollback");
    push_cap(&mut caps, obj.has_report_protocol_client(), Kind::Report, "protocol-client");
    push_cap(&mut caps, obj.has_report_protocol_server(), Kind::Report, "protocol-server");
    push_cap(&mut caps, obj.has_report_filter_response(), Kind::Report, "filter-response");
    push_cap(&mut caps, obj.has_report_filter_report(), Kind::Report, "filter-report");
    push_cap(&mut caps, obj.has_report_timeout(), Kind::Report, "timeout");
    proof {
        let flags = Seq::new(29, |i: int| caps@[i].0);
        assert forall|k: int| 0 <= k < 29 implies caps_view(caps@)[k] =~~= sp_canonical_caps(
            flags,
        )[k] by {}
        assert(caps_view(caps@) =~~= sp_canonical_caps(flags));
    }
    caps
}

/// The registration lines the handshake reply owes: the canonical
/// capability table, in its fixed order, filled in with the filter's
/// twenty-nine declaration answers and rendered by `register_lines_for` -
/// one line per declared capability, each at most once, readiness last.
/// Which answers hold is the filter's own, uncontracted, decision.
pub fn handshake_reply_lines<T: Filter>(obj: &T, ss: SubSystem) -> (lines: Vec<Vec<u8>>)
    ensures
        lines@.len() >= 1,
        lines@[lines@.len() - 1]@ == sp_register_ready_bytes(),
        exists|flags: Seq<bool>|
            {
                &&& flags.len() == 29
                &&& lines@.len() == sp_register_reply(#[trigger] sp_canonical_caps(flags), ss).len()
                &&& forall|i: int|
                    0 <= i < lines@.len() ==> (#[trigger] lines@[i])@ == sp_register_reply(
                        sp_canonical_caps(flags),
                        ss,
                    )[i]
            },
{
    let caps = collect_caps(obj);
    let lines = register_lines_for(&caps, ss);
    proof {
        let flags = Seq::new(29, |i: int| caps@[i].0);
        assert(flags.len() == 29);
        assert(caps_view(caps@) == sp_canonical_caps(flags));
        let reply = sp_register_reply(caps_view(caps@), ss);
        assert(reply[reply.len() - 1] == sp_register_ready_bytes());
    }
    lines
}

} // verus!
