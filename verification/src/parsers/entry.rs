use crate::data_structures::filter_phase::FilterPhase;
use crate::data_structures::subsystem::SubSystem;
use crate::data_structures::timeval::TimeVal;
use crate::entry::{
    wf_field, Entry, EntryV, FilterEntry, FilterEntryV, Kind, ReportEntry, ReportEntryV,
};
use crate::errors::Error;
use crate::numbers::{
    dec_val, hex_val, lemma_dec_val_concat, lemma_dec_val_upper, lemma_pow10_pos,
    lemma_zero_bytes_val, parse_u64_dec, parse_u64_hex, pow10, zero_bytes,
};
use crate::parsers::{
    class_fn, lemma_prefix_len_bounds, param_byte, slice_skip, sp_take, take_prefix, utf8_to_string,
    ByteClass,
};
use vstd::utf8::{decode_utf8, valid_utf8};
use vstd::prelude::*;

verus! {

// The record grammar, pipe-delimited and line-terminated:
//
//   kind | version | timestamp | subsystem | event-or-phase | [token |]
//   session-id [| param]*
//
// The spec functions below read a prefix of the input and hand back what
// remains; the executable parser is proved to agree with them exactly.

/// Consumes one field delimiter.
pub open spec fn sp_sep(s: Seq<u8>) -> Option<Seq<u8>> {
    if s.len() > 0 && s[0] == 0x7c {
        Some(s.skip(1))
    } else {
        None
    }
}

/// Consumes the line ending, `\r\n` or `\n`.
pub open spec fn sp_eol(s: Seq<u8>) -> Option<Seq<u8>> {
    if s.len() >= 2 && s[0] == 0x0d && s[1] == 0x0a {
        Some(s.skip(2))
    } else if s.len() >= 1 && s[0] == 0x0a {
        Some(s.skip(1))
    } else {
        None
    }
}

/// Consumes a nonempty parameter field: the longest run of parameter
/// bytes, which must be valid UTF-8.
pub open spec fn sp_field(s: Seq<u8>) -> Option<(Seq<char>, Seq<u8>)> {
    let (f, rest) = sp_take(ByteClass::Param, s);
    if f.len() == 0 || !valid_utf8(f) {
        None
    } else {
        Some((decode_utf8(f), rest))
    }
}

/// Consumes a nonempty run of hexadecimal digits whose value fits a `u64`.
pub open spec fn sp_hex_u64(s: Seq<u8>) -> Option<(u64, Seq<u8>)> {
    let (d, rest) = sp_take(ByteClass::HexDigit, s);
    if d.len() == 0 || hex_val(d) > u64::MAX {
        None
    } else {
        Some((hex_val(d) as u64, rest))
    }
}

/// Consumes a timestamp: optionally signed seconds, a dot, and the
/// microsecond digits, which are read as if padded on the right to six
/// places.
pub open spec fn sp_timestamp(s: Seq<u8>) -> Option<(TimeVal, Seq<u8>)> {
    let neg = s.len() > 0 && s[0] == 0x2d;
    let s1 = if neg {
        s.skip(1)
    } else {
        s
    };
    let (ds, s2) = sp_take(ByteClass::DecDigit, s1);
    if ds.len() == 0 {
        None
    } else {
        let sec_int: int = if neg {
            -dec_val(ds)
        } else {
            dec_val(ds)
        };
        if sec_int < i64::MIN || sec_int > i64::MAX {
            None
        } else if !(s2.len() > 0 && s2[0] == 0x2e) {
            None
        } else {
            let (us, s3) = sp_take(ByteClass::DecDigit, s2.skip(1));
            if us.len() == 0 {
                None
            } else {
                let padded = if us.len() < 6 {
                    us + zero_bytes(6 - us.len())
                } else {
                    us
                };
                if dec_val(padded) >= 1000000 {
                    None
                } else {
                    Some(
                        (
                            TimeVal { sec: sec_int as i64, usec: dec_val(padded) as i64 },
                            s3,
                        ),
                    )
                }
            }
        }
    }
}

/// Consumes the parameter tail: a possibly empty field after each
/// delimiter, until something other than a delimiter follows.  A
/// parameter that is not valid UTF-8 fails the whole tail.
pub open spec fn sp_params(s: Seq<u8>) -> Option<(Seq<Seq<char>>, Seq<u8>)>
    decreases s.len(),
    via sp_params_dec
{
    if s.len() > 0 && s[0] == 0x7c {
        let (f, rest) = sp_take(ByteClass::Param, s.skip(1));
        if !valid_utf8(f) {
            None
        } else {
            match sp_params(rest) {
                None => None,
                Some((ps, r2)) => Some((seq![decode_utf8(f)] + ps, r2)),
            }
        }
    } else {
        Some((Seq::empty(), s))
    }
}

#[via_fn]
proof fn sp_params_dec(s: Seq<u8>) {
    if s.len() > 0 && s[0] == 0x7c {
        lemma_prefix_len_bounds(class_fn(ByteClass::Param), s.skip(1));
    }
}

/// Reads one record from the front of the input; what follows the line
/// ending is ignored.
pub open spec fn sp_parse_entry(s: Seq<u8>) -> Option<EntryV> {
    match sp_field(s) {
        None => None,
        Some((kind_str, s1)) => match Kind::spec_from(kind_str) {
            Err(_) => None,
            Ok(kind) => match sp_sep(s1) {
                None => None,
                Some(s2) => match sp_field(s2) {
                    None => None,
                    Some((version, s3)) => match sp_sep(s3) {
                        None => None,
                        Some(s4) => match sp_timestamp(s4) {
                            None => None,
                            Some((timestamp, s5)) => match sp_sep(s5) {
                                None => None,
                                Some(s6) => match sp_field(s6) {
                                    None => None,
                                    Some((ss_str, s7)) => match SubSystem::spec_from(ss_str) {
                                        Err(_) => None,
                                        Ok(subsystem) => match sp_sep(s7) {
                                            None => None,
                                            Some(s8) => match sp_field(s8) {
                                                None => None,
                                                Some((tag_str, s9)) => match sp_sep(s9) {
                                                    None => None,
                                                    Some(s10) => match kind {
                                                        Kind::Report => sp_report_tail(
                                                            version,
                                                            timestamp,
                                                            subsystem,
                                                            tag_str,
                                                            s10,
                                                        ),
                                                        Kind::Filter => sp_filter_tail(
                                                            version,
                                                            timestamp,
                                                            subsystem,
                                                            tag_str,
                                                            s10,
                                                        ),
                                                    },
                                                },
                                            },
                                        },
                                    },
                                },
                            },
                        },
                    },
                },
            },
        },
    }
}

/// Reads the rest of a report record: event, session id, parameters.
pub open spec fn sp_report_tail(
    version: Seq<char>,
    timestamp: TimeVal,
    subsystem: SubSystem,
    tag_str: Seq<char>,
    s: Seq<u8>,
) -> Option<EntryV> {
    match crate::data_structures::event::Event::spec_from(tag_str) {
        Err(_) => None,
        Ok(event) => match sp_hex_u64(s) {
            None => None,
            Some((session_id, s1)) => match sp_params(s1) {
                None => None,
                Some((params, s2)) => match sp_eol(s2) {
                    None => None,
                    Some(_) => Some(
                        EntryV::Report(
                            ReportEntryV {
                                version,
                                timestamp,
                                subsystem,
                                event,
                                session_id,
                                params,
                            },
                        ),
                    ),
                },
            },
        },
    }
}

/// Reads the rest of a filter request: phase, token, session id, and
/// either the verbatim data-line payload or the parameter tail.
pub open spec fn sp_filter_tail(
    version: Seq<char>,
    timestamp: TimeVal,
    subsystem: SubSystem,
    tag_str: Seq<char>,
    s: Seq<u8>,
) -> Option<EntryV> {
    match FilterPhase::spec_from(tag_str) {
        Err(_) => None,
        Ok(phase) => match sp_hex_u64(s) {
            None => None,
            Some((token, s1)) => match sp_sep(s1) {
                None => None,
                Some(s2) => match sp_hex_u64(s2) {
                    None => None,
                    Some((session_id, s3)) => if phase == FilterPhase::DataLine {
                        match sp_sep(s3) {
                            None => None,
                            Some(s4) => {
                                let (payload, s5) = sp_take(ByteClass::Body, s4);
                                match sp_eol(s5) {
                                    None => None,
                                    Some(_) => Some(
                                        EntryV::Filter(
                                            FilterEntryV {
                                                version,
                                                timestamp,
                                                subsystem,
                                                phase,
                                                session_id,
                                                token,
                                                params: Seq::empty(),
                                                data_line: Some(payload),
                                            },
                                        ),
                                    ),
                                }
                            },
                        }
                    } else {
                        match sp_params(s3) {
                            None => None,
                            Some((params, s4)) => match sp_eol(s4) {
                                None => None,
                                Some(_) => Some(
                                    EntryV::Filter(
                                        FilterEntryV {
                                            version,
                                            timestamp,
                                            subsystem,
                                            phase,
                                            session_id,
                                            token,
                                            params,
                                            data_line: None,
                                        },
                                    ),
                                ),
                            },
                        }
                    },
                },
            },
        },
    }
}

/// A valid UTF-8 run of parameter bytes decodes to a well-formed field.
pub proof fn lemma_param_field_chars(b: Seq<u8>)
    requires
        forall|i: int| 0 <= i < b.len() ==> class_fn(ByteClass::Param)(#[trigger] b[i]),
        valid_utf8(b),
    ensures
        wf_field(decode_utf8(b)),
        decode_utf8(b).len() > 0 <==> b.len() > 0,
{
    vstd::utf8::decode_utf8_encode_utf8(b);
    assert forall|i: int|
        0 <= i < vstd::utf8::encode_utf8(decode_utf8(b)).len() implies param_byte(
        #[trigger] vstd::utf8::encode_utf8(decode_utf8(b))[i],
    ) by {
        assert(vstd::utf8::encode_utf8(decode_utf8(b))[i] == b[i]);
        assert(class_fn(ByteClass::Param)(b[i]));
    }
    if b.len() > 0 && decode_utf8(b).len() == 0 {
        assert(vstd::utf8::encode_utf8(decode_utf8(b)) =~= Seq::<u8>::empty());
    }
    if b.len() == 0 {
        assert(vstd::utf8::encode_utf8(decode_utf8(b)).len() == b.len());
    }
}

/// Consumes one field delimiter.
pub(crate) fn p_sep<'a>(s: &'a [u8]) -> (r: Option<&'a [u8]>)
    ensures
        r is Some <==> sp_sep(s@) is Some,
        r matches Some(rest) ==> Some(rest@) == sp_sep(s@),
{
    if s.len() > 0 && *slice_index_get(s, 0) == 0x7c {
        Some(slice_skip(s, 1))
    } else {
        None
    }
}

/// The element at an index of a slice.
fn slice_index_get<'a>(s: &'a [u8], i: usize) -> (r: &'a u8)
    requires
        i < s@.len(),
    ensures
        *r == s@[i as int],
{
    &s[i]
}

/// Consumes the line ending.
pub(crate) fn p_eol<'a>(s: &'a [u8]) -> (r: Option<&'a [u8]>)
    ensures
        r is Some <==> sp_eol(s@) is Some,
        r matches Some(rest) ==> Some(rest@) == sp_eol(s@),
{
    if s.len() >= 2 && *slice_index_get(s, 0) == 0x0d && *slice_index_get(s, 1) == 0x0a {
        Some(slice_skip(s, 2))
    } else if s.len() >= 1 && *slice_index_get(s, 0) == 0x0a {
        Some(slice_skip(s, 1))
    } else {
        None
    }
}

/// Consumes a nonempty parameter field.
pub(crate) fn p_field<'a>(s: &'a [u8]) -> (r: Option<(String, &'a [u8])>)
    ensures
        r is Some <==> sp_field(s@) is Some,
        r matches Some((f, rest)) ==> sp_field(s@) == Some((f@, rest@)),
        r matches Some((f, rest)) ==> wf_field(f@) && f@.len() > 0,
{
    let (f, rest) = take_prefix(ByteClass::Param, s);
    if f.len() == 0 {
        return None;
    }
    proof {
        lemma_prefix_len_bounds(class_fn(ByteClass::Param), s@);
    }
    match utf8_to_string(f) {
        Some(fs) => {
            proof {
                lemma_param_field_chars(f@);
            }
            Some((fs, rest))
        },
        None => None,
    }
}

/// Consumes a nonempty run of hexadecimal digits whose value fits a `u64`.
pub(crate) fn p_hex_u64<'a>(s: &'a [u8]) -> (r: Option<(u64, &'a [u8])>)
    ensures
        r is Some <==> sp_hex_u64(s@) is Some,
        r matches Some((v, rest)) ==> sp_hex_u64(s@) == Some((v, rest@)),
{
    let (d, rest) = take_prefix(ByteClass::HexDigit, s);
    if d.len() == 0 {
        return None;
    }
    proof {
        lemma_prefix_len_bounds(class_fn(ByteClass::HexDigit), s@);
        assert forall|i: int| 0 <= i < d@.len() implies crate::numbers::is_hex_digit(
            #[trigger] d@[i],
        ) by {
            assert(class_fn(ByteClass::HexDigit)(d@[i]));
        }
    }
    match parse_u64_hex(d) {
        Some(v) => Some((v, rest)),
        None => None,
    }
}

/// Consumes a timestamp.
pub(crate) fn p_timestamp<'a>(s: &'a [u8]) -> (r: Option<(TimeVal, &'a [u8])>)
    ensures
        r is Some <==> sp_timestamp(s@) is Some,
        r matches Some((tv, rest)) ==> sp_timestamp(s@) == Some((tv, rest@)),
        r matches Some((tv, rest)) ==> tv.wf(),
{
    let neg = s.len() > 0 && *slice_index_get(s, 0) == 0x2d;
    let s1 = if neg {
        slice_skip(s, 1)
    } else {
        s
    };
    let (ds, s2) = take_prefix(ByteClass::DecDigit, s1);
    if ds.len() == 0 {
        return None;
    }
    proof {
        lemma_prefix_len_bounds(class_fn(ByteClass::DecDigit), s1@);
        assert forall|i: int| 0 <= i < ds@.len() implies crate::numbers::is_dec_digit(
            #[trigger] ds@[i],
        ) by {
            assert(class_fn(ByteClass::DecDigit)(ds@[i]));
        }
    }
    let mag = match parse_u64_dec(ds) {
        Some(v) => v,
        None => {
            proof {
                crate::numbers::lemma_dec_val_bounds(ds@);
            }
            return None;
        },
    };
    let sec: i64 = if neg {
        if mag <= 0x7fffffffffffffff {
            -(mag as i64)
        } else if mag == 0x8000000000000000 {
            i64::MIN
        } else {
            return None;
        }
    } else {
        if mag <= 0x7fffffffffffffff {
            mag as i64
        } else {
            return None;
        }
    };
    if !(s2.len() > 0 && *slice_index_get(s2, 0) == 0x2e) {
        return None;
    }
    let s2b = slice_skip(s2, 1);
    let (us, s3) = take_prefix(ByteClass::DecDigit, s2b);
    if us.len() == 0 {
        return None;
    }
    proof {
        lemma_prefix_len_bounds(class_fn(ByteClass::DecDigit), s2b@);
        assert forall|i: int| 0 <= i < us@.len() implies crate::numbers::is_dec_digit(
            #[trigger] us@[i],
        ) by {
            assert(class_fn(ByteClass::DecDigit)(us@[i]));
        }
        lemma_dec_val_upper(us@);
        lemma_pow10_pos(us@.len());
    }
    let ghost padded = if us@.len() < 6 {
        us@ + zero_bytes(6 - us@.len())
    } else {
        us@
    };
    proof {
        if us@.len() < 6 {
            lemma_dec_val_concat(us@, zero_bytes(6 - us@.len()));
            lemma_zero_bytes_val(6 - us@.len());
        } else {
            assert(padded =~= us@);
        }
    }
    let uval0 = match parse_u64_dec(us) {
        Some(v) => v,
        None => {
            proof {
                crate::numbers::lemma_dec_val_bounds(us@);
                if us@.len() < 6 {
                    lemma_pow10_pos(zero_bytes(6 - us@.len()).len());
                    assert(dec_val(padded) == dec_val(us@) * pow10(zero_bytes(6 - us@.len()).len())
                        + dec_val(zero_bytes(6 - us@.len())));
                    assert(dec_val(us@) * pow10(zero_bytes(6 - us@.len()).len()) >= dec_val(us@))
                        by (nonlinear_arith)
                        requires
                            dec_val(us@) >= 0,
                            pow10(zero_bytes(6 - us@.len()).len()) >= 1,
                    ;
                }
            }
            return None;
        },
    };
    let mut uval: u64 = uval0;
    let mut k = us.len();
    proof {
        if us@.len() < 6 {
            assert(dec_val(padded) == dec_val(us@) * pow10((6 - us@.len()) as nat));
        }
        assert(pow10(0) == 1);
    }
    while k < 6
        invariant
            us@.len() <= k <= 6 || (us@.len() >= 6 && k == us@.len()),
            dec_val(us@) < pow10(us@.len()),
            uval == dec_val(us@) * pow10((k - us@.len()) as nat),
            uval < pow10(k as nat),
        decreases 6 - k,
    {
        proof {
            lemma_pow10_pos((k - us@.len()) as nat);
            assert(pow10(((k + 1) - us@.len()) as nat) == 10 * pow10((k - us@.len()) as nat));
            assert(pow10((k + 1) as nat) == 10 * pow10(k as nat));
            assert(uval * 10 == dec_val(us@) * pow10(((k + 1) - us@.len()) as nat))
                by (nonlinear_arith)
                requires
                    uval == dec_val(us@) * pow10((k - us@.len()) as nat),
                    pow10(((k + 1) - us@.len()) as nat) == 10 * pow10((k - us@.len()) as nat),
            ;
            crate::numbers::lemma_pow10_6();
            assert(pow10(k as nat) <= pow10(6)) by {
                lemma_pow10_mono(k as nat, 6);
            }
            assert(uval * 10 < 10 * pow10(k as nat));
        }
        uval = uval * 10;
        k += 1;
    }
    proof {
        if us@.len() < 6 {
            assert(uval == dec_val(padded));
        } else {
            assert(pow10(0) == 1);
            assert(uval == dec_val(us@));
        }
    }
    if uval >= 1000000 {
        return None;
    }
    Some((TimeVal { sec, usec: uval as i64 }, s3))
}

/// Ten to a power is monotone in the power.
pub proof fn lemma_pow10_mono(a: nat, b: nat)
    requires
        a <= b,
    ensures
        pow10(a) <= pow10(b),
    decreases b,
{
    lemma_pow10_pos(a);
    if a < b {
        lemma_pow10_mono(a, (b - 1) as nat);
        lemma_pow10_pos((b - 1) as nat);
    }
}

/// Consumes the parameter tail.
pub(crate) fn p_params<'a>(s: &'a [u8]) -> (r: Option<(Vec<String>, &'a [u8])>)
    ensures
        r is Some <==> sp_params(s@) is Some,
        r matches Some((ps, rest)) ==> sp_params(s@) == Some((ps.deep_view(), rest@)),
        r matches Some((ps, rest)) ==> crate::entry::wf_params(ps.deep_view()),
{
    let mut out: Vec<String> = Vec::new();
    let mut cur: &[u8] = s;
    proof {
        assert(out.deep_view() =~= Seq::<Seq<char>>::empty());
    }
    while cur.len() > 0 && *slice_index_get(cur, 0) == 0x7c
        invariant
            sp_params(s@) is Some <==> sp_params(cur@) is Some,
            sp_params(s@) matches Some((ps, r)) ==> ps == out.deep_view() + sp_params(
                cur@,
            )->Some_0.0 && r == sp_params(cur@)->Some_0.1,
            crate::entry::wf_params(out.deep_view()),
        decreases cur@.len(),
    {
        let rest0 = slice_skip(cur, 1);
        let (f, rest) = take_prefix(ByteClass::Param, rest0);
        proof {
            lemma_prefix_len_bounds(class_fn(ByteClass::Param), rest0@);
        }
        let fs = match utf8_to_string(f) {
            Some(fs) => fs,
            None => {
                proof {
                    assert(sp_params(cur@) is None);
                }
                return None;
            },
        };
        proof {
            lemma_param_field_chars(f@);
        }
        let ghost old_dv = out.deep_view();
        out.push(fs);
        proof {
            assert(out.deep_view() =~= old_dv.push(decode_utf8(f@)));
            match sp_params(rest@) {
                Some((ps, r2)) => {
                    assert(sp_params(cur@) == Some((seq![decode_utf8(f@)] + ps, r2)));
                    assert(old_dv + (seq![decode_utf8(f@)] + ps) =~= out.deep_view() + ps);
                },
                None => {
                    assert(sp_params(cur@) is None);
                },
            }
        }
        cur = rest;
    }
    proof {
        assert(sp_params(cur@) == Some((Seq::<Seq<char>>::empty(), cur@)));
        if sp_params(s@) is Some {
            assert(sp_params(s@)->Some_0.0 =~= out.deep_view());
        }
    }
    Some((out, cur))
}

/// Decodes one wire line into a record, or says which field is at fault.
pub fn parse_entry(input: &[u8]) -> (r: Result<Entry, Error>)
    ensures
        r is Ok <==> sp_parse_entry(input@) is Some,
        r matches Ok(e) ==> Some(e@) == sp_parse_entry(input@),
        r matches Ok(e) ==> e@.wf(),
{
    let (kind_str, s1) = match p_field(input) {
        Some(v) => v,
        None => {
            return Err(Error::new_param("kind", "missing"));
        },
    };
    let kind = match Kind::from_str(kind_str.as_str()) {
        Ok(k) => k,
        Err(_) => {
            return Err(Error::new_param("kind", "unknown"));
        },
    };
    let s2 = match p_sep(s1) {
        Some(v) => v,
        None => {
            return Err(Error::new_param("kind", "missing delimiter"));
        },
    };
    let (version, s3) = match p_field(s2) {
        Some(v) => v,
        None => {
            return Err(Error::new_param("version", "missing"));
        },
    };
    let s4 = match p_sep(s3) {
        Some(v) => v,
        None => {
            return Err(Error::new_param("version", "missing delimiter"));
        },
    };
    let (timestamp, s5) = match p_timestamp(s4) {
        Some(v) => v,
        None => {
            return Err(Error::new_param("timestamp", "malformed"));
        },
    };
    let s6 = match p_sep(s5) {
        Some(v) => v,
        None => {
            return Err(Error::new_param("timestamp", "missing delimiter"));
        },
    };
    let (ss_str, s7) = match p_field(s6) {
        Some(v) => v,
        None => {
            return Err(Error::new_param("subsystem", "missing"));
        },
    };
    let subsystem = match SubSystem::from_str(ss_str.as_str()) {
        Ok(v) => v,
        Err(_) => {
            return Err(Error::new_param("subsystem", "unknown"));
        },
    };
    let s8 = match p_sep(s7) {
        Some(v) => v,
        None => {
            return Err(Error::new_param("subsystem", "missing delimiter"));
        },
    };
    let (tag_str, s9) = match p_field(s8) {
        Some(v) => v,
        None => {
            return Err(Error::new_param("event", "missing"));
        },
    };
    let s10 = match p_sep(s9) {
        Some(v) => v,
        None => {
            return Err(Error::new_param("event", "missing delimiter"));
        },
    };
    match kind {
        Kind::Report => {
            let event = match crate::data_structures::event::Event::from_str(tag_str.as_str()) {
                Ok(v) => v,
                Err(_) => {
                    return Err(Error::new_param("event", "unknown"));
                },
            };
            let (session_id, s11) = match p_hex_u64(s10) {
                Some(v) => v,
                None => {
                    return Err(Error::new_param("session-id", "malformed"));
                },
            };
            let (params, s12) = match p_params(s11) {
                Some(v) => v,
                None => {
                    return Err(Error::new_param("params", "invalid text"));
                },
            };
            match p_eol(s12) {
                Some(_) => {},
                None => {
                    return Err(Error::new_param("params", "missing line ending"));
                },
            }
            let e = Entry::V1Report(
                ReportEntry { version, timestamp, subsystem, event, session_id, params },
            );
            proof {
                assert(e@ =~~= sp_parse_entry(input@)->Some_0);
            }
            Ok(e)
        },
        Kind::Filter => {
            let phase = match FilterPhase::from_str(tag_str.as_str()) {
                Ok(v) => v,
                Err(_) => {
                    return Err(Error::new_param("phase", "unknown"));
                },
            };
            let (token, s11) = match p_hex_u64(s10) {
                Some(v) => v,
                None => {
                    return Err(Error::new_param("token", "malformed"));
                },
            };
            let s12 = match p_sep(s11) {
                Some(v) => v,
                None => {
                    return Err(Error::new_param("token", "missing delimiter"));
                },
            };
            let (session_id, s13) = match p_hex_u64(s12) {
                Some(v) => v,
                None => {
                    return Err(Error::new_param("session-id", "malformed"));
                },
            };
            match phase {
                FilterPhase::DataLine => {
                    let s14 = match p_sep(s13) {
                        Some(v) => v,
                        None => {
                            return Err(Error::new_param("data-line", "missing delimiter"));
                        },
                    };
                    let (payload, s15) = take_prefix(ByteClass::Body, s14);
                    match p_eol(s15) {
                        Some(_) => {},
                        None => {
                            return Err(Error::new_param("data-line", "missing line ending"));
                        },
                    }
                    let mut data: Vec<u8> = Vec::new();
                    data.extend_from_slice(payload);
                    proof {
                        assert(data@ =~= payload@);
                        lemma_prefix_len_bounds(class_fn(ByteClass::Body), s14@);
                        assert forall|i: int| 0 <= i < data@.len() implies crate::parsers::body_byte(
                            #[trigger] data@[i],
                        ) by {
                            assert(class_fn(ByteClass::Body)(payload@[i]));
                        }
                    }
                    let e = Entry::V1Filter(
                        FilterEntry {
                            version,
                            timestamp,
                            subsystem,
                            phase,
                            session_id,
                            token,
                            params: Vec::new(),
                            data_line: Some(data),
                        },
                    );
                    proof {
                        let sf = sp_filter_tail(version@, timestamp, subsystem, tag_str@, s10@);
                        assert(sp_parse_entry(input@) == sf);
                        assert(sf is Some);
                        assert(sf->Some_0->Filter_0.params =~~= e@->Filter_0.params);
                        assert(sf->Some_0->Filter_0.data_line =~~= e@->Filter_0.data_line);
                        assert(e@ =~~= sp_parse_entry(input@)->Some_0);
                    }
                    Ok(e)
                },
                _ => {
                    let (params, s14) = match p_params(s13) {
                        Some(v) => v,
                        None => {
                            return Err(Error::new_param("params", "invalid text"));
                        },
                    };
                    match p_eol(s14) {
                        Some(_) => {},
                        None => {
                            return Err(Error::new_param("params", "missing line ending"));
                        },
                    }
                    let e = Entry::V1Filter(
                        FilterEntry {
                            version,
                            timestamp,
                            subsystem,
                            phase,
                            session_id,
                            token,
                            params,
                            data_line: None,
                        },
                    );
                    proof {
                        assert(e@ =~~= sp_parse_entry(input@)->Some_0);
                    }
                    Ok(e)
                },
            }
        },
    }
}

} // verus!
