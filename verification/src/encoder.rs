use crate::data_structures::filter_response::FilterResponse;
use crate::data_structures::subsystem::SubSystem;
use crate::entry::{Entry, EntryV, FilterEntry, Kind};
use crate::numbers::{fmt_u64_hex, hex_seq_of};
use crate::entry::{wf_field, wf_params};
use vstd::utf8::{decode_utf8, valid_utf8};
use crate::numbers::{
    dec_seq_of, is_dec_digit, is_hex_digit, lemma_dec_seq_len, lemma_dec_seq_of_digits,
    lemma_dec_val_leading_zeros, lemma_dec_val_of_dec_seq, lemma_hex_seq_of_digits,
    lemma_hex_val_of_hex_seq, lemma_pow10_6, lemma_zero_bytes_val, padded6_seq_of,
    signed_dec_seq_of, zero_bytes,
};
use crate::parsers::entry::{
    sp_eol, sp_field, sp_hex_u64, sp_params, sp_parse_entry, sp_sep, sp_timestamp,
};
use crate::parsers::lemma_wf_field_bytes;
use crate::parsers::{class_fn, lemma_sp_take_exact, param_byte, sp_take, ByteClass};
use vstd::prelude::*;
use vstd::string::StringSliceAdditionalSpecFns;
use vstd::utf8::encode_utf8;

verus! {

// The response encoder: it turns handler decisions, data-line echoes and
// capability registrations into outbound wire lines.

/// A decision line: `filter-result|<session-id>|<token>|<decision>`.
pub open spec fn sp_filter_result_bytes(sid: u64, token: u64, decision: Seq<char>) -> Seq<u8> {
    encode_utf8("filter-result|"@) + hex_seq_of(sid as nat) + seq![0x7cu8] + hex_seq_of(
        token as nat,
    ) + seq![0x7cu8] + encode_utf8(decision) + seq![0x0au8]
}

/// A payload with the line-ending bytes taken out.
pub open spec fn strip_line_endings(p: Seq<u8>) -> Seq<u8> {
    p.filter(|b: u8| b != 0x0d && b != 0x0a)
}

/// A data-line echo: `filter-dataline|<session-id>|<token>|<payload>`,
/// with line-ending bytes stripped from the payload.
pub open spec fn sp_data_line_bytes(sid: u64, token: u64, payload: Seq<u8>) -> Seq<u8> {
    encode_utf8("filter-dataline|"@) + hex_seq_of(sid as nat) + seq![0x7cu8] + hex_seq_of(
        token as nat,
    ) + seq![0x7cu8] + strip_line_endings(payload) + seq![0x0au8]
}

/// A capability line: `register|<kind>|<subsystem>|<name>`.
pub open spec fn sp_register_bytes(kind: Kind, subsystem: SubSystem, name: Seq<char>) -> Seq<u8> {
    encode_utf8("register|"@) + encode_utf8(kind.spec_str()) + seq![0x7cu8] + encode_utf8(
        subsystem.spec_str(),
    ) + seq![0x7cu8] + encode_utf8(name) + seq![0x0au8]
}

/// The readiness line that ends registration: `register|ready`.
pub open spec fn sp_register_ready_bytes() -> Seq<u8> {
    encode_utf8("register|ready"@) + seq![0x0au8]
}

/// Appends a string's bytes to a line being built.
pub(crate) fn push_str(v: &mut Vec<u8>, s: &str)
    ensures
        final(v)@ == old(v)@ + s.spec_bytes(),
{
    v.extend_from_slice(s.as_bytes());
}

/// Encodes one decision line for a filter request.
pub fn filter_result_line(entry: &FilterEntry, response: &FilterResponse) -> (v: Vec<u8>)
    ensures
        v@ == sp_filter_result_bytes(entry.session_id, entry.token, response.spec_str()),
{
    let mut v: Vec<u8> = Vec::new();
    push_str(&mut v, "filter-result|");
    let mut sid = fmt_u64_hex(entry.session_id);
    v.append(&mut sid);
    v.push(0x7c);
    let mut tok = fmt_u64_hex(entry.token);
    v.append(&mut tok);
    v.push(0x7c);
    let decision = response.to_string();
    push_str(&mut v, decision.as_str());
    v.push(0x0a);
    proof {
        assert(v@ =~= sp_filter_result_bytes(entry.session_id, entry.token, response.spec_str()));
    }
    v
}

/// Encodes one data-line echo, stripping any line-ending bytes from the
/// payload; the line's own terminator is appended here.
pub fn encode_data_line(entry: &FilterEntry, data_line: &[u8]) -> (v: Vec<u8>)
    ensures
        v@ == sp_data_line_bytes(entry.session_id, entry.token, data_line@),
{
    let mut v: Vec<u8> = Vec::new();
    push_str(&mut v, "filter-dataline|");
    let mut sid = fmt_u64_hex(entry.session_id);
    v.append(&mut sid);
    v.push(0x7c);
    let mut tok = fmt_u64_hex(entry.token);
    v.append(&mut tok);
    v.push(0x7c);
    let ghost head = v@;
    let mut i: usize = 0;
    while i < data_line.len()
        invariant
            0 <= i <= data_line@.len(),
            v@ == head + strip_line_endings(data_line@.take(i as int)),
        decreases data_line@.len() - i,
    {
        let b = data_line[i];
        if b != 0x0d && b != 0x0a {
            v.push(b);
        }
        proof {
            reveal(Seq::filter);
            assert(data_line@.take(i + 1).drop_last() =~= data_line@.take(i as int));
            assert(data_line@.take(i + 1).last() == data_line@[i as int]);
        }
        i += 1;
    }
    proof {
        assert(data_line@.take(data_line@.len() as int) =~= data_line@);
    }
    v.push(0x0a);
    proof {
        assert(v@ =~= sp_data_line_bytes(entry.session_id, entry.token, data_line@));
    }
    v
}

/// Encodes one capability line.
pub fn register_line(kind: Kind, subsystem: SubSystem, name: &str) -> (v: Vec<u8>)
    ensures
        v@ == sp_register_bytes(kind, subsystem, name@),
{
    let mut v: Vec<u8> = Vec::new();
    push_str(&mut v, "register|");
    let k = kind.to_string();
    push_str(&mut v, k.as_str());
    v.push(0x7c);
    let ss = subsystem.to_string();
    push_str(&mut v, ss.as_str());
    v.push(0x7c);
    push_str(&mut v, name);
    v.push(0x0a);
    proof {
        assert(v@ =~= sp_register_bytes(kind, subsystem, name@));
    }
    v
}

/// Encodes the readiness line.
pub fn register_ready_line() -> (v: Vec<u8>)
    ensures
        v@ == sp_register_ready_bytes(),
{
    let mut v: Vec<u8> = Vec::new();
    push_str(&mut v, "register|ready");
    v.push(0x0a);
    proof {
        assert(v@ =~= sp_register_ready_bytes());
    }
    v
}

/// The parameter tail's bytes: a delimiter before each parameter.
pub open spec fn sp_params_tail_bytes(ps: Seq<Seq<char>>) -> Seq<u8>
    decreases ps.len(),
{
    if ps.len() == 0 {
        Seq::empty()
    } else {
        seq![0x7cu8] + encode_utf8(ps[0]) + sp_params_tail_bytes(ps.skip(1))
    }
}

pub proof fn lemma_params_tail_snoc(ps: Seq<Seq<char>>, p: Seq<char>)
    ensures
        sp_params_tail_bytes(ps.push(p)) =~= sp_params_tail_bytes(ps) + seq![0x7cu8] + encode_utf8(p),
    decreases ps.len(),
{
    if ps.len() == 0 {
        assert(ps.push(p)[0] == p);
        assert(ps.push(p).skip(1) =~= Seq::<Seq<char>>::empty());
        assert(sp_params_tail_bytes(ps.push(p).skip(1)) =~= Seq::<u8>::empty());
        assert(sp_params_tail_bytes(ps) =~= Seq::<u8>::empty());
        assert(sp_params_tail_bytes(ps.push(p)) =~= seq![0x7cu8] + encode_utf8(p)
            + sp_params_tail_bytes(ps.push(p).skip(1)));
    } else {
        assert(ps.push(p)[0] == ps[0]);
        assert(ps.push(p).skip(1) =~= ps.skip(1).push(p));
        lemma_params_tail_snoc(ps.skip(1), p);
        assert(sp_params_tail_bytes(ps.push(p)) =~= seq![0x7cu8] + encode_utf8(ps[0])
            + sp_params_tail_bytes(ps.skip(1).push(p)));
        assert(sp_params_tail_bytes(ps) =~= seq![0x7cu8] + encode_utf8(ps[0])
            + sp_params_tail_bytes(ps.skip(1)));
    }
}

/// A record's wire line, as the decoder's sibling formatter writes it.
pub open spec fn sp_entry_bytes(e: EntryV) -> Seq<u8> {
    match e {
        EntryV::Report(r) => encode_utf8(Kind::Report.spec_str()) + seq![0x7cu8] + encode_utf8(r.version)
            + seq![0x7cu8] + r.timestamp.spec_bytes() + seq![0x7cu8] + encode_utf8(
            r.subsystem.spec_str(),
        ) + seq![0x7cu8] + encode_utf8(r.event.spec_str()) + seq![0x7cu8] + hex_seq_of(
            r.session_id as nat,
        ) + sp_params_tail_bytes(r.params) + seq![0x0au8],
        EntryV::Filter(f) => encode_utf8(Kind::Filter.spec_str()) + seq![0x7cu8] + encode_utf8(f.version)
            + seq![0x7cu8] + f.timestamp.spec_bytes() + seq![0x7cu8] + encode_utf8(
            f.subsystem.spec_str(),
        ) + seq![0x7cu8] + encode_utf8(f.phase.spec_str()) + seq![0x7cu8] + hex_seq_of(
            f.token as nat,
        ) + seq![0x7cu8] + hex_seq_of(f.session_id as nat) + (match f.data_line {
            Some(d) => seq![0x7cu8] + d,
            None => sp_params_tail_bytes(f.params),
        }) + seq![0x0au8],
    }
}

/// Appends a field's bytes: a string's bytes are its UTF-8 encoding.
fn push_field(v: &mut Vec<u8>, s: &str)
    ensures
        final(v)@ == old(v)@ + encode_utf8(s@),
{
    push_str(v, s);
}

/// Encodes one record as its wire line, the decoder's sibling formatter.
pub fn encode_entry(e: &Entry) -> (v: Vec<u8>)
    requires
        e@.wf(),
    ensures
        v@ == sp_entry_bytes(e@),
{
    let mut v: Vec<u8> = Vec::new();
    match e {
        Entry::V1Report(r) => {
            proof {
                crate::entry::lemma_kind_str_wf(Kind::Report);
                crate::data_structures::subsystem::lemma_subsystem_str_wf(r.subsystem);
                crate::data_structures::event::lemma_event_str_wf(r.event);
            }
            push_field(&mut v, "report");
            v.push(0x7c);
            push_field(&mut v, r.version.as_str());
            v.push(0x7c);
            let mut ts = r.timestamp.to_bytes();
            v.append(&mut ts);
            v.push(0x7c);
            let ss = r.subsystem.to_string();
            push_field(&mut v, ss.as_str());
            v.push(0x7c);
            let ev = r.event.to_string();
            push_field(&mut v, ev.as_str());
            v.push(0x7c);
            let mut sid = fmt_u64_hex(r.session_id);
            v.append(&mut sid);
            push_params_tail(&mut v, &r.params);
            v.push(0x0a);
            proof {
                assert(v@ =~= sp_entry_bytes(e@));
            }
        },
        Entry::V1Filter(f) => {
            proof {
                crate::entry::lemma_kind_str_wf(Kind::Filter);
                crate::data_structures::subsystem::lemma_subsystem_str_wf(f.subsystem);
                crate::data_structures::filter_phase::lemma_filter_phase_str_wf(f.phase);
            }
            push_field(&mut v, "filter");
            v.push(0x7c);
            push_field(&mut v, f.version.as_str());
            v.push(0x7c);
            let mut ts = f.timestamp.to_bytes();
            v.append(&mut ts);
            v.push(0x7c);
            let ss = f.subsystem.to_string();
            push_field(&mut v, ss.as_str());
            v.push(0x7c);
            let ph = f.phase.to_string();
            push_field(&mut v, ph.as_str());
            v.push(0x7c);
            let mut tok = fmt_u64_hex(f.token);
            v.append(&mut tok);
            v.push(0x7c);
            let mut sid = fmt_u64_hex(f.session_id);
            v.append(&mut sid);
            match &f.data_line {
                Some(d) => {
                    v.push(0x7c);
                    v.extend_from_slice(d.as_slice());
                },
                None => {
                    push_params_tail(&mut v, &f.params);
                },
            }
            v.push(0x0a);
            proof {
                assert(v@ =~= sp_entry_bytes(e@));
            }
        },
    }
    v
}

/// Appends the parameter tail: a delimiter before each parameter.
fn push_params_tail(v: &mut Vec<u8>, params: &Vec<String>)
    requires
        crate::entry::wf_params(params.deep_view()),
    ensures
        final(v)@ == old(v)@ + sp_params_tail_bytes(params.deep_view()),
{
    let ghost dv = params.deep_view();
    let ghost head = v@;
    let mut i: usize = 0;
    proof {
        assert(sp_params_tail_bytes(dv.take(0)) =~= Seq::<u8>::empty());
        assert(v@ =~= head + sp_params_tail_bytes(dv.take(0)));
    }
    while i < params.len()
        invariant
            dv == params.deep_view(),
            crate::entry::wf_params(dv),
            0 <= i <= dv.len(),
            v@ == head + sp_params_tail_bytes(dv.take(i as int)),
        decreases dv.len() - i,
    {
        v.push(0x7c);
        proof {
            assert(dv[i as int] == params@[i as int]@);
            assert(crate::entry::wf_field(dv[i as int]));
        }
        push_field(v, params[i].as_str());
        proof {
            lemma_params_tail_snoc(dv.take(i as int), dv[i as int]);
            assert(dv.take(i + 1) =~= dv.take(i as int).push(dv[i as int]));
            assert(v@ =~= head + sp_params_tail_bytes(dv.take(i + 1)));
        }
        i += 1;
    }
    proof {
        assert(dv.take(dv.len() as int) =~= dv);
    }
}

/// A well-formed field followed by a field-ending byte reads back exactly.
proof fn lemma_field_exact(fld: Seq<char>, rest: Seq<u8>)
    requires
        wf_field(fld),
        fld.len() > 0,
        rest.len() > 0 ==> !param_byte(rest[0]),
    ensures
        sp_field(encode_utf8(fld) + rest) == Some((fld, rest)),
{
    lemma_wf_field_bytes(fld);
    assert forall|i: int|
        0 <= i < encode_utf8(fld).len() implies class_fn(ByteClass::Param)(
        #[trigger] encode_utf8(fld)[i],
    ) by {
        assert(param_byte(encode_utf8(fld)[i]));
    }
    if rest.len() > 0 {
        assert(!class_fn(ByteClass::Param)(rest[0]));
    }
    lemma_sp_take_exact(ByteClass::Param, encode_utf8(fld), rest);
    if encode_utf8(fld).len() == 0 {
        assert(decode_utf8(encode_utf8(fld)) =~= Seq::<char>::empty());
        assert(fld.len() == 0);
    }
}

/// A delimiter reads back as one.
proof fn lemma_sep_exact(rest: Seq<u8>)
    ensures
        sp_sep(seq![0x7cu8] + rest) == Some(rest),
{
    assert((seq![0x7cu8] + rest)[0] == 0x7c);
    assert((seq![0x7cu8] + rest).skip(1) =~= rest);
}

/// A hexadecimal number followed by a non-digit reads back exactly.
proof fn lemma_hex_exact(n: u64, rest: Seq<u8>)
    requires
        rest.len() > 0 ==> !is_hex_digit(rest[0]),
    ensures
        sp_hex_u64(crate::numbers::hex_seq_of(n as nat) + rest) == Some((n, rest)),
{
    let d = crate::numbers::hex_seq_of(n as nat);
    lemma_hex_seq_of_digits(n as nat);
    assert forall|i: int| 0 <= i < d.len() implies class_fn(ByteClass::HexDigit)(
        #[trigger] d[i],
    ) by {
        assert(is_hex_digit(d[i]));
    }
    if rest.len() > 0 {
        assert(!class_fn(ByteClass::HexDigit)(rest[0]));
    }
    lemma_sp_take_exact(ByteClass::HexDigit, d, rest);
    lemma_hex_val_of_hex_seq(n as nat);
}

/// A timestamp followed by a non-digit reads back exactly.
proof fn lemma_timestamp_exact(tv: crate::data_structures::timeval::TimeVal, rest: Seq<u8>)
    requires
        tv.wf(),
        rest.len() > 0,
        !is_dec_digit(rest[0]),
    ensures
        sp_timestamp(tv.spec_bytes() + rest) == Some((tv, rest)),
{
    let sb = signed_dec_seq_of(tv.sec as int);
    let pd = padded6_seq_of(tv.usec as nat);
    let s = tv.spec_bytes() + rest;
    let mag: nat = if tv.sec < 0 {
        (-(tv.sec as int)) as nat
    } else {
        tv.sec as nat
    };
    lemma_dec_seq_of_digits(mag);
    lemma_dec_seq_of_digits(tv.usec as nat);
    lemma_zero_bytes_val(6 - dec_seq_of(tv.usec as nat).len());
    lemma_pow10_6();
    lemma_dec_seq_len(tv.usec as nat, 6);
    assert(pd.len() == 6);
    assert forall|i: int| 0 <= i < pd.len() implies class_fn(ByteClass::DecDigit)(
        #[trigger] pd[i],
    ) by {
        let z = zero_bytes(6 - dec_seq_of(tv.usec as nat).len());
        if i < z.len() {
            assert(pd[i] == z[i]);
        } else {
            assert(pd[i] == dec_seq_of(tv.usec as nat)[i - z.len()]);
        }
    }
    let after_dot = pd + rest;
    assert(!class_fn(ByteClass::DecDigit)(rest[0]));
    lemma_sp_take_exact(ByteClass::DecDigit, pd, after_dot.skip(pd.len() as int));
    assert(after_dot.skip(pd.len() as int) =~= rest);
    lemma_sp_take_exact(ByteClass::DecDigit, pd, rest);
    lemma_dec_val_leading_zeros(
        6 - dec_seq_of(tv.usec as nat).len(),
        dec_seq_of(tv.usec as nat),
    );
    lemma_dec_val_of_dec_seq(tv.usec as nat);
    let digits = dec_seq_of(mag);
    assert forall|i: int| 0 <= i < digits.len() implies class_fn(ByteClass::DecDigit)(
        #[trigger] digits[i],
    ) by {
        assert(is_dec_digit(digits[i]));
    }
    let dot_tail = seq![0x2eu8] + pd + rest;
    assert(!class_fn(ByteClass::DecDigit)(dot_tail[0]));
    lemma_sp_take_exact(ByteClass::DecDigit, digits, dot_tail);
    lemma_dec_val_of_dec_seq(mag);
    if tv.sec < 0 {
        assert(sb =~= seq![0x2du8] + digits);
        assert(s =~= seq![0x2du8] + (digits + dot_tail));
        assert(s[0] == 0x2d);
        assert(s.skip(1) =~= digits + dot_tail);
        assert(dot_tail[0] == 0x2e);
        assert(dot_tail.skip(1) =~= pd + rest);
    } else {
        assert(sb =~= digits);
        assert(s =~= digits + dot_tail);
        assert(digits.len() > 0);
        assert(is_dec_digit(digits[0]));
        assert(s[0] == digits[0]);
        assert(s[0] != 0x2d);
        assert(dot_tail[0] == 0x2e);
        assert(dot_tail.skip(1) =~= pd + rest);
    }
}

/// A parameter tail followed by a line ending reads back exactly.
proof fn lemma_params_exact(ps: Seq<Seq<char>>, rest: Seq<u8>)
    requires
        wf_params(ps),
        rest.len() > 0,
        rest[0] != 0x7c,
        !param_byte(rest[0]),
    ensures
        sp_params(sp_params_tail_bytes(ps) + rest) == Some((ps, rest)),
    decreases ps.len(),
{
    let s = sp_params_tail_bytes(ps) + rest;
    if ps.len() == 0 {
        assert(s =~= rest);
        assert(sp_params(s) == Some((Seq::<Seq<char>>::empty(), rest)));
        assert(Seq::<Seq<char>>::empty() =~= ps);
    } else {
        let p0 = ps[0];
        assert(wf_field(p0));
        lemma_wf_field_bytes(p0);
        let tail = sp_params_tail_bytes(ps.skip(1)) + rest;
        assert(s =~= seq![0x7cu8] + (encode_utf8(p0) + tail));
        assert(s[0] == 0x7c);
        assert(s.skip(1) =~= encode_utf8(p0) + tail);
        assert forall|i: int|
            0 <= i < encode_utf8(p0).len() implies class_fn(ByteClass::Param)(
            #[trigger] encode_utf8(p0)[i],
        ) by {
            assert(param_byte(encode_utf8(p0)[i]));
        }
        if ps.skip(1).len() == 0 {
            assert(tail =~= rest);
            assert(!class_fn(ByteClass::Param)(tail[0]));
        } else {
            assert(sp_params_tail_bytes(ps.skip(1))[0] == 0x7c);
            assert(tail[0] == 0x7c);
            assert(!class_fn(ByteClass::Param)(tail[0]));
        }
        lemma_sp_take_exact(ByteClass::Param, encode_utf8(p0), tail);
        assert forall|i: int| 0 <= i < ps.skip(1).len() implies wf_field(
            #[trigger] ps.skip(1)[i],
        ) by {
            assert(ps.skip(1)[i] == ps[i + 1]);
        }
        lemma_params_exact(ps.skip(1), rest);
        assert(seq![decode_utf8(encode_utf8(p0))] + ps.skip(1) =~= ps);
    }
}

/// Round trip: re-decoding an encoded record yields it back, field for
/// field, for every well-formed record.
#[verifier::rlimit(100)]
proof fn lemma_report_round_trip(e: EntryV)
    requires
        e.wf(),
        e is Report,
    ensures
        sp_parse_entry(sp_entry_bytes(e)) == Some(e),
{
    let eol = seq![0x0au8];
    assert(sp_eol(eol) == Some(eol.skip(1)));
    let r = e->Report_0;
    let kname = Kind::Report.spec_str();
    crate::entry::lemma_kind_str_wf(Kind::Report);
    crate::entry::lemma_kind_round(Kind::Report);
    crate::data_structures::subsystem::lemma_subsystem_str_wf(r.subsystem);
    crate::data_structures::subsystem::lemma_subsystem_round(r.subsystem);
    crate::data_structures::event::lemma_event_str_wf(r.event);
    crate::data_structures::event::lemma_event_round(r.event);
    let t8 = sp_params_tail_bytes(r.params) + eol;
    let t7 = crate::numbers::hex_seq_of(r.session_id as nat) + t8;
    let t6 = seq![0x7cu8] + t7;
    let t5 = encode_utf8(r.event.spec_str()) + t6;
    let t4 = seq![0x7cu8] + t5;
    let t3 = encode_utf8(r.subsystem.spec_str()) + t4;
    let t2b = seq![0x7cu8] + t3;
    let t2 = r.timestamp.spec_bytes() + t2b;
    let t1b = seq![0x7cu8] + t2;
    let t1 = encode_utf8(r.version) + t1b;
    let t0b = seq![0x7cu8] + t1;
    let s = encode_utf8(kname) + t0b;
    assert(sp_entry_bytes(e) =~= s);
    lemma_field_exact(kname, t0b);
    assert(sp_field(s) == Some((kname, t0b)));
    assert(Kind::spec_from(kname) == Ok::<Kind, ()>(Kind::Report));
    lemma_sep_exact(t1);
    assert(sp_sep(t0b) == Some(t1));
    lemma_field_exact(r.version, t1b);
    assert(sp_field(t1) == Some((r.version, t1b)));
    lemma_sep_exact(t2);
    assert(sp_sep(t1b) == Some(t2));
    lemma_timestamp_exact(r.timestamp, t2b);
    assert(sp_timestamp(t2) == Some((r.timestamp, t2b)));
    lemma_sep_exact(t3);
    assert(sp_sep(t2b) == Some(t3));
    lemma_field_exact(r.subsystem.spec_str(), t4);
    assert(sp_field(t3) == Some((r.subsystem.spec_str(), t4)));
    lemma_sep_exact(t5);
    assert(sp_sep(t4) == Some(t5));
    lemma_field_exact(r.event.spec_str(), t6);
    assert(sp_field(t5) == Some((r.event.spec_str(), t6)));
    lemma_sep_exact(t7);
    assert(sp_sep(t6) == Some(t7));
    if r.params.len() > 0 {
        assert(sp_params_tail_bytes(r.params)[0] == 0x7c);
        assert(t8[0] == 0x7c);
        assert(!is_hex_digit(t8[0]));
    } else {
        assert(t8 =~= eol);
        assert(!is_hex_digit(t8[0]));
    }
    lemma_hex_exact(r.session_id, t8);
    assert(sp_hex_u64(t7) == Some((r.session_id, t8)));
    lemma_params_exact(r.params, eol);
    assert(sp_params(t8) == Some((r.params, eol)));
    assert(crate::parsers::entry::sp_report_tail(
        r.version,
        r.timestamp,
        r.subsystem,
        r.event.spec_str(),
        t7,
    ) == Some(e));
    assert(sp_parse_entry(s) == Some(e));
}

#[verifier::rlimit(100)]
proof fn lemma_filter_round_trip(e: EntryV)
    requires
        e.wf(),
        e is Filter,
    ensures
        sp_parse_entry(sp_entry_bytes(e)) == Some(e),
{
    let eol = seq![0x0au8];
    assert(sp_eol(eol) == Some(eol.skip(1)));
    let f = e->Filter_0;
    let kname = Kind::Filter.spec_str();
    crate::entry::lemma_kind_str_wf(Kind::Filter);
    crate::entry::lemma_kind_round(Kind::Filter);
    crate::data_structures::subsystem::lemma_subsystem_str_wf(f.subsystem);
    crate::data_structures::subsystem::lemma_subsystem_round(f.subsystem);
    crate::data_structures::filter_phase::lemma_filter_phase_str_wf(f.phase);
    crate::data_structures::filter_phase::lemma_filter_phase_round(f.phase);
    let t10 = (match f.data_line {
        Some(d) => seq![0x7cu8] + d,
        None => sp_params_tail_bytes(f.params),
    }) + eol;
    let t9 = crate::numbers::hex_seq_of(f.session_id as nat) + t10;
    let t8b = seq![0x7cu8] + t9;
    let t8 = crate::numbers::hex_seq_of(f.token as nat) + t8b;
    let t6 = seq![0x7cu8] + t8;
    let t5 = encode_utf8(f.phase.spec_str()) + t6;
    let t4 = seq![0x7cu8] + t5;
    let t3 = encode_utf8(f.subsystem.spec_str()) + t4;
    let t2b = seq![0x7cu8] + t3;
    let t2 = f.timestamp.spec_bytes() + t2b;
    let t1b = seq![0x7cu8] + t2;
    let t1 = encode_utf8(f.version) + t1b;
    let t0b = seq![0x7cu8] + t1;
    let s = encode_utf8(kname) + t0b;
    assert(sp_entry_bytes(e) =~= s);
    lemma_field_exact(kname, t0b);
    assert(sp_field(s) == Some((kname, t0b)));
    assert(Kind::spec_from(kname) == Ok::<Kind, ()>(Kind::Filter));
    lemma_sep_exact(t1);
    assert(sp_sep(t0b) == Some(t1));
    lemma_field_exact(f.version, t1b);
    assert(sp_field(t1) == Some((f.version, t1b)));
    lemma_sep_exact(t2);
    assert(sp_sep(t1b) == Some(t2));
    lemma_timestamp_exact(f.timestamp, t2b);
    assert(sp_timestamp(t2) == Some((f.timestamp, t2b)));
    lemma_sep_exact(t3);
    assert(sp_sep(t2b) == Some(t3));
    lemma_field_exact(f.subsystem.spec_str(), t4);
    assert(sp_field(t3) == Some((f.subsystem.spec_str(), t4)));
    lemma_sep_exact(t5);
    assert(sp_sep(t4) == Some(t5));
    lemma_field_exact(f.phase.spec_str(), t6);
    assert(sp_field(t5) == Some((f.phase.spec_str(), t6)));
    lemma_sep_exact(t8);
    assert(sp_sep(t6) == Some(t8));
    assert(t8b[0] == 0x7c);
    assert(!is_hex_digit(t8b[0]));
    lemma_hex_exact(f.token, t8b);
    assert(sp_hex_u64(t8) == Some((f.token, t8b)));
    lemma_sep_exact(t9);
    assert(sp_sep(t8b) == Some(t9));
    match f.data_line {
        Some(d) => {
            assert(f.phase == crate::data_structures::filter_phase::FilterPhase::DataLine);
            assert(t10 =~= seq![0x7cu8] + (d + eol));
            assert(t10[0] == 0x7c);
            assert(!is_hex_digit(t10[0]));
            lemma_hex_exact(f.session_id, t10);
            assert(sp_hex_u64(t9) == Some((f.session_id, t10)));
            lemma_sep_exact(d + eol);
            assert(sp_sep(t10) == Some(d + eol));
            assert forall|i: int| 0 <= i < d.len() implies class_fn(ByteClass::Body)(
                #[trigger] d[i],
            ) by {
                assert(crate::parsers::body_byte(d[i]));
            }
            assert(!class_fn(ByteClass::Body)(eol[0]));
            lemma_sp_take_exact(ByteClass::Body, d, eol);
            assert(sp_take(ByteClass::Body, d + eol) == (d, eol));
            assert(f.params =~= Seq::<Seq<char>>::empty());
            assert(crate::parsers::entry::sp_filter_tail(
                f.version,
                f.timestamp,
                f.subsystem,
                f.phase.spec_str(),
                t8,
            ) == Some(e));
            assert(sp_parse_entry(s) == Some(e));
        },
        None => {
            assert(f.phase != crate::data_structures::filter_phase::FilterPhase::DataLine);
            if f.params.len() > 0 {
                assert(sp_params_tail_bytes(f.params)[0] == 0x7c);
                assert(t10[0] == 0x7c);
                assert(!is_hex_digit(t10[0]));
            } else {
                assert(t10 =~= eol);
                assert(!is_hex_digit(t10[0]));
            }
            lemma_hex_exact(f.session_id, t10);
            assert(sp_hex_u64(t9) == Some((f.session_id, t10)));
            lemma_params_exact(f.params, eol);
            assert(sp_params(t10) == Some((f.params, eol)));
            assert(crate::parsers::entry::sp_filter_tail(
                f.version,
                f.timestamp,
                f.subsystem,
                f.phase.spec_str(),
                t8,
            ) == Some(e));
            assert(sp_parse_entry(s) == Some(e));
        },
    }
}

/// Round trip: re-decoding an encoded record yields it back, field for
/// field, for every well-formed record.
pub proof fn lemma_entry_round_trip(e: EntryV)
    requires
        e.wf(),
    ensures
        sp_parse_entry(sp_entry_bytes(e)) == Some(e),
{
    match e {
        EntryV::Report(_) => {
            lemma_report_round_trip(e);
        },
        EntryV::Filter(_) => {
            lemma_filter_round_trip(e);
        },
    }
}

} // verus!
