use crate::data_structures::address::Address;
use crate::data_structures::auth_result::AuthResult;
use crate::data_structures::filter_kind::FilterKind;
use crate::data_structures::filter_phase::FilterPhase;
use crate::data_structures::mail_result::MailResult;
use crate::data_structures::method::Method;
use crate::errors::Error;
use crate::numbers::{all_dec_digits, dec_val};
use crate::parsers::{
    class_fn, lemma_prefix_len_bounds, slice_skip, sp_take, take_prefix, utf8_to_string, ByteClass,
};
use vstd::prelude::*;
use vstd::string::StringExecFns;
use vstd::string::StringSliceAdditionalSpecFns;

verus! {

// Once the decoder has split a record's parameter tail, the shapes fixed
// by each event and phase are read here: field counts, enumerated names,
// sizes, and addresses.  A violated shape is a decode error.

/// The view of a parameter list.
pub open spec fn dv(params: &Vec<String>) -> Seq<Seq<char>> {
    params.deep_view()
}

/// Fetches one parameter, which must be present and nonempty.
fn get_param(params: &Vec<String>, i: usize) -> (r: Option<String>)
    ensures
        r is Some <==> (i < dv(params).len() && dv(params)[i as int].len() > 0),
        r matches Some(s) ==> i < dv(params).len() && s@ == dv(params)[i as int],
{
    if i < params.len() {
        let s = params[i].clone();
        if !s.as_str().is_empty() {
            Some(s)
        } else {
            None
        }
    } else {
        None
    }
}

/// The textual form of a local-socket endpoint: the marker and a path.
pub open spec fn is_unix_form(t: Seq<char>) -> bool {
    vstd::utf8::encode_utf8(t).len() >= 6 && vstd::utf8::encode_utf8(t).take(5)
        == "unix:".spec_bytes()
}

/// In valid UTF-8, the position after an ASCII prefix is a character
/// boundary.
pub proof fn lemma_ascii_prefix_boundary(bytes: Seq<u8>, k: int)
    requires
        vstd::utf8::valid_utf8(bytes),
        0 <= k <= bytes.len(),
        forall|j: int| 0 <= j < k ==> #[trigger] bytes[j] < 0x80,
    ensures
        vstd::utf8::is_char_boundary(bytes, k),
    decreases k,
{
    if k > 0 {
        assert(bytes.len() > 0);
        assert(vstd::utf8::is_leading_byte_width_1(bytes[0]));
        assert(vstd::utf8::length_of_first_scalar(bytes) == 1);
        let rest = vstd::utf8::pop_first_scalar(bytes);
        assert(rest =~= bytes.skip(1));
        assert(vstd::utf8::valid_utf8(rest));
        assert forall|j: int| 0 <= j < k - 1 implies #[trigger] rest[j] < 0x80 by {
            assert(bytes[j + 1] < 0x80);
        }
        lemma_ascii_prefix_boundary(rest, k - 1);
    }
}

/// The concrete bytes of the local-socket marker.
proof fn lemma_unix_marker_bytes()
    ensures
        "unix:".spec_bytes().len() == 5,
        "unix:".spec_bytes()[0] == 0x75,
        "unix:".spec_bytes()[1] == 0x6e,
        "unix:".spec_bytes()[2] == 0x69,
        "unix:".spec_bytes()[3] == 0x78,
        "unix:".spec_bytes()[4] == 0x3a,
{
    reveal_strlit("unix:");
    vstd::string::is_ascii_spec_bytes("unix:");
    assert(vstd::utf8::is_ascii_chars("unix:"@));
    assert("unix:".spec_bytes() =~= Seq::new(5, |i: int| "unix:"@[i] as u8));
}

/// Reads an endpoint from a parameter: a path when it carries the local
/// marker, the textual socket address otherwise.
pub fn address_from_param(s: &str) -> (r: Result<Address, Error>)
    ensures
        r is Ok <==> s@.len() > 0,
        r matches Ok(a) ==> address_denotes(a, s@),
{
    proof {
        lemma_unix_marker_bytes();
        vstd::utf8::encode_utf8_valid_utf8(s@);
        vstd::utf8::encode_utf8_decode_utf8(s@);
    }
    let b = s.as_bytes();
    if b.len() == 0 {
        proof {
            assert(vstd::utf8::decode_utf8(vstd::utf8::encode_utf8(s@)) == s@);
            assert(vstd::utf8::encode_utf8(s@) =~= Seq::<u8>::empty());
        }
        return Err(Error::new_param("address", "empty"));
    }
    if b.len() >= 6 && b[0] == 0x75 && b[1] == 0x6e && b[2] == 0x69 && b[3] == 0x78 && b[4]
        == 0x3a {
        proof {
            assert(b@.take(5) =~= "unix:".spec_bytes());
            assert(is_unix_form(s@));
            lemma_ascii_prefix_boundary(b@, 5);
            vstd::utf8::valid_utf8_split(b@, 5);
            assert(b@.subrange(5, b@.len() as int) =~= b@.skip(5));
        }
        let suffix = slice_skip(b, 5);
        match utf8_to_string(suffix) {
            Some(p) => {
                proof {
                    vstd::utf8::decode_utf8_encode_utf8(suffix@);
                }
                Ok(Address::UnixSocket(p))
            },
            None => {
                proof {
                    assert(false);
                }
                Err(Error::new_param("address", "empty"))
            },
        }
    } else {
        proof {
            if is_unix_form(s@) {
                assert(b@[0] == b@.take(5)[0]);
                assert(b@[1] == b@.take(5)[1]);
                assert(b@[2] == b@.take(5)[2]);
                assert(b@[3] == b@.take(5)[3]);
                assert(b@[4] == b@.take(5)[4]);
                assert(false);
            }
        }
        Ok(Address::Ip(s.to_owned()))
    }
}

/// Reads an endpoint from the front of a raw field and hands back what
/// follows it.
pub fn parse_address(input: &[u8]) -> (r: Result<(Address, &[u8]), Error>)
    ensures
        r is Ok <==> ({
            let f = sp_take(ByteClass::Param, input@).0;
            f.len() > 0 && vstd::utf8::valid_utf8(f)
        }),
        r matches Ok((a, rest)) ==> ({
            let f = sp_take(ByteClass::Param, input@).0;
            &&& rest@ == sp_take(ByteClass::Param, input@).1
            &&& if f.len() >= 6 && f.take(5) == "unix:".spec_bytes() {
                a matches Address::UnixSocket(p) && vstd::utf8::encode_utf8(p@) == f.skip(5)
            } else {
                a matches Address::Ip(t) && t@ == vstd::utf8::decode_utf8(f)
            }
        }),
{
    let (f, rest) = take_prefix(ByteClass::Param, input);
    if f.len() == 0 {
        return Err(Error::new_param("address", "empty"));
    }
    proof {
        lemma_unix_marker_bytes();
    }
    if f.len() >= 6 && f[0] == 0x75 && f[1] == 0x6e && f[2] == 0x69 && f[3] == 0x78 && f[4]
        == 0x3a {
        proof {
            assert(f@.take(5) =~= "unix:".spec_bytes());
        }
        let suffix = slice_skip(f, 5);
        match utf8_to_string(suffix) {
            Some(p) => {
                proof {
                    assert(f@.take(5) + f@.skip(5) =~= f@);
                    assert(forall|j: int| 0 <= j < 5 ==> #[trigger] f@.take(5)[j] < 0x80);
                    crate::parsers::lemma_ascii_bytes_utf8(f@.take(5));
                    vstd::utf8::valid_utf8_concat(f@.take(5), f@.skip(5));
                    vstd::utf8::decode_utf8_encode_utf8(suffix@);
                }
                Ok((Address::UnixSocket(p), rest))
            },
            None => {
                proof {
                    if vstd::utf8::valid_utf8(f@) {
                        lemma_ascii_prefix_boundary(f@, 5);
                        vstd::utf8::valid_utf8_split(f@, 5);
                        assert(f@.subrange(5, f@.len() as int) =~= f@.skip(5));
                        assert(false);
                    }
                }
                Err(Error::new_param("address", "invalid text"))
            },
        }
    } else {
        proof {
            if f@.len() >= 6 && f@.take(5) == "unix:".spec_bytes() {
                assert(f@[0] == f@.take(5)[0]);
                assert(f@[1] == f@.take(5)[1]);
                assert(f@[2] == f@.take(5)[2]);
                assert(f@[3] == f@.take(5)[3]);
                assert(f@[4] == f@.take(5)[4]);
                assert(false);
            }
        }
        match utf8_to_string(f) {
            Some(t) => Ok((Address::Ip(t), rest)),
            None => Err(Error::new_param("address", "invalid text")),
        }
    }
}

/// Reads a size from a parameter: decimal digits whose value fits.
pub fn parse_usize_param(s: &str) -> (r: Result<usize, Error>)
    ensures
        r is Ok <==> (s.spec_bytes().len() > 0 && all_dec_digits(s.spec_bytes()) && dec_val(
            s.spec_bytes(),
        ) <= usize::MAX),
        r matches Ok(v) ==> v == dec_val(s.spec_bytes()),
{
    let b = s.as_bytes();
    let (ds, rest) = take_prefix(ByteClass::DecDigit, b);
    proof {
        lemma_prefix_len_bounds(class_fn(ByteClass::DecDigit), b@);
        assert forall|i: int| 0 <= i < ds@.len() implies crate::numbers::is_dec_digit(
            #[trigger] ds@[i],
        ) by {
            assert(class_fn(ByteClass::DecDigit)(ds@[i]));
        }
    }
    if ds.len() == 0 {
        return Err(Error::new_param("size", "missing digits"));
    }
    if rest.len() != 0 {
        proof {
            assert(b@[ds@.len() as int] == rest@[0]);
            assert(!all_dec_digits(b@));
        }
        return Err(Error::new_param("size", "not a number"));
    }
    proof {
        assert(ds@ =~= b@);
    }
    match crate::numbers::parse_u64_dec(ds) {
        Some(v) => {
            if v <= (usize::MAX as u64) {
                Ok(v as usize)
            } else {
                Err(Error::new_param("size", "too large"))
            }
        },
        None => {
            proof {
                crate::numbers::lemma_dec_val_bounds(ds@);
            }
            Err(Error::new_param("size", "too large"))
        },
    }
}

/// Whether an address value is the one a parameter denotes: the path
/// after the local-socket marker, or the parameter's own text.
pub open spec fn address_denotes(a: Address, t: Seq<char>) -> bool {
    if is_unix_form(t) {
        a matches Address::UnixSocket(p) && vstd::utf8::encode_utf8(p@) == vstd::utf8::encode_utf8(
            t,
        ).skip(5)
    } else {
        a matches Address::Ip(s) && s@ == t
    }
}

/// The parameters of a link-auth report: the user name and the result.
pub fn parse_report_link_auth(params: &Vec<String>) -> (r: Result<(String, AuthResult), Error>)
    ensures
        r is Ok <==> (dv(params).len() == 2 && dv(params)[0].len() > 0 && AuthResult::spec_from(
            dv(params)[1],
        ) is Ok),
        r matches Ok((u, a)) ==> u@ == dv(params)[0] && Ok::<AuthResult, ()>(a)
            == AuthResult::spec_from(dv(params)[1]),
{
    if params.len() != 2 {
        return Err(Error::new_param("link-auth", "wrong parameter count"));
    }
    let username = match get_param(params, 0) {
        Some(s) => s,
        None => {
            return Err(Error::new_param("link-auth", "empty user name"));
        },
    };
    let result = match AuthResult::from_str(params[1].as_str()) {
        Ok(a) => a,
        Err(_) => {
            return Err(Error::new_param("link-auth", "unknown result"));
        },
    };
    Ok((username, result))
}

/// The parameters of a link-connect report or connect filter request:
/// reverse and forward-confirmed DNS names, then both endpoints.
pub fn parse_report_link_connect(params: &Vec<String>) -> (r: Result<
    (String, String, Address, Address),
    Error,
>)
    ensures
        r is Ok <==> (dv(params).len() == 4 && dv(params)[0].len() > 0 && dv(params)[1].len() > 0
            && dv(params)[2].len() > 0 && dv(params)[3].len() > 0),
        r matches Ok((rdns, fcrdns, src, dest)) ==> rdns@ == dv(params)[0] && fcrdns@ == dv(
            params,
        )[1] && address_denotes(src, dv(params)[2]) && address_denotes(dest, dv(params)[3]),
{
    if params.len() != 4 {
        return Err(Error::new_param("link-connect", "wrong parameter count"));
    }
    let rdns = match get_param(params, 0) {
        Some(s) => s,
        None => {
            return Err(Error::new_param("link-connect", "empty rdns"));
        },
    };
    let fcrdns = match get_param(params, 1) {
        Some(s) => s,
        None => {
            return Err(Error::new_param("link-connect", "empty fcrdns"));
        },
    };
    let src = match address_from_param(params[2].as_str()) {
        Ok(a) => a,
        Err(e) => {
            return Err(e);
        },
    };
    let dest = match address_from_param(params[3].as_str()) {
        Ok(a) => a,
        Err(e) => {
            return Err(e);
        },
    };
    Ok((rdns, fcrdns, src, dest))
}

/// The parameters of a connect filter request; the shape is that of a
/// link-connect report.
pub fn parse_filter_connect(params: &Vec<String>) -> (r: Result<
    (String, String, Address, Address),
    Error,
>)
    ensures
        r is Ok <==> (dv(params).len() == 4 && dv(params)[0].len() > 0 && dv(params)[1].len() > 0
            && dv(params)[2].len() > 0 && dv(params)[3].len() > 0),
        r matches Ok((rdns, fcrdns, src, dest)) ==> rdns@ == dv(params)[0] && fcrdns@ == dv(
            params,
        )[1] && address_denotes(src, dv(params)[2]) && address_denotes(dest, dv(params)[3]),
{
    parse_report_link_connect(params)
}

/// The single string parameter shared by several events and phases.
fn parse_one_string(params: &Vec<String>, what: &str) -> (r: Result<String, Error>)
    ensures
        r is Ok <==> (dv(params).len() == 1 && dv(params)[0].len() > 0),
        r matches Ok(s) ==> s@ == dv(params)[0],
{
    if params.len() != 1 {
        return Err(Error::new_param(what, "wrong parameter count"));
    }
    match get_param(params, 0) {
        Some(s) => Ok(s),
        None => Err(Error::new_param(what, "empty parameter")),
    }
}

/// The parameter of a link-greeting report: the announced host name.
pub fn parse_report_link_greeting(params: &Vec<String>) -> (r: Result<String, Error>)
    ensures
        r is Ok <==> (dv(params).len() == 1 && dv(params)[0].len() > 0),
        r matches Ok(s) ==> s@ == dv(params)[0],
{
    parse_one_string(params, "link-greeting")
}

/// The parameters of a link-identify report: the method and the identity.
pub fn parse_report_link_identify(params: &Vec<String>) -> (r: Result<(Method, String), Error>)
    ensures
        r is Ok <==> (dv(params).len() == 2 && Method::spec_from(dv(params)[0]) is Ok && dv(
            params,
        )[1].len() > 0),
        r matches Ok((m, ident)) ==> Ok::<Method, ()>(m) == Method::spec_from(dv(params)[0])
            && ident@ == dv(params)[1],
{
    if params.len() != 2 {
        return Err(Error::new_param("link-identify", "wrong parameter count"));
    }
    let method = match Method::from_str(params[0].as_str()) {
        Ok(m) => m,
        Err(_) => {
            return Err(Error::new_param("link-identify", "unknown method"));
        },
    };
    let identity = match get_param(params, 1) {
        Some(s) => s,
        None => {
            return Err(Error::new_param("link-identify", "empty identity"));
        },
    };
    Ok((method, identity))
}

/// The parameter of a link-tls report: the negotiated cipher text.
pub fn parse_report_link_tls(params: &Vec<String>) -> (r: Result<String, Error>)
    ensures
        r is Ok <==> (dv(params).len() == 1 && dv(params)[0].len() > 0),
        r matches Ok(s) ==> s@ == dv(params)[0],
{
    parse_one_string(params, "link-tls")
}

/// The parameter of a tx-begin report: the message identifier.
pub fn parse_report_tx_begin(params: &Vec<String>) -> (r: Result<String, Error>)
    ensures
        r is Ok <==> (dv(params).len() == 1 && dv(params)[0].len() > 0),
        r matches Ok(s) ==> s@ == dv(params)[0],
{
    parse_one_string(params, "tx-begin")
}

/// A message identifier, a mail result, and an address, as tx-mail and
/// tx-rcpt reports carry them.
fn parse_id_result_addr(params: &Vec<String>, what: &str) -> (r: Result<
    (String, MailResult, String),
    Error,
>)
    ensures
        r is Ok <==> (dv(params).len() == 3 && dv(params)[0].len() > 0 && MailResult::spec_from(
            dv(params)[1],
        ) is Ok && dv(params)[2].len() > 0),
        r matches Ok((id, m, addr)) ==> id@ == dv(params)[0] && Ok::<MailResult, ()>(m)
            == MailResult::spec_from(dv(params)[1]) && addr@ == dv(params)[2],
{
    if params.len() != 3 {
        return Err(Error::new_param(what, "wrong parameter count"));
    }
    let id = match get_param(params, 0) {
        Some(s) => s,
        None => {
            return Err(Error::new_param(what, "empty message id"));
        },
    };
    let result = match MailResult::from_str(params[1].as_str()) {
        Ok(m) => m,
        Err(_) => {
            return Err(Error::new_param(what, "unknown result"));
        },
    };
    let addr = match get_param(params, 2) {
        Some(s) => s,
        None => {
            return Err(Error::new_param(what, "empty address"));
        },
    };
    Ok((id, result, addr))
}

/// The parameters of a tx-mail report.
pub fn parse_report_tx_mail(params: &Vec<String>) -> (r: Result<
    (String, MailResult, String),
    Error,
>)
    ensures
        r is Ok <==> (dv(params).len() == 3 && dv(params)[0].len() > 0 && MailResult::spec_from(
            dv(params)[1],
        ) is Ok && dv(params)[2].len() > 0),
        r matches Ok((id, m, addr)) ==> id@ == dv(params)[0] && Ok::<MailResult, ()>(m)
            == MailResult::spec_from(dv(params)[1]) && addr@ == dv(params)[2],
{
    parse_id_result_addr(params, "tx-mail")
}

/// The parameters of a tx-rcpt report.
pub fn parse_report_tx_rcpt(params: &Vec<String>) -> (r: Result<
    (String, MailResult, String),
    Error,
>)
    ensures
        r is Ok <==> (dv(params).len() == 3 && dv(params)[0].len() > 0 && MailResult::spec_from(
            dv(params)[1],
        ) is Ok && dv(params)[2].len() > 0),
        r matches Ok((id, m, addr)) ==> id@ == dv(params)[0] && Ok::<MailResult, ()>(m)
            == MailResult::spec_from(dv(params)[1]) && addr@ == dv(params)[2],
{
    parse_id_result_addr(params, "tx-rcpt")
}

/// The parameter of a tx-reset report: the message identifier, which an
/// early reset may omit.
pub fn parse_report_tx_reset(params: &Vec<String>) -> (r: Result<Option<String>, Error>)
    ensures
        r is Ok <==> (dv(params).len() == 0 || (dv(params).len() == 1 && dv(params)[0].len() > 0)),
        r matches Ok(o) ==> if dv(params).len() == 0 {
            o is None
        } else {
            o matches Some(s) && s@ == dv(params)[0]
        },
{
    if params.len() == 0 {
        return Ok(None);
    }
    if params.len() != 1 {
        return Err(Error::new_param("tx-reset", "wrong parameter count"));
    }
    match get_param(params, 0) {
        Some(s) => Ok(Some(s)),
        None => Err(Error::new_param("tx-reset", "empty message id")),
    }
}

/// The parameters of a tx-envelope report: the message and envelope
/// identifiers.
pub fn parse_report_tx_envelope(params: &Vec<String>) -> (r: Result<(String, String), Error>)
    ensures
        r is Ok <==> (dv(params).len() == 2 && dv(params)[0].len() > 0 && dv(params)[1].len() > 0),
        r matches Ok((msg, env)) ==> msg@ == dv(params)[0] && env@ == dv(params)[1],
{
    if params.len() != 2 {
        return Err(Error::new_param("tx-envelope", "wrong parameter count"));
    }
    let msg = match get_param(params, 0) {
        Some(s) => s,
        None => {
            return Err(Error::new_param("tx-envelope", "empty message id"));
        },
    };
    let env = match get_param(params, 1) {
        Some(s) => s,
        None => {
            return Err(Error::new_param("tx-envelope", "empty envelope id"));
        },
    };
    Ok((msg, env))
}

/// The parameters of a tx-data report: the message identifier and the
/// result.
pub fn parse_report_tx_data(params: &Vec<String>) -> (r: Result<(String, MailResult), Error>)
    ensures
        r is Ok <==> (dv(params).len() == 2 && dv(params)[0].len() > 0 && MailResult::spec_from(
            dv(params)[1],
        ) is Ok),
        r matches Ok((id, m)) ==> id@ == dv(params)[0] && Ok::<MailResult, ()>(m)
            == MailResult::spec_from(dv(params)[1]),
{
    if params.len() != 2 {
        return Err(Error::new_param("tx-data", "wrong parameter count"));
    }
    let id = match get_param(params, 0) {
        Some(s) => s,
        None => {
            return Err(Error::new_param("tx-data", "empty message id"));
        },
    };
    let result = match MailResult::from_str(params[1].as_str()) {
        Ok(m) => m,
        Err(_) => {
            return Err(Error::new_param("tx-data", "unknown result"));
        },
    };
    Ok((id, result))
}

/// The parameters of a tx-commit report: the message identifier and the
/// message size.
pub fn parse_report_tx_commit(params: &Vec<String>) -> (r: Result<(String, usize), Error>)
    ensures
        r is Ok <==> (dv(params).len() == 2 && dv(params)[0].len() > 0 && ({
            let b = vstd::utf8::encode_utf8(dv(params)[1]);
            b.len() > 0 && all_dec_digits(b) && dec_val(b) <= usize::MAX
        })),
        r matches Ok((id, n)) ==> id@ == dv(params)[0] && n == dec_val(
            vstd::utf8::encode_utf8(dv(params)[1]),
        ),
{
    if params.len() != 2 {
        return Err(Error::new_param("tx-commit", "wrong parameter count"));
    }
    let id = match get_param(params, 0) {
        Some(s) => s,
        None => {
            return Err(Error::new_param("tx-commit", "empty message id"));
        },
    };
    let n = match parse_usize_param(params[1].as_str()) {
        Ok(n) => n,
        Err(e) => {
            return Err(e);
        },
    };
    Ok((id, n))
}

/// The parameter of a tx-rollback report: the message identifier.
pub fn parse_report_tx_rollback(params: &Vec<String>) -> (r: Result<String, Error>)
    ensures
        r is Ok <==> (dv(params).len() == 1 && dv(params)[0].len() > 0),
        r matches Ok(s) ==> s@ == dv(params)[0],
{
    parse_one_string(params, "tx-rollback")
}

/// The parameter of a protocol-client report: the client's command line.
pub fn parse_report_protocol_client(params: &Vec<String>) -> (r: Result<String, Error>)
    ensures
        r is Ok <==> (dv(params).len() == 1 && dv(params)[0].len() > 0),
        r matches Ok(s) ==> s@ == dv(params)[0],
{
    parse_one_string(params, "protocol-client")
}

/// The parameter of a protocol-server report: the server's response line.
pub fn parse_report_protocol_server(params: &Vec<String>) -> (r: Result<String, Error>)
    ensures
        r is Ok <==> (dv(params).len() == 1 && dv(params)[0].len() > 0),
        r matches Ok(s) ==> s@ == dv(params)[0],
{
    parse_one_string(params, "protocol-server")
}

/// The parameters of a filter-response report: the phase, the response,
/// and an optional extra parameter.
pub fn parse_report_filter_response(params: &Vec<String>) -> (r: Result<
    (FilterPhase, String, Option<String>),
    Error,
>)
    ensures
        r is Ok <==> ((dv(params).len() == 2 || dv(params).len() == 3) && FilterPhase::spec_from(
            dv(params)[0],
        ) is Ok && dv(params)[1].len() > 0 && (dv(params).len() == 3 ==> dv(params)[2].len() > 0)),
        r matches Ok((ph, res, extra)) ==> Ok::<FilterPhase, ()>(ph) == FilterPhase::spec_from(
            dv(params)[0],
        ) && res@ == dv(params)[1] && (if dv(params).len() == 3 {
            extra matches Some(x) && x@ == dv(params)[2]
        } else {
            extra is None
        }),
{
    if params.len() != 2 && params.len() != 3 {
        return Err(Error::new_param("filter-response", "wrong parameter count"));
    }
    let phase = match FilterPhase::from_str(params[0].as_str()) {
        Ok(p) => p,
        Err(_) => {
            return Err(Error::new_param("filter-response", "unknown phase"));
        },
    };
    let response = match get_param(params, 1) {
        Some(s) => s,
        None => {
            return Err(Error::new_param("filter-response", "empty response"));
        },
    };
    let extra = if params.len() == 3 {
        match get_param(params, 2) {
            Some(s) => Some(s),
            None => {
                return Err(Error::new_param("filter-response", "empty parameter"));
            },
        }
    } else {
        None
    };
    Ok((phase, response, extra))
}

/// The parameters of a filter-report report: the reporting filter's kind,
/// name, and message.
pub fn parse_report_filter_report(params: &Vec<String>) -> (r: Result<
    (FilterKind, String, String),
    Error,
>)
    ensures
        r is Ok <==> (dv(params).len() == 3 && FilterKind::spec_from(dv(params)[0]) is Ok && dv(
            params,
        )[1].len() > 0 && dv(params)[2].len() > 0),
        r matches Ok((k, name, message)) ==> Ok::<FilterKind, ()>(k) == FilterKind::spec_from(
            dv(params)[0],
        ) && name@ == dv(params)[1] && message@ == dv(params)[2],
{
    if params.len() != 3 {
        return Err(Error::new_param("filter-report", "wrong parameter count"));
    }
    let kind = match FilterKind::from_str(params[0].as_str()) {
        Ok(k) => k,
        Err(_) => {
            return Err(Error::new_param("filter-report", "unknown filter kind"));
        },
    };
    let name = match get_param(params, 1) {
        Some(s) => s,
        None => {
            return Err(Error::new_param("filter-report", "empty name"));
        },
    };
    let message = match get_param(params, 2) {
        Some(s) => s,
        None => {
            return Err(Error::new_param("filter-report", "empty message"));
        },
    };
    Ok((kind, name, message))
}

/// The parameter of an auth filter request: the authenticated identity.
pub fn parse_filter_auth(params: &Vec<String>) -> (r: Result<String, Error>)
    ensures
        r is Ok <==> (dv(params).len() == 1 && dv(params)[0].len() > 0),
        r matches Ok(s) ==> s@ == dv(params)[0],
{
    parse_one_string(params, "auth")
}

/// The parameter of an ehlo filter request: the announced identity.
pub fn parse_filter_ehlo(params: &Vec<String>) -> (r: Result<String, Error>)
    ensures
        r is Ok <==> (dv(params).len() == 1 && dv(params)[0].len() > 0),
        r matches Ok(s) ==> s@ == dv(params)[0],
{
    parse_one_string(params, "ehlo")
}

/// The parameter of a helo filter request: the announced identity.
pub fn parse_filter_helo(params: &Vec<String>) -> (r: Result<String, Error>)
    ensures
        r is Ok <==> (dv(params).len() == 1 && dv(params)[0].len() > 0),
        r matches Ok(s) ==> s@ == dv(params)[0],
{
    parse_one_string(params, "helo")
}

/// The parameter of a mail-from filter request: the sender address.
pub fn parse_filter_mail_from(params: &Vec<String>) -> (r: Result<String, Error>)
    ensures
        r is Ok <==> (dv(params).len() == 1 && dv(params)[0].len() > 0),
        r matches Ok(s) ==> s@ == dv(params)[0],
{
    parse_one_string(params, "mail-from")
}

/// The parameter of a rcpt-to filter request: the recipient address.
pub fn parse_filter_rcpt_to(params: &Vec<String>) -> (r: Result<String, Error>)
    ensures
        r is Ok <==> (dv(params).len() == 1 && dv(params)[0].len() > 0),
        r matches Ok(s) ==> s@ == dv(params)[0],
{
    parse_one_string(params, "rcpt-to")
}

/// The parameter of a starttls filter request: the negotiated cipher text.
pub fn parse_filter_starttls(params: &Vec<String>) -> (r: Result<String, Error>)
    ensures
        r is Ok <==> (dv(params).len() == 1 && dv(params)[0].len() > 0),
        r matches Ok(s) ==> s@ == dv(params)[0],
{
    parse_one_string(params, "starttls")
}

} // verus!
