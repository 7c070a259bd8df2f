pub(crate) mod entry;
pub(crate) mod handshake;
pub(crate) mod parameters;

use vstd::prelude::*;
use vstd::string::StringSliceAdditionalSpecFns;

verus! {

// The wire format is pipe-delimited UTF-8 text, one record per line.  The
// helpers here classify bytes, split maximal prefixes, and convert between
// bytes and strings; the record and handshake grammars build on them.

/// A byte that may appear inside a data line: anything that is not a
/// control character (the C0 range, delete, and the C1 range).
pub open spec fn body_byte(b: u8) -> bool {
    0x20 <= b && b != 0x7f && !(0x80 <= b < 0xa0)
}

/// A byte that may appear inside an ordinary parameter: any non-control
/// byte other than the field delimiter.
pub open spec fn param_byte(b: u8) -> bool {
    body_byte(b) && b != 0x7c
}

/// Whether a byte may appear inside a data line.
pub fn is_body_char(c: u8) -> (r: bool)
    ensures
        r == body_byte(c),
{
    0x20 <= c && c != 0x7f && !(0x80 <= c && c < 0xa0)
}

/// Whether a byte may appear inside an ordinary parameter.
pub fn is_parameter_char(c: u8) -> (r: bool)
    ensures
        r == param_byte(c),
{
    is_body_char(c) && c != 0x7c
}

/// Whether a character ends a parameter.
pub fn is_end_param(c: char) -> (r: bool)
    ensures
        r == (c == '|' || c == '\r' || c == '\n'),
{
    c == '|' || c == '\r' || c == '\n'
}

/// The classes of bytes the grammar takes maximal runs of.
#[derive(Clone, Copy, Debug, PartialEq, Eq, Structural)]
pub enum ByteClass {
    DecDigit,
    HexDigit,
    Param,
    Body,
    NotLineFeed,
}

pub open spec fn class_fn(c: ByteClass) -> spec_fn(u8) -> bool {
    match c {
        ByteClass::DecDigit => |b: u8| crate::numbers::is_dec_digit(b),
        ByteClass::HexDigit => |b: u8| crate::numbers::is_hex_digit(b),
        ByteClass::Param => |b: u8| param_byte(b),
        ByteClass::Body => |b: u8| body_byte(b),
        ByteClass::NotLineFeed => |b: u8| b != 0x0a,
    }
}

/// Whether a byte belongs to a class.
pub fn class_test(c: ByteClass, b: u8) -> (r: bool)
    ensures
        r == class_fn(c)(b),
{
    match c {
        ByteClass::DecDigit => 0x30 <= b && b <= 0x39,
        ByteClass::HexDigit => (0x30 <= b && b <= 0x39) || (0x61 <= b && b <= 0x66) || (0x41 <= b
            && b <= 0x46),
        ByteClass::Param => is_parameter_char(b),
        ByteClass::Body => is_body_char(b),
        ByteClass::NotLineFeed => b != 0x0a,
    }
}

/// The length of the longest prefix of `s` whose bytes all satisfy `p`.
pub open spec fn prefix_len(p: spec_fn(u8) -> bool, s: Seq<u8>) -> int
    decreases s.len(),
{
    if s.len() == 0 || !p(s[0]) {
        0
    } else {
        1 + prefix_len(p, s.drop_first())
    }
}

pub proof fn lemma_prefix_len_bounds(p: spec_fn(u8) -> bool, s: Seq<u8>)
    ensures
        0 <= prefix_len(p, s) <= s.len(),
        forall|j: int| 0 <= j < prefix_len(p, s) ==> p(s[j]),
        prefix_len(p, s) < s.len() ==> !p(s[prefix_len(p, s)]),
    decreases s.len(),
{
    if s.len() > 0 && p(s[0]) {
        lemma_prefix_len_bounds(p, s.drop_first());
        assert forall|j: int| 0 <= j < prefix_len(p, s) implies p(s[j]) by {
            if j > 0 {
                assert(p(s.drop_first()[j - 1]));
            }
        }
    }
}

/// `prefix_len` is pinned down by its characteristic properties.
pub proof fn lemma_prefix_len_is(p: spec_fn(u8) -> bool, s: Seq<u8>, n: int)
    requires
        0 <= n <= s.len(),
        forall|j: int| 0 <= j < n ==> p(s[j]),
        n < s.len() ==> !p(s[n]),
    ensures
        prefix_len(p, s) == n,
    decreases s.len(),
{
    if s.len() > 0 && p(s[0]) {
        assert forall|j: int| 0 <= j < n - 1 implies p(s.drop_first()[j]) by {
            assert(p(s[j + 1]));
        }
        lemma_prefix_len_is(p, s.drop_first(), n - 1);
    }
}

/// The longest prefix of a class, and what follows it.
pub open spec fn sp_take(c: ByteClass, s: Seq<u8>) -> (Seq<u8>, Seq<u8>) {
    let n = prefix_len(class_fn(c), s);
    (s.take(n), s.skip(n))
}

/// Splits `s` at the end of the longest prefix of bytes in class `c`.
pub fn take_prefix<'a>(c: ByteClass, s: &'a [u8]) -> (r: (&'a [u8], &'a [u8]))
    ensures
        r.0@ == sp_take(c, s@).0,
        r.1@ == sp_take(c, s@).1,
{
    let mut i: usize = 0;
    while i < s.len() && class_test(c, s[i])
        invariant
            0 <= i <= s@.len(),
            forall|j: int| 0 <= j < i ==> class_fn(c)(s@[j]),
        decreases s@.len() - i,
    {
        i += 1;
    }
    proof {
        lemma_prefix_len_is(class_fn(c), s@, i as int);
    }
    (slice_take(s, i), slice_skip(s, i))
}

/// The first `n` bytes of a slice.
pub fn slice_take<'a>(s: &'a [u8], n: usize) -> (r: &'a [u8])
    requires
        n <= s@.len(),
    ensures
        r@ == s@.take(n as int),
{
    let r = &s[0..n];
    proof {
        assert(r@ =~= s@.take(n as int));
    }
    r
}

/// The bytes of a slice from position `n` on.
pub fn slice_skip<'a>(s: &'a [u8], n: usize) -> (r: &'a [u8])
    requires
        n <= s@.len(),
    ensures
        r@ == s@.skip(n as int),
{
    let r = &s[n..s.len()];
    proof {
        assert(r@ =~= s@.skip(n as int));
    }
    r
}

/// Whether two byte slices hold the same bytes.
pub fn bytes_eq(a: &[u8], b: &[u8]) -> (r: bool)
    ensures
        r == (a@ == b@),
{
    if a.len() != b.len() {
        assert(a@.len() != b@.len());
        return false;
    }
    let mut i: usize = 0;
    while i < a.len()
        invariant
            0 <= i <= a@.len(),
            a@.len() == b@.len(),
            forall|j: int| 0 <= j < i ==> a@[j] == b@[j],
        decreases a@.len() - i,
    {
        if a[i] != b[i] {
            return false;
        }
        i += 1;
    }
    proof {
        assert(a@ =~= b@);
    }
    true
}

/// Whether two strings hold the same characters.
pub fn str_eq(a: &str, b: &str) -> (r: bool)
    ensures
        r == (a@ == b@),
{
    let r = bytes_eq(a.as_bytes(), b.as_bytes());
    proof {
        broadcast use vstd::utf8::encode_utf8_decode_utf8;

        if a.spec_bytes() == b.spec_bytes() {
            assert(vstd::utf8::decode_utf8(vstd::utf8::encode_utf8(a@)) == a@);
            assert(vstd::utf8::decode_utf8(vstd::utf8::encode_utf8(b@)) == b@);
        }
    }
    r
}

/// The characters denoted by a run of ASCII bytes.
pub open spec fn chars_of(b: Seq<u8>) -> Seq<char> {
    b.map_values(|x: u8| x as char)
}

/// The bytes denoted by a run of ASCII characters.
pub open spec fn bytes_of(s: Seq<char>) -> Seq<u8> {
    s.map_values(|c: char| c as u8)
}

/// Relies on `String::from_utf8`: it returns the string of the decoded
/// scalar values exactly when the bytes are valid UTF-8, and refuses
/// anything else.
#[verifier::external_body]
pub(crate) fn utf8_to_string(b: &[u8]) -> (r: Option<String>)
    ensures
        r is Some <==> vstd::utf8::valid_utf8(b@),
        r matches Some(s) ==> s@ == vstd::utf8::decode_utf8(b@),
{
    match String::from_utf8(b.to_vec()) {
        Ok(s) => Some(s),
        Err(_) => None,
    }
}

/// ASCII bytes are valid UTF-8 and decode to the characters with the same
/// values.
pub proof fn lemma_ascii_bytes_utf8(b: Seq<u8>)
    requires
        forall|i: int| 0 <= i < b.len() ==> #[trigger] b[i] < 128,
    ensures
        vstd::utf8::valid_utf8(b),
        vstd::utf8::decode_utf8(b) == chars_of(b),
{
    let chars = chars_of(b);
    assert forall|i: int| 0 <= i < chars.len() implies '\0' <= #[trigger] chars[i] <= '\u{7f}' by {
        assert(chars[i] == b[i] as char);
        assert('\u{7f}' as int == 127);
        assert('\0' as int == 0);
    }
    assert(vstd::utf8::is_ascii_chars(chars));
    vstd::utf8::is_ascii_chars_encode_utf8(chars);
    assert(vstd::utf8::encode_utf8(chars) =~= b) by {
        assert forall|i: int|
            0 <= i < chars.len() implies #[trigger] vstd::utf8::encode_utf8(chars)[i] == b[i] by {
            assert(vstd::utf8::encode_utf8(chars)[i] == chars[i] as u8);
            assert(chars[i] == b[i] as char);
        }
    }
    vstd::utf8::encode_utf8_valid_utf8(chars);
    vstd::utf8::encode_utf8_decode_utf8(chars);
}

/// The string an ASCII byte run denotes.
pub(crate) fn ascii_to_string(b: &[u8]) -> (r: String)
    requires
        forall|i: int| 0 <= i < b@.len() ==> #[trigger] b@[i] < 128,
    ensures
        r@ == chars_of(b@),
{
    proof {
        lemma_ascii_bytes_utf8(b@);
    }
    match utf8_to_string(b) {
        Some(s) => s,
        None => {
            proof {
                assert(false);
            }
            String::new()
        },
    }
}

/// A run of one class followed by something outside it splits back into
/// exactly those two parts.
pub proof fn lemma_sp_take_exact(c: ByteClass, f: Seq<u8>, rest: Seq<u8>)
    requires
        forall|i: int| 0 <= i < f.len() ==> class_fn(c)(#[trigger] f[i]),
        rest.len() > 0 ==> !class_fn(c)(rest[0]),
    ensures
        sp_take(c, f + rest) == (f, rest),
{
    let s = f + rest;
    assert forall|j: int| 0 <= j < f.len() implies class_fn(c)(s[j]) by {
        assert(s[j] == f[j]);
    }
    if f.len() < s.len() {
        assert(s[f.len() as int] == rest[0]);
    }
    lemma_prefix_len_is(class_fn(c), s, f.len() as int);
    assert(s.take(f.len() as int) =~= f);
    assert(s.skip(f.len() as int) =~= rest);
}

/// A well-formed field's encoding is valid UTF-8 and decodes back to the
/// field's characters; its bytes are parameter bytes by definition.
pub proof fn lemma_wf_field_bytes(s: Seq<char>)
    requires
        crate::entry::wf_field(s),
    ensures
        vstd::utf8::valid_utf8(vstd::utf8::encode_utf8(s)),
        vstd::utf8::decode_utf8(vstd::utf8::encode_utf8(s)) == s,
        forall|i: int|
            0 <= i < vstd::utf8::encode_utf8(s).len() ==> param_byte(
                #[trigger] vstd::utf8::encode_utf8(s)[i],
            ),
{
    vstd::utf8::encode_utf8_valid_utf8(s);
    vstd::utf8::encode_utf8_decode_utf8(s);
}

/// A field whose characters are printable ASCII other than the delimiter
/// is well formed.
pub proof fn lemma_ascii_wf_field(s: Seq<char>)
    requires
        forall|i: int|
            0 <= i < s.len() ==> 0x20 <= ((#[trigger] s[i]) as int) <= 0x7e && s[i] != '|',
    ensures
        crate::entry::wf_field(s),
        vstd::utf8::encode_utf8(s) == bytes_of(s),
{
    assert forall|i: int| 0 <= i < s.len() implies '\0' <= #[trigger] s[i] <= '\u{7f}' by {
        assert('\u{7f}' as int == 127);
        assert('\0' as int == 0);
    }
    assert(vstd::utf8::is_ascii_chars(s));
    vstd::utf8::is_ascii_chars_encode_utf8(s);
    assert(vstd::utf8::encode_utf8(s) =~= bytes_of(s));
    assert forall|i: int|
        0 <= i < vstd::utf8::encode_utf8(s).len() implies param_byte(
        #[trigger] vstd::utf8::encode_utf8(s)[i],
    ) by {
        assert(vstd::utf8::encode_utf8(s)[i] == s[i] as u8);
        assert('|' as int == 0x7c);
    }
}

/// The index of the first line feed in `s`, as the length of the
/// line-feed-free prefix.
pub open spec fn line_feed_at(s: Seq<u8>) -> int {
    prefix_len(class_fn(ByteClass::NotLineFeed), s)
}

/// Removes and returns the first line of the buffer, up to and including
/// its line feed; leaves the buffer alone when no full line has arrived.
pub fn split_line(buf: &mut Vec<u8>) -> (line: Option<Vec<u8>>)
    ensures
        match line {
            Some(l) => {
                &&& line_feed_at(old(buf)@) < old(buf)@.len()
                &&& l@ == old(buf)@.take(line_feed_at(old(buf)@) + 1)
                &&& final(buf)@ == old(buf)@.skip(line_feed_at(old(buf)@) + 1)
            },
            None => final(buf)@ == old(buf)@ && line_feed_at(old(buf)@) == old(buf)@.len(),
        },
{
    let (head, tail) = take_prefix(ByteClass::NotLineFeed, buf.as_slice());
    proof {
        lemma_prefix_len_bounds(class_fn(ByteClass::NotLineFeed), buf@);
    }
    if tail.len() == 0 {
        return None;
    }
    let n = head.len();
    proof {
        assert(n < buf@.len());
    }
    let mut line: Vec<u8> = Vec::new();
    let mut i: usize = 0;
    while i < n
        invariant
            n + 1 <= buf@.len(),
            0 <= i <= n,
            line@ == buf@.take(i as int),
        decreases n - i,
    {
        line.push(buf[i]);
        proof {
            assert(line@ =~= buf@.take(i + 1));
        }
        i += 1;
    }
    line.push(buf[n]);
    proof {
        assert(line@ =~= buf@.take(n + 1));
    }
    let mut rest: Vec<u8> = Vec::new();
    rest.extend_from_slice(slice_skip(tail, 1));
    proof {
        assert(rest@ =~= buf@.skip(n + 1));
    }
    *buf = rest;
    Some(line)
}

} // verus!
