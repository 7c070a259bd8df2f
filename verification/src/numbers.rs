use vstd::prelude::*;

verus! {

// Decimal and hexadecimal text forms of the integers that appear on the wire:
// timestamps, sizes, session identifiers and tokens.

pub open spec fn is_dec_digit(b: u8) -> bool {
    0x30 <= b <= 0x39
}

pub open spec fn is_hex_digit(b: u8) -> bool {
    is_dec_digit(b) || (0x61 <= b <= 0x66) || (0x41 <= b <= 0x46)
}

pub open spec fn dec_digit_of(d: int) -> u8
    recommends
        0 <= d < 10,
{
    (0x30 + d) as u8
}

pub open spec fn dec_digit_val(b: u8) -> int {
    b - 0x30
}

pub open spec fn hex_digit_of(d: int) -> u8
    recommends
        0 <= d < 16,
{
    if d < 10 {
        (0x30 + d) as u8
    } else {
        (0x61 + (d - 10)) as u8
    }
}

pub open spec fn hex_digit_val(b: u8) -> int {
    if 0x30 <= b <= 0x39 {
        b - 0x30
    } else if 0x61 <= b <= 0x66 {
        b - 0x61 + 10
    } else {
        b - 0x41 + 10
    }
}

/// The canonical decimal form of `n`: no leading zero except for zero itself.
pub open spec fn dec_seq_of(n: nat) -> Seq<u8>
    decreases n,
{
    if n < 10 {
        seq![dec_digit_of(n as int)]
    } else {
        dec_seq_of(n / 10).push(dec_digit_of((n % 10) as int))
    }
}

/// The canonical lower-case hexadecimal form of `n`.
pub open spec fn hex_seq_of(n: nat) -> Seq<u8>
    decreases n,
{
    if n < 16 {
        seq![hex_digit_of(n as int)]
    } else {
        hex_seq_of(n / 16).push(hex_digit_of((n % 16) as int))
    }
}

/// The value of a string of decimal digits, read left to right.
pub open spec fn dec_val(s: Seq<u8>) -> int
    decreases s.len(),
{
    if s.len() == 0 {
        0
    } else {
        dec_val(s.drop_last()) * 10 + dec_digit_val(s.last())
    }
}

/// The value of a string of hexadecimal digits, read left to right.
pub open spec fn hex_val(s: Seq<u8>) -> int
    decreases s.len(),
{
    if s.len() == 0 {
        0
    } else {
        hex_val(s.drop_last()) * 16 + hex_digit_val(s.last())
    }
}

pub open spec fn all_dec_digits(s: Seq<u8>) -> bool {
    forall|i: int| 0 <= i < s.len() ==> is_dec_digit(#[trigger] s[i])
}

pub open spec fn all_hex_digits(s: Seq<u8>) -> bool {
    forall|i: int| 0 <= i < s.len() ==> is_hex_digit(#[trigger] s[i])
}

pub proof fn lemma_dec_digit_round(d: int)
    requires
        0 <= d < 10,
    ensures
        is_dec_digit(dec_digit_of(d)),
        dec_digit_val(dec_digit_of(d)) == d,
{
}

pub proof fn lemma_hex_digit_round(d: int)
    requires
        0 <= d < 16,
    ensures
        is_hex_digit(hex_digit_of(d)),
        hex_digit_val(hex_digit_of(d)) == d,
{
}

pub proof fn lemma_dec_seq_of_digits(n: nat)
    ensures
        dec_seq_of(n).len() >= 1,
        all_dec_digits(dec_seq_of(n)),
        dec_seq_of(n)[0] != 0x30 || n < 10,
    decreases n,
{
    if n >= 10 {
        lemma_dec_seq_of_digits(n / 10);
    }
}

pub proof fn lemma_hex_seq_of_digits(n: nat)
    ensures
        hex_seq_of(n).len() >= 1,
        all_hex_digits(hex_seq_of(n)),
    decreases n,
{
    if n >= 16 {
        lemma_hex_seq_of_digits(n / 16);
    }
}

pub proof fn lemma_dec_val_of_dec_seq(n: nat)
    ensures
        dec_val(dec_seq_of(n)) == n,
    decreases n,
{
    if n < 10 {
        lemma_dec_digit_round(n as int);
        assert(dec_seq_of(n) == seq![dec_digit_of(n as int)]);
        assert(dec_seq_of(n).len() == 1);
        assert(dec_seq_of(n).drop_last() =~= Seq::<u8>::empty());
        assert(dec_seq_of(n).last() == dec_digit_of(n as int));
        assert(dec_val(Seq::<u8>::empty()) == 0);
        assert(dec_val(dec_seq_of(n)) == dec_val(dec_seq_of(n).drop_last()) * 10 + dec_digit_val(
            dec_seq_of(n).last(),
        ));
    } else {
        lemma_dec_digit_round((n % 10) as int);
        lemma_dec_val_of_dec_seq(n / 10);
        vstd::arithmetic::div_mod::lemma_fundamental_div_mod(n as int, 10);
        assert(dec_seq_of(n).drop_last() =~= dec_seq_of(n / 10));
        assert(dec_seq_of(n).last() == dec_digit_of((n % 10) as int));
    }
}

pub proof fn lemma_hex_val_of_hex_seq(n: nat)
    ensures
        hex_val(hex_seq_of(n)) == n,
    decreases n,
{
    if n < 16 {
        lemma_hex_digit_round(n as int);
        assert(hex_seq_of(n) == seq![hex_digit_of(n as int)]);
        assert(hex_seq_of(n).len() == 1);
        assert(hex_seq_of(n).drop_last() =~= Seq::<u8>::empty());
        assert(hex_seq_of(n).last() == hex_digit_of(n as int));
        assert(hex_val(Seq::<u8>::empty()) == 0);
        assert(hex_val(hex_seq_of(n)) == hex_val(hex_seq_of(n).drop_last()) * 16 + hex_digit_val(
            hex_seq_of(n).last(),
        ));
    } else {
        lemma_hex_digit_round((n % 16) as int);
        lemma_hex_val_of_hex_seq(n / 16);
        vstd::arithmetic::div_mod::lemma_fundamental_div_mod(n as int, 16);
        assert(hex_seq_of(n).drop_last() =~= hex_seq_of(n / 16));
        assert(hex_seq_of(n).last() == hex_digit_of((n % 16) as int));
    }
}

pub proof fn lemma_dec_val_bounds(s: Seq<u8>)
    requires
        all_dec_digits(s),
    ensures
        0 <= dec_val(s),
        forall|j: int| 0 <= j <= s.len() ==> 0 <= dec_val(#[trigger] s.take(j)) <= dec_val(s),
    decreases s.len(),
{
    if s.len() > 0 {
        assert(s.drop_last() =~= s.take(s.len() - 1));
        assert(all_dec_digits(s.drop_last()));
        lemma_dec_val_bounds(s.drop_last());
        assert forall|j: int| 0 <= j <= s.len() implies 0 <= dec_val(#[trigger] s.take(j))
            <= dec_val(s) by {
            if j < s.len() {
                assert(s.drop_last().take(j) =~= s.take(j));
            } else {
                assert(s.take(j) =~= s);
            }
        }
    }
}

pub proof fn lemma_hex_val_bounds(s: Seq<u8>)
    requires
        all_hex_digits(s),
    ensures
        0 <= hex_val(s),
        forall|j: int| 0 <= j <= s.len() ==> 0 <= hex_val(#[trigger] s.take(j)) <= hex_val(s),
    decreases s.len(),
{
    if s.len() > 0 {
        assert(s.drop_last() =~= s.take(s.len() - 1));
        assert(all_hex_digits(s.drop_last()));
        lemma_hex_val_bounds(s.drop_last());
        assert forall|j: int| 0 <= j <= s.len() implies 0 <= hex_val(#[trigger] s.take(j))
            <= hex_val(s) by {
            if j < s.len() {
                assert(s.drop_last().take(j) =~= s.take(j));
            } else {
                assert(s.take(j) =~= s);
            }
        }
    }
}

/// The decimal form of a signed value: a minus sign before the magnitude
/// when the value is negative.
pub open spec fn signed_dec_seq_of(n: int) -> Seq<u8> {
    if n < 0 {
        seq![0x2du8] + dec_seq_of((-n) as nat)
    } else {
        dec_seq_of(n as nat)
    }
}

pub open spec fn zero_bytes(k: int) -> Seq<u8> {
    Seq::new(if k < 0 {
        0
    } else {
        k as nat
    }, |i: int| 0x30u8)
}

/// The decimal form of `n`, zero-padded on the left to at least six digits.
pub open spec fn padded6_seq_of(n: nat) -> Seq<u8> {
    zero_bytes(6 - dec_seq_of(n).len()) + dec_seq_of(n)
}

pub open spec fn pow10(k: nat) -> int
    decreases k,
{
    if k == 0 {
        1
    } else {
        10 * pow10((k - 1) as nat)
    }
}

/// Reading concatenated digit strings: the left part is scaled by the
/// length of the right part.
pub proof fn lemma_dec_val_concat(a: Seq<u8>, b: Seq<u8>)
    ensures
        dec_val(a + b) == dec_val(a) * pow10(b.len()) + dec_val(b),
    decreases b.len(),
{
    if b.len() == 0 {
        assert(a + b =~= a);
    } else {
        lemma_dec_val_concat(a, b.drop_last());
        assert((a + b).drop_last() =~= a + b.drop_last());
        assert((a + b).last() == b.last());
        assert(dec_val(a + b) == (dec_val(a) * pow10((b.len() - 1) as nat) + dec_val(
            b.drop_last(),
        )) * 10 + dec_digit_val(b.last()));
        assert(dec_val(a) * pow10((b.len() - 1) as nat) * 10 == dec_val(a) * pow10(b.len()))
            by (nonlinear_arith)
            requires
                pow10(b.len()) == 10 * pow10((b.len() - 1) as nat),
        ;
    }
}

pub proof fn lemma_pow10_pos(k: nat)
    ensures
        pow10(k) >= 1,
    decreases k,
{
    if k > 0 {
        lemma_pow10_pos((k - 1) as nat);
    }
}

/// A value below ten to the `k` has at most `k` digits.
pub proof fn lemma_dec_seq_len(n: nat, k: nat)
    requires
        n < pow10(k),
        k >= 1,
    ensures
        dec_seq_of(n).len() <= k,
    decreases k,
{
    if n >= 10 {
        assert(pow10(k) == 10 * pow10((k - 1) as nat));
        lemma_dec_seq_len(n / 10, (k - 1) as nat);
    }
}

pub proof fn lemma_pow10_6()
    ensures
        pow10(6) == 1000000,
{
    reveal_with_fuel(pow10, 7);
}

/// A digit string's value is below ten to its length.
pub proof fn lemma_dec_val_upper(s: Seq<u8>)
    requires
        all_dec_digits(s),
    ensures
        dec_val(s) < pow10(s.len()),
    decreases s.len(),
{
    lemma_pow10_pos(s.len());
    if s.len() > 0 {
        assert(s.drop_last() =~= s.take(s.len() - 1));
        assert(all_dec_digits(s.drop_last()));
        lemma_dec_val_upper(s.drop_last());
        assert(dec_val(s.drop_last()) * 10 <= (pow10((s.len() - 1) as nat) - 1) * 10)
            by (nonlinear_arith)
            requires
                dec_val(s.drop_last()) <= pow10((s.len() - 1) as nat) - 1,
        ;
    }
}

/// Leading zeroes do not change a digit string's value.
pub proof fn lemma_dec_val_leading_zeros(k: int, s: Seq<u8>)
    ensures
        dec_val(zero_bytes(k) + s) == dec_val(s),
{
    lemma_dec_val_concat(zero_bytes(k), s);
    lemma_zero_bytes_val(k);
    assert(dec_val(zero_bytes(k)) * pow10(s.len()) == 0) by (nonlinear_arith)
        requires
            dec_val(zero_bytes(k)) == 0,
    ;
}

pub proof fn lemma_zero_bytes_val(k: int)
    ensures
        dec_val(zero_bytes(k)) == 0,
        all_dec_digits(zero_bytes(k)),
    decreases
            (if k < 0 {
                0
            } else {
                k
            }),
{
    if k > 0 {
        lemma_zero_bytes_val(k - 1);
        assert(zero_bytes(k).drop_last() =~= zero_bytes(k - 1));
    }
}

/// Writes `n` in decimal, as the digits' byte values.
pub fn fmt_u64_dec(n: u64) -> (v: Vec<u8>)
    ensures
        v@ == dec_seq_of(n as nat),
    decreases n,
{
    if n < 10 {
        let mut v: Vec<u8> = Vec::new();
        v.push(0x30 + (n as u8));
        assert(v@ =~= dec_seq_of(n as nat));
        v
    } else {
        let mut v = fmt_u64_dec(n / 10);
        v.push(0x30 + ((n % 10) as u8));
        assert(v@ =~= dec_seq_of(n as nat));
        v
    }
}

/// Writes `n` in lower-case hexadecimal, as the digits' byte values.
pub fn fmt_u64_hex(n: u64) -> (v: Vec<u8>)
    ensures
        v@ == hex_seq_of(n as nat),
    decreases n,
{
    if n < 16 {
        let mut v: Vec<u8> = Vec::new();
        let d = n as u8;
        if d < 10 {
            v.push(0x30 + d);
        } else {
            v.push(0x61 + (d - 10));
        }
        assert(v@ =~= hex_seq_of(n as nat));
        v
    } else {
        let mut v = fmt_u64_hex(n / 16);
        let d = (n % 16) as u8;
        if d < 10 {
            v.push(0x30 + d);
        } else {
            v.push(0x61 + (d - 10));
        }
        assert(v@ =~= hex_seq_of(n as nat));
        v
    }
}

/// Writes a signed value in decimal.
pub fn fmt_i64_dec(n: i64) -> (v: Vec<u8>)
    ensures
        v@ == signed_dec_seq_of(n as int),
{
    if n >= 0 {
        fmt_u64_dec(n as u64)
    } else {
        let mag: u64 = ((-(n + 1)) as u64) + 1;
        assert(mag == -(n as int));
        let mut v: Vec<u8> = Vec::new();
        v.push(0x2d);
        let mut d = fmt_u64_dec(mag);
        v.append(&mut d);
        proof {
            assert(v@ =~= signed_dec_seq_of(n as int));
        }
        v
    }
}

/// Writes `n` in decimal, zero-padded on the left to at least six digits.
pub fn fmt_padded6(n: u64) -> (v: Vec<u8>)
    ensures
        v@ == padded6_seq_of(n as nat),
{
    let mut d = fmt_u64_dec(n);
    let pad: usize = if d.len() >= 6 {
        0
    } else {
        6 - d.len()
    };
    let mut v: Vec<u8> = Vec::new();
    while v.len() < pad
        invariant
            pad <= 6,
            0 <= v@.len() <= pad,
            v@ == zero_bytes(v@.len() as int),
        decreases pad - v@.len(),
    {
        v.push(0x30);
        proof {
            assert(v@ =~= zero_bytes(v@.len() as int));
        }
    }
    proof {
        assert(v@ =~= zero_bytes(6 - d@.len()));
    }
    v.append(&mut d);
    proof {
        assert(v@ =~= padded6_seq_of(n as nat));
    }
    v
}

/// Reads a string of decimal digits; fails when the value does not fit in
/// a `u64`.
pub fn parse_u64_dec(s: &[u8]) -> (r: Option<u64>)
    requires
        all_dec_digits(s@),
    ensures
        r is Some <==> dec_val(s@) <= u64::MAX,
        r is Some ==> r->0 == dec_val(s@),
{
    proof {
        lemma_dec_val_bounds(s@);
    }
    let mut acc: u64 = 0;
    let mut i: usize = 0;
    while i < s.len()
        invariant
            0 <= i <= s@.len(),
            all_dec_digits(s@),
            acc == dec_val(s@.take(i as int)),
            forall|j: int| 0 <= j <= s@.len() ==> 0 <= dec_val(#[trigger] s@.take(j)) <= dec_val(
                s@,
            ),
        decreases s@.len() - i,
    {
        let d = s[i] - 0x30;
        let next = match acc.checked_mul(10) {
            Some(m) => m.checked_add(d as u64),
            None => None,
        };
        proof {
            assert(s@.take(i + 1).drop_last() =~= s@.take(i as int));
            assert(s@.take(i + 1).last() == s@[i as int]);
        }
        match next {
            Some(m) => {
                acc = m;
            },
            None => {
                proof {
                    assert(dec_val(s@.take(i + 1)) > u64::MAX);
                }
                return None;
            },
        }
        i += 1;
    }
    proof {
        assert(s@.take(s@.len() as int) =~= s@);
    }
    Some(acc)
}

/// Reads a string of hexadecimal digits, either case; fails when the value
/// does not fit in a `u64`.
pub fn parse_u64_hex(s: &[u8]) -> (r: Option<u64>)
    requires
        all_hex_digits(s@),
    ensures
        r is Some <==> hex_val(s@) <= u64::MAX,
        r is Some ==> r->0 == hex_val(s@),
{
    proof {
        lemma_hex_val_bounds(s@);
    }
    let mut acc: u64 = 0;
    let mut i: usize = 0;
    while i < s.len()
        invariant
            0 <= i <= s@.len(),
            all_hex_digits(s@),
            acc == hex_val(s@.take(i as int)),
            forall|j: int| 0 <= j <= s@.len() ==> 0 <= hex_val(#[trigger] s@.take(j)) <= hex_val(
                s@,
            ),
        decreases s@.len() - i,
    {
        let b = s[i];
        let d: u8 = if b >= 0x61 {
            b - 0x61 + 10
        } else if b >= 0x41 {
            b - 0x41 + 10
        } else {
            b - 0x30
        };
        let next = match acc.checked_mul(16) {
            Some(m) => m.checked_add(d as u64),
            None => None,
        };
        proof {
            assert(s@.take(i + 1).drop_last() =~= s@.take(i as int));
            assert(s@.take(i + 1).last() == s@[i as int]);
        }
        match next {
            Some(m) => {
                acc = m;
            },
            None => {
                proof {
                    assert(hex_val(s@.take(i + 1)) > u64::MAX);
                }
                return None;
            },
        }
        i += 1;
    }
    proof {
        assert(s@.take(s@.len() as int) =~= s@);
    }
    Some(acc)
}

} // verus!
