use crate::numbers::{
    all_dec_digits, dec_seq_of, fmt_i64_dec, fmt_padded6, lemma_dec_seq_of_digits,
    lemma_zero_bytes_val, padded6_seq_of, signed_dec_seq_of, zero_bytes,
};
use crate::parsers::{ascii_to_string, chars_of};
use vstd::prelude::*;

verus! {

/// A record's timestamp: seconds and microseconds.
#[derive(Clone, Copy, Debug, Eq, PartialEq, Structural)]
pub struct TimeVal {
    pub sec: i64,
    pub usec: i64,
}

impl TimeVal {
    /// A timestamp carries microseconds in their six-digit range.
    pub open spec fn wf(self) -> bool {
        0 <= self.usec < 1000000
    }

    /// The timestamp's bytes on the wire: signed seconds, a dot, and the
    /// microseconds zero-padded to six digits.
    pub open spec fn spec_bytes(self) -> Seq<u8> {
        signed_dec_seq_of(self.sec as int) + seq![0x2eu8] + padded6_seq_of(self.usec as nat)
    }

    pub open spec fn spec_str(self) -> Seq<char> {
        chars_of(self.spec_bytes())
    }

    /// The timestamp's bytes on the wire.
    pub fn to_bytes(&self) -> (v: Vec<u8>)
        requires
            0 <= self.usec,
        ensures
            v@ == self.spec_bytes(),
    {
        let mut v = fmt_i64_dec(self.sec);
        v.push(0x2e);
        let mut u = fmt_padded6(self.usec as u64);
        v.append(&mut u);
        proof {
            assert(v@ =~= self.spec_bytes());
        }
        v
    }

    pub fn to_string(&self) -> (r: String)
        requires
            0 <= self.usec,
        ensures
            r@ == self.spec_str(),
    {
        let v = self.to_bytes();
        proof {
            lemma_timeval_bytes_ascii(*self);
        }
        ascii_to_string(v.as_slice())
    }
}

/// Every byte of an encoded timestamp is ASCII.
pub proof fn lemma_timeval_bytes_ascii(tv: TimeVal)
    requires
        0 <= tv.usec,
    ensures
        forall|i: int| 0 <= i < tv.spec_bytes().len() ==> #[trigger] tv.spec_bytes()[i] < 128,
{
    lemma_dec_seq_of_digits((tv.usec as nat));
    lemma_zero_bytes_val(6 - dec_seq_of(tv.usec as nat).len());
    if tv.sec < 0 {
        lemma_dec_seq_of_digits((-(tv.sec as int)) as nat);
    } else {
        lemma_dec_seq_of_digits((tv.sec as nat));
    }
    assert forall|i: int| 0 <= i < tv.spec_bytes().len() implies #[trigger] tv.spec_bytes()[i]
        < 128 by {
        let s = tv.spec_bytes();
        let a = signed_dec_seq_of(tv.sec as int);
        let p = padded6_seq_of(tv.usec as nat);
        if i < a.len() {
            if tv.sec < 0 {
                if i > 0 {
                    assert(a[i] == dec_seq_of((-(tv.sec as int)) as nat)[i - 1]);
                }
            }
        } else if i == a.len() {
        } else {
            let j = i - a.len() - 1;
            assert(s[i] == p[j]);
            let z = zero_bytes(6 - dec_seq_of(tv.usec as nat).len());
            if j < z.len() {
                assert(p[j] == z[j]);
            } else {
                assert(p[j] == dec_seq_of(tv.usec as nat)[j - z.len()]);
            }
        }
    }
}

} // verus!
