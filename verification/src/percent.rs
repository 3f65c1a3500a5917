//! Percent (URL) encoding and decoding. Encoding keeps unreserved bytes and
//! writes every other byte as `%XX` with upper-case hex; decoding replaces
//! `%XX` pairs and leaves malformed escapes untouched. Credentials injected
//! into stream URLs and WS-Discovery scope fragments go through these.

use vstd::prelude::*;
use crate::strutil::{all_ascii, chars_of_bytes, string_from_ascii};

verus! {

use vstd::string::StringSliceAdditionalSpecFns;
use vstd::string::StrSliceExecFns;

/// Bytes kept verbatim by the encoder: ASCII alphanumerics and `- . _ ~`.
pub open spec fn is_unreserved(b: u8) -> bool {
    (48 <= b <= 57) || (65 <= b <= 90) || (97 <= b <= 122) || b == 45 || b == 46 || b == 95 || b
        == 126
}

/// Upper-case hex digit byte for `d < 16`.
pub open spec fn hex_upper(d: nat) -> u8 {
    if d < 10 {
        (48 + d) as u8
    } else {
        (55 + d) as u8
    }
}

/// Percent encoding of one byte.
pub open spec fn percent_encode_byte(b: u8) -> Seq<u8> {
    if is_unreserved(b) {
        seq![b]
    } else {
        seq![37u8, hex_upper(b as nat / 16), hex_upper(b as nat % 16)]
    }
}

/// Percent encoding of a byte sequence.
pub open spec fn percent_encoded(s: Seq<u8>) -> Seq<u8>
    decreases s.len(),
{
    if s.len() == 0 {
        Seq::empty()
    } else {
        percent_encode_byte(s[0]) + percent_encoded(s.drop_first())
    }
}

/// Numeric value of a hex digit byte, if it is one (either case).
pub open spec fn hex_val(b: u8) -> Option<nat> {
    if 48 <= b <= 57 {
        Some((b - 48) as nat)
    } else if 65 <= b <= 70 {
        Some((b - 55) as nat)
    } else if 97 <= b <= 102 {
        Some((b - 87) as nat)
    } else {
        None
    }
}

/// Percent decoding of a byte sequence: `%XX` with two hex digits becomes
/// the byte; anything else, a lone `%` included, is copied through.
pub open spec fn percent_decoded(s: Seq<u8>) -> Seq<u8>
    decreases s.len(),
{
    if s.len() == 0 {
        Seq::empty()
    } else if s[0] == 37 && s.len() >= 3 && hex_val(s[1]) is Some && hex_val(s[2]) is Some {
        seq![(hex_val(s[1]).unwrap() * 16 + hex_val(s[2]).unwrap()) as u8] + percent_decoded(
            s.skip(3),
        )
    } else {
        seq![s[0]] + percent_decoded(s.skip(1))
    }
}

/// Every byte of a percent-encoded sequence is ASCII.
pub proof fn lemma_percent_encoded_ascii(s: Seq<u8>)
    ensures
        all_ascii(percent_encoded(s)),
    decreases s.len(),
{
    if s.len() > 0 {
        lemma_percent_encoded_ascii(s.drop_first());
        assert(all_ascii(percent_encode_byte(s[0])));
        assert forall|i: int| 0 <= i < percent_encoded(s).len() implies #[trigger] percent_encoded(
            s,
        )[i] < 0x80 by {
            let head = percent_encode_byte(s[0]);
            if i < head.len() {
                assert(percent_encoded(s)[i] == head[i]);
            } else {
                assert(percent_encoded(s)[i] == percent_encoded(s.drop_first())[i - head.len()]);
            }
        }
    }
}

/// Percent-encode a byte vector.
pub fn percent_encode_bytes(s: &Vec<u8>) -> (r: Vec<u8>)
    ensures
        r@ == percent_encoded(s@),
{
    let mut out: Vec<u8> = Vec::new();
    let mut i: usize = 0;
    proof {
        assert(s@.skip(0) =~= s@);
        assert(out@ + percent_encoded(s@) =~= percent_encoded(s@));
    }
    loop
        invariant
            i <= s@.len(),
            out@ + percent_encoded(s@.skip(i as int)) == percent_encoded(s@),
        decreases s@.len() - i,
    {
        if i == s.len() {
            proof {
                assert(s@.skip(i as int).len() == 0);
                assert(out@ + percent_encoded(s@.skip(i as int)) =~= out@);
            }
            return out;
        }
        let b = s[i];
        proof {
            assert(s@.skip(i as int)[0] == s@[i as int]);
            assert(s@.skip(i as int).drop_first() =~= s@.skip(i + 1));
        }
        if (48 <= b && b <= 57) || (65 <= b && b <= 90) || (97 <= b && b <= 122) || b == 45 || b
            == 46 || b == 95 || b == 126 {
            out.push(b);
            proof {
                assert(out@ + percent_encoded(s@.skip(i + 1)) =~= (out@.drop_last()
                    + percent_encode_byte(s@[i as int])) + percent_encoded(s@.skip(i + 1)));
                assert((out@.drop_last() + percent_encode_byte(s@[i as int])) + percent_encoded(
                    s@.skip(i + 1),
                ) =~= out@.drop_last() + (percent_encode_byte(s@[i as int]) + percent_encoded(
                    s@.skip(i + 1),
                )));
            }
        } else {
            let hi = b / 16;
            let lo = b % 16;
            out.push(37);
            out.push(if hi < 10 { 48 + hi } else { 55 + hi });
            out.push(if lo < 10 { 48 + lo } else { 55 + lo });
            proof {
                let prev = out@.subrange(0, out@.len() - 3);
                assert(out@ =~= prev + percent_encode_byte(s@[i as int]));
                assert((prev + percent_encode_byte(s@[i as int])) + percent_encoded(s@.skip(i + 1))
                    =~= prev + (percent_encode_byte(s@[i as int]) + percent_encoded(
                    s@.skip(i + 1),
                )));
            }
        }
        i = i + 1;
    }
}

/// Percent-decode a byte vector.
pub fn percent_decode_bytes(s: &Vec<u8>) -> (r: Vec<u8>)
    ensures
        r@ == percent_decoded(s@),
{
    let mut out: Vec<u8> = Vec::new();
    let mut i: usize = 0;
    proof {
        assert(s@.skip(0) =~= s@);
        assert(out@ + percent_decoded(s@) =~= percent_decoded(s@));
    }
    loop
        invariant
            i <= s@.len(),
            out@ + percent_decoded(s@.skip(i as int)) == percent_decoded(s@),
        decreases s@.len() - i,
    {
        if i == s.len() {
            proof {
                assert(s@.skip(i as int).len() == 0);
                assert(out@ + percent_decoded(s@.skip(i as int)) =~= out@);
            }
            return out;
        }
        let b = s[i];
        proof {
            assert(s@.skip(i as int)[0] == s@[i as int]);
            assert(s@.skip(i as int).skip(1) =~= s@.skip(i + 1));
        }
        if b == 37 && s.len() - i > 2 {
            let h1 = hex_digit_value(s[i + 1]);
            let h2 = hex_digit_value(s[i + 2]);
            match (h1, h2) {
                (Some(v1), Some(v2)) => {
                    proof {
                        assert(s@.skip(i as int).skip(3) =~= s@.skip(i + 3));
                        assert(s@.skip(i as int)[1] == s@[i + 1]);
                        assert(s@.skip(i as int)[2] == s@[i + 2]);
                    }
                    out.push(v1 * 16 + v2);
                    proof {
                        assert(out@ + percent_decoded(s@.skip(i + 3)) =~= out@.drop_last() + (seq![
                            (hex_val(s@[i + 1]).unwrap() * 16 + hex_val(s@[i + 2]).unwrap()) as u8,
                        ] + percent_decoded(s@.skip(i + 3))));
                    }
                    i = i + 3;
                },
                _ => {
                    out.push(b);
                    proof {
                        assert(out@ + percent_decoded(s@.skip(i + 1)) =~= out@.drop_last() + (seq![
                            s@[i as int],
                        ] + percent_decoded(s@.skip(i + 1))));
                    }
                    i = i + 1;
                },
            }
        } else {
            proof {
                if b == 37 && s@.skip(i as int).len() >= 3 {
                    assert(s@.skip(i as int)[1] == s@[i + 1]);
                    assert(s@.skip(i as int)[2] == s@[i + 2]);
                }
            }
            out.push(b);
            proof {
                assert(out@ + percent_decoded(s@.skip(i + 1)) =~= out@.drop_last() + (seq![
                    s@[i as int],
                ] + percent_decoded(s@.skip(i + 1))));
            }
            i = i + 1;
        }
    }
}

fn hex_digit_value(b: u8) -> (r: Option<u8>)
    ensures
        match r {
            Some(v) => hex_val(b) == Some(v as nat) && v < 16,
            None => hex_val(b) is None,
        },
{
    if 48 <= b && b <= 57 {
        Some(b - 48)
    } else if 65 <= b && b <= 70 {
        Some(b - 55)
    } else if 97 <= b && b <= 102 {
        Some(b - 87)
    } else {
        None
    }
}

/// Percent-encode a string (used for passwords placed in URL authorities).
pub fn percent_encode_str(s: &str) -> (r: String)
    ensures
        r@ == chars_of_bytes(percent_encoded(s.spec_bytes())),
{
    let bytes = s.as_bytes_vec();
    let encoded = percent_encode_bytes(&bytes);
    proof {
        lemma_percent_encoded_ascii(s.spec_bytes());
    }
    string_from_ascii(&encoded)
}

} // verus!
