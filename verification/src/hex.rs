//! Base-16 text: parsing the `@<hex>` suffix of firmware path strings, and
//! formatting the unit addresses of synthesized device-tree node names.

use vstd::prelude::*;

verus! {

/// ASCII code of a base-16 digit, upper or lower case.
pub open spec fn is_hex_digit(b: u8) -> bool {
    (48 <= b && b <= 57) || (97 <= b && b <= 102) || (65 <= b && b <= 70)
}

/// Numeric value of a base-16 digit byte; zero on other bytes.
pub open spec fn hex_digit_val(b: u8) -> int {
    if 48 <= b && b <= 57 {
        b - 48
    } else if 97 <= b && b <= 102 {
        b - 87
    } else if 65 <= b && b <= 70 {
        b - 55
    } else {
        0
    }
}

pub open spec fn all_hex_digits(s: Seq<u8>) -> bool {
    forall|i: int| 0 <= i < s.len() ==> is_hex_digit(s[i])
}

/// Value of a digit string read most-significant first.
pub open spec fn hex_value(s: Seq<u8>) -> int
    decreases s.len(),
{
    if s.len() == 0 {
        0
    } else {
        16 * hex_value(s.drop_last()) + hex_digit_val(s.last())
    }
}

/// What parsing a byte string as a base-16 unsigned 32-bit integer yields:
/// the digits' value when the string is non-empty, all digits, and the value
/// fits; nothing otherwise.
pub open spec fn parse_hex_u32(s: Seq<u8>) -> Option<u32> {
    if s.len() > 0 && all_hex_digits(s) && hex_value(s) <= u32::MAX {
        Some(hex_value(s) as u32)
    } else {
        None
    }
}

pub proof fn lemma_hex_value_nonneg(s: Seq<u8>)
    ensures
        hex_value(s) >= 0,
    decreases s.len(),
{
    if s.len() > 0 {
        lemma_hex_value_nonneg(s.drop_last());
    }
}

/// A prefix of a digit string never has a larger value than the whole.
pub proof fn lemma_hex_value_take_le(s: Seq<u8>, i: int)
    requires
        0 <= i <= s.len(),
    ensures
        hex_value(s.take(i)) <= hex_value(s),
    decreases s.len(),
{
    if i == s.len() {
        assert(s.take(i) =~= s);
    } else {
        assert(s.drop_last().take(i) =~= s.take(i));
        lemma_hex_value_take_le(s.drop_last(), i);
        lemma_hex_value_nonneg(s.drop_last());
    }
}

/// Parse a byte string as a base-16 unsigned 32-bit integer: digits only,
/// non-empty, value within range; anything else yields nothing.
pub fn parse_hex32(s: &[u8]) -> (r: Option<u32>)
    ensures
        r == parse_hex_u32(s@),
{
    if s.len() == 0 {
        return None;
    }
    let mut acc: u64 = 0;
    let mut i: usize = 0;
    while i < s.len()
        invariant
            0 < s@.len(),
            i <= s@.len(),
            all_hex_digits(s@.take(i as int)),
            acc == hex_value(s@.take(i as int)),
            acc <= 0xFFFF_FFFFu64,
        decreases s@.len() - i,
    {
        let b = s[i];
        let d: u64;
        if 48 <= b && b <= 57 {
            d = (b - 48) as u64;
        } else if 97 <= b && b <= 102 {
            d = (b - 87) as u64;
        } else if 65 <= b && b <= 70 {
            d = (b - 55) as u64;
        } else {
            proof {
                assert(!is_hex_digit(s@[i as int]));
            }
            return None;
        }
        proof {
            assert(s@.take(i as int + 1).drop_last() =~= s@.take(i as int));
            assert(s@.take(i as int + 1).last() == s@[i as int]);
        }
        let next: u64 = acc * 16 + d;
        if next > 0xFFFF_FFFF {
            proof {
                lemma_hex_value_take_le(s@, i as int + 1);
            }
            return None;
        }
        acc = next;
        i = i + 1;
        proof {
            assert forall|j: int| 0 <= j < i as int implies is_hex_digit(s@.take(i as int)[j]) by {
                if j < i as int - 1 {
                    assert(is_hex_digit(s@.take(i as int - 1)[j]));
                }
            }
        }
    }
    proof {
        assert(s@.take(s@.len() as int) =~= s@);
    }
    Some(acc as u32)
}

/// Base-16 digits of `v`, most significant first, no leading zeros; empty
/// for zero.
pub open spec fn spec_hex_digits(v: int) -> Seq<u8>
    decreases v,
{
    if v <= 0 {
        Seq::empty()
    } else {
        spec_hex_digits(v / 16).push((if v % 16 < 10 {
            48 + v % 16
        } else {
            87 + v % 16
        }) as u8)
    }
}

/// The unit-address text used in node names: lower-case base-16 digits of
/// `v` without leading zeros, and a single `0` for zero.
pub open spec fn spec_hex_name(v: int) -> Seq<u8> {
    if v == 0 {
        seq![48u8]
    } else {
        spec_hex_digits(v)
    }
}

fn hex_digits_rec(v: u64, out: &mut Vec<u8>)
    ensures
        final(out)@ == old(out)@ + spec_hex_digits(v as int),
    decreases v,
{
    if v > 0 {
        hex_digits_rec(v / 16, out);
        let d = v % 16;
        let b: u8 = if d < 10 {
            (48 + d) as u8
        } else {
            (87 + d) as u8
        };
        out.push(b);
        proof {
            assert(out@ =~= old(out)@ + spec_hex_digits(v as int));
        }
    } else {
        proof {
            assert(out@ =~= old(out)@ + spec_hex_digits(v as int));
        }
    }
}

/// Format `v` as the lower-case base-16 text of a node name's unit address.
pub fn hex_name_u64(v: u64) -> (r: Vec<u8>)
    ensures
        r@ == spec_hex_name(v as int),
{
    let mut out: Vec<u8> = Vec::new();
    if v == 0 {
        out.push(48);
        proof {
            assert(out@ =~= seq![48u8]);
        }
    } else {
        hex_digits_rec(v, &mut out);
        proof {
            assert(out@ =~= spec_hex_digits(v as int));
        }
    }
    out
}

} // verus!
