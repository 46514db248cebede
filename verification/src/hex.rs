//! Parsing the hexadecimal block number reported by the node.
//!
//! The node reports its block height as a string such as `"0x2a"`: an
//! optional `0x` prefix followed by base-16 digits. The parse strips one such
//! prefix and reads the rest as an unsigned 64-bit number; it yields nothing
//! when no digit is left after the prefix, when any character is not a hex
//! digit, or when the value does not fit in 64 bits. The specification is
//! written over the UTF-8 bytes of the input; a character outside ASCII never
//! encodes to a digit byte, so this agrees with reading the characters.

use vstd::prelude::*;
use vstd::slice::slice_index_get;
use vstd::string::StringSliceAdditionalSpecFns;
use vstd::utf8::encode_utf8;

verus! {

/// Is `b` the ASCII code of a base-16 digit?
pub open spec fn is_hex_digit(b: u8) -> bool {
    (0x30 <= b && b <= 0x39)  // '0' ..= '9'
    || (0x61 <= b && b <= 0x66)  // 'a' ..= 'f'
    || (0x41 <= b && b <= 0x46)  // 'A' ..= 'F'
}

/// Numeric value of a base-16 digit byte (0 for anything else).
pub open spec fn hex_digit_value(b: u8) -> int {
    if 0x30 <= b && b <= 0x39 {
        b - 0x30
    } else if 0x61 <= b && b <= 0x66 {
        b - 0x61 + 10
    } else if 0x41 <= b && b <= 0x46 {
        b - 0x41 + 10
    } else {
        0
    }
}

pub open spec fn all_hex_digits(s: Seq<u8>) -> bool {
    forall|i: int| 0 <= i < s.len() ==> is_hex_digit(#[trigger] s[i])
}

/// Base-16 value of a digit sequence, most significant digit first.
pub open spec fn hex_value(s: Seq<u8>) -> int
    decreases s.len(),
{
    if s.len() == 0 {
        0
    } else {
        hex_value(s.drop_last()) * 16 + hex_digit_value(s.last())
    }
}

/// The byte sequence with one optional leading `"0x"` removed.
pub open spec fn strip_hex_prefix(s: Seq<u8>) -> Seq<u8> {
    if s.len() >= 2 && s[0] == 0x30 && s[1] == 0x78 {
        s.subrange(2, s.len() as int)
    } else {
        s
    }
}

/// The parse, over UTF-8 bytes: strip one optional `0x`, then read the rest
/// as base-16 digits; defined only when at least one digit is present, all
/// bytes are digits, and the value fits in 64 bits.
pub open spec fn hex_to_u64_spec(s: Seq<u8>) -> Option<u64> {
    let digits = strip_hex_prefix(s);
    if digits.len() > 0 && all_hex_digits(digits) && hex_value(digits) <= u64::MAX {
        Some(hex_value(digits) as u64)
    } else {
        None
    }
}

/// The parse, over the characters of the input string.
pub open spec fn hex_to_u64_chars(s: Seq<char>) -> Option<u64> {
    hex_to_u64_spec(encode_utf8(s))
}

proof fn lemma_hex_value_nonneg(s: Seq<u8>)
    ensures
        hex_value(s) >= 0,
    decreases s.len(),
{
    if s.len() > 0 {
        lemma_hex_value_nonneg(s.drop_last());
        assert(hex_value(s.drop_last()) * 16 >= 0) by (nonlinear_arith)
            requires
                hex_value(s.drop_last()) >= 0,
        ;
    }
}

/// The value of a digit sequence is at least the value of any of its
/// prefixes: appending digits can only grow it.
proof fn lemma_hex_value_prefix_le(s: Seq<u8>, i: int)
    requires
        0 <= i <= s.len(),
    ensures
        hex_value(s.subrange(0, i)) <= hex_value(s),
    decreases s.len() - i,
{
    if i == s.len() {
        assert(s.subrange(0, i) =~= s);
    } else {
        let a = s.subrange(0, i);
        let b = s.subrange(0, i + 1);
        assert(b.drop_last() =~= a);
        lemma_hex_value_nonneg(a);
        assert(hex_value(a) * 16 >= hex_value(a)) by (nonlinear_arith)
            requires
                hex_value(a) >= 0,
        ;
        assert(hex_value(b) == hex_value(a) * 16 + hex_digit_value(b.last()));
        lemma_hex_value_prefix_le(s, i + 1);
    }
}

/// Reads a block-number string as an unsigned 64-bit integer: one optional
/// `0x` prefix, then base-16 digits (either case). `None` exactly when no
/// digit follows the prefix, some character is not a base-16 digit, or the
/// value overflows 64 bits.
pub fn hex_to_u64(hex: &str) -> (r: Option<u64>)
    ensures
        r == hex_to_u64_chars(hex@),
{
    let bytes: &[u8] = hex.as_bytes();
    let ghost all: Seq<u8> = hex.spec_bytes();
    let len: usize = bytes.len();
    let start: usize = if len >= 2 && *slice_index_get(bytes, 0) == 0x30 && *slice_index_get(
        bytes,
        1,
    ) == 0x78 {
        2
    } else {
        0
    };
    let ghost digits = strip_hex_prefix(all);
    proof {
        assert(digits =~= all.subrange(start as int, all.len() as int));
    }
    if start >= len {
        return None;
    }
    let mut acc: u64 = 0;
    let mut i: usize = start;
    while i < len
        invariant
            start <= i <= len,
            len == all.len(),
            bytes@ == all,
            all == hex.spec_bytes(),
            digits == strip_hex_prefix(all),
            digits == all.subrange(start as int, all.len() as int),
            all_hex_digits(all.subrange(start as int, i as int)),
            acc == hex_value(all.subrange(start as int, i as int)),
        decreases len - i,
    {
        let b = *slice_index_get(bytes, i);
        let d: u64;
        if b >= 0x30 && b <= 0x39 {
            d = (b - 0x30) as u64;
        } else if b >= 0x61 && b <= 0x66 {
            d = (b - 0x61) as u64 + 10;
        } else if b >= 0x41 && b <= 0x46 {
            d = (b - 0x41) as u64 + 10;
        } else {
            proof {
                assert(digits[i - start] == all[i as int]);
                assert(!is_hex_digit(digits[i - start]));
            }
            return None;
        }
        proof {
            assert(d == hex_digit_value(all[i as int]));
        }
        if acc > (u64::MAX - d) / 16 {
            proof {
                let processed = all.subrange(start as int, i as int);
                let extended = all.subrange(start as int, i + 1);
                assert(extended.drop_last() =~= processed);
                assert(hex_value(extended) == acc * 16 + d);
                assert(acc * 16 + d > u64::MAX);
                assert(extended =~= digits.subrange(0, i + 1 - start));
                lemma_hex_value_prefix_le(digits, i + 1 - start);
            }
            return None;
        }
        proof {
            assert(acc * 16 + d <= u64::MAX);
            let processed = all.subrange(start as int, i as int);
            let extended = all.subrange(start as int, i + 1);
            assert(extended.drop_last() =~= processed);
            assert(extended.last() == all[i as int]);
        }
        acc = acc * 16 + d;
        i += 1;
    }
    proof {
        assert(all.subrange(start as int, i as int) =~= digits);
    }
    Some(acc)
}

} // verus!
