use vstd::prelude::*;
use crate::errors::WalletError;

verus! {

/// The lowercase hexadecimal digit of a value below sixteen.
pub open spec fn spec_hex_digit(n: u8) -> char
    recommends
        n < 16,
{
    if n < 10 {
        ((48 + n) as u8) as char
    } else {
        ((87 + n) as u8) as char
    }
}

/// The two lowercase hexadecimal digits of one byte.
pub open spec fn spec_hex_of_byte(b: u8) -> Seq<char> {
    seq![spec_hex_digit(b / 16), spec_hex_digit(b % 16)]
}

/// The lowercase hexadecimal encoding of a byte sequence.
pub open spec fn spec_hex_of(bytes: Seq<u8>) -> Seq<char>
    decreases bytes.len(),
{
    if bytes.len() == 0 {
        Seq::empty()
    } else {
        spec_hex_of_byte(bytes[0]) + spec_hex_of(bytes.drop_first())
    }
}

/// The value of one hexadecimal digit, upper or lower case.
pub open spec fn spec_hex_val(c: char) -> Option<u8> {
    let n = c as u32;
    if 48 <= n <= 57 {
        Some((n - 48) as u8)
    } else if 97 <= n <= 102 {
        Some((n - 87) as u8)
    } else if 65 <= n <= 70 {
        Some((n - 55) as u8)
    } else {
        None
    }
}

/// A character that is a hexadecimal digit.
pub open spec fn spec_is_hex_char(c: char) -> bool {
    spec_hex_val(c) is Some
}

/// A string that `from_hex` accepts: even length, hexadecimal digits only.
pub open spec fn spec_valid_hex(s: Seq<char>) -> bool {
    s.len() % 2 == 0 && forall|i: int| 0 <= i < s.len() ==> spec_is_hex_char(#[trigger] s[i])
}

/// The bytes encoded by a valid hexadecimal string.
pub open spec fn spec_hex_decode(s: Seq<char>) -> Seq<u8>
    recommends
        spec_valid_hex(s),
    decreases s.len(),
{
    if s.len() < 2 {
        Seq::empty()
    } else {
        seq![
            ((spec_hex_val(s[0]).unwrap_or(0) * 16 + spec_hex_val(s[1]).unwrap_or(0)) as u8),
        ] + spec_hex_decode(s.skip(2))
    }
}

/// Relies on hex::encode: two lowercase digits per byte, in order.
#[verifier::external_body]
pub fn to_hex(data: &[u8]) -> (r: String)
    ensures
        r@ == spec_hex_of(data@),
{
    hex::encode(data)
}

/// Relies on hex::decode: succeeds exactly on even-length strings of
/// hexadecimal digits of either case, and returns the bytes they encode.
#[verifier::external_body]
pub fn from_hex(s: &str) -> (r: Result<Vec<u8>, WalletError>)
    ensures
        r is Ok <==> spec_valid_hex(s@),
        r is Ok ==> r->Ok_0@ == spec_hex_decode(s@),
        r is Err ==> r->Err_0 == WalletError::InvalidInput,
{
    hex::decode(s).map_err(|_| WalletError::InvalidInput)
}

/// A hexadecimal encoding is twice as long as the bytes it encodes.
pub proof fn lemma_hex_of_len(bytes: Seq<u8>)
    ensures
        spec_hex_of(bytes).len() == 2 * bytes.len(),
    decreases bytes.len(),
{
    if bytes.len() > 0 {
        lemma_hex_of_len(bytes.drop_first());
    }
}


/// Every character an encoding produces is a hexadecimal digit, and decoding
/// an encoding gives the original bytes back.
pub proof fn lemma_hex_round_trip(bytes: Seq<u8>)
    ensures
        spec_valid_hex(spec_hex_of(bytes)),
        spec_hex_decode(spec_hex_of(bytes)) == bytes,
    decreases bytes.len(),
{
    lemma_hex_of_len(bytes);
    if bytes.len() == 0 {
        assert(spec_hex_decode(spec_hex_of(bytes)) =~= bytes);
    } else {
        let rest = bytes.drop_first();
        lemma_hex_round_trip(rest);
        lemma_hex_of_len(rest);
        let s = spec_hex_of(bytes);
        let b0 = bytes[0];
        assert(s[0] == spec_hex_digit(b0 / 16));
        assert(s[1] == spec_hex_digit(b0 % 16));
        lemma_hex_digit_val(b0 / 16);
        lemma_hex_digit_val(b0 % 16);
        assert(s.skip(2) =~= spec_hex_of(rest));
        assert forall|i: int| 0 <= i < s.len() implies spec_is_hex_char(#[trigger] s[i]) by {
            if i >= 2 {
                assert(s[i] == spec_hex_of(rest)[i - 2]);
            }
        }
        assert(spec_hex_val(s[0]).unwrap_or(0) == b0 / 16);
        assert(spec_hex_val(s[1]).unwrap_or(0) == b0 % 16);
        assert(spec_hex_decode(s) =~= bytes);
    }
}

/// The digit of a value below sixteen is a hexadecimal digit, and reads back
/// as that value.
proof fn lemma_hex_digit_val(n: u8)
    requires
        n < 16,
    ensures
        spec_hex_val(spec_hex_digit(n)) == Some(n),
{
    if n < 10 {
        assert(spec_hex_digit(n) as u32 == 48 + n);
    } else {
        assert(spec_hex_digit(n) as u32 == 87 + n);
    }
}

} // verus!
