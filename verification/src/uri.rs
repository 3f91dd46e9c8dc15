use vstd::prelude::*;
use vstd::string::StringSliceAdditionalSpecFns;
use vstd::string::StrSliceExecFns;
use vstd::string::StringExecFns;
use vstd::utf8::is_ascii_chars;
use crate::errors::WalletError;
use crate::strutil::{starts_with, str_eq, str_starts_with};

verus! {

broadcast use vstd::string::group_string_axioms;

/// Whether the text is a payment URI this wallet reads: the Bitcoin scheme
/// or the Ark scheme.
pub open spec fn spec_is_bip21(s: &str) -> bool {
    str_starts_with(s, "bitcoin:") || str_starts_with(s, "ark:")
}

/// A payment URI of the Bitcoin or Ark scheme.
pub fn is_bip21(data: &str) -> (r: bool)
    ensures
        r == spec_is_bip21(data),
{
    starts_with(data, "bitcoin:") || starts_with(data, "ark:")
}

/// A bare off-chain address: the Ark bech32 prefix, main or test network.
pub fn is_ark_address(data: &str) -> (r: bool)
    ensures
        r == (str_starts_with(data, "ark1") || str_starts_with(data, "tark1")),
{
    starts_with(data, "ark1") || starts_with(data, "tark1")
}

/// A bare on-chain address: the bech32 prefix of the main, test or
/// regression network.
pub fn is_btc_address(data: &str) -> (r: bool)
    ensures
        r == (str_starts_with(data, "bc1") || str_starts_with(data, "tb1") || str_starts_with(
            data,
            "bcrt1",
        )),
{
    starts_with(data, "bc1") || starts_with(data, "tb1") || starts_with(data, "bcrt1")
}

/// A decimal digit character.
pub open spec fn spec_is_digit(c: char) -> bool {
    48 <= c as u32 <= 57
}

/// The maximal prefix of `s` that is decimal digits.
pub open spec fn spec_cdigits_len(s: Seq<char>) -> int
    decreases s.len(),
{
    if s.len() == 0 || !spec_is_digit(s[0]) {
        0
    } else {
        1 + spec_cdigits_len(s.drop_first())
    }
}

/// The value of the first `n` digits of `s`.
pub open spec fn spec_cdigits_val(s: Seq<char>, n: int) -> int
    decreases n,
{
    if n <= 0 {
        0
    } else {
        spec_cdigits_val(s, n - 1) * 10 + (s[n - 1] as u32 - 48)
    }
}

/// Ten to the `k`.
pub open spec fn spec_pow10(k: int) -> int
    decreases k,
{
    if k <= 0 {
        1
    } else {
        10 * spec_pow10(k - 1)
    }
}

/// The satoshi value of a decimal bitcoin amount: an integer part, and at
/// most eight fractional digits after one point. `None` where the text is
/// not such a number.
pub open spec fn spec_btc_amount_sats(s: Seq<char>) -> Option<int> {
    let n = spec_cdigits_len(s);
    if n == 0 {
        None
    } else if n == s.len() {
        Some(spec_cdigits_val(s, n) * 100_000_000)
    } else if s[n] == '.' {
        let frac = s.skip(n + 1);
        let m = spec_cdigits_len(frac);
        if m == 0 || m > 8 || m != frac.len() {
            None
        } else {
            Some(
                spec_cdigits_val(s, n) * 100_000_000 + spec_cdigits_val(frac, m) * spec_pow10(
                    8 - m,
                ),
            )
        }
    } else {
        None
    }
}

/// A digit-run value is never negative.
proof fn lemma_cdigits_val_nonneg(s: Seq<char>, n: int)
    requires
        0 <= n,
        forall|j: int| 0 <= j < n ==> spec_is_digit(#[trigger] s[j]),
    ensures
        spec_cdigits_val(s, n) >= 0,
    decreases n,
{
    if n > 0 {
        lemma_cdigits_val_nonneg(s, n - 1);
        assert(spec_cdigits_val(s, n - 1) * 10 >= 0) by (nonlinear_arith)
            requires
                spec_cdigits_val(s, n - 1) >= 0,
        ;
    }
}



/// The digit-run length never exceeds the sequence length.
proof fn lemma_cdigits_len_bound(s: Seq<char>)
    ensures
        0 <= spec_cdigits_len(s) <= s.len(),
    decreases s.len(),
{
    if s.len() > 0 && spec_is_digit(s[0]) {
        lemma_cdigits_len_bound(s.drop_first());
    }
}

/// Every character inside the digit run is a digit.
proof fn lemma_cdigits_len_index(s: Seq<char>)
    ensures
        forall|j: int| 0 <= j < spec_cdigits_len(s) ==> spec_is_digit(#[trigger] s[j]),
    decreases s.len(),
{
    lemma_cdigits_len_bound(s);
    if s.len() > 0 && spec_is_digit(s[0]) {
        lemma_cdigits_len_index(s.drop_first());
        assert forall|j: int| 0 <= j < spec_cdigits_len(s) implies spec_is_digit(
            #[trigger] s[j],
        ) by {
            if j > 0 {
                assert(s.drop_first()[j - 1] == s[j]);
            }
        }
    }
}

/// A digit run longer than `i` has a digit at `i`.
proof fn lemma_cdigits_run(s: Seq<char>, i: int)
    requires
        0 <= i < s.len(),
        forall|j: int| 0 <= j < i ==> spec_is_digit(#[trigger] s[j]),
        spec_is_digit(s[i]),
    ensures
        spec_cdigits_len(s) > i,
    decreases i,
{
    lemma_cdigits_len_bound(s.drop_first());
    if i == 0 {
        assert(spec_cdigits_len(s) == 1 + spec_cdigits_len(s.drop_first()));
    } else {
        assert(s.drop_first()[i - 1] == s[i]);
        assert forall|j: int| 0 <= j < i - 1 implies spec_is_digit(
            #[trigger] s.drop_first()[j],
        ) by {
            assert(s.drop_first()[j] == s[j + 1]);
        }
        lemma_cdigits_run(s.drop_first(), i - 1);
    }
}

/// Parse a decimal bitcoin amount into satoshis: an integer part and at most
/// eight fractional digits, exactly; no rounding ever happens. `None` where
/// the text is not such a number or the value does not fit.
pub fn parse_btc_amount(s: &str) -> (r: Option<u64>)
    ensures
        r is Some <==> (spec_btc_amount_sats(s@) matches Some(v) && v <= u64::MAX as int),
        r matches Some(v) ==> spec_btc_amount_sats(s@) == Some(v as int),
{
    let b = s.as_bytes();
    let n = b.len();
    if !s.is_ascii() {
        proof {
            lemma_amount_ascii(s@);
        }
        return None;
    }
    proof {
        vstd::string::is_ascii_spec_bytes(s);
        lemma_cdigits_len_bound(s@);
    }
    let mut i: usize = 0;
    let mut val: u128 = 0;
    let mut too_big = false;
    while i < n && b[i] >= 48 && b[i] <= 57
        invariant
            i <= n,
            n == b@.len() == s@.len(),
            is_ascii_chars(s@),
            forall|j: int| 0 <= j < s@.len() ==> b@[j] == ((#[trigger] s@[j]) as u8),
            forall|j: int| 0 <= j < i ==> spec_is_digit(#[trigger] s@[j]),
            i <= spec_cdigits_len(s@),
            spec_cdigits_len(s@) <= s@.len(),
            !too_big ==> val == spec_cdigits_val(s@, i as int) && val <= u64::MAX,
            too_big ==> spec_cdigits_val(s@, i as int) > u64::MAX,
        decreases n - i,
    {
        proof {
            lemma_ascii_digit(s@[i as int], b@[i as int]);
            lemma_cdigits_run(s@, i as int);
            assert(spec_cdigits_val(s@, i + 1) == spec_cdigits_val(s@, i as int) * 10 + ((s@[
                i as int] as u32) - 48));
            if too_big {
                lemma_cdigits_val_nonneg(s@, i as int);
                assert(spec_cdigits_val(s@, i as int) * 10 >= spec_cdigits_val(s@, i as int))
                    by (nonlinear_arith)
                    requires
                        spec_cdigits_val(s@, i as int) >= 0,
                ;
            }
        }
        if !too_big {
            val = val * 10 + ((b[i] - 48) as u128);
            if val > u64::MAX as u128 {
                too_big = true;
            }
        }
        i += 1;
    }
    proof {
        assert(i == spec_cdigits_len(s@)) by {
            if (i as int) < spec_cdigits_len(s@) {
                lemma_cdigits_len_index(s@);
                assert(spec_is_digit(s@[i as int]));
                lemma_ascii_digit(s@[i as int], b@[i as int]);
            }
        }
    }
    if i == 0 {
        return None;
    }
    let int_digits = i;
    if i == n {
        // No fractional part: scale the integer value to satoshis.
        if too_big {
            proof {
                lemma_amount_scale_big(spec_cdigits_val(s@, i as int));
            }
            return None;
        }
        let total: u128 = val * 100_000_000u128;
        if total > u64::MAX as u128 {
            return None;
        }
        return Some(total as u64);
    }
    if b[i] != 46 {
        proof {
            assert(s@[i as int] as u32 != 46);
            assert(s@[i as int] != '.');
        }
        return None;
    }
    proof {
        assert(s@[i as int] == '.');
    }
    let ghost frac_chars = s@.skip(i + 1);
    proof {
        lemma_cdigits_len_bound(frac_chars);
    }
    let mut j: usize = i + 1;
    let mut frac: u64 = 0;
    let mut frac_len: usize = 0;
    while j < n && b[j] >= 48 && b[j] <= 57 && frac_len < 9
        invariant
            int_digits + 1 <= j <= n,
            n == b@.len() == s@.len(),
            is_ascii_chars(s@),
            frac_chars == s@.skip(int_digits + 1),
            j == int_digits + 1 + frac_len,
            forall|k: int| 0 <= k < s@.len() ==> b@[k] == ((#[trigger] s@[k]) as u8),
            forall|k: int| 0 <= k < frac_len ==> spec_is_digit(#[trigger] frac_chars[k]),
            frac_len <= spec_cdigits_len(frac_chars),
            spec_cdigits_len(frac_chars) <= frac_chars.len(),
            frac_len <= 9,
            frac == spec_cdigits_val(frac_chars, frac_len as int),
            frac < spec_pow10(frac_len as int),
        decreases n - j,
    {
        proof {
            assert(frac_chars[frac_len as int] == s@[j as int]);
            lemma_ascii_digit(s@[j as int], b@[j as int]);
            lemma_cdigits_run(frac_chars, frac_len as int);
            assert(spec_cdigits_val(frac_chars, frac_len + 1) == spec_cdigits_val(
                frac_chars,
                frac_len as int,
            ) * 10 + ((frac_chars[frac_len as int] as u32) - 48));
            assert(spec_pow10(frac_len + 1) == 10 * spec_pow10(frac_len as int));
            assert(frac * 10 + 9 < spec_pow10(frac_len as int) * 10) by (nonlinear_arith)
                requires
                    (frac as int) < spec_pow10(frac_len as int),
                    frac >= 0,
            ;
            lemma_pow10_values();
        }
        frac = frac * 10 + ((b[j] - 48) as u64);
        frac_len += 1;
        j += 1;
    }
    proof {
        lemma_pow10_values();
        if frac_len < 9 {
            assert(frac_len == spec_cdigits_len(frac_chars)) by {
                if (frac_len as int) < spec_cdigits_len(frac_chars) {
                    lemma_cdigits_len_index(frac_chars);
                    assert(spec_is_digit(frac_chars[frac_len as int]));
                    assert(frac_chars[frac_len as int] == s@[j as int]);
                    lemma_ascii_digit(s@[j as int], b@[j as int]);
                }
            }
        }
    }
    if frac_len == 0 || frac_len > 8 || j < n {
        // An empty or over-long fraction, a ninth digit, or a stray
        // character after the digits: not a valid amount.
        proof {
            if frac_len >= 9 {
                assert(spec_cdigits_len(frac_chars) >= 9);
            } else if j < n {
                assert(frac_chars.len() == n - int_digits - 1);
                assert(spec_cdigits_len(frac_chars) != frac_chars.len());
            }
        }
        return None;
    }
    if too_big {
        proof {
            lemma_amount_scale_big(spec_cdigits_val(s@, int_digits as int));
            lemma_cdigits_val_nonneg(frac_chars, frac_len as int);
            lemma_pow10_values();
            assert(spec_cdigits_val(frac_chars, frac_len as int) * spec_pow10(
                8 - frac_len as int,
            ) >= 0) by (nonlinear_arith)
                requires
                    spec_cdigits_val(frac_chars, frac_len as int) >= 0,
                    spec_pow10(8 - frac_len as int) >= 0,
            ;
        }
        return None;
    }
    proof {
        assert(frac_chars.len() == frac_len);
    }
    let mut scale: u64 = 1;
    let mut k: usize = 0;
    let pow: usize = 8 - frac_len;
    while k < pow
        invariant
            k <= pow,
            pow <= 8,
            scale == spec_pow10(k as int),
            scale <= 100_000_000,
        decreases pow - k,
    {
        proof {
            lemma_pow10_values();
        }
        scale = scale * 10;
        k += 1;
    }
    proof {
        lemma_pow10_values();
        lemma_pow10_mono(frac_len as int, 8);
        assert((frac as int) * (scale as int) <= 100_000_000 * 100_000_000)
            by (nonlinear_arith)
            requires
                0 <= frac <= 100_000_000,
                0 <= scale <= 100_000_000,
        ;
    }
    let total: u128 = (val as u128) * 100_000_000u128 + (frac as u128) * (scale as u128);
    if total > u64::MAX as u128 {
        return None;
    }
    Some(total as u64)
}

/// Powers of ten grow with the exponent and stay positive.
proof fn lemma_pow10_mono(a: int, b: int)
    requires
        0 <= a <= b,
    ensures
        spec_pow10(a) <= spec_pow10(b),
        spec_pow10(a) >= 1,
    decreases b - a,
{
    if a < b {
        lemma_pow10_mono(a, b - 1);
    } else {
        lemma_pow10_pos(a);
    }
}

/// Ten to any non-negative power is at least one.
proof fn lemma_pow10_pos(k: int)
    ensures
        spec_pow10(k) >= 1,
    decreases k,
{
    if k > 0 {
        lemma_pow10_pos(k - 1);
    }
}

/// A character whose code point is below 128 sits in the ASCII range.
proof fn lemma_char_ascii_bound(c: char)
    requires
        (c as u32) < 128,
    ensures
        '\0' <= c <= '\u{7f}',
{
    vstd::utf8::char_is_scalar(c);
}

/// Conversion between a character's digit test and its byte.
proof fn lemma_ascii_digit(c: char, b: u8)
    requires
        b == c as u8,
        c <= '\u{7f}',
    ensures
        spec_is_digit(c) <==> 48 <= b <= 57,
{
}

/// The first nine powers of ten.
proof fn lemma_pow10_values()
    ensures
        spec_pow10(0) == 1,
        spec_pow10(1) == 10,
        spec_pow10(2) == 100,
        spec_pow10(3) == 1000,
        spec_pow10(4) == 10000,
        spec_pow10(5) == 100000,
        spec_pow10(6) == 1000000,
        spec_pow10(7) == 10000000,
        spec_pow10(8) == 100000000,
        spec_pow10(9) == 1000000000,
{
    assert(spec_pow10(0) == 1);
    assert(spec_pow10(1) == 10);
    assert(spec_pow10(2) == 100);
    assert(spec_pow10(3) == 1000);
    assert(spec_pow10(4) == 10000);
    assert(spec_pow10(5) == 100000);
    assert(spec_pow10(6) == 1000000);
    assert(spec_pow10(7) == 10000000);
    assert(spec_pow10(8) == 100000000);
    assert(spec_pow10(9) == 1000000000);
}

/// An integer part too large for sixty-four bits scales past it too.
proof fn lemma_amount_scale_big(v: int)
    requires
        v > u64::MAX,
    ensures
        v * 100_000_000 > u64::MAX,
{
    assert(v * 100_000_000 >= v) by (nonlinear_arith)
        requires
            v > 0,
    ;
}

/// A text with a character that is neither digit nor point is no amount.
proof fn lemma_amount_ascii(s: Seq<char>)
    requires
        !is_ascii_chars(s),
    ensures
        spec_btc_amount_sats(s) is None,
{
    if spec_btc_amount_sats(s) is Some {
        let n = spec_cdigits_len(s);
        lemma_cdigits_len_bound(s);
        lemma_cdigits_len_index(s);
        let frac = s.skip(n + 1);
        if n < s.len() {
            lemma_cdigits_len_index(frac);
            lemma_cdigits_len_bound(frac);
        }
        assert forall|j: int| 0 <= j < s.len() implies '\0' <= #[trigger] s[j] <= '\u{7f}' by {
            if n == s.len() {
                assert(spec_is_digit(s[j]));
                lemma_char_ascii_bound(s[j]);
            } else {
                assert(s[n] == '.');
                assert(spec_cdigits_len(frac) == frac.len());
                if j < n {
                    assert(spec_is_digit(s[j]));
                    lemma_char_ascii_bound(s[j]);
                } else if j == n {
                    assert(s[j] == '.');
                    lemma_char_ascii_bound(s[j]);
                } else {
                    assert(frac[j - n - 1] == s[j]);
                    assert(spec_is_digit(frac[j - n - 1]));
                    lemma_char_ascii_bound(s[j]);
                }
            }
        }
        assert(is_ascii_chars(s));
    }
}


/// Whether `s` begins with `p`, character for character.
pub open spec fn chars_start_with(s: Seq<char>, p: Seq<char>) -> bool {
    p.len() <= s.len() && s.subrange(0, p.len() as int) == p
}

/// Prefix test at the character level, for an ASCII prefix.
fn chars_prefix(a: &str, p: &str) -> (r: bool)
    requires
        is_ascii_chars(p@),
    ensures
        r == chars_start_with(a@, p@),
{
    let alen = a.unicode_len();
    let plen = p.unicode_len();
    if plen > alen {
        return false;
    }
    let mut i: usize = 0;
    while i < plen
        invariant
            i <= plen,
            plen == p@.len(),
            plen <= a@.len(),
            forall|j: int| 0 <= j < i ==> a@[j] == p@[j],
        decreases plen - i,
    {
        let ca = a.get_char(i);
        let cp = p.get_char(i);
        if ca != cp {
            proof {
                assert(a@.subrange(0, plen as int)[i as int] == a@[i as int]);
            }
            return false;
        }
        i += 1;
    }
    proof {
        assert(a@.subrange(0, plen as int) =~= p@);
    }
    true
}

/// The position of the first occurrence of `c` in `s`, or the length.
pub open spec fn spec_char_index_of(s: Seq<char>, c: char) -> int
    decreases s.len(),
{
    if s.len() == 0 {
        0
    } else if s[0] == c {
        0
    } else {
        1 + spec_char_index_of(s.drop_first(), c)
    }
}

/// Where the first occurrence sits: at the first index carrying `c`.
proof fn lemma_char_index_of_witness(s: Seq<char>, c: char, i: int)
    requires
        0 <= i <= s.len(),
        forall|j: int| 0 <= j < i ==> s[j] != c,
        i < s.len() ==> s[i] == c,
    ensures
        spec_char_index_of(s, c) == i,
    decreases i,
{
    if s.len() == 0 {
    } else if i == 0 {
    } else {
        assert forall|j: int| 0 <= j < i - 1 implies s.drop_first()[j] != c by {
            assert(s.drop_first()[j] == s[j + 1]);
        }
        if i < s.len() {
            assert(s.drop_first()[i - 1] == s[i]);
        }
        lemma_char_index_of_witness(s.drop_first(), c, i - 1);
    }
}

/// Find the first occurrence of the character `c`, or the length.
fn char_index_of(s: &str, c: char) -> (r: usize)
    ensures
        r == spec_char_index_of(s@, c),
        r <= s@.len(),
        r < s@.len() ==> s@[r as int] == c,
        forall|j: int| 0 <= j < r ==> s@[j] != c,
{
    let n = s.unicode_len();
    let mut i: usize = 0;
    while i < n
        invariant
            i <= n,
            n == s@.len(),
            forall|j: int| 0 <= j < i ==> s@[j] != c,
        decreases n - i,
    {
        if s.get_char(i) == c {
            proof {
                lemma_char_index_of_witness(s@, c, i as int);
            }
            return i;
        }
        i += 1;
    }
    proof {
        lemma_char_index_of_witness(s@, c, n as int);
    }
    n
}

/// The data characters of a bech32 string.
pub open spec fn spec_is_bech32_char(c: char) -> bool {
    "qpzry9x8gf2tvdw0s3jn54khce6mua7l"@.contains(c)
}

/// Whether `c` is a bech32 data character.
fn is_bech32_char(c: char) -> (r: bool)
    ensures
        r == spec_is_bech32_char(c),
{
    let charset = "qpzry9x8gf2tvdw0s3jn54khce6mua7l";
    proof {
        reveal_strlit("qpzry9x8gf2tvdw0s3jn54khce6mua7l");
    }
    let mut j: usize = 0;
    while j < 32
        invariant
            j <= 32,
            charset@ == "qpzry9x8gf2tvdw0s3jn54khce6mua7l"@,
            charset@.len() == 32,
            forall|k: int| 0 <= k < j ==> charset@[k] != c,
        decreases 32 - j,
    {
        if charset.get_char(j) == c {
            return true;
        }
        j += 1;
    }
    proof {
        if spec_is_bech32_char(c) {
            let k = choose|k: int| 0 <= k < charset@.len() && charset@[k] == c;
            assert(charset@[k] != c);
        }
    }
    false
}

/// A plausible off-chain address: the Ark prefix for the main or test
/// network, then bech32 data characters only, enough of them to carry at
/// least a checksum.
pub open spec fn spec_ark_address_ok(a: Seq<char>) -> bool {
    ||| (chars_start_with(a, "ark1"@) && a.len() >= 10 && (forall|i: int|
        4 <= i < a.len() ==> spec_is_bech32_char(#[trigger] a[i])))
    ||| (chars_start_with(a, "tark1"@) && a.len() >= 11 && (forall|i: int|
        5 <= i < a.len() ==> spec_is_bech32_char(#[trigger] a[i])))
}

/// Check an off-chain address: the Ark bech32 prefix, then data characters
/// only, and at least six of them.
fn check_ark_address(a: &str) -> (r: bool)
    ensures
        r == spec_ark_address_ok(a@),
{
    proof {
        reveal_strlit("ark1");
        reveal_strlit("tark1");
        vstd::string::is_ascii_spec_bytes("ark1");
        vstd::string::is_ascii_spec_bytes("tark1");
    }
    let from: usize = if chars_prefix(a, "ark1") {
        proof {
            assert(a@[0] == "ark1"@[0]) by {
                assert(a@.subrange(0, 4)[0] == "ark1"@[0]);
            }
            if chars_start_with(a@, "tark1"@) {
                assert(a@.subrange(0, 5)[0] == "tark1"@[0]);
            }
            assert(!chars_start_with(a@, "tark1"@));
        }
        4
    } else if chars_prefix(a, "tark1") {
        5
    } else {
        return false;
    };
    let n = a.unicode_len();
    if n < from + 6 {
        return false;
    }
    let mut i: usize = from;
    while i < n
        invariant
            from <= i <= n,
            n == a@.len(),
            n >= from + 6,
            from == 4 || from == 5,
            from == 4 ==> chars_start_with(a@, "ark1"@) && !chars_start_with(a@, "tark1"@),
            from == 5 ==> chars_start_with(a@, "tark1"@) && !chars_start_with(a@, "ark1"@),
            forall|j: int| from <= j < i ==> spec_is_bech32_char(#[trigger] a@[j]),
        decreases n - i,
    {
        if !is_bech32_char(a.get_char(i)) {
            return false;
        }
        i += 1;
    }
    true
}

/// What the query decoder of the url crate yields for a query string: key
/// and value pairs in order, percent-decoding and plus-for-space applied.
pub uninterp spec fn spec_query_pairs(q: Seq<char>) -> Seq<(Seq<char>, Seq<char>)>;

/// Relies on form_urlencoded::parse of the url crate: the decoded key and
/// value pairs of the query, in order of appearance.
#[verifier::external_body]
pub fn parse_query_pairs(query: &str) -> (r: Vec<(String, String)>)
    ensures
        r@.len() == spec_query_pairs(query@).len(),
        forall|k: int|
            0 <= k < r@.len() ==> (#[trigger] r@[k]).0@ == spec_query_pairs(query@)[k].0
                && r@[k].1@ == spec_query_pairs(query@)[k].1,
{
    url::form_urlencoded::parse(query.as_bytes()).into_owned().collect()
}

/// The value of the last pair carrying `key`: when a query repeats a
/// parameter, the later occurrence wins, as it would in a map built from the
/// pairs.
pub open spec fn spec_find_param(pairs: Seq<(Seq<char>, Seq<char>)>, key: Seq<char>) -> Option<
    Seq<char>,
>
    decreases pairs.len(),
{
    if pairs.len() == 0 {
        None
    } else if pairs.last().0 == key {
        Some(pairs.last().1)
    } else {
        spec_find_param(pairs.drop_last(), key)
    }
}

/// Look a query parameter up, the last duplicate winning.
pub fn find_param<'a>(pairs: &'a Vec<(String, String)>, key: &str) -> (r: Option<&'a String>)
    ensures
        match r {
            Some(v) => spec_find_param(spec_query_pairs_of(pairs@), key@) == Some(v@),
            None => spec_find_param(spec_query_pairs_of(pairs@), key@) is None,
        },
{
    let mut found: Option<&'a String> = None;
    let mut i: usize = 0;
    while i < pairs.len()
        invariant
            i <= pairs@.len(),
            match found {
                Some(v) => spec_find_param(
                    spec_query_pairs_of(pairs@).subrange(0, i as int),
                    key@,
                ) == Some(v@),
                None => spec_find_param(
                    spec_query_pairs_of(pairs@).subrange(0, i as int),
                    key@,
                ) is None,
            },
        decreases pairs@.len() - i,
    {
        let ghost view = spec_query_pairs_of(pairs@);
        proof {
            assert(view.subrange(0, i + 1).drop_last() =~= view.subrange(0, i as int));
            assert(view.subrange(0, i + 1).last() == view[i as int]);
        }
        if str_eq(pairs[i].0.as_str(), key) {
            found = Some(&pairs[i].1);
        }
        i += 1;
    }
    proof {
        assert(spec_query_pairs_of(pairs@).subrange(0, pairs@.len() as int)
            =~= spec_query_pairs_of(pairs@));
    }
    found
}

/// The views of decoded pairs.
pub open spec fn spec_query_pairs_of(pairs: Seq<(String, String)>) -> Seq<(Seq<char>, Seq<char>)> {
    pairs.map_values(|p: (String, String)| (p.0@, p.1@))
}

/// Whether bitcoin's address parser accepts the text, on any network.
pub uninterp spec fn spec_is_btc_address_valid(s: Seq<char>) -> bool;

/// Relies on bitcoin's Address parsing: whether the text is a well-formed
/// Bitcoin address, network unchecked.
#[verifier::external_body]
fn validate_btc_address(s: &str) -> (r: bool)
    ensures
        r == spec_is_btc_address_valid(s@),
{
    s.parse::<bitcoin::Address<bitcoin::address::NetworkUnchecked>>().is_ok()
}

/// What a payment URI decodes to: an on-chain address, an off-chain address,
/// and an amount in satoshis, each when present.
pub struct DecodedUri {
    pub btc_address: Option<String>,
    pub ark_address: Option<String>,
    pub amount_sats: Option<u64>,
}

/// The decoding of a payment URI, `None` where it is rejected: text not of a
/// known scheme, an unparsable amount, an off-chain address that is not a
/// plausible Ark bech32 string, or an on-chain address the address parser
/// rejects. Only the values actually used are validated; unused query
/// parameters may hold anything. The scheme names the destination; the query
/// may carry the other address and the amount.
pub open spec fn spec_decode_bip21(u: Seq<char>) -> Option<
    (Option<Seq<char>>, Option<Seq<char>>, Option<int>),
> {
    {
        let btc_scheme = chars_start_with(u, "bitcoin:"@);
        let ark_scheme = chars_start_with(u, "ark:"@);
        if !btc_scheme && !ark_scheme {
            None
        } else {
            let colon = spec_char_index_of(u, ':');
            let rest = u.skip(colon + 1);
            let qm = spec_char_index_of(rest, '?');
            let dest = rest.subrange(0, qm);
            let pairs = if qm < rest.len() {
                spec_query_pairs(rest.skip(qm + 1))
            } else {
                Seq::empty()
            };
            let amount_p = spec_find_param(pairs, "amount"@);
            let amount_ok = match amount_p {
                Some(v) => spec_btc_amount_sats(v) matches Some(x) && x <= u64::MAX as int,
                None => true,
            };
            if !amount_ok {
                None
            } else {
                let amount = match amount_p {
                    Some(v) => Some(spec_btc_amount_sats(v)->0),
                    None => None,
                };
                let ark_src = if ark_scheme {
                    Some(dest)
                } else {
                    match spec_find_param(pairs, "ark"@) {
                        Some(a) => Some(a),
                        None => spec_find_param(pairs, "arkade"@),
                    }
                };
                let ark_ok = match ark_src {
                    Some(a) => spec_ark_address_ok(a),
                    None => true,
                };
                if !ark_ok {
                    None
                } else {
                    let btc_src = if btc_scheme {
                        Some(dest)
                    } else {
                        spec_find_param(pairs, "bitcoin"@)
                    };
                    let btc_ok = match btc_src {
                        Some(a) => spec_is_btc_address_valid(a),
                        None => true,
                    };
                    if !btc_ok {
                        None
                    } else {
                        Some((btc_src, ark_src, amount))
                    }
                }
            }
        }
    }
}

/// Decode a payment URI of the Bitcoin or Ark scheme: the destination
/// address after the scheme, and the other-protocol address and the amount
/// from the query, rejecting anything `spec_decode_bip21` rejects.
pub fn decode_bip21(uri: &str) -> (r: Result<DecodedUri, WalletError>)
    ensures
        r is Ok <==> spec_decode_bip21(uri@) is Some,
        r is Ok ==> {
            let parts = spec_decode_bip21(uri@)->0;
            &&& (match r->Ok_0.btc_address {
                Some(a) => parts.0 == Some(a@),
                None => parts.0 is None,
            })
            &&& (match r->Ok_0.ark_address {
                Some(a) => parts.1 == Some(a@),
                None => parts.1 is None,
            })
            &&& (match r->Ok_0.amount_sats {
                Some(v) => parts.2 == Some(v as int),
                None => parts.2 is None,
            })
        },
        r is Err ==> r->Err_0 == WalletError::InvalidInput,
{
    proof {
        reveal_strlit("bitcoin:");
        reveal_strlit("ark:");
        vstd::string::is_ascii_spec_bytes("bitcoin:");
        vstd::string::is_ascii_spec_bytes("ark:");
    }
    let btc_scheme = chars_prefix(uri, "bitcoin:");
    let ark_scheme = chars_prefix(uri, "ark:");
    if !btc_scheme && !ark_scheme {
        return Err(WalletError::InvalidInput);
    }
    let colon = char_index_of(uri, ':');
    proof {
        if btc_scheme {
            assert(uri@[7] == "bitcoin:"@[7]) by {
                assert(uri@.subrange(0, 8)[7] == "bitcoin:"@[7]);
            }
            assert(uri@[7] == ':');
            assert(colon <= 7);
        } else {
            assert(uri@[3] == "ark:"@[3]) by {
                assert(uri@.subrange(0, 4)[3] == "ark:"@[3]);
            }
            assert(uri@[3] == ':');
            assert(colon <= 3);
        }
    }
    let ulen = uri.unicode_len();
    let rest = uri.substring_char(colon + 1, ulen);
    let qm = char_index_of(rest, '?');
    let rlen = rest.unicode_len();
    let dest = rest.substring_char(0, qm);
    proof {
        assert(rest@ == uri@.skip(colon + 1));
        assert(dest@ == rest@.subrange(0, qm as int));
    }
    let pairs: Vec<(String, String)> = if qm < rlen {
        let query = rest.substring_char(qm + 1, rlen);
        proof {
            assert(query@ =~= rest@.skip(qm + 1));
        }
        parse_query_pairs(query)
    } else {
        Vec::new()
    };
    let ghost pairs_view = if (qm as int) < rest@.len() {
        spec_query_pairs(rest@.skip(qm + 1))
    } else {
        Seq::<(Seq<char>, Seq<char>)>::empty()
    };
    proof {
        assert(spec_query_pairs_of(pairs@) =~= pairs_view);
    }
    let amount_sats: Option<u64> = match find_param(&pairs, "amount") {
        Some(v) => {
            match parse_btc_amount(v.as_str()) {
                Some(x) => Some(x),
                None => {
                    return Err(WalletError::InvalidInput);
                },
            }
        },
        None => None,
    };
    let ark_address: Option<String> = if ark_scheme {
        if check_ark_address(dest) {
            Some(String::from_str(dest))
        } else {
            return Err(WalletError::InvalidInput);
        }
    } else {
        let ark_p = match find_param(&pairs, "ark") {
            Some(a) => Some(a),
            None => find_param(&pairs, "arkade"),
        };
        match ark_p {
            Some(a) => {
                if check_ark_address(a.as_str()) {
                    Some(crate::lendasat::clone_string(a))
                } else {
                    return Err(WalletError::InvalidInput);
                }
            },
            None => None,
        }
    };
    let btc_address: Option<String> = if btc_scheme {
        if validate_btc_address(dest) {
            Some(String::from_str(dest))
        } else {
            return Err(WalletError::InvalidInput);
        }
    } else {
        match find_param(&pairs, "bitcoin") {
            Some(a) => {
                if validate_btc_address(a.as_str()) {
                    Some(crate::lendasat::clone_string(a))
                } else {
                    return Err(WalletError::InvalidInput);
                }
            },
            None => None,
        }
    };
    Ok(DecodedUri { btc_address, ark_address, amount_sats })
}


/// Which rail a payment leaves on: an on-chain send through a collaborative
/// redemption, or an off-chain send to an Ark address.
pub enum SendRail {
    OnChain { address: String, amount_sats: u64 },
    OffChain { address: String, amount_sats: u64 },
}

/// The rail a destination and amount dispatch to. A payment URI decodes
/// first and its amount, when present, overrides the caller's; an on-chain
/// destination wins over an off-chain one, as the URI decoding orders them.
/// A bare address goes by its prefix and must validate. `None` where no
/// supported form matches or a validation fails.
pub open spec fn spec_send_rail(u: Seq<char>, amount: u64) -> Option<(bool, Seq<char>, int)> {
    if chars_start_with(u, "bitcoin:"@) || chars_start_with(u, "ark:"@) {
        match spec_decode_bip21(u) {
            None => None,
            Some(parts) => {
                let amt = match parts.2 {
                    Some(a) => a,
                    None => amount as int,
                };
                if parts.0 is Some {
                    Some((true, parts.0->0, amt))
                } else if parts.1 is Some {
                    Some((false, parts.1->0, amt))
                } else {
                    None
                }
            },
        }
    } else if chars_start_with(u, "ark1"@) || chars_start_with(u, "tark1"@) {
        if spec_ark_address_ok(u) {
            Some((false, u, amount as int))
        } else {
            None
        }
    } else if chars_start_with(u, "bc1"@) || chars_start_with(u, "tb1"@) || chars_start_with(
        u,
        "bcrt1"@,
    ) {
        if spec_is_btc_address_valid(u) {
            Some((true, u, amount as int))
        } else {
            None
        }
    } else {
        None
    }
}

/// Decide how to send: a payment URI is decoded, a bare address validated,
/// and the destination dispatched to its rail with the amount the URI may
/// override. Fails exactly where `spec_send_rail` rejects the input.
pub fn choose_send_rail(address: &str, amount_sats: u64) -> (r: Result<SendRail, WalletError>)
    ensures
        r is Ok <==> spec_send_rail(address@, amount_sats) is Some,
        r is Ok ==> ({
            let (onchain, addr, amt) = spec_send_rail(address@, amount_sats)->0;
            match r->Ok_0 {
                SendRail::OnChain { address: a, amount_sats: v } => onchain && a@ == addr
                    && v as int == amt,
                SendRail::OffChain { address: a, amount_sats: v } => !onchain && a@ == addr
                    && v as int == amt,
            }
        }),
        r is Err ==> r->Err_0 == WalletError::InvalidInput,
{
    proof {
        reveal_strlit("bitcoin:");
        reveal_strlit("ark:");
        reveal_strlit("ark1");
        reveal_strlit("tark1");
        reveal_strlit("bc1");
        reveal_strlit("tb1");
        reveal_strlit("bcrt1");
        vstd::string::is_ascii_spec_bytes("bitcoin:");
        vstd::string::is_ascii_spec_bytes("ark:");
        vstd::string::is_ascii_spec_bytes("ark1");
        vstd::string::is_ascii_spec_bytes("tark1");
        vstd::string::is_ascii_spec_bytes("bc1");
        vstd::string::is_ascii_spec_bytes("tb1");
        vstd::string::is_ascii_spec_bytes("bcrt1");
    }
    if chars_prefix(address, "bitcoin:") || chars_prefix(address, "ark:") {
        let decoded = decode_bip21(address)?;
        let amt = match decoded.amount_sats {
            Some(a) => a,
            None => amount_sats,
        };
        match decoded.btc_address {
            Some(a) => Ok(SendRail::OnChain { address: a, amount_sats: amt }),
            None => {
                match decoded.ark_address {
                    Some(a) => Ok(SendRail::OffChain { address: a, amount_sats: amt }),
                    None => Err(WalletError::InvalidInput),
                }
            },
        }
    } else if chars_prefix(address, "ark1") || chars_prefix(address, "tark1") {
        if check_ark_address(address) {
            Ok(
                SendRail::OffChain {
                    address: String::from_str(address),
                    amount_sats,
                },
            )
        } else {
            Err(WalletError::InvalidInput)
        }
    } else if chars_prefix(address, "bc1") || chars_prefix(address, "tb1") || chars_prefix(
        address,
        "bcrt1",
    ) {
        if validate_btc_address(address) {
            Ok(
                SendRail::OnChain {
                    address: String::from_str(address),
                    amount_sats,
                },
            )
        } else {
            Err(WalletError::InvalidInput)
        }
    } else {
        Err(WalletError::InvalidInput)
    }
}

} // verus!
