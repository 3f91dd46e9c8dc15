use vstd::prelude::*;
use vstd::string::StringSliceAdditionalSpecFns;
use vstd::utf8::{decode_utf8, encode_utf8};

verus! {

/// Equality of two string slices, proved through their UTF-8 byte encodings.
pub fn str_eq(a: &str, b: &str) -> (r: bool)
    ensures
        r == (a@ == b@),
{
    let ab = a.as_bytes();
    let bb = b.as_bytes();
    proof {
        vstd::utf8::encode_utf8_decode_utf8(a@);
        vstd::utf8::encode_utf8_decode_utf8(b@);
    }
    if ab.len() != bb.len() {
        proof {
            if a@ == b@ {
                assert(encode_utf8(a@) =~= encode_utf8(b@));
            }
        }
        return false;
    }
    let n: usize = ab.len();
    let mut i: usize = 0;
    while i < n
        invariant
            n == ab@.len() == bb@.len(),
            i <= n,
            forall|j: int| 0 <= j < i ==> ab@[j] == bb@[j],
            ab@ == a.spec_bytes(),
            bb@ == b.spec_bytes(),
        decreases n - i,
    {
        if ab[i] != bb[i] {
            proof {
                if a@ == b@ {
                    assert(encode_utf8(a@) =~= encode_utf8(b@));
                }
            }
            return false;
        }
        i += 1;
    }
    proof {
        assert(a.spec_bytes() =~= b.spec_bytes());
        assert(decode_utf8(encode_utf8(a@)) == decode_utf8(encode_utf8(b@)));
    }
    true
}

/// Whether the byte sequence `s` begins with `p`.
pub open spec fn bytes_start_with(s: Seq<u8>, p: Seq<u8>) -> bool {
    p.len() <= s.len() && s.subrange(0, p.len() as int) == p
}

/// Whether the UTF-8 encoding of `s` begins with the encoding of `p`.
pub open spec fn str_starts_with(s: &str, p: &str) -> bool {
    bytes_start_with(s.spec_bytes(), p.spec_bytes())
}

/// Prefix test on string slices, byte for byte.
pub fn starts_with(s: &str, p: &str) -> (r: bool)
    ensures
        r == str_starts_with(s, p),
{
    let sb = s.as_bytes();
    let pb = p.as_bytes();
    if pb.len() > sb.len() {
        proof {
            assert(!bytes_start_with(s.spec_bytes(), p.spec_bytes()));
        }
        return false;
    }
    let n: usize = pb.len();
    let mut i: usize = 0;
    while i < n
        invariant
            n == pb@.len(),
            n <= sb@.len(),
            i <= n,
            forall|j: int| 0 <= j < i ==> sb@[j] == pb@[j],
            sb@ == s.spec_bytes(),
            pb@ == p.spec_bytes(),
        decreases n - i,
    {
        if sb[i] != pb[i] {
            proof {
                assert(s.spec_bytes().subrange(0, n as int)[i as int] != p.spec_bytes()[i as int]);
            }
            return false;
        }
        i += 1;
    }
    proof {
        assert(s.spec_bytes().subrange(0, n as int) =~= p.spec_bytes());
    }
    true
}

/// Whether the byte sequence `p` occurs in `s` at any position.
pub open spec fn bytes_contain(s: Seq<u8>, p: Seq<u8>) -> bool {
    exists|i: int| 0 <= i <= s.len() - p.len() && #[trigger] s.subrange(i, i + p.len()) == p
}

/// Whether the UTF-8 encoding of `p` occurs in the encoding of `s`.
pub open spec fn str_contains(s: &str, p: &str) -> bool {
    bytes_contain(s.spec_bytes(), p.spec_bytes())
}

/// Substring test on string slices, byte for byte.
pub fn contains(s: &str, p: &str) -> (r: bool)
    ensures
        r == str_contains(s, p),
{
    let sb = s.as_bytes();
    let pb = p.as_bytes();
    if pb.len() > sb.len() {
        return false;
    }
    let m: usize = pb.len();
    let n: usize = sb.len();
    if m == 0 {
        proof {
            let pl = pb@.len() as int;
            assert(sb@.subrange(0, 0 + pl) =~= pb@);
            assert(bytes_contain(s.spec_bytes(), p.spec_bytes()));
        }
        return true;
    }
    let mut start: usize = 0;
    while start <= n - m
        invariant
            m == pb@.len(),
            n == sb@.len(),
            1 <= m <= n,
            start <= n - m + 1,
            forall|i: int|
                0 <= i < start ==> #[trigger] sb@.subrange(i, i + m) != pb@,
            sb@ == s.spec_bytes(),
            pb@ == p.spec_bytes(),
        decreases n - start,
    {
        let mut k: usize = 0;
        let mut matched = true;
        while k < m
            invariant
                m == pb@.len(),
                n == sb@.len(),
                start + m <= n,
                k <= m,
                matched ==> forall|j: int| 0 <= j < k ==> sb@[start + j] == pb@[j],
                !matched ==> sb@.subrange(start as int, start + m) != pb@,
            decreases m - k,
        {
            if sb[start + k] != pb[k] {
                proof {
                    assert(sb@.subrange(start as int, start + m)[k as int] != pb@[k as int]);
                }
                matched = false;
                k = m;
            } else {
                k += 1;
            }
        }
        if matched {
            proof {
                assert(sb@.subrange(start as int, start + m) =~= pb@);
            }
            return true;
        }
        start += 1;
    }
    proof {
        assert forall|i: int| 0 <= i <= sb@.len() - pb@.len() implies #[trigger] sb@.subrange(
            i,
            i + m,
        ) != pb@ by {
            assert(i < start);
        }
    }
    false
}

} // verus!
