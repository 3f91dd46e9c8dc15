use vstd::prelude::*;
use vstd::string::StringExecFns;
use crate::errors::WalletError;
use crate::hexutil::{lemma_hex_of_len, spec_hex_of, to_hex};

verus! {

/// Number of bytes of an EVM word; swap id and preimage each fill one.
pub const EVM_WORD_BYTES: usize = 32;

/// A byte sequence left-padded with zeros to thirty-two bytes.
pub open spec fn spec_left_pad32(b: Seq<u8>) -> Seq<u8>
    recommends
        b.len() <= 32,
{
    Seq::new((32 - b.len()) as nat, |i: int| 0u8) + b
}

/// The claim call data for the EVM swap contract: the four-byte function
/// selector of `claimSwap(bytes32,bytes32)`, then the swap id left-padded to
/// thirty-two bytes, then the thirty-two-byte preimage, all hex-encoded
/// behind a `0x` prefix.
pub open spec fn spec_claim_calldata(swap_id: Seq<u8>, preimage: Seq<u8>) -> Seq<char> {
    "0x1818a9fa"@ + spec_hex_of(spec_left_pad32(swap_id)) + spec_hex_of(preimage)
}

/// Build the call data that claims a swap on the EVM side, ready for direct
/// submission. Rejects a swap id longer than one EVM word and a preimage
/// that is not exactly one word.
pub fn build_claim_calldata(swap_id: &Vec<u8>, preimage: &Vec<u8>) -> (r: Result<
    String,
    WalletError,
>)
    ensures
        r is Ok <==> (swap_id@.len() <= 32 && preimage@.len() == 32),
        r is Ok ==> r->Ok_0@ == spec_claim_calldata(swap_id@, preimage@),
        r is Err ==> r->Err_0 == WalletError::InvalidInput,
{
    if swap_id.len() > EVM_WORD_BYTES || preimage.len() != EVM_WORD_BYTES {
        return Err(WalletError::InvalidInput);
    }
    let pad: usize = EVM_WORD_BYTES - swap_id.len();
    let mut padded: Vec<u8> = Vec::new();
    let mut i: usize = 0;
    while i < pad
        invariant
            i <= pad,
            padded@ =~= Seq::new(i as nat, |j: int| 0u8),
        decreases pad - i,
    {
        padded.push(0u8);
        i += 1;
    }
    let mut k: usize = 0;
    while k < swap_id.len()
        invariant
            k <= swap_id@.len(),
            pad == 32 - swap_id@.len(),
            padded@ =~= Seq::new(pad as nat, |j: int| 0u8) + swap_id@.subrange(0, k as int),
        decreases swap_id@.len() - k,
    {
        padded.push(swap_id[k]);
        k += 1;
    }
    proof {
        assert(swap_id@.subrange(0, swap_id@.len() as int) =~= swap_id@);
        assert(padded@ =~= spec_left_pad32(swap_id@));
    }
    let id_hex = to_hex(padded.as_slice());
    let pre_hex = to_hex(preimage.as_slice());
    let mut out = String::from_str("0x1818a9fa");
    out.append(id_hex.as_str());
    out.append(pre_hex.as_str());
    Ok(out)
}

/// The claim call data always has the length of a `0x` prefix, a four-byte
/// selector and two EVM words in hex, and always begins with the selector of
/// `claimSwap(bytes32,bytes32)`.
pub proof fn lemma_claim_calldata_shape(swap_id: Seq<u8>, preimage: Seq<u8>)
    requires
        swap_id.len() <= 32,
        preimage.len() == 32,
    ensures
        spec_claim_calldata(swap_id, preimage).len() == 2 + 8 + 64 + 64,
        spec_claim_calldata(swap_id, preimage).subrange(0, 10) == "0x1818a9fa"@,
{
    reveal_strlit("0x1818a9fa");
    lemma_hex_of_len(spec_left_pad32(swap_id));
    lemma_hex_of_len(preimage);
    assert(spec_left_pad32(swap_id).len() == 32);
    assert(spec_claim_calldata(swap_id, preimage).subrange(0, 10) =~= "0x1818a9fa"@);
}

} // verus!
