use vstd::prelude::*;
use vstd::string::StringExecFns;
use bitcoin::hashes::Hash as _;
use bitcoin::sighash::{Prevouts, SighashCache, TapSighashType};
use bitcoin::TxOut;
use crate::errors::WalletError;
use crate::hexutil::{from_hex, spec_hex_decode, spec_hex_of, spec_valid_hex, to_hex};
use crate::keys::spec_is_valid_secret_key;
use crate::provider::{spec_first_pk_index, UnifiedKeyProvider};

verus! {

/// A partially signed Bitcoin transaction, carried as an opaque value of the
/// bitcoin crate between the wrappers below. The names that follow treat it
/// as a carrier of its inputs and their fields, the way a collection's
/// contents are named: each is a deterministic function of the transaction
/// value and the other arguments alone.
#[verifier::external_type_specification]
#[verifier::external_body]
pub struct ExPsbt(bitcoin::psbt::Psbt);

/// How many inputs a transaction has.
pub uninterp spec fn spec_psbt_num_inputs(p: bitcoin::psbt::Psbt) -> int;

/// The signing-key material each input carries: its taproot internal key,
/// and the keys of its taproot key origins, in key order.
pub uninterp spec fn spec_psbt_input_keys(p: bitcoin::psbt::Psbt) -> Seq<
    (Option<Seq<u8>>, Seq<Seq<u8>>),
>;

/// Whether the bytes parse as a partially signed transaction.
pub uninterp spec fn spec_is_valid_psbt_bytes(b: Seq<u8>) -> bool;

/// Whether the text parses as a base64 partially signed transaction.
pub uninterp spec fn spec_is_valid_psbt_base64(s: Seq<char>) -> bool;

/// The transaction parsed from its binary form.
pub uninterp spec fn spec_psbt_of_bytes(b: Seq<u8>) -> bitcoin::psbt::Psbt;

/// The transaction parsed from its base64 form.
pub uninterp spec fn spec_psbt_of_base64(s: Seq<char>) -> bitcoin::psbt::Psbt;

/// The binary serialization of a transaction.
pub uninterp spec fn spec_psbt_bytes(p: bitcoin::psbt::Psbt) -> Seq<u8>;

/// The base64 rendering of a transaction.
pub uninterp spec fn spec_psbt_base64(p: bitcoin::psbt::Psbt) -> Seq<char>;

/// Whether one input's taproot key-spend sighash is computable: every input
/// carries its witness output and the sighash computation accepts the index.
pub uninterp spec fn spec_psbt_can_sighash(p: bitcoin::psbt::Psbt, i: int) -> bool;

/// The taproot key-spend sighash of one input.
pub uninterp spec fn spec_psbt_sighash(p: bitcoin::psbt::Psbt, i: int) -> Seq<u8>;

/// The transaction with a key-spend signature stored on one input.
pub uninterp spec fn spec_psbt_with_key_sig(
    p: bitcoin::psbt::Psbt,
    i: int,
    sig: Seq<u8>,
) -> bitcoin::psbt::Psbt;

/// Whether one input carries a taproot key-spend signature.
pub uninterp spec fn spec_psbt_has_key_sig(p: bitcoin::psbt::Psbt, i: int) -> bool;

/// The transaction with one input's key signature turned into its final
/// witness.
pub uninterp spec fn spec_psbt_finalize_input(
    p: bitcoin::psbt::Psbt,
    i: int,
) -> bitcoin::psbt::Psbt;

/// Whether the raw transaction can be extracted: the extraction refuses an
/// absurd fee among other things.
pub uninterp spec fn spec_psbt_extractable(p: bitcoin::psbt::Psbt) -> bool;

/// The consensus-encoded raw transaction extracted from a finalized
/// transaction.
pub uninterp spec fn spec_psbt_extracted_tx(p: bitcoin::psbt::Psbt) -> Seq<u8>;

/// The Schnorr signature of a digest under a secret key, with no auxiliary
/// randomness: a function of key and digest alone.
pub uninterp spec fn spec_schnorr_sig_of(secret: Seq<u8>, digest: Seq<u8>) -> Seq<u8>;

/// Relies on Psbt::deserialize of the bitcoin crate: accepts exactly the
/// well-formed serializations, and parsing is a function of the bytes.
#[verifier::external_body]
fn psbt_deserialize(bytes: &Vec<u8>) -> (r: Result<bitcoin::psbt::Psbt, WalletError>)
    ensures
        r is Ok <==> spec_is_valid_psbt_bytes(bytes@),
        r is Ok ==> r->Ok_0 == spec_psbt_of_bytes(bytes@),
        r is Err ==> r->Err_0 == WalletError::InvalidInput,
{
    bitcoin::psbt::Psbt::deserialize(bytes).map_err(|_| WalletError::InvalidInput)
}

/// Relies on Psbt::serialize of the bitcoin crate: the serialization is a
/// function of the value, and deserializing it yields the value back.
#[verifier::external_body]
fn psbt_serialize(p: &bitcoin::psbt::Psbt) -> (r: Vec<u8>)
    ensures
        r@ == spec_psbt_bytes(*p),
        spec_is_valid_psbt_bytes(r@),
        spec_psbt_of_bytes(r@) == *p,
{
    p.serialize()
}

/// Relies on the base64 form of Psbt of the bitcoin crate: parses exactly
/// the well-formed base64 serializations, as a function of the text.
#[verifier::external_body]
fn psbt_from_base64(s: &str) -> (r: Result<bitcoin::psbt::Psbt, WalletError>)
    ensures
        r is Ok <==> spec_is_valid_psbt_base64(s@),
        r is Ok ==> r->Ok_0 == spec_psbt_of_base64(s@),
        r is Err ==> r->Err_0 == WalletError::InvalidInput,
{
    s.parse::<bitcoin::psbt::Psbt>().map_err(|_| WalletError::InvalidInput)
}

/// Relies on the base64 rendering of Psbt of the bitcoin crate: a function
/// of the value, and parsing it yields the value back.
#[verifier::external_body]
fn psbt_to_base64(p: &bitcoin::psbt::Psbt) -> (r: String)
    ensures
        r@ == spec_psbt_base64(*p),
        spec_is_valid_psbt_base64(r@),
        spec_psbt_of_base64(r@) == *p,
{
    p.to_string()
}

/// Relies on the input list of Psbt: each input's taproot internal key and
/// origin keys, mapped to their serialized bytes.
#[verifier::external_body]
fn psbt_signing_keys(p: &bitcoin::psbt::Psbt) -> (r: Vec<(Option<Vec<u8>>, Vec<Vec<u8>>)>)
    ensures
        r@.len() == spec_psbt_num_inputs(*p),
        r@.len() == spec_psbt_input_keys(*p).len(),
        forall|i: int|
            0 <= i < r@.len() ==> {
                let keys = spec_psbt_input_keys(*p)[i];
                &&& (match (#[trigger] r@[i]).0 {
                    Some(k) => keys.0 == Some(k@),
                    None => keys.0 is None,
                })
                &&& r@[i].1.deep_view() == keys.1
            },
{
    p.inputs.iter().map(
        |inp|
            (
                inp.tap_internal_key.map(|k| k.serialize().to_vec()),
                inp.tap_key_origins.keys().map(|k| k.serialize().to_vec()).collect(),
            ),
    ).collect()
}

/// Relies on the taproot key-spend sighash of the bitcoin crate: the
/// thirty-two sighash bytes of one input, a function of the transaction and
/// the index; nothing exactly when a witness output is missing or the
/// computation fails. The stored sighash type of the input is honoured,
/// falling back to the default.
#[verifier::external_body]
fn psbt_input_sighash(p: &bitcoin::psbt::Psbt, i: usize) -> (r: Option<Vec<u8>>)
    requires
        i < spec_psbt_num_inputs(*p),
    ensures
        r is Some <==> spec_psbt_can_sighash(*p, i as int),
        r matches Some(d) ==> d@ == spec_psbt_sighash(*p, i as int) && d@.len() == 32,
{
    let all: Result<Vec<TxOut>, ()> =
        p.inputs.iter().map(|inp| inp.witness_utxo.clone().ok_or(())).collect();
    let prevouts = match all {
        Ok(v) => v,
        Err(()) => return None,
    };
    let ht = p.inputs[i].sighash_type.and_then(|t| t.taproot_hash_ty().ok())
        .unwrap_or(TapSighashType::Default);
    let mut cache = SighashCache::new(&p.unsigned_tx);
    match cache.taproot_key_spend_signature_hash(i, &Prevouts::All(&prevouts), ht) {
        Ok(s) => Some(s.to_byte_array().to_vec()),
        Err(_) => None,
    }
}

/// Relies on secp256k1's Schnorr signing without auxiliary randomness:
/// deterministic, sixty-four bytes, failing exactly when the secret key is
/// rejected.
#[verifier::external_body]
fn schnorr_sign_digest(secret: &Vec<u8>, digest: &Vec<u8>) -> (r: Result<Vec<u8>, WalletError>)
    requires
        digest@.len() == 32,
    ensures
        r is Ok <==> spec_is_valid_secret_key(secret@),
        r is Ok ==> r->Ok_0@ == spec_schnorr_sig_of(secret@, digest@),
        r is Ok ==> r->Ok_0@.len() == 64,
        r is Err ==> r->Err_0 == WalletError::SigningFailure,
{
    let secp = bitcoin::secp256k1::Secp256k1::new();
    let kp = bitcoin::key::Keypair::from_seckey_slice(&secp, secret)
        .map_err(|_| WalletError::SigningFailure)?;
    let arr: [u8; 32] = digest.as_slice().try_into().unwrap();
    let msg = bitcoin::secp256k1::Message::from_digest(arr);
    Ok(secp.sign_schnorr_no_aux_rand(&msg, &kp).as_ref().to_vec())
}

/// Relies on the taproot signature field of Psbt: stores a key-spend
/// signature on one input, under the input's stored sighash type or the
/// default. Accepts exactly sixty-four signature bytes. Setting one input's
/// signature field touches nothing the other names read: the input count,
/// every input's key material, every input's sighash and its computability,
/// and the other inputs' signatures stay as they were, while the touched
/// input now carries one.
#[verifier::external_body]
fn psbt_set_tap_key_sig(p: &mut bitcoin::psbt::Psbt, i: usize, sig: &Vec<u8>) -> (r: bool)
    requires
        i < spec_psbt_num_inputs(*old(p)),
    ensures
        r == (sig@.len() == 64),
        r ==> *final(p) == spec_psbt_with_key_sig(*old(p), i as int, sig@),
        !r ==> *final(p) == *old(p),
        spec_psbt_num_inputs(*final(p)) == spec_psbt_num_inputs(*old(p)),
        spec_psbt_input_keys(*final(p)) == spec_psbt_input_keys(*old(p)),
        forall|j: int|
            #[trigger] spec_psbt_can_sighash(*final(p), j) == spec_psbt_can_sighash(*old(p), j),
        forall|j: int|
            #[trigger] spec_psbt_sighash(*final(p), j) == spec_psbt_sighash(*old(p), j),
        r ==> spec_psbt_has_key_sig(*final(p), i as int),
        forall|j: int|
            j != i ==> #[trigger] spec_psbt_has_key_sig(*final(p), j) == spec_psbt_has_key_sig(
                *old(p),
                j,
            ),
{
    let signature = match bitcoin::secp256k1::schnorr::Signature::from_slice(sig) {
        Ok(s) => s,
        Err(_) => return false,
    };
    let ht = p.inputs[i].sighash_type.and_then(|t| t.taproot_hash_ty().ok())
        .unwrap_or(TapSighashType::Default);
    p.inputs[i].tap_key_sig = Some(
        bitcoin::taproot::Signature { signature, sighash_type: ht },
    );
    true
}

/// Relies on the witness construction of the bitcoin crate: turns one
/// input's taproot key signature into its final witness, exactly when the
/// input carries one. The input count and every input's signature presence
/// stay as they were.
#[verifier::external_body]
fn psbt_finalize_key_spend_input(p: &mut bitcoin::psbt::Psbt, i: usize) -> (r: bool)
    requires
        i < spec_psbt_num_inputs(*old(p)),
    ensures
        r == spec_psbt_has_key_sig(*old(p), i as int),
        r ==> *final(p) == spec_psbt_finalize_input(*old(p), i as int),
        !r ==> *final(p) == *old(p),
        spec_psbt_num_inputs(*final(p)) == spec_psbt_num_inputs(*old(p)),
        forall|j: int|
            #[trigger] spec_psbt_has_key_sig(*final(p), j) == spec_psbt_has_key_sig(*old(p), j),
{
    match p.inputs[i].tap_key_sig {
        Some(sig) => {
            let mut w = bitcoin::Witness::new();
            w.push(sig.to_vec());
            p.inputs[i].final_script_witness = Some(w);
            true
        },
        None => false,
    }
}

/// Relies on Psbt::extract_tx of the bitcoin crate: succeeds exactly where
/// the extraction accepts the transaction, returning the consensus-encoded
/// raw transaction, witnesses materialized.
#[verifier::external_body]
fn psbt_extract_tx_bytes(p: bitcoin::psbt::Psbt) -> (r: Result<Vec<u8>, WalletError>)
    ensures
        r is Ok <==> spec_psbt_extractable(p),
        r is Ok ==> r->Ok_0@ == spec_psbt_extracted_tx(p),
        r is Err ==> r->Err_0 == WalletError::InvalidInput,
{
    match p.extract_tx() {
        Ok(tx) => Ok(bitcoin::consensus::encode::serialize(&tx)),
        Err(_) => Err(WalletError::InvalidInput),
    }
}

/// Convert a transaction from its base64 form, which the settlement
/// endpoints hand out, to the hex form that signing expects: exactly the
/// hex of the parsed transaction's serialization, failing exactly on text
/// that is not a base64 transaction.
pub fn lendasat_psbt_base64_to_hex(base64_psbt: &str) -> (r: Result<String, WalletError>)
    ensures
        r is Ok <==> spec_is_valid_psbt_base64(base64_psbt@),
        r is Ok ==> ({
            let p = spec_psbt_of_base64(base64_psbt@);
            &&& r->Ok_0@ == spec_hex_of(spec_psbt_bytes(p))
            &&& spec_valid_hex(r->Ok_0@)
            &&& spec_hex_decode(r->Ok_0@) == spec_psbt_bytes(p)
            &&& spec_is_valid_psbt_bytes(spec_hex_decode(r->Ok_0@))
            &&& spec_psbt_of_bytes(spec_hex_decode(r->Ok_0@)) == p
        }),
        r is Err ==> r->Err_0 == WalletError::InvalidInput,
{
    let p = psbt_from_base64(base64_psbt)?;
    let bytes = psbt_serialize(&p);
    proof {
        crate::hexutil::lemma_hex_round_trip(bytes@);
    }
    Ok(to_hex(bytes.as_slice()))
}

/// Convert a transaction from hex back to the base64 form the settlement
/// endpoints expect: exactly the base64 rendering of the parsed
/// transaction, failing exactly on text that is not hex or whose bytes are
/// not a transaction.
pub fn lendasat_psbt_hex_to_base64(hex_psbt: &str) -> (r: Result<String, WalletError>)
    ensures
        r is Ok <==> (spec_valid_hex(hex_psbt@) && spec_is_valid_psbt_bytes(
            spec_hex_decode(hex_psbt@),
        )),
        r is Ok ==> ({
            let p = spec_psbt_of_bytes(spec_hex_decode(hex_psbt@));
            &&& r->Ok_0@ == spec_psbt_base64(p)
            &&& spec_is_valid_psbt_base64(r->Ok_0@)
            &&& spec_psbt_of_base64(r->Ok_0@) == p
        }),
        r is Err ==> r->Err_0 == WalletError::InvalidInput,
{
    let bytes = from_hex(hex_psbt)?;
    let p = psbt_deserialize(&bytes)?;
    Ok(psbt_to_base64(&p))
}

/// The transaction after the finalizing pass over its first `k` inputs:
/// each input that carries a key signature has gained its final witness.
pub open spec fn spec_finalized_state(p0: bitcoin::psbt::Psbt, k: int) -> bitcoin::psbt::Psbt
    decreases k,
{
    if k <= 0 {
        p0
    } else {
        let q = spec_finalized_state(p0, k - 1);
        if spec_psbt_has_key_sig(q, k - 1) {
            spec_psbt_finalize_input(q, k - 1)
        } else {
            q
        }
    }
}

/// Finalize a signed transaction and extract the raw transaction hex: the
/// broadcast endpoints expect raw transaction bytes, and submitting an
/// unfinalized transaction is the documented failure to guard against.
/// Every input carrying a taproot key signature gains its final witness
/// first; the result is the hex of the extracted raw transaction, and the
/// call fails exactly on bad hex, bytes that are no transaction, or a
/// finalized transaction the extraction refuses.
pub fn lendasat_finalize_psbt(signed_psbt_hex: &str) -> (r: Result<String, WalletError>)
    ensures
        r is Ok <==> (spec_valid_hex(signed_psbt_hex@) && spec_is_valid_psbt_bytes(
            spec_hex_decode(signed_psbt_hex@),
        ) && spec_psbt_extractable(
            spec_finalized_state(
                spec_psbt_of_bytes(spec_hex_decode(signed_psbt_hex@)),
                spec_psbt_num_inputs(spec_psbt_of_bytes(spec_hex_decode(signed_psbt_hex@))),
            ),
        )),
        r is Ok ==> r->Ok_0@ == spec_hex_of(
            spec_psbt_extracted_tx(
                spec_finalized_state(
                    spec_psbt_of_bytes(spec_hex_decode(signed_psbt_hex@)),
                    spec_psbt_num_inputs(spec_psbt_of_bytes(spec_hex_decode(signed_psbt_hex@))),
                ),
            ),
        ),
        r is Err ==> r->Err_0 == WalletError::InvalidInput,
{
    let bytes = from_hex(signed_psbt_hex)?;
    let mut p = psbt_deserialize(&bytes)?;
    let ghost p0 = p;
    let keys = psbt_signing_keys(&p);
    let n = keys.len();
    let mut i: usize = 0;
    while i < n
        invariant
            i <= n,
            n == spec_psbt_num_inputs(p0),
            spec_psbt_num_inputs(p) == spec_psbt_num_inputs(p0),
            p == spec_finalized_state(p0, i as int),
        decreases n - i,
    {
        psbt_finalize_key_spend_input(&mut p, i);
        i += 1;
    }
    let tx = psbt_extract_tx_bytes(p)?;
    Ok(to_hex(tx.as_slice()))
}

/// How one signing pass went: how many inputs were signed, how many could
/// not be, and the signed transaction in hex. Script-path transactions
/// commonly mix inputs owned by different parties, so the per-input
/// breakdown matters more than an overall verdict.
pub struct SignReport {
    pub psbt_hex: String,
    pub total: usize,
    pub signed: usize,
    pub failed: usize,
}

/// The key an input's key material names: the taproot internal key when one
/// is there, the first key-origin key otherwise.
pub open spec fn spec_choose_key(entry: (Option<Seq<u8>>, Seq<Seq<u8>>)) -> Option<Seq<u8>> {
    match entry.0 {
        Some(k) => Some(k),
        None => if entry.1.len() > 0 {
            Some(entry.1[0])
        } else {
            None
        },
    }
}

/// The key an input is to be signed with: its taproot internal key when the
/// transaction carries one, the first key-origin key otherwise.
pub fn choose_signing_key<'a>(
    internal: &'a Option<Vec<u8>>,
    origins: &'a Vec<Vec<u8>>,
) -> (r: Option<&'a Vec<u8>>)
    ensures
        match internal {
            Some(k) => r matches Some(v) && v@ == k@,
            None => {
                if origins@.len() > 0 {
                    r matches Some(v) && v@ == origins@[0]@
                } else {
                    r is None
                }
            },
        },
{
    match internal {
        Some(k) => Some(k),
        None => {
            if origins.len() > 0 {
                Some(&origins[0])
            } else {
                None
            }
        },
    }
}

/// Whether one input of `q` can be signed from the key pool: its key
/// material names a key, the pool holds that key, secp256k1 accepts the
/// pool's secret, and the input's sighash is computable.
pub open spec fn spec_input_signable(
    q: bitcoin::psbt::Psbt,
    pool: Seq<crate::keys::DerivedKey>,
    i: int,
) -> bool {
    match spec_choose_key(spec_psbt_input_keys(q)[i]) {
        Some(pk) => {
            let j = spec_first_pk_index(pool, pk);
            &&& j < pool.len()
            &&& spec_is_valid_secret_key(pool[j].secret_key@)
            &&& spec_psbt_can_sighash(q, i)
        },
        None => false,
    }
}

/// The transaction after the signing pass over its first `k` inputs: each
/// signable input carries the Schnorr signature of its sighash under its
/// pool key.
pub open spec fn spec_signed_state(
    p0: bitcoin::psbt::Psbt,
    pool: Seq<crate::keys::DerivedKey>,
    k: int,
) -> bitcoin::psbt::Psbt
    decreases k,
{
    if k <= 0 {
        p0
    } else {
        let q = spec_signed_state(p0, pool, k - 1);
        if spec_input_signable(q, pool, k - 1) {
            let pk = spec_choose_key(spec_psbt_input_keys(q)[k - 1])->0;
            let key = pool[spec_first_pk_index(pool, pk)];
            spec_psbt_with_key_sig(
                q,
                k - 1,
                spec_schnorr_sig_of(key.secret_key@, spec_psbt_sighash(q, k - 1)),
            )
        } else {
            q
        }
    }
}

/// How many of the first `k` inputs the signing pass signs.
pub open spec fn spec_signed_count(
    p0: bitcoin::psbt::Psbt,
    pool: Seq<crate::keys::DerivedKey>,
    k: int,
) -> int
    decreases k,
{
    if k <= 0 {
        0
    } else {
        spec_signed_count(p0, pool, k - 1) + (if spec_input_signable(
            spec_signed_state(p0, pool, k - 1),
            pool,
            k - 1,
        ) {
            1int
        } else {
            0int
        })
    }
}

/// Sign a transaction's taproot inputs with the wallet identity: each
/// input's signing key is read from the transaction, looked up in the key
/// provider, and used for a key-spend signature over that input's sighash.
/// The result is the hex of the transaction after the signing pass, with
/// the per-input outcome counted; the call fails exactly on bad hex, bytes
/// that are no transaction, or a non-empty transaction with no signable
/// input, which could never be broadcast.
pub fn sign_psbt_with_ark_identity(psbt_hex: &str, provider: &UnifiedKeyProvider) -> (r: Result<
    SignReport,
    WalletError,
>)
    requires
        provider.wf(),
    ensures
        r is Ok <==> (spec_valid_hex(psbt_hex@) && spec_is_valid_psbt_bytes(
            spec_hex_decode(psbt_hex@),
        ) && ({
            let p0 = spec_psbt_of_bytes(spec_hex_decode(psbt_hex@));
            let n = spec_psbt_num_inputs(p0);
            n == 0 || spec_signed_count(p0, provider.spec_pool(), n) > 0
        })),
        r is Ok ==> ({
            let p0 = spec_psbt_of_bytes(spec_hex_decode(psbt_hex@));
            let n = spec_psbt_num_inputs(p0);
            let rep = r->Ok_0;
            &&& rep.total == n
            &&& rep.signed == spec_signed_count(p0, provider.spec_pool(), n)
            &&& rep.signed + rep.failed == rep.total
            &&& rep.psbt_hex@ == spec_hex_of(
                spec_psbt_bytes(spec_signed_state(p0, provider.spec_pool(), n)),
            )
        }),
        r is Err ==> (r->Err_0 == WalletError::InvalidInput || r->Err_0
            == WalletError::SigningFailure),
{
    let bytes = from_hex(psbt_hex)?;
    let mut p = psbt_deserialize(&bytes)?;
    let ghost p0 = p;
    let ghost pool = provider.spec_pool();
    let keys = psbt_signing_keys(&p);
    let n = keys.len();
    let mut signed: usize = 0;
    let mut failed: usize = 0;
    let mut i: usize = 0;
    while i < n
        invariant
            i <= n,
            n == keys@.len(),
            n == spec_psbt_num_inputs(p0),
            spec_psbt_num_inputs(p) == spec_psbt_num_inputs(p0),
            spec_psbt_input_keys(p) == spec_psbt_input_keys(p0),
            keys@.len() == spec_psbt_input_keys(p0).len(),
            forall|k: int|
                0 <= k < keys@.len() ==> {
                    let e = spec_psbt_input_keys(p0)[k];
                    &&& (match (#[trigger] keys@[k]).0 {
                        Some(x) => e.0 == Some(x@),
                        None => e.0 is None,
                    })
                    &&& keys@[k].1.deep_view() == e.1
                },
            provider.wf(),
            pool == provider.spec_pool(),
            p == spec_signed_state(p0, pool, i as int),
            signed == spec_signed_count(p0, pool, i as int),
            signed + failed == i,
        decreases n - i,
    {
        let entry = &keys[i];
        proof {
            let e = spec_psbt_input_keys(p0)[i as int];
            if entry.0 is Some {
                assert(spec_choose_key(e) == Some((entry.0->0)@));
            } else {
                if entry.1@.len() > 0 {
                    assert(entry.1@[0]@ == entry.1.deep_view()[0]);
                    assert(spec_choose_key(e) == Some(entry.1@[0]@));
                } else {
                    assert(e.1.len() == 0);
                    assert(spec_choose_key(e) is None);
                }
            }
        }
        let mut ok = false;
        match choose_signing_key(&entry.0, &entry.1) {
            Some(pk) => {
                match provider.get_keypair_for_pk(pk) {
                    Ok(key) => {
                        match psbt_input_sighash(&p, i) {
                            Some(digest) => {
                                match schnorr_sign_digest(&key.secret_key, &digest) {
                                    Ok(sig) => {
                                        ok = psbt_set_tap_key_sig(&mut p, i, &sig);
                                    },
                                    Err(_) => {
                                        proof {
                                            assert(!spec_input_signable(p, pool, i as int));
                                        }
                                    },
                                }
                            },
                            None => {
                                proof {
                                    assert(!spec_input_signable(p, pool, i as int));
                                }
                            },
                        }
                    },
                    Err(_) => {
                        proof {
                            assert(!spec_input_signable(p, pool, i as int));
                        }
                    },
                }
            },
            None => {
                proof {
                    assert(!spec_input_signable(p, pool, i as int));
                }
            },
        }
        if ok {
            signed += 1;
        } else {
            failed += 1;
        }
        i += 1;
    }
    if signed == 0 && n > 0 {
        return Err(WalletError::SigningFailure);
    }
    let out = psbt_serialize(&p);
    Ok(SignReport { psbt_hex: to_hex(out.as_slice()), total: n, signed, failed })
}

} // verus!
