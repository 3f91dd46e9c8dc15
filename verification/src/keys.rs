use vstd::prelude::*;
use vstd::string::StringSliceAdditionalSpecFns;
use bitcoin::hashes::Hash as _;
use bitcoin::bip32::{ChildNumber, Xpriv};
use bitcoin::key::Keypair;
use bitcoin::secp256k1::Secp256k1;
use bitcoin::NetworkKind;
use bip39::Mnemonic;
use crate::errors::WalletError;
use crate::hexutil::{spec_hex_of, to_hex};

verus! {

/// Base derivation path of the Ark protocol's hierarchical wallet; address
/// keys hang off it at incrementing indices, and the stable protocol
/// identity is its child at index zero.
pub const ARK_BASE_DERIVATION_PATH: &'static str = "m/83696968'/11811'/0";

/// Derivation path of the cross-chain swap keys, one child per swap.
pub const LENDASWAP_DERIVATION_PATH: &'static str = "m/83696968'/121923'";

/// Derivation path of the lending platform's authentication key.
pub const LENDASAT_DERIVATION_PATH: &'static str = "m/10101'/0'";

/// Derivation path of the public-identity key, in the NIP-06 style; it is a
/// stable cross-service identifier, never a funds key.
pub const NOSTR_DERIVATION_PATH: &'static str = "m/44'/1237'/0'/0/0";

/// Bit that marks a child number as hardened.
pub const HARDENED_BIT: u32 = 0x8000_0000;

/// A hierarchical derivation path: child numbers from the master key down,
/// the high bit of each marking a hardened step.
pub struct DerivationPath {
    pub components: Vec<u32>,
}

/// The child numbers of the Ark hierarchical base path.
pub open spec fn spec_ark_base_path() -> Seq<u32> {
    seq![(83696968 + 0x8000_0000) as u32, (11811 + 0x8000_0000) as u32, 0u32]
}

/// The child numbers of the stable Ark protocol identity.
pub open spec fn spec_ark_identity_path() -> Seq<u32> {
    spec_ark_base_path().push(0u32)
}

/// The child numbers of the cross-chain swap key at one index.
pub open spec fn spec_lendaswap_path(index: u32) -> Seq<u32> {
    seq![(83696968 + 0x8000_0000) as u32, (121923 + 0x8000_0000) as u32].push(index)
}

/// The child numbers of the lending platform's authentication key.
pub open spec fn spec_lendasat_auth_path() -> Seq<u32> {
    seq![(10101 + 0x8000_0000) as u32, 0x8000_0000u32, 0u32]
}

/// The child numbers of the public-identity key.
pub open spec fn spec_nostr_path() -> Seq<u32> {
    seq![(44 + 0x8000_0000) as u32, (1237 + 0x8000_0000) as u32, 0x8000_0000u32, 0u32, 0u32]
}

/// No two subsystems share a derivation path, and no funds-bearing Ark or
/// swap path coincides with the authentication or identity path: a leak of
/// one subsystem's key material cannot expose another's.
pub proof fn lemma_subsystem_paths_distinct(ark_index: u32, swap_index: u32)
    ensures
        spec_ark_base_path().push(ark_index) != spec_lendaswap_path(swap_index),
        spec_ark_base_path().push(ark_index) != spec_lendasat_auth_path(),
        spec_ark_base_path().push(ark_index) != spec_nostr_path(),
        spec_lendaswap_path(swap_index) != spec_lendasat_auth_path(),
        spec_lendaswap_path(swap_index) != spec_nostr_path(),
        spec_lendasat_auth_path() != spec_nostr_path(),
        spec_ark_identity_path() == spec_ark_base_path().push(0u32),
{
    assert(spec_ark_base_path().push(ark_index)[1] != spec_lendaswap_path(swap_index)[1]);
    assert(spec_ark_base_path().push(ark_index)[0] != spec_lendasat_auth_path()[0]);
    assert(spec_ark_base_path().push(ark_index)[0] != spec_nostr_path()[0]);
    assert(spec_lendaswap_path(swap_index)[0] != spec_lendasat_auth_path()[0]);
    assert(spec_lendaswap_path(swap_index)[0] != spec_nostr_path()[0]);
    assert(spec_lendasat_auth_path()[0] != spec_nostr_path()[0]);
}

/// Deriving at a fixed path from a fixed seed names one key: two
/// derivations of the same path from the same mnemonic agree.
pub proof fn lemma_derivation_deterministic(
    a: Seq<u8>,
    b: Seq<u8>,
    words: Seq<char>,
    path: Seq<u32>,
    mainnet: bool,
)
    requires
        a == spec_secret_key_at(words, path, mainnet),
        b == spec_secret_key_at(words, path, mainnet),
    ensures
        a == b,
{
}

impl DerivationPath {
    /// The path as child numbers.
    pub open spec fn view(&self) -> Seq<u32> {
        self.components@
    }

    /// Clone the path.
    pub fn clone_path(&self) -> (r: DerivationPath)
        ensures
            r@ == self@,
    {
        let mut c: Vec<u32> = Vec::new();
        let mut i: usize = 0;
        while i < self.components.len()
            invariant
                i <= self.components@.len(),
                c@ =~= self.components@.subrange(0, i as int),
            decreases self.components@.len() - i,
        {
            c.push(self.components[i]);
            i += 1;
        }
        proof {
            assert(self.components@.subrange(0, self.components@.len() as int)
                =~= self.components@);
        }
        DerivationPath { components: c }
    }

    /// Whether two paths are the same sequence of child numbers.
    pub fn equals(&self, other: &DerivationPath) -> (r: bool)
        ensures
            r == (self@ == other@),
    {
        if self.components.len() != other.components.len() {
            proof {
                if self@ == other@ {
                    assert(self@.len() == other@.len());
                }
            }
            return false;
        }
        let n = self.components.len();
        let mut i: usize = 0;
        while i < n
            invariant
                n == self.components@.len() == other.components@.len(),
                i <= n,
                forall|j: int| 0 <= j < i ==> self.components@[j] == other.components@[j],
            decreases n - i,
        {
            if self.components[i] != other.components[i] {
                return false;
            }
            i += 1;
        }
        proof {
            assert(self@ =~= other@);
        }
        true
    }

    /// The path extended by one child.
    pub fn child(&self, index: u32) -> (r: DerivationPath)
        ensures
            r@ == self@.push(index),
    {
        let mut c = self.clone_path();
        c.components.push(index);
        c
    }
}

/// The maximal prefix of `s` that is decimal digits.
pub open spec fn spec_digits_len(s: Seq<u8>) -> int
    decreases s.len(),
{
    if s.len() == 0 || !(48 <= s[0] <= 57) {
        0
    } else {
        1 + spec_digits_len(s.drop_first())
    }
}

/// The value of the first `n` digits of `s`.
pub open spec fn spec_digits_val(s: Seq<u8>, n: int) -> int
    decreases n,
{
    if n <= 0 {
        0
    } else {
        spec_digits_val(s, n - 1) * 10 + (s[n - 1] - 48)
    }
}

/// The child numbers written in `s`, which must be a run of
/// `/ <digits> ['|h]` groups; `None` where the grammar or the index range is
/// broken.
pub open spec fn spec_parse_components(s: Seq<u8>) -> Option<Seq<u32>>
    decreases s.len(),
    via spec_parse_components_decreases
{
    if s.len() == 0 {
        Some(Seq::empty())
    } else if s[0] != 47 {
        None
    } else {
        let rest = s.drop_first();
        let n = spec_digits_len(rest);
        if n == 0 || spec_digits_val(rest, n) >= 0x8000_0000 {
            None
        } else {
            let v = spec_digits_val(rest, n) as u32;
            let after = rest.skip(n);
            if after.len() > 0 && (after[0] == 39 || after[0] == 104) {
                match spec_parse_components(after.drop_first()) {
                    Some(t) => Some(seq![(v + 0x8000_0000) as u32] + t),
                    None => None,
                }
            } else {
                match spec_parse_components(after) {
                    Some(t) => Some(seq![v] + t),
                    None => None,
                }
            }
        }
    }
}

#[via_fn]
proof fn spec_parse_components_decreases(s: Seq<u8>) {
    if s.len() > 0 && s[0] == 47 {
        lemma_digits_len_bound(s.drop_first());
    }
}

/// The derivation path written in `s`: the letter `m`, then child groups.
pub open spec fn spec_parse_path(s: Seq<u8>) -> Option<Seq<u32>> {
    if s.len() == 0 || s[0] != 109 {
        None
    } else {
        spec_parse_components(s.drop_first())
    }
}

/// A digit-run value is never negative.
proof fn lemma_digits_val_nonneg(s: Seq<u8>, n: int)
    requires
        0 <= n,
        forall|j: int| 0 <= j < n ==> 48 <= #[trigger] s[j] <= 57,
    ensures
        spec_digits_val(s, n) >= 0,
    decreases n,
{
    if n > 0 {
        lemma_digits_val_nonneg(s, n - 1);
        assert(spec_digits_val(s, n - 1) * 10 >= 0) by (nonlinear_arith)
            requires
                spec_digits_val(s, n - 1) >= 0,
        ;
    }
}


/// Every byte inside the digit run is a digit.
proof fn lemma_digits_len_index(s: Seq<u8>)
    ensures
        forall|j: int| 0 <= j < spec_digits_len(s) ==> 48 <= #[trigger] s[j] <= 57,
    decreases s.len(),
{
    lemma_digits_len_bound(s);
    if s.len() > 0 && 48 <= s[0] <= 57 {
        lemma_digits_len_index(s.drop_first());
        lemma_digits_len_bound(s.drop_first());
        assert forall|j: int| 0 <= j < spec_digits_len(s) implies 48 <= #[trigger] s[j]
            <= 57 by {
            if j > 0 {
                assert(s.drop_first()[j - 1] == s[j]);
            }
        }
    }
}

/// The digit-run length never exceeds the sequence length.
proof fn lemma_digits_len_bound(s: Seq<u8>)
    ensures
        0 <= spec_digits_len(s) <= s.len(),
    decreases s.len(),
{
    if s.len() > 0 && 48 <= s[0] <= 57 {
        lemma_digits_len_bound(s.drop_first());
    }
}

/// Parse a derivation path such as the subsystem constants above: `m`, then
/// slash-separated child indices below 2^31, an apostrophe or `h` marking a
/// hardened step. Returns `InvalidInput` exactly where the grammar or the
/// index range is broken.
pub fn parse_derivation_path(s: &str) -> (r: Result<DerivationPath, WalletError>)
    ensures
        r is Ok <==> spec_parse_path(s.spec_bytes()) is Some,
        r is Ok ==> Some(r->Ok_0@) == spec_parse_path(s.spec_bytes()),
        r is Err ==> r->Err_0 == WalletError::InvalidInput,
{
    let b = s.as_bytes();
    let n = b.len();
    if n == 0 || b[0] != 109 {
        return Err(WalletError::InvalidInput);
    }
    let mut comps: Vec<u32> = Vec::new();
    let mut pos: usize = 1;
    proof {
        assert(b@.skip(1) =~= b@.drop_first());
        assert(spec_parse_path(b@) is Some ==> Seq::<u32>::empty() + spec_parse_components(
            b@.skip(1),
        )->0 =~= spec_parse_components(b@.skip(1))->0);
    }
    while pos < n
        invariant
            1 <= pos <= n,
            n == b@.len(),
            b@ == s.spec_bytes(),
            spec_parse_path(b@) is Some <==> spec_parse_components(b@.skip(pos as int)) is Some,
            spec_parse_path(b@) is Some ==> spec_parse_path(b@) == Some(
                comps@ + spec_parse_components(b@.skip(pos as int))->0,
            ),
        decreases n - pos,
    {
        let ghost tail = b@.skip(pos as int);
        proof {
            assert(tail.len() == n - pos);
            assert(tail[0] == b@[pos as int]);
        }
        if b[pos] != 47 {
            proof {
                assert(spec_parse_components(tail) is None);
            }
            return Err(WalletError::InvalidInput);
        }
        let mut q: usize = pos + 1;
        let mut val: u64 = 0;
        let mut too_big = false;
        let ghost digits = b@.skip(pos + 1);
        proof {
            lemma_digits_len_bound(digits);
            assert(tail.drop_first() =~= digits);
        }
        while q < n && b[q] >= 48 && b[q] <= 57
            invariant
                pos + 1 <= q <= n,
                n == b@.len(),
                digits == b@.skip(pos + 1),
                q - pos - 1 <= spec_digits_len(digits),
                forall|j: int| 0 <= j < q - pos - 1 ==> 48 <= #[trigger] digits[j] <= 57,
                !too_big ==> val == spec_digits_val(digits, q - pos - 1) && val < 0x8000_0000,
                too_big ==> spec_digits_val(digits, q - pos - 1) >= 0x8000_0000,
                spec_digits_len(digits) <= digits.len(),
            decreases n - q,
        {
            let d = b[q];
            proof {
                assert(digits[q - pos - 1] == b@[q as int]);
                assert(spec_digits_len(digits) > q - pos - 1) by {
                    lemma_digits_run(digits, q - pos - 1);
                }
                assert(spec_digits_val(digits, q - pos) == spec_digits_val(digits, q - pos - 1)
                    * 10 + (digits[q - pos - 1] - 48));
                if too_big {
                    assert(spec_digits_val(digits, q - pos - 1) * 10 >= spec_digits_val(
                        digits,
                        q - pos - 1,
                    )) by (nonlinear_arith)
                        requires
                            spec_digits_val(digits, q - pos - 1) >= 0x8000_0000,
                    ;
                }
            }
            if too_big {
            } else {
                val = val * 10 + ((d - 48) as u64);
                if val >= 0x8000_0000 {
                    too_big = true;
                }
            }
            q += 1;
        }
        proof {
            assert(q - pos - 1 == spec_digits_len(digits)) by {
                if q - pos - 1 < spec_digits_len(digits) {
                    lemma_digits_len_index(digits);
                    lemma_digits_len_bound(digits);
                    assert(48 <= digits[q - pos - 1] <= 57);
                    assert(digits[q - pos - 1] == b@[q as int]);
                }
            }
        }
        if q == pos + 1 || too_big {
            proof {
                assert(tail.drop_first() =~= digits);
                if q == pos + 1 {
                    assert(spec_digits_len(digits) == 0);
                } else {
                    assert(spec_digits_val(digits, spec_digits_len(digits)) >= 0x8000_0000);
                }
                assert(spec_parse_components(tail) is None);
            }
            return Err(WalletError::InvalidInput);
        }
        let mut comp: u32 = val as u32;
        let mut next: usize = q;
        if q < n && (b[q] == 39 || b[q] == 104) {
            comp = comp + HARDENED_BIT;
            next = q + 1;
        }
        proof {
            let nlen = spec_digits_len(digits);
            let after = digits.skip(nlen);
            assert(after =~= b@.skip(q as int));
            if q < n && (b@[q as int] == 39 || b@[q as int] == 104) {
                assert(after.drop_first() =~= b@.skip(q + 1));
                assert(spec_parse_components(tail) matches Some(t) ==> t == seq![comp] +
                    spec_parse_components(b@.skip(next as int))->0);
            }
            assert(spec_parse_components(tail) is Some <==> spec_parse_components(
                b@.skip(next as int),
            ) is Some);
            assert(spec_parse_components(tail) is Some ==> spec_parse_components(tail)->0
                == seq![comp] + spec_parse_components(b@.skip(next as int))->0);
            assert(comps@.push(comp) =~= comps@ + seq![comp]);
            assert(spec_parse_path(b@) is Some ==> spec_parse_path(b@) == Some(
                (comps@ + seq![comp]) + spec_parse_components(b@.skip(next as int))->0,
            ));
            assert(spec_parse_path(b@) is Some ==> (comps@ + seq![comp]) + spec_parse_components(
                b@.skip(next as int),
            )->0 =~= comps@.push(comp) + spec_parse_components(b@.skip(next as int))->0);
        }
        comps.push(comp);
        pos = next;
    }
    proof {
        assert(b@.skip(n as int) =~= Seq::<u8>::empty());
        assert(spec_parse_components(Seq::<u8>::empty()) == Some(Seq::<u32>::empty()));
        assert(comps@ + Seq::<u32>::empty() =~= comps@);
    }
    Ok(DerivationPath { components: comps })
}

/// A digit run longer than `i` has a digit at `i`.
proof fn lemma_digits_run(s: Seq<u8>, i: int)
    requires
        0 <= i < s.len(),
        forall|j: int| 0 <= j < i ==> 48 <= #[trigger] s[j] <= 57,
        48 <= s[i] <= 57,
        spec_digits_len(s) <= s.len(),
    ensures
        spec_digits_len(s) > i,
    decreases i,
{
    lemma_digits_len_bound(s.drop_first());
    if i == 0 {
        assert(spec_digits_len(s) == 1 + spec_digits_len(s.drop_first()));
    } else {
        assert(s.drop_first()[i - 1] == s[i]);
        assert forall|j: int| 0 <= j < i - 1 implies 48 <= #[trigger] s.drop_first()[j]
            <= 57 by {
            assert(s.drop_first()[j] == s[j + 1]);
        }
        lemma_digits_len_bound(s.drop_first());
        lemma_digits_run(s.drop_first(), i - 1);
    }
}


/// A derived secp256k1 keypair: thirty-two secret bytes and the compressed
/// thirty-three-byte public key.
pub struct DerivedKey {
    pub secret_key: Vec<u8>,
    pub public_key: Vec<u8>,
}

impl DerivedKey {
    /// Clone the keypair.
    pub fn clone_key(&self) -> (r: DerivedKey)
        ensures
            r.secret_key@ == self.secret_key@,
            r.public_key@ == self.public_key@,
    {
        DerivedKey {
            secret_key: clone_bytes(&self.secret_key),
            public_key: clone_bytes(&self.public_key),
        }
    }

    /// The x-only form of the public key: the compressed key with its parity
    /// byte stripped, which is how taproot outputs name their owner.
    pub fn x_only_public_key(&self) -> (r: Vec<u8>)
        requires
            self.public_key@.len() >= 1,
        ensures
            r@ == self.public_key@.skip(1),
    {
        let mut out: Vec<u8> = Vec::new();
        let mut i: usize = 1;
        while i < self.public_key.len()
            invariant
                1 <= i <= self.public_key@.len(),
                out@ =~= self.public_key@.subrange(1, i as int),
            decreases self.public_key@.len() - i,
        {
            out.push(self.public_key[i]);
            i += 1;
        }
        proof {
            assert(self.public_key@.subrange(1, self.public_key@.len() as int)
                =~= self.public_key@.skip(1));
        }
        out
    }
}

/// Clone a byte vector, keeping its contents.
pub fn clone_bytes(v: &Vec<u8>) -> (r: Vec<u8>)
    ensures
        r@ == v@,
{
    let mut out: Vec<u8> = Vec::new();
    let mut i: usize = 0;
    while i < v.len()
        invariant
            i <= v@.len(),
            out@ =~= v@.subrange(0, i as int),
        decreases v@.len() - i,
    {
        out.push(v[i]);
        i += 1;
    }
    proof {
        assert(v@.subrange(0, v@.len() as int) =~= v@);
    }
    out
}

/// The normalized word string of the mnemonic written in `words`, when those
/// words are a valid BIP-39 mnemonic; what bip39's parse accepts and prints.
pub uninterp spec fn spec_parsed_mnemonic(words: Seq<char>) -> Option<Seq<char>>;

/// The mnemonic is one that bip39 accepts.
pub open spec fn spec_mnemonic_valid(words: Seq<char>) -> bool {
    spec_parsed_mnemonic(words) is Some
}

/// The sixty-four-byte BIP-39 seed of the mnemonic written in `words`, with
/// an empty passphrase.
pub uninterp spec fn spec_seed_of(words: Seq<char>) -> Seq<u8>;

/// The base58 string of the master extended private key of that seed.
pub uninterp spec fn spec_master_xpriv_str(words: Seq<char>, mainnet: bool) -> Seq<char>;

/// The base58 string of the extended private key at `path` under that seed.
pub uninterp spec fn spec_xpriv_str_at(words: Seq<char>, path: Seq<u32>, mainnet: bool) -> Seq<
    char,
>;

/// The thirty-two secret-key bytes derived at `path` under that seed.
pub uninterp spec fn spec_secret_key_at(words: Seq<char>, path: Seq<u32>, mainnet: bool) -> Seq<
    u8,
>;

/// The compressed public key of a secret key.
pub uninterp spec fn spec_public_key_of(secret: Seq<u8>) -> Seq<u8>;

/// Whether deriving at `path` under the seed of the mnemonic succeeds: the
/// words are a mnemonic bip39 accepts and no child-key derivation step is
/// rejected. Deterministic in its arguments; the wrappers that parse the
/// mnemonic and walk the path decide it.
pub uninterp spec fn spec_derivation_ok(words: Seq<char>, path: Seq<u32>, mainnet: bool) -> bool;

/// Whether secp256k1 accepts these bytes as a secret key: thirty-two bytes
/// encoding a valid scalar.
pub uninterp spec fn spec_is_valid_secret_key(secret: Seq<u8>) -> bool;

/// Whether secp256k1 accepts these bytes as a public key.
pub uninterp spec fn spec_is_valid_public_key(public: Seq<u8>) -> bool;

/// The DER signature of ECDSA over the SHA-256 hash of the message, signed
/// with the secret key; rfc6979 makes it a function of its inputs.
pub uninterp spec fn spec_ecdsa_der_sig(secret: Seq<u8>, message: Seq<char>) -> Seq<u8>;

/// Whether the DER signature verifies under ECDSA over the SHA-256 hash of
/// the message against the public key.
pub uninterp spec fn spec_ecdsa_verifies(
    public: Seq<u8>,
    message: Seq<char>,
    der_sig: Seq<u8>,
) -> bool;

/// Whether these bytes parse as a DER ECDSA signature.
pub uninterp spec fn spec_is_valid_der_sig(der_sig: Seq<u8>) -> bool;

/// Relies on bip39's Mnemonic::parse: accepts a valid phrase of twelve up
/// to twenty-four words after trimming, and prints it back normalized.
/// Normalization is idempotent: the printed words parse again and print
/// unchanged.
#[verifier::external_body]
pub fn parse_mnemonic(words: &str) -> (r: Result<String, WalletError>)
    ensures
        r is Ok <==> spec_mnemonic_valid(words@),
        r is Ok ==> Some(r->Ok_0@) == spec_parsed_mnemonic(words@),
        r is Ok ==> spec_parsed_mnemonic(r->Ok_0@) == Some(r->Ok_0@),
        r is Err ==> r->Err_0 == WalletError::InvalidInput,
{
    match bip39::Mnemonic::parse(words.trim()) {
        Ok(m) => Ok(m.to_string()),
        Err(_) => Err(WalletError::InvalidInput),
    }
}

/// Relies on bip39's Mnemonic::generate: twelve fresh words from the
/// operating system's randomness. Nothing is promised of which words come
/// back, only that bip39 accepts its own printed output and prints it back
/// unchanged.
#[verifier::external_body]
pub fn generate_mnemonic() -> (r: Result<String, WalletError>)
    ensures
        r is Ok ==> spec_mnemonic_valid(r->Ok_0@),
        r is Ok ==> spec_parsed_mnemonic(r->Ok_0@) == Some(r->Ok_0@),
{
    match bip39::Mnemonic::generate(bip39::WordCount::Words12) {
        Ok(m) => Ok(m.to_string()),
        Err(_) => Err(WalletError::SigningFailure),
    }
}

/// Relies on bip39's Mnemonic::to_seed: the sixty-four-byte seed of the
/// mnemonic with an empty passphrase.
#[verifier::external_body]
pub fn mnemonic_to_seed(words: &str) -> (r: Result<Vec<u8>, WalletError>)
    ensures
        r is Ok <==> spec_mnemonic_valid(words@),
        r is Ok ==> r->Ok_0@ == spec_seed_of(words@) && r->Ok_0@.len() == 64,
        r is Err ==> r->Err_0 == WalletError::InvalidInput,
{
    match bip39::Mnemonic::parse(words.trim()) {
        Ok(m) => Ok(m.to_seed("").to_vec()),
        Err(_) => Err(WalletError::InvalidInput),
    }
}

/// Relies on bitcoin's Xpriv::new_master over the bip39 seed: the base58
/// form of the master extended private key.
#[verifier::external_body]
pub fn derive_master_xpriv(words: &str, mainnet: bool) -> (r: Result<String, WalletError>)
    ensures
        r is Ok <==> spec_mnemonic_valid(words@),
        r is Ok ==> r->Ok_0@ == spec_master_xpriv_str(words@, mainnet),
{
    let m = Mnemonic::parse(words.trim()).map_err(|_| WalletError::InvalidInput)?;
    let net = if mainnet { NetworkKind::Main } else { NetworkKind::Test };
    let master = Xpriv::new_master(net, &m.to_seed("")).map_err(|_| WalletError::SigningFailure)?;
    Ok(master.to_string())
}

/// Relies on bitcoin's Xpriv::derive_priv under the master key of the bip39
/// seed: the base58 form of the extended private key at the path.
#[verifier::external_body]
pub fn derive_xpriv_at_path(words: &str, path: &DerivationPath, mainnet: bool) -> (r: Result<
    String,
    WalletError,
>)
    ensures
        r is Ok <==> spec_derivation_ok(words@, path@, mainnet),
        r is Ok ==> r->Ok_0@ == spec_xpriv_str_at(words@, path@, mainnet),
        !spec_mnemonic_valid(words@) ==> r is Err,
{
    let m = Mnemonic::parse(words.trim()).map_err(|_| WalletError::InvalidInput)?;
    let net = if mainnet { NetworkKind::Main } else { NetworkKind::Test };
    let master = Xpriv::new_master(net, &m.to_seed("")).map_err(|_| WalletError::SigningFailure)?;
    let comps: Vec<ChildNumber> = path.components.iter().map(|c| ChildNumber::from(*c)).collect();
    let secp = Secp256k1::new();
    let derived = master.derive_priv(&secp, &comps).map_err(|_| WalletError::SigningFailure)?;
    Ok(derived.to_string())
}

/// Relies on bitcoin's Xpriv::derive_priv and Keypair::from_secret_key: the
/// keypair at the path under the master key of the bip39 seed.
#[verifier::external_body]
pub fn derive_keypair_at_path(words: &str, path: &DerivationPath, mainnet: bool) -> (r: Result<
    DerivedKey,
    WalletError,
>)
    ensures
        r is Ok <==> spec_derivation_ok(words@, path@, mainnet),
        r is Ok ==> {
            let k = r->Ok_0;
            &&& k.secret_key@ == spec_secret_key_at(words@, path@, mainnet)
            &&& k.public_key@ == spec_public_key_of(spec_secret_key_at(words@, path@, mainnet))
            &&& k.secret_key@.len() == 32
            &&& k.public_key@.len() == 33
        },
        !spec_mnemonic_valid(words@) ==> r is Err,
{
    let m = Mnemonic::parse(words.trim()).map_err(|_| WalletError::InvalidInput)?;
    let net = if mainnet { NetworkKind::Main } else { NetworkKind::Test };
    let master = Xpriv::new_master(net, &m.to_seed("")).map_err(|_| WalletError::SigningFailure)?;
    let comps: Vec<ChildNumber> = path.components.iter().map(|c| ChildNumber::from(*c)).collect();
    let secp = Secp256k1::new();
    let derived = master.derive_priv(&secp, &comps).map_err(|_| WalletError::SigningFailure)?;
    let kp = Keypair::from_secret_key(&secp, &derived.private_key);
    Ok(DerivedKey {
        secret_key: kp.secret_bytes().to_vec(),
        public_key: kp.public_key().serialize().to_vec(),
    })
}

/// Relies on secp256k1's sign_ecdsa over the SHA-256 hash of the message:
/// the DER-encoded signature, deterministic per rfc6979. Fails exactly when
/// the secret key is rejected. A fresh signature parses as DER and verifies
/// under the signer's public key, which is itself a valid key.
#[verifier::external_body]
pub fn ecdsa_sign_sha256(secret: &Vec<u8>, message: &str) -> (r: Result<Vec<u8>, WalletError>)
    ensures
        r is Ok <==> spec_is_valid_secret_key(secret@),
        r is Ok ==> r->Ok_0@ == spec_ecdsa_der_sig(secret@, message@),
        r is Ok ==> spec_is_valid_der_sig(r->Ok_0@),
        r is Ok ==> spec_is_valid_public_key(spec_public_key_of(secret@)),
        r is Ok ==> spec_ecdsa_verifies(spec_public_key_of(secret@), message@, r->Ok_0@),
        r is Err ==> r->Err_0 == WalletError::SigningFailure,
{
    let sk = bitcoin::secp256k1::SecretKey::from_slice(secret)
        .map_err(|_| WalletError::SigningFailure)?;
    let digest = bitcoin::hashes::sha256::Hash::hash(message.as_bytes());
    let msg = bitcoin::secp256k1::Message::from_digest(digest.to_byte_array());
    let secp = bitcoin::secp256k1::Secp256k1::new();
    let sig = secp.sign_ecdsa(&msg, &sk);
    Ok(sig.serialize_der().to_vec())
}

/// Relies on secp256k1's verify_ecdsa over the SHA-256 hash of the message.
/// Fails exactly when the public key or the DER signature is rejected;
/// otherwise says whether the signature verifies.
#[verifier::external_body]
pub fn ecdsa_verify_sha256(public: &Vec<u8>, message: &str, der_sig: &Vec<u8>) -> (r: Result<
    bool,
    WalletError,
>)
    ensures
        r is Ok <==> (spec_is_valid_public_key(public@) && spec_is_valid_der_sig(der_sig@)),
        r is Ok ==> r->Ok_0 == spec_ecdsa_verifies(public@, message@, der_sig@),
        r is Err ==> r->Err_0 == WalletError::InvalidInput,
{
    let pk = bitcoin::secp256k1::PublicKey::from_slice(public)
        .map_err(|_| WalletError::InvalidInput)?;
    let sig = bitcoin::secp256k1::ecdsa::Signature::from_der(der_sig)
        .map_err(|_| WalletError::InvalidInput)?;
    let digest = bitcoin::hashes::sha256::Hash::hash(message.as_bytes());
    let msg = bitcoin::secp256k1::Message::from_digest(digest.to_byte_array());
    let secp = bitcoin::secp256k1::Secp256k1::new();
    Ok(secp.verify_ecdsa(&msg, &sig, &pk).is_ok())
}

/// The derivation path used for the lending platform's authentication key:
/// the platform path with one normal child.
pub fn get_derivation_path() -> (r: String)
    ensures
        r@ == "m/10101'/0'/0"@,
{
    String::from_str("m/10101'/0'/0")
}

/// Sign an authentication challenge: SHA-256 then ECDSA with the given
/// secret key, the signature returned DER-encoded in hex.
pub fn sign_message(message: &str, secret: &Vec<u8>) -> (r: Result<String, WalletError>)
    ensures
        r is Ok <==> spec_is_valid_secret_key(secret@),
        r is Ok ==> r->Ok_0@ == spec_hex_of(spec_ecdsa_der_sig(secret@, message@)),
        r is Ok ==> spec_is_valid_der_sig(spec_ecdsa_der_sig(secret@, message@))
            && spec_is_valid_public_key(spec_public_key_of(secret@)) && spec_ecdsa_verifies(
            spec_public_key_of(secret@),
            message@,
            spec_ecdsa_der_sig(secret@, message@),
        ),
        r is Err ==> r->Err_0 == WalletError::SigningFailure,
{
    let sig = ecdsa_sign_sha256(secret, message)?;
    Ok(to_hex(sig.as_slice()))
}

/// Verify a hex signature over a message against a hex public key: the
/// counterpart of `sign_message`, used by tests and the login flow.
pub fn verify_signature(pubkey_hex: &str, message: &str, signature_hex: &str) -> (r: Result<
    bool,
    WalletError,
>)
    ensures
        r is Ok <==> crate::hexutil::spec_valid_hex(pubkey_hex@) && crate::hexutil::spec_valid_hex(
            signature_hex@,
        ) && spec_is_valid_public_key(crate::hexutil::spec_hex_decode(pubkey_hex@))
            && spec_is_valid_der_sig(crate::hexutil::spec_hex_decode(signature_hex@)),
        r is Ok ==> r->Ok_0 == spec_ecdsa_verifies(
            crate::hexutil::spec_hex_decode(pubkey_hex@),
            message@,
            crate::hexutil::spec_hex_decode(signature_hex@),
        ),
{
    let public = crate::hexutil::from_hex(pubkey_hex)?;
    let der = crate::hexutil::from_hex(signature_hex)?;
    ecdsa_verify_sha256(&public, message, &der)
}

/// The single root of all key material: one validated mnemonic, the network
/// it serves, and an in-memory cache of keys already derived from it. The
/// cache is tied to the identity: replacing the mnemonic empties it, so a
/// stale key can never sign on behalf of a new identity.
pub struct KeyAuthority {
    words: String,
    mainnet: bool,
    cache: Vec<(DerivationPath, DerivedKey)>,
}

impl KeyAuthority {
    /// The mnemonic words the authority derives from.
    pub closed spec fn spec_words(self) -> Seq<char> {
        self.words@
    }

    /// Which network the authority derives for.
    pub closed spec fn spec_mainnet(self) -> bool {
        self.mainnet
    }

    /// How many keys are cached.
    pub closed spec fn spec_cache_len(self) -> int {
        self.cache@.len() as int
    }

    /// The mnemonic is valid and every cached key is the key of its path
    /// under the current mnemonic: the cache can never serve a key of an
    /// earlier identity.
    pub closed spec fn wf(self) -> bool {
        &&& spec_mnemonic_valid(self.words@)
        &&& forall|k: int|
            0 <= k < self.cache@.len() ==> {
                let e = #[trigger] self.cache@[k];
                e.1.secret_key@ == spec_secret_key_at(self.words@, e.0@, self.mainnet)
                    && e.1.public_key@ == spec_public_key_of(
                    spec_secret_key_at(self.words@, e.0@, self.mainnet),
                ) && spec_derivation_ok(self.words@, e.0@, self.mainnet)
            }
    }

    /// Build an authority from mnemonic words, rejecting an invalid
    /// mnemonic. The cache starts empty.
    pub fn new(words: String, mainnet: bool) -> (r: Result<KeyAuthority, WalletError>)
        ensures
            r is Ok <==> spec_mnemonic_valid(words@),
            r is Ok ==> {
                let a = r->Ok_0;
                &&& a.wf()
                &&& a.spec_words() == words@
                &&& a.spec_mainnet() == mainnet
                &&& a.spec_cache_len() == 0
            },
            r is Err ==> r->Err_0 == WalletError::InvalidInput,
    {
        match parse_mnemonic(words.as_str()) {
            Ok(_) => Ok(KeyAuthority { words, mainnet, cache: Vec::new() }),
            Err(_) => Err(WalletError::InvalidInput),
        }
    }

    /// Derive the key at a path, serving it from the cache when it was
    /// derived before; deterministic, so the cached key equals a fresh one.
    /// Succeeds exactly where deriving at the path under the current
    /// mnemonic succeeds.
    pub fn derive(&mut self, path: &DerivationPath) -> (r: Result<DerivedKey, WalletError>)
        requires
            old(self).wf(),
        ensures
            final(self).wf(),
            final(self).spec_words() == old(self).spec_words(),
            final(self).spec_mainnet() == old(self).spec_mainnet(),
            r is Ok <==> spec_derivation_ok(
                old(self).spec_words(),
                path@,
                old(self).spec_mainnet(),
            ),
            r is Ok ==> {
                let k = r->Ok_0;
                &&& k.secret_key@ == spec_secret_key_at(
                    old(self).spec_words(),
                    path@,
                    old(self).spec_mainnet(),
                )
                &&& k.public_key@ == spec_public_key_of(
                    spec_secret_key_at(old(self).spec_words(), path@, old(self).spec_mainnet()),
                )
            },
    {
        let mut i: usize = 0;
        while i < self.cache.len()
            invariant
                self.wf(),
                i <= self.cache@.len(),
            decreases self.cache@.len() - i,
        {
            if self.cache[i].0.equals(path) {
                return Ok(self.cache[i].1.clone_key());
            }
            i += 1;
        }
        let key = derive_keypair_at_path(self.words.as_str(), path, self.mainnet)?;
        let kept = key.clone_key();
        self.cache.push((path.clone_path(), kept));
        Ok(key)
    }

    /// Replace the identity: the new mnemonic is validated, and the cache is
    /// emptied in the same step, so no later derivation can see a key of the
    /// old identity.
    pub fn reset(&mut self, words: String, mainnet: bool) -> (r: Result<(), WalletError>)
        ensures
            r is Ok <==> spec_mnemonic_valid(words@),
            r is Ok ==> final(self).wf() && final(self).spec_words() == words@,
            r is Ok ==> final(self).spec_mainnet() == mainnet && final(self).spec_cache_len()
                == 0,
            r is Err ==> *final(self) == *old(self) && r->Err_0 == WalletError::InvalidInput,
    {
        match parse_mnemonic(words.as_str()) {
            Ok(_) => {
                self.words = words;
                self.mainnet = mainnet;
                self.cache = Vec::new();
                Ok(())
            },
            Err(_) => Err(WalletError::InvalidInput),
        }
    }

    /// How many keys the cache holds; zero right after a reset.
    pub fn cached_count(&self) -> (r: usize)
        ensures
            r == self.spec_cache_len(),
    {
        self.cache.len()
    }
}


/// Relies on secp256k1's SecretKey::from_slice: whether the bytes are a
/// valid secret key.
#[verifier::external_body]
pub fn is_valid_secret_key(secret: &Vec<u8>) -> (r: bool)
    ensures
        r == spec_is_valid_secret_key(secret@),
{
    bitcoin::secp256k1::SecretKey::from_slice(secret).is_ok()
}

/// Relies on secp256k1's PublicKey::from_slice: whether the bytes are a
/// valid public key.
#[verifier::external_body]
pub fn is_valid_public_key(public: &Vec<u8>) -> (r: bool)
    ensures
        r == spec_is_valid_public_key(public@),
{
    bitcoin::secp256k1::PublicKey::from_slice(public).is_ok()
}

} // verus!
