use vstd::prelude::*;
use crate::errors::WalletError;
use crate::keys::{
    clone_bytes, derive_keypair_at_path, spec_derivation_ok, spec_mnemonic_valid,
    spec_public_key_of, spec_secret_key_at, DerivationPath, DerivedKey,
};

verus! {

/// Whether the pool key at one index is the key derived at the base path's
/// child of that index.
pub open spec fn spec_pool_key_ok(
    words: Seq<char>,
    base: Seq<u32>,
    mainnet: bool,
    index: int,
    key: DerivedKey,
) -> bool {
    &&& key.secret_key@ == spec_secret_key_at(words, base.push(index as u32), mainnet)
    &&& key.public_key@ == spec_public_key_of(
        spec_secret_key_at(words, base.push(index as u32), mainnet),
    )
}

/// The lowest index not yet marked used, or the pool length when all are.
pub open spec fn spec_first_unused(used: Seq<bool>) -> int
    decreases used.len(),
{
    if used.len() == 0 {
        0
    } else if !used[0] {
        0
    } else {
        1 + spec_first_unused(used.drop_first())
    }
}

/// The first unused slot sits inside the pool or right after it, and really
/// is the first.
proof fn lemma_first_unused(used: Seq<bool>)
    ensures
        0 <= spec_first_unused(used) <= used.len(),
        spec_first_unused(used) < used.len() ==> !used[spec_first_unused(used)],
        forall|j: int| 0 <= j < spec_first_unused(used) ==> used[j],
    decreases used.len(),
{
    if used.len() > 0 && used[0] {
        lemma_first_unused(used.drop_first());
        assert forall|j: int| 0 <= j < spec_first_unused(used) implies used[j] by {
            if j > 0 {
                assert(used.drop_first()[j - 1] == used[j]);
            }
        }
        if spec_first_unused(used) < used.len() {
            assert(used.drop_first()[spec_first_unused(used) - 1] == used[spec_first_unused(
                used,
            )]);
        }
    }
}

/// Whether a pool key answers an x-only query: a received output's locking
/// key is the thirty-two x-coordinate bytes, which are the stored
/// thirty-three-byte compressed key with its parity byte stripped.
pub open spec fn spec_xonly_matches(pool_key: Seq<u8>, query: Seq<u8>) -> bool {
    pool_key.len() == query.len() + 1 && pool_key.skip(1) == query
}

/// The lowest pool index whose key answers the x-only query, or the pool
/// length when none does.
pub open spec fn spec_first_pk_index(pool: Seq<DerivedKey>, pk: Seq<u8>) -> int
    decreases pool.len(),
{
    if pool.len() == 0 {
        0
    } else if spec_xonly_matches(pool[0].public_key@, pk) {
        0
    } else {
        1 + spec_first_pk_index(pool.drop_first(), pk)
    }
}

/// Where the first matching index sits: inside the pool or right after it,
/// answering the query and with no earlier match.
proof fn lemma_first_pk_index(pool: Seq<DerivedKey>, pk: Seq<u8>)
    ensures
        0 <= spec_first_pk_index(pool, pk) <= pool.len(),
        spec_first_pk_index(pool, pk) < pool.len() ==> spec_xonly_matches(
            pool[spec_first_pk_index(pool, pk)].public_key@,
            pk,
        ),
        forall|j: int|
            0 <= j < spec_first_pk_index(pool, pk) ==> !spec_xonly_matches(
                pool[j].public_key@,
                pk,
            ),
    decreases pool.len(),
{
    if pool.len() > 0 && !spec_xonly_matches(pool[0].public_key@, pk) {
        lemma_first_pk_index(pool.drop_first(), pk);
        assert forall|j: int| 0 <= j < spec_first_pk_index(pool, pk) implies !spec_xonly_matches(
            pool[j].public_key@,
            pk,
        ) by {
            if j > 0 {
                assert(pool.drop_first()[j - 1] == pool[j]);
            }
        }
        if spec_first_pk_index(pool, pk) < pool.len() {
            assert(pool.drop_first()[spec_first_pk_index(pool, pk) - 1] == pool[
                spec_first_pk_index(pool, pk)]);
        }
    }
}

/// The index a forward scan stops at is the first matching index.
proof fn lemma_first_pk_index_witness(pool: Seq<DerivedKey>, pk: Seq<u8>, i: int)
    requires
        0 <= i <= pool.len(),
        forall|j: int|
            0 <= j < i ==> !spec_xonly_matches((#[trigger] pool[j]).public_key@, pk),
        i < pool.len() ==> spec_xonly_matches(pool[i].public_key@, pk),
    ensures
        spec_first_pk_index(pool, pk) == i,
    decreases i,
{
    if pool.len() == 0 {
    } else if i == 0 {
    } else {
        assert forall|j: int| 0 <= j < i - 1 implies !spec_xonly_matches(
            (#[trigger] pool.drop_first()[j]).public_key@,
            pk,
        ) by {
            assert(pool.drop_first()[j] == pool[j + 1]);
        }
        if i < pool.len() {
            assert(pool.drop_first()[i - 1] == pool[i]);
        }
        lemma_first_pk_index_witness(pool.drop_first(), pk, i - 1);
    }
}

/// Whether the stored key answers the x-only query.
pub fn xonly_matches(pool_key: &Vec<u8>, query: &Vec<u8>) -> (r: bool)
    ensures
        r == spec_xonly_matches(pool_key@, query@),
{
    if pool_key.len() == 0 || pool_key.len() - 1 != query.len() {
        return false;
    }
    let n = query.len();
    let mut j: usize = 0;
    while j < n
        invariant
            j <= n,
            n == query@.len(),
            pool_key@.len() == n + 1,
            forall|k: int| 0 <= k < j ==> pool_key@[k + 1] == query@[k],
        decreases n - j,
    {
        if pool_key[j + 1] != query[j] {
            proof {
                assert(pool_key@.skip(1)[j as int] == pool_key@[j + 1]);
            }
            return false;
        }
        j += 1;
    }
    proof {
        assert(pool_key@.skip(1) =~= query@);
    }
    true
}

/// A hierarchical key provider: a mnemonic, a base path, and a growing pool
/// of keys, one per child index, with a used mark per key.
pub struct HdProvider {
    words: String,
    mainnet: bool,
    base: DerivationPath,
    keys: Vec<DerivedKey>,
    used: Vec<bool>,
}

/// A fixed-key provider for wallets created before the hierarchical
/// migration: one keypair, one used mark.
pub struct LegacyProvider {
    key: DerivedKey,
    used: bool,
}

/// One signer abstraction over both wallet generations, so the protocol
/// layer above is unaware which is active.
pub enum UnifiedKeyProvider {
    Hd(HdProvider),
    Legacy(LegacyProvider),
}

impl HdProvider {
    /// Build a hierarchical provider over a validated mnemonic and base path.
    pub fn new(words: String, mainnet: bool, base: DerivationPath) -> (r: Result<
        HdProvider,
        WalletError,
    >)
        ensures
            r is Ok <==> spec_mnemonic_valid(words@),
            r is Ok ==> {
                let p = r->Ok_0;
                &&& p.wf()
                &&& p.spec_pool().len() == 0
                &&& p.spec_words() == words@
                &&& p.spec_base() == base@
                &&& p.spec_mainnet() == mainnet
            },
            r is Err ==> r->Err_0 == WalletError::InvalidInput,
    {
        match crate::keys::parse_mnemonic(words.as_str()) {
            Ok(_) => Ok(HdProvider { words, mainnet, base, keys: Vec::new(), used: Vec::new() }),
            Err(_) => Err(WalletError::InvalidInput),
        }
    }

    /// The mnemonic the pool derives from.
    pub closed spec fn spec_words(self) -> Seq<char> {
        self.words@
    }

    /// The base path the pool hangs off.
    pub closed spec fn spec_base(self) -> Seq<u32> {
        self.base@
    }

    /// Which network the keys serve.
    pub closed spec fn spec_mainnet(self) -> bool {
        self.mainnet
    }

    /// The derived keys, one per child index from zero up.
    pub closed spec fn spec_pool(self) -> Seq<DerivedKey> {
        self.keys@
    }

    /// The used marks, parallel to the pool.
    pub closed spec fn spec_used(self) -> Seq<bool> {
        self.used@
    }

    /// The mnemonic is valid, marks parallel the pool, and every pool key is
    /// the key of its index under the base path.
    pub closed spec fn wf(self) -> bool {
        &&& spec_mnemonic_valid(self.words@)
        &&& self.keys@.len() == self.used@.len()
        &&& self.keys@.len() <= u32::MAX
        &&& forall|i: int|
            0 <= i < self.keys@.len() ==> spec_pool_key_ok(
                self.words@,
                self.base@,
                self.mainnet,
                i,
                #[trigger] self.keys@[i],
            )
    }
}

impl LegacyProvider {
    /// Build a fixed-key provider over one keypair.
    pub fn new(key: DerivedKey) -> (r: LegacyProvider)
        ensures
            r.spec_key().secret_key@ == key.secret_key@,
            r.spec_key().public_key@ == key.public_key@,
            !r.spec_used(),
    {
        LegacyProvider { key, used: false }
    }

    /// The one keypair.
    pub closed spec fn spec_key(self) -> DerivedKey {
        self.key
    }

    /// Whether it was marked used.
    pub closed spec fn spec_used(self) -> bool {
        self.used
    }
}

impl UnifiedKeyProvider {
    /// The keys the provider has handed out or can look up: the whole pool
    /// of a hierarchical provider, the one key of a legacy provider.
    pub open spec fn spec_pool(self) -> Seq<DerivedKey> {
        match self {
            UnifiedKeyProvider::Hd(h) => h.spec_pool(),
            UnifiedKeyProvider::Legacy(l) => seq![l.spec_key()],
        }
    }

    /// The used marks, parallel to the pool.
    pub open spec fn spec_used(self) -> Seq<bool> {
        match self {
            UnifiedKeyProvider::Hd(h) => h.spec_used(),
            UnifiedKeyProvider::Legacy(l) => seq![l.spec_used()],
        }
    }

    /// Both variants keep their own shape.
    pub open spec fn wf(self) -> bool {
        match self {
            UnifiedKeyProvider::Hd(h) => h.wf(),
            UnifiedKeyProvider::Legacy(l) => true,
        }
    }

    /// Whether balance discovery by index is possible: only the hierarchical
    /// wallet can derive fresh keys.
    pub fn supports_discovery(&self) -> (r: bool)
        ensures
            r == (self is Hd),
    {
        matches!(self, UnifiedKeyProvider::Hd(_))
    }

    /// The next unused keypair: the lowest unmarked slot, which a
    /// hierarchical provider extends the pool to reach when every key is
    /// marked. The returned slot is marked used.
    pub fn get_next_keypair(&mut self) -> (r: Result<DerivedKey, WalletError>)
        requires
            old(self).wf(),
        ensures
            final(self).wf(),
            r is Ok <==> ({
                let u = old(self).spec_used();
                spec_first_unused(u) < u.len() || ((*old(self)) is Hd && u.len() < u32::MAX
                    && spec_derivation_ok(
                    ((*old(self))->Hd_0).spec_words(),
                    ((*old(self))->Hd_0).spec_base().push(u.len() as u32),
                    ((*old(self))->Hd_0).spec_mainnet(),
                ))
            }),
            r is Ok ==> {
                let i = spec_first_unused(old(self).spec_used());
                &&& final(self).spec_pool().len() == if i < old(self).spec_pool().len() {
                    old(self).spec_pool().len()
                } else {
                    old(self).spec_pool().len() + 1
                }
                &&& final(self).spec_used() == if i < old(self).spec_used().len() {
                    old(self).spec_used().update(i, true)
                } else {
                    old(self).spec_used().push(true)
                }
                &&& r->Ok_0.public_key@ == final(self).spec_pool()[i].public_key@
                &&& r->Ok_0.secret_key@ == final(self).spec_pool()[i].secret_key@
            },
    {
        match self {
            UnifiedKeyProvider::Legacy(l) => {
                proof {
                    assert(seq![l.used].drop_first() =~= Seq::<bool>::empty());
                    assert(spec_first_unused(Seq::<bool>::empty()) == 0);
                    if l.used {
                        assert(spec_first_unused(seq![true]) == 1);
                    } else {
                        assert(spec_first_unused(seq![false]) == 0);
                    }
                }
                if l.used {
                    Err(WalletError::StateConflict)
                } else {
                    l.used = true;
                    proof {
                        assert(seq![true] =~= seq![false].update(0int, true));
                    }
                    Ok(l.key.clone_key())
                }
            },
            UnifiedKeyProvider::Hd(h) => {
                proof {
                    lemma_first_unused(h.used@);
                }
                let mut i: usize = 0;
                let n = h.used.len();
                while i < n && h.used[i]
                    invariant
                        i <= n,
                        n == h.used@.len(),
                        forall|j: int| 0 <= j < i ==> h.used@[j],
                    decreases n - i,
                {
                    i += 1;
                }
                proof {
                    lemma_first_unused_witness(h.used@, i as int);
                }
                if i < n {
                    let ghost pre_used = h.used@;
                    h.used[i] = true;
                    proof {
                        assert(h.used@ =~= pre_used.update(i as int, true));
                    }
                    return Ok(h.keys[i].clone_key());
                }
                if n >= u32::MAX as usize {
                    return Err(WalletError::StateConflict);
                }
                let path = h.base.child(i as u32);
                let key = derive_keypair_at_path(h.words.as_str(), &path, h.mainnet)?;
                let kept = key.clone_key();
                h.keys.push(kept);
                h.used.push(true);
                Ok(key)
            },
        }
    }

    /// The keypair at an explicit derivation path; only the hierarchical
    /// provider can derive, the legacy provider answers with its fixed key.
    pub fn get_keypair_for_path(&self, path: &DerivationPath) -> (r: Result<
        DerivedKey,
        WalletError,
    >)
        requires
            self.wf(),
        ensures
            self is Hd ==> (r is Ok <==> spec_derivation_ok(
                (self->Hd_0).spec_words(),
                path@,
                (self->Hd_0).spec_mainnet(),
            )),
            self is Hd ==> (r is Ok ==> {
                &&& r->Ok_0.secret_key@ == spec_secret_key_at(
                    (self->Hd_0).spec_words(),
                    path@,
                    (self->Hd_0).spec_mainnet(),
                )
                &&& r->Ok_0.public_key@ == spec_public_key_of(
                    spec_secret_key_at((self->Hd_0).spec_words(), path@, (self->Hd_0).spec_mainnet()),
                )
            }),
            self is Legacy ==> r is Ok,
            self is Legacy ==> (r is Ok ==> r->Ok_0.public_key@
                == (self->Legacy_0).spec_key().public_key@ && r->Ok_0.secret_key@
                == (self->Legacy_0).spec_key().secret_key@),
    {
        match self {
            UnifiedKeyProvider::Hd(h) => derive_keypair_at_path(
                h.words.as_str(),
                path,
                h.mainnet,
            ),
            UnifiedKeyProvider::Legacy(l) => Ok(l.key.clone_key()),
        }
    }

    /// The keypair whose public key is `pk`: a received output's locking key
    /// is only known after the fact, and it is the x-only taproot form, so
    /// the pool is searched by the x-coordinate of each stored compressed
    /// key.
    pub fn get_keypair_for_pk(&self, pk: &Vec<u8>) -> (r: Result<DerivedKey, WalletError>)
        requires
            self.wf(),
        ensures
            r is Ok <==> spec_first_pk_index(self.spec_pool(), pk@) < self.spec_pool().len(),
            r is Ok ==> ({
                let k = self.spec_pool()[spec_first_pk_index(self.spec_pool(), pk@)];
                r->Ok_0.secret_key@ == k.secret_key@ && r->Ok_0.public_key@ == k.public_key@
                    && spec_xonly_matches(k.public_key@, pk@)
            }),
            r is Err ==> r->Err_0 == WalletError::InvalidInput,
    {
        proof {
            lemma_first_pk_index(self.spec_pool(), pk@);
        }
        match self {
            UnifiedKeyProvider::Legacy(l) => {
                if xonly_matches(&l.key.public_key, pk) {
                    proof {
                        assert(spec_xonly_matches(self.spec_pool()[0].public_key@, pk@));
                        lemma_first_pk_index_witness(self.spec_pool(), pk@, 0);
                    }
                    Ok(l.key.clone_key())
                } else {
                    proof {
                        assert forall|i: int|
                            0 <= i < self.spec_pool().len() implies !spec_xonly_matches(
                            (#[trigger] self.spec_pool()[i]).public_key@,
                            pk@,
                        ) by {
                            assert(self.spec_pool()[i] == l.spec_key());
                        }
                        lemma_first_pk_index_witness(self.spec_pool(), pk@, 1);
                    }
                    Err(WalletError::InvalidInput)
                }
            },
            UnifiedKeyProvider::Hd(h) => {
                proof {
                    assert(self.spec_pool() == h.keys@);
                }
                let mut i: usize = 0;
                let n = h.keys.len();
                while i < n
                    invariant
                        i <= n,
                        n == h.keys@.len(),
                        self.spec_pool() == h.keys@,
                        forall|j: int|
                            0 <= j < i ==> !spec_xonly_matches(
                                (#[trigger] h.keys@[j]).public_key@,
                                pk@,
                            ),
                    decreases n - i,
                {
                    if xonly_matches(&h.keys[i].public_key, pk) {
                        proof {
                            assert(spec_xonly_matches(
                                (self.spec_pool()[i as int]).public_key@,
                                pk@,
                            ));
                            lemma_first_pk_index_witness(self.spec_pool(), pk@, i as int);
                        }
                        return Ok(h.keys[i].clone_key());
                    }
                    i += 1;
                }
                proof {
                    assert forall|j: int| 0 <= j < self.spec_pool().len() implies
                        !spec_xonly_matches(
                        (#[trigger] self.spec_pool()[j]).public_key@,
                        pk@,
                    ) by {
                        assert(self.spec_pool()[j] == h.keys@[j]);
                    }
                    lemma_first_pk_index_witness(self.spec_pool(), pk@, n as int);
                }
                Err(WalletError::InvalidInput)
            },
        }
    }

    /// The public keys of every key derived so far, for balance and address
    /// discovery.
    pub fn get_cached_pks(&self) -> (r: Vec<Vec<u8>>)
        ensures
            r@.len() == self.spec_pool().len(),
            forall|i: int|
                0 <= i < r@.len() ==> (#[trigger] r@[i])@ == self.spec_pool()[i].public_key@,
    {
        match self {
            UnifiedKeyProvider::Legacy(l) => {
                let mut out: Vec<Vec<u8>> = Vec::new();
                out.push(clone_bytes(&l.key.public_key));
                out
            },
            UnifiedKeyProvider::Hd(h) => {
                let mut out: Vec<Vec<u8>> = Vec::new();
                let mut i: usize = 0;
                while i < h.keys.len()
                    invariant
                        i <= h.keys@.len(),
                        out@.len() == i,
                        forall|j: int|
                            0 <= j < i ==> (#[trigger] out@[j])@ == h.keys@[j].public_key@,
                    decreases h.keys@.len() - i,
                {
                    out.push(clone_bytes(&h.keys[i].public_key));
                    i += 1;
                }
                out
            },
        }
    }

    /// The keypair at a discovery index: the hierarchical provider derives
    /// it under its base path, the legacy provider has only index zero.
    pub fn derive_at_discovery_index(&self, index: u32) -> (r: Result<
        Option<DerivedKey>,
        WalletError,
    >)
        requires
            self.wf(),
        ensures
            self is Hd ==> (r is Ok <==> spec_derivation_ok(
                (self->Hd_0).spec_words(),
                (self->Hd_0).spec_base().push(index),
                (self->Hd_0).spec_mainnet(),
            )),
            self is Hd ==> (r is Ok ==> r->Ok_0 is Some),
            self is Hd ==> (r matches Ok(Some(k)) ==> spec_pool_key_ok(
                (self->Hd_0).spec_words(),
                (self->Hd_0).spec_base(),
                (self->Hd_0).spec_mainnet(),
                index as int,
                k,
            )),
            self is Legacy ==> r is Ok,
            self is Legacy && index == 0 ==> (r->Ok_0 matches Some(k)
                && k.public_key@ == (self->Legacy_0).spec_key().public_key@
                && k.secret_key@ == (self->Legacy_0).spec_key().secret_key@),
            self is Legacy && index != 0 ==> r->Ok_0 is None,
    {
        match self {
            UnifiedKeyProvider::Hd(h) => {
                let path = h.base.child(index);
                match derive_keypair_at_path(h.words.as_str(), &path, h.mainnet) {
                    Ok(k) => Ok(Some(k)),
                    Err(e) => Err(e),
                }
            },
            UnifiedKeyProvider::Legacy(l) => {
                if index == 0 {
                    Ok(Some(l.key.clone_key()))
                } else {
                    Ok(None)
                }
            },
        }
    }

    /// Remember a keypair found by discovery, growing the pool to its index;
    /// the caller hands back what `derive_at_discovery_index` produced, so
    /// the pool invariant is kept. The legacy provider has nothing to cache.
    pub fn cache_discovered_keypair(&mut self, index: u32, kp: DerivedKey) -> (r: Result<
        (),
        WalletError,
    >)
        requires
            old(self).wf(),
            (*old(self)) is Hd ==> spec_pool_key_ok(
                ((*old(self))->Hd_0).spec_words(),
                ((*old(self))->Hd_0).spec_base(),
                ((*old(self))->Hd_0).spec_mainnet(),
                index as int,
                kp,
            ),
        ensures
            final(self).wf(),
            r is Ok <==> ((*old(self)) is Legacy || (index as int) < old(self).spec_pool().len()
                || ((index as int) == old(self).spec_pool().len() && index != u32::MAX)),
            (*old(self)) is Legacy ==> *final(self) == *old(self),
            r is Err ==> *final(self) == *old(self),
            r is Ok && (*old(self)) is Hd ==> final(self).spec_pool() == (if (index as int) < old(
                self,
            ).spec_pool().len() {
                old(self).spec_pool()
            } else {
                old(self).spec_pool().push(kp)
            }),
            r is Ok && (*old(self)) is Hd ==> final(self).spec_used() == (if (index as int) < old(
                self,
            ).spec_pool().len() {
                old(self).spec_used()
            } else {
                old(self).spec_used().push(false)
            }),
            r is Ok && (index as int) < old(self).spec_pool().len() ==> *final(self) == *old(
                self,
            ),
    {
        match self {
            UnifiedKeyProvider::Legacy(_) => Ok(()),
            UnifiedKeyProvider::Hd(h) => {
                if (index as usize) < h.keys.len() {
                    return Ok(());
                }
                if index as usize != h.keys.len() || index == u32::MAX {
                    // Only the next index can be cached, and the pool is
                    // bounded by the index range.
                    return Err(WalletError::StateConflict);
                }
                h.keys.push(kp);
                h.used.push(false);
                Ok(())
            },
        }
    }

    /// Mark the key answering this x-only public key as used, so its index
    /// is never handed out again; unknown keys are reported.
    pub fn mark_as_used(&mut self, pk: &Vec<u8>) -> (r: Result<(), WalletError>)
        requires
            old(self).wf(),
        ensures
            final(self).wf(),
            final(self).spec_pool() == old(self).spec_pool(),
            r is Ok <==> spec_first_pk_index(old(self).spec_pool(), pk@) < old(
                self,
            ).spec_pool().len(),
            r is Ok ==> final(self).spec_used() == old(self).spec_used().update(
                spec_first_pk_index(old(self).spec_pool(), pk@),
                true,
            ),
            r is Err ==> *final(self) == *old(self),
    {
        let found = self.pk_index(pk);
        match found {
            None => Err(WalletError::InvalidInput),
            Some(i) => {
                proof {
                    lemma_first_pk_index(old(self).spec_pool(), pk@);
                }
                match self {
                    UnifiedKeyProvider::Legacy(l) => {
                        l.used = true;
                        proof {
                            assert(seq![true] =~= seq![false].update(0int, true));
                            assert(seq![true] =~= seq![true].update(0int, true));
                        }
                    },
                    UnifiedKeyProvider::Hd(h) => {
                        h.used[i] = true;
                    },
                }
                Ok(())
            },
        }
    }

    /// The pool index of the key with this public key, if any.
    fn pk_index(&self, pk: &Vec<u8>) -> (r: Option<usize>)
        requires
            self.wf(),
        ensures
            match r {
                Some(i) => i < self.spec_pool().len() && spec_xonly_matches(
                    self.spec_pool()[i as int].public_key@,
                    pk@,
                ) && i as int == spec_first_pk_index(self.spec_pool(), pk@) && (self is Hd ==> i
                    < (self->Hd_0).spec_used().len()),
                None => spec_first_pk_index(self.spec_pool(), pk@) == self.spec_pool().len(),
            },
    {
        match self {
            UnifiedKeyProvider::Legacy(l) => {
                if xonly_matches(&l.key.public_key, pk) {
                    proof {
                        assert(spec_xonly_matches(self.spec_pool()[0].public_key@, pk@));
                        lemma_first_pk_index_witness(self.spec_pool(), pk@, 0);
                    }
                    Some(0)
                } else {
                    proof {
                        assert forall|i: int|
                            0 <= i < self.spec_pool().len() implies !spec_xonly_matches(
                            (#[trigger] self.spec_pool()[i]).public_key@,
                            pk@,
                        ) by {
                            assert(self.spec_pool()[i] == l.spec_key());
                        }
                        lemma_first_pk_index_witness(self.spec_pool(), pk@, 1);
                    }
                    None
                }
            },
            UnifiedKeyProvider::Hd(h) => {
                proof {
                    assert(self.spec_pool() == h.keys@);
                }
                let mut i: usize = 0;
                let n = h.keys.len();
                while i < n
                    invariant
                        i <= n,
                        n == h.keys@.len(),
                        h.used@.len() == h.keys@.len(),
                        self.spec_pool() == h.keys@,
                        *self is Hd && (self->Hd_0) == *h,
                        forall|j: int|
                            0 <= j < i ==> !spec_xonly_matches(
                                (#[trigger] h.keys@[j]).public_key@,
                                pk@,
                            ),
                    decreases n - i,
                {
                    if xonly_matches(&h.keys[i].public_key, pk) {
                        proof {
                            assert(spec_xonly_matches(
                                (self.spec_pool()[i as int]).public_key@,
                                pk@,
                            ));
                            assert((self->Hd_0).spec_used().len() == h.keys@.len());
                            lemma_first_pk_index_witness(self.spec_pool(), pk@, i as int);
                        }
                        return Some(i);
                    }
                    i += 1;
                }
                proof {
                    assert forall|j: int| 0 <= j < self.spec_pool().len() implies
                        !spec_xonly_matches(
                        (#[trigger] self.spec_pool()[j]).public_key@,
                        pk@,
                    ) by {
                        assert(self.spec_pool()[j] == h.keys@[j]);
                    }
                    lemma_first_pk_index_witness(self.spec_pool(), pk@, n as int);
                }
                None
            },
        }
    }
}

/// The first index at which the scan stopped is the first unused slot.
proof fn lemma_first_unused_witness(used: Seq<bool>, i: int)
    requires
        0 <= i <= used.len(),
        forall|j: int| 0 <= j < i ==> used[j],
        i < used.len() ==> !used[i],
    ensures
        spec_first_unused(used) == i,
    decreases i,
{
    if used.len() == 0 {
    } else if i == 0 {
    } else {
        assert forall|j: int| 0 <= j < i - 1 implies used.drop_first()[j] by {
            assert(used.drop_first()[j] == used[j + 1]);
        }
        if i < used.len() {
            assert(used.drop_first()[i - 1] == used[i]);
        }
        lemma_first_unused_witness(used.drop_first(), i - 1);
    }
}

/// Equality of two byte vectors.
pub fn bytes_eq(a: &Vec<u8>, b: &Vec<u8>) -> (r: bool)
    ensures
        r == (a@ == b@),
{
    if a.len() != b.len() {
        proof {
            if a@ == b@ {
                assert(a@.len() == b@.len());
            }
        }
        return false;
    }
    let n = a.len();
    let mut i: usize = 0;
    while i < n
        invariant
            n == a@.len() == b@.len(),
            i <= n,
            forall|j: int| 0 <= j < i ==> a@[j] == b@[j],
        decreases n - i,
    {
        if a[i] != b[i] {
            return false;
        }
        i += 1;
    }
    proof {
        assert(a@ =~= b@);
    }
    true
}

/// The in-memory persistence of boarding outputs: the secret key of each
/// boarding output's owner key, looked up by public key.
pub struct BoardingStore {
    entries: Vec<(Vec<u8>, Vec<u8>)>,
}

impl BoardingStore {
    /// The stored pairs of owner public key and secret key.
    pub closed spec fn view(self) -> Seq<(Seq<u8>, Seq<u8>)> {
        self.entries@.map_values(|e: (Vec<u8>, Vec<u8>)| (e.0@, e.1@))
    }

    /// An empty store.
    pub fn new() -> (r: BoardingStore)
        ensures
            r@.len() == 0,
    {
        BoardingStore { entries: Vec::new() }
    }

    /// Remember the secret key of one boarding output.
    pub fn save_boarding_output(&mut self, public_key: Vec<u8>, secret_key: Vec<u8>)
        ensures
            final(self)@ == old(self)@.push((public_key@, secret_key@)),
    {
        let ghost pre = self.entries@;
        self.entries.push((public_key, secret_key));
        proof {
            assert(final(self)@ =~= old(self)@.push(
                (final(self).entries@.last().0@, final(self).entries@.last().1@),
            ));
        }
    }

    /// The stored owner public keys, in insertion order.
    pub fn load_boarding_outputs(&self) -> (r: Vec<Vec<u8>>)
        ensures
            r@.len() == self@.len(),
            forall|i: int| 0 <= i < r@.len() ==> (#[trigger] r@[i])@ == self@[i].0,
    {
        let mut out: Vec<Vec<u8>> = Vec::new();
        let mut i: usize = 0;
        while i < self.entries.len()
            invariant
                i <= self.entries@.len(),
                out@.len() == i,
                forall|j: int| 0 <= j < i ==> (#[trigger] out@[j])@ == self@[j].0,
            decreases self.entries@.len() - i,
        {
            out.push(clone_bytes(&self.entries[i].0));
            i += 1;
        }
        out
    }

    /// The secret key stored for a public key, if any; the first stored
    /// match answers.
    pub fn sk_for_pk(&self, pk: &Vec<u8>) -> (r: Option<Vec<u8>>)
        ensures
            r is Some <==> (exists|i: int|
                0 <= i < self@.len() && (#[trigger] self@[i]).0 == pk@),
            r matches Some(sk) ==> exists|i: int|
                0 <= i < self@.len() && (#[trigger] self@[i]).0 == pk@ && self@[i].1 == sk@,
    {
        let mut i: usize = 0;
        let n = self.entries.len();
        while i < n
            invariant
                i <= n,
                n == self.entries@.len(),
                forall|j: int| 0 <= j < i ==> (#[trigger] self@[j]).0 != pk@,
            decreases n - i,
        {
            if bytes_eq(&self.entries[i].0, pk) {
                proof {
                    assert(self@[i as int].0 == pk@);
                }
                return Some(clone_bytes(&self.entries[i].1));
            }
            i += 1;
        }
        None
    }
}

} // verus!
