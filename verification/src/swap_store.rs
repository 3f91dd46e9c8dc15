use vstd::prelude::*;
use crate::errors::WalletError;
use crate::lendasat::clone_string;
use crate::strutil::str_eq;
use crate::swap_status::SwapStatus;

verus! {

/// The three swap directions, each stored in its own table.
#[derive(Clone, Copy, Debug, PartialEq, Eq, Structural)]
pub enum SwapType {
    BtcToEvm,
    EvmToBtc,
    BtcToArkade,
}

/// Table name of each swap type.
pub open spec fn spec_swap_type_name(t: SwapType) -> Seq<char> {
    match t {
        SwapType::BtcToEvm => "BtcToEvm"@,
        SwapType::EvmToBtc => "EvmToBtc"@,
        SwapType::BtcToArkade => "BtcToArkade"@,
    }
}

/// The swap type of a table name, if any.
pub open spec fn spec_swap_type_of_name(s: Seq<char>) -> Option<SwapType> {
    if s == "BtcToEvm"@ {
        Some(SwapType::BtcToEvm)
    } else if s == "EvmToBtc"@ {
        Some(SwapType::EvmToBtc)
    } else if s == "BtcToArkade"@ {
        Some(SwapType::BtcToArkade)
    } else {
        None
    }
}

impl SwapType {
    /// The name under which the registry records this type.
    pub fn as_str(&self) -> (r: &'static str)
        ensures
            r@ == spec_swap_type_name(*self),
    {
        match self {
            SwapType::BtcToEvm => "BtcToEvm",
            SwapType::EvmToBtc => "EvmToBtc",
            SwapType::BtcToArkade => "BtcToArkade",
        }
    }

    /// Parse a registry name back into a type.
    pub fn from_str(s: &str) -> (r: Option<SwapType>)
        ensures
            r == spec_swap_type_of_name(s@),
    {
        if str_eq(s, "BtcToEvm") {
            Some(SwapType::BtcToEvm)
        } else if str_eq(s, "EvmToBtc") {
            Some(SwapType::EvmToBtc)
        } else if str_eq(s, "BtcToArkade") {
            Some(SwapType::BtcToArkade)
        } else {
            None
        }
    }
}

/// Equality of swap types.
pub fn swap_type_eq(a: SwapType, b: SwapType) -> (r: bool)
    ensures
        r == (a == b),
{
    match (a, b) {
        (SwapType::BtcToEvm, SwapType::BtcToEvm) => true,
        (SwapType::EvmToBtc, SwapType::EvmToBtc) => true,
        (SwapType::BtcToArkade, SwapType::BtcToArkade) => true,
        _ => false,
    }
}

/// The secret bundle needed to later claim or refund a swap: ephemeral
/// keypair, preimage and its hash, the user-identifying key, and the
/// derivation index the keypair came from. The preimage must never reach the
/// counterparty before the claim, and is erasable independent of the rest of
/// the record.
#[derive(Clone, Debug, PartialEq, Eq)]
pub struct SwapParams {
    pub secret_key: Vec<u8>,
    pub public_key: Vec<u8>,
    pub preimage: Vec<u8>,
    pub preimage_hash: Vec<u8>,
    pub user_id: Vec<u8>,
    pub key_index: u32,
}

/// One stored swap: identity, direction, the status machine's state, the
/// hash lock, the parties' keys, the two independent refund timelocks, fee,
/// network tag, creation time, the observed funding and redemption
/// transactions, and the secret parameter bundle.
#[derive(Clone, Debug, PartialEq, Eq)]
pub struct SwapRecord {
    pub id: String,
    pub swap_type: SwapType,
    pub status: SwapStatus,
    pub hash_lock: String,
    pub sender_pk: String,
    pub receiver_pk: String,
    pub server_pk: String,
    pub evm_refund_locktime: u32,
    pub vhtlc_refund_locktime: u32,
    pub fee_sats: i64,
    pub network: String,
    pub created_at: String,
    pub bitcoin_htlc_fund_txid: Option<String>,
    pub bitcoin_htlc_claim_txid: Option<String>,
    pub evm_htlc_fund_txid: Option<String>,
    pub evm_htlc_claim_txid: Option<String>,
    pub params: SwapParams,
}

impl SwapRecord {
    /// Whether the gasless EVM claim may be offered: the counterparty has
    /// funded and the swap sells BTC for EVM assets.
    pub fn can_claim_gelato(&self) -> (r: bool)
        ensures
            r == (crate::swap_status::spec_can_claim(self.status) && self.swap_type
                is BtcToEvm),
    {
        self.status.can_claim() && swap_type_eq(self.swap_type, SwapType::BtcToEvm)
    }

    /// Whether the Bitcoin-side claim of the virtual contract may be
    /// offered: the counterparty has funded and the swap buys BTC.
    pub fn can_claim_vhtlc(&self) -> (r: bool)
        ensures
            r == (crate::swap_status::spec_can_claim(self.status) && self.swap_type
                is EvmToBtc),
    {
        self.status.can_claim() && swap_type_eq(self.swap_type, SwapType::EvmToBtc)
    }

    /// Whether a refund may be offered, by the status machine alone.
    pub fn can_refund(&self) -> (r: bool)
        ensures
            r == crate::swap_status::spec_can_refund(self.status),
    {
        self.status.can_refund()
    }
}

/// Whether some record in `s` carries the id.
pub open spec fn tbl_contains(s: Seq<SwapRecord>, id: Seq<char>) -> bool {
    exists|i: int| 0 <= i < s.len() && (#[trigger] s[i]).id@ == id
}

/// The record in `s` carrying the id.
pub open spec fn tbl_at(s: Seq<SwapRecord>, id: Seq<char>) -> SwapRecord
    recommends
        tbl_contains(s, id),
{
    s[choose|i: int| 0 <= i < s.len() && (#[trigger] s[i]).id@ == id]
}

/// No two records of `s` share an id.
pub open spec fn tbl_ids_unique(s: Seq<SwapRecord>) -> bool {
    forall|i: int, j: int|
        0 <= i < j < s.len() ==> (#[trigger] s[i]).id@ != (#[trigger] s[j]).id@
}

/// What an upsert of `rec` does to a table: the record is now there under
/// its id, every other id is untouched, and the row count grew only if the
/// id was new.
pub open spec fn upsert_post(s0: Seq<SwapRecord>, s1: Seq<SwapRecord>, rec: SwapRecord) -> bool {
    &&& tbl_ids_unique(s1)
    &&& tbl_contains(s1, rec.id@)
    &&& tbl_at(s1, rec.id@) == rec
    &&& (forall|id: Seq<char>|
        id != rec.id@ ==> (#[trigger] tbl_contains(s1, id) <==> tbl_contains(s0, id)))
    &&& (forall|id: Seq<char>|
        id != rec.id@ && tbl_contains(s0, id) ==> #[trigger] tbl_at(s1, id) == tbl_at(s0, id))
    &&& s1.len() == s0.len() + (if tbl_contains(s0, rec.id@) {
        0int
    } else {
        1int
    })
    &&& (forall|k: int| 0 <= k < s1.len() ==> ((#[trigger] s1[k]) == rec || s0.contains(s1[k])))
}

/// What deleting `id` does to a table: the id is gone, every other id is
/// untouched, and the row count shrank only if the id was there.
pub open spec fn delete_post(s0: Seq<SwapRecord>, s1: Seq<SwapRecord>, id: Seq<char>) -> bool {
    &&& tbl_ids_unique(s1)
    &&& !tbl_contains(s1, id)
    &&& (forall|other: Seq<char>|
        other != id ==> (#[trigger] tbl_contains(s1, other) <==> tbl_contains(s0, other)))
    &&& (forall|other: Seq<char>|
        other != id && tbl_contains(s0, other) ==> #[trigger] tbl_at(s1, other) == tbl_at(
            s0,
            other,
        ))
    &&& s1.len() == s0.len() - (if tbl_contains(s0, id) {
        1int
    } else {
        0int
    })
    &&& (forall|k: int| 0 <= k < s1.len() ==> s0.contains(#[trigger] s1[k]))
}

/// With unique ids, any index whose record carries the id is the one
/// `tbl_at` picks.
proof fn lemma_tbl_at_index(s: Seq<SwapRecord>, i: int)
    requires
        tbl_ids_unique(s),
        0 <= i < s.len(),
    ensures
        tbl_contains(s, s[i].id@),
        tbl_at(s, s[i].id@) == s[i],
{
    let id = s[i].id@;
    assert(tbl_contains(s, id));
    let j = choose|j: int| 0 <= j < s.len() && (#[trigger] s[j]).id@ == id;
    if i != j {
        if i < j {
            assert(s[i].id@ != s[j].id@);
        } else {
            assert(s[j].id@ != s[i].id@);
        }
    }
}

/// Find the index of the record carrying `id`, if any.
fn tbl_find(v: &Vec<SwapRecord>, id: &str) -> (r: Option<usize>)
    ensures
        match r {
            Some(i) => i < v@.len() && v@[i as int].id@ == id@,
            None => !tbl_contains(v@, id@),
        },
{
    let mut i: usize = 0;
    while i < v.len()
        invariant
            i <= v@.len(),
            forall|j: int| 0 <= j < i ==> (#[trigger] v@[j]).id@ != id@,
        decreases v@.len() - i,
    {
        if str_eq(v[i].id.as_str(), id) {
            return Some(i);
        }
        i += 1;
    }
    None
}

/// Insert or replace the record carrying `rec.id` in one table.
fn tbl_upsert(v: &mut Vec<SwapRecord>, rec: SwapRecord)
    requires
        tbl_ids_unique(old(v)@),
    ensures
        upsert_post(old(v)@, final(v)@, rec),
{
    let ghost s0 = v@;
    let found = tbl_find(v, rec.id.as_str());
    match found {
        Some(i) => {
            proof {
                assert(tbl_contains(s0, rec.id@));
            }
            v.remove(i);
            let ghost s1 = v@;
            proof {
                lemma_remove_keeps_unique(s0, i as int);
                lemma_remove_no_id(s0, i as int, rec.id@);
            }
            v.push(rec);
            proof {
                lemma_push_fresh(s1, rec);
                lemma_tbl_at_index(v@, v@.len() - 1);
                assert forall|id: Seq<char>| id != rec.id@ implies (#[trigger] tbl_contains(
                    v@,
                    id,
                ) <==> tbl_contains(s0, id)) by {
                    lemma_remove_others(s0, i as int, id);
                    lemma_push_others(s1, rec, id);
                }
                assert forall|id: Seq<char>| id != rec.id@ && tbl_contains(s0, id) implies
                    #[trigger] tbl_at(v@, id) == tbl_at(s0, id) by {
                    lemma_remove_others(s0, i as int, id);
                    lemma_push_others(s1, rec, id);
                    let k = choose|k: int| 0 <= k < v@.len() && (#[trigger] v@[k]).id@ == id;
                    lemma_tbl_at_index(v@, k);
                    assert(k < v@.len() - 1);
                    assert(v@[k] == s1[k]);
                    let k0: int = if k < i {
                        k
                    } else {
                        k + 1
                    };
                    assert(s1[k] == s0[k0]);
                    lemma_tbl_at_index(s0, k0);
                }
                assert forall|k: int| 0 <= k < v@.len() implies ((#[trigger] v@[k]) == rec
                    || s0.contains(v@[k])) by {
                    if k < v@.len() - 1 {
                        let k0: int = if k < i {
                            k
                        } else {
                            k + 1
                        };
                        assert(s0[k0] == v@[k]);
                    }
                }
            }
        },
        None => {
            v.push(rec);
            proof {
                lemma_push_fresh(s0, rec);
                lemma_tbl_at_index(v@, v@.len() - 1);
                assert forall|id: Seq<char>| id != rec.id@ implies (#[trigger] tbl_contains(
                    v@,
                    id,
                ) <==> tbl_contains(s0, id)) by {
                    lemma_push_others(s0, rec, id);
                }
                assert forall|id: Seq<char>| id != rec.id@ && tbl_contains(s0, id) implies
                    #[trigger] tbl_at(v@, id) == tbl_at(s0, id) by {
                    let k = choose|k: int| 0 <= k < s0.len() && (#[trigger] s0[k]).id@ == id;
                    assert(v@[k] == s0[k]);
                    lemma_tbl_at_index(v@, k);
                    lemma_tbl_at_index(s0, k);
                }
                assert forall|k: int| 0 <= k < v@.len() implies ((#[trigger] v@[k]) == rec
                    || s0.contains(v@[k])) by {
                    if k < v@.len() - 1 {
                        assert(s0[k] == v@[k]);
                    }
                }
            }
        },
    }
}

/// Remove the record carrying `id` from one table, if present.
fn tbl_delete(v: &mut Vec<SwapRecord>, id: &str)
    requires
        tbl_ids_unique(old(v)@),
    ensures
        delete_post(old(v)@, final(v)@, id@),
{
    let ghost s0 = v@;
    let found = tbl_find(v, id);
    match found {
        Some(i) => {
            proof {
                assert(tbl_contains(s0, id@));
            }
            v.remove(i);
            proof {
                lemma_remove_keeps_unique(s0, i as int);
                lemma_remove_no_id(s0, i as int, id@);
                assert forall|other: Seq<char>| other != id@ implies (#[trigger] tbl_contains(
                    v@,
                    other,
                ) <==> tbl_contains(s0, other)) by {
                    lemma_remove_others(s0, i as int, other);
                }
                assert forall|other: Seq<char>| other != id@ && tbl_contains(s0, other) implies
                    #[trigger] tbl_at(v@, other) == tbl_at(s0, other) by {
                    lemma_remove_others(s0, i as int, other);
                    let k = choose|k: int| 0 <= k < v@.len() && (#[trigger] v@[k]).id@ == other;
                    lemma_tbl_at_index(v@, k);
                    let k0: int = if k < i {
                        k
                    } else {
                        k + 1
                    };
                    assert(s0[k0] == v@[k]);
                    lemma_tbl_at_index(s0, k0);
                }
                assert forall|k: int| 0 <= k < v@.len() implies s0.contains(
                    #[trigger] v@[k],
                ) by {
                    let k0: int = if k < i {
                        k
                    } else {
                        k + 1
                    };
                    assert(s0[k0] == v@[k]);
                }
            }
        },
        None => {
        },
    }
}

/// Removing an index keeps the remaining ids unique.
proof fn lemma_remove_keeps_unique(s: Seq<SwapRecord>, i: int)
    requires
        tbl_ids_unique(s),
        0 <= i < s.len(),
    ensures
        tbl_ids_unique(s.remove(i)),
{
    let s2 = s.remove(i);
    assert forall|a: int, b: int| 0 <= a < b < s2.len() implies (#[trigger] s2[a]).id@ != (
    #[trigger] s2[b]).id@ by {
        let a0: int = if a < i {
            a
        } else {
            a + 1
        };
        let b0: int = if b < i {
            b
        } else {
            b + 1
        };
        assert(s2[a] == s[a0]);
        assert(s2[b] == s[b0]);
    }
}

/// After removing the only record with `id`, the table no longer holds it.
proof fn lemma_remove_no_id(s: Seq<SwapRecord>, i: int, id: Seq<char>)
    requires
        tbl_ids_unique(s),
        0 <= i < s.len(),
        s[i].id@ == id,
    ensures
        !tbl_contains(s.remove(i), id),
{
    let s2 = s.remove(i);
    assert forall|k: int| 0 <= k < s2.len() implies (#[trigger] s2[k]).id@ != id by {
        let k0: int = if k < i {
            k
        } else {
            k + 1
        };
        assert(s2[k] == s[k0]);
        if k0 < i {
            assert(s[k0].id@ != s[i].id@);
        } else {
            assert(s[i].id@ != s[k0].id@);
        }
    }
}

/// Removing an index leaves every other id's presence unchanged.
proof fn lemma_remove_others(s: Seq<SwapRecord>, i: int, other: Seq<char>)
    requires
        0 <= i < s.len(),
        s[i].id@ != other,
    ensures
        tbl_contains(s.remove(i), other) <==> tbl_contains(s, other),
{
    let s2 = s.remove(i);
    if tbl_contains(s, other) {
        let k = choose|k: int| 0 <= k < s.len() && (#[trigger] s[k]).id@ == other;
        let k2: int = if k < i {
            k
        } else {
            k - 1
        };
        assert(s2[k2] == s[k]);
        assert(tbl_contains(s2, other));
    }
    if tbl_contains(s2, other) {
        let k = choose|k: int| 0 <= k < s2.len() && (#[trigger] s2[k]).id@ == other;
        let k0: int = if k < i {
            k
        } else {
            k + 1
        };
        assert(s[k0] == s2[k]);
        assert(tbl_contains(s, other));
    }
}

/// Pushing a record with a fresh id keeps ids unique.
proof fn lemma_push_fresh(s: Seq<SwapRecord>, rec: SwapRecord)
    requires
        tbl_ids_unique(s),
        !tbl_contains(s, rec.id@),
    ensures
        tbl_ids_unique(s.push(rec)),
        tbl_contains(s.push(rec), rec.id@),
{
    let s2 = s.push(rec);
    assert(s2[s.len() as int] == rec);
    assert forall|a: int, b: int| 0 <= a < b < s2.len() implies (#[trigger] s2[a]).id@ != (
    #[trigger] s2[b]).id@ by {
        if b < s.len() {
            assert(s2[a] == s[a]);
            assert(s2[b] == s[b]);
        } else {
            assert(s2[a] == s[a]);
            assert(s2[b] == rec);
            if s[a].id@ == rec.id@ {
                assert(tbl_contains(s, rec.id@));
            }
        }
    }
}

/// Pushing a record leaves every other id's presence unchanged.
proof fn lemma_push_others(s: Seq<SwapRecord>, rec: SwapRecord, other: Seq<char>)
    requires
        other != rec.id@,
    ensures
        tbl_contains(s.push(rec), other) <==> tbl_contains(s, other),
{
    let s2 = s.push(rec);
    if tbl_contains(s, other) {
        let k = choose|k: int| 0 <= k < s.len() && (#[trigger] s[k]).id@ == other;
        assert(s2[k] == s[k]);
        assert(tbl_contains(s2, other));
    }
    if tbl_contains(s2, other) {
        let k = choose|k: int| 0 <= k < s2.len() && (#[trigger] s2[k]).id@ == other;
        assert(k < s.len());
        assert(s[k] == s2[k]);
        assert(tbl_contains(s, other));
    }
}

/// Whether the registry holds an entry for `id`.
pub open spec fn reg_has(rs: Seq<(String, SwapType)>, id: Seq<char>) -> bool {
    exists|k: int| 0 <= k < rs.len() && (#[trigger] rs[k]).0@ == id
}

/// The type the registry records for `id`.
pub open spec fn reg_type(rs: Seq<(String, SwapType)>, id: Seq<char>) -> SwapType
    recommends
        reg_has(rs, id),
{
    rs[choose|k: int| 0 <= k < rs.len() && (#[trigger] rs[k]).0@ == id].1
}

/// No two registry entries share an id.
pub open spec fn reg_ids_unique(rs: Seq<(String, SwapType)>) -> bool {
    forall|a: int, b: int| 0 <= a < b < rs.len() ==> (#[trigger] rs[a]).0@ != (#[trigger] rs[b]).0@
}

/// With unique ids, any index whose entry carries the id is the one
/// `reg_type` picks.
proof fn lemma_reg_at_index(rs: Seq<(String, SwapType)>, k: int)
    requires
        reg_ids_unique(rs),
        0 <= k < rs.len(),
    ensures
        reg_has(rs, rs[k].0@),
        reg_type(rs, rs[k].0@) == rs[k].1,
{
    let id = rs[k].0@;
    assert(reg_has(rs, id));
    let j = choose|j: int| 0 <= j < rs.len() && (#[trigger] rs[j]).0@ == id;
    if k != j {
        if k < j {
            assert(rs[k].0@ != rs[j].0@);
        } else {
            assert(rs[j].0@ != rs[k].0@);
        }
    }
}

/// Removing a registry entry keeps ids unique, drops its id and keeps all
/// others.
proof fn lemma_reg_remove(rs: Seq<(String, SwapType)>, i: int)
    requires
        reg_ids_unique(rs),
        0 <= i < rs.len(),
    ensures
        reg_ids_unique(rs.remove(i)),
        !reg_has(rs.remove(i), rs[i].0@),
        forall|id: Seq<char>|
            id != rs[i].0@ ==> ((#[trigger] reg_has(rs.remove(i), id)) <==> reg_has(rs, id)),
        forall|id: Seq<char>|
            id != rs[i].0@ && reg_has(rs, id) ==> #[trigger] reg_type(rs.remove(i), id)
                == reg_type(rs, id),
{
    let s2 = rs.remove(i);
    assert forall|a: int, b: int| 0 <= a < b < s2.len() implies (#[trigger] s2[a]).0@ != (
    #[trigger] s2[b]).0@ by {
        let a0: int = if a < i {
            a
        } else {
            a + 1
        };
        let b0: int = if b < i {
            b
        } else {
            b + 1
        };
        assert(s2[a] == rs[a0]);
        assert(s2[b] == rs[b0]);
    }
    assert forall|k: int| 0 <= k < s2.len() implies (#[trigger] s2[k]).0@ != rs[i].0@ by {
        let k0: int = if k < i {
            k
        } else {
            k + 1
        };
        assert(s2[k] == rs[k0]);
        if k0 < i {
            assert(rs[k0].0@ != rs[i].0@);
        } else {
            assert(rs[i].0@ != rs[k0].0@);
        }
    }
    assert forall|id: Seq<char>| id != rs[i].0@ implies ((#[trigger] reg_has(s2, id)) <==> reg_has(
        rs,
        id,
    )) by {
        if reg_has(rs, id) {
            let k = choose|k: int| 0 <= k < rs.len() && (#[trigger] rs[k]).0@ == id;
            let k2: int = if k < i {
                k
            } else {
                k - 1
            };
            assert(s2[k2] == rs[k]);
            assert(reg_has(s2, id));
        }
        if reg_has(s2, id) {
            let k = choose|k: int| 0 <= k < s2.len() && (#[trigger] s2[k]).0@ == id;
            let k0: int = if k < i {
                k
            } else {
                k + 1
            };
            assert(rs[k0] == s2[k]);
            assert(reg_has(rs, id));
        }
    }
    assert forall|id: Seq<char>| id != rs[i].0@ && reg_has(rs, id) implies #[trigger] reg_type(
        s2,
        id,
    ) == reg_type(rs, id) by {
        assert(reg_has(s2, id));
        let k = choose|k: int| 0 <= k < s2.len() && (#[trigger] s2[k]).0@ == id;
        lemma_reg_at_index(s2, k);
        let k0: int = if k < i {
            k
        } else {
            k + 1
        };
        assert(rs[k0] == s2[k]);
        lemma_reg_at_index(rs, k0);
    }
}

/// Pushing a registry entry with a fresh id keeps ids unique and keeps every
/// other id's entry.
proof fn lemma_reg_push(rs: Seq<(String, SwapType)>, p: (String, SwapType))
    requires
        reg_ids_unique(rs),
        !reg_has(rs, p.0@),
    ensures
        reg_ids_unique(rs.push(p)),
        reg_has(rs.push(p), p.0@),
        reg_type(rs.push(p), p.0@) == p.1,
        forall|id: Seq<char>|
            id != p.0@ ==> ((#[trigger] reg_has(rs.push(p), id)) <==> reg_has(rs, id)),
        forall|id: Seq<char>|
            id != p.0@ && reg_has(rs, id) ==> #[trigger] reg_type(rs.push(p), id) == reg_type(
                rs,
                id,
            ),
{
    let s2 = rs.push(p);
    assert(s2[rs.len() as int] == p);
    assert forall|a: int, b: int| 0 <= a < b < s2.len() implies (#[trigger] s2[a]).0@ != (
    #[trigger] s2[b]).0@ by {
        if b < rs.len() {
            assert(s2[a] == rs[a]);
            assert(s2[b] == rs[b]);
        } else {
            assert(s2[a] == rs[a]);
            assert(s2[b] == p);
            if rs[a].0@ == p.0@ {
                assert(reg_has(rs, p.0@));
            }
        }
    }
    lemma_reg_at_index(s2, rs.len() as int);
    assert forall|id: Seq<char>| id != p.0@ implies ((#[trigger] reg_has(s2, id)) <==> reg_has(
        rs,
        id,
    )) by {
        if reg_has(rs, id) {
            let k = choose|k: int| 0 <= k < rs.len() && (#[trigger] rs[k]).0@ == id;
            assert(s2[k] == rs[k]);
            assert(reg_has(s2, id));
        }
        if reg_has(s2, id) {
            let k = choose|k: int| 0 <= k < s2.len() && (#[trigger] s2[k]).0@ == id;
            assert(k < rs.len());
            assert(rs[k] == s2[k]);
            assert(reg_has(rs, id));
        }
    }
    assert forall|id: Seq<char>| id != p.0@ && reg_has(rs, id) implies #[trigger] reg_type(
        s2,
        id,
    ) == reg_type(rs, id) by {
        let k = choose|k: int| 0 <= k < rs.len() && (#[trigger] rs[k]).0@ == id;
        assert(s2[k] == rs[k]);
        lemma_reg_at_index(s2, k);
        lemma_reg_at_index(rs, k);
    }
}


/// The intermediate state of a store operation, after any row of the same id
/// in a foreign table has been evicted and before the record is written:
/// tables and registry still consistent, the id present only when it already
/// lives in the record's own table, and every other id untouched.
spec fn store_mid_ok(
    pre: SwapStore,
    mid: SwapStore,
    id: Seq<char>,
    t_new: SwapType,
    need_push: bool,
) -> bool {
    &&& tbl_ids_unique(mid.spec_table(SwapType::BtcToEvm))
    &&& tbl_ids_unique(mid.spec_table(SwapType::EvmToBtc))
    &&& tbl_ids_unique(mid.spec_table(SwapType::BtcToArkade))
    &&& (forall|t: SwapType, k: int|
        0 <= k < mid.spec_table(t).len() ==> (#[trigger] mid.spec_table(t)[k]).swap_type == t)
    &&& reg_ids_unique(mid.spec_registry())
    &&& (need_push ==> !reg_has(mid.spec_registry(), id))
    &&& (!need_push ==> reg_has(mid.spec_registry(), id) && reg_type(mid.spec_registry(), id)
        == t_new && reg_has(pre.spec_registry(), id))
    &&& (forall|t: SwapType|
        !tbl_contains(#[trigger] mid.spec_table(t), id) || (!need_push && t == t_new))
    &&& (forall|t: SwapType, id2: Seq<char>|
        id2 != id ==> (#[trigger] tbl_contains(mid.spec_table(t), id2) <==> tbl_contains(
            pre.spec_table(t),
            id2,
        )))
    &&& (forall|t: SwapType, id2: Seq<char>|
        id2 != id && #[trigger] tbl_contains(pre.spec_table(t), id2) ==> tbl_at(
            mid.spec_table(t),
            id2,
        ) == tbl_at(pre.spec_table(t), id2))
    &&& (forall|id2: Seq<char>|
        id2 != id ==> ((#[trigger] reg_has(mid.spec_registry(), id2)) <==> reg_has(
            pre.spec_registry(),
            id2,
        )))
    &&& (forall|id2: Seq<char>|
        id2 != id && #[trigger] reg_has(pre.spec_registry(), id2) ==> reg_type(
            mid.spec_registry(),
            id2,
        ) == reg_type(pre.spec_registry(), id2))
    &&& (forall|id2: Seq<char>|
        #[trigger] reg_has(mid.spec_registry(), id2) ==> tbl_contains(
            mid.spec_table(reg_type(mid.spec_registry(), id2)),
            id2,
        ))
    &&& (forall|t: SwapType, id2: Seq<char>|
        #[trigger] tbl_contains(mid.spec_table(t), id2) ==> reg_has(mid.spec_registry(), id2)
            && reg_type(mid.spec_registry(), id2) == t)
    &&& mid.spec_registry().len() == mid.spec_num_rows()
    &&& mid.spec_num_rows() == pre.spec_num_rows() - (if need_push && reg_has(
        pre.spec_registry(),
        id,
    ) {
        1int
    } else {
        0int
    })
}

/// Durable per-swap storage: one table per swap direction, and a registry
/// mapping each swap id to the table that holds it, so a lookup reads one
/// table only. Writes are idempotent upserts; last write wins.
pub struct SwapStore {
    btc_to_evm: Vec<SwapRecord>,
    evm_to_btc: Vec<SwapRecord>,
    btc_to_arkade: Vec<SwapRecord>,
    registry: Vec<(String, SwapType)>,
}

impl SwapStore {
    /// The table of one swap type.
    pub closed spec fn spec_table(self, t: SwapType) -> Seq<SwapRecord> {
        match t {
            SwapType::BtcToEvm => self.btc_to_evm@,
            SwapType::EvmToBtc => self.evm_to_btc@,
            SwapType::BtcToArkade => self.btc_to_arkade@,
        }
    }

    /// The registry, as a sequence of id and type pairs.
    pub closed spec fn spec_registry(self) -> Seq<(String, SwapType)> {
        self.registry@
    }

    /// The record a lookup of this id yields: the registry names the table,
    /// the table holds the record.
    pub closed spec fn spec_lookup(self, id: Seq<char>) -> SwapRecord {
        tbl_at(self.spec_table(reg_type(self.registry@, id)), id)
    }

    /// The store, read as a map from swap id to record.
    pub closed spec fn view(self) -> Map<Seq<char>, SwapRecord> {
        Map::new(
            |id: Seq<char>| reg_has(self.registry@, id),
            |id: Seq<char>| self.spec_lookup(id),
        )
    }

    /// Number of rows over all tables.
    pub closed spec fn spec_num_rows(self) -> int {
        self.btc_to_evm@.len() + self.evm_to_btc@.len() + self.btc_to_arkade@.len() as int
    }

    /// Well-formedness: ids unique within each table and in the registry,
    /// each table holding only records of its own type, the registry naming
    /// a table that really holds each registered id, every table row
    /// registered under its table's type, and one registry entry per row.
    pub closed spec fn wf(self) -> bool {
        &&& tbl_ids_unique(self.btc_to_evm@)
        &&& tbl_ids_unique(self.evm_to_btc@)
        &&& tbl_ids_unique(self.btc_to_arkade@)
        &&& (forall|k: int|
            0 <= k < self.btc_to_evm@.len() ==> (#[trigger] self.btc_to_evm@[k]).swap_type
                == SwapType::BtcToEvm)
        &&& (forall|k: int|
            0 <= k < self.evm_to_btc@.len() ==> (#[trigger] self.evm_to_btc@[k]).swap_type
                == SwapType::EvmToBtc)
        &&& (forall|k: int|
            0 <= k < self.btc_to_arkade@.len() ==> (#[trigger] self.btc_to_arkade@[k]).swap_type
                == SwapType::BtcToArkade)
        &&& reg_ids_unique(self.registry@)
        &&& (forall|id: Seq<char>|
            #[trigger] reg_has(self.registry@, id) ==> tbl_contains(
                self.spec_table(reg_type(self.registry@, id)),
                id,
            ))
        &&& (forall|t: SwapType, id: Seq<char>|
            #[trigger] tbl_contains(self.spec_table(t), id) ==> reg_has(self.registry@, id)
                && reg_type(self.registry@, id) == t)
        &&& self.registry@.len() == self.spec_num_rows()
    }

    /// An empty store.
    pub fn new() -> (r: SwapStore)
        ensures
            r.wf(),
            r@ == Map::<Seq<char>, SwapRecord>::empty(),
            r.spec_num_rows() == 0,
    {
        let r = SwapStore {
            btc_to_evm: Vec::new(),
            evm_to_btc: Vec::new(),
            btc_to_arkade: Vec::new(),
            registry: Vec::new(),
        };
        proof {
            assert forall|t: SwapType, id: Seq<char>|
                !(#[trigger] tbl_contains(r.spec_table(t), id)) by {
                if t == SwapType::BtcToEvm {
                } else if t == SwapType::EvmToBtc {
                }
            }
            assert(r@ =~= Map::<Seq<char>, SwapRecord>::empty());
        }
        r
    }

    /// Find a registry entry by id.
    fn reg_find(&self, id: &str) -> (r: Option<usize>)
        ensures
            match r {
                Some(i) => i < self.registry@.len() && self.registry@[i as int].0@ == id@,
                None => !reg_has(self.registry@, id@),
            },
    {
        let mut i: usize = 0;
        while i < self.registry.len()
            invariant
                i <= self.registry@.len(),
                forall|j: int| 0 <= j < i ==> (#[trigger] self.registry@[j]).0@ != id@,
            decreases self.registry@.len() - i,
        {
            if str_eq(self.registry[i].0.as_str(), id) {
                return Some(i);
            }
            i += 1;
        }
        None
    }

    /// Look a swap up by id: the registry names its table, and that table
    /// alone is searched. Returns the record if and only if the id is stored.
    pub fn get(&self, id: &str) -> (r: Option<&SwapRecord>)
        requires
            self.wf(),
        ensures
            r is Some <==> self@.contains_key(id@),
            r is Some ==> *r->0 == self@[id@],
    {
        let reg = self.reg_find(id);
        match reg {
            None => None,
            Some(i) => {
                let t = self.registry[i].1;
                proof {
                    lemma_reg_at_index(self.registry@, i as int);
                    assert(reg_has(self.registry@, id@));
                    assert(tbl_contains(self.spec_table(t), id@));
                }
                let table: &Vec<SwapRecord> = match t {
                    SwapType::BtcToEvm => &self.btc_to_evm,
                    SwapType::EvmToBtc => &self.evm_to_btc,
                    SwapType::BtcToArkade => &self.btc_to_arkade,
                };
                let j = tbl_find(table, id);
                match j {
                    Some(j) => {
                        proof {
                            lemma_tbl_at_index(table@, j as int);
                        }
                        Some(&table[j])
                    },
                    None => {
                        proof {
                            assert(false);
                        }
                        None
                    },
                }
            },
        }
    }

    /// Store a swap under its own id: an idempotent upsert, last write wins.
    /// If the id previously lived in another direction's table, that row is
    /// dropped first, so each id keeps exactly one row.
    #[verifier::rlimit(100)]
    pub fn store(&mut self, rec: SwapRecord)
        requires
            old(self).wf(),
        ensures
            final(self).wf(),
            final(self)@ == old(self)@.insert(rec.id@, rec),
            final(self).spec_num_rows() == old(self).spec_num_rows() + (if old(
                self,
            )@.contains_key(rec.id@) {
                0int
            } else {
                1int
            }),
    {
        let ghost pre = *self;
        let ghost id = rec.id@;
        let t_new = rec.swap_type;
        let id_copy = clone_string(&rec.id);
        let reg = self.reg_find(rec.id.as_str());
        let mut need_push: bool = true;
        match reg {
            Some(i) => {
                let t_old = self.registry[i].1;
                proof {
                    lemma_reg_at_index(pre.registry@, i as int);
                    assert(reg_has(pre.registry@, id));
                    assert(reg_type(pre.registry@, id) == t_old);
                    assert(tbl_contains(pre.spec_table(t_old), id));
                }
                if swap_type_eq(t_old, t_new) {
                    need_push = false;
                } else {
                    match t_old {
                        SwapType::BtcToEvm => tbl_delete(&mut self.btc_to_evm, id_copy.as_str()),
                        SwapType::EvmToBtc => tbl_delete(&mut self.evm_to_btc, id_copy.as_str()),
                        SwapType::BtcToArkade => tbl_delete(
                            &mut self.btc_to_arkade,
                            id_copy.as_str(),
                        ),
                    }
                    self.registry.remove(i);
                    proof {
                        lemma_reg_remove(pre.registry@, i as int);
                    }
                }
            },
            None => {
            },
        }
        let ghost mid = *self;
        proof {
            // Middle state: each table still well formed; the id registered
            // only when its table is already the record's own; every other
            // id present exactly as before, with its value and type.
            assert(tbl_ids_unique(mid.btc_to_evm@));
            assert(tbl_ids_unique(mid.evm_to_btc@));
            assert(tbl_ids_unique(mid.btc_to_arkade@));
            assert(reg_ids_unique(mid.registry@));
            assert(need_push ==> !reg_has(mid.registry@, id));
            assert(!need_push ==> reg_has(mid.registry@, id) && reg_type(mid.registry@, id)
                == t_new);
            assert forall|t: SwapType| !tbl_contains(#[trigger] mid.spec_table(t), id) || (
            !need_push && t == t_new) by {
                if tbl_contains(mid.spec_table(t), id) {
                    assert(tbl_contains(pre.spec_table(t), id));
                    assert(reg_type(pre.registry@, id) == t);
                }
            }
            assert forall|t: SwapType, id2: Seq<char>| id2 != id implies (#[trigger] tbl_contains(
                mid.spec_table(t),
                id2,
            ) <==> tbl_contains(pre.spec_table(t), id2)) by {}
            assert forall|t: SwapType, id2: Seq<char>|
                id2 != id && #[trigger] tbl_contains(pre.spec_table(t), id2) implies tbl_at(
                mid.spec_table(t),
                id2,
            ) == tbl_at(pre.spec_table(t), id2) by {}
            assert forall|id2: Seq<char>| id2 != id implies ((#[trigger] reg_has(
                mid.registry@,
                id2,
            )) <==> reg_has(pre.registry@, id2)) by {}
            assert forall|id2: Seq<char>| id2 != id && reg_has(pre.registry@, id2) implies
                #[trigger] reg_type(mid.registry@, id2) == reg_type(pre.registry@, id2) by {}
            assert forall|id2: Seq<char>| #[trigger] reg_has(mid.registry@, id2) implies
                tbl_contains(mid.spec_table(reg_type(mid.registry@, id2)), id2) by {
                if id2 == id {
                    assert(!need_push);
                } else {
                    assert(reg_has(pre.registry@, id2));
                    let t2 = reg_type(pre.registry@, id2);
                    assert(tbl_contains(pre.spec_table(t2), id2));
                    assert(tbl_contains(mid.spec_table(t2), id2));
                }
            }
            assert forall|t: SwapType, id2: Seq<char>|
                #[trigger] tbl_contains(mid.spec_table(t), id2) implies reg_has(
                mid.registry@,
                id2,
            ) && reg_type(mid.registry@, id2) == t by {
                if id2 == id {
                    assert(!need_push && t == t_new);
                } else {
                    assert(tbl_contains(pre.spec_table(t), id2));
                }
            }
            assert(mid.registry@.len() == mid.spec_num_rows());
            assert(mid.spec_num_rows() == pre.spec_num_rows() - (if need_push && reg_has(
                pre.registry@,
                id,
            ) {
                1int
            } else {
                0int
            }));
            assert forall|t: SwapType, k: int|
                0 <= k < mid.spec_table(t).len() implies (#[trigger] mid.spec_table(
                t,
            )[k]).swap_type == t by {
                if mid.spec_table(t) == pre.spec_table(t) {
                } else {
                    assert(pre.spec_table(t).contains(mid.spec_table(t)[k]));
                    let j = choose|j: int|
                        0 <= j < pre.spec_table(t).len() && pre.spec_table(t)[j] == mid.spec_table(
                            t,
                        )[k];
                }
            }
            assert(store_mid_ok(pre, mid, id, t_new, need_push));
        }
        match t_new {
            SwapType::BtcToEvm => tbl_upsert(&mut self.btc_to_evm, rec),
            SwapType::EvmToBtc => tbl_upsert(&mut self.evm_to_btc, rec),
            SwapType::BtcToArkade => tbl_upsert(&mut self.btc_to_arkade, rec),
        }
        if need_push {
            proof {
                assert(!reg_has(self.registry@, id));
            }
            self.registry.push((id_copy, t_new));
            proof {
                let ghost pair = self.registry@.last();
                assert(pair.0@ == id && pair.1 == t_new);
                lemma_reg_push(mid.registry@, pair);
            }
        }
        proof {
            let post = *self;
            assert(upsert_post(mid.spec_table(t_new), post.spec_table(t_new), rec));
            assert forall|t: SwapType| t != t_new implies #[trigger] post.spec_table(t)
                == mid.spec_table(t) by {}
            if need_push {
                let pair = post.registry@.last();
                assert(post.registry@ == mid.registry@.push(pair));
                assert(pair.0@ == id && pair.1 == t_new);
            } else {
                assert(post.registry@ == mid.registry@);
            }
            lemma_store_finish(pre, mid, post, rec, need_push);
        }
    }

    /// Delete the swap stored under `id`, if any: the row leaves its table
    /// and the registry entry is dropped.
    #[verifier::rlimit(100)]
    pub fn delete(&mut self, id: &str)
        requires
            old(self).wf(),
        ensures
            final(self).wf(),
            final(self)@ == old(self)@.remove(id@),
            final(self).spec_num_rows() == old(self).spec_num_rows() - (if old(
                self,
            )@.contains_key(id@) {
                1int
            } else {
                0int
            }),
    {
        let ghost pre = *self;
        let reg = self.reg_find(id);
        match reg {
            None => {
                proof {
                    assert(pre@ =~= pre@.remove(id@));
                }
            },
            Some(i) => {
                let t = self.registry[i].1;
                proof {
                    lemma_reg_at_index(pre.registry@, i as int);
                    assert(reg_has(pre.registry@, id@));
                    assert(reg_type(pre.registry@, id@) == t);
                    assert(tbl_contains(pre.spec_table(t), id@));
                }
                match t {
                    SwapType::BtcToEvm => tbl_delete(&mut self.btc_to_evm, id),
                    SwapType::EvmToBtc => tbl_delete(&mut self.evm_to_btc, id),
                    SwapType::BtcToArkade => tbl_delete(&mut self.btc_to_arkade, id),
                }
                self.registry.remove(i);
                proof {
                    lemma_reg_remove(pre.registry@, i as int);
                    let post = *self;
                    assert(delete_post(pre.spec_table(t), post.spec_table(t), id@));
                    assert forall|t2: SwapType| t2 != t implies #[trigger] post.spec_table(t2)
                        == pre.spec_table(t2) by {}
                    assert forall|k: int| 0 <= k < post.btc_to_evm@.len() implies (
                    #[trigger] post.btc_to_evm@[k]).swap_type == SwapType::BtcToEvm by {
                        if t == SwapType::BtcToEvm {
                            assert(pre.btc_to_evm@.contains(post.btc_to_evm@[k]));
                            let j = choose|j: int|
                                0 <= j < pre.btc_to_evm@.len() && pre.btc_to_evm@[j]
                                    == post.btc_to_evm@[k];
                        }
                    }
                    assert forall|k: int| 0 <= k < post.evm_to_btc@.len() implies (
                    #[trigger] post.evm_to_btc@[k]).swap_type == SwapType::EvmToBtc by {
                        if t == SwapType::EvmToBtc {
                            assert(pre.evm_to_btc@.contains(post.evm_to_btc@[k]));
                            let j = choose|j: int|
                                0 <= j < pre.evm_to_btc@.len() && pre.evm_to_btc@[j]
                                    == post.evm_to_btc@[k];
                        }
                    }
                    assert forall|k: int| 0 <= k < post.btc_to_arkade@.len() implies (
                    #[trigger] post.btc_to_arkade@[k]).swap_type == SwapType::BtcToArkade by {
                        if t == SwapType::BtcToArkade {
                            assert(pre.btc_to_arkade@.contains(post.btc_to_arkade@[k]));
                            let j = choose|j: int|
                                0 <= j < pre.btc_to_arkade@.len() && pre.btc_to_arkade@[j]
                                    == post.btc_to_arkade@[k];
                        }
                    }
                    assert forall|id2: Seq<char>| #[trigger] reg_has(post.registry@, id2) implies
                        tbl_contains(post.spec_table(reg_type(post.registry@, id2)), id2) by {
                        assert(id2 != id@);
                        assert(reg_has(pre.registry@, id2));
                        let t2 = reg_type(pre.registry@, id2);
                        assert(tbl_contains(pre.spec_table(t2), id2));
                        if t2 == t {
                            assert(tbl_contains(post.spec_table(t2), id2));
                        }
                    }
                    assert forall|t2: SwapType, id2: Seq<char>|
                        #[trigger] tbl_contains(post.spec_table(t2), id2) implies reg_has(
                        post.registry@,
                        id2,
                    ) && reg_type(post.registry@, id2) == t2 by {
                        if t2 == t {
                            assert(tbl_contains(pre.spec_table(t2), id2));
                            assert(id2 != id@);
                        } else {
                            assert(tbl_contains(pre.spec_table(t2), id2));
                            assert(id2 != id@) by {
                                if id2 == id@ {
                                    assert(reg_type(pre.registry@, id2) == t2);
                                }
                            }
                        }
                    }
                    assert(post.wf());
                    assert forall|id2: Seq<char>| #[trigger] reg_has(post.registry@, id2) implies
                        post.spec_lookup(id2) == pre.spec_lookup(id2) by {
                        assert(id2 != id@);
                        let t2 = reg_type(post.registry@, id2);
                        assert(t2 == reg_type(pre.registry@, id2));
                        assert(tbl_contains(pre.spec_table(t2), id2));
                        if t2 == t {
                            assert(tbl_at(post.spec_table(t2), id2) == tbl_at(
                                pre.spec_table(t2),
                                id2,
                            ));
                        } else {
                            assert(post.spec_table(t2) == pre.spec_table(t2));
                        }
                    }
                    assert(post@ =~= pre@.remove(id@));
                }
            },
        }
    }

    /// The stored swap ids, one per row, in registry order.
    pub fn list(&self) -> (r: Vec<String>)
        requires
            self.wf(),
        ensures
            r@.len() == self.spec_num_rows(),
            forall|k: int| 0 <= k < r@.len() ==> self@.contains_key((#[trigger] r@[k])@),
            forall|id: Seq<char>| self@.contains_key(id) ==> exists|k: int|
                0 <= k < r@.len() && (#[trigger] r@[k])@ == id,
            forall|a: int, b: int| 0 <= a < b < r@.len() ==> (#[trigger] r@[a])@ != (
            #[trigger] r@[b])@,
    {
        let mut out: Vec<String> = Vec::new();
        let mut i: usize = 0;
        while i < self.registry.len()
            invariant
                i <= self.registry@.len(),
                out@.len() == i,
                forall|k: int| 0 <= k < i ==> (#[trigger] out@[k])@ == self.registry@[k].0@,
            decreases self.registry@.len() - i,
        {
            out.push(clone_string(&self.registry[i].0));
            i += 1;
        }
        proof {
            assert forall|k: int| 0 <= k < out@.len() implies self@.contains_key(
                (#[trigger] out@[k])@,
            ) by {
                assert(reg_has(self.registry@, self.registry@[k].0@));
            }
            assert forall|id: Seq<char>| self@.contains_key(id) implies exists|k: int|
                0 <= k < out@.len() && (#[trigger] out@[k])@ == id by {
                let k = choose|k: int|
                    0 <= k < self.registry@.len() && (#[trigger] self.registry@[k]).0@ == id;
                assert(out@[k]@ == id);
            }
        }
        out
    }

    /// Every stored record, one per row: the three tables read out in order.
    pub fn get_all(&self) -> (r: Vec<&SwapRecord>)
        requires
            self.wf(),
        ensures
            r@.len() == self.spec_num_rows(),
            forall|k: int|
                0 <= k < r@.len() ==> self@.contains_key((#[trigger] r@[k]).id@)
                    && self@[r@[k].id@] == *r@[k],
    {
        let mut out: Vec<&SwapRecord> = Vec::new();
        let mut i: usize = 0;
        while i < self.btc_to_evm.len()
            invariant
                self.wf(),
                i <= self.btc_to_evm@.len(),
                out@.len() == i,
                forall|k: int|
                    0 <= k < out@.len() ==> self@.contains_key((#[trigger] out@[k]).id@)
                        && self@[out@[k].id@] == *out@[k],
            decreases self.btc_to_evm@.len() - i,
        {
            proof {
                self.lemma_row_in_view(SwapType::BtcToEvm, i as int);
            }
            out.push(&self.btc_to_evm[i]);
            i += 1;
        }
        let mut j: usize = 0;
        while j < self.evm_to_btc.len()
            invariant
                self.wf(),
                j <= self.evm_to_btc@.len(),
                out@.len() == self.btc_to_evm@.len() + j,
                forall|k: int|
                    0 <= k < out@.len() ==> self@.contains_key((#[trigger] out@[k]).id@)
                        && self@[out@[k].id@] == *out@[k],
            decreases self.evm_to_btc@.len() - j,
        {
            proof {
                self.lemma_row_in_view(SwapType::EvmToBtc, j as int);
            }
            out.push(&self.evm_to_btc[j]);
            j += 1;
        }
        let mut k: usize = 0;
        while k < self.btc_to_arkade.len()
            invariant
                self.wf(),
                k <= self.btc_to_arkade@.len(),
                out@.len() == self.btc_to_evm@.len() + self.evm_to_btc@.len() + k,
                forall|m: int|
                    0 <= m < out@.len() ==> self@.contains_key((#[trigger] out@[m]).id@)
                        && self@[out@[m].id@] == *out@[m],
            decreases self.btc_to_arkade@.len() - k,
        {
            proof {
                self.lemma_row_in_view(SwapType::BtcToArkade, k as int);
            }
            out.push(&self.btc_to_arkade[k]);
            k += 1;
        }
        out
    }

    /// Every table row of a well-formed store is what the map holds for its
    /// id.
    proof fn lemma_row_in_view(self, t: SwapType, k: int)
        requires
            self.wf(),
            0 <= k < self.spec_table(t).len(),
        ensures
            self@.contains_key(self.spec_table(t)[k].id@),
            self@[self.spec_table(t)[k].id@] == self.spec_table(t)[k],
    {
        let rec = self.spec_table(t)[k];
        let id = rec.id@;
        match t {
            SwapType::BtcToEvm => {
                lemma_tbl_at_index(self.btc_to_evm@, k);
            },
            SwapType::EvmToBtc => {
                lemma_tbl_at_index(self.evm_to_btc@, k);
            },
            SwapType::BtcToArkade => {
                lemma_tbl_at_index(self.btc_to_arkade@, k);
            },
        }
        assert(tbl_contains(self.spec_table(t), id));
        assert(reg_has(self.registry@, id) && reg_type(self.registry@, id) == t);
        assert(tbl_at(self.spec_table(t), id) == rec);
    }
}

/// Finishing a store: from the intermediate state, writing the record into
/// its own table and registering its id when new yields a well-formed store
/// whose map is the old map with the record inserted.
#[verifier::rlimit(100)]
proof fn lemma_store_finish(
    pre: SwapStore,
    mid: SwapStore,
    post: SwapStore,
    rec: SwapRecord,
    need_push: bool,
)
    requires
        pre.wf(),
        store_mid_ok(pre, mid, rec.id@, rec.swap_type, need_push),
        upsert_post(mid.spec_table(rec.swap_type), post.spec_table(rec.swap_type), rec),
        forall|t: SwapType|
            t != rec.swap_type ==> #[trigger] post.spec_table(t) == mid.spec_table(t),
        need_push ==> post.spec_registry() == mid.spec_registry().push(
            post.spec_registry().last(),
        ) && post.spec_registry().last().0@ == rec.id@ && post.spec_registry().last().1
            == rec.swap_type,
        !need_push ==> post.spec_registry() == mid.spec_registry(),
    ensures
        post.wf(),
        post@ == pre@.insert(rec.id@, rec),
        post.spec_num_rows() == pre.spec_num_rows() + (if pre@.contains_key(rec.id@) {
            0int
        } else {
            1int
        }),
{
    let id = rec.id@;
    let t_new = rec.swap_type;
    if need_push {
        assert(mid.spec_registry().len() < post.spec_registry().len());
        let pair = post.spec_registry().last();
        lemma_reg_push(mid.spec_registry(), pair);
    }
    if t_new == SwapType::BtcToEvm {
        assert(post.spec_table(SwapType::EvmToBtc) == mid.spec_table(SwapType::EvmToBtc));
        assert(post.spec_table(SwapType::BtcToArkade) == mid.spec_table(SwapType::BtcToArkade));
    } else if t_new == SwapType::EvmToBtc {
        assert(post.spec_table(SwapType::BtcToEvm) == mid.spec_table(SwapType::BtcToEvm));
        assert(post.spec_table(SwapType::BtcToArkade) == mid.spec_table(SwapType::BtcToArkade));
    } else {
        assert(post.spec_table(SwapType::BtcToEvm) == mid.spec_table(SwapType::BtcToEvm));
        assert(post.spec_table(SwapType::EvmToBtc) == mid.spec_table(SwapType::EvmToBtc));
    }
    if need_push {
        assert(!tbl_contains(mid.spec_table(t_new), id));
    } else {
        assert(tbl_contains(mid.spec_table(t_new), id));
    }
    assert(tbl_ids_unique(post.spec_table(SwapType::BtcToEvm)));
    assert(tbl_ids_unique(post.spec_table(SwapType::EvmToBtc)));
    assert(tbl_ids_unique(post.spec_table(SwapType::BtcToArkade)));
    assert(post.spec_num_rows() == mid.spec_num_rows() + (if need_push {
        1int
    } else {
        0int
    }));
    assert(reg_has(post.spec_registry(), id) && reg_type(post.spec_registry(), id) == t_new);
    assert forall|id2: Seq<char>| id2 != id implies ((#[trigger] reg_has(
        post.spec_registry(),
        id2,
    )) <==> reg_has(pre.spec_registry(), id2)) by {}
    assert forall|id2: Seq<char>| id2 != id && reg_has(pre.spec_registry(), id2) implies
        #[trigger] reg_type(post.spec_registry(), id2) == reg_type(pre.spec_registry(), id2) by {}
    // Each table still holds only records of its own type.
    assert forall|t: SwapType, k: int|
        0 <= k < post.spec_table(t).len() implies (#[trigger] post.spec_table(t)[k]).swap_type
        == t by {
        if t == t_new {
            if post.spec_table(t)[k] != rec {
                assert(mid.spec_table(t).contains(post.spec_table(t)[k]));
                let j = choose|j: int|
                    0 <= j < mid.spec_table(t).len() && mid.spec_table(t)[j] == post.spec_table(
                        t,
                    )[k];
            }
        } else {
            assert(post.spec_table(t) == mid.spec_table(t));
        }
    }
    // Registry and tables agree.
    assert forall|id2: Seq<char>| #[trigger] reg_has(post.spec_registry(), id2) implies
        tbl_contains(post.spec_table(reg_type(post.spec_registry(), id2)), id2) by {
        if id2 != id {
            assert(reg_has(mid.spec_registry(), id2));
            let t2 = reg_type(post.spec_registry(), id2);
            assert(t2 == reg_type(mid.spec_registry(), id2));
            assert(tbl_contains(mid.spec_table(t2), id2));
            if t2 == t_new {
                assert(tbl_contains(post.spec_table(t2), id2));
            }
        }
    }
    assert forall|t: SwapType, id2: Seq<char>|
        #[trigger] tbl_contains(post.spec_table(t), id2) implies reg_has(
        post.spec_registry(),
        id2,
    ) && reg_type(post.spec_registry(), id2) == t by {
        if t == t_new && id2 == id {
        } else if t == t_new {
            assert(tbl_contains(mid.spec_table(t), id2));
        } else {
            assert(tbl_contains(mid.spec_table(t), id2));
        }
    }
    assert(post.spec_registry().len() == post.spec_num_rows());
    assert(post.wf());
    // The final map is the old map with the record inserted.
    assert forall|id2: Seq<char>| #[trigger] reg_has(post.spec_registry(), id2) && id2 != id
        implies post.spec_lookup(id2) == pre.spec_lookup(id2) by {
        let t2 = reg_type(post.spec_registry(), id2);
        assert(t2 == reg_type(pre.spec_registry(), id2));
        assert(reg_has(pre.spec_registry(), id2));
        assert(tbl_contains(pre.spec_table(t2), id2));
        assert(tbl_at(mid.spec_table(t2), id2) == tbl_at(pre.spec_table(t2), id2));
        if t2 == t_new {
            assert(tbl_at(post.spec_table(t2), id2) == tbl_at(mid.spec_table(t2), id2));
        } else {
            assert(post.spec_table(t2) == mid.spec_table(t2));
        }
    }
    assert(post.spec_lookup(id) == rec);
    assert(post@ =~= pre@.insert(id, rec));
    assert(pre@.contains_key(id) == reg_has(pre.spec_registry(), id));
}

/// Storing a record and then looking its id up returns that record: the
/// store's map holds the stored value under the stored key, whatever was
/// there before and whichever direction the swap has.
pub proof fn lemma_store_get_round_trip(pre: SwapStore, post: SwapStore, rec: SwapRecord)
    requires
        post@ == pre@.insert(rec.id@, rec),
    ensures
        post@.contains_key(rec.id@),
        post@[rec.id@] == rec,
{
}

/// Storing twice under one id is the same as storing the latest record
/// once, and the second store adds no row: upsert is idempotent and last
/// write wins.
pub proof fn lemma_store_idempotent(
    s0: SwapStore,
    s1: SwapStore,
    s2: SwapStore,
    r1: SwapRecord,
    r2: SwapRecord,
)
    requires
        r1.id@ == r2.id@,
        s1@ == s0@.insert(r1.id@, r1),
        s2@ == s1@.insert(r2.id@, r2),
        s2.spec_num_rows() == s1.spec_num_rows() + (if s1@.contains_key(r2.id@) {
            0int
        } else {
            1int
        }),
    ensures
        s2@ == s0@.insert(r2.id@, r2),
        s2.spec_num_rows() == s1.spec_num_rows(),
{
    assert(s1@.contains_key(r2.id@));
    assert(s2@ =~= s0@.insert(r2.id@, r2));
}


/// The secret bundle as a storage row: each field hex-encoded in its own
/// column, so secrets can be selectively redacted or wiped.
pub struct SwapParamsRow {
    pub secret_key: String,
    pub public_key: String,
    pub preimage: String,
    pub preimage_hash: String,
    pub user_id: String,
    pub key_index: i64,
}

/// Encode the secret bundle into its hex columns.
pub fn encode_swap_params(p: &SwapParams) -> (r: SwapParamsRow)
    ensures
        r.secret_key@ == crate::hexutil::spec_hex_of(p.secret_key@),
        r.public_key@ == crate::hexutil::spec_hex_of(p.public_key@),
        r.preimage@ == crate::hexutil::spec_hex_of(p.preimage@),
        r.preimage_hash@ == crate::hexutil::spec_hex_of(p.preimage_hash@),
        r.user_id@ == crate::hexutil::spec_hex_of(p.user_id@),
        r.key_index == p.key_index as i64,
{
    SwapParamsRow {
        secret_key: crate::hexutil::to_hex(p.secret_key.as_slice()),
        public_key: crate::hexutil::to_hex(p.public_key.as_slice()),
        preimage: crate::hexutil::to_hex(p.preimage.as_slice()),
        preimage_hash: crate::hexutil::to_hex(p.preimage_hash.as_slice()),
        user_id: crate::hexutil::to_hex(p.user_id.as_slice()),
        key_index: p.key_index as i64,
    }
}

/// Decode the secret bundle from its hex columns, rejecting a column that is
/// not hex, a key that secp256k1 rejects, a preimage or hash that is not
/// thirty-two bytes, or an index outside the key range.
pub fn parse_swap_params(
    secret_key: &str,
    public_key: &str,
    preimage: &str,
    preimage_hash: &str,
    user_id: &str,
    key_index: i64,
) -> (r: Result<SwapParams, WalletError>)
    ensures
        r is Ok <==> ({
            &&& crate::hexutil::spec_valid_hex(secret_key@)
            &&& crate::hexutil::spec_valid_hex(public_key@)
            &&& crate::hexutil::spec_valid_hex(preimage@)
            &&& crate::hexutil::spec_valid_hex(preimage_hash@)
            &&& crate::hexutil::spec_valid_hex(user_id@)
            &&& crate::keys::spec_is_valid_secret_key(
                crate::hexutil::spec_hex_decode(secret_key@),
            )
            &&& crate::keys::spec_is_valid_public_key(
                crate::hexutil::spec_hex_decode(public_key@),
            )
            &&& crate::hexutil::spec_hex_decode(preimage@).len() == 32
            &&& crate::hexutil::spec_hex_decode(preimage_hash@).len() == 32
            &&& crate::keys::spec_is_valid_public_key(crate::hexutil::spec_hex_decode(user_id@))
            &&& 0 <= key_index <= u32::MAX as i64
        }),
        r is Ok ==> {
            let p = r->Ok_0;
            &&& p.secret_key@ == crate::hexutil::spec_hex_decode(secret_key@)
            &&& p.public_key@ == crate::hexutil::spec_hex_decode(public_key@)
            &&& p.preimage@ == crate::hexutil::spec_hex_decode(preimage@)
            &&& p.preimage_hash@ == crate::hexutil::spec_hex_decode(preimage_hash@)
            &&& p.user_id@ == crate::hexutil::spec_hex_decode(user_id@)
            &&& p.key_index as i64 == key_index
        },
        r is Err ==> r->Err_0 == WalletError::InvalidInput,
{
    let sk = crate::hexutil::from_hex(secret_key)?;
    if !crate::keys::is_valid_secret_key(&sk) {
        return Err(WalletError::InvalidInput);
    }
    let pk = crate::hexutil::from_hex(public_key)?;
    if !crate::keys::is_valid_public_key(&pk) {
        return Err(WalletError::InvalidInput);
    }
    let pre = crate::hexutil::from_hex(preimage)?;
    if pre.len() != 32 {
        return Err(WalletError::InvalidInput);
    }
    let hash = crate::hexutil::from_hex(preimage_hash)?;
    if hash.len() != 32 {
        return Err(WalletError::InvalidInput);
    }
    let uid = crate::hexutil::from_hex(user_id)?;
    if !crate::keys::is_valid_public_key(&uid) {
        return Err(WalletError::InvalidInput);
    }
    if key_index < 0 || key_index > u32::MAX as i64 {
        return Err(WalletError::InvalidInput);
    }
    Ok(
        SwapParams {
            secret_key: sk,
            public_key: pk,
            preimage: pre,
            preimage_hash: hash,
            user_id: uid,
            key_index: key_index as u32,
        },
    )
}


/// The shape of a UUID: thirty-six characters, hyphens at the four fixed
/// positions, hexadecimal digits everywhere else.
pub open spec fn spec_is_uuid(s: Seq<char>) -> bool {
    s.len() == 36 && (forall|i: int|
        0 <= i < 36 ==> (if i == 8 || i == 13 || i == 18 || i == 23 {
            #[trigger] s[i] == '-'
        } else {
            crate::hexutil::spec_is_hex_char(s[i])
        }))
}

/// Whether the text has the shape of a UUID.
pub fn is_valid_uuid(s: &str) -> (r: bool)
    ensures
        r == spec_is_uuid(s@),
{
    let n = s.unicode_len();
    if n != 36 {
        return false;
    }
    let mut i: usize = 0;
    while i < 36
        invariant
            i <= 36,
            s@.len() == 36,
            forall|j: int|
                0 <= j < i ==> (if j == 8 || j == 13 || j == 18 || j == 23 {
                    #[trigger] s@[j] == '-'
                } else {
                    crate::hexutil::spec_is_hex_char(s@[j])
                }),
        decreases 36 - i,
    {
        let c = s.get_char(i);
        if i == 8 || i == 13 || i == 18 || i == 23 {
            if c != '-' {
                return false;
            }
        } else {
            if !is_hex_char(c) {
                return false;
            }
        }
        i += 1;
    }
    true
}

/// Whether the character is a hexadecimal digit.
fn is_hex_char(c: char) -> (r: bool)
    ensures
        r == crate::hexutil::spec_is_hex_char(c),
{
    let n = c as u32;
    (48 <= n && n <= 57) || (97 <= n && n <= 102) || (65 <= n && n <= 70)
}

/// What may follow the seconds of a timestamp: the zulu mark, or a
/// plus-or-minus hour-and-minute offset.
pub open spec fn spec_rfc3339_offset(t: Seq<char>) -> bool {
    ||| (t.len() == 1 && (t[0] == 'Z' || t[0] == 'z'))
    ||| (t.len() == 6 && (t[0] == '+' || t[0] == '-') && crate::uri::spec_is_digit(t[1])
        && crate::uri::spec_is_digit(t[2]) && t[3] == ':' && crate::uri::spec_is_digit(t[4])
        && crate::uri::spec_is_digit(t[5]))
}

/// A run of fractional digits ending in an offset.
pub open spec fn spec_rfc3339_frac(t: Seq<char>) -> bool
    decreases t.len(),
{
    if t.len() == 0 {
        false
    } else if crate::uri::spec_is_digit(t[0]) {
        spec_rfc3339_frac(t.drop_first())
    } else {
        spec_rfc3339_offset(t)
    }
}

/// The shape of a timestamp as the counterparty writes it: date, the time
/// mark, time, an optional fraction, and the zone; digits and separators at
/// their fixed places. A shape check only: field ranges are not validated.
pub open spec fn spec_is_rfc3339_shape(s: Seq<char>) -> bool {
    &&& s.len() >= 20
    &&& (forall|i: int|
        0 <= i < 19 ==> (if i == 4 || i == 7 {
            #[trigger] s[i] == '-'
        } else if i == 10 {
            s[i] == 'T' || s[i] == 't'
        } else if i == 13 || i == 16 {
            s[i] == ':'
        } else {
            crate::uri::spec_is_digit(s[i])
        }))
    &&& {
        let t = s.skip(19);
        if t[0] == '.' {
            t.len() >= 2 && crate::uri::spec_is_digit(t[1]) && spec_rfc3339_frac(t.skip(1))
        } else {
            spec_rfc3339_offset(t)
        }
    }
}

/// Whether the text has the shape of such a timestamp.
pub fn is_rfc3339_shape(s: &str) -> (r: bool)
    ensures
        r == spec_is_rfc3339_shape(s@),
{
    let n = s.unicode_len();
    if n < 20 {
        return false;
    }
    let mut i: usize = 0;
    while i < 19
        invariant
            i <= 19,
            s@.len() >= 20,
            n == s@.len(),
            forall|j: int|
                0 <= j < i ==> (if j == 4 || j == 7 {
                    #[trigger] s@[j] == '-'
                } else if j == 10 {
                    s@[j] == 'T' || s@[j] == 't'
                } else if j == 13 || j == 16 {
                    s@[j] == ':'
                } else {
                    crate::uri::spec_is_digit(s@[j])
                }),
        decreases 19 - i,
    {
        let c = s.get_char(i);
        let ok = if i == 4 || i == 7 {
            c == '-'
        } else if i == 10 {
            c == 'T' || c == 't'
        } else if i == 13 || i == 16 {
            c == ':'
        } else {
            is_digit_char(c)
        };
        if !ok {
            return false;
        }
        i += 1;
    }
    let ghost tail = s@.skip(19);
    let c19 = s.get_char(19);
    proof {
        assert(tail[0] == s@[19]);
    }
    if c19 == '.' {
        if n < 21 {
            return false;
        }
        if !is_digit_char(s.get_char(20)) {
            proof {
                assert(tail[1] == s@[20]);
            }
            return false;
        }
        proof {
            assert(tail.len() >= 2 && crate::uri::spec_is_digit(tail[1]));
        }
        let mut k: usize = 20;
        while k < n && is_digit_char_at(s, k)
            invariant
                20 <= k <= n,
                n == s@.len(),
                s@.len() >= 21,
                tail == s@.skip(19),
                forall|j: int| 20 <= j < k ==> crate::uri::spec_is_digit(#[trigger] s@[j]),
                spec_rfc3339_frac(s@.skip(20)) == spec_rfc3339_frac(s@.skip(k as int)),
            decreases n - k,
        {
            proof {
                assert(s@.skip(k as int)[0] == s@[k as int]);
                assert(s@.skip(k as int).drop_first() =~= s@.skip(k + 1));
            }
            k += 1;
        }
        proof {
            assert(tail.skip(1) =~= s@.skip(20));
            if k < n {
                assert(s@.skip(k as int)[0] == s@[k as int]);
                assert(spec_rfc3339_frac(s@.skip(k as int)) == spec_rfc3339_offset(
                    s@.skip(k as int),
                ));
            }
        }
        if k == n {
            proof {
                assert(s@.skip(k as int) =~= Seq::<char>::empty());
            }
            return false;
        }
        check_offset(s, k)
    } else {
        check_offset(s, 19)
    }
}

/// Whether the character is a decimal digit.
fn is_digit_char(c: char) -> (r: bool)
    ensures
        r == crate::uri::spec_is_digit(c),
{
    let n = c as u32;
    48 <= n && n <= 57
}

/// Whether the character at one position is a decimal digit.
fn is_digit_char_at(s: &str, i: usize) -> (r: bool)
    requires
        i < s@.len(),
    ensures
        r == crate::uri::spec_is_digit(s@[i as int]),
{
    is_digit_char(s.get_char(i))
}

/// Check the zone part beginning at `from`.
fn check_offset(s: &str, from: usize) -> (r: bool)
    requires
        from < s@.len(),
    ensures
        r == spec_rfc3339_offset(s@.skip(from as int)),
{
    let ghost t = s@.skip(from as int);
    let n = s.unicode_len();
    let len = n - from;
    proof {
        assert(t.len() == n - from);
        assert forall|j: int| 0 <= j < t.len() implies #[trigger] t[j] == s@[from + j] by {}
    }
    if len == 1 {
        let c = s.get_char(from);
        c == 'Z' || c == 'z'
    } else if len == 6 {
        let c0 = s.get_char(from);
        (c0 == '+' || c0 == '-') && is_digit_char(s.get_char(from + 1)) && is_digit_char(
            s.get_char(from + 2),
        ) && s.get_char(from + 3) == ':' && is_digit_char(s.get_char(from + 4)) && is_digit_char(
            s.get_char(from + 5),
        )
    } else {
        false
    }
}

/// One stored VTXO-to-VTXO swap: identity, the smaller status machine's
/// state, both sides' virtual hash-time-locked contracts as plain values,
/// the common parameters, and the secret bundle.
#[derive(Clone, Debug, PartialEq, Eq)]
pub struct VtxoSwapRecord {
    pub id: String,
    pub status: crate::swap_status::VtxoSwapStatus,
    pub created_at: String,
    pub client_vhtlc_address: String,
    pub client_fund_amount_sats: i64,
    pub client_pk: String,
    pub client_locktime: u64,
    pub client_unilateral_claim_delay: i64,
    pub client_unilateral_refund_delay: i64,
    pub client_unilateral_refund_without_receiver_delay: i64,
    pub server_vhtlc_address: String,
    pub server_fund_amount_sats: i64,
    pub server_pk: String,
    pub server_locktime: u64,
    pub server_unilateral_claim_delay: i64,
    pub server_unilateral_refund_delay: i64,
    pub server_unilateral_refund_without_receiver_delay: i64,
    pub arkade_server_pk: String,
    pub preimage_hash: String,
    pub fee_sats: i64,
    pub network: String,
    pub params: SwapParams,
}

/// A VTXO swap as a storage row: statuses by wire name, locktimes as the
/// signed integers a database column holds, the secret bundle hex-encoded.
pub struct VtxoSwapRow {
    pub swap_id: String,
    pub status: String,
    pub created_at: String,
    pub client_vhtlc_address: String,
    pub client_fund_amount_sats: i64,
    pub client_pk: String,
    pub client_locktime: i64,
    pub client_unilateral_claim_delay: i64,
    pub client_unilateral_refund_delay: i64,
    pub client_unilateral_refund_without_receiver_delay: i64,
    pub server_vhtlc_address: String,
    pub server_fund_amount_sats: i64,
    pub server_pk: String,
    pub server_locktime: i64,
    pub server_unilateral_claim_delay: i64,
    pub server_unilateral_refund_delay: i64,
    pub server_unilateral_refund_without_receiver_delay: i64,
    pub arkade_server_pk: String,
    pub preimage_hash_response: String,
    pub fee_sats: i64,
    pub network: String,
    pub secret_key: String,
    pub public_key: String,
    pub preimage: String,
    pub preimage_hash_params: String,
    pub user_id: String,
    pub key_index: i64,
}

/// Parse a VTXO swap from its storage row: the id must have the shape of a
/// UUID, the status must be a wire name, the creation time must have the
/// shape of a timestamp, the locktimes must be non-negative, and the secret
/// columns must decode as `parse_swap_params` demands; everything else is
/// carried as it stands.
pub fn parse_vtxo_swap_row(row: &VtxoSwapRow) -> (r: Result<VtxoSwapRecord, WalletError>)
    ensures
        r is Ok <==> ({
            &&& spec_is_uuid(row.swap_id@)
            &&& crate::swap_status::spec_vtxo_status_of_name(row.status@) is Some
            &&& spec_is_rfc3339_shape(row.created_at@)
            &&& row.client_locktime >= 0
            &&& row.server_locktime >= 0
            &&& crate::hexutil::spec_valid_hex(row.secret_key@)
            &&& crate::hexutil::spec_valid_hex(row.public_key@)
            &&& crate::hexutil::spec_valid_hex(row.preimage@)
            &&& crate::hexutil::spec_valid_hex(row.preimage_hash_params@)
            &&& crate::hexutil::spec_valid_hex(row.user_id@)
            &&& crate::keys::spec_is_valid_secret_key(
                crate::hexutil::spec_hex_decode(row.secret_key@),
            )
            &&& crate::keys::spec_is_valid_public_key(
                crate::hexutil::spec_hex_decode(row.public_key@),
            )
            &&& crate::hexutil::spec_hex_decode(row.preimage@).len() == 32
            &&& crate::hexutil::spec_hex_decode(row.preimage_hash_params@).len() == 32
            &&& crate::keys::spec_is_valid_public_key(
                crate::hexutil::spec_hex_decode(row.user_id@),
            )
            &&& 0 <= row.key_index <= u32::MAX as i64
        }),
        r is Ok ==> ({
            let rec = r->Ok_0;
            &&& rec.id@ == row.swap_id@
            &&& Some(rec.status) == crate::swap_status::spec_vtxo_status_of_name(row.status@)
            &&& rec.created_at@ == row.created_at@
            &&& rec.client_vhtlc_address@ == row.client_vhtlc_address@
            &&& rec.client_fund_amount_sats == row.client_fund_amount_sats
            &&& rec.client_pk@ == row.client_pk@
            &&& rec.client_locktime as i64 == row.client_locktime
            &&& rec.server_vhtlc_address@ == row.server_vhtlc_address@
            &&& rec.server_fund_amount_sats == row.server_fund_amount_sats
            &&& rec.server_pk@ == row.server_pk@
            &&& rec.server_locktime as i64 == row.server_locktime
            &&& rec.arkade_server_pk@ == row.arkade_server_pk@
            &&& rec.preimage_hash@ == row.preimage_hash_response@
            &&& rec.fee_sats == row.fee_sats
            &&& rec.network@ == row.network@
            &&& rec.params.secret_key@ == crate::hexutil::spec_hex_decode(row.secret_key@)
            &&& rec.params.preimage@ == crate::hexutil::spec_hex_decode(row.preimage@)
            &&& rec.params.key_index as i64 == row.key_index
        }),
        r is Err ==> r->Err_0 == WalletError::InvalidInput,
{
    if !is_valid_uuid(row.swap_id.as_str()) {
        return Err(WalletError::InvalidInput);
    }
    let status = crate::swap_status::parse_vtxo_swap_status(row.status.as_str())?;
    if !is_rfc3339_shape(row.created_at.as_str()) {
        return Err(WalletError::InvalidInput);
    }
    if row.client_locktime < 0 || row.server_locktime < 0 {
        return Err(WalletError::InvalidInput);
    }
    let params = parse_swap_params(
        row.secret_key.as_str(),
        row.public_key.as_str(),
        row.preimage.as_str(),
        row.preimage_hash_params.as_str(),
        row.user_id.as_str(),
        row.key_index,
    )?;
    Ok(
        VtxoSwapRecord {
            id: clone_string(&row.swap_id),
            status,
            created_at: clone_string(&row.created_at),
            client_vhtlc_address: clone_string(&row.client_vhtlc_address),
            client_fund_amount_sats: row.client_fund_amount_sats,
            client_pk: clone_string(&row.client_pk),
            client_locktime: row.client_locktime as u64,
            client_unilateral_claim_delay: row.client_unilateral_claim_delay,
            client_unilateral_refund_delay: row.client_unilateral_refund_delay,
            client_unilateral_refund_without_receiver_delay: row
                .client_unilateral_refund_without_receiver_delay,
            server_vhtlc_address: clone_string(&row.server_vhtlc_address),
            server_fund_amount_sats: row.server_fund_amount_sats,
            server_pk: clone_string(&row.server_pk),
            server_locktime: row.server_locktime as u64,
            server_unilateral_claim_delay: row.server_unilateral_claim_delay,
            server_unilateral_refund_delay: row.server_unilateral_refund_delay,
            server_unilateral_refund_without_receiver_delay: row
                .server_unilateral_refund_without_receiver_delay,
            arkade_server_pk: clone_string(&row.arkade_server_pk),
            preimage_hash: clone_string(&row.preimage_hash_response),
            fee_sats: row.fee_sats,
            network: clone_string(&row.network),
            params,
        },
    )
}

} // verus!
