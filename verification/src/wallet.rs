use vstd::prelude::*;
use vstd::multiset::Multiset;
use crate::lendasat::clone_string;

verus! {

broadcast use vstd::seq_lib::group_to_multiset_ensures;

/// The off-chain balance: funds awaiting confirmation, confirmed funds, and
/// their total, all in satoshis.
pub struct OffchainBalance {
    pub pending_sats: u64,
    pub confirmed_sats: u64,
    pub total_sats: u64,
}

/// The total of a well-formed balance is the sum of its parts.
pub open spec fn spec_balance_wf(b: OffchainBalance) -> bool {
    b.total_sats == b.pending_sats + b.confirmed_sats
}

impl OffchainBalance {
    /// Build a balance from its parts; the total is the sum, never stored
    /// apart from it.
    pub fn new(pending_sats: u64, confirmed_sats: u64) -> (r: OffchainBalance)
        requires
            pending_sats + confirmed_sats <= u64::MAX,
        ensures
            spec_balance_wf(r),
            r.pending_sats == pending_sats,
            r.confirmed_sats == confirmed_sats,
    {
        OffchainBalance {
            pending_sats,
            confirmed_sats,
            total_sats: pending_sats + confirmed_sats,
        }
    }
}

/// Server connection facts shown to the user.
pub struct Info {
    pub server_pk: String,
    pub network: String,
}

/// One entry of the wallet's history: on-chain boarding, a commitment round,
/// an off-chain redemption, or an off-chain to on-chain send.
pub enum Transaction {
    Boarding { txid: String, amount_sats: u64, confirmed_at: Option<i64> },
    Round { txid: String, amount_sats: i64, created_at: i64 },
    Redeem { txid: String, amount_sats: i64, is_settled: bool, created_at: i64 },
    Offboard { txid: String, amount_sats: i64, confirmed_at: Option<i64> },
}

/// When a history entry happened: its creation time, a boarding or offboard
/// entry counting from its confirmation, zero while unconfirmed.
pub open spec fn spec_tx_time(t: Transaction) -> int {
    match t {
        Transaction::Boarding { confirmed_at, .. } => match confirmed_at {
            Some(c) => c as int,
            None => 0,
        },
        Transaction::Round { created_at, .. } => created_at as int,
        Transaction::Redeem { created_at, .. } => created_at as int,
        Transaction::Offboard { confirmed_at, .. } => match confirmed_at {
            Some(c) => c as int,
            None => 0,
        },
    }
}

/// Newest first.
pub open spec fn spec_sorted_newest_first(s: Seq<Transaction>) -> bool {
    forall|i: int, j: int|
        0 <= i < j < s.len() ==> #[trigger] spec_tx_time(s[i]) >= #[trigger] spec_tx_time(s[j])
}

/// When a history entry happened, as the sort reads it.
fn tx_time(t: &Transaction) -> (r: i64)
    ensures
        r as int == spec_tx_time(*t),
{
    match t {
        Transaction::Boarding { confirmed_at, .. } => {
            match confirmed_at {
                Some(c) => *c,
                None => 0,
            }
        },
        Transaction::Round { created_at, .. } => *created_at,
        Transaction::Redeem { created_at, .. } => *created_at,
        Transaction::Offboard { confirmed_at, .. } => {
            match confirmed_at {
                Some(c) => *c,
                None => 0,
            }
        },
    }
}

/// Clone a history entry.
fn clone_tx(t: &Transaction) -> (r: Transaction)
    ensures
        r == *t,
{
    match t {
        Transaction::Boarding { txid, amount_sats, confirmed_at } => Transaction::Boarding {
            txid: clone_string(txid),
            amount_sats: *amount_sats,
            confirmed_at: *confirmed_at,
        },
        Transaction::Round { txid, amount_sats, created_at } => Transaction::Round {
            txid: clone_string(txid),
            amount_sats: *amount_sats,
            created_at: *created_at,
        },
        Transaction::Redeem { txid, amount_sats, is_settled, created_at } => Transaction::Redeem {
            txid: clone_string(txid),
            amount_sats: *amount_sats,
            is_settled: *is_settled,
            created_at: *created_at,
        },
        Transaction::Offboard { txid, amount_sats, confirmed_at } => Transaction::Offboard {
            txid: clone_string(txid),
            amount_sats: *amount_sats,
            confirmed_at: *confirmed_at,
        },
    }
}

/// The wallet's history, newest transactions first: the same entries, sorted
/// descending by when they happened.
pub fn sort_tx_history(txs: Vec<Transaction>) -> (r: Vec<Transaction>)
    ensures
        r@.to_multiset() == txs@.to_multiset(),
        spec_sorted_newest_first(r@),
        r@.len() == txs@.len(),
{
    let mut rest = txs;
    let ghost orig = rest@;
    let mut out: Vec<Transaction> = Vec::new();
    while rest.len() > 0
        invariant
            out@.to_multiset().add(rest@.to_multiset()) =~= orig.to_multiset(),
            out@.len() + rest@.len() == orig.len(),
            spec_sorted_newest_first(out@),
            forall|i: int, j: int|
                0 <= i < out@.len() && 0 <= j < rest@.len() ==> #[trigger] spec_tx_time(out@[i])
                    >= #[trigger] spec_tx_time(rest@[j]),
        decreases rest@.len(),
    {
        let mut m: usize = 0;
        let mut k: usize = 1;
        while k < rest.len()
            invariant
                m < k <= rest@.len(),
                rest@.len() > 0,
                forall|j: int|
                    0 <= j < k ==> spec_tx_time(rest@[m as int]) >= #[trigger] spec_tx_time(
                        rest@[j],
                    ),
            decreases rest@.len() - k,
        {
            if tx_time(&rest[k]) > tx_time(&rest[m]) {
                m = k;
            }
            k += 1;
        }
        let ghost pre = rest@;
        let x = rest.remove(m);
        proof {
            assert(pre.remove(m as int).to_multiset() =~= pre.to_multiset().remove(x));
            assert(out@.push(x).to_multiset() =~= out@.to_multiset().insert(x));
            assert(out@.push(x).to_multiset().add(rest@.to_multiset()) =~= orig.to_multiset());
            assert forall|j: int| 0 <= j < rest@.len() implies spec_tx_time(x)
                >= #[trigger] spec_tx_time(rest@[j]) by {
                if j < m {
                    assert(rest@[j] == pre[j]);
                } else {
                    assert(rest@[j] == pre[j + 1]);
                }
            }
        }
        out.push(x);
    }
    proof {
        assert(rest@.to_multiset() =~= Multiset::<Transaction>::empty());
        assert(out@.to_multiset() =~= orig.to_multiset());
    }
    out
}

} // verus!
