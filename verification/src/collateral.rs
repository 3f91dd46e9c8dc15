use vstd::prelude::*;
use vstd::multiset::Multiset;
use crate::errors::WalletError;
use crate::lendasat::clone_string;

verus! {

broadcast use vstd::seq_lib::group_to_multiset_ensures;

/// Minimum time, in seconds, that a VTXO must still have until expiry for
/// the coordinator to accept it in a redemption: thirty days.
pub const MIN_EXPIRY_GAP_SECONDS: i64 = 30 * 24 * 60 * 60;

/// A transaction output reference.
#[derive(Debug)]
pub struct Outpoint {
    pub txid: String,
    pub vout: u32,
}

/// A spendable off-chain virtual output: where it sits, what it is worth,
/// and when the coordinator lets it lapse.
#[derive(Debug)]
pub struct Vtxo {
    pub outpoint: Outpoint,
    pub amount_sats: u64,
    pub expires_at: i64,
}

/// A confirmed or pending on-chain output at a boarding address, waiting to
/// be settled into the off-chain protocol.
pub struct BoardingUtxo {
    pub txid: String,
    pub vout: u32,
    pub amount_sats: u64,
    pub is_confirmed: bool,
}

/// A VTXO is eligible for a new redemption exactly when its expiry lies
/// beyond `now` plus the minimum expiry gap.
pub open spec fn spec_eligible(v: Vtxo, now: i64) -> bool {
    v.expires_at > now + MIN_EXPIRY_GAP_SECONDS
}

/// Whether the VTXO may be included in a new redemption at time `now`; the
/// counterparty server rejects anything closer to expiry.
pub fn is_eligible(v: &Vtxo, now: i64) -> (r: bool)
    ensures
        r == spec_eligible(*v, now),
{
    match now.checked_add(MIN_EXPIRY_GAP_SECONDS) {
        Some(threshold) => v.expires_at > threshold,
        None => false,
    }
}

/// Total amount of a sequence of VTXOs, in satoshis.
pub open spec fn spec_sum_sats(s: Seq<Vtxo>) -> int
    decreases s.len(),
{
    if s.len() == 0 {
        0
    } else {
        spec_sum_sats(s.drop_last()) + s.last().amount_sats
    }
}

/// The subsequence of VTXOs eligible at time `now`, in input order.
pub open spec fn spec_eligible_filter(s: Seq<Vtxo>, now: i64) -> Seq<Vtxo>
    decreases s.len(),
{
    if s.len() == 0 {
        Seq::empty()
    } else {
        let rest = spec_eligible_filter(s.drop_last(), now);
        if spec_eligible(s.last(), now) {
            rest.push(s.last())
        } else {
            rest
        }
    }
}

/// Non-decreasing expiry order.
pub open spec fn spec_sorted_by_expiry(s: Seq<Vtxo>) -> bool {
    forall|i: int, j: int| 0 <= i < j < s.len() ==> #[trigger] s[i].expires_at <= #[trigger] s[j].expires_at
}

/// A value clamped into u64 range.
pub open spec fn spec_sat64(x: int) -> u64 {
    if x > u64::MAX {
        u64::MAX
    } else if x < 0 {
        0
    } else {
        x as u64
    }
}

/// What makes `sel` a correct answer for `all`, `now` and `amount`: `sel` is
/// a minimal covering prefix of some permutation of the eligible VTXOs that
/// is sorted by soonest expiry first.
pub open spec fn spec_valid_selection(
    all: Seq<Vtxo>,
    now: i64,
    sorted: Seq<Vtxo>,
    sel: Seq<Vtxo>,
    amount: u64,
) -> bool {
    &&& sorted.to_multiset() == spec_eligible_filter(all, now).to_multiset()
    &&& spec_sorted_by_expiry(sorted)
    &&& sel.len() <= sorted.len()
    &&& sel == sorted.subrange(0, sel.len() as int)
    &&& spec_sum_sats(sel) >= amount
    &&& (sel.len() > 0 ==> spec_sum_sats(sel.drop_last()) < amount)
}

/// A correct answer, with the sorted permutation abstracted away.
pub open spec fn spec_selection_ok(all: Seq<Vtxo>, now: i64, sel: Seq<Vtxo>, amount: u64) -> bool {
    exists|sorted: Seq<Vtxo>| spec_valid_selection(all, now, sorted, sel, amount)
}

/// The sum of a sequence of VTXOs is non-negative and at most one maximal
/// amount per element.
pub proof fn lemma_sum_bounds(s: Seq<Vtxo>)
    ensures
        0 <= spec_sum_sats(s) <= s.len() * (u64::MAX as int),
    decreases s.len(),
{
    if s.len() > 0 {
        lemma_sum_bounds(s.drop_last());
    }
}

/// Splitting off the first element splits the sum.
pub proof fn lemma_sum_drop_first(s: Seq<Vtxo>)
    requires
        s.len() > 0,
    ensures
        spec_sum_sats(s) == s[0].amount_sats + spec_sum_sats(s.drop_first()),
    decreases s.len(),
{
    if s.len() == 1 {
        assert(s.drop_first() =~= Seq::<Vtxo>::empty());
        assert(spec_sum_sats(s.drop_first()) == 0);
        assert(s.drop_last() =~= Seq::<Vtxo>::empty());
        assert(spec_sum_sats(s.drop_last()) == 0);
        assert(s.last() == s[0]);
    } else {
        lemma_sum_drop_first(s.drop_last());
        assert(s.drop_last().drop_first() =~= s.drop_first().drop_last());
        assert(s.drop_first().last() == s.last());
        assert(s.drop_last()[0] == s[0]);
        assert(spec_sum_sats(s.drop_first()) == spec_sum_sats(s.drop_first().drop_last())
            + s.drop_first().last().amount_sats);
    }
}

/// Extending a prefix by one element adds that element's amount.
pub proof fn lemma_sum_prefix_step(s: Seq<Vtxo>, i: int)
    requires
        0 <= i < s.len(),
    ensures
        spec_sum_sats(s.subrange(0, i + 1)) == spec_sum_sats(s.subrange(0, i))
            + s[i].amount_sats,
{
    assert(s.subrange(0, i + 1).drop_last() =~= s.subrange(0, i));
}

/// The sum splits at any cut point.
pub proof fn lemma_sum_split(s: Seq<Vtxo>, i: int)
    requires
        0 <= i <= s.len(),
    ensures
        spec_sum_sats(s) == spec_sum_sats(s.subrange(0, i)) + spec_sum_sats(
            s.subrange(i, s.len() as int),
        ),
    decreases s.len() - i,
{
    if i == s.len() {
        assert(s.subrange(0, i) =~= s);
        assert(s.subrange(i, s.len() as int) =~= Seq::<Vtxo>::empty());
    } else {
        lemma_sum_split(s, i + 1);
        lemma_sum_prefix_step(s, i);
        let tail = s.subrange(i, s.len() as int);
        lemma_sum_drop_first(tail);
        assert(tail.drop_first() =~= s.subrange(i + 1, s.len() as int));
    }
}

/// Every element of the eligible filter is eligible.
pub proof fn lemma_filter_eligible(s: Seq<Vtxo>, now: i64, v: Vtxo)
    requires
        spec_eligible_filter(s, now).contains(v),
    ensures
        spec_eligible(v, now),
    decreases s.len(),
{
    if s.len() > 0 {
        let rest = spec_eligible_filter(s.drop_last(), now);
        if spec_eligible(s.last(), now) && v == s.last() {
        } else {
            assert(rest.contains(v));
            lemma_filter_eligible(s.drop_last(), now, v);
        }
    }
}

/// Clone an outpoint, keeping its value.
pub fn clone_outpoint(o: &Outpoint) -> (r: Outpoint)
    ensures
        r == *o,
{
    Outpoint { txid: clone_string(&o.txid), vout: o.vout }
}

/// Clone a VTXO, keeping its value.
pub fn clone_vtxo(v: &Vtxo) -> (r: Vtxo)
    ensures
        r == *v,
{
    Vtxo {
        outpoint: clone_outpoint(&v.outpoint),
        amount_sats: v.amount_sats,
        expires_at: v.expires_at,
    }
}

/// Sort VTXOs ascending by expiry, soonest-expiring first.
fn sort_vtxos_by_expiry(v: Vec<Vtxo>) -> (r: Vec<Vtxo>)
    ensures
        r@.to_multiset() == v@.to_multiset(),
        spec_sorted_by_expiry(r@),
        r@.len() == v@.len(),
{
    let mut rest = v;
    let ghost orig = rest@;
    let mut out: Vec<Vtxo> = Vec::new();
    while rest.len() > 0
        invariant
            out@.to_multiset().add(rest@.to_multiset()) =~= orig.to_multiset(),
            out@.len() + rest@.len() == orig.len(),
            spec_sorted_by_expiry(out@),
            forall|i: int, j: int|
                0 <= i < out@.len() && 0 <= j < rest@.len() ==> #[trigger] out@[i].expires_at
                    <= #[trigger] rest@[j].expires_at,
        decreases rest@.len(),
    {
        let mut m: usize = 0;
        let mut k: usize = 1;
        while k < rest.len()
            invariant
                m < k <= rest@.len(),
                rest@.len() > 0,
                forall|j: int| 0 <= j < k ==> rest@[m as int].expires_at <= #[trigger] rest@[j].expires_at,
            decreases rest@.len() - k,
        {
            if rest[k].expires_at < rest[m].expires_at {
                m = k;
            }
            k += 1;
        }
        let ghost pre = rest@;
        let x = rest.remove(m);
        proof {
            assert(pre.remove(m as int).to_multiset() =~= pre.to_multiset().remove(x));
            assert(out@.push(x).to_multiset() =~= out@.to_multiset().insert(x));
            assert(out@.push(x).to_multiset().add(rest@.to_multiset()) =~= orig.to_multiset());
            assert forall|j: int| 0 <= j < rest@.len() implies x.expires_at
                <= #[trigger] rest@[j].expires_at by {
                if j < m {
                    assert(rest@[j] == pre[j]);
                } else {
                    assert(rest@[j] == pre[j + 1]);
                }
            }
        }
        out.push(x);
    }
    proof {
        assert(rest@.to_multiset() =~= Multiset::<Vtxo>::empty());
        assert(out@.to_multiset() =~= orig.to_multiset());
    }
    out
}

/// Choose which VTXOs to spend for an on-chain redemption of `amount_sats`
/// at time `now`.
///
/// VTXOs inside the minimum expiry gap are filtered out first. If the
/// eligible funds cover the amount, the eligible VTXOs are sorted soonest
/// expiry first and a minimal covering prefix is selected, consuming those
/// closest to expiry and preserving fresh ones. If the eligible funds fall
/// short but all spendable funds would cover the amount, the distinguishable
/// `FundsNotYetEligible` error says that settling first is the remedy;
/// otherwise `InsufficientFunds` is returned.
pub fn select_vtxos_for_amount(vtxos: &Vec<Vtxo>, amount_sats: u64, now: i64) -> (r: Result<
    Vec<Vtxo>,
    WalletError,
>)
    ensures
        r is Ok <==> spec_sum_sats(spec_eligible_filter(vtxos@, now)) >= amount_sats,
        r is Ok ==> spec_selection_ok(vtxos@, now, r->Ok_0@, amount_sats),
        r is Ok ==> forall|i: int|
            0 <= i < r->Ok_0@.len() ==> spec_eligible(#[trigger] r->Ok_0@[i], now),
        r is Err ==> {
            let elig = spec_sum_sats(spec_eligible_filter(vtxos@, now));
            let total = spec_sum_sats(vtxos@);
            if total >= amount_sats {
                r->Err_0 == (WalletError::FundsNotYetEligible {
                    needed_sats: amount_sats,
                    eligible_sats: spec_sat64(elig),
                    total_sats: spec_sat64(total),
                })
            } else {
                r->Err_0 == (WalletError::InsufficientFunds {
                    needed_sats: amount_sats,
                    available_sats: spec_sat64(total),
                })
            }
        },
{
    let n = vtxos.len();
    let mut elig: Vec<Vtxo> = Vec::new();
    let mut acc_elig: u128 = 0;
    let mut acc_all: u128 = 0;
    let mut i: usize = 0;
    while i < n
        invariant
            n == vtxos@.len(),
            i <= n,
            elig@ =~= spec_eligible_filter(vtxos@.subrange(0, i as int), now),
            acc_elig == spec_sum_sats(elig@),
            acc_all == spec_sum_sats(vtxos@.subrange(0, i as int)),
        decreases n - i,
    {
        let ghost pre = vtxos@.subrange(0, i as int);
        proof {
            assert(vtxos@.subrange(0, i + 1).drop_last() =~= pre);
            assert(vtxos@.subrange(0, i + 1).last() == vtxos@[i as int]);
            lemma_sum_prefix_step(vtxos@, i as int);
            lemma_sum_bounds(pre);
            lemma_sum_bounds(elig@);
            lemma_filter_len(pre, now);
            assert(pre.len() == i as int);
            assert(elig@.len() * (u64::MAX as int) <= (u64::MAX as int) * (u64::MAX as int));
            assert(pre.len() * (u64::MAX as int) <= (u64::MAX as int) * (u64::MAX as int));
        }
        let v = &vtxos[i];
        if is_eligible(v, now) {
            let c = clone_vtxo(v);
            proof {
                assert(elig@.push(vtxos@[i as int]).drop_last() =~= elig@);
            }
            elig.push(c);
            acc_elig += v.amount_sats as u128;
        }
        acc_all += v.amount_sats as u128;
        i += 1;
    }
    proof {
        assert(vtxos@.subrange(0, n as int) =~= vtxos@);
    }
    let target = amount_sats as u128;
    if acc_elig < target {
        proof {
            lemma_sum_bounds(spec_eligible_filter(vtxos@, now));
            lemma_sum_bounds(vtxos@);
        }
        if acc_all >= target {
            let total_sats: u64 = if acc_all > u64::MAX as u128 {
                u64::MAX
            } else {
                acc_all as u64
            };
            let eligible_sats: u64 = if acc_elig > u64::MAX as u128 {
                u64::MAX
            } else {
                acc_elig as u64
            };
            return Err(
                WalletError::FundsNotYetEligible {
                    needed_sats: amount_sats,
                    eligible_sats,
                    total_sats,
                },
            );
        } else {
            let available_sats: u64 = if acc_all > u64::MAX as u128 {
                u64::MAX
            } else {
                acc_all as u64
            };
            return Err(
                WalletError::InsufficientFunds { needed_sats: amount_sats, available_sats },
            );
        }
    }
    let sorted = sort_vtxos_by_expiry(elig);
    let ghost sorted_view = sorted@;
    proof {
        lemma_multiset_sum_eq(sorted@, spec_eligible_filter(vtxos@, now));
    }
    let len = sorted.len();
    let mut sel: Vec<Vtxo> = Vec::new();
    let mut acc: u128 = 0;
    let mut idx: usize = 0;
    while acc < target
        invariant
            target == amount_sats as u128,
            len == sorted_view.len(),
            sorted@ == sorted_view,
            idx <= len,
            sel@ =~= sorted_view.subrange(0, idx as int),
            acc == spec_sum_sats(sel@),
            spec_sum_sats(sorted_view) >= target,
            idx > 0 ==> spec_sum_sats(sorted_view.subrange(0, idx - 1)) < target,
        decreases len - idx,
    {
        proof {
            lemma_sum_split(sorted_view, idx as int);
            if idx == len {
                assert(sorted_view.subrange(idx as int, len as int) =~= Seq::<Vtxo>::empty());
                assert(false);
            }
            lemma_sum_prefix_step(sorted_view, idx as int);
            lemma_sum_bounds(sorted_view.subrange(0, idx + 1));
            assert(sorted_view.subrange(0, idx + 1).len() * (u64::MAX as int) <= (
            u64::MAX as int) * (u64::MAX as int));
            assert(sorted_view.subrange(0, idx + 1) =~= sorted_view.subrange(0, idx as int).push(
                sorted_view[idx as int],
            ));
        }
        sel.push(clone_vtxo(&sorted[idx]));
        acc += sorted[idx].amount_sats as u128;
        idx += 1;
    }
    proof {
        if idx > 0 {
            assert(sel@.drop_last() =~= sorted_view.subrange(0, idx - 1));
        }
        assert(spec_valid_selection(vtxos@, now, sorted_view, sel@, amount_sats));
        assert(spec_selection_ok(vtxos@, now, sel@, amount_sats));
        assert forall|j: int| 0 <= j < sel@.len() implies spec_eligible(
            #[trigger] sel@[j],
            now,
        ) by {
            assert(sorted_view.contains(sel@[j]));
            assert(sorted_view.to_multiset().count(sel@[j]) > 0);
            assert(spec_eligible_filter(vtxos@, now).to_multiset().count(sel@[j]) > 0);
            assert(spec_eligible_filter(vtxos@, now).contains(sel@[j]));
            lemma_filter_eligible(vtxos@, now, sel@[j]);
        }
    }
    Ok(sel)
}

/// The eligible filter never holds more elements than its input.
proof fn lemma_filter_len(s: Seq<Vtxo>, now: i64)
    ensures
        spec_eligible_filter(s, now).len() <= s.len(),
    decreases s.len(),
{
    if s.len() > 0 {
        lemma_filter_len(s.drop_last(), now);
    }
}

/// Sequences with equal multisets have equal sums.
proof fn lemma_multiset_sum_eq(a: Seq<Vtxo>, b: Seq<Vtxo>)
    requires
        a.to_multiset() == b.to_multiset(),
    ensures
        spec_sum_sats(a) == spec_sum_sats(b),
    decreases a.len(),
{
    assert(a.len() == a.to_multiset().len());
    assert(b.len() == b.to_multiset().len());
    if a.len() == 0 {
        assert(b.len() == 0);
    } else {
        let x = a.last();
        assert(a.to_multiset().count(x) > 0);
        assert(b.to_multiset().count(x) > 0);
        assert(b.contains(x));
        let j = choose|j: int| 0 <= j < b.len() && b[j] == x;
        let a2 = a.drop_last();
        let b2 = b.remove(j);
        assert(a2 =~= a.remove(a.len() - 1));
        assert(a.remove(a.len() - 1).to_multiset() =~= a.to_multiset().remove(x));
        assert(b2.to_multiset() =~= b.to_multiset().remove(x));
        assert(a2.to_multiset() == b2.to_multiset());
        lemma_multiset_sum_eq(a2, b2);
        lemma_sum_remove(b, j);
        assert(spec_sum_sats(a) == spec_sum_sats(a2) + x.amount_sats);
    }
}

/// Removing one element removes its amount from the sum.
proof fn lemma_sum_remove(s: Seq<Vtxo>, j: int)
    requires
        0 <= j < s.len(),
    ensures
        spec_sum_sats(s) == spec_sum_sats(s.remove(j)) + s[j].amount_sats,
    decreases s.len(),
{
    if j == s.len() - 1 {
        assert(s.remove(j) =~= s.drop_last());
    } else {
        lemma_sum_remove(s.drop_last(), j);
        assert(s.remove(j).drop_last() =~= s.drop_last().remove(j));
        assert(s.remove(j).last() == s.last());
    }
}

/// The outpoints of a selection, in selection order.
pub fn outpoints_of(sel: &Vec<Vtxo>) -> (r: Vec<Outpoint>)
    ensures
        r@ =~= sel@.map_values(|v: Vtxo| v.outpoint),
{
    let mut out: Vec<Outpoint> = Vec::new();
    let mut i: usize = 0;
    while i < sel.len()
        invariant
            i <= sel@.len(),
            out@ =~= sel@.subrange(0, i as int).map_values(|v: Vtxo| v.outpoint),
        decreases sel@.len() - i,
    {
        out.push(clone_outpoint(&sel[i].outpoint));
        proof {
            assert(sel@.subrange(0, i + 1).map_values(|v: Vtxo| v.outpoint) =~= sel@.subrange(
                0,
                i as int,
            ).map_values(|v: Vtxo| v.outpoint).push(sel@[i as int].outpoint));
        }
        i += 1;
    }
    proof {
        assert(sel@.subrange(0, sel@.len() as int) =~= sel@);
    }
    out
}

/// The confirmed boarding outputs, as outpoints, in input order. These are
/// what a boarding-only settlement hands to the coordinator, leaving
/// existing VTXOs untouched.
pub open spec fn spec_confirmed_outpoints(s: Seq<BoardingUtxo>) -> Seq<Outpoint>
    decreases s.len(),
{
    if s.len() == 0 {
        Seq::empty()
    } else {
        let rest = spec_confirmed_outpoints(s.drop_last());
        if s.last().is_confirmed {
            rest.push(Outpoint { txid: s.last().txid, vout: s.last().vout })
        } else {
            rest
        }
    }
}

/// Collect the outpoints of the confirmed boarding outputs.
pub fn confirmed_outpoints(utxos: &Vec<BoardingUtxo>) -> (r: Vec<Outpoint>)
    ensures
        r@ =~= spec_confirmed_outpoints(utxos@),
{
    let mut out: Vec<Outpoint> = Vec::new();
    let mut i: usize = 0;
    while i < utxos.len()
        invariant
            i <= utxos@.len(),
            out@ =~= spec_confirmed_outpoints(utxos@.subrange(0, i as int)),
        decreases utxos@.len() - i,
    {
        proof {
            assert(utxos@.subrange(0, i + 1).drop_last() =~= utxos@.subrange(0, i as int));
        }
        let u = &utxos[i];
        if u.is_confirmed {
            out.push(Outpoint { txid: clone_string(&u.txid), vout: u.vout });
        }
        i += 1;
    }
    proof {
        assert(utxos@.subrange(0, utxos@.len() as int) =~= utxos@);
    }
    out
}

/// Decide a boarding-only settlement: the confirmed boarding outpoints, or
/// `StateConflict` when there is nothing to settle.
pub fn settle_boarding_outpoints(utxos: &Vec<BoardingUtxo>) -> (r: Result<
    Vec<Outpoint>,
    WalletError,
>)
    ensures
        r is Ok <==> spec_confirmed_outpoints(utxos@).len() > 0,
        r is Ok ==> r->Ok_0@ == spec_confirmed_outpoints(utxos@),
        r is Err ==> r->Err_0 == WalletError::StateConflict,
{
    let outs = confirmed_outpoints(utxos);
    if outs.len() == 0 {
        Err(WalletError::StateConflict)
    } else {
        Ok(outs)
    }
}

} // verus!
