use vstd::prelude::*;
use crate::history::{chronological, date_le, valid_month, valid_months};
use crate::ledger::{Date, LedgerView, State, Trans, TransExt, month_of, op_ok, zero_price_amount};
use crate::replay::all_ok;

verus! {

/// Why a list of transactions cannot be replayed; each names the index of
/// the transaction at fault.
#[derive(Debug, Copy, Clone, PartialEq, Eq, Structural)]
pub enum ReplayError {
    /// An account or asset id the ledger was not sized for.
    StaleId(usize),
    /// A price set from a zero amount.
    ZeroPriceAmount(usize),
    /// A month outside 1 to 12.
    InvalidMonth(usize),
    /// A date before the one of the transaction before it.
    OutOfOrder(usize),
}

/// The first fault of transaction `i` of `ts` on a ledger shaped like `v`.
pub open spec fn fault(v: LedgerView, ts: Seq<Trans>, i: int) -> Option<ReplayError> {
    if !v.ids_ok(ts[i].ext) {
        Some(ReplayError::StaleId(i as usize))
    } else if zero_price_amount(ts[i].ext) {
        Some(ReplayError::ZeroPriceAmount(i as usize))
    } else if !valid_month(month_of(ts[i])) {
        Some(ReplayError::InvalidMonth(i as usize))
    } else if i > 0 && !date_le(ts[i - 1].date, ts[i].date) {
        Some(ReplayError::OutOfOrder(i as usize))
    } else {
        None
    }
}

/// No transaction of `ts[..n]` is at fault.
pub open spec fn sound_upto(v: LedgerView, ts: Seq<Trans>, n: int) -> bool {
    forall|i: int| 0 <= i < n ==> fault(v, ts, i) is None
}

fn date_le_exec(a: Date, b: Date) -> (r: bool)
    ensures
        r == date_le(a, b),
{
    a.2 < b.2 || (a.2 == b.2 && (a.1 < b.1 || (a.1 == b.1 && a.0 <= b.0)))
}

fn ids_fit(state: &State, op: TransExt) -> (r: bool)
    ensures
        r == state@.ids_ok(op),
{
    let na = state.accounts.len();
    let ns = state.asset_amounts.len();
    match op {
        TransExt::Mov { src, dst, .. } => src < na && dst < na,
        TransExt::Assign { dst, .. } => dst < na,
        TransExt::Tra { src, dst, .. } => src < na && dst < na,
        TransExt::Dec { asset, .. } => asset < ns,
        TransExt::Pri { asset, .. } => asset < ns,
        TransExt::Pin { asset, .. } => asset < ns,
        TransExt::Con { src, dst, .. } => src < ns && dst < ns,
        TransExt::Ass { account } => account < na,
        TransExt::Deb { account } => account < na,
    }
}

fn zero_price(op: TransExt) -> (r: bool)
    ensures
        r == zero_price_amount(op),
{
    match op {
        TransExt::Pri { amount, .. } => amount == 0,
        TransExt::Pin { amount, .. } => amount == 0,
        _ => false,
    }
}

proof fn lemma_sound_chronological(v: LedgerView, ts: Seq<Trans>)
    requires
        sound_upto(v, ts, ts.len() as int),
    ensures
        chronological(ts),
{
    assert forall|i: int, j: int| 0 <= i < j < ts.len() implies date_le(ts[i].date, ts[j].date) by {
        lemma_adjacent_chain(v, ts, i, j);
    };
}

proof fn lemma_adjacent_chain(v: LedgerView, ts: Seq<Trans>, i: int, j: int)
    requires
        sound_upto(v, ts, ts.len() as int),
        0 <= i < j < ts.len(),
    ensures
        date_le(ts[i].date, ts[j].date),
    decreases j - i,
{
    assert(fault(v, ts, j) is None);
    if j > i + 1 {
        lemma_adjacent_chain(v, ts, i, j - 1);
    }
}

/// Checks that `ts` can be replayed on `state` and its history built: every
/// id sized into the ledger, no price from a zero amount, months from 1 to
/// 12, dates in order. Reports the first transaction at fault.
pub fn check(state: &State, ts: &[Trans]) -> (r: Result<(), ReplayError>)
    ensures
        r is Ok <==> sound_upto(state@, ts@, ts@.len() as int),
        r is Ok ==> all_ok(state@, ts@) && chronological(ts@) && valid_months(ts@),
        forall|e: ReplayError|
            r == Err::<(), ReplayError>(e) ==> exists|i: int|
                0 <= i < ts@.len() && sound_upto(state@, ts@, i) && fault(state@, ts@, i)
                    == Some(e),
{
    let mut i: usize = 0;
    while i < ts.len()
        invariant
            i <= ts@.len(),
            sound_upto(state@, ts@, i as int),
        decreases ts.len() - i,
    {
        let t = &ts[i];
        let fault_here: Option<ReplayError> = if !ids_fit(state, t.ext) {
            Some(ReplayError::StaleId(i))
        } else if zero_price(t.ext) {
            Some(ReplayError::ZeroPriceAmount(i))
        } else if t.date.1 < 1 || t.date.1 > 12 {
            Some(ReplayError::InvalidMonth(i))
        } else if i > 0 && !date_le_exec(ts[i - 1].date, t.date) {
            Some(ReplayError::OutOfOrder(i))
        } else {
            None
        };
        assert(fault_here == fault(state@, ts@, i as int));
        match fault_here {
            Some(e) => {
                return Err(e);
            },
            None => {},
        }
        i += 1;
    }
    proof {
        let v = state@;
        let s = ts@;
        lemma_sound_chronological(v, s);
        assert forall|k: int| 0 <= k < s.len() implies op_ok(v, #[trigger] s[k].ext) by {
            assert(fault(v, s, k) is None);
        };
        assert forall|k: int| 0 <= k < s.len() implies valid_month(month_of(#[trigger] s[k])) by {
            assert(fault(v, s, k) is None);
        };
    }
    Ok(())
}

} // verus!
