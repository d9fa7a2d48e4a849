use vstd::prelude::*;
use crate::ledger::{
    AccountLabel, LedgerView, MonthDate, State, Trans, TransExt, month_of, ASSETS, FIAT, FLOW, INTERNAL_FLOW, NET, NULL,
    REAL_FIAT, RECEIVING_CUMULATIVE, RECEIVING_MONTH, ROI, SPENDING_CUMULATIVE, SPENDING_MONTH,
    TRA, UNIT, YIELD, op_ok,
};

verus! {

/// `x` held to the range of `i64`: the fixed-point stand-in for a float
/// that overflows to infinity.
pub open spec fn sat(x: int) -> i64 {
    if x > i64::MAX {
        i64::MAX
    } else if x < i64::MIN {
        i64::MIN
    } else {
        x as i64
    }
}

/// `s` with `d` added to its entry `i`, held to range.
pub open spec fn add_at(s: Seq<i64>, i: int, d: int) -> Seq<i64> {
    s.update(i, sat(s[i] + d))
}

/// `x / d` rounded toward zero.
pub open spec fn quot(x: int, d: int) -> int {
    let m = (if x < 0 { -x } else { x }) / (if d < 0 { -d } else { d });
    if (x < 0) != (d < 0) {
        -m
    } else {
        m
    }
}

/// The fixed-point unit price of `amount` units worth `worth`.
pub open spec fn unit_price(worth: i64, amount: i64) -> i64 {
    sat(quot(worth * UNIT, amount as int))
}

/// The state of a replay: the ledger and this month's spending and
/// receiving, not yet moved into their accounts.
pub struct Replay {
    pub ledger: LedgerView,
    pub spending: i64,
    pub receiving: i64,
}

/// Assets-labelled value changes by `diff`: the assets total follows, and the
/// return factor is multiplied by new total over old total (left alone while
/// the old total is zero, where the ratio has no value).
pub open spec fn track_roi(a: Seq<i64>, diff: int) -> Seq<i64> {
    let before = a[ASSETS as int];
    let after = sat(before + diff);
    let a1 = a.update(ASSETS as int, after);
    if before == 0 {
        a1
    } else {
        a1.update(ROI as int, sat(quot(a1[ROI as int] * after, before as int)))
    }
}

/// Forcing account `dst` to `amount`: the difference counts towards net
/// worth and yield (and assets, return, real fiat by label), unless `dst` is
/// the null account, whose balance is still overwritten.
pub open spec fn assign_spec(v: LedgerView, dst: int, amount: i64) -> LedgerView {
    let diff = amount - v.accounts[dst];
    let a1 = if dst != NULL {
        add_at(add_at(v.accounts, NET as int, diff), YIELD as int, diff)
    } else {
        v.accounts
    };
    let a2 = if dst != NULL && v.labels[dst] == AccountLabel::Assets {
        track_roi(a1, diff)
    } else {
        a1
    };
    let amounts = if v.labels[dst] == AccountLabel::Fiat {
        add_at(v.amounts, REAL_FIAT as int, diff)
    } else {
        v.amounts
    };
    LedgerView {
        accounts: a2.update(dst, amount),
        labels: v.labels,
        initialised: v.initialised,
        amounts,
        prices: v.prices,
    }
}

/// Real and shadow fiat after `sub` leaves an account labelled `sl` and
/// `add` reaches one labelled `dl`.
pub open spec fn track_fiat(
    m: Seq<i64>,
    sl: AccountLabel,
    dl: AccountLabel,
    sub: i64,
    add: i64,
) -> Seq<i64> {
    if sl == AccountLabel::Fiat && dl != AccountLabel::Fiat {
        let m1 = add_at(m, REAL_FIAT as int, -sub);
        if dl == AccountLabel::Assets {
            add_at(m1, FIAT as int, add as int)
        } else {
            m1
        }
    } else if dl == AccountLabel::Fiat && sl != AccountLabel::Fiat {
        let m1 = add_at(m, REAL_FIAT as int, add as int);
        if sl == AccountLabel::Assets {
            add_at(m1, FIAT as int, -add)
        } else {
            m1
        }
    } else {
        m
    }
}

/// The larger of the two legs of a transfer.
pub open spec fn leg(sub: i64, add: i64) -> i64 {
    if sub >= add {
        sub
    } else {
        add
    }
}

/// Taking `sub` from `src` and giving `add` to `dst`. Between two tracked
/// accounts it is internal flow; to the null account it is spending (but
/// from a debt account); from the null account it is receiving, but for the
/// first inflow of an account and for debt accounts.
pub open spec fn transfer_spec(r: Replay, src: int, dst: int, sub: i64, add: i64) -> Replay {
    let v = r.ledger;
    let l = v.labels;
    let a1 = add_at(add_at(v.accounts, src, -sub), dst, add as int);
    let a2 = add_at(a1, FLOW as int, leg(sub, add) as int);
    let a3 = if l[src] == AccountLabel::Assets {
        add_at(a2, ASSETS as int, -sub)
    } else {
        a2
    };
    let a4 = if l[dst] == AccountLabel::Assets {
        add_at(a3, ASSETS as int, add as int)
    } else {
        a3
    };
    let a5 = add_at(a4, TRA as int, add - sub);
    let internal = src != NULL && dst != NULL;
    let outflow = src != NULL && dst == NULL;
    let inflow = src == NULL && dst != NULL;
    let a6 = if internal {
        add_at(add_at(a5, INTERNAL_FLOW as int, leg(sub, add) as int), NET as int, add - sub)
    } else if outflow {
        add_at(a5, NET as int, -sub)
    } else if inflow {
        add_at(a5, NET as int, add as int)
    } else {
        a5
    };
    let spending = if outflow && l[src] != AccountLabel::Debt {
        sat(r.spending + sub)
    } else {
        r.spending
    };
    let receiving = if inflow && l[dst] != AccountLabel::Debt && v.initialised[dst] {
        sat(r.receiving + add)
    } else {
        r.receiving
    };
    let initialised = if inflow {
        v.initialised.update(dst, true)
    } else {
        v.initialised
    };
    Replay {
        ledger: LedgerView {
            accounts: a6,
            labels: l,
            initialised,
            amounts: track_fiat(v.amounts, l[src], l[dst], sub, add),
            prices: v.prices,
        },
        spending,
        receiving,
    }
}

/// A replay of ledger `v` with the month's totals `spending` and `receiving`.
pub open spec fn replay_of(v: LedgerView, spending: i64, receiving: i64) -> Replay {
    Replay { ledger: v, spending, receiving }
}

pub open spec fn with_ledger(r: Replay, v: LedgerView) -> Replay {
    Replay { ledger: v, spending: r.spending, receiving: r.receiving }
}

pub open spec fn with_amounts(v: LedgerView, amounts: Seq<i64>) -> LedgerView {
    LedgerView {
        accounts: v.accounts,
        labels: v.labels,
        initialised: v.initialised,
        amounts,
        prices: v.prices,
    }
}

pub open spec fn with_prices(v: LedgerView, prices: Seq<i64>) -> LedgerView {
    LedgerView {
        accounts: v.accounts,
        labels: v.labels,
        initialised: v.initialised,
        amounts: v.amounts,
        prices,
    }
}

pub open spec fn with_label(v: LedgerView, account: int, label: AccountLabel) -> LedgerView {
    LedgerView {
        accounts: v.accounts,
        labels: v.labels.update(account, label),
        initialised: v.initialised,
        amounts: v.amounts,
        prices: v.prices,
    }
}

/// The effect of one operation.
pub open spec fn step(r: Replay, op: TransExt) -> Replay {
    let v = r.ledger;
    match op {
        TransExt::Mov { src, dst, amount } => transfer_spec(
            r,
            src as int,
            dst as int,
            amount,
            amount,
        ),
        TransExt::Assign { amount, dst } => with_ledger(r, assign_spec(v, dst as int, amount)),
        TransExt::Tra { src, dst, sub, add } => transfer_spec(r, src as int, dst as int, sub, add),
        TransExt::Dec { asset, amount } => with_ledger(
            r,
            with_amounts(v, v.amounts.update(asset as int, amount)),
        ),
        TransExt::Pri { asset, amount, worth } => with_ledger(
            r,
            with_prices(v, v.prices.update(asset as int, unit_price(worth, amount))),
        ),
        TransExt::Pin { asset, amount, worth } => with_ledger(
            r,
            with_prices(
                with_amounts(v, v.amounts.update(asset as int, amount)),
                v.prices.update(asset as int, unit_price(worth, amount)),
            ),
        ),
        TransExt::Con { src, dst, src_amount, dst_amount } => with_ledger(
            r,
            with_amounts(
                v,
                add_at(add_at(v.amounts, src as int, -src_amount), dst as int, dst_amount as int),
            ),
        ),
        TransExt::Ass { account } => with_ledger(
            r,
            with_label(v, account as int, AccountLabel::Assets),
        ),
        TransExt::Deb { account } => with_ledger(
            r,
            with_label(v, account as int, AccountLabel::Debt),
        ),
    }
}

/// Closing a month: its spending and receiving become the month's accounts
/// and are added to the cumulative ones.
pub open spec fn flush(r: Replay) -> Replay {
    let a = r.ledger.accounts;
    let a1 = add_at(a.update(SPENDING_MONTH as int, r.spending), SPENDING_CUMULATIVE as int, r.spending as int);
    let a2 = add_at(a1.update(RECEIVING_MONTH as int, r.receiving), RECEIVING_CUMULATIVE as int, r.receiving as int);
    Replay {
        ledger: LedgerView {
            accounts: a2,
            labels: r.ledger.labels,
            initialised: r.ledger.initialised,
            amounts: r.ledger.amounts,
            prices: r.ledger.prices,
        },
        spending: 0,
        receiving: 0,
    }
}

/// Proof that a step keeps the ledger's shape.
pub proof fn lemma_step_wf(r: Replay, op: TransExt)
    requires
        r.ledger.wf(),
        op_ok(r.ledger, op),
    ensures
        step(r, op).ledger.wf(),
        step(r, op).ledger.accounts.len() == r.ledger.accounts.len(),
        step(r, op).ledger.amounts.len() == r.ledger.amounts.len(),
{
    match op {
        TransExt::Mov { src, dst, amount } => {
            lemma_transfer_wf(r, src as int, dst as int, amount, amount);
        },
        TransExt::Tra { src, dst, sub, add } => {
            lemma_transfer_wf(r, src as int, dst as int, sub, add);
        },
        TransExt::Assign { amount, dst } => {
            assert(assign_spec(r.ledger, dst as int, amount).accounts.len()
                == r.ledger.accounts.len());
        },
        _ => {},
    }
}

proof fn lemma_transfer_wf(r: Replay, src: int, dst: int, sub: i64, add: i64)
    requires
        r.ledger.wf(),
        0 <= src < r.ledger.accounts.len(),
        0 <= dst < r.ledger.accounts.len(),
    ensures
        transfer_spec(r, src, dst, sub, add).ledger.wf(),
        transfer_spec(r, src, dst, sub, add).ledger.accounts.len() == r.ledger.accounts.len(),
        transfer_spec(r, src, dst, sub, add).ledger.amounts.len() == r.ledger.amounts.len(),
{
    let l = r.ledger.labels;
    assert(track_fiat(r.ledger.amounts, l[src], l[dst], sub, add).len()
        == r.ledger.amounts.len());
}

/// Proof that closing a month keeps the ledger's shape.
pub proof fn lemma_flush_wf(r: Replay)
    requires
        r.ledger.wf(),
    ensures
        flush(r).ledger.wf(),
        flush(r).ledger.accounts.len() == r.ledger.accounts.len(),
        flush(r).ledger.amounts.len() == r.ledger.amounts.len(),
{
}

/// Bound on an addend, well above any difference of two `i64`.
const LIMIT: i128 = 0x1_0000_0000_0000_0000_0000;
/// Bound on a dividend, above any product of two `i64`.
const WIDE: i128 = 0x4000_0000_0000_0000_0000_0000_0000_0000;

fn mul_wide(a: i64, b: i64) -> (r: i128)
    ensures
        r == a * b,
        -WIDE <= r <= WIDE,
{
    assert(-WIDE <= a * b <= WIDE) by (nonlinear_arith)
        requires
            i64::MIN <= a <= i64::MAX,
            i64::MIN <= b <= i64::MAX,
    ;
    a as i128 * b as i128
}

fn clamp(x: i128) -> (r: i64)
    ensures
        r == sat(x as int),
{
    if x > i64::MAX as i128 {
        i64::MAX
    } else if x < i64::MIN as i128 {
        i64::MIN
    } else {
        x as i64
    }
}

fn bump(v: &mut Vec<i64>, i: usize, d: i128)
    requires
        i < old(v).len(),
        -LIMIT <= d <= LIMIT,
    ensures
        final(v)@ == add_at(old(v)@, i as int, d as int),
{
    let x = clamp(v[i] as i128 + d);
    v.set(i, x);
}

fn quot_exec(x: i128, d: i128) -> (r: i128)
    requires
        d != 0,
        -WIDE <= x <= WIDE,
        -LIMIT <= d <= LIMIT,
    ensures
        r == quot(x as int, d as int),
        -WIDE <= r <= WIDE,
{
    let ux: u128 = if x < 0 { (-x) as u128 } else { x as u128 };
    let ud: u128 = if d < 0 { (-d) as u128 } else { d as u128 };
    let m = ux / ud;
    assert(m <= ux) by (nonlinear_arith)
        requires
            ud >= 1,
            m == ux / ud,
    ;
    if (x < 0) != (d < 0) {
        -(m as i128)
    } else {
        m as i128
    }
}

fn assign(state: &mut State, dst: usize, amount: i64)
    requires
        old(state)@.wf(),
        dst < old(state)@.accounts.len(),
    ensures
        final(state)@ == assign_spec(old(state)@, dst as int, amount),
{
    let diff: i128 = amount as i128 - state.accounts[dst] as i128;
    let label = state.account_labels[dst];
    if dst != NULL {
        bump(&mut state.accounts, NET, diff);
        bump(&mut state.accounts, YIELD, diff);
        if label == AccountLabel::Assets {
            let before = state.accounts[ASSETS];
            bump(&mut state.accounts, ASSETS, diff);
            if before != 0 {
                let after = state.accounts[ASSETS];
                let q = quot_exec(mul_wide(state.accounts[ROI], after), before as i128);
                let roi = clamp(q);
                state.accounts.set(ROI, roi);
            }
        }
    }
    if label == AccountLabel::Fiat {
        bump(&mut state.asset_amounts, REAL_FIAT, diff);
    }
    state.accounts.set(dst, amount);
}

fn add_total(total: &mut i64, d: i64)
    ensures
        *final(total) == sat(*old(total) + d),
{
    *total = clamp(*total as i128 + d as i128);
}

fn transfer(
    state: &mut State,
    src: usize,
    dst: usize,
    sub: i64,
    add: i64,
    spending: &mut i64,
    receiving: &mut i64,
)
    requires
        old(state)@.wf(),
        src < old(state)@.accounts.len(),
        dst < old(state)@.accounts.len(),
    ensures
        replay_of(final(state)@, *final(spending), *final(receiving)) == transfer_spec(
            replay_of(old(state)@, *old(spending), *old(receiving)),
            src as int,
            dst as int,
            sub,
            add,
        ),
{
    let sl = state.account_labels[src];
    let dl = state.account_labels[dst];
    let big: i64 = if sub >= add {
        sub
    } else {
        add
    };
    let diff: i128 = add as i128 - sub as i128;
    bump(&mut state.accounts, src, -(sub as i128));
    bump(&mut state.accounts, dst, add as i128);
    bump(&mut state.accounts, FLOW, big as i128);
    if sl == AccountLabel::Assets {
        bump(&mut state.accounts, ASSETS, -(sub as i128));
    }
    if dl == AccountLabel::Assets {
        bump(&mut state.accounts, ASSETS, add as i128);
    }
    bump(&mut state.accounts, TRA, diff);
    if src != NULL && dst != NULL {
        bump(&mut state.accounts, INTERNAL_FLOW, big as i128);
        bump(&mut state.accounts, NET, diff);
    } else if src != NULL && dst == NULL {
        bump(&mut state.accounts, NET, -(sub as i128));
        if sl != AccountLabel::Debt {
            add_total(spending, sub);
        }
    } else if src == NULL && dst != NULL {
        bump(&mut state.accounts, NET, add as i128);
        if dl != AccountLabel::Debt && state.account_initialised[dst] {
            add_total(receiving, add);
        }
        state.account_initialised.set(dst, true);
    }
    if sl == AccountLabel::Fiat && dl != AccountLabel::Fiat {
        bump(&mut state.asset_amounts, REAL_FIAT, -(sub as i128));
        // fiat spent on assets is still held, as shadow fiat
        if dl == AccountLabel::Assets {
            bump(&mut state.asset_amounts, FIAT, add as i128);
        }
    } else if dl == AccountLabel::Fiat && sl != AccountLabel::Fiat {
        bump(&mut state.asset_amounts, REAL_FIAT, add as i128);
        // assets sold back to fiat give up their shadow fiat
        if sl == AccountLabel::Assets {
            bump(&mut state.asset_amounts, FIAT, -(add as i128));
        }
    }
}

fn price_of(worth: i64, amount: i64) -> (r: i64)
    requires
        amount != 0,
    ensures
        r == unit_price(worth, amount),
{
    clamp(quot_exec(mul_wide(worth, UNIT), amount as i128))
}

/// Applies one operation to the ledger and the month's totals.
pub fn apply(state: &mut State, op: TransExt, spending: &mut i64, receiving: &mut i64)
    requires
        old(state)@.wf(),
        op_ok(old(state)@, op),
    ensures
        replay_of(final(state)@, *final(spending), *final(receiving)) == step(
            replay_of(old(state)@, *old(spending), *old(receiving)),
            op,
        ),
{
    match op {
        TransExt::Mov { src, dst, amount } => {
            transfer(state, src, dst, amount, amount, spending, receiving);
        },
        TransExt::Assign { amount, dst } => {
            assign(state, dst, amount);
        },
        TransExt::Tra { src, dst, sub, add } => {
            transfer(state, src, dst, sub, add, spending, receiving);
        },
        TransExt::Dec { asset, amount } => {
            state.asset_amounts.set(asset, amount);
        },
        TransExt::Pri { asset, amount, worth } => {
            state.asset_prices.set(asset, price_of(worth, amount));
        },
        TransExt::Pin { asset, amount, worth } => {
            state.asset_prices.set(asset, price_of(worth, amount));
            state.asset_amounts.set(asset, amount);
        },
        TransExt::Con { src, dst, src_amount, dst_amount } => {
            bump(&mut state.asset_amounts, src, -(src_amount as i128));
            bump(&mut state.asset_amounts, dst, dst_amount as i128);
        },
        TransExt::Ass { account } => {
            state.account_labels.set(account, AccountLabel::Assets);
        },
        TransExt::Deb { account } => {
            state.account_labels.set(account, AccountLabel::Debt);
        },
    }
}

/// Closes a month: its totals go into the month and cumulative accounts and
/// are reset.
pub fn close_month(state: &mut State, spending: &mut i64, receiving: &mut i64)
    requires
        old(state)@.wf(),
    ensures
        replay_of(final(state)@, *final(spending), *final(receiving)) == flush(
            replay_of(old(state)@, *old(spending), *old(receiving)),
        ),
{
    state.accounts.set(SPENDING_MONTH, *spending);
    bump(&mut state.accounts, SPENDING_CUMULATIVE, *spending as i128);
    state.accounts.set(RECEIVING_MONTH, *receiving);
    bump(&mut state.accounts, RECEIVING_CUMULATIVE, *receiving as i128);
    *spending = 0;
    *receiving = 0;
}

/// Replaying `ts[k..j]` from `r`, closing no month.
pub open spec fn replay_range(r: Replay, ts: Seq<Trans>, k: int, j: int) -> Replay
    decreases j - k,
{
    if j <= k {
        r
    } else {
        step(replay_range(r, ts, k, j - 1), ts[j - 1].ext)
    }
}

/// Every transaction of `ts` can be replayed on a ledger shaped like `v`.
pub open spec fn all_ok(v: LedgerView, ts: Seq<Trans>) -> bool {
    forall|i: int| 0 <= i < ts.len() ==> op_ok(v, #[trigger] ts[i].ext)
}

/// Where a replay starts: at `from`, or at the beginning when none is given.
pub open spec fn start_of(from: Option<usize>, len: int) -> int {
    match from {
        Some(k) => if k < len {
            k as int
        } else {
            len
        },
        None => 0,
    }
}

/// Where a replay that returned `next` stopped.
pub open spec fn end_of(next: usize, len: int) -> int {
    if next == usize::MAX {
        len
    } else {
        next as int
    }
}

pub open spec fn default_month(d: Option<MonthDate>) -> MonthDate {
    match d {
        Some(m) => m,
        None => (0u8, 0u16),
    }
}

/// Proof that replaying keeps the ledger's shape.
pub proof fn lemma_replay_range_wf(r: Replay, ts: Seq<Trans>, k: int, j: int)
    requires
        r.ledger.wf(),
        all_ok(r.ledger, ts),
        0 <= k,
        j <= ts.len(),
    ensures
        replay_range(r, ts, k, j).ledger.wf(),
        replay_range(r, ts, k, j).ledger.accounts.len() == r.ledger.accounts.len(),
        replay_range(r, ts, k, j).ledger.amounts.len() == r.ledger.amounts.len(),
    decreases j - k,
{
    if j > k {
        lemma_replay_range_wf(r, ts, k, j - 1);
        lemma_step_wf(replay_range(r, ts, k, j - 1), ts[j - 1].ext);
    }
}

/// Replays `ts` on `state`. Without `from`, every transaction is replayed
/// and `usize::MAX` is returned with the last month seen. With `from`, the
/// replay starts there and stops before the first transaction whose month is
/// not `from_date`, returning its index and month (or `usize::MAX` at the end
/// of `ts`). Either way the month's spending and receiving are then closed
/// into their accounts.
pub fn update(
    ts: &[Trans],
    state: &mut State,
    from: Option<usize>,
    from_date: Option<MonthDate>,
) -> (r: (usize, MonthDate))
    requires
        old(state)@.wf(),
        all_ok(old(state)@, ts@),
        ts@.len() < usize::MAX,
    ensures
        start_of(from, ts@.len() as int) <= end_of(r.0, ts@.len() as int) <= ts@.len(),
        from is None ==> r.0 == usize::MAX,
        from is Some ==> forall|i: int|
            start_of(from, ts@.len() as int) <= i < end_of(r.0, ts@.len() as int)
                ==> month_of(#[trigger] ts@[i]) == default_month(from_date),
        r.0 != usize::MAX ==> r.0 < ts@.len() && r.1 == month_of(ts@[r.0 as int]) && r.1
            != default_month(from_date),
        r.0 == usize::MAX ==> r.1 == if start_of(from, ts@.len() as int) < ts@.len() {
            month_of(ts@.last())
        } else {
            default_month(from_date)
        },
        final(state)@ == flush(
            replay_range(
                replay_of(old(state)@, 0, 0),
                ts@,
                start_of(from, ts@.len() as int),
                end_of(r.0, ts@.len() as int),
            ),
        ).ledger,
{
    let all = from.is_none();
    let k: usize = match from {
        Some(x) => if x < ts.len() {
            x
        } else {
            ts.len()
        },
        None => 0,
    };
    let mut date: MonthDate = match from_date {
        Some(d) => d,
        None => (0, 0),
    };
    let mut spending: i64 = 0;
    let mut receiving: i64 = 0;
    let ghost r0 = replay_of(old(state)@, 0, 0);
    let mut i: usize = k;
    while i < ts.len()
        invariant
            k == start_of(from, ts@.len() as int),
            all == (from is None),
            k <= i <= ts@.len() < usize::MAX,
            r0 == replay_of(old(state)@, 0, 0),
            r0.ledger.wf(),
            all_ok(r0.ledger, ts@),
            replay_of(state@, spending, receiving) == replay_range(r0, ts@, k as int, i as int),
            state@.wf(),
            state@.accounts.len() == r0.ledger.accounts.len(),
            state@.amounts.len() == r0.ledger.amounts.len(),
            !all ==> date == default_month(from_date),
            !all ==> forall|p: int| k <= p < i ==> month_of(#[trigger] ts@[p]) == date,
            date == if i > k {
                month_of(ts@[i - 1])
            } else {
                default_month(from_date)
            },
        decreases ts.len() - i,
    {
        let t = &ts[i];
        let m: MonthDate = (t.date.1, t.date.2);
        if !all && (m.0 != date.0 || m.1 != date.1) {
            close_month(state, &mut spending, &mut receiving);
            return (i, m);
        }
        date = m;
        proof {
            lemma_replay_range_wf(r0, ts@, k as int, i as int);
            assert(op_ok(r0.ledger, ts@[i as int].ext));
        }
        apply(state, t.ext, &mut spending, &mut receiving);
        i += 1;
    }
    close_month(state, &mut spending, &mut receiving);
    (usize::MAX, date)
}

} // verus!
