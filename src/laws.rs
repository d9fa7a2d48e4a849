use vstd::prelude::*;
use crate::history::{frame_at, lemma_run_wf, month_key, month_span, run, upto};
use crate::ider::interned;
use crate::ledger::{
    AccountLabel, LedgerView, Trans, TransExt, ASSETS, FIAT, INTERNAL_FLOW, NET, NULL,
    NR_BUILDIN_ACCOUNTS, REAL_FIAT, ROI, UNIT, YIELD, month_of,
};
use crate::replay::{Replay, all_ok, lemma_step_wf, leg, quot, replay_of, sat, step};

verus! {

/// `op` names the internal-flow account nowhere and moves no negative
/// amount.
pub open spec fn keeps_internal_flow(op: TransExt) -> bool {
    match op {
        TransExt::Mov { src, dst, amount } => src != INTERNAL_FLOW && dst != INTERNAL_FLOW
            && amount >= 0,
        TransExt::Tra { src, dst, sub, add } => src != INTERNAL_FLOW && dst != INTERNAL_FLOW
            && leg(sub, add) >= 0,
        TransExt::Assign { dst, .. } => dst != INTERNAL_FLOW,
        _ => true,
    }
}

proof fn lemma_step_internal_flow(r: Replay, op: TransExt)
    requires
        r.ledger.wf(),
        crate::ledger::op_ok(r.ledger, op),
        keeps_internal_flow(op),
    ensures
        step(r, op).ledger.accounts[INTERNAL_FLOW as int] >= r.ledger.accounts[INTERNAL_FLOW as int],
{
}

/// Internal flow only grows: replaying transactions that move no negative
/// amount and name the internal-flow account nowhere never lowers it, month
/// closings included.
pub proof fn law_internal_flow_grows(r: Replay, ts: Seq<Trans>, a: int, b: int)
    requires
        r.ledger.wf(),
        all_ok(r.ledger, ts),
        forall|i: int| 0 <= i < ts.len() ==> keeps_internal_flow(#[trigger] ts[i].ext),
        0 <= a <= b <= ts.len(),
    ensures
        run(r, ts, a).ledger.accounts[INTERNAL_FLOW as int] <= run(
            r,
            ts,
            b,
        ).ledger.accounts[INTERNAL_FLOW as int],
    decreases b - a,
{
    if b > a {
        law_internal_flow_grows(r, ts, a, b - 1);
        let prev = run(r, ts, b - 1);
        lemma_run_wf(r, ts, b - 1);
        assert(crate::ledger::op_ok(r.ledger, ts[b - 1].ext));
        assert(keeps_internal_flow(ts[b - 1].ext));
        lemma_step_internal_flow(prev, ts[b - 1].ext);
        lemma_step_wf(prev, ts[b - 1].ext);
    }
}

/// Forcing the null account's balance overwrites it and leaves net worth,
/// yield, assets and the return factor alone.
pub proof fn law_assign_null(r: Replay, amount: i64)
    requires
        r.ledger.wf(),
    ensures
        step(r, TransExt::Assign { amount, dst: NULL }).ledger.accounts[NULL as int] == amount,
        step(r, TransExt::Assign { amount, dst: NULL }).ledger.accounts[NET as int]
            == r.ledger.accounts[NET as int],
        step(r, TransExt::Assign { amount, dst: NULL }).ledger.accounts[YIELD as int]
            == r.ledger.accounts[YIELD as int],
        step(r, TransExt::Assign { amount, dst: NULL }).ledger.accounts[ASSETS as int]
            == r.ledger.accounts[ASSETS as int],
        step(r, TransExt::Assign { amount, dst: NULL }).ledger.accounts[ROI as int]
            == r.ledger.accounts[ROI as int],
{
}

/// Interning a name twice gives the same names as interning it once, and
/// the name has a single id in them.
pub proof fn law_intern_idempotent(names: Seq<Seq<char>>, s: Seq<char>)
    requires
        names.no_duplicates(),
    ensures
        interned(interned(names, s), s) == interned(names, s),
        interned(names, s).no_duplicates(),
        interned(names, s).contains(s),
        forall|i: int, j: int|
            0 <= i < interned(names, s).len() && 0 <= j < interned(names, s).len() && interned(
                names,
                s,
            )[i] == s && interned(names, s)[j] == s ==> i == j,
{
    let n1 = interned(names, s);
    if !names.contains(s) {
        assert(n1[names.len() as int] == s);
        assert forall|i: int, j: int| 0 <= i < n1.len() && 0 <= j < n1.len() && i != j implies n1[i]
            != n1[j] by {
            if i < names.len() && j < names.len() {
                assert(n1[i] == names[i] && n1[j] == names[j]);
            } else if i < names.len() {
                assert(n1[i] == names[i]);
                assert(names.contains(names[i]));
            } else if j < names.len() {
                assert(n1[j] == names[j]);
                assert(names.contains(names[j]));
            }
        };
    }
    assert(n1.contains(s));
}

/// Every monthly frame of a history holds one balance per account.
pub proof fn law_frame_length(v: LedgerView, ts: Seq<Trans>, key: int)
    requires
        v.wf(),
        all_ok(v, ts),
    ensures
        frame_at(v, ts, key).len() == v.accounts.len(),
{
    let v1 = crate::history::seeded(v);
    assert(all_ok(v1, ts)) by {
        assert forall|i: int| 0 <= i < ts.len() implies crate::ledger::op_ok(v1, #[trigger] ts[i].ext) by {
            assert(crate::ledger::op_ok(v, ts[i].ext));
        };
    };
    lemma_upto_bounds(ts, key);
    lemma_run_wf(replay_of(v1, 0, 0), ts, upto(ts, key));
}

/// A history spans one frame per calendar month from the first
/// transaction's month to the last's, and every frame holds one balance per
/// account of the ledger it starts from.
pub proof fn law_history_frames(v: LedgerView, ts: Seq<Trans>)
    requires
        v.wf(),
        all_ok(v, ts),
        ts.len() > 0,
    ensures
        month_span(ts) == 12 * (ts.last().date.2 - ts[0].date.2) + ts.last().date.1
            - ts[0].date.1 + 1,
        forall|f: int|
            0 <= f < month_span(ts) ==> (#[trigger] frame_at(
                v,
                ts,
                month_key(month_of(ts[0])) + f,
            )).len() == v.accounts.len(),
{
    assert forall|f: int| 0 <= f < month_span(ts) implies (#[trigger] frame_at(
        v,
        ts,
        month_key(month_of(ts[0])) + f,
    )).len() == v.accounts.len() by {
        law_frame_length(v, ts, month_key(month_of(ts[0])) + f);
    };
}

proof fn lemma_upto_bounds(ts: Seq<Trans>, key: int)
    ensures
        0 <= upto(ts, key) <= ts.len(),
    decreases ts.len(),
{
    if ts.len() > 0 {
        lemma_upto_bounds(ts.drop_last(), key);
    }
}

proof fn lemma_upto_gap(ts: Seq<Trans>, key: int)
    requires
        forall|i: int| 0 <= i < ts.len() ==> month_key(month_of(#[trigger] ts[i])) != key,
    ensures
        upto(ts, key) == upto(ts, key - 1),
    decreases ts.len(),
{
    if ts.len() > 0 {
        assert(month_key(month_of(ts[ts.len() - 1])) != key);
        let d = ts.drop_last();
        assert forall|i: int| 0 <= i < d.len() implies month_key(month_of(#[trigger] d[i])) != key by {
            assert(d[i] == ts[i]);
        };
        lemma_upto_gap(d, key);
    }
}

/// A month in which no transaction falls repeats the frame of the month
/// before it.
pub proof fn law_gap_repeats(v: LedgerView, ts: Seq<Trans>, key: int)
    requires
        forall|i: int| 0 <= i < ts.len() ==> month_key(month_of(#[trigger] ts[i])) != key,
    ensures
        frame_at(v, ts, key) == frame_at(v, ts, key - 1),
{
    lemma_upto_gap(ts, key);
}

/// Two valuations of an assets account that starts empty, with no assets
/// held elsewhere: the first sets the base, the second multiplies the return
/// factor by the second value over the first.
pub proof fn law_roi_chain(r: Replay, dst: usize, x: i64, y: i64)
    requires
        r.ledger.wf(),
        NR_BUILDIN_ACCOUNTS <= dst < r.ledger.accounts.len(),
        r.ledger.labels[dst as int] == AccountLabel::Assets,
        r.ledger.accounts[dst as int] == 0,
        r.ledger.accounts[ASSETS as int] == 0,
        r.ledger.accounts[ROI as int] == UNIT,
        x != 0,
    ensures
        step(step(r, TransExt::Assign { amount: x, dst }), TransExt::Assign { amount: y, dst }).ledger.accounts[ROI as int]
            == sat(quot(UNIT * y, x as int)),
        step(step(r, TransExt::Assign { amount: x, dst }), TransExt::Assign { amount: y, dst }).ledger.accounts[ASSETS as int]
            == y,
{
    let r1 = step(r, TransExt::Assign { amount: x, dst });
    assert(r1.ledger.accounts[ASSETS as int] == x);
    assert(r1.ledger.accounts[ROI as int] == UNIT);
    assert(r1.ledger.accounts[dst as int] == x);
    assert(r1.ledger.labels[dst as int] == AccountLabel::Assets);
}

/// The first inflow of an account opens it and counts as no receiving; a
/// later one counts in full, unless the account is a debt.
pub proof fn law_first_inflow(r: Replay, dst: usize, a: i64, b: i64)
    requires
        r.ledger.wf(),
        NULL < dst < r.ledger.accounts.len(),
        r.ledger.labels[dst as int] != AccountLabel::Debt,
        !r.ledger.initialised[dst as int],
    ensures
        step(r, TransExt::Mov { src: NULL, dst, amount: a }).receiving == r.receiving,
        step(r, TransExt::Mov { src: NULL, dst, amount: a }).ledger.initialised[dst as int],
        step(
            step(r, TransExt::Mov { src: NULL, dst, amount: a }),
            TransExt::Mov { src: NULL, dst, amount: b },
        ).receiving == sat(r.receiving + b),
{
}

/// What leaves a debt account for the null account is no spending.
pub proof fn law_debt_spending(r: Replay, src: usize, amount: i64)
    requires
        r.ledger.wf(),
        NULL < src < r.ledger.accounts.len(),
        r.ledger.labels[src as int] == AccountLabel::Debt,
    ensures
        step(r, TransExt::Mov { src, dst: NULL, amount }).spending == r.spending,
        step(r, TransExt::Tra { src, dst: NULL, sub: amount, add: amount }).spending
            == r.spending,
{
}

/// Moving fiat into an assets account takes it from the real fiat and adds
/// it to the shadow fiat.
pub proof fn law_fiat_to_assets(r: Replay, src: usize, dst: usize, amount: i64)
    requires
        r.ledger.wf(),
        src < r.ledger.accounts.len(),
        dst < r.ledger.accounts.len(),
        r.ledger.labels[src as int] == AccountLabel::Fiat,
        r.ledger.labels[dst as int] == AccountLabel::Assets,
    ensures
        step(r, TransExt::Mov { src, dst, amount }).ledger.amounts[REAL_FIAT as int] == sat(
            r.ledger.amounts[REAL_FIAT as int] - amount,
        ),
        step(r, TransExt::Mov { src, dst, amount }).ledger.amounts[FIAT as int] == sat(
            r.ledger.amounts[FIAT as int] + amount,
        ),
{
}

} // verus!
