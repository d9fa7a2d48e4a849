use vstd::prelude::*;
use crate::ledger::{LedgerView, MonthDate, State, Trans, UNIT, ROI, month_of};
use crate::replay::{
    Replay, all_ok, default_month, end_of, flush, lemma_flush_wf, lemma_step_wf, replay_of, replay_range, start_of, step, update,
};

verus! {

/// Months counted from January of year 0.
pub open spec fn month_key(m: MonthDate) -> int {
    m.1 * 12 + m.0 - 1
}

pub open spec fn valid_month(m: MonthDate) -> bool {
    1 <= m.0 <= 12
}

/// The month after `m`.
pub open spec fn next_month(m: MonthDate) -> MonthDate {
    if m.0 >= 12 {
        (1u8, (m.1 + 1) as u16)
    } else {
        ((m.0 + 1) as u8, m.1)
    }
}

/// Day `a` is not later than day `b` (dates are day, month, year).
pub open spec fn date_le(a: (u8, u8, u16), b: (u8, u8, u16)) -> bool {
    a.2 < b.2 || (a.2 == b.2 && (a.1 < b.1 || (a.1 == b.1 && a.0 <= b.0)))
}

/// The transactions are sorted by date.
pub open spec fn chronological(ts: Seq<Trans>) -> bool {
    forall|i: int, j: int| 0 <= i < j < ts.len() ==> date_le(ts[i].date, ts[j].date)
}

/// Every transaction falls in a month from 1 to 12.
pub open spec fn valid_months(ts: Seq<Trans>) -> bool {
    forall|i: int| 0 <= i < ts.len() ==> valid_month(month_of(#[trigger] ts[i]))
}

/// A month ends after the first `n` transactions.
pub open spec fn month_ends(ts: Seq<Trans>, n: int) -> bool {
    n == ts.len() || month_of(ts[n]) != month_of(ts[n - 1])
}

/// Replaying the first `n` transactions, closing each month after its last
/// transaction.
pub open spec fn run(r: Replay, ts: Seq<Trans>, n: int) -> Replay
    decreases n,
{
    if n <= 0 {
        r
    } else {
        let r1 = step(run(r, ts, n - 1), ts[n - 1].ext);
        if month_ends(ts, n) {
            flush(r1)
        } else {
            r1
        }
    }
}

/// How many transactions fall in or before the month with key `key`, for
/// sorted `ts`.
pub open spec fn upto(ts: Seq<Trans>, key: int) -> int
    decreases ts.len(),
{
    if ts.len() == 0 {
        0
    } else if month_key(month_of(ts.last())) <= key {
        ts.len() as int
    } else {
        upto(ts.drop_last(), key)
    }
}

/// The ledger a history starts from: the return factor set to one.
pub open spec fn seeded(v: LedgerView) -> LedgerView {
    LedgerView {
        accounts: v.accounts.update(ROI as int, UNIT),
        labels: v.labels,
        initialised: v.initialised,
        amounts: v.amounts,
        prices: v.prices,
    }
}

/// The replay of a whole history from ledger `v`, after the first `n`
/// transactions.
pub open spec fn history_run(v: LedgerView, ts: Seq<Trans>, n: int) -> Replay {
    run(replay_of(seeded(v), 0, 0), ts, n)
}

/// The balances at the end of the month with key `key`.
pub open spec fn frame_at(v: LedgerView, ts: Seq<Trans>, key: int) -> Seq<i64> {
    history_run(v, ts, upto(ts, key)).ledger.accounts
}

/// The number of months from the first transaction's to the last's.
pub open spec fn month_span(ts: Seq<Trans>) -> int {
    month_key(month_of(ts.last())) - month_key(month_of(ts[0])) + 1
}

proof fn lemma_month_order(a: Trans, b: Trans)
    requires
        date_le(a.date, b.date),
        valid_month(month_of(a)),
        valid_month(month_of(b)),
    ensures
        month_key(month_of(a)) <= month_key(month_of(b)),
        month_of(a) != month_of(b) ==> month_key(month_of(a)) < month_key(month_of(b)),
{
}

/// With sorted months, `upto` counts the prefix at or before `key`.
proof fn lemma_upto(ts: Seq<Trans>, key: int, n: int)
    requires
        0 <= n <= ts.len(),
        forall|i: int| 0 <= i < n ==> month_key(month_of(#[trigger] ts[i])) <= key,
        forall|i: int| n <= i < ts.len() ==> month_key(month_of(#[trigger] ts[i])) > key,
    ensures
        upto(ts, key) == n,
    decreases ts.len(),
{
    if ts.len() > 0 {
        if n < ts.len() {
            assert(month_key(month_of(ts[ts.len() - 1])) > key);
            let d = ts.drop_last();
            assert forall|i: int| 0 <= i < n implies month_key(month_of(#[trigger] d[i])) <= key by {
                assert(d[i] == ts[i]);
            };
            assert forall|i: int| n <= i < d.len() implies month_key(month_of(#[trigger] d[i]))
                > key by {
                assert(d[i] == ts[i]);
            };
            lemma_upto(d, key, n);
        } else {
            assert(month_key(month_of(ts[ts.len() - 1])) <= key);
        }
    }
}

/// Inside one month, the history replay is the plain replay from the
/// month's start.
proof fn lemma_run_segment(r: Replay, ts: Seq<Trans>, k: int, i: int, d: MonthDate)
    requires
        0 <= k <= i < ts.len(),
        forall|p: int| k <= p <= i ==> month_of(#[trigger] ts[p]) == d,
    ensures
        run(r, ts, i) == replay_range(run(r, ts, k), ts, k, i),
    decreases i - k,
{
    if i > k {
        lemma_run_segment(r, ts, k, i - 1, d);
        assert(month_of(ts[i]) == d && month_of(ts[i - 1]) == d);
        assert(!month_ends(ts, i));
    }
}

pub(crate) proof fn lemma_run_wf(r: Replay, ts: Seq<Trans>, n: int)
    requires
        r.ledger.wf(),
        all_ok(r.ledger, ts),
        n <= ts.len(),
    ensures
        run(r, ts, n).ledger.wf(),
        run(r, ts, n).ledger.accounts.len() == r.ledger.accounts.len(),
        run(r, ts, n).ledger.amounts.len() == r.ledger.amounts.len(),
    decreases n,
{
    if n > 0 {
        lemma_run_wf(r, ts, n - 1);
        assert(crate::ledger::op_ok(r.ledger, ts[n - 1].ext));
        lemma_step_wf(run(r, ts, n - 1), ts[n - 1].ext);
        lemma_flush_wf(step(run(r, ts, n - 1), ts[n - 1].ext));
    }
}

fn month_after(m: MonthDate) -> (r: MonthDate)
    requires
        valid_month(m),
        m.0 < 12 || m.1 < u16::MAX,
    ensures
        r == next_month(m),
        valid_month(r),
        month_key(r) == month_key(m) + 1,
{
    if m.0 >= 12 {
        (1, m.1 + 1)
    } else {
        (m.0 + 1, m.1)
    }
}

/// Replays `ts` month by month on `state`, with the return factor first set
/// to one, and returns the balances at the end of every month from the first
/// transaction's to the last's, with the first month. A month without
/// transactions repeats the month before. No transactions give no months and
/// month `(0, 0)`.
pub fn hist(state: &mut State, ts: &[Trans]) -> (r: (Vec<Vec<i64>>, MonthDate))
    requires
        old(state)@.wf(),
        all_ok(old(state)@, ts@),
        chronological(ts@),
        valid_months(ts@),
        ts@.len() < usize::MAX,
    ensures
        ts@.len() == 0 ==> r.0@.len() == 0 && r.1 == (0u8, 0u16) && final(state)@ == old(
            state,
        )@,
        ts@.len() > 0 ==> {
            &&& r.1 == month_of(ts@[0])
            &&& r.0@.len() == month_span(ts@)
            &&& forall|f: int|
                0 <= f < r.0@.len() ==> (#[trigger] r.0@[f])@ == frame_at(
                    old(state)@,
                    ts@,
                    month_key(r.1) + f,
                )
            &&& final(state)@ == history_run(old(state)@, ts@, ts@.len() as int).ledger
        },
{
    let mut frames: Vec<Vec<i64>> = Vec::new();
    if ts.len() == 0 {
        return (frames, (0, 0));
    }
    let ghost v0 = state@;
    let ghost n = ts@.len() as int;
    state.accounts.set(ROI, UNIT);
    let ghost e0 = replay_of(seeded(v0), 0, 0);
    assert(state@ == seeded(v0));
    let start: MonthDate = (ts[0].date.1, ts[0].date.2);
    let ghost key0 = month_key(start);
    let mut from: usize = 0;
    let mut date: MonthDate = start;
    loop
        invariant_except_break
            replay_of(state@, 0, 0) == run(e0, ts@, from as int),
            frames@.len() == month_key(date) - key0,
        invariant
            n == ts@.len(),
            0 < n < usize::MAX,
            v0 == old(state)@,
            v0.wf(),
            e0 == replay_of(seeded(v0), 0, 0),
            all_ok(v0, ts@),
            chronological(ts@),
            valid_months(ts@),
            key0 == month_key(month_of(ts@[0])),
            start == month_of(ts@[0]),
            from < n,
            date == month_of(ts@[from as int]),
            forall|i: int| 0 <= i < from ==> month_key(month_of(#[trigger] ts@[i])) < month_key(
                date,
            ),
            forall|f: int|
                0 <= f < frames@.len() ==> (#[trigger] frames@[f])@ == frame_at(v0, ts@, key0 + f),
        ensures
            frames@.len() == month_span(ts@),
            state@ == run(e0, ts@, n).ledger,
        decreases n - from,
    {
        proof {
            lemma_run_wf(e0, ts@, from as int);
        }
        let (next, next_date) = update(ts, state, Some(from), Some(date));
        let ghost j = end_of(next, n);
        proof {
            assert(start_of(Some(from), n) == from);
            assert(month_of(ts@[from as int]) == date);
            assert(j > from);
            lemma_run_segment(e0, ts@, from as int, j - 1, date);
            assert(month_ends(ts@, j));
            // the month closed by `update` is the one `run` closes
            assert(default_month(Some(date)) == date);
            assert(run(e0, ts@, j) == flush(
                replay_range(run(e0, ts@, from as int), ts@, from as int, j),
            ));
            assert(state@ == run(e0, ts@, j).ledger);
            assert forall|i: int| 0 <= i < j implies month_key(month_of(#[trigger] ts@[i]))
                <= month_key(date) by {
                if i >= from {
                    assert(month_of(ts@[i]) == date);
                }
            };
            assert forall|i: int| j <= i < n implies month_key(month_of(#[trigger] ts@[i]))
                > month_key(date) by {
                lemma_month_order(ts@[j - 1], ts@[j]);
                lemma_month_order(ts@[j], ts@[i]);
                assert(month_of(ts@[j - 1]) == date);
            };
            lemma_upto(ts@, month_key(date), j);
        }
        frames.push(state.accounts.clone());
        if next >= ts.len() {
            proof {
                assert(j == n);
                assert(month_of(ts@.last()) == date);
            }
            break ;
        }
        proof {
            assert(j < n && next_date == month_of(ts@[j]));
            lemma_month_order(ts@[j - 1], ts@[j]);
            assert(month_of(ts@[j - 1]) == date);
            assert(month_key(date) < month_key(next_date));
            assert forall|i: int| j <= i < n implies month_key(month_of(#[trigger] ts@[i]))
                >= month_key(next_date) by {
                if i > j {
                    lemma_month_order(ts@[j], ts@[i]);
                }
            };
        }
        let mut m = month_after(date);
        while m.0 != next_date.0 || m.1 != next_date.1
            invariant
                valid_month(m),
                valid_month(next_date),
                month_key(date) < month_key(m) <= month_key(next_date),
                frames@.len() == month_key(m) - key0,
                forall|f: int|
                    0 <= f < frames@.len() ==> (#[trigger] frames@[f])@ == frame_at(
                        v0,
                        ts@,
                        key0 + f,
                    ),
                forall|i: int| 0 <= i < j ==> month_key(month_of(#[trigger] ts@[i])) <= month_key(
                    date,
                ),
                forall|i: int| j <= i < n ==> month_key(month_of(#[trigger] ts@[i])) >= month_key(
                    next_date,
                ),
                0 <= j <= n,
                n == ts@.len(),
                state@.accounts == frame_at(v0, ts@, month_key(date)),
            decreases month_key(next_date) - month_key(m),
        {
            proof {
                lemma_upto(ts@, month_key(m), j);
                lemma_upto(ts@, month_key(date), j);
                assert(month_key(m) < month_key(next_date));
            }
            frames.push(state.accounts.clone());
            m = month_after(m);
        }
        from = next;
        date = next_date;
    }
    (frames, start)
}

} // verus!
