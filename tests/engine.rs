use ledger_replay::{
    check, hist, update, AccountLabel, NameBank, ReplayError, State, Trans, TransExt, ASSETS,
    FIAT, FLOW, INTERNAL_FLOW, NET, NR_BUILDIN_ACCOUNTS, NULL, REAL_FIAT, RECEIVING_CUMULATIVE,
    RECEIVING_MONTH, ROI, SPENDING_CUMULATIVE, SPENDING_MONTH, TRA, UNIT, YIELD,
};

fn t(day: u8, month: u8, year: u16, ext: TransExt) -> Trans {
    Trans { date: (day, month, year), tags: Vec::new(), ext }
}

fn whole(x: i64) -> i64 {
    x * UNIT
}

/// A bank with the given accounts registered after the reserved ones.
fn bank(names: &[&str]) -> (NameBank, Vec<usize>) {
    let mut nb = NameBank::new();
    let ids = names.iter().map(|n| nb.account_id(n.to_string())).collect();
    (nb, ids)
}

fn replay_all(state: &mut State, ts: &[Trans]) {
    assert_eq!(check(state, ts), Ok(()));
    update(ts, state, None, None);
}

#[test]
fn reserved_ids_come_first() {
    let nb = NameBank::new();
    assert_eq!(nb.next_account_id(), NR_BUILDIN_ACCOUNTS);
    assert_eq!(nb.next_asset_id(), 2);
    assert_eq!(nb.account_name(NULL), "null");
    assert_eq!(nb.account_name(FLOW), "_flow");
    assert_eq!(nb.account_name(ROI), "_roi");
    assert_eq!(nb.account_name(RECEIVING_CUMULATIVE), "_receiving_cumulative");
    assert_eq!(nb.asset_name(REAL_FIAT), "REAL_FIAT");
    assert_eq!(nb.asset_name(FIAT), "FIAT");
}

#[test]
fn get_or_create_is_idempotent() {
    let mut nb = NameBank::new();
    let a = nb.account_id("checking".to_string());
    let b = nb.account_id("checking".to_string());
    assert_eq!(a, b);
    assert_eq!(a, NR_BUILDIN_ACCOUNTS);
    let c = nb.account_id("savings".to_string());
    assert_eq!(c, NR_BUILDIN_ACCOUNTS + 1);
    assert_eq!(nb.next_account_id(), NR_BUILDIN_ACCOUNTS + 2);
    assert_eq!(nb.account_id("null".to_string()), NULL);
}

#[test]
fn spaces_are_independent() {
    let mut nb = NameBank::new();
    assert_eq!(nb.tag_id("food".to_string()), 0);
    assert_eq!(nb.tag_id("rent".to_string()), 1);
    assert_eq!(nb.tag_id("food".to_string()), 0);
    assert_eq!(nb.asset_id("gold".to_string()), 2);
    assert_eq!(nb.account_id("gold".to_string()), NR_BUILDIN_ACCOUNTS);
    assert_eq!(nb.asset_name(2), "gold");
}

#[test]
fn unknown_ids_are_unnamed() {
    let nb = NameBank::new();
    assert_eq!(nb.account_name(500), "unnamed");
    assert_eq!(nb.asset_name(2), "unnamed");
}

#[test]
fn new_state_is_sized_from_the_bank() {
    let (nb, _) = bank(&["a", "b"]);
    let s = State::new(&nb);
    assert_eq!(s.accounts.len(), NR_BUILDIN_ACCOUNTS + 2);
    assert_eq!(s.account_labels[NULL], AccountLabel::Null);
    assert_eq!(s.account_labels[NR_BUILDIN_ACCOUNTS], AccountLabel::Fiat);
    assert!(s.account_initialised.iter().all(|b| !b));
    assert_eq!(s.asset_amounts, vec![0, 0]);
    assert_eq!(s.asset_prices, vec![UNIT, 0]);
}

#[test]
fn set_on_null_only_overwrites_it() {
    let (nb, _) = bank(&[]);
    let mut s = State::new(&nb);
    replay_all(&mut s, &[t(1, 1, 2020, TransExt::Assign { amount: whole(7), dst: NULL })]);
    assert_eq!(s.accounts[NULL], whole(7));
    assert_eq!(s.accounts[NET], 0);
    assert_eq!(s.accounts[YIELD], 0);
    assert_eq!(s.accounts[ASSETS], 0);
}

#[test]
fn set_counts_as_yield() {
    let (nb, ids) = bank(&["bank"]);
    let mut s = State::new(&nb);
    replay_all(
        &mut s,
        &[
            t(1, 1, 2020, TransExt::Mov { src: NULL, dst: ids[0], amount: whole(100) }),
            t(2, 1, 2020, TransExt::Assign { amount: whole(110), dst: ids[0] }),
        ],
    );
    assert_eq!(s.accounts[ids[0]], whole(110));
    assert_eq!(s.accounts[NET], whole(110));
    assert_eq!(s.accounts[YIELD], whole(10));
    assert_eq!(s.asset_amounts[REAL_FIAT], whole(110));
}

#[test]
fn roi_chains_multiplicatively() {
    let (nb, ids) = bank(&["stocks"]);
    let mut s = State::new(&nb);
    s.accounts[ROI] = UNIT;
    replay_all(
        &mut s,
        &[
            t(1, 1, 2020, TransExt::Ass { account: ids[0] }),
            t(2, 1, 2020, TransExt::Assign { amount: whole(100), dst: ids[0] }),
            t(3, 1, 2020, TransExt::Assign { amount: whole(150), dst: ids[0] }),
        ],
    );
    assert_eq!(s.accounts[ROI], 1_500_000);
    assert_eq!(s.accounts[ASSETS], whole(150));
}

#[test]
fn first_inflow_is_opening_balance() {
    let (nb, ids) = bank(&["savings"]);
    let mut s = State::new(&nb);
    replay_all(
        &mut s,
        &[
            t(1, 1, 2020, TransExt::Mov { src: NULL, dst: ids[0], amount: whole(100) }),
            t(5, 1, 2020, TransExt::Mov { src: NULL, dst: ids[0], amount: whole(50) }),
        ],
    );
    assert_eq!(s.accounts[RECEIVING_CUMULATIVE], whole(50));
    assert_eq!(s.accounts[RECEIVING_MONTH], whole(50));
    assert_eq!(s.accounts[NET], whole(150));
    assert_eq!(s.accounts[FLOW], whole(150));
}

#[test]
fn debt_outflow_is_not_spending() {
    let (nb, ids) = bank(&["creditcard", "bank"]);
    let mut s = State::new(&nb);
    replay_all(
        &mut s,
        &[
            t(1, 1, 2020, TransExt::Deb { account: ids[0] }),
            t(2, 1, 2020, TransExt::Mov { src: ids[0], dst: NULL, amount: whole(200) }),
            t(3, 1, 2020, TransExt::Mov { src: ids[1], dst: NULL, amount: whole(30) }),
        ],
    );
    assert_eq!(s.accounts[SPENDING_MONTH], whole(30));
    assert_eq!(s.accounts[SPENDING_CUMULATIVE], whole(30));
    assert_eq!(s.accounts[NET], -whole(230));
    assert_eq!(s.accounts[ids[0]], -whole(200));
}

#[test]
fn fiat_into_assets_moves_to_shadow_fiat() {
    let (nb, ids) = bank(&["bank", "broker"]);
    let mut s = State::new(&nb);
    replay_all(
        &mut s,
        &[
            t(1, 1, 2020, TransExt::Ass { account: ids[1] }),
            t(2, 1, 2020, TransExt::Mov { src: NULL, dst: ids[0], amount: whole(500) }),
            t(3, 1, 2020, TransExt::Mov { src: ids[0], dst: ids[1], amount: whole(100) }),
        ],
    );
    assert_eq!(s.asset_amounts[REAL_FIAT], whole(400));
    assert_eq!(s.asset_amounts[FIAT], whole(100));
    assert_eq!(s.accounts[INTERNAL_FLOW], whole(100));
    assert_eq!(s.accounts[ASSETS], whole(100));
}

#[test]
fn assets_back_to_fiat_clear_shadow_fiat() {
    let (nb, ids) = bank(&["bank", "broker"]);
    let mut s = State::new(&nb);
    replay_all(
        &mut s,
        &[
            t(1, 1, 2020, TransExt::Ass { account: ids[1] }),
            t(3, 1, 2020, TransExt::Mov { src: ids[0], dst: ids[1], amount: whole(100) }),
            t(4, 1, 2020, TransExt::Tra { src: ids[1], dst: ids[0], sub: whole(90), add: whole(120) }),
        ],
    );
    assert_eq!(s.asset_amounts[FIAT], -whole(20));
    assert_eq!(s.asset_amounts[REAL_FIAT], whole(20));
    assert_eq!(s.accounts[TRA], whole(30));
    assert_eq!(s.accounts[NET], whole(30));
    assert_eq!(s.accounts[FLOW], whole(220));
    assert_eq!(s.accounts[INTERNAL_FLOW], whole(220));
    assert_eq!(s.accounts[ASSETS], whole(10));
}

#[test]
fn tra_receiving_counts_the_added_amount() {
    let (nb, ids) = bank(&["bank"]);
    let mut s = State::new(&nb);
    replay_all(
        &mut s,
        &[
            t(1, 1, 2020, TransExt::Tra { src: NULL, dst: ids[0], sub: whole(10), add: whole(8) }),
            t(2, 1, 2020, TransExt::Tra { src: NULL, dst: ids[0], sub: whole(10), add: whole(9) }),
            t(3, 1, 2020, TransExt::Tra { src: ids[0], dst: NULL, sub: whole(5), add: whole(4) }),
        ],
    );
    assert_eq!(s.accounts[RECEIVING_MONTH], whole(9));
    assert_eq!(s.accounts[SPENDING_MONTH], whole(5));
    assert_eq!(s.accounts[ids[0]], whole(12));
    assert_eq!(s.accounts[NET], whole(12));
    assert_eq!(s.accounts[FLOW], whole(25));
}

#[test]
fn internal_flow_only_grows() {
    let (nb, ids) = bank(&["a", "b"]);
    let mut s = State::new(&nb);
    let ts = vec![
        t(1, 1, 2020, TransExt::Mov { src: NULL, dst: ids[0], amount: whole(10) }),
        t(2, 1, 2020, TransExt::Mov { src: ids[0], dst: ids[1], amount: whole(4) }),
        t(3, 2, 2020, TransExt::Tra { src: ids[1], dst: ids[0], sub: whole(2), add: whole(1) }),
        t(4, 2, 2020, TransExt::Assign { amount: 0, dst: ids[0] }),
        t(5, 3, 2020, TransExt::Mov { src: ids[1], dst: NULL, amount: whole(1) }),
    ];
    let (frames, _) = hist(&mut s, &ts);
    let flows: Vec<i64> = frames.iter().map(|f| f[INTERNAL_FLOW]).collect();
    assert_eq!(flows, vec![whole(4), whole(6), whole(6)]);
}

#[test]
fn asset_operations() {
    let mut nb = NameBank::new();
    let gold = nb.asset_id("gold".to_string());
    let silver = nb.asset_id("silver".to_string());
    let mut s = State::new(&nb);
    replay_all(
        &mut s,
        &[
            t(1, 1, 2020, TransExt::Dec { asset: gold, amount: whole(3) }),
            t(2, 1, 2020, TransExt::Pri { asset: gold, amount: whole(2), worth: whole(5) }),
            t(3, 1, 2020, TransExt::Pin { asset: silver, amount: whole(4), worth: whole(2) }),
            t(4, 1, 2020, TransExt::Con { src: gold, src_amount: whole(1), dst: silver, dst_amount: whole(6) }),
        ],
    );
    assert_eq!(s.asset_amounts[gold], whole(2));
    assert_eq!(s.asset_prices[gold], 2_500_000);
    assert_eq!(s.asset_amounts[silver], whole(10));
    assert_eq!(s.asset_prices[silver], 500_000);
}

#[test]
fn price_rounds_toward_zero() {
    let mut nb = NameBank::new();
    let gold = nb.asset_id("gold".to_string());
    let mut s = State::new(&nb);
    replay_all(&mut s, &[t(1, 1, 2020, TransExt::Pri { asset: gold, amount: 3, worth: -1 })]);
    assert_eq!(s.asset_prices[gold], -333_333);
}

#[test]
fn balances_saturate() {
    let (nb, ids) = bank(&["a"]);
    let mut s = State::new(&nb);
    replay_all(
        &mut s,
        &[
            t(1, 1, 2020, TransExt::Mov { src: NULL, dst: ids[0], amount: i64::MAX }),
            t(2, 1, 2020, TransExt::Mov { src: NULL, dst: ids[0], amount: i64::MAX }),
        ],
    );
    assert_eq!(s.accounts[ids[0]], i64::MAX);
    assert_eq!(s.accounts[NULL], i64::MIN);
    assert_eq!(s.accounts[FLOW], i64::MAX);
}

#[test]
fn incremental_update_stops_at_month_change() {
    let (nb, ids) = bank(&["a"]);
    let mut s = State::new(&nb);
    let ts = vec![
        t(1, 1, 2020, TransExt::Mov { src: NULL, dst: ids[0], amount: whole(1) }),
        t(9, 1, 2020, TransExt::Mov { src: ids[0], dst: NULL, amount: whole(2) }),
        t(1, 3, 2020, TransExt::Mov { src: ids[0], dst: NULL, amount: whole(3) }),
    ];
    assert_eq!(update(&ts, &mut s, Some(0), Some((1, 2020))), (2, (3, 2020)));
    assert_eq!(s.accounts[ids[0]], -whole(1));
    assert_eq!(s.accounts[SPENDING_MONTH], whole(2));
    assert_eq!(update(&ts, &mut s, Some(2), Some((3, 2020))), (usize::MAX, (3, 2020)));
    assert_eq!(s.accounts[SPENDING_MONTH], whole(3));
    assert_eq!(s.accounts[SPENDING_CUMULATIVE], whole(5));
}

#[test]
fn full_update_returns_last_month() {
    let (nb, ids) = bank(&["a"]);
    let mut s = State::new(&nb);
    let ts = vec![
        t(1, 1, 2020, TransExt::Mov { src: NULL, dst: ids[0], amount: whole(1) }),
        t(1, 4, 2021, TransExt::Mov { src: ids[0], dst: NULL, amount: whole(1) }),
    ];
    assert_eq!(update(&ts, &mut s, None, None), (usize::MAX, (4, 2021)));
    assert_eq!(s.accounts[SPENDING_CUMULATIVE], whole(1));
    assert_eq!(update(&[], &mut s, None, Some((7, 2000))), (usize::MAX, (7, 2000)));
}

#[test]
fn gaps_repeat_the_previous_month() {
    let (nb, ids) = bank(&["a"]);
    let mut s = State::new(&nb);
    let ts = vec![
        t(3, 1, 2021, TransExt::Mov { src: NULL, dst: ids[0], amount: whole(10) }),
        t(7, 4, 2021, TransExt::Mov { src: ids[0], dst: NULL, amount: whole(4) }),
    ];
    let (frames, start) = hist(&mut s, &ts);
    assert_eq!(start, (1, 2021));
    assert_eq!(frames.len(), 4);
    assert_eq!(frames[1], frames[0]);
    assert_eq!(frames[2], frames[0]);
    assert_eq!(frames[0][ids[0]], whole(10));
    assert_eq!(frames[3][ids[0]], whole(6));
    assert_eq!(frames[3][SPENDING_MONTH], whole(4));
    assert_eq!(s.accounts, frames[3]);
}

#[test]
fn history_has_one_frame_per_month() {
    let (nb, ids) = bank(&["a", "b"]);
    let mut s = State::new(&nb);
    let ts = vec![
        t(30, 11, 2020, TransExt::Mov { src: NULL, dst: ids[0], amount: whole(1) }),
        t(2, 11, 2020, TransExt::Mov { src: NULL, dst: ids[1], amount: whole(1) }),
        t(15, 2, 2021, TransExt::Mov { src: ids[0], dst: ids[1], amount: whole(1) }),
    ];
    let (frames, start) = hist(&mut s, &ts[1..]);
    assert_eq!(start, (11, 2020));
    assert_eq!(frames.len(), 4);
    assert!(frames.iter().all(|f| f.len() == NR_BUILDIN_ACCOUNTS + 2));
    assert_eq!(frames[3][INTERNAL_FLOW], whole(1));
    assert_eq!(frames[0][ROI], UNIT);
}

#[test]
fn empty_history() {
    let (nb, _) = bank(&[]);
    let mut s = State::new(&nb);
    let (frames, start) = hist(&mut s, &[]);
    assert!(frames.is_empty());
    assert_eq!(start, (0, 0));
    assert_eq!(s.accounts[ROI], 0);
}

#[test]
fn check_reports_stale_ids() {
    let (nb, _) = bank(&["a"]);
    let s = State::new(&nb);
    let ts = vec![
        t(1, 1, 2020, TransExt::Ass { account: NR_BUILDIN_ACCOUNTS }),
        t(1, 1, 2020, TransExt::Deb { account: NR_BUILDIN_ACCOUNTS + 1 }),
    ];
    assert_eq!(check(&s, &ts), Err(ReplayError::StaleId(1)));
    let ts = vec![t(1, 1, 2020, TransExt::Dec { asset: 2, amount: 1 })];
    assert_eq!(check(&s, &ts), Err(ReplayError::StaleId(0)));
}

#[test]
fn check_reports_zero_price_amounts() {
    let (nb, _) = bank(&[]);
    let s = State::new(&nb);
    let ts = vec![t(1, 1, 2020, TransExt::Pin { asset: 1, amount: 0, worth: 5 })];
    assert_eq!(check(&s, &ts), Err(ReplayError::ZeroPriceAmount(0)));
}

#[test]
fn check_reports_invalid_months() {
    let (nb, _) = bank(&[]);
    let s = State::new(&nb);
    let ts = vec![
        t(1, 12, 2020, TransExt::Ass { account: 1 }),
        t(1, 13, 2020, TransExt::Ass { account: 1 }),
    ];
    assert_eq!(check(&s, &ts), Err(ReplayError::InvalidMonth(1)));
}

#[test]
fn check_reports_out_of_order_dates() {
    let (nb, _) = bank(&[]);
    let s = State::new(&nb);
    let ts = vec![
        t(2, 3, 2020, TransExt::Ass { account: 1 }),
        t(2, 3, 2020, TransExt::Ass { account: 1 }),
        t(1, 3, 2020, TransExt::Ass { account: 1 }),
    ];
    assert_eq!(check(&s, &ts), Err(ReplayError::OutOfOrder(2)));
    assert_eq!(check(&s, &ts[..2]), Ok(()));
}

#[test]
fn roi_waits_for_a_nonzero_base() {
    let (nb, ids) = bank(&["stocks", "bonds"]);
    let mut s = State::new(&nb);
    s.accounts[ROI] = UNIT;
    replay_all(
        &mut s,
        &[
            t(1, 1, 2020, TransExt::Ass { account: ids[0] }),
            t(1, 1, 2020, TransExt::Ass { account: ids[1] }),
            t(2, 1, 2020, TransExt::Assign { amount: whole(200), dst: ids[0] }),
            t(3, 1, 2020, TransExt::Assign { amount: whole(300), dst: ids[1] }),
        ],
    );
    assert_eq!(s.accounts[ASSETS], whole(500));
    assert_eq!(s.accounts[ROI], 2_500_000);
    assert_eq!(s.accounts[YIELD], whole(500));
}
