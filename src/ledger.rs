use vstd::prelude::*;

verus! {

/// Asset id of the fiat held on hand.
pub const REAL_FIAT: usize = 0;
/// Asset id of the shadow fiat: fiat that was converted into assets.
pub const FIAT: usize = 1;

/// Account id standing for everything outside the ledger.
pub const NULL: usize = 0;
pub const FLOW: usize = 1;
pub const INTERNAL_FLOW: usize = 2;
pub const NET: usize = 3;
pub const ASSETS: usize = 4;
pub const TRA: usize = 5;
pub const YIELD: usize = 6;
pub const ROI: usize = 7;
pub const SPENDING_MONTH: usize = 8;
pub const SPENDING_CUMULATIVE: usize = 9;
pub const RECEIVING_MONTH: usize = 10;
pub const RECEIVING_CUMULATIVE: usize = 11;

/// Number of reserved account ids, null account included.
pub const NR_BUILDIN_ACCOUNTS: usize = 12;
/// Number of reserved asset ids.
pub const NR_BUILDIN_ASSETS: usize = 2;

/// Fixed-point scale of every amount, balance, price and factor: the value
/// `UNIT` stands for one whole unit.
pub const UNIT: i64 = 1_000_000;

#[derive(Debug, Copy, Clone, PartialEq, Eq, Structural)]
pub enum AccountLabel {
    Null,
    Fiat,
    Assets,
    Debt,
}

/// The operation a transaction performs; amounts are fixed-point (see `UNIT`).
#[derive(Debug, Copy, Clone, PartialEq, Eq, Structural)]
pub enum TransExt {
    Mov { src: usize, dst: usize, amount: i64 },
    Assign { amount: i64, dst: usize },
    Tra { src: usize, dst: usize, sub: i64, add: i64 },
    Dec { asset: usize, amount: i64 },
    Pri { asset: usize, amount: i64, worth: i64 },
    Pin { asset: usize, amount: i64, worth: i64 },
    Con { src: usize, dst: usize, src_amount: i64, dst_amount: i64 },
    Ass { account: usize },
    Deb { account: usize },
}

/// Day, month, year.
pub type Date = (u8, u8, u16);

/// Month, year.
pub type MonthDate = (u8, u16);

pub struct Trans {
    pub date: Date,
    pub tags: Vec<usize>,
    pub ext: TransExt,
}

/// The month and year of a transaction.
pub open spec fn month_of(t: Trans) -> MonthDate {
    (t.date.1, t.date.2)
}

/// The ledger: balances, labels and initialised flags per account, held
/// amount and unit price per asset.
pub struct State {
    pub accounts: Vec<i64>,
    pub account_labels: Vec<AccountLabel>,
    pub account_initialised: Vec<bool>,
    pub asset_amounts: Vec<i64>,
    pub asset_prices: Vec<i64>,
}

/// The contents of a `State`.
pub struct LedgerView {
    pub accounts: Seq<i64>,
    pub labels: Seq<AccountLabel>,
    pub initialised: Seq<bool>,
    pub amounts: Seq<i64>,
    pub prices: Seq<i64>,
}

impl View for State {
    type V = LedgerView;

    open spec fn view(&self) -> LedgerView {
        LedgerView {
            accounts: self.accounts@,
            labels: self.account_labels@,
            initialised: self.account_initialised@,
            amounts: self.asset_amounts@,
            prices: self.asset_prices@,
        }
    }
}

impl LedgerView {
    /// The per-account arrays agree in length and hold the reserved
    /// accounts; the per-asset arrays agree and hold the reserved assets.
    pub open spec fn wf(self) -> bool {
        &&& self.accounts.len() >= NR_BUILDIN_ACCOUNTS
        &&& self.labels.len() == self.accounts.len()
        &&& self.initialised.len() == self.accounts.len()
        &&& self.amounts.len() >= NR_BUILDIN_ASSETS
        &&& self.prices.len() == self.amounts.len()
    }

    pub open spec fn account_ok(self, id: usize) -> bool {
        id < self.accounts.len()
    }

    pub open spec fn asset_ok(self, id: usize) -> bool {
        id < self.amounts.len()
    }

    /// Every id that `op` names is sized into the ledger.
    pub open spec fn ids_ok(self, op: TransExt) -> bool {
        match op {
            TransExt::Mov { src, dst, .. } => self.account_ok(src) && self.account_ok(dst),
            TransExt::Assign { dst, .. } => self.account_ok(dst),
            TransExt::Tra { src, dst, .. } => self.account_ok(src) && self.account_ok(dst),
            TransExt::Dec { asset, .. } => self.asset_ok(asset),
            TransExt::Pri { asset, .. } => self.asset_ok(asset),
            TransExt::Pin { asset, .. } => self.asset_ok(asset),
            TransExt::Con { src, dst, .. } => self.asset_ok(src) && self.asset_ok(dst),
            TransExt::Ass { account } => self.account_ok(account),
            TransExt::Deb { account } => self.account_ok(account),
        }
    }
}

/// A price operation with a zero amount has no unit price.
pub open spec fn zero_price_amount(op: TransExt) -> bool {
    match op {
        TransExt::Pri { amount, .. } => amount == 0,
        TransExt::Pin { amount, .. } => amount == 0,
        _ => false,
    }
}

/// `op` can be replayed on a ledger shaped like `v`.
pub open spec fn op_ok(v: LedgerView, op: TransExt) -> bool {
    v.ids_ok(op) && !zero_price_amount(op)
}

impl State {
    /// A ledger sized for the ids handed out so far: all balances zero, every
    /// account but the null one labelled fiat, the real fiat priced at one.
    pub fn new(nb: &crate::ider::NameBank) -> (r: Self)
        requires
            nb.wf(),
        ensures
            r@.wf(),
            r@.accounts == Seq::new(nb.accounts_view().len(), |i: int| 0i64),
            r@.labels == Seq::new(
                nb.accounts_view().len(),
                |i: int|
                    if i == NULL {
                        AccountLabel::Null
                    } else {
                        AccountLabel::Fiat
                    },
            ),
            r@.initialised == Seq::new(nb.accounts_view().len(), |i: int| false),
            r@.amounts == Seq::new(nb.assets_view().len(), |i: int| 0i64),
            r@.prices == Seq::new(
                nb.assets_view().len(),
                |i: int|
                    if i == REAL_FIAT {
                        UNIT
                    } else {
                        0i64
                    },
            ),
    {
        let n_accounts = nb.next_account_id();
        let n_assets = nb.next_asset_id();
        let mut account_labels = vec![AccountLabel::Fiat; n_accounts];
        account_labels.set(NULL, AccountLabel::Null);
        let mut asset_prices = vec![0i64; n_assets];
        asset_prices.set(REAL_FIAT, UNIT);
        let r = State {
            accounts: vec![0i64; n_accounts],
            account_labels,
            account_initialised: vec![false; n_accounts],
            asset_amounts: vec![0i64; n_assets],
            asset_prices,
        };
        assert(r@.accounts =~= Seq::new(nb.accounts_view().len(), |i: int| 0i64));
        assert(r@.labels =~= Seq::new(
            nb.accounts_view().len(),
            |i: int|
                if i == NULL {
                    AccountLabel::Null
                } else {
                    AccountLabel::Fiat
                },
        ));
        assert(r@.initialised =~= Seq::new(nb.accounts_view().len(), |i: int| false));
        assert(r@.amounts =~= Seq::new(nb.assets_view().len(), |i: int| 0i64));
        assert(r@.prices =~= Seq::new(
            nb.assets_view().len(),
            |i: int|
                if i == REAL_FIAT {
                    UNIT
                } else {
                    0i64
                },
        ));
        r
    }
}

} // verus!
