//! A personal-ledger engine: parses ledger lines, replays typed transactions
//! against account and asset state, derives aggregate metrics, and builds a
//! monthly history.
//!
//! Amounts are fixed-point integers: `UNIT` stands for one whole unit.

mod ider;
mod ledger;
mod replay;
mod history;
mod check;
mod laws;
mod parse;

pub use ider::{into_named_accounts, into_named_assets, Ider, NameBank, NamedBalance};
pub use ledger::{
    AccountLabel, Date, MonthDate, State, Trans, TransExt, ASSETS, FIAT, FLOW, INTERNAL_FLOW,
    NET, NR_BUILDIN_ACCOUNTS, NR_BUILDIN_ASSETS, NULL, REAL_FIAT, RECEIVING_CUMULATIVE,
    RECEIVING_MONTH, ROI, SPENDING_CUMULATIVE, SPENDING_MONTH, TRA, UNIT, YIELD,
};
pub use replay::{apply, close_month, update};
pub use history::hist;
pub use check::{check, ReplayError};
pub use parse::{
    parse_date, parse_line, split_fields, AmountText, Command, IntoTrans, Pending, TransErr,
};
