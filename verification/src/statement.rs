//! The parts of a broker statement that cash flows are made from.
use vstd::prelude::*;
use crate::cash::Cash;
use crate::date::Date;
use crate::decimal::Decimal;

verus! {

/// A fee the broker charged (negative amount) or returned.
#[derive(Debug, Clone)]
pub struct Fee {
    pub date: Date,
    pub amount: Cash,
}

/// Money deposited to (positive) or withdrawn from the account.
#[derive(Debug, Clone)]
pub struct CashAssets {
    pub date: Date,
    pub cash: Cash,
}

/// Interest paid on the idle cash of the account.
#[derive(Debug, Clone)]
pub struct IdleCashInterest {
    pub date: Date,
    pub amount: Cash,
}

/// An exchange of one currency for another.
#[derive(Debug, Clone)]
pub struct ForexTrade {
    pub from: Cash,
    pub to: Cash,
    pub commission: Cash,
    pub conclusion_date: Date,
}

/// A purchase of shares.
#[derive(Debug, Clone)]
pub struct StockBuy {
    pub symbol: String,
    pub quantity: Decimal,
    pub price: Cash,
    pub commission: Cash,
    pub conclusion_date: Date,
}

/// A sale of shares.
#[derive(Debug, Clone)]
pub struct StockSell {
    pub symbol: String,
    pub quantity: Decimal,
    pub price: Cash,
    pub commission: Cash,
    pub conclusion_date: Date,
}

/// A dividend and the tax withheld from it.
#[derive(Debug, Clone)]
pub struct Dividend {
    pub date: Date,
    pub issuer: String,
    pub amount: Cash,
    pub paid_tax: Cash,
}

/// A broker statement, as far as cash flows are concerned.
#[derive(Debug, Clone)]
pub struct BrokerStatement {
    pub fees: Vec<Fee>,
    pub cash_flows: Vec<CashAssets>,
    pub idle_cash_interest: Vec<IdleCashInterest>,
    pub forex_trades: Vec<ForexTrade>,
    pub stock_buys: Vec<StockBuy>,
    pub stock_sells: Vec<StockSell>,
    pub dividends: Vec<Dividend>,
}

} // verus!
