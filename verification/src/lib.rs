//! Verified core of a broker statement processing library: calendar dates,
//! decimal cash amounts, statement parsing rules and cash flow mapping.
use vstd::prelude::*;

pub mod bcs;
pub mod cash;
pub mod cash_flow;
pub mod commissions;
pub mod date;
pub mod decimal;
pub mod firstrade;
pub mod statement;
pub mod text;
pub mod tinkoff;

verus! {
} // verus!
