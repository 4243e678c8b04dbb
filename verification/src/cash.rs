//! Amounts of money: a decimal amount in a currency.
use vstd::prelude::*;
use crate::decimal::{Decimal, DecimalView, decimal_text};

verus! {

/// The mathematical content of an amount of money.
pub struct CashView {
    pub currency: Seq<char>,
    pub amount: DecimalView,
}

/// An amount of money in a currency.
#[derive(Debug)]
pub struct Cash {
    pub currency: String,
    pub amount: Decimal,
}

impl View for Cash {
    type V = CashView;

    open spec fn view(&self) -> CashView {
        CashView { currency: self.currency@, amount: self.amount@ }
    }
}

impl Clone for Cash {
    fn clone(&self) -> (r: Cash)
        ensures
            r@ == self@,
    {
        Cash { currency: self.currency.clone(), amount: self.amount }
    }
}

/// How an amount of money is written: the amount, a space and the currency.
pub open spec fn cash_text(c: CashView) -> Seq<char> {
    decimal_text(c.amount) + " "@ + c.currency
}

pub open spec fn negated(c: CashView) -> CashView {
    CashView {
        currency: c.currency,
        amount: DecimalView { mantissa: -c.amount.mantissa, scale: c.amount.scale },
    }
}

/// Changing the sign twice gives the amount back.
pub proof fn lemma_negated_twice(c: CashView)
    ensures
        negated(negated(c)) == c,
{
}

impl Cash {
    pub fn new(currency: &str, amount: Decimal) -> (r: Cash)
        ensures
            r@ == (CashView { currency: currency@, amount: amount@ }),
    {
        Cash { currency: String::from_str(currency), amount }
    }

    pub fn is_zero(&self) -> (r: bool)
        ensures
            r == (self@.amount.mantissa == 0),
    {
        self.amount.is_zero()
    }

    pub fn is_negative(&self) -> (r: bool)
        ensures
            r == (self@.amount.mantissa < 0),
    {
        self.amount.is_negative()
    }

    pub fn is_positive(&self) -> (r: bool)
        ensures
            r == (self@.amount.mantissa > 0),
    {
        self.amount.is_positive()
    }

    /// The same amount with the opposite sign.
    pub fn neg(&self) -> (r: Cash)
        ensures
            r@ == negated(self@),
    {
        Cash { currency: self.currency.clone(), amount: self.amount.neg() }
    }

    /// The amount as text, such as `-12.50 USD`.
    pub fn to_text(&self) -> (r: String)
        ensures
            r@ == cash_text(self@),
    {
        let mut text = self.amount.to_text();
        proof {
            reveal_strlit(" ");
        }
        text.append(" ");
        text.append(self.currency.as_str());
        text
    }
}

} // verus!
