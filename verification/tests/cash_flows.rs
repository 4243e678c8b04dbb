use investments::cash::Cash;
use investments::cash_flow::{
    get_account_cash_flow, map_broker_statement_to_cash_flow, new_from_dividend,
    new_from_stock_buy, new_from_stock_sell, CashFlow,
};
use investments::date::Date;
use investments::decimal::Decimal;
use investments::statement::{
    BrokerStatement, CashAssets, Dividend, Fee, ForexTrade, IdleCashInterest, StockBuy, StockSell,
};

fn date(year: i32, month: u32, day: u32) -> Date {
    Date::from_ymd_opt(year, month, day).unwrap()
}

fn cash(currency: &str, mantissa: i64, scale: u32) -> Cash {
    Cash::new(currency, Decimal::new(mantissa, scale))
}

fn empty_statement() -> BrokerStatement {
    BrokerStatement {
        fees: vec![],
        cash_flows: vec![],
        idle_cash_interest: vec![],
        forex_trades: vec![],
        stock_buys: vec![],
        stock_sells: vec![],
        dividends: vec![],
    }
}

fn summary(flows: &[CashFlow]) -> Vec<(Date, String, Option<String>, String)> {
    flows
        .iter()
        .map(|f| {
            (f.date, f.amount.to_text(), f.sibling_amount.as_ref().map(|s| s.to_text()), f.description.clone())
        })
        .collect()
}

#[test]
fn statement_cash_flows_in_date_order() {
    let mut statement = empty_statement();
    statement.fees = vec![
        Fee { date: date(2020, 3, 1), amount: cash("USD", -150, 2) },
        Fee { date: date(2020, 1, 15), amount: cash("USD", 50, 2) },
    ];
    statement.cash_flows = vec![
        CashAssets { date: date(2020, 1, 15), cash: cash("USD", 1000, 0) },
        CashAssets { date: date(2020, 2, 1), cash: cash("USD", -200, 0) },
    ];
    statement.idle_cash_interest =
        vec![IdleCashInterest { date: date(2020, 1, 10), amount: cash("RUB", 1234, 2) }];
    statement.forex_trades = vec![
        ForexTrade {
            from: cash("USD", 100, 0),
            to: cash("RUB", 750000, 2),
            commission: cash("RUB", 1125, 2),
            conclusion_date: date(2020, 1, 15),
        },
        ForexTrade {
            from: cash("RUB", 100000, 2),
            to: cash("USD", 1350, 2),
            commission: cash("RUB", 0, 0),
            conclusion_date: date(2020, 1, 1),
        },
    ];

    let flows = map_broker_statement_to_cash_flow(&statement);
    assert_eq!(summary(&flows), vec![
        (date(2020, 1, 1), "-1000.00 RUB".to_string(), Some("13.50 USD".to_string()),
         "Конвертация 1000.00 RUB -> 13.50 USD".to_string()),
        (date(2020, 1, 10), "12.34 RUB".to_string(), None,
         "Проценты на остаток по счету".to_string()),
        (date(2020, 1, 15), "0.50 USD".to_string(), None,
         "Возврат излишне удержанной комиссии".to_string()),
        (date(2020, 1, 15), "1000 USD".to_string(), None, "Ввод денежных средств".to_string()),
        (date(2020, 1, 15), "-100 USD".to_string(), Some("7500.00 RUB".to_string()),
         "Конвертация 100 USD -> 7500.00 RUB".to_string()),
        (date(2020, 1, 15), "-11.25 RUB".to_string(), None,
         "Комиссия за конвертацию 100 USD -> 7500.00 RUB".to_string()),
        (date(2020, 2, 1), "-200 USD".to_string(), None, "Вывод денежных средств".to_string()),
        (date(2020, 3, 1), "-1.50 USD".to_string(), None, "Комиссия брокера".to_string()),
    ]);
}

#[test]
fn empty_statement_has_no_cash_flows() {
    assert!(map_broker_statement_to_cash_flow(&empty_statement()).is_empty());
    assert!(get_account_cash_flow(&empty_statement()).is_empty());
}

#[test]
fn zero_deposit_counts_as_withdrawal() {
    let mut statement = empty_statement();
    statement.cash_flows = vec![CashAssets { date: date(2020, 1, 15), cash: cash("USD", 0, 0) }];
    statement.fees = vec![Fee { date: date(2020, 1, 16), amount: cash("USD", 0, 0) }];
    let flows = map_broker_statement_to_cash_flow(&statement);
    assert_eq!(flows[0].description, "Вывод денежных средств");
    assert_eq!(flows[1].description, "Возврат излишне удержанной комиссии");
}

#[test]
fn trade_and_dividend_cash_flows() {
    let buy = StockBuy {
        symbol: "AAPL".to_string(),
        quantity: Decimal::new(35, 0),
        price: cash("USD", 29595, 1),
        commission: cash("USD", 1, 0),
        conclusion_date: date(2019, 12, 2),
    };
    let (flow, commission) = new_from_stock_buy(&buy);
    assert_eq!(flow.amount.to_text(), "-103582.5 USD");
    assert_eq!(flow.description, "Покупка 35 AAPL");
    let commission = commission.unwrap();
    assert_eq!(commission.amount.to_text(), "-1 USD");
    assert_eq!(commission.description, "Комиссия за покупку 35 AAPL");

    let sell = StockSell {
        symbol: "MSFT".to_string(),
        quantity: Decimal::new(15, 1),
        price: cash("USD", 200, 0),
        commission: cash("USD", 0, 0),
        conclusion_date: date(2019, 12, 3),
    };
    let (flow, commission) = new_from_stock_sell(&sell);
    assert_eq!(flow.amount.to_text(), "300.0 USD");
    assert_eq!(flow.description, "Продажа 1.5 MSFT");
    assert!(commission.is_none());

    let dividend = Dividend {
        date: date(2019, 12, 4),
        issuer: "Apple".to_string(),
        amount: cash("USD", 77, 2),
        paid_tax: cash("USD", 8, 2),
    };
    let (flow, tax) = new_from_dividend(&dividend);
    assert_eq!(flow.description, "Дивиденд от Apple");
    let tax = tax.unwrap();
    assert_eq!(tax.amount.to_text(), "-0.08 USD");
    assert_eq!(tax.description, "Налог, удержанный с дивиденда от Apple");

    let mut statement = empty_statement();
    statement.dividends = vec![dividend];
    statement.stock_sells = vec![sell];
    statement.stock_buys = vec![buy];
    let flows = get_account_cash_flow(&statement);
    let descriptions: Vec<&str> = flows.iter().map(|f| f.description.as_str()).collect();
    assert_eq!(descriptions, vec![
        "Покупка 35 AAPL",
        "Комиссия за покупку 35 AAPL",
        "Продажа 1.5 MSFT",
        "Дивиденд от Apple",
        "Налог, удержанный с дивиденда от Apple",
    ]);
}
