use options_tracker::model::{Action, Trade, TradeType};
use options_tracker::report::summarize;

fn trade(symbol: &str, action: Action, price: i64, quantity: i64, fees: i64) -> Trade {
    Trade {
        id: None,
        symbol: symbol.to_string(),
        trade_type: TradeType::Stock,
        action,
        price,
        quantity,
        date: "2024-01-01".to_string(),
        fees,
        comment: String::new(),
    }
}

#[test]
fn cash_flow_of_buy_and_sell() {
    let trades = vec![
        trade("AAPL", Action::Buy, 150_500_000, 100_000_000, 5_000_000),
        trade("AAPL", Action::Sell, 165_750_000, 100_000_000, 5_000_000),
    ];
    let r = summarize(&trades).unwrap();
    assert_eq!(r.len(), 1);
    assert_eq!(r[0].symbol, "AAPL");
    assert_eq!(r[0].profit_loss, 1_515_000_000_000_000);
    assert_eq!(r[0].trade_count, 2);
}

#[test]
fn symbols_come_out_ascending() {
    let trades = vec![
        trade("TSLA", Action::Buy, 50_000_000, 10_000_000, 2_500_000),
        trade("AAPL", Action::Sell, 1_000_000, 1_000_000, 0),
        trade("MSFT", Action::Buy, 2_000_000, 3_000_000, 1_000_000),
        trade("AAPL", Action::Buy, 1_000_000, 2_000_000, 0),
    ];
    let r = summarize(&trades).unwrap();
    let names: Vec<&str> = r.iter().map(|l| l.symbol.as_str()).collect();
    assert_eq!(names, vec!["AAPL", "MSFT", "TSLA"]);
    assert_eq!(r[0].profit_loss, -1_000_000_000_000);
    assert_eq!(r[0].trade_count, 2);
    assert_eq!(r[1].profit_loss, -7_000_000_000_000);
    assert_eq!(r[2].profit_loss, -502_500_000_000_000);
    assert_eq!(r[2].trade_count, 1);
}

#[test]
fn fees_subtract_on_both_sides() {
    let trades = vec![trade("X", Action::Sell, 0, 1_000_000, 3_000_000)];
    let r = summarize(&trades).unwrap();
    assert_eq!(r[0].profit_loss, -3_000_000_000_000);
}

#[test]
fn empty_ledger_gives_empty_report() {
    let r = summarize(&Vec::new()).unwrap();
    assert!(r.is_empty());
}

#[test]
fn running_total_out_of_range_is_refused() {
    let big = trade("X", Action::Sell, i64::MAX, i64::MAX, 0);
    let trades = vec![big.clone(), big.clone(), big];
    assert!(summarize(&trades).is_none());
}
