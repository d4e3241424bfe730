use options_tracker::model::{Action, Trade, TradeType};
use options_tracker::store::{decode_row, decode_rows, trade_params, Database, SqlRow, StoreError};

fn trade(symbol: &str, tt: TradeType, action: Action, price: i64, qty: i64, date: &str, fees: i64, comment: &str) -> Trade {
    Trade {
        id: None,
        symbol: symbol.to_string(),
        trade_type: tt,
        action,
        price,
        quantity: qty,
        date: date.to_string(),
        fees,
        comment: comment.to_string(),
    }
}

fn initial() -> Trade {
    trade("AAPL", TradeType::Stock, Action::Buy, 150_500_000, 100_000_000, "2024-01-15", 5_000_000, "Initial")
}

fn sold() -> Trade {
    trade("AAPL", TradeType::Stock, Action::Sell, 165_750_000, 100_000_000, "2024-02-15", 5_000_000, "Sold")
}

fn call() -> Trade {
    trade("TSLA", TradeType::Option, Action::Buy, 50_000_000, 10_000_000, "2024-03-01", 2_500_000, "Call")
}

fn memory_db() -> Database {
    Database::new(":memory:").unwrap()
}

fn same_fields(a: &Trade, b: &Trade) -> bool {
    a.symbol == b.symbol
        && a.trade_type == b.trade_type
        && a.action == b.action
        && a.price == b.price
        && a.quantity == b.quantity
        && a.date == b.date
        && a.fees == b.fees
        && a.comment == b.comment
}

#[test]
fn report_of_a_round_trip_in_aapl() {
    let db = memory_db();
    db.add_trade(&initial()).unwrap();
    db.add_trade(&sold()).unwrap();
    let r = db.get_report_by_symbol().unwrap();
    assert_eq!(r.len(), 1);
    assert_eq!(r[0].symbol, "AAPL");
    assert_eq!(r[0].profit_loss, 1_515_000_000_000_000);
    assert_eq!(r[0].trade_count, 2);
}

#[test]
fn listing_is_newest_first_and_delete_removes() {
    let db = memory_db();
    db.add_trade(&initial()).unwrap();
    db.add_trade(&sold()).unwrap();
    let tsla = db.add_trade(&call()).unwrap();
    let all = db.get_all_trades().unwrap();
    let order: Vec<(&str, &str)> = all.iter().map(|t| (t.symbol.as_str(), t.date.as_str())).collect();
    assert_eq!(order, vec![("TSLA", "2024-03-01"), ("AAPL", "2024-02-15"), ("AAPL", "2024-01-15")]);
    assert_eq!(all[0].id, Some(tsla));
    db.delete_trade(tsla).unwrap();
    let all = db.get_all_trades().unwrap();
    assert_eq!(all.len(), 2);
    assert!(all.iter().all(|t| t.symbol != "TSLA"));
}

#[test]
fn inserted_trade_reads_back_with_its_id() {
    let db = memory_db();
    let t = trade("MSFT", TradeType::Option, Action::Sell, 1_234_567, 3_000_000, "2023-07-04", 0, "");
    let id = db.add_trade(&t).unwrap();
    let all = db.get_all_trades().unwrap();
    assert_eq!(all.len(), 1);
    assert_eq!(all[0].id, Some(id));
    assert!(same_fields(&all[0], &t));
}

#[test]
fn updating_twice_equals_updating_once() {
    let db = memory_db();
    let id = db.add_trade(&initial()).unwrap();
    let mut t = db.get_all_trades().unwrap().remove(0);
    assert_eq!(t.id, Some(id));
    t.comment = "Updated comment".to_string();
    t.price = 151_000_000;
    db.update_trade(&t).unwrap();
    let once = db.get_all_trades().unwrap();
    db.update_trade(&t).unwrap();
    let twice = db.get_all_trades().unwrap();
    assert_eq!(once.len(), 1);
    assert_eq!(twice.len(), 1);
    assert!(same_fields(&once[0], &twice[0]));
    assert_eq!(once[0].id, twice[0].id);
    assert!(same_fields(&once[0], &t));
}

#[test]
fn update_without_id_or_of_missing_id_is_quiet() {
    let db = memory_db();
    db.add_trade(&initial()).unwrap();
    assert!(db.update_trade(&sold()).is_ok());
    let mut ghost = sold();
    ghost.id = Some(999);
    assert!(db.update_trade(&ghost).is_ok());
    let all = db.get_all_trades().unwrap();
    assert_eq!(all.len(), 1);
    assert!(same_fields(&all[0], &initial()));
}

#[test]
fn deleting_a_missing_id_twice_changes_nothing() {
    let db = memory_db();
    db.add_trade(&initial()).unwrap();
    assert!(db.delete_trade(12345).is_ok());
    assert!(db.delete_trade(12345).is_ok());
    assert_eq!(db.get_all_trades().unwrap().len(), 1);
    let id = db.get_all_trades().unwrap()[0].id.unwrap();
    assert!(db.delete_trade(id).is_ok());
    assert!(db.delete_trade(id).is_ok());
    assert!(db.get_all_trades().unwrap().is_empty());
}

#[test]
fn same_date_lists_larger_id_first() {
    let db = memory_db();
    let a = db.add_trade(&initial()).unwrap();
    let b = db.add_trade(&initial()).unwrap();
    let c = db.add_trade(&sold()).unwrap();
    let ids: Vec<Option<i64>> = db.get_all_trades().unwrap().iter().map(|t| t.id).collect();
    assert_eq!(ids, vec![Some(c), Some(b), Some(a)]);
}

#[test]
fn empty_store_lists_and_reports_nothing() {
    let db = memory_db();
    assert!(db.get_all_trades().unwrap().is_empty());
    assert!(db.get_report_by_symbol().unwrap().is_empty());
}

#[test]
fn unopenable_path_is_unavailable() {
    match Database::new("/nonexistent-directory/sub/ledger.db") {
        Err(StoreError::StorageUnavailable(m)) => assert!(!m.is_empty()),
        _ => panic!("expected the store to be unavailable"),
    }
}

#[test]
fn params_bind_tokens_and_millionths() {
    let (texts, ints) = trade_params(&call());
    assert_eq!(texts, vec!["TSLA", "option", "buy", "2024-03-01", "Call"]);
    assert_eq!(ints, vec![50_000_000, 10_000_000, 2_500_000]);
}

fn row(tt: &str, action: &str, id: i64, date: &str) -> SqlRow {
    SqlRow {
        texts: vec!["AAPL".to_string(), tt.to_string(), action.to_string(), date.to_string(), "c".to_string()],
        ints: vec![id, 1_000_000, 2_000_000, 0],
    }
}

#[test]
fn unknown_tokens_in_a_row_are_read_errors() {
    assert!(matches!(decode_row(&row("bond", "buy", 1, "2024-01-01")), Err(StoreError::StorageRead(_))));
    assert!(matches!(decode_row(&row("stock", "hold", 1, "2024-01-01")), Err(StoreError::StorageRead(_))));
    assert_eq!(decode_row(&row("Stock", "BUY", 1, "2024-01-01")).unwrap().trade_type, TradeType::Stock);
    let t = decode_row(&row("option", "sell", 7, "2024-01-01")).unwrap();
    assert_eq!(t.id, Some(7));
    assert_eq!(t.trade_type, TradeType::Option);
    assert_eq!(t.action, Action::Sell);
    assert_eq!((t.price, t.quantity, t.fees), (1_000_000, 2_000_000, 0));
}

#[test]
fn rows_out_of_order_are_read_errors() {
    let good = vec![row("stock", "buy", 2, "2024-02-01"), row("stock", "buy", 1, "2024-02-01"), row("stock", "buy", 3, "2024-01-01")];
    assert_eq!(decode_rows(&good).unwrap().len(), 3);
    let bad = vec![row("stock", "buy", 1, "2024-01-01"), row("stock", "buy", 2, "2024-02-01")];
    assert!(matches!(decode_rows(&bad), Err(StoreError::StorageRead(_))));
    let tie = vec![row("stock", "buy", 1, "2024-01-01"), row("stock", "buy", 2, "2024-01-01")];
    assert!(matches!(decode_rows(&tie), Err(StoreError::StorageRead(_))));
}

#[test]
fn error_message_is_carried() {
    let e = StoreError::StorageWrite("disk full".to_string());
    assert_eq!(e.message(), "disk full");
}
