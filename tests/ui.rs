use options_tracker::model::{Action, Trade, TradeType};
use options_tracker::store::{Database, StoreError};
use options_tracker::ui::{update_current_field, App, InputField, Key, Screen};

fn memory_db() -> Database {
    Database::new(":memory:").unwrap()
}

fn typed(app: &mut App, db: &Database, text: &str) {
    for c in text.chars() {
        app.handle_key(Key::Char(c), db);
    }
}

fn clear_buffer(app: &mut App, db: &Database) {
    while !app.input_buffer.is_empty() {
        app.handle_key(Key::Backspace, db);
    }
}

fn add_screen(db: &Database) -> App {
    let mut app = App::new();
    assert!(app.handle_key(Key::Enter, db));
    assert_eq!(app.current_screen, Screen::AddTrade);
    app
}

fn focus(app: &mut App, db: &Database, field: InputField) {
    while app.current_input_field != field {
        app.handle_key(Key::Tab, db);
    }
}

fn stored(symbol: &str, date: &str) -> Trade {
    Trade {
        id: None,
        symbol: symbol.to_string(),
        trade_type: TradeType::Stock,
        action: Action::Buy,
        price: 1_000_000,
        quantity: 1_000_000,
        date: date.to_string(),
        fees: 0,
        comment: String::new(),
    }
}

#[test]
fn unparseable_price_fails_validation_then_commits() {
    let db = memory_db();
    let mut app = add_screen(&db);
    focus(&mut app, &db, InputField::Price);
    typed(&mut app, &db, "abc");
    app.handle_key(Key::Enter, &db);
    assert_eq!(app.current_screen, Screen::AddTrade);
    assert_eq!(app.message.as_deref(), Some("Please fill in all required fields correctly"));
    assert_eq!(app.input_buffer, "abc");
    assert_eq!(app.current_trade.price, 0);
    assert_eq!(app.current_trade.quantity, 0);
    assert!(db.get_all_trades().unwrap().is_empty());
    clear_buffer(&mut app, &db);
    typed(&mut app, &db, "150.5");
    app.handle_key(Key::Tab, &db);
    assert_eq!(app.current_trade.price, 150_500_000);
    assert_eq!(app.input_buffer, "");
    assert_eq!(app.current_input_field, InputField::Quantity);
}

#[test]
fn unknown_trade_type_stays_in_buffer() {
    let db = memory_db();
    let mut app = add_screen(&db);
    focus(&mut app, &db, InputField::TradeType);
    typed(&mut app, &db, "bond");
    app.handle_key(Key::Tab, &db);
    assert_eq!(app.current_trade.trade_type, TradeType::Stock);
    assert_eq!(app.input_buffer, "bond");
    assert_eq!(app.current_input_field, InputField::Action);
    app.handle_key(Key::BackTab, &db);
    assert_eq!(app.current_input_field, InputField::TradeType);
    assert_eq!(app.current_trade.action, Action::Buy);
    assert_eq!(app.input_buffer, "bond");
    clear_buffer(&mut app, &db);
    typed(&mut app, &db, "option");
    app.handle_key(Key::Tab, &db);
    assert_eq!(app.current_trade.trade_type, TradeType::Option);
    assert_eq!(app.input_buffer, "");
}

#[test]
fn deleting_clamps_the_cursor() {
    let db = memory_db();
    db.add_trade(&stored("A", "2024-01-01")).unwrap();
    db.add_trade(&stored("B", "2024-01-02")).unwrap();
    db.add_trade(&stored("C", "2024-01-03")).unwrap();
    let mut app = App::new();
    app.handle_key(Key::Down, &db);
    app.handle_key(Key::Enter, &db);
    assert_eq!(app.current_screen, Screen::ViewTrades);
    assert_eq!(app.trades.len(), 3);
    app.handle_key(Key::Down, &db);
    app.handle_key(Key::Down, &db);
    assert_eq!(app.selected_trade_index, 2);
    app.handle_key(Key::Char('d'), &db);
    assert_eq!(app.trades.len(), 2);
    assert_eq!(app.selected_trade_index, 1);
    app.handle_key(Key::Char('d'), &db);
    assert_eq!(app.trades.len(), 1);
    assert_eq!(app.selected_trade_index, 0);
    app.handle_key(Key::Char('d'), &db);
    assert!(app.trades.is_empty());
    assert_eq!(app.selected_trade_index, 0);
    app.handle_key(Key::Char('d'), &db);
    assert!(app.trades.is_empty());
    assert_eq!(app.selected_trade_index, 0);
    assert_eq!(app.current_screen, Screen::ViewTrades);
}

#[test]
fn cursor_stays_on_a_row_through_deletes_from_the_top() {
    let db = memory_db();
    for d in ["2024-01-01", "2024-01-02", "2024-01-03", "2024-01-04"] {
        db.add_trade(&stored("X", d)).unwrap();
    }
    let mut app = App::new();
    app.handle_key(Key::Down, &db);
    app.handle_key(Key::Enter, &db);
    for _ in 0..5 {
        app.handle_key(Key::Char('d'), &db);
        assert!(app.selected_trade_index < app.trades.len() || app.trades.is_empty());
    }
    assert!(db.get_all_trades().unwrap().is_empty());
}

#[test]
fn focus_round_trip_matches_enter_commit() {
    let db = memory_db();
    let mut by_tab = add_screen(&db);
    focus(&mut by_tab, &db, InputField::Quantity);
    typed(&mut by_tab, &db, "12.5");
    by_tab.handle_key(Key::Tab, &db);
    by_tab.handle_key(Key::BackTab, &db);
    assert_eq!(by_tab.current_input_field, InputField::Quantity);

    let mut direct = add_screen(&db);
    focus(&mut direct, &db, InputField::Quantity);
    typed(&mut direct, &db, "12.5");
    update_current_field(&mut direct);

    assert_eq!(by_tab.current_trade.quantity, 12_500_000);
    assert_eq!(by_tab.current_trade.quantity, direct.current_trade.quantity);
    assert_eq!(by_tab.input_buffer, direct.input_buffer);
}

#[test]
fn symbol_is_uppercased_and_date_kept_verbatim() {
    let db = memory_db();
    let mut app = add_screen(&db);
    typed(&mut app, &db, "aapl");
    app.handle_key(Key::Tab, &db);
    assert_eq!(app.current_trade.symbol, "AAPL");
    focus(&mut app, &db, InputField::Date);
    typed(&mut app, &db, "not a date");
    app.handle_key(Key::Tab, &db);
    assert_eq!(app.current_trade.date, "not a date");
    assert_eq!(app.input_buffer, "");
}

#[test]
fn action_parse_is_case_insensitive_in_the_form() {
    let db = memory_db();
    let mut app = add_screen(&db);
    focus(&mut app, &db, InputField::Action);
    typed(&mut app, &db, "SELL");
    app.handle_key(Key::BackTab, &db);
    assert_eq!(app.current_trade.action, Action::Sell);
    assert_eq!(app.current_input_field, InputField::TradeType);
}

#[test]
fn complete_form_saves_and_returns_to_menu() {
    let db = memory_db();
    let mut app = add_screen(&db);
    for (field, text) in [
        (InputField::Symbol, "tsla"),
        (InputField::TradeType, "Option"),
        (InputField::Action, "buy"),
        (InputField::Price, "50"),
        (InputField::Quantity, "10"),
        (InputField::Date, "2024-03-01"),
        (InputField::Fees, "2.5"),
        (InputField::Comment, "Call"),
    ] {
        focus(&mut app, &db, field);
        typed(&mut app, &db, text);
    }
    app.handle_key(Key::Enter, &db);
    assert_eq!(app.current_screen, Screen::MainMenu);
    assert_eq!(app.message, None);
    let all = db.get_all_trades().unwrap();
    assert_eq!(all.len(), 1);
    assert_eq!(all[0].symbol, "TSLA");
    assert_eq!(all[0].trade_type, TradeType::Option);
    assert_eq!(all[0].price, 50_000_000);
    assert_eq!(all[0].fees, 2_500_000);
    assert_eq!(all[0].comment, "Call");
}

#[test]
fn edit_updates_the_row_in_place() {
    let db = memory_db();
    let id = db.add_trade(&stored("A", "2024-01-01")).unwrap();
    let mut app = App::new();
    app.handle_key(Key::Down, &db);
    app.handle_key(Key::Enter, &db);
    app.handle_key(Key::Char('e'), &db);
    assert_eq!(app.current_screen, Screen::EditTrade);
    assert_eq!(app.current_trade.id, Some(id));
    focus(&mut app, &db, InputField::Comment);
    typed(&mut app, &db, "edited");
    app.handle_key(Key::Enter, &db);
    assert_eq!(app.current_screen, Screen::MainMenu);
    let all = db.get_all_trades().unwrap();
    assert_eq!(all.len(), 1);
    assert_eq!(all[0].id, Some(id));
    assert_eq!(all[0].comment, "edited");
}

#[test]
fn menu_wraps_and_quits() {
    let db = memory_db();
    let mut app = App::new();
    assert!(app.handle_key(Key::Up, &db));
    assert_eq!(app.selected_menu_item, 3);
    assert!(app.handle_key(Key::Down, &db));
    assert_eq!(app.selected_menu_item, 0);
    assert!(app.handle_key(Key::Other, &db));
    assert!(!app.handle_key(Key::Char('q'), &db));
    app.handle_key(Key::Up, &db);
    assert!(!app.handle_key(Key::Enter, &db));
}

#[test]
fn reports_screen_and_escape() {
    let db = memory_db();
    db.add_trade(&stored("A", "2024-01-01")).unwrap();
    let mut app = App::new();
    app.handle_key(Key::Down, &db);
    app.handle_key(Key::Down, &db);
    app.handle_key(Key::Enter, &db);
    assert_eq!(app.current_screen, Screen::Reports);
    assert_eq!(app.reports.len(), 1);
    assert_eq!(app.reports[0].profit_loss, -1_000_000_000_000);
    app.handle_key(Key::Char('x'), &db);
    assert_eq!(app.current_screen, Screen::Reports);
    app.handle_key(Key::Esc, &db);
    assert_eq!(app.current_screen, Screen::MainMenu);
}

#[test]
fn escape_discards_the_form() {
    let db = memory_db();
    let mut app = add_screen(&db);
    typed(&mut app, &db, "abc");
    app.handle_key(Key::Esc, &db);
    assert_eq!(app.current_screen, Screen::MainMenu);
    assert_eq!(app.input_buffer, "");
    assert_eq!(app.message, None);
}

#[test]
fn trade_cursor_wraps_both_ways() {
    let db = memory_db();
    db.add_trade(&stored("A", "2024-01-01")).unwrap();
    db.add_trade(&stored("B", "2024-01-02")).unwrap();
    let mut app = App::new();
    app.handle_key(Key::Down, &db);
    app.handle_key(Key::Enter, &db);
    app.handle_key(Key::Up, &db);
    assert_eq!(app.selected_trade_index, 1);
    app.handle_key(Key::Down, &db);
    assert_eq!(app.selected_trade_index, 0);
}

#[test]
fn field_rotation_covers_all_eight() {
    let mut app = App::new();
    let mut seen = vec![app.current_input_field];
    for _ in 0..8 {
        app.next_field();
        seen.push(app.current_input_field);
    }
    assert_eq!(seen[8], InputField::Symbol);
    assert_eq!(seen[7], InputField::Comment);
    app.previous_field();
    assert_eq!(app.current_input_field, InputField::Comment);
}

#[test]
fn backspace_and_typing_edit_the_buffer() {
    let mut app = App::new();
    app.append_char('a');
    app.append_char('b');
    app.backspace();
    assert_eq!(app.input_buffer, "a");
    app.backspace();
    app.backspace();
    assert_eq!(app.input_buffer, "");
}

#[test]
fn store_failures_become_messages() {
    let mut app = App::new();
    app.show_trades(Err(StoreError::StorageRead("no table".to_string())));
    assert_eq!(app.current_screen, Screen::MainMenu);
    assert_eq!(app.message.as_deref(), Some("Error loading trades: no table"));

    let mut app = App::new();
    app.show_reports(Err(StoreError::StorageRead("bad row".to_string())));
    assert_eq!(app.current_screen, Screen::Reports);
    assert!(app.reports.is_empty());
    assert_eq!(app.message.as_deref(), Some("Error loading reports: bad row"));

    let mut app = App::new();
    app.begin_new();
    app.append_char('x');
    app.finish_save(Err(StoreError::StorageWrite("locked".to_string())));
    assert_eq!(app.current_screen, Screen::AddTrade);
    assert_eq!(app.input_buffer, "x");
    assert_eq!(app.message.as_deref(), Some("Error saving trade: locked"));
    app.finish_save(Ok(()));
    assert_eq!(app.current_screen, Screen::MainMenu);
    assert_eq!(app.input_buffer, "");
    assert_eq!(app.message, None);
}

#[test]
fn failed_reload_after_delete_empties_the_list() {
    let db = memory_db();
    db.add_trade(&stored("A", "2024-01-01")).unwrap();
    let mut app = App::new();
    app.show_trades(db.get_all_trades());
    assert_eq!(app.trades.len(), 1);
    app.reload_after_delete(Err(StoreError::StorageRead("gone".to_string())));
    assert!(app.trades.is_empty());
    assert_eq!(app.selected_trade_index, 0);
    assert_eq!(app.message.as_deref(), Some("Error loading trades: gone"));
}
