//! The trade store: one SQLite table of trades.
//!
//! Amounts travel to and from SQLite as integers in millionths; the `REAL`
//! columns hold them in whole units, converted by the SQL text itself.

use vstd::prelude::*;
use crate::model::{action_of, trade_type_of, Action, Trade, TradeType};
use crate::report::{is_report_of, summarize, SymbolReport};
use crate::text::{lower_of, text_lt};

verus! {

#[verifier::external_type_specification]
#[verifier::external_body]
pub struct ExConnection(rusqlite::Connection);

#[verifier::external_type_specification]
#[verifier::external_body]
pub struct ExSqlError(rusqlite::Error);

/// One result row as the store reads it: its text columns, then its integer
/// columns.
#[derive(Debug, Clone)]
pub struct SqlRow {
    pub texts: Vec<String>,
    pub ints: Vec<i64>,
}

/// Why a store operation failed, with SQLite's description.
#[derive(Debug, Clone)]
pub enum StoreError {
    /// The database file could not be opened or its schema created.
    StorageUnavailable(String),
    /// An insert, update or delete failed.
    StorageWrite(String),
    /// A query failed, or a stored row does not decode.
    StorageRead(String),
}

/// The description that an error carries.
pub open spec fn error_text(e: StoreError) -> Seq<char> {
    match e {
        StoreError::StorageUnavailable(m) => m@,
        StoreError::StorageWrite(m) => m@,
        StoreError::StorageRead(m) => m@,
    }
}

impl StoreError {
    /// The description carried by the error.
    pub fn message(&self) -> (r: String)
        ensures
            r@ == error_text(*self),
    {
        match self {
            StoreError::StorageUnavailable(m) => m.clone(),
            StoreError::StorageWrite(m) => m.clone(),
            StoreError::StorageRead(m) => m.clone(),
        }
    }
}

/// Relies on `rusqlite::Connection::open`: opens or creates the file.
#[verifier::external_body]
fn open_connection(path: &str) -> (r: Result<rusqlite::Connection, rusqlite::Error>) {
    rusqlite::Connection::open(path)
}

/// Relies on `rusqlite::Connection::execute`, binding `texts` to the first
/// placeholders and `ints` to the ones after them.
#[verifier::external_body]
fn execute_sql(conn: &rusqlite::Connection, sql: &str, texts: &Vec<String>, ints: &Vec<i64>) -> (r:
    Result<usize, rusqlite::Error>) {
    let values = texts.iter().map(|t| rusqlite::types::Value::Text(t.clone())).chain(
        ints.iter().map(|i| rusqlite::types::Value::Integer(*i)),
    );
    conn.execute(sql, rusqlite::params_from_iter(values))
}

/// Relies on `rusqlite::Connection::last_insert_rowid`.
#[verifier::external_body]
fn last_insert_id(conn: &rusqlite::Connection) -> (r: i64) {
    conn.last_insert_rowid()
}

/// Relies on `rusqlite::Connection::prepare`, `Statement::query_map` and
/// `Row::get`: each row read gives `text_columns` texts from its first
/// columns and `int_columns` integers from the columns after them.
#[verifier::external_body]
fn query_rows(conn: &rusqlite::Connection, sql: &str, text_columns: usize, int_columns: usize) -> (r:
    Result<Vec<SqlRow>, rusqlite::Error>)
    requires
        text_columns + int_columns <= usize::MAX,
    ensures
        r matches Ok(rows) ==> forall|i: int|
            0 <= i < rows@.len() ==> (#[trigger] rows@[i]).texts@.len() == text_columns
                && rows@[i].ints@.len() == int_columns,
{
    let mut stmt = conn.prepare(sql)?;
    let rows = stmt.query_map([], |row| {
        let texts = (0..text_columns).map(|i| row.get(i)).collect::<rusqlite::Result<Vec<String>>>()?;
        let ints = (text_columns..text_columns + int_columns).map(|i| row.get(i)).collect::<
            rusqlite::Result<Vec<i64>>,
        >()?;
        Ok(SqlRow { texts, ints })
    })?;
    rows.collect()
}

/// Relies on `rusqlite::Error`'s `Display` for a readable description.
#[verifier::external_body]
fn describe(e: &rusqlite::Error) -> (r: String) {
    e.to_string()
}

/// `a` is listed before `b`: a later date, or the same date and a larger id.
pub open spec fn listed_before(a: Trade, b: Trade) -> bool {
    ||| text_lt(b.date@, a.date@)
    ||| (a.date@ == b.date@ && a.id.is_some() && b.id.is_some() && a.id.unwrap() > b.id.unwrap())
}

/// Newest first: by date descending, then by id descending.
pub open spec fn newest_first(ts: Seq<Trade>) -> bool {
    forall|i: int| 0 <= i < ts.len() - 1 ==> listed_before(#[trigger] ts[i], ts[i + 1])
}

/// The trade that a stored row holds, when its tokens are known.
pub open spec fn row_trade(row: SqlRow) -> Option<Trade> {
    match (trade_type_of(lower_of(row.texts@[1]@)), action_of(lower_of(row.texts@[2]@))) {
        (Some(trade_type), Some(action)) => Some(
            Trade {
                id: Some(row.ints@[0]),
                symbol: row.texts@[0],
                trade_type,
                action,
                price: row.ints@[1],
                quantity: row.ints@[2],
                date: row.texts@[3],
                fees: row.ints@[3],
                comment: row.texts@[4],
            },
        ),
        _ => None,
    }
}

pub open spec fn is_trade_row(row: SqlRow) -> bool {
    row.texts@.len() == 5 && row.ints@.len() == 4
}

/// The values bound for a trade's columns: symbol, type, action, date and
/// comment as texts; price, quantity and fees as millionths.
pub open spec fn params_of(trade: Trade, texts: Seq<String>, ints: Seq<i64>) -> bool {
    &&& texts.len() == 5
    &&& texts[0]@ == trade.symbol@
    &&& texts[1]@ == crate::model::trade_type_token(trade.trade_type)
    &&& texts[2]@ == crate::model::action_token(trade.action)
    &&& texts[3]@ == trade.date@
    &&& texts[4]@ == trade.comment@
    &&& ints == seq![trade.price, trade.quantity, trade.fees]
}

/// The parameters that `add_trade` and `update_trade` bind for `trade`.
pub fn trade_params(trade: &Trade) -> (r: (Vec<String>, Vec<i64>))
    ensures
        params_of(*trade, r.0@, r.1@),
{
    let mut texts: Vec<String> = Vec::new();
    texts.push(trade.symbol.clone());
    texts.push(String::from_str(trade.trade_type.as_str()));
    texts.push(String::from_str(trade.action.as_str()));
    texts.push(trade.date.clone());
    texts.push(trade.comment.clone());
    let mut ints: Vec<i64> = Vec::new();
    ints.push(trade.price);
    ints.push(trade.quantity);
    ints.push(trade.fees);
    assert(ints@ == seq![trade.price, trade.quantity, trade.fees]);
    (texts, ints)
}

/// Decodes one stored row; the type and action tokens are read in any
/// letter case, and an unknown one is a read error.
pub fn decode_row(row: &SqlRow) -> (r: Result<Trade, StoreError>)
    requires
        is_trade_row(*row),
    ensures
        r matches Ok(t) ==> row_trade(*row) == Some(t),
        r matches Err(e) ==> row_trade(*row).is_none() && e is StorageRead,
{
    let trade_type = match TradeType::from_str(row.texts[1].as_str()) {
        Some(t) => t,
        None => {
            return Err(StoreError::StorageRead(String::from_str("invalid trade_type")));
        },
    };
    let action = match Action::from_str(row.texts[2].as_str()) {
        Some(a) => a,
        None => {
            return Err(StoreError::StorageRead(String::from_str("invalid action")));
        },
    };
    Ok(
        Trade {
            id: Some(row.ints[0]),
            symbol: row.texts[0].clone(),
            trade_type,
            action,
            price: row.ints[1],
            quantity: row.ints[2],
            date: row.texts[3].clone(),
            fees: row.ints[3],
            comment: row.texts[4].clone(),
        },
    )
}

/// Whether `trades` is listed newest first.
pub fn is_newest_first(trades: &Vec<Trade>) -> (r: bool)
    ensures
        r == newest_first(trades@),
{
    let n = trades.len();
    if n < 2 {
        return true;
    }
    let mut i: usize = 0;
    while i + 1 < n
        invariant
            n == trades@.len(),
            n >= 2,
            i + 1 <= n,
            forall|k: int| 0 <= k < i ==> listed_before(#[trigger] trades@[k], trades@[k + 1]),
        decreases n - i,
    {
        let a = &trades[i];
        let b = &trades[i + 1];
        let ok = crate::text::text_less(b.date.as_str(), a.date.as_str()) || (
        crate::text::text_eq(a.date.as_str(), b.date.as_str()) && match (a.id, b.id) {
            (Some(x), Some(y)) => x > y,
            _ => false,
        });
        if !ok {
            return false;
        }
        i = i + 1;
    }
    true
}

/// Decodes the rows of a listing, which must come newest first; a row that
/// does not decode, or rows out of order, are a read error.
pub fn decode_rows(rows: &Vec<SqlRow>) -> (r: Result<Vec<Trade>, StoreError>)
    requires
        forall|i: int| 0 <= i < rows@.len() ==> is_trade_row(#[trigger] rows@[i]),
    ensures
        r matches Ok(v) ==> {
            &&& v@.len() == rows@.len()
            &&& forall|i: int| 0 <= i < rows@.len() ==> row_trade(#[trigger] rows@[i]) == Some(v@[i])
            &&& newest_first(v@)
        },
        r matches Err(e) ==> e is StorageRead && ((exists|i: int|
            0 <= i < rows@.len() && (#[trigger] row_trade(rows@[i])).is_none()) || !newest_first(
            rows@.map_values(|row: SqlRow| row_trade(row).unwrap()),
        )),
{
    let mut out: Vec<Trade> = Vec::new();
    let mut i: usize = 0;
    while i < rows.len()
        invariant
            i <= rows@.len(),
            forall|j: int| 0 <= j < rows@.len() ==> is_trade_row(#[trigger] rows@[j]),
            out@.len() == i,
            forall|j: int| 0 <= j < i ==> row_trade(#[trigger] rows@[j]) == Some(out@[j]),
        decreases rows@.len() - i,
    {
        match decode_row(&rows[i]) {
            Ok(t) => out.push(t),
            Err(e) => {
                return Err(e);
            },
        }
        i = i + 1;
    }
    if !is_newest_first(&out) {
        assert(rows@.map_values(|row: SqlRow| row_trade(row).unwrap()) == out@);
        return Err(StoreError::StorageRead(String::from_str("rows out of order")));
    }
    Ok(out)
}

/// The store: the connection to one SQLite file.
pub struct Database {
    conn: rusqlite::Connection,
}

impl Database {
    /// Opens or creates the database file and makes sure the table exists.
    pub fn new(db_path: &str) -> (r: Result<Database, StoreError>)
        ensures
            r matches Err(e) ==> e is StorageUnavailable,
    {
        let conn = match open_connection(db_path) {
            Ok(c) => c,
            Err(e) => {
                return Err(StoreError::StorageUnavailable(describe(&e)));
            },
        };
        let db = Database { conn };
        match db.init_schema() {
            Ok(()) => Ok(db),
            Err(e) => Err(e),
        }
    }

    fn init_schema(&self) -> (r: Result<(), StoreError>)
        ensures
            r matches Err(e) ==> e is StorageUnavailable,
    {
        let none_t: Vec<String> = Vec::new();
        let none_i: Vec<i64> = Vec::new();
        match execute_sql(
            &self.conn,
            "CREATE TABLE IF NOT EXISTS trades (
                id INTEGER PRIMARY KEY AUTOINCREMENT,
                symbol TEXT NOT NULL,
                trade_type TEXT NOT NULL,
                action TEXT NOT NULL,
                price REAL NOT NULL,
                quantity REAL NOT NULL,
                date TEXT NOT NULL,
                fees REAL NOT NULL,
                comment TEXT
            )",
            &none_t,
            &none_i,
        ) {
            Ok(_) => Ok(()),
            Err(e) => Err(StoreError::StorageUnavailable(describe(&e))),
        }
    }

    /// Writes the trade as a new row (its id, if any, is not used) and
    /// returns the id assigned to it.
    pub fn add_trade(&self, trade: &Trade) -> (r: Result<i64, StoreError>)
        ensures
            r matches Err(e) ==> e is StorageWrite,
    {
        let (texts, ints) = trade_params(trade);
        match execute_sql(
            &self.conn,
            "INSERT INTO trades (symbol, trade_type, action, date, comment, price, quantity, fees)
             VALUES (?1, ?2, ?3, ?4, ?5, ?6 / 1000000.0, ?7 / 1000000.0, ?8 / 1000000.0)",
            &texts,
            &ints,
        ) {
            Ok(_) => Ok(last_insert_id(&self.conn)),
            Err(e) => Err(StoreError::StorageWrite(describe(&e))),
        }
    }

    /// All trades, newest first (date descending, then id descending).
    pub fn get_all_trades(&self) -> (r: Result<Vec<Trade>, StoreError>)
        ensures
            r matches Ok(v) ==> newest_first(v@) && forall|i: int|
                0 <= i < v@.len() ==> (#[trigger] v@[i]).id.is_some(),
            r matches Err(e) ==> e is StorageRead,
    {
        let rows = match query_rows(
            &self.conn,
            "SELECT symbol, trade_type, action, date, COALESCE(comment, ''), id,
                    CAST(ROUND(price * 1000000.0) AS INTEGER),
                    CAST(ROUND(quantity * 1000000.0) AS INTEGER),
                    CAST(ROUND(fees * 1000000.0) AS INTEGER)
             FROM trades ORDER BY date DESC, id DESC",
            5,
            4,
        ) {
            Ok(rows) => rows,
            Err(e) => {
                return Err(StoreError::StorageRead(describe(&e)));
            },
        };
        let r = decode_rows(&rows);
        if let Ok(v) = &r {
            assert forall|i: int| 0 <= i < v@.len() implies (#[trigger] v@[i]).id.is_some() by {
                assert(row_trade(rows@[i]) == Some(v@[i]));
            }
        }
        r
    }

    /// Rewrites every column of the row with the trade's id; a trade without
    /// an id is left alone, and an id that matches no row is no error.
    pub fn update_trade(&self, trade: &Trade) -> (r: Result<(), StoreError>)
        ensures
            trade.id.is_none() ==> r is Ok,
            r matches Err(e) ==> e is StorageWrite,
    {
        if let Some(id) = trade.id {
            let (texts, mut ints) = trade_params(trade);
            ints.push(id);
            match execute_sql(
                &self.conn,
                "UPDATE trades
                 SET symbol = ?1, trade_type = ?2, action = ?3, date = ?4, comment = ?5,
                     price = ?6 / 1000000.0, quantity = ?7 / 1000000.0, fees = ?8 / 1000000.0
                 WHERE id = ?9",
                &texts,
                &ints,
            ) {
                Ok(_) => {},
                Err(e) => {
                    return Err(StoreError::StorageWrite(describe(&e)));
                },
            }
        }
        Ok(())
    }

    /// Removes the row with this id, if there is one.
    pub fn delete_trade(&self, id: i64) -> (r: Result<(), StoreError>)
        ensures
            r matches Err(e) ==> e is StorageWrite,
    {
        let none_t: Vec<String> = Vec::new();
        let mut ints: Vec<i64> = Vec::new();
        ints.push(id);
        match execute_sql(&self.conn, "DELETE FROM trades WHERE id = ?1", &none_t, &ints) {
            Ok(_) => Ok(()),
            Err(e) => Err(StoreError::StorageWrite(describe(&e))),
        }
    }

    /// The profit/loss summary of all stored trades, by symbol ascending.
    pub fn get_report_by_symbol(&self) -> (r: Result<Vec<SymbolReport>, StoreError>)
        ensures
            r matches Ok(v) ==> exists|ts: Seq<Trade>| newest_first(ts) && is_report_of(v@, ts),
            r matches Err(e) ==> e is StorageRead,
    {
        let trades = match self.get_all_trades() {
            Ok(t) => t,
            Err(e) => {
                return Err(e);
            },
        };
        match summarize(&trades) {
            Some(v) => Ok(v),
            None => Err(StoreError::StorageRead(String::from_str("profit/loss out of range"))),
        }
    }
}

} // verus!
