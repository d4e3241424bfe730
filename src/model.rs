//! The trade record and its two closed variants.

use vstd::prelude::*;
use crate::amount::{all_digits, digits_value, digits_only, digits_number};
use crate::text::{lower_of, lowercase, text_eq};

verus! {

/// What was traded.
#[derive(Debug, Clone, Copy, PartialEq, Eq, Structural)]
pub enum TradeType {
    Stock,
    Option,
}

/// The direction of a trade.
#[derive(Debug, Clone, Copy, PartialEq, Eq, Structural)]
pub enum Action {
    Buy,
    Sell,
}

/// The canonical lowercase token of a trade type.
pub open spec fn trade_type_token(t: TradeType) -> Seq<char> {
    match t {
        TradeType::Stock => "stock"@,
        TradeType::Option => "option"@,
    }
}

/// The trade type whose canonical token is exactly `s`.
pub open spec fn trade_type_of(s: Seq<char>) -> Option<TradeType> {
    if s == "stock"@ {
        Some(TradeType::Stock)
    } else if s == "option"@ {
        Some(TradeType::Option)
    } else {
        None
    }
}

/// The canonical lowercase token of an action.
pub open spec fn action_token(a: Action) -> Seq<char> {
    match a {
        Action::Buy => "buy"@,
        Action::Sell => "sell"@,
    }
}

/// The action whose canonical token is exactly `s`.
pub open spec fn action_of(s: Seq<char>) -> Option<Action> {
    if s == "buy"@ {
        Some(Action::Buy)
    } else if s == "sell"@ {
        Some(Action::Sell)
    } else {
        None
    }
}

impl TradeType {
    /// The canonical lowercase token, as stored.
    pub fn as_str(&self) -> (r: &'static str)
        ensures
            r@ == trade_type_token(*self),
    {
        match self {
            TradeType::Stock => "stock",
            TradeType::Option => "option",
        }
    }

    /// Reads a token in any letter case; unknown tokens are refused.
    pub fn from_str(value: &str) -> (r: Option<TradeType>)
        ensures
            r == trade_type_of(lower_of(value@)),
    {
        let lower = lowercase(value);
        if text_eq(lower.as_str(), "stock") {
            Some(TradeType::Stock)
        } else if text_eq(lower.as_str(), "option") {
            Some(TradeType::Option)
        } else {
            None
        }
    }
}

impl Action {
    /// The canonical lowercase token, as stored.
    pub fn as_str(&self) -> (r: &'static str)
        ensures
            r@ == action_token(*self),
    {
        match self {
            Action::Buy => "buy",
            Action::Sell => "sell",
        }
    }

    /// Reads a token in any letter case; unknown tokens are refused.
    pub fn from_str(value: &str) -> (r: Option<Action>)
        ensures
            r == action_of(lower_of(value@)),
    {
        let lower = lowercase(value);
        if text_eq(lower.as_str(), "buy") {
            Some(Action::Buy)
        } else if text_eq(lower.as_str(), "sell") {
            Some(Action::Sell)
        } else {
            None
        }
    }
}

/// Lenient reading: `option` in any letter case, and anything else a stock.
impl From<String> for TradeType {
    fn from(s: String) -> (r: TradeType) {
        let lower = lowercase(s.as_str());
        if text_eq(lower.as_str(), "option") {
            TradeType::Option
        } else {
            TradeType::Stock
        }
    }
}

impl vstd::std_specs::convert::FromSpecImpl<String> for TradeType {
    open spec fn obeys_from_spec() -> bool {
        true
    }

    open spec fn from_spec(s: String) -> TradeType {
        if lower_of(s@) == "option"@ {
            TradeType::Option
        } else {
            TradeType::Stock
        }
    }
}

/// Lenient reading: `sell` in any letter case, and anything else a buy.
impl From<String> for Action {
    fn from(s: String) -> (r: Action) {
        let lower = lowercase(s.as_str());
        if text_eq(lower.as_str(), "sell") {
            Action::Sell
        } else {
            Action::Buy
        }
    }
}

impl vstd::std_specs::convert::FromSpecImpl<String> for Action {
    open spec fn obeys_from_spec() -> bool {
        true
    }

    open spec fn from_spec(s: String) -> Action {
        if lower_of(s@) == "sell"@ {
            Action::Sell
        } else {
            Action::Buy
        }
    }
}

/// The canonical token, as an owned text.
impl From<TradeType> for String {
    fn from(t: TradeType) -> (r: String)
        ensures
            r@ == trade_type_token(t),
    {
        String::from_str(t.as_str())
    }
}

impl vstd::std_specs::convert::FromSpecImpl<TradeType> for String {
    open spec fn obeys_from_spec() -> bool {
        false
    }

    open spec fn from_spec(t: TradeType) -> String {
        arbitrary()
    }
}

/// The canonical token, as an owned text.
impl From<Action> for String {
    fn from(a: Action) -> (r: String)
        ensures
            r@ == action_token(a),
    {
        String::from_str(a.as_str())
    }
}

impl vstd::std_specs::convert::FromSpecImpl<Action> for String {
    open spec fn obeys_from_spec() -> bool {
        false
    }

    open spec fn from_spec(a: Action) -> String {
        arbitrary()
    }
}

/// One recorded buy or sell. Price, quantity and fees are fixed-point
/// numbers in millionths (see `amount`).
#[derive(Debug, Clone)]
pub struct Trade {
    /// Assigned by the store; absent on a draft.
    pub id: Option<i64>,
    pub symbol: String,
    pub trade_type: TradeType,
    pub action: Action,
    pub price: i64,
    pub quantity: i64,
    pub date: String,
    pub fees: i64,
    pub comment: String,
}

/// A trade as values: its texts as character sequences.
pub ghost struct TradeView {
    pub id: Option<i64>,
    pub symbol: Seq<char>,
    pub trade_type: TradeType,
    pub action: Action,
    pub price: i64,
    pub quantity: i64,
    pub date: Seq<char>,
    pub fees: i64,
    pub comment: Seq<char>,
}

impl View for Trade {
    type V = TradeView;

    open spec fn view(&self) -> TradeView {
        TradeView {
            id: self.id,
            symbol: self.symbol@,
            trade_type: self.trade_type,
            action: self.action,
            price: self.price,
            quantity: self.quantity,
            date: self.date@,
            fees: self.fees,
            comment: self.comment@,
        }
    }
}

impl Trade {
    /// A copy of the trade.
    pub fn copy(&self) -> (r: Trade)
        ensures
            r@ == self@,
    {
        Trade {
            id: self.id,
            symbol: self.symbol.clone(),
            trade_type: self.trade_type,
            action: self.action,
            price: self.price,
            quantity: self.quantity,
            date: self.date.clone(),
            fees: self.fees,
            comment: self.comment.clone(),
        }
    }
}

/// The empty draft: no id, empty texts, a stock buy, all numbers zero.
pub open spec fn is_blank_trade(t: Trade) -> bool {
    &&& t.id.is_none()
    &&& t.symbol@.len() == 0
    &&& t.trade_type == TradeType::Stock
    &&& t.action == Action::Buy
    &&& t.price == 0
    &&& t.quantity == 0
    &&& t.date@.len() == 0
    &&& t.fees == 0
    &&& t.comment@.len() == 0
}

impl Default for Trade {
    fn default() -> (r: Trade)
        ensures
            is_blank_trade(r),
    {
        Trade {
            id: None,
            symbol: String::new(),
            trade_type: TradeType::Stock,
            action: Action::Buy,
            price: 0,
            quantity: 0,
            date: String::new(),
            fees: 0,
            comment: String::new(),
        }
    }
}

/// `YYYY-MM-DD` with year in [1900, 2100], month in [1, 12] and day in
/// [1, 31]; no calendar check beyond these ranges.
pub open spec fn date_is_valid(d: Seq<char>) -> bool {
    &&& d.len() == 10
    &&& d[4] == '-'
    &&& d[7] == '-'
    &&& all_digits(d.subrange(0, 4))
    &&& all_digits(d.subrange(5, 7))
    &&& all_digits(d.subrange(8, 10))
    &&& 1900 <= digits_value(d.subrange(0, 4)) <= 2100
    &&& 1 <= digits_value(d.subrange(5, 7)) <= 12
    &&& 1 <= digits_value(d.subrange(8, 10)) <= 31
}

/// Whether the digits of `s` in `[lo, hi)` denote a number in `[min, max]`.
fn number_in(s: &str, lo: usize, hi: usize, min: u64, max: u64) -> (r: bool)
    requires
        lo <= hi <= s@.len(),
        max <= 10_000,
    ensures
        r == (all_digits(s@.subrange(lo as int, hi as int)) && min <= digits_value(
            s@.subrange(lo as int, hi as int),
        ) <= max),
{
    if !digits_only(s, lo, hi) {
        return false;
    }
    match digits_number(s, lo, hi, max) {
        Some(v) => min <= v,
        None => false,
    }
}

/// Whether `date` is a `YYYY-MM-DD` date within the accepted ranges.
pub fn date_valid(date: &str) -> (r: bool)
    ensures
        r == date_is_valid(date@),
{
    if date.unicode_len() != 10 {
        return false;
    }
    if date.get_char(4) != '-' || date.get_char(7) != '-' {
        return false;
    }
    number_in(date, 0, 4, 1900, 2100) && number_in(date, 5, 7, 1, 12) && number_in(
        date,
        8,
        10,
        1,
        31,
    )
}

/// What a trade must satisfy to be saved.
pub open spec fn trade_is_valid(t: Trade) -> bool {
    &&& t.symbol@.len() > 0
    &&& t.price >= 0
    &&& t.quantity > 0
    &&& date_is_valid(t.date@)
    &&& t.fees >= 0
}

/// Whether the trade may be saved: a symbol, a non-negative price and fees,
/// a positive quantity and a valid date.
pub fn validate_trade(trade: &Trade) -> (r: bool)
    ensures
        r == trade_is_valid(*trade),
{
    trade.symbol.unicode_len() > 0 && trade.price >= 0 && trade.quantity > 0 && trade.fees >= 0
        && date_valid(trade.date.as_str())
}

} // verus!
