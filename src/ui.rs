//! The screen controller: which screen is shown, the draft being edited,
//! and what each key does to them and to the store.

use vstd::prelude::*;
use crate::amount::{amount_of_text, parse_amount};
use crate::model::{
    action_of, is_blank_trade, trade_is_valid, trade_type_of, validate_trade, Action, Trade,
    TradeType, TradeView,
};
use crate::report::{is_report_of, SymbolReport};
use crate::store::{error_text, newest_first, Database, StoreError};
use crate::text::{lower_of, upper_of, uppercase};

verus! {

#[derive(Debug, Clone, Copy, PartialEq, Eq, Structural)]
pub enum Screen {
    MainMenu,
    AddTrade,
    ViewTrades,
    EditTrade,
    Reports,
}

/// The draft field that typed characters go to.
#[derive(Debug, Clone, Copy, PartialEq, Eq, Structural)]
pub enum InputField {
    Symbol,
    TradeType,
    Action,
    Price,
    Quantity,
    Date,
    Fees,
    Comment,
}

/// A key press, as far as the controller tells keys apart.
#[derive(Debug, Clone, Copy, PartialEq, Eq, Structural)]
pub enum Key {
    Char(char),
    Enter,
    Esc,
    Tab,
    BackTab,
    Backspace,
    Up,
    Down,
    Other,
}

/// The number of entries of the main menu: add, view, reports, quit.
pub const MENU_ITEMS: usize = 4;

pub open spec fn field_after(f: InputField) -> InputField {
    match f {
        InputField::Symbol => InputField::TradeType,
        InputField::TradeType => InputField::Action,
        InputField::Action => InputField::Price,
        InputField::Price => InputField::Quantity,
        InputField::Quantity => InputField::Date,
        InputField::Date => InputField::Fees,
        InputField::Fees => InputField::Comment,
        InputField::Comment => InputField::Symbol,
    }
}

pub open spec fn field_before(f: InputField) -> InputField {
    match f {
        InputField::Symbol => InputField::Comment,
        InputField::TradeType => InputField::Symbol,
        InputField::Action => InputField::TradeType,
        InputField::Price => InputField::Action,
        InputField::Quantity => InputField::Price,
        InputField::Date => InputField::Quantity,
        InputField::Fees => InputField::Date,
        InputField::Comment => InputField::Fees,
    }
}

/// The draft and buffer after the buffer is committed to field `f`: the
/// symbol is upper-cased, date and comment are taken as typed, and the
/// other fields take the buffer only when it reads as a value of theirs;
/// otherwise draft and buffer stay as they were.
pub open spec fn commit_spec(t: TradeView, f: InputField, buf: Seq<char>) -> (TradeView, Seq<char>) {
    match f {
        InputField::Symbol => (TradeView { symbol: upper_of(buf), ..t }, Seq::empty()),
        InputField::TradeType => match trade_type_of(lower_of(buf)) {
            Some(x) => (TradeView { trade_type: x, ..t }, Seq::empty()),
            None => (t, buf),
        },
        InputField::Action => match action_of(lower_of(buf)) {
            Some(x) => (TradeView { action: x, ..t }, Seq::empty()),
            None => (t, buf),
        },
        InputField::Price => match amount_of_text(buf) {
            Some(v) => (TradeView { price: v as i64, ..t }, Seq::empty()),
            None => (t, buf),
        },
        InputField::Quantity => match amount_of_text(buf) {
            Some(v) => (TradeView { quantity: v as i64, ..t }, Seq::empty()),
            None => (t, buf),
        },
        InputField::Date => (TradeView { date: buf, ..t }, Seq::empty()),
        InputField::Fees => match amount_of_text(buf) {
            Some(v) => (TradeView { fees: v as i64, ..t }, Seq::empty()),
            None => (t, buf),
        },
        InputField::Comment => (TradeView { comment: buf, ..t }, Seq::empty()),
    }
}

/// Commits a non-empty buffer; an empty one leaves the draft alone.
pub open spec fn commit_if_typed(t: TradeView, f: InputField, buf: Seq<char>) -> (
    TradeView,
    Seq<char>,
) {
    if buf.len() > 0 {
        commit_spec(t, f, buf)
    } else {
        (t, buf)
    }
}

/// Whether the buffer reads as a value of field `f`, which then takes it.
pub open spec fn commit_takes(f: InputField, buf: Seq<char>) -> bool {
    match f {
        InputField::TradeType => trade_type_of(lower_of(buf)).is_some(),
        InputField::Action => action_of(lower_of(buf)).is_some(),
        InputField::Price | InputField::Quantity | InputField::Fees => amount_of_text(
            buf,
        ).is_some(),
        _ => true,
    }
}

/// An unparseable buffer leaves both the draft and the buffer as they were,
/// for every field that parses what is typed.
pub proof fn lemma_rejected_commit_keeps_draft(t: TradeView, f: InputField, buf: Seq<char>)
    requires
        !commit_takes(f, buf),
    ensures
        commit_spec(t, f, buf) == (t, buf),
{
}

/// Moving focus forward and then back, with a typed buffer, leaves the
/// draft as committing the buffer in place would, and focus where it was;
/// unless the buffer is refused where it was typed and taken by the next
/// field.
pub proof fn lemma_focus_round_trip(t: TradeView, f: InputField, buf: Seq<char>)
    requires
        buf.len() > 0,
        commit_takes(f, buf) || !commit_takes(field_after(f), buf),
    ensures
        ({
            let (t1, b1) = commit_if_typed(t, f, buf);
            let (t2, b2) = commit_if_typed(t1, field_after(f), b1);
            &&& field_before(field_after(f)) == f
            &&& t2 == commit_spec(t, f, buf).0
            &&& b2 == commit_spec(t, f, buf).1
        }),
{
}

/// Where the cursor of a list of `n` rows goes when it was at `i`.
pub open spec fn clamp_cursor(i: usize, n: nat) -> usize {
    if i < n {
        i
    } else if n == 0 {
        0
    } else {
        (n - 1) as usize
    }
}

/// The whole state of the controller.
pub struct App {
    pub current_screen: Screen,
    pub selected_menu_item: usize,
    pub selected_trade_index: usize,
    pub trades: Vec<Trade>,
    pub current_trade: Trade,
    pub current_input_field: InputField,
    pub input_buffer: String,
    pub message: Option<String>,
    pub reports: Vec<SymbolReport>,
}

/// `m` holds `prefix` followed by the error's description.
pub open spec fn message_is(m: Option<String>, prefix: Seq<char>, e: StoreError) -> bool {
    m matches Some(s) && s@ == prefix + error_text(e)
}

/// The text of `s` as an owned `String`.
fn owned(s: &str) -> (r: String)
    ensures
        r@ == s@,
{
    String::from_str(s)
}

fn error_message(prefix: &str, e: &StoreError) -> (r: String)
    ensures
        r@ == prefix@ + error_text(*e),
{
    owned(prefix).concat(e.message().as_str())
}

/// Commits the typed buffer into the focused field of the draft.
pub fn update_current_field(app: &mut App)
    ensures
        (final(app).current_trade@, final(app).input_buffer@) == commit_spec(
            old(app).current_trade@,
            old(app).current_input_field,
            old(app).input_buffer@,
        ),
        final(app).current_screen == old(app).current_screen,
        final(app).selected_menu_item == old(app).selected_menu_item,
        final(app).selected_trade_index == old(app).selected_trade_index,
        final(app).trades == old(app).trades,
        final(app).current_input_field == old(app).current_input_field,
        final(app).message == old(app).message,
        final(app).reports == old(app).reports,
{
    match app.current_input_field {
        InputField::Symbol => {
            app.current_trade.symbol = uppercase(app.input_buffer.as_str());
            app.input_buffer = String::new();
        },
        InputField::TradeType => {
            if let Some(t) = TradeType::from_str(app.input_buffer.as_str()) {
                app.current_trade.trade_type = t;
                app.input_buffer = String::new();
            }
        },
        InputField::Action => {
            if let Some(a) = Action::from_str(app.input_buffer.as_str()) {
                app.current_trade.action = a;
                app.input_buffer = String::new();
            }
        },
        InputField::Price => {
            if let Some(v) = parse_amount(app.input_buffer.as_str()) {
                app.current_trade.price = v;
                app.input_buffer = String::new();
            }
        },
        InputField::Quantity => {
            if let Some(v) = parse_amount(app.input_buffer.as_str()) {
                app.current_trade.quantity = v;
                app.input_buffer = String::new();
            }
        },
        InputField::Date => {
            app.current_trade.date = app.input_buffer.clone();
            app.input_buffer = String::new();
        },
        InputField::Fees => {
            if let Some(v) = parse_amount(app.input_buffer.as_str()) {
                app.current_trade.fees = v;
                app.input_buffer = String::new();
            }
        },
        InputField::Comment => {
            app.current_trade.comment = app.input_buffer.clone();
            app.input_buffer = String::new();
        },
    }
}

/// Whether saving a draft inserts a new row or updates an existing one.
#[derive(Debug, Clone, Copy, PartialEq, Eq, Structural)]
pub enum SaveKind {
    Insert,
    Update,
}

/// The edit screen updates; the add screen inserts.
pub open spec fn save_kind_of(screen: Screen) -> SaveKind {
    if screen == Screen::EditTrade {
        SaveKind::Update
    } else {
        SaveKind::Insert
    }
}

/// The id of the row under the trade cursor, when there is a row.
pub open spec fn row_id(a: App) -> Option<i64> {
    if a.trades@.len() > 0 {
        a.trades@[a.selected_trade_index as int].id
    } else {
        None
    }
}

/// The trade cursor after one step up, wrapping to the bottom.
pub open spec fn cursor_up(a: App) -> usize {
    if a.trades@.len() == 0 {
        a.selected_trade_index
    } else if a.selected_trade_index == 0 {
        (a.trades@.len() - 1) as usize
    } else {
        (a.selected_trade_index - 1) as usize
    }
}

/// The trade cursor after one step down, wrapping to the top.
pub open spec fn cursor_down(a: App) -> usize {
    if a.trades@.len() == 0 {
        a.selected_trade_index
    } else {
        ((a.selected_trade_index + 1) % (a.trades@.len() as int)) as usize
    }
}

/// `Enter` on the form took the controller from `a` to `b`: the typed
/// buffer is committed; an invalid draft stays with a message; a valid one
/// is saved and the form left, or, when the store refuses the write, the
/// form stays with the store's error.
pub open spec fn submit_step(a: App, b: App) -> bool {
    let (t1, b1) = commit_if_typed(a.current_trade@, a.current_input_field, a.input_buffer@);
    &&& b.current_trade@ == t1
    &&& b.current_input_field == a.current_input_field
    &&& b.selected_menu_item == a.selected_menu_item
    &&& b.selected_trade_index == a.selected_trade_index
    &&& b.trades == a.trades
    &&& b.reports == a.reports
    &&& !trade_is_valid(b.current_trade) ==> {
        &&& b.current_screen == a.current_screen
        &&& b.input_buffer@ == b1
        &&& b.message matches Some(m) && m@ == "Please fill in all required fields correctly"@
    }
    &&& trade_is_valid(b.current_trade) ==> {
        ||| (b.current_screen == Screen::MainMenu && b.input_buffer@.len() == 0
            && b.message.is_none())
        ||| (b.current_screen == a.current_screen && b.input_buffer@ == b1 && exists|e: StoreError|
            e is StorageWrite && message_is(b.message, "Error saving trade: "@, e))
    }
}

/// `d` on the trade list took the controller from `a` to `b`: without a
/// row id nothing changes; otherwise the delete failed and the list stays
/// with a message, or the list was read again newest first with the cursor
/// kept on a row, or reading it failed and the list is empty with a message.
pub open spec fn delete_step(a: App, b: App) -> bool {
    &&& b.current_screen == a.current_screen
    &&& b.current_trade == a.current_trade
    &&& b.input_buffer == a.input_buffer
    &&& b.current_input_field == a.current_input_field
    &&& b.reports == a.reports
    &&& b.selected_menu_item == a.selected_menu_item
    &&& row_id(a).is_none() ==> b == a
    &&& row_id(a).is_some() ==> {
        ||| (b.trades == a.trades && b.selected_trade_index == a.selected_trade_index && exists|
            e: StoreError,
        | e is StorageWrite && message_is(b.message, "Error deleting trade: "@, e))
        ||| (newest_first(b.trades@) && b.selected_trade_index == clamp_cursor(
            a.selected_trade_index,
            b.trades@.len(),
        ) && b.message == a.message)
        ||| (b.trades@.len() == 0 && b.selected_trade_index == 0 && exists|e: StoreError|
            e is StorageRead && message_is(b.message, "Error loading trades: "@, e))
    }
}

/// What a key on the main menu does, `running` being whether the program
/// goes on.
pub open spec fn main_menu_step(a: App, b: App, key: Key, running: bool) -> bool {
    &&& running == !(key == Key::Char('q') || (key == Key::Enter && a.selected_menu_item == 3))
    &&& key == Key::Up ==> (b == App {
        selected_menu_item: ((a.selected_menu_item + MENU_ITEMS - 1) % (MENU_ITEMS as int)) as usize,
        ..a
    })
    &&& key == Key::Down ==> (b == App {
        selected_menu_item: ((a.selected_menu_item + 1) % (MENU_ITEMS as int)) as usize,
        ..a
    })
    &&& key == Key::Enter && a.selected_menu_item == 0 ==> {
        &&& b.current_screen == Screen::AddTrade
        &&& is_blank_trade(b.current_trade)
        &&& b.current_input_field == InputField::Symbol
        &&& b.input_buffer@.len() == 0
        &&& b.message.is_none()
        &&& b.selected_menu_item == a.selected_menu_item
        &&& b.selected_trade_index == a.selected_trade_index
        &&& b.trades == a.trades
        &&& b.reports == a.reports
    }
    &&& key == Key::Enter && a.selected_menu_item == 1 ==> {
        ||| (b.current_screen == Screen::ViewTrades && b.selected_trade_index == 0 && newest_first(
            b.trades@,
        ))
        ||| (b.current_screen == Screen::MainMenu && exists|e: StoreError|
            e is StorageRead && message_is(b.message, "Error loading trades: "@, e))
    }
    &&& key == Key::Enter && a.selected_menu_item == 2 ==> {
        &&& b.current_screen == Screen::Reports
        &&& ((exists|ts: Seq<Trade>| newest_first(ts) && is_report_of(b.reports@, ts)) || (
        b.reports@.len() == 0 && b.message.is_some()))
    }
    &&& key != Key::Up && key != Key::Down && key != Key::Enter ==> b == a
    &&& key == Key::Enter && a.selected_menu_item == 3 ==> b == a
}

/// What a key on the add or edit form does.
pub open spec fn form_step(a: App, b: App, key: Key) -> bool {
    &&& key == Key::Esc ==> (b == App {
        current_screen: Screen::MainMenu,
        input_buffer: b.input_buffer,
        message: None,
        ..a
    }) && b.input_buffer@.len() == 0
    &&& (key == Key::Tab || key == Key::BackTab) ==> {
        &&& (b.current_trade@, b.input_buffer@) == commit_if_typed(
            a.current_trade@,
            a.current_input_field,
            a.input_buffer@,
        )
        &&& b.current_input_field == if key == Key::Tab {
            field_after(a.current_input_field)
        } else {
            field_before(a.current_input_field)
        }
        &&& b.current_screen == a.current_screen
        &&& b.selected_menu_item == a.selected_menu_item
        &&& b.selected_trade_index == a.selected_trade_index
        &&& b.trades == a.trades
        &&& b.message == a.message
        &&& b.reports == a.reports
    }
    &&& key == Key::Enter ==> submit_step(a, b)
    &&& key matches Key::Char(c) ==> (b == App { input_buffer: b.input_buffer, message: None, ..a })
        && b.input_buffer@ == a.input_buffer@.push(c)
    &&& key == Key::Backspace ==> (b == App { input_buffer: b.input_buffer, ..a })
        && b.input_buffer@ == if a.input_buffer@.len() > 0 {
        a.input_buffer@.drop_last()
    } else {
        a.input_buffer@
    }
    &&& key == Key::Up || key == Key::Down || key == Key::Other ==> b == a
}

/// What a key on the trade list does.
pub open spec fn view_step(a: App, b: App, key: Key) -> bool {
    &&& key == Key::Esc ==> (b == App { current_screen: Screen::MainMenu, ..a })
    &&& key == Key::Up ==> (b == App { selected_trade_index: cursor_up(a), ..a })
    &&& key == Key::Down ==> (b == App { selected_trade_index: cursor_down(a), ..a })
    &&& key == Key::Char('e') && a.trades@.len() > 0 ==> {
        &&& b.current_screen == Screen::EditTrade
        &&& b.current_trade@ == a.trades@[a.selected_trade_index as int]@
        &&& b.current_input_field == InputField::Symbol
        &&& b.input_buffer@.len() == 0
        &&& b.message.is_none()
        &&& b.selected_menu_item == a.selected_menu_item
        &&& b.selected_trade_index == a.selected_trade_index
        &&& b.trades == a.trades
        &&& b.reports == a.reports
    }
    &&& key == Key::Char('e') && a.trades@.len() == 0 ==> b == a
    &&& key == Key::Char('d') ==> delete_step(a, b)
    &&& key != Key::Esc && key != Key::Up && key != Key::Down && key != Key::Char('e') && key
        != Key::Char('d') ==> b == a
}

impl App {
    /// The controller's invariant: a menu entry is selected, and the trade
    /// cursor is on a row, or at 0 when there are none.
    pub open spec fn wf(&self) -> bool {
        &&& self.selected_menu_item < MENU_ITEMS
        &&& (self.selected_trade_index < self.trades@.len() || (self.trades@.len() == 0
            && self.selected_trade_index == 0))
    }

    /// The main menu, with the first entry selected, nothing loaded and a
    /// blank draft.
    pub fn new() -> (r: App)
        ensures
            r.wf(),
            r.current_screen == Screen::MainMenu,
            r.selected_menu_item == 0,
            r.selected_trade_index == 0,
            r.trades@.len() == 0,
            is_blank_trade(r.current_trade),
            r.current_input_field == InputField::Symbol,
            r.input_buffer@.len() == 0,
            r.message.is_none(),
            r.reports@.len() == 0,
    {
        App {
            current_screen: Screen::MainMenu,
            selected_menu_item: 0,
            selected_trade_index: 0,
            trades: Vec::new(),
            current_trade: Trade::default(),
            current_input_field: InputField::Symbol,
            input_buffer: String::new(),
            message: None,
            reports: Vec::new(),
        }
    }

    pub fn next_menu_item(&mut self)
        requires
            old(self).wf(),
        ensures
            (*final(self) == App {
                selected_menu_item: ((old(self).selected_menu_item + 1) % (MENU_ITEMS as int)) as usize,
                ..*old(self)
            }),
    {
        self.selected_menu_item = (self.selected_menu_item + 1) % MENU_ITEMS;
    }

    pub fn previous_menu_item(&mut self)
        requires
            old(self).wf(),
        ensures
            (*final(self) == App {
                selected_menu_item: ((old(self).selected_menu_item + MENU_ITEMS - 1) % (
                    MENU_ITEMS as int)) as usize,
                ..*old(self)
            }),
    {
        if self.selected_menu_item == 0 {
            self.selected_menu_item = MENU_ITEMS - 1;
        } else {
            self.selected_menu_item = self.selected_menu_item - 1;
        }
    }

    /// Moves focus to the next field, without committing.
    pub fn next_field(&mut self)
        ensures
            (*final(self) == App {
                current_input_field: field_after(old(self).current_input_field),
                ..*old(self)
            }),
    {
        self.current_input_field = match self.current_input_field {
            InputField::Symbol => InputField::TradeType,
            InputField::TradeType => InputField::Action,
            InputField::Action => InputField::Price,
            InputField::Price => InputField::Quantity,
            InputField::Quantity => InputField::Date,
            InputField::Date => InputField::Fees,
            InputField::Fees => InputField::Comment,
            InputField::Comment => InputField::Symbol,
        };
    }

    /// Moves focus to the previous field, without committing.
    pub fn previous_field(&mut self)
        ensures
            (*final(self) == App {
                current_input_field: field_before(old(self).current_input_field),
                ..*old(self)
            }),
    {
        self.current_input_field = match self.current_input_field {
            InputField::Symbol => InputField::Comment,
            InputField::TradeType => InputField::Symbol,
            InputField::Action => InputField::TradeType,
            InputField::Price => InputField::Action,
            InputField::Quantity => InputField::Price,
            InputField::Date => InputField::Quantity,
            InputField::Fees => InputField::Date,
            InputField::Comment => InputField::Fees,
        };
    }

    /// Moves the trade cursor down, wrapping to the top.
    pub fn next_trade(&mut self)
        requires
            old(self).wf(),
        ensures
            (*final(self) == App { selected_trade_index: cursor_down(*old(self)), ..*old(self) }),
    {
        if self.trades.len() > 0 {
            self.selected_trade_index = (self.selected_trade_index + 1) % self.trades.len();
        }
    }

    /// Moves the trade cursor up, wrapping to the bottom.
    pub fn previous_trade(&mut self)
        requires
            old(self).wf(),
        ensures
            (*final(self) == App { selected_trade_index: cursor_up(*old(self)), ..*old(self) }),
    {
        if self.trades.len() > 0 {
            if self.selected_trade_index == 0 {
                self.selected_trade_index = self.trades.len() - 1;
            } else {
                self.selected_trade_index = self.selected_trade_index - 1;
            }
        }
    }

    /// Commits the buffer into the focused field.
    pub fn commit_field(&mut self)
        ensures
            (final(self).current_trade@, final(self).input_buffer@) == commit_spec(
                old(self).current_trade@,
                old(self).current_input_field,
                old(self).input_buffer@,
            ),
            final(self).current_screen == old(self).current_screen,
            final(self).selected_menu_item == old(self).selected_menu_item,
            final(self).selected_trade_index == old(self).selected_trade_index,
            final(self).trades == old(self).trades,
            final(self).current_input_field == old(self).current_input_field,
            final(self).message == old(self).message,
            final(self).reports == old(self).reports,
    {
        update_current_field(self);
    }

    /// Commits a typed buffer, then moves focus forward.
    pub fn advance_focus(&mut self)
        ensures
            (final(self).current_trade@, final(self).input_buffer@) == commit_if_typed(
                old(self).current_trade@,
                old(self).current_input_field,
                old(self).input_buffer@,
            ),
            final(self).current_input_field == field_after(old(self).current_input_field),
            final(self).current_screen == old(self).current_screen,
            final(self).selected_menu_item == old(self).selected_menu_item,
            final(self).selected_trade_index == old(self).selected_trade_index,
            final(self).trades == old(self).trades,
            final(self).message == old(self).message,
            final(self).reports == old(self).reports,
    {
        if self.input_buffer.as_str().unicode_len() > 0 {
            update_current_field(self);
        }
        self.next_field();
    }

    /// Commits a typed buffer, then moves focus back.
    pub fn retreat_focus(&mut self)
        ensures
            (final(self).current_trade@, final(self).input_buffer@) == commit_if_typed(
                old(self).current_trade@,
                old(self).current_input_field,
                old(self).input_buffer@,
            ),
            final(self).current_input_field == field_before(old(self).current_input_field),
            final(self).current_screen == old(self).current_screen,
            final(self).selected_menu_item == old(self).selected_menu_item,
            final(self).selected_trade_index == old(self).selected_trade_index,
            final(self).trades == old(self).trades,
            final(self).message == old(self).message,
            final(self).reports == old(self).reports,
    {
        if self.input_buffer.as_str().unicode_len() > 0 {
            update_current_field(self);
        }
        self.previous_field();
    }

    /// Starts a new draft on the add screen.
    pub fn begin_new(&mut self)
        ensures
            final(self).current_screen == Screen::AddTrade,
            is_blank_trade(final(self).current_trade),
            final(self).current_input_field == InputField::Symbol,
            final(self).input_buffer@.len() == 0,
            final(self).message.is_none(),
            final(self).selected_menu_item == old(self).selected_menu_item,
            final(self).selected_trade_index == old(self).selected_trade_index,
            final(self).trades == old(self).trades,
            final(self).reports == old(self).reports,
    {
        self.current_screen = Screen::AddTrade;
        self.current_trade = Trade::default();
        self.current_input_field = InputField::Symbol;
        self.input_buffer = String::new();
        self.message = None;
    }

    /// Loads the trade under the cursor into the draft, on the edit screen.
    pub fn begin_edit(&mut self)
        requires
            old(self).wf(),
            old(self).trades@.len() > 0,
        ensures
            final(self).current_screen == Screen::EditTrade,
            final(self).current_trade@ == old(self).trades@[old(self).selected_trade_index as int]@,
            final(self).current_input_field == InputField::Symbol,
            final(self).input_buffer@.len() == 0,
            final(self).message.is_none(),
            final(self).selected_menu_item == old(self).selected_menu_item,
            final(self).selected_trade_index == old(self).selected_trade_index,
            final(self).trades == old(self).trades,
            final(self).reports == old(self).reports,
    {
        self.current_trade = self.trades[self.selected_trade_index].copy();
        self.current_input_field = InputField::Symbol;
        self.input_buffer = String::new();
        self.current_screen = Screen::EditTrade;
        self.message = None;
    }

    /// Types a character into the buffer and clears the message.
    pub fn append_char(&mut self, c: char)
        ensures
            (*final(self) == App { input_buffer: final(self).input_buffer, message: None, ..*old(self) }),
            final(self).input_buffer@ == old(self).input_buffer@.push(c),
    {
        self.input_buffer.push(c);
        self.message = None;
    }

    /// Removes the last character of the buffer, if any.
    pub fn backspace(&mut self)
        ensures
            (*final(self) == App { input_buffer: final(self).input_buffer, ..*old(self) }),
            old(self).input_buffer@.len() == 0 ==> final(self).input_buffer@ == old(self).input_buffer@,
            old(self).input_buffer@.len() > 0 ==> final(self).input_buffer@ == old(self).input_buffer@.drop_last(),
    {
        let _ = self.input_buffer.pop();
    }

    /// Shows the loaded trades from the top, or stays with a message when
    /// they could not be read.
    pub fn show_trades(&mut self, loaded: Result<Vec<Trade>, StoreError>)
        requires
            old(self).wf(),
        ensures
            final(self).wf(),
            loaded matches Ok(v) ==> (*final(self) == App {
                trades: v,
                selected_trade_index: 0,
                current_screen: Screen::ViewTrades,
                ..*old(self)
            }),
            loaded matches Err(e) ==> (*final(self) == App { message: final(self).message, ..*old(self) })
                && message_is(final(self).message, "Error loading trades: "@, e),
    {
        match loaded {
            Ok(v) => {
                self.trades = v;
                self.selected_trade_index = 0;
                self.current_screen = Screen::ViewTrades;
            },
            Err(e) => {
                self.message = Some(error_message("Error loading trades: ", &e));
            },
        }
    }

    /// Shows the loaded summary; when it could not be read, an empty one
    /// with a message.
    pub fn show_reports(&mut self, loaded: Result<Vec<SymbolReport>, StoreError>)
        requires
            old(self).wf(),
        ensures
            final(self).wf(),
            loaded matches Ok(v) ==> (*final(self) == App {
                reports: v,
                current_screen: Screen::Reports,
                ..*old(self)
            }),
            loaded matches Err(e) ==> (*final(self) == App {
                reports: final(self).reports,
                message: final(self).message,
                current_screen: Screen::Reports,
                ..*old(self)
            }) && final(self).reports@.len() == 0 && message_is(
                final(self).message,
                "Error loading reports: "@,
                e,
            ),
    {
        match loaded {
            Ok(v) => {
                self.reports = v;
            },
            Err(e) => {
                self.reports = Vec::new();
                self.message = Some(error_message("Error loading reports: ", &e));
            },
        }
        self.current_screen = Screen::Reports;
    }

    /// Leaves the form after a successful save; after a failed one, stays
    /// with the draft intact and the error shown.
    pub fn finish_save(&mut self, outcome: Result<(), StoreError>)
        ensures
            outcome is Ok ==> (*final(self) == App {
                current_screen: Screen::MainMenu,
                input_buffer: final(self).input_buffer,
                message: None,
                ..*old(self)
            }) && final(self).input_buffer@.len() == 0,
            outcome matches Err(e) ==> (*final(self) == App { message: final(self).message, ..*old(self) })
                && message_is(final(self).message, "Error saving trade: "@, e),
    {
        match outcome {
            Ok(()) => {
                self.current_screen = Screen::MainMenu;
                self.input_buffer = String::new();
                self.message = None;
            },
            Err(e) => {
                self.message = Some(error_message("Error saving trade: ", &e));
            },
        }
    }

    /// Takes the list read again after a delete, keeping the cursor on a
    /// row; when it could not be read, an empty list with a message.
    pub fn reload_after_delete(&mut self, reloaded: Result<Vec<Trade>, StoreError>)
        requires
            old(self).wf(),
        ensures
            final(self).wf(),
            reloaded matches Ok(v) ==> (*final(self) == App {
                trades: v,
                selected_trade_index: clamp_cursor(old(self).selected_trade_index, v@.len()),
                ..*old(self)
            }),
            reloaded matches Err(e) ==> (*final(self) == App {
                trades: final(self).trades,
                selected_trade_index: 0,
                message: final(self).message,
                ..*old(self)
            }) && final(self).trades@.len() == 0 && message_is(
                final(self).message,
                "Error loading trades: "@,
                e,
            ),
    {
        match reloaded {
            Ok(v) => {
                let n = v.len();
                self.trades = v;
                if self.selected_trade_index >= n {
                    if n == 0 {
                        self.selected_trade_index = 0;
                    } else {
                        self.selected_trade_index = n - 1;
                    }
                }
            },
            Err(e) => {
                self.trades = Vec::new();
                self.selected_trade_index = 0;
                self.message = Some(error_message("Error loading trades: ", &e));
            },
        }
    }

    /// Whether `Enter` inserts or updates: an update on the edit screen.
    pub fn save_kind(screen: Screen) -> (r: SaveKind)
        ensures
            r == save_kind_of(screen),
    {
        if screen == Screen::EditTrade {
            SaveKind::Update
        } else {
            SaveKind::Insert
        }
    }

    /// The id of the row under the trade cursor, if there is a row and it
    /// has one.
    pub fn current_row_id(&self) -> (r: Option<i64>)
        requires
            self.wf(),
        ensures
            r == row_id(*self),
    {
        if self.trades.len() == 0 {
            None
        } else {
            self.trades[self.selected_trade_index].id
        }
    }

    /// `Enter` on the form: commits a typed buffer, then saves a valid draft
    /// (an insert on the add screen, an update on the edit screen) or shows
    /// why it cannot be saved.
    pub fn submit(&mut self, db: &Database)
        requires
            old(self).wf(),
            old(self).current_screen == Screen::AddTrade || old(self).current_screen
                == Screen::EditTrade,
        ensures
            final(self).wf(),
            submit_step(*old(self), *final(self)),
    {
        if self.input_buffer.as_str().unicode_len() > 0 {
            update_current_field(self);
        }
        if !validate_trade(&self.current_trade) {
            self.message = Some(owned("Please fill in all required fields correctly"));
            return;
        }
        let outcome = match App::save_kind(self.current_screen) {
            SaveKind::Update => db.update_trade(&self.current_trade),
            SaveKind::Insert => match db.add_trade(&self.current_trade) {
                Ok(_) => Ok(()),
                Err(e) => Err(e),
            },
        };
        self.finish_save(outcome);
    }

    /// `d` on the trade list: deletes the row under the cursor and reads
    /// the list again; the cursor stays on a row.
    pub fn delete_current(&mut self, db: &Database)
        requires
            old(self).wf(),
        ensures
            final(self).wf(),
            delete_step(*old(self), *final(self)),
    {
        if let Some(id) = self.current_row_id() {
            match db.delete_trade(id) {
                Ok(()) => {
                    let reloaded = db.get_all_trades();
                    let ghost outcome = reloaded;
                    self.reload_after_delete(reloaded);
                    proof {
                        if let Err(e) = outcome {
                            assert(e is StorageRead && message_is(self.message, "Error loading trades: "@, e));
                        }
                    }
                },
                Err(e) => {
                    self.message = Some(error_message("Error deleting trade: ", &e));
                    assert(e is StorageWrite && message_is(self.message, "Error deleting trade: "@, e));
                },
            }
        }
    }

    /// A key on the main menu; `false` when the program is to end.
    pub fn main_menu_key(&mut self, key: Key, db: &Database) -> (running: bool)
        requires
            old(self).wf(),
            old(self).current_screen == Screen::MainMenu,
        ensures
            final(self).wf(),
            main_menu_step(*old(self), *final(self), key, running),
    {
        match key {
            Key::Char('q') => false,
            Key::Up => {
                self.previous_menu_item();
                true
            },
            Key::Down => {
                self.next_menu_item();
                true
            },
            Key::Enter => {
                if self.selected_menu_item == 0 {
                    self.begin_new();
                    true
                } else if self.selected_menu_item == 1 {
                    let loaded = db.get_all_trades();
                    self.show_trades(loaded);
                    true
                } else if self.selected_menu_item == 2 {
                    let loaded = db.get_report_by_symbol();
                    self.show_reports(loaded);
                    true
                } else {
                    false
                }
            },
            _ => true,
        }
    }

    /// A key on the add or edit form.
    pub fn form_key(&mut self, key: Key, db: &Database)
        requires
            old(self).wf(),
            old(self).current_screen == Screen::AddTrade || old(self).current_screen
                == Screen::EditTrade,
        ensures
            final(self).wf(),
            form_step(*old(self), *final(self), key),
    {
        match key {
            Key::Esc => {
                self.current_screen = Screen::MainMenu;
                self.input_buffer = String::new();
                self.message = None;
            },
            Key::Tab => self.advance_focus(),
            Key::BackTab => self.retreat_focus(),
            Key::Enter => self.submit(db),
            Key::Char(c) => self.append_char(c),
            Key::Backspace => self.backspace(),
            _ => {},
        }
    }

    /// A key on the trade list.
    pub fn view_key(&mut self, key: Key, db: &Database)
        requires
            old(self).wf(),
            old(self).current_screen == Screen::ViewTrades,
        ensures
            final(self).wf(),
            view_step(*old(self), *final(self), key),
    {
        match key {
            Key::Esc => {
                self.current_screen = Screen::MainMenu;
            },
            Key::Up => self.previous_trade(),
            Key::Down => self.next_trade(),
            Key::Char('e') => {
                if self.trades.len() > 0 {
                    self.begin_edit();
                }
            },
            Key::Char('d') => self.delete_current(db),
            _ => {},
        }
    }

    /// Dispatches a key to the current screen; `false` when the program is
    /// to end, which only the main menu decides.
    pub fn handle_key(&mut self, key: Key, db: &Database) -> (running: bool)
        requires
            old(self).wf(),
        ensures
            final(self).wf(),
            running == !(old(self).current_screen == Screen::MainMenu && (key == Key::Char('q') || (
            key == Key::Enter && old(self).selected_menu_item == 3))),
            old(self).current_screen == Screen::MainMenu ==> main_menu_step(
                *old(self),
                *final(self),
                key,
                running,
            ),
            old(self).current_screen == Screen::AddTrade || old(self).current_screen
                == Screen::EditTrade ==> form_step(*old(self), *final(self), key),
            old(self).current_screen == Screen::ViewTrades ==> view_step(
                *old(self),
                *final(self),
                key,
            ),
            old(self).current_screen == Screen::Reports && key == Key::Esc ==> (*final(self) == App {
                current_screen: Screen::MainMenu,
                ..*old(self)
            }),
            old(self).current_screen == Screen::Reports && key != Key::Esc ==> *final(self) == *old(self),
    {
        match self.current_screen {
            Screen::MainMenu => self.main_menu_key(key, db),
            Screen::AddTrade | Screen::EditTrade => {
                self.form_key(key, db);
                true
            },
            Screen::ViewTrades => {
                self.view_key(key, db);
                true
            },
            Screen::Reports => {
                if key == Key::Esc {
                    self.current_screen = Screen::MainMenu;
                }
                true
            },
        }
    }
}

} // verus!
