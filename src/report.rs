//! The per-symbol profit/loss summary.
//!
//! Every trade counts as a flat cash flow: a sell adds its proceeds, a buy
//! subtracts its cost, and fees always subtract. Buys are not matched to
//! sells by lot.

use vstd::prelude::*;
use crate::amount::AMOUNT_SCALE;
use crate::model::{Action, Trade};
use crate::text::{lemma_text_lt_total, text_eq, text_less, text_lt};

verus! {

/// One line of the summary. `profit_loss` is in millionths of millionths
/// (price and quantity are each in millionths).
#[derive(Debug, Clone)]
pub struct SymbolReport {
    pub symbol: String,
    pub profit_loss: i128,
    pub trade_count: usize,
}

/// The signed cash flow of one trade, in millionths of millionths.
pub open spec fn contribution(t: Trade) -> int {
    match t.action {
        Action::Sell => t.price * t.quantity - t.fees * AMOUNT_SCALE,
        Action::Buy => -(t.price * t.quantity) - t.fees * AMOUNT_SCALE,
    }
}

/// The summed cash flow of the trades in `ts` on symbol `sym`.
pub open spec fn profit_loss_of(ts: Seq<Trade>, sym: Seq<char>) -> int
    decreases ts.len(),
{
    if ts.len() == 0 {
        0
    } else {
        profit_loss_of(ts.drop_last(), sym) + if ts.last().symbol@ == sym {
            contribution(ts.last())
        } else {
            0
        }
    }
}

/// The number of trades in `ts` on symbol `sym`.
pub open spec fn count_of(ts: Seq<Trade>, sym: Seq<char>) -> nat
    decreases ts.len(),
{
    if ts.len() == 0 {
        0
    } else {
        count_of(ts.drop_last(), sym) + if ts.last().symbol@ == sym {
            1nat
        } else {
            0nat
        }
    }
}

pub open spec fn fits_i128(x: int) -> bool {
    i128::MIN <= x <= i128::MAX
}

/// Some running total of a symbol, taken in the order of `ts`, leaves the
/// range of `i128`.
pub open spec fn report_overflows(ts: Seq<Trade>) -> bool {
    exists|k: int|
        0 <= k < ts.len() && !fits_i128(
            #[trigger] profit_loss_of(ts.subrange(0, k + 1), ts[k].symbol@),
        )
}

/// `r` is the summary of `ts`: one line per distinct symbol, in ascending
/// symbol order, each with the symbol's summed cash flow and trade count.
pub open spec fn is_report_of(r: Seq<SymbolReport>, ts: Seq<Trade>) -> bool {
    &&& forall|i: int|
        0 <= i < r.len() ==> {
            &&& #[trigger] r[i].profit_loss == profit_loss_of(ts, r[i].symbol@)
            &&& r[i].trade_count == count_of(ts, r[i].symbol@)
            &&& r[i].trade_count > 0
        }
    &&& forall|i: int| 0 <= i < r.len() - 1 ==> text_lt(#[trigger] r[i].symbol@, r[i + 1].symbol@)
    &&& forall|i: int, j: int| 0 <= i < r.len() && 0 <= j < r.len() && i != j ==> #[trigger] r[i].symbol@ != #[trigger] r[j].symbol@
    &&& forall|k: int| 0 <= k < ts.len() ==> exists|i: int| 0 <= i < r.len() && #[trigger] r[i].symbol@ == #[trigger] ts[k].symbol@
}

proof fn lemma_absent_symbol(ts: Seq<Trade>, sym: Seq<char>)
    requires
        forall|k: int| 0 <= k < ts.len() ==> (#[trigger] ts[k]).symbol@ != sym,
    ensures
        profit_loss_of(ts, sym) == 0,
        count_of(ts, sym) == 0,
    decreases ts.len(),
{
    if ts.len() > 0 {
        lemma_absent_symbol(ts.drop_last(), sym);
        assert(ts.last().symbol@ != sym);
    }
}

proof fn lemma_count_bound(ts: Seq<Trade>, sym: Seq<char>)
    ensures
        count_of(ts, sym) <= ts.len(),
    decreases ts.len(),
{
    if ts.len() > 0 {
        lemma_count_bound(ts.drop_last(), sym);
    }
}

/// The cash flow of one trade; it always fits an `i128`.
fn trade_contribution(t: &Trade) -> (r: i128)
    ensures
        r == contribution(*t),
{
    let p = t.price as i128;
    let q = t.quantity as i128;
    let f = t.fees as i128;
    assert(-0x4000_0000_0000_0000_0000_0000_0000_0000 <= p * q
        <= 0x4000_0000_0000_0000_0000_0000_0000_0000) by (nonlinear_arith)
        requires
            -0x8000_0000_0000_0000 <= p <= 0x7fff_ffff_ffff_ffff,
            -0x8000_0000_0000_0000 <= q <= 0x7fff_ffff_ffff_ffff,
    ;
    assert(-0x1000_0000_0000_0000_0000_0000 <= f * 1_000_000 <= 0x1000_0000_0000_0000_0000_0000) by (nonlinear_arith)
        requires
            -0x8000_0000_0000_0000 <= f <= 0x7fff_ffff_ffff_ffff,
    ;
    let gross = p * q;
    let fee = f * 1_000_000;
    match t.action {
        Action::Sell => gross - fee,
        Action::Buy => -gross - fee,
    }
}

/// The position of the line for `sym` in `lines`, if there is one.
fn find_symbol(lines: &Vec<SymbolReport>, sym: &str) -> (r: Option<usize>)
    ensures
        r matches Some(j) ==> j < lines@.len() && lines@[j as int].symbol@ == sym@,
        r.is_none() ==> forall|j: int| 0 <= j < lines@.len() ==> (#[trigger] lines@[j]).symbol@ != sym@,
{
    let mut j: usize = 0;
    while j < lines.len()
        invariant
            j <= lines@.len(),
            forall|k: int| 0 <= k < j ==> (#[trigger] lines@[k]).symbol@ != sym@,
        decreases lines@.len() - j,
    {
        if text_eq(lines[j].symbol.as_str(), sym) {
            return Some(j);
        }
        j = j + 1;
    }
    None
}

/// Where a line for the absent symbol `sym` keeps `lines` in order.
fn insertion_point(lines: &Vec<SymbolReport>, sym: &str) -> (r: usize)
    requires
        forall|j: int| 0 <= j < lines@.len() ==> (#[trigger] lines@[j]).symbol@ != sym@,
    ensures
        r <= lines@.len(),
        forall|k: int| 0 <= k < r ==> text_lt((#[trigger] lines@[k]).symbol@, sym@),
        r < lines@.len() ==> text_lt(sym@, lines@[r as int].symbol@),
{
    let mut j: usize = 0;
    while j < lines.len()
        invariant
            j <= lines@.len(),
            forall|k: int| 0 <= k < lines@.len() ==> (#[trigger] lines@[k]).symbol@ != sym@,
            forall|k: int| 0 <= k < j ==> text_lt((#[trigger] lines@[k]).symbol@, sym@),
        decreases lines@.len() - j,
    {
        if text_less(sym, lines[j].symbol.as_str()) {
            return j;
        }
        proof {
            lemma_text_lt_total(sym@, lines@[j as int].symbol@);
        }
        j = j + 1;
    }
    j
}

/// Summarises the trades per symbol; `None` exactly when a running total
/// leaves the range of `i128`.
pub fn summarize(trades: &Vec<Trade>) -> (r: Option<Vec<SymbolReport>>)
    ensures
        r.is_none() <==> report_overflows(trades@),
        r matches Some(v) ==> is_report_of(v@, trades@),
{
    let mut lines: Vec<SymbolReport> = Vec::new();
    let mut i: usize = 0;
    while i < trades.len()
        invariant
            i <= trades@.len(),
            is_report_of(lines@, trades@.subrange(0, i as int)),
            forall|k: int|
                0 <= k < i ==> fits_i128(
                    #[trigger] profit_loss_of(trades@.subrange(0, k + 1), trades@[k].symbol@),
                ),
        decreases trades@.len() - i,
    {
        let ghost before = trades@.subrange(0, i as int);
        let ghost after = trades@.subrange(0, i + 1);
        let t = &trades[i];
        let ghost sym = t.symbol@;
        assert(after.drop_last() == before);
        assert(after.last() == *t);
        let c = trade_contribution(t);
        proof {
            lemma_count_bound(before, sym);
        }
        match find_symbol(&lines, t.symbol.as_str()) {
            Some(j) => {
                let old_line = &lines[j];
                let total = match old_line.profit_loss.checked_add(c) {
                    Some(total) => total,
                    None => {
                        assert(!fits_i128(profit_loss_of(trades@.subrange(0, i + 1), trades@[i as int].symbol@)));
                        return None;
                    },
                };
                let line = SymbolReport {
                    symbol: old_line.symbol.clone(),
                    profit_loss: total,
                    trade_count: old_line.trade_count + 1,
                };
                let ghost old_lines = lines@;
                lines.set(j, line);
                assert forall|a: int| 0 <= a < lines@.len() implies {
                    &&& #[trigger] lines@[a].profit_loss == profit_loss_of(after, lines@[a].symbol@)
                    &&& lines@[a].trade_count == count_of(after, lines@[a].symbol@)
                    &&& lines@[a].trade_count > 0
                } by {
                    if a != j {
                        assert(old_lines[a].symbol@ != old_lines[j as int].symbol@);
                    }
                }
                assert forall|k: int| 0 <= k < after.len() implies exists|a: int| 0 <= a < lines@.len() && #[trigger] lines@[a].symbol@ == #[trigger] after[k].symbol@ by {
                    if k < i {
                        assert(after[k] == before[k]);
                        let a = choose|a: int| 0 <= a < old_lines.len() && old_lines[a].symbol@ == before[k].symbol@;
                        assert(lines@[a].symbol@ == old_lines[a].symbol@);
                    } else {
                        assert(lines@[j as int].symbol@ == after[k].symbol@);
                    }
                }
                assert forall|a: int| 0 <= a < lines@.len() - 1 implies text_lt(#[trigger] lines@[a].symbol@, lines@[a + 1].symbol@) by {
                    assert(old_lines[a].symbol@ == lines@[a].symbol@);
                    assert(old_lines[a + 1].symbol@ == lines@[a + 1].symbol@);
                }
                assert forall|a: int, b: int| 0 <= a < lines@.len() && 0 <= b < lines@.len() && a != b implies #[trigger] lines@[a].symbol@ != #[trigger] lines@[b].symbol@ by {
                    assert(old_lines[a].symbol@ == lines@[a].symbol@);
                    assert(old_lines[b].symbol@ == lines@[b].symbol@);
                }
            },
            None => {
                proof {
                    assert forall|k: int| 0 <= k < before.len() implies (#[trigger] before[k]).symbol@ != sym by {
                        let a = choose|a: int| 0 <= a < lines@.len() && #[trigger] lines@[a].symbol@ == before[k].symbol@;
                        assert(lines@[a].symbol@ != sym);
                    }
                    lemma_absent_symbol(before, sym);
                }
                let pos = insertion_point(&lines, t.symbol.as_str());
                let line = SymbolReport { symbol: t.symbol.clone(), profit_loss: c, trade_count: 1 };
                let ghost old_lines = lines@;
                lines.insert(pos, line);
                assert forall|a: int| 0 <= a < lines@.len() implies {
                    &&& #[trigger] lines@[a].profit_loss == profit_loss_of(after, lines@[a].symbol@)
                    &&& lines@[a].trade_count == count_of(after, lines@[a].symbol@)
                    &&& lines@[a].trade_count > 0
                } by {
                    if a < pos {
                        assert(lines@[a] == old_lines[a]);
                        assert(lines@[a].symbol@ != sym);
                        assert(old_lines[a].profit_loss == profit_loss_of(before, old_lines[a].symbol@));
                        assert(after.last().symbol@ != lines@[a].symbol@);
                        assert(profit_loss_of(after, lines@[a].symbol@) == profit_loss_of(before, lines@[a].symbol@));
                        assert(count_of(after, lines@[a].symbol@) == count_of(before, lines@[a].symbol@));
                    } else if a > pos {
                        assert(lines@[a] == old_lines[a - 1]);
                        assert(lines@[a].symbol@ != sym);
                        assert(old_lines[a - 1].profit_loss == profit_loss_of(before, old_lines[a - 1].symbol@));
                        assert(after.last().symbol@ != lines@[a].symbol@);
                        assert(profit_loss_of(after, lines@[a].symbol@) == profit_loss_of(before, lines@[a].symbol@));
                        assert(count_of(after, lines@[a].symbol@) == count_of(before, lines@[a].symbol@));
                    } else {
                        assert(lines@[a].symbol@ == sym);
                        assert(profit_loss_of(after, sym) == profit_loss_of(before, sym) + c);
                        assert(count_of(after, sym) == count_of(before, sym) + 1);
                    }
                }
                assert forall|k: int| 0 <= k < after.len() implies exists|a: int| 0 <= a < lines@.len() && #[trigger] lines@[a].symbol@ == #[trigger] after[k].symbol@ by {
                    if k < i {
                        assert(after[k] == before[k]);
                        let a = choose|a: int| 0 <= a < old_lines.len() && old_lines[a].symbol@ == before[k].symbol@;
                        if a < pos {
                            assert(lines@[a] == old_lines[a]);
                        } else {
                            assert(lines@[a + 1] == old_lines[a]);
                        }
                    } else {
                        assert(lines@[pos as int].symbol@ == after[k].symbol@);
                    }
                }
                assert forall|a: int| 0 <= a < lines@.len() - 1 implies text_lt(#[trigger] lines@[a].symbol@, lines@[a + 1].symbol@) by {
                    if a + 1 < pos {
                        assert(lines@[a] == old_lines[a]);
                        assert(lines@[a + 1] == old_lines[a + 1]);
                    } else if a + 1 == pos {
                        assert(lines@[a] == old_lines[a]);
                    } else if a == pos {
                        assert(lines@[a + 1] == old_lines[a]);
                    } else {
                        assert(lines@[a] == old_lines[a - 1]);
                        assert(lines@[a + 1] == old_lines[a]);
                    }
                }
                assert forall|a: int, b: int| 0 <= a < lines@.len() && 0 <= b < lines@.len() && a != b implies #[trigger] lines@[a].symbol@ != #[trigger] lines@[b].symbol@ by {
                    let oa = if a < pos { a } else { a - 1 };
                    let ob = if b < pos { b } else { b - 1 };
                    if a != pos && b != pos {
                        assert(lines@[a] == old_lines[oa]);
                        assert(lines@[b] == old_lines[ob]);
                    } else if a == pos {
                        assert(lines@[b] == old_lines[ob]);
                    } else {
                        assert(lines@[a] == old_lines[oa]);
                    }
                }
            },
        }
        assert forall|k: int| 0 <= k < i + 1 implies fits_i128(
            #[trigger] profit_loss_of(trades@.subrange(0, k + 1), trades@[k].symbol@),
        ) by {
            if k == i {
                let a = choose|a: int| 0 <= a < lines@.len() && #[trigger] lines@[a].symbol@ == after[k].symbol@;
                assert(after[k] == trades@[k]);
            }
        }
        i = i + 1;
    }
    assert(trades@.subrange(0, i as int) == trades@);
    Some(lines)
}

} // verus!
