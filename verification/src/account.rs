//! The keys that identify an account where the exchange gives it no
//! identifier: a snapshot of its balance rows, or the list of its open
//! positions.

use crate::fields::{FieldValue, FieldValueView};
use crate::ledger::{BalanceRow, BalanceRowView};
use crate::order::{join_texts, joined, sort_texts, sorted_texts};
use crate::text::{append_text, to_upper, unquote, unquoted, uppercased, views_of, Text};
use vstd::prelude::*;

verus! {

/// A balance row as one text: the asset and the two amounts, with colons
/// between them.
pub open spec fn row_term(row: BalanceRowView) -> Text {
    (row.asset.push(':') + row.amounts.first).push(':') + row.amounts.second
}

/// The texts of the rows, in the order of the rows.
pub open spec fn row_terms(rows: Seq<BalanceRowView>) -> Seq<Text> {
    Seq::new(rows.len(), |j: int| row_term(rows[j]))
}

/// Position `j` of the values of two columns as one text: the symbol of the
/// first column, without quotes and in upper case, a colon, and the entry
/// price of the second column without quotes.
pub open spec fn position_term(values: Seq<FieldValueView>, j: int) -> Text {
    let size = values.len() / 2;
    uppercased(unquoted(values[j].text)).push(':') + unquoted(values[size + j].text)
}

/// The texts of the positions, one for each half of the values.
pub open spec fn position_terms(values: Seq<FieldValueView>) -> Seq<Text> {
    Seq::new(values.len() / 2, |j: int| position_term(values, j))
}

/// The texts in ascending order, joined by commas.
pub open spec fn listed(terms: Seq<Text>) -> Text {
    joined(sorted_texts(terms), ',')
}

/// The key of an account known by the time of its last update and by its
/// balance rows: the time, a colon and the sorted list of the rows. An
/// account without rows has no key.
pub open spec fn snapshot_key(update_time: Text, rows: Seq<BalanceRowView>) -> Option<Text> {
    let list = listed(row_terms(rows));
    if list.len() == 0 {
        None
    } else {
        Some(update_time.push(':') + list)
    }
}

/// The key of an account known by its open positions: their sorted list.
/// An account without positions has no key.
pub open spec fn positions_key(values: Seq<FieldValueView>) -> Option<Text> {
    let list = listed(position_terms(values));
    if list.len() == 0 {
        None
    } else {
        Some(list)
    }
}

/// Sorts the texts and joins them by commas.
pub fn list_terms(terms: &Vec<String>) -> (r: String)
    ensures
        r@ == listed(views_of(terms@)),
{
    let sorted = sort_texts(terms);
    join_texts(&sorted, ',')
}

/// Builds the key of an account from the time of its last update and its
/// balance rows.
pub fn snapshot_key_of(update_time: &str, rows: &Vec<BalanceRow>) -> (r: Option<String>)
    ensures
        match snapshot_key(update_time@, views_of(rows@)) {
            Some(key) => r matches Some(k) && k@ == key,
            None => r is None,
        },
{
    let ghost all = row_terms(views_of(rows@));
    let mut terms: Vec<String> = Vec::new();
    let mut j: usize = 0;
    while j < rows.len()
        invariant
            j <= rows.len(),
            all == row_terms(views_of(rows@)),
            views_of(terms@) == all.take(j as int),
        decreases rows.len() - j,
    {
        let row = &rows[j];
        let mut term = row.asset.clone();
        term.push(':');
        append_text(&mut term, row.amounts.first.as_str());
        term.push(':');
        append_text(&mut term, row.amounts.second.as_str());
        assert(term@ == row_term(row@));
        let ghost head = views_of(terms@);
        terms.push(term);
        assert(views_of(terms@) =~= head.push(row_term(row@)));
        j += 1;
        assert(views_of(terms@) =~= all.take(j as int));
    }
    assert(all.take(rows@.len() as int) =~= all);
    let list = list_terms(&terms);
    if list.as_str().is_empty() {
        None
    } else {
        let mut key = update_time.to_string();
        key.push(':');
        append_text(&mut key, list.as_str());
        Some(key)
    }
}

/// Builds the key of an account from the values of the two columns of its
/// open positions.
pub fn positions_key_of(values: &Vec<FieldValue>) -> (r: Option<String>)
    ensures
        match positions_key(views_of(values@)) {
            Some(key) => r matches Some(k) && k@ == key,
            None => r is None,
        },
{
    let ghost all = position_terms(views_of(values@));
    let size = values.len() / 2;
    let mut terms: Vec<String> = Vec::new();
    let mut j: usize = 0;
    while j < size
        invariant
            j <= size,
            size == values.len() / 2,
            all == position_terms(views_of(values@)),
            views_of(terms@) == all.take(j as int),
        decreases size - j,
    {
        let symbol = unquote(values[j].text.as_str());
        let mut term = to_upper(symbol.as_str());
        let price = unquote(values[size + j].text.as_str());
        term.push(':');
        append_text(&mut term, price.as_str());
        assert(term@ == position_term(views_of(values@), j as int));
        let ghost head = views_of(terms@);
        terms.push(term);
        assert(views_of(terms@) =~= head.push(position_term(views_of(values@), j as int)));
        j += 1;
        assert(views_of(terms@) =~= all.take(j as int));
    }
    assert(all.take(size as int) =~= all);
    let list = list_terms(&terms);
    if list.as_str().is_empty() {
        None
    } else {
        Some(list)
    }
}

} // verus!
