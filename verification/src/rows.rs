//! The balance rows of a response, read from the answer to the balance
//! paths.

use crate::errors::{failure_of, Failure, ZkErrorCode, ZktlsError};
use crate::fields::{extract, extracted, FieldQuery, FieldQueryView, FieldValue, FieldValueView};
use crate::ledger::{AmountPair, AmountPairView, BalanceRow, BalanceRowView};
use crate::text::{to_upper, unquote, unquoted, uppercased, views_of};
use vstd::prelude::*;

verus! {

/// Row `j` of the values of three columns: the asset of the first column,
/// without quotes and in upper case, and the numbers of the second and the
/// third.
pub open spec fn balance_row(values: Seq<FieldValueView>, j: int) -> BalanceRowView {
    let size = values.len() / 3;
    BalanceRowView {
        asset: uppercased(unquoted(values[j].text)),
        amounts: AmountPairView {
            first: values[size + j].number,
            second: values[2 * size + j].number,
        },
    }
}

/// The rows of the values of three columns, one for each third of them.
pub open spec fn balance_rows(values: Seq<FieldValueView>) -> Seq<BalanceRowView> {
    Seq::new(values.len() / 3, |j: int| balance_row(values, j))
}

/// The rows that an answer to the balance paths holds, or why it holds
/// none: the query failed, or its values do not fill three columns.
pub open spec fn rows_of_query(query: FieldQueryView) -> Result<Seq<BalanceRowView>, Failure> {
    match extracted(query) {
        Err(failure) => Err(failure),
        Ok(values) => if values.len() % 3 != 0 {
            Err(failure_of(ZkErrorCode::InvalidJsonValueSize))
        } else {
            Ok(balance_rows(values))
        },
    }
}

/// The models of a vector of rows, as a result.
pub open spec fn rows_agree(
    r: Result<Vec<BalanceRow>, ZktlsError>,
    model: Result<Seq<BalanceRowView>, Failure>,
) -> bool {
    match model {
        Ok(rows) => r matches Ok(found) && views_of(found@) == rows,
        Err(failure) => r matches Err(e) && e@ == failure,
    }
}

/// Reads the balance rows out of the values of three columns.
pub fn read_balance_rows(values: &Vec<FieldValue>) -> (r: Vec<BalanceRow>)
    ensures
        views_of(r@) == balance_rows(views_of(values@)),
{
    let ghost all = views_of(values@);
    let size = values.len() / 3;
    let mut rows: Vec<BalanceRow> = Vec::new();
    let mut j: usize = 0;
    while j < size
        invariant
            j <= size,
            size == values.len() / 3,
            all == views_of(values@),
            views_of(rows@) == balance_rows(all).take(j as int),
        decreases size - j,
    {
        let unquoted_asset = unquote(values[j].text.as_str());
        let row = BalanceRow {
            asset: to_upper(unquoted_asset.as_str()),
            amounts: AmountPair {
                first: values[size + j].number.clone(),
                second: values[size * 2 + j].number.clone(),
            },
        };
        assert(row@ == balance_row(all, j as int));
        let ghost head = views_of(rows@);
        rows.push(row);
        assert(views_of(rows@) =~= head.push(balance_row(all, j as int)));
        j += 1;
        assert(views_of(rows@) =~= balance_rows(all).take(j as int));
    }
    assert(balance_rows(all).take(size as int) =~= balance_rows(all));
    rows
}

/// Reads the balance rows out of an answer to the balance paths.
pub fn read_rows(query: &FieldQuery) -> (r: Result<Vec<BalanceRow>, ZktlsError>)
    ensures
        rows_agree(r, rows_of_query(query@)),
{
    let values = match extract(query) {
        Ok(values) => values,
        Err(e) => {
            return Err(e);
        },
    };
    if values.len() % 3 != 0 {
        return Err(ZktlsError::from_code(ZkErrorCode::InvalidJsonValueSize));
    }
    Ok(read_balance_rows(values))
}

} // verus!
