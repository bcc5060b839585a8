//! The reading of one request with its response: its time, the key of the
//! account it shows and its balance rows, or the reason why it is refused.

use crate::account::{positions_key, positions_key_of, snapshot_key, snapshot_key_of};
use crate::correlate::{read_timestamp, request_timestamp};
use crate::errors::{agrees, failure_of, Failure, ZkErrorCode, ZktlsError};
use crate::fields::{extract, extracted, MessageFields, MessageFieldsView};
use crate::ledger::{BalanceRow, BalanceRowView};
use crate::product::{ProductRule, RuleView};
use crate::rows::{read_rows, rows_of_query};
use crate::text::{starts_with, unquote, unquoted, views_of, Text};
use vstd::prelude::*;

verus! {

/// What one request with its response gives.
#[derive(Debug)]
pub struct RequestReading {
    pub timestamp: u128,
    pub key: Option<String>,
    pub rows: Vec<BalanceRow>,
}

/// The model of a [`RequestReading`].
pub struct RequestReadingView {
    pub timestamp: u128,
    pub key: Option<Text>,
    pub rows: Seq<BalanceRowView>,
}

/// The model of a key that may be missing.
pub open spec fn key_view(key: Option<String>) -> Option<Text> {
    match key {
        Some(k) => Some(k@),
        None => None,
    }
}

impl View for RequestReading {
    type V = RequestReadingView;

    open spec fn view(&self) -> RequestReadingView {
        RequestReadingView {
            timestamp: self.timestamp,
            key: key_view(self.key),
            rows: views_of(self.rows@),
        }
    }
}

/// The reading of a request to a spot account.
///
/// The URL begins with the endpoint, the identity query gives exactly one
/// value and the balance query gives rows. The key is the identity value
/// without quotes or, for a snapshot account, the snapshot key made of that
/// value and the rows.
pub open spec fn spot_reading(
    endpoint: Text,
    snapshot: bool,
    timestamp: u128,
    url: Text,
    message: MessageFieldsView,
) -> Result<RequestReadingView, Failure> {
    if !endpoint.is_prefix_of(url) {
        Err(failure_of(ZkErrorCode::InvalidRequestUrl))
    } else {
        match extracted(message.identity) {
            Err(failure) => Err(failure),
            Ok(ids) => if ids.len() != 1 {
                Err(failure_of(ZkErrorCode::InvalidJsonValueSize))
            } else {
                match rows_of_query(message.balances) {
                    Err(failure) => Err(failure),
                    Ok(rows) => Ok(
                        RequestReadingView {
                            timestamp,
                            key: if snapshot {
                                snapshot_key(unquoted(ids[0].text), rows)
                            } else {
                                Some(unquoted(ids[0].text))
                            },
                            rows,
                        },
                    ),
                }
            },
        }
    }
}

/// The reading of a request to a futures account.
///
/// The URL begins with the endpoint. A response without identity values is
/// passed over: it gives no key and no rows, and its balance query is not
/// looked at. Otherwise the first identity value, without quotes, is the key
/// and the balance query gives the rows.
pub open spec fn future_reading(
    endpoint: Text,
    timestamp: u128,
    url: Text,
    message: MessageFieldsView,
) -> Result<RequestReadingView, Failure> {
    if !endpoint.is_prefix_of(url) {
        Err(failure_of(ZkErrorCode::InvalidRequestUrl))
    } else {
        match extracted(message.identity) {
            Err(failure) => Err(failure),
            Ok(ids) => if ids.len() == 0 {
                Ok(RequestReadingView { timestamp, key: None, rows: Seq::empty() })
            } else {
                match rows_of_query(message.balances) {
                    Err(failure) => Err(failure),
                    Ok(rows) => Ok(
                        RequestReadingView { timestamp, key: Some(unquoted(ids[0].text)), rows },
                    ),
                }
            },
        }
    }
}

/// The reading of the request at `position` to a unified account.
///
/// A request to the risk endpoint stands at an even position; its identity
/// query gives the two columns of the open positions, which make the key.
/// A request to the balance endpoint stands at an odd position; its balance
/// query gives the rows. A request to neither endpoint is refused.
pub open spec fn unified_reading(
    risk_endpoint: Text,
    balance_endpoint: Text,
    position: int,
    timestamp: u128,
    url: Text,
    message: MessageFieldsView,
) -> Result<RequestReadingView, Failure> {
    if risk_endpoint.is_prefix_of(url) {
        if position % 2 != 0 {
            Err(failure_of(ZkErrorCode::InvalidRequestOrder))
        } else {
            match extracted(message.identity) {
                Err(failure) => Err(failure),
                Ok(values) => if values.len() % 2 != 0 {
                    Err(failure_of(ZkErrorCode::InvalidJsonValueSize))
                } else {
                    Ok(
                        RequestReadingView {
                            timestamp,
                            key: positions_key(values),
                            rows: Seq::empty(),
                        },
                    )
                },
            }
        }
    } else if balance_endpoint.is_prefix_of(url) {
        if position % 2 == 0 {
            Err(failure_of(ZkErrorCode::InvalidRequestOrder))
        } else {
            match rows_of_query(message.balances) {
                Err(failure) => Err(failure),
                Ok(rows) => Ok(RequestReadingView { timestamp, key: None, rows }),
            }
        }
    } else {
        Err(failure_of(ZkErrorCode::InvalidRequestUrl))
    }
}

/// The reading of the request at `position` under `rule`: first its time is
/// read from the URL, then the rule is applied.
pub open spec fn request_reading(
    rule: RuleView,
    position: int,
    url: Text,
    message: MessageFieldsView,
) -> Result<RequestReadingView, Failure> {
    match request_timestamp(url) {
        Err(code) => Err(failure_of(code)),
        Ok(timestamp) => match rule {
            RuleView::Spot { endpoint } => spot_reading(endpoint, false, timestamp, url, message),
            RuleView::SpotSnapshot { endpoint } => spot_reading(
                endpoint,
                true,
                timestamp,
                url,
                message,
            ),
            RuleView::Future { endpoint } => future_reading(endpoint, timestamp, url, message),
            RuleView::Unified { risk_endpoint, balance_endpoint } => unified_reading(
                risk_endpoint,
                balance_endpoint,
                position,
                timestamp,
                url,
                message,
            ),
        },
    }
}

/// Reads a request to a spot account.
pub fn read_spot(
    endpoint: &str,
    snapshot: bool,
    timestamp: u128,
    url: &str,
    message: &MessageFields,
) -> (r: Result<RequestReading, ZktlsError>)
    ensures
        agrees(r, spot_reading(endpoint@, snapshot, timestamp, url@, message@)),
{
    if !starts_with(url, endpoint) {
        return Err(ZktlsError::from_code(ZkErrorCode::InvalidRequestUrl));
    }
    let ids = match extract(&message.identity) {
        Ok(ids) => ids,
        Err(e) => {
            return Err(e);
        },
    };
    if ids.len() != 1 {
        return Err(ZktlsError::from_code(ZkErrorCode::InvalidJsonValueSize));
    }
    let identity = unquote(ids[0].text.as_str());
    let rows = match read_rows(&message.balances) {
        Ok(rows) => rows,
        Err(e) => {
            return Err(e);
        },
    };
    let key = if snapshot {
        snapshot_key_of(identity.as_str(), &rows)
    } else {
        Some(identity)
    };
    Ok(RequestReading { timestamp, key, rows })
}

/// Reads a request to a futures account.
pub fn read_future(endpoint: &str, timestamp: u128, url: &str, message: &MessageFields) -> (r:
    Result<RequestReading, ZktlsError>)
    ensures
        agrees(r, future_reading(endpoint@, timestamp, url@, message@)),
{
    if !starts_with(url, endpoint) {
        return Err(ZktlsError::from_code(ZkErrorCode::InvalidRequestUrl));
    }
    let ids = match extract(&message.identity) {
        Ok(ids) => ids,
        Err(e) => {
            return Err(e);
        },
    };
    if ids.len() == 0 {
        let reading = RequestReading { timestamp, key: None, rows: Vec::new() };
        assert(reading@.rows =~= Seq::<BalanceRowView>::empty());
        return Ok(reading);
    }
    let identity = unquote(ids[0].text.as_str());
    let rows = match read_rows(&message.balances) {
        Ok(rows) => rows,
        Err(e) => {
            return Err(e);
        },
    };
    Ok(RequestReading { timestamp, key: Some(identity), rows })
}

/// Reads the request at `position` to a unified account.
pub fn read_unified(
    risk_endpoint: &str,
    balance_endpoint: &str,
    position: usize,
    timestamp: u128,
    url: &str,
    message: &MessageFields,
) -> (r: Result<RequestReading, ZktlsError>)
    ensures
        agrees(
            r,
            unified_reading(
                risk_endpoint@,
                balance_endpoint@,
                position as int,
                timestamp,
                url@,
                message@,
            ),
        ),
{
    if starts_with(url, risk_endpoint) {
        if position % 2 != 0 {
            return Err(ZktlsError::from_code(ZkErrorCode::InvalidRequestOrder));
        }
        let values = match extract(&message.identity) {
            Ok(values) => values,
            Err(e) => {
                return Err(e);
            },
        };
        if values.len() % 2 != 0 {
            return Err(ZktlsError::from_code(ZkErrorCode::InvalidJsonValueSize));
        }
        let reading = RequestReading {
            timestamp,
            key: positions_key_of(values),
            rows: Vec::new(),
        };
        assert(reading@.rows =~= Seq::<BalanceRowView>::empty());
        Ok(reading)
    } else if starts_with(url, balance_endpoint) {
        if position % 2 == 0 {
            return Err(ZktlsError::from_code(ZkErrorCode::InvalidRequestOrder));
        }
        let rows = match read_rows(&message.balances) {
            Ok(rows) => rows,
            Err(e) => {
                return Err(e);
            },
        };
        Ok(RequestReading { timestamp, key: None, rows })
    } else {
        Err(ZktlsError::from_code(ZkErrorCode::InvalidRequestUrl))
    }
}

/// Reads the request at `position` under `rule`.
pub fn read_request(rule: &ProductRule, position: usize, url: &str, message: &MessageFields) -> (r:
    Result<RequestReading, ZktlsError>)
    ensures
        agrees(r, request_reading(rule@, position as int, url@, message@)),
{
    let timestamp = match read_timestamp(url) {
        Ok(timestamp) => timestamp,
        Err(e) => {
            return Err(e);
        },
    };
    match rule {
        ProductRule::Spot { endpoint } => read_spot(
            endpoint.as_str(),
            false,
            timestamp,
            url,
            message,
        ),
        ProductRule::SpotSnapshot { endpoint } => read_spot(
            endpoint.as_str(),
            true,
            timestamp,
            url,
            message,
        ),
        ProductRule::Future { endpoint } => read_future(endpoint.as_str(), timestamp, url, message),
        ProductRule::Unified { risk_endpoint, balance_endpoint } => read_unified(
            risk_endpoint.as_str(),
            balance_endpoint.as_str(),
            position,
            timestamp,
            url,
            message,
        ),
    }
}

} // verus!
