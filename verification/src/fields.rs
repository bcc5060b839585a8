//! What the library is handed of an attested call: the requests that were
//! verified and, for each response message, the answers of the field
//! extractor to the two path queries of the product.

use crate::errors::{Failure, ZkErrorCode, ZktlsError};
use crate::text::{views_of, Text};
use vstd::prelude::*;

verus! {

/// One value that a path query matched.
///
/// `text` is the value as it was found, quotes included. `number` is the
/// same value read as a decimal number and written out again, zero where it
/// reads as none; the library carries it and never computes with it.
#[derive(Debug)]
pub struct FieldValue {
    pub text: String,
    pub number: String,
}

/// The model of a [`FieldValue`].
pub struct FieldValueView {
    pub text: Text,
    pub number: Text,
}

impl View for FieldValue {
    type V = FieldValueView;

    open spec fn view(&self) -> FieldValueView {
        FieldValueView { text: self.text@, number: self.number@ }
    }
}

/// The answer to one query of path expressions on one message: the matched
/// values, column after column, or the reason why the query could not be
/// evaluated.
#[derive(Debug)]
pub enum FieldQuery {
    Found(Vec<FieldValue>),
    Failed(String),
}

/// The model of a [`FieldQuery`].
pub enum FieldQueryView {
    Found(Seq<FieldValueView>),
    Failed(Text),
}

impl View for FieldQuery {
    type V = FieldQueryView;

    open spec fn view(&self) -> FieldQueryView {
        match self {
            FieldQuery::Found(values) => FieldQueryView::Found(views_of(values@)),
            FieldQuery::Failed(reason) => FieldQueryView::Failed(reason@),
        }
    }
}

/// The answers for one response message: to the identity paths of the
/// product and to its balance paths.
#[derive(Debug)]
pub struct MessageFields {
    pub identity: FieldQuery,
    pub balances: FieldQuery,
}

/// The model of a [`MessageFields`].
pub struct MessageFieldsView {
    pub identity: FieldQueryView,
    pub balances: FieldQueryView,
}

impl View for MessageFields {
    type V = MessageFieldsView;

    open spec fn view(&self) -> MessageFieldsView {
        MessageFieldsView { identity: self.identity@, balances: self.balances@ }
    }
}

/// A verified attestation of one call: who attested it, the URLs of the
/// attested requests and, at the same positions, the response messages.
#[derive(Debug)]
pub struct AttestedCall {
    pub task_id: String,
    pub report_tx_hash: String,
    pub attestor: String,
    pub requests: Vec<String>,
    pub messages: Vec<MessageFields>,
}

/// The model of an [`AttestedCall`].
pub struct AttestedCallView {
    pub task_id: Text,
    pub report_tx_hash: Text,
    pub attestor: Text,
    pub requests: Seq<Text>,
    pub messages: Seq<MessageFieldsView>,
}

impl View for AttestedCall {
    type V = AttestedCallView;

    open spec fn view(&self) -> AttestedCallView {
        AttestedCallView {
            task_id: self.task_id@,
            report_tx_hash: self.report_tx_hash@,
            attestor: self.attestor@,
            requests: views_of(self.requests@),
            messages: views_of(self.messages@),
        }
    }
}

/// What the verifier said of one attestation: the verified call, or why it
/// refused.
#[derive(Debug)]
pub enum Verification {
    Verified(AttestedCall),
    Rejected(String),
}

/// The model of a [`Verification`].
pub enum VerificationView {
    Verified(AttestedCallView),
    Rejected(Text),
}

impl View for Verification {
    type V = VerificationView;

    open spec fn view(&self) -> VerificationView {
        match self {
            Verification::Verified(call) => VerificationView::Verified(call@),
            Verification::Rejected(reason) => VerificationView::Rejected(reason@),
        }
    }
}

/// The values of an answered query, or the failure of one that could not be
/// evaluated.
pub open spec fn extracted(query: FieldQueryView) -> Result<Seq<FieldValueView>, Failure> {
    match query {
        FieldQueryView::Found(values) => Ok(values),
        FieldQueryView::Failed(reason) => Err(
            Failure { code: ZkErrorCode::GetJsonValueFail, msg: reason },
        ),
    }
}

/// Hands out the values of an answered query, untouched, and turns a query
/// that could not be evaluated into an error.
pub fn extract(query: &FieldQuery) -> (r: Result<&Vec<FieldValue>, ZktlsError>)
    ensures
        match extracted(query@) {
            Ok(values) => r matches Ok(found) && views_of(found@) == values,
            Err(failure) => r matches Err(e) && e@ == failure,
        },
{
    match query {
        FieldQuery::Found(values) => Ok(values),
        FieldQuery::Failed(reason) => Err(
            ZktlsError::new(ZkErrorCode::GetJsonValueFail, reason.clone()),
        ),
    }
}

} // verus!
