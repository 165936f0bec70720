//! The errors of the collector and of the dependency provider.
//!
//! Both keep the text they were made with. A failure of the transport is
//! handed to the library as text and comes back unchanged inside `Internal`
//! (collector) or `Other` (provider).

use vstd::prelude::*;
use vstd::string::StringExecFns;

verus! {

/// Why a collection, or the sync check before it, failed.
#[derive(Debug, PartialEq, Eq)]
pub enum CellCollectorError {
    /// A service could not be reached or answered with an error.
    Internal(String),
    /// The services answered, and the answer rules the operation out.
    Other(String),
}

pub enum CellCollectorErrorView {
    Internal(Seq<char>),
    Other(Seq<char>),
}

impl View for CellCollectorError {
    type V = CellCollectorErrorView;

    open spec fn view(&self) -> CellCollectorErrorView {
        match self {
            CellCollectorError::Internal(text) => CellCollectorErrorView::Internal(text@),
            CellCollectorError::Other(text) => CellCollectorErrorView::Other(text@),
        }
    }
}

impl CellCollectorError {
    /// The text of the error.
    pub fn message(&self) -> (text: String)
        ensures
            self@ == CellCollectorErrorView::Internal(text@) || self@
                == CellCollectorErrorView::Other(text@),
    {
        match self {
            CellCollectorError::Internal(text) => text.clone(),
            CellCollectorError::Other(text) => text.clone(),
        }
    }
}

/// The index service has no tip at all.
pub open spec fn index_not_synced_text() -> Seq<char> {
    "ckb-indexer server not synced"@
}

/// The index service disagrees with the node, or stayed behind it for all
/// attempts.
pub open spec fn index_inconsistent_text() -> Seq<char> {
    "ckb-indexer server inconsistent with currently connected ckb node or not synced!"@
}

/// The capacities of the cells taken add up to more than a `u64` holds.
pub open spec fn capacity_overflow_text() -> Seq<char> {
    "total capacity of the collected cells overflows"@
}

pub fn index_not_synced() -> (e: CellCollectorError)
    ensures
        e@ == CellCollectorErrorView::Other(index_not_synced_text()),
{
    CellCollectorError::Other("ckb-indexer server not synced".to_owned())
}

pub fn index_inconsistent() -> (e: CellCollectorError)
    ensures
        e@ == CellCollectorErrorView::Other(index_inconsistent_text()),
{
    CellCollectorError::Other(
        "ckb-indexer server inconsistent with currently connected ckb node or not synced!".to_owned(),
    )
}

pub fn capacity_overflow() -> (e: CellCollectorError)
    ensures
        e@ == CellCollectorErrorView::Other(capacity_overflow_text()),
{
    CellCollectorError::Other("total capacity of the collected cells overflows".to_owned())
}

/// Why the dependency provider could not hand out what was asked for.
#[derive(Debug, PartialEq, Eq)]
pub enum TransactionDependencyError {
    /// The node has no such item; the text names its kind.
    NotFound(String),
    /// The item is not in the state required, or the node could not be
    /// reached.
    Other(String),
}

pub enum TransactionDependencyErrorView {
    NotFound(Seq<char>),
    Other(Seq<char>),
}

impl View for TransactionDependencyError {
    type V = TransactionDependencyErrorView;

    open spec fn view(&self) -> TransactionDependencyErrorView {
        match self {
            TransactionDependencyError::NotFound(text) => TransactionDependencyErrorView::NotFound(
                text@,
            ),
            TransactionDependencyError::Other(text) => TransactionDependencyErrorView::Other(text@),
        }
    }
}

impl TransactionDependencyError {
    /// The text of the error.
    pub fn message(&self) -> (text: String)
        ensures
            self@ == TransactionDependencyErrorView::NotFound(text@) || self@
                == TransactionDependencyErrorView::Other(text@),
    {
        match self {
            TransactionDependencyError::NotFound(text) => text.clone(),
            TransactionDependencyError::Other(text) => text.clone(),
        }
    }
}

/// The kind named when the node has no such transaction.
pub open spec fn transaction_kind_text() -> Seq<char> {
    "transaction"@
}

/// The kind named when the node has no such header.
pub open spec fn header_kind_text() -> Seq<char> {
    "header"@
}

/// The text for a cell that the node does not report as live: a fixed
/// opening and the status that the node gave.
pub open spec fn invalid_cell_status_text(status: Seq<char>) -> Seq<char> {
    "invalid cell status: "@ + status
}

/// The text for a transaction that is not committed: a fixed opening and
/// the name of the status.
pub open spec fn invalid_transaction_status_text(status: Seq<char>) -> Seq<char> {
    "invalid transaction status: "@ + status
}

pub fn transaction_not_found() -> (e: TransactionDependencyError)
    ensures
        e@ == TransactionDependencyErrorView::NotFound(transaction_kind_text()),
{
    TransactionDependencyError::NotFound("transaction".to_owned())
}

pub fn header_not_found() -> (e: TransactionDependencyError)
    ensures
        e@ == TransactionDependencyErrorView::NotFound(header_kind_text()),
{
    TransactionDependencyError::NotFound("header".to_owned())
}

pub fn invalid_cell_status(status: &str) -> (e: TransactionDependencyError)
    ensures
        e@ == TransactionDependencyErrorView::Other(invalid_cell_status_text(status@)),
{
    let text = "invalid cell status: ".to_owned().concat(status);
    TransactionDependencyError::Other(text)
}

pub fn invalid_transaction_status(status: &str) -> (e: TransactionDependencyError)
    ensures
        e@ == TransactionDependencyErrorView::Other(invalid_transaction_status_text(status@)),
{
    let text = "invalid transaction status: ".to_owned().concat(status);
    TransactionDependencyError::Other(text)
}

} // verus!
