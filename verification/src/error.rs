//! What a query can fail with.

use crate::query_key::{QueryKey, QueryKeyView};
use vstd::prelude::*;

verus! {

/// The ways in which a query fails. No failure is cached: the next query
/// for the same key starts from scratch.
#[derive(Debug)]
pub enum QueryError {
    /// A derivation read an input that was never written.
    MissingInput(String),
    /// The content under this key is not well-formed UTF-8 text.
    InvalidEncoding(String),
    /// The compiler failed on this query, for the cause given.
    DerivationFailed(QueryKey, String),
    /// A derivation asked, directly or not, for its own result; the chain
    /// of query keys leads from the query back to itself.
    CyclicDependency(Vec<QueryKey>),
}

/// A query error as plain values.
pub enum QueryErrorView {
    MissingInput(Seq<char>),
    InvalidEncoding(Seq<char>),
    DerivationFailed(QueryKeyView, Seq<char>),
    CyclicDependency(Seq<QueryKeyView>),
}

impl View for QueryError {
    type V = QueryErrorView;

    open spec fn view(&self) -> QueryErrorView {
        match self {
            QueryError::MissingInput(key) => QueryErrorView::MissingInput(key@),
            QueryError::InvalidEncoding(key) => QueryErrorView::InvalidEncoding(key@),
            QueryError::DerivationFailed(query, cause) => QueryErrorView::DerivationFailed(
                query@,
                cause@,
            ),
            QueryError::CyclicDependency(chain) => QueryErrorView::CyclicDependency(
                Seq::new(chain@.len(), |i: int| chain@[i]@),
            ),
        }
    }
}

/// The result of a query as plain values.
pub open spec fn answer_view(r: Result<String, QueryError>) -> Result<Seq<char>, QueryErrorView> {
    match r {
        Ok(text) => Ok(text@),
        Err(e) => Err(e@),
    }
}

} // verus!
