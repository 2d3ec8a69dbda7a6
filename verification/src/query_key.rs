//! Query keys: which derivation is asked for, and with which arguments.

use crate::import_map::ImportMap;
use vstd::prelude::*;

verus! {

/// The identity of one derivation call: the rule and its arguments.
#[derive(Debug)]
pub enum QueryKey {
    /// The bundle for the browser of the source under `source_key`.
    Browser { source_key: String, toolchain_path: String, import_map: ImportMap },
    /// The module for the server of the source under `source_key`.
    Server { source_key: String, toolchain_path: String },
}

/// A query key as plain values. Two query keys are the same key exactly
/// when these are equal: the same rule, the same strings, and import maps
/// that resolve alike.
pub enum QueryKeyView {
    Browser { source_key: Seq<char>, toolchain_path: Seq<char>, import_map: Map<Seq<char>, Seq<char>> },
    Server { source_key: Seq<char>, toolchain_path: Seq<char> },
}

impl QueryKeyView {
    /// The key of the input that the rule compiles.
    pub open spec fn source_key(self) -> Seq<char> {
        match self {
            QueryKeyView::Browser { source_key, .. } => source_key,
            QueryKeyView::Server { source_key, .. } => source_key,
        }
    }
}

impl View for QueryKey {
    type V = QueryKeyView;

    open spec fn view(&self) -> QueryKeyView {
        match self {
            QueryKey::Browser { source_key, toolchain_path, import_map } => QueryKeyView::Browser {
                source_key: source_key@,
                toolchain_path: toolchain_path@,
                import_map: import_map@,
            },
            QueryKey::Server { source_key, toolchain_path } => QueryKeyView::Server {
                source_key: source_key@,
                toolchain_path: toolchain_path@,
            },
        }
    }
}

impl QueryKey {
    /// The key of the input that the rule compiles.
    pub fn source_key(&self) -> (key: &String)
        ensures
            key@ == self@.source_key(),
    {
        match self {
            QueryKey::Browser { source_key, .. } => source_key,
            QueryKey::Server { source_key, .. } => source_key,
        }
    }

    /// Whether `other` names the same derivation call.
    pub fn same_as(&self, other: &QueryKey) -> (b: bool)
        ensures
            b == (self@ == other@),
    {
        match (self, other) {
            (
                QueryKey::Browser { source_key, toolchain_path, import_map },
                QueryKey::Browser { source_key: k, toolchain_path: t, import_map: m },
            ) => *source_key == *k && *toolchain_path == *t && import_map.same_as(m),
            (
                QueryKey::Server { source_key, toolchain_path },
                QueryKey::Server { source_key: k, toolchain_path: t },
            ) => *source_key == *k && *toolchain_path == *t,
            _ => false,
        }
    }
}

impl Clone for QueryKey {
    fn clone(&self) -> (q: QueryKey)
        ensures
            q@ == self@,
    {
        match self {
            QueryKey::Browser { source_key, toolchain_path, import_map } => QueryKey::Browser {
                source_key: source_key.clone(),
                toolchain_path: toolchain_path.clone(),
                import_map: import_map.clone(),
            },
            QueryKey::Server { source_key, toolchain_path } => QueryKey::Server {
                source_key: source_key.clone(),
                toolchain_path: toolchain_path.clone(),
            },
        }
    }
}

} // verus!
