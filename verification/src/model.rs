//! The cache as a state machine over plain values: what a database holds,
//! what a write does to it, and what a query answers and leaves behind.

use crate::error::QueryErrorView;
use crate::input_store::{unchanged_since, InputView};
use crate::memo_table::MemoView;
use crate::query_key::QueryKeyView;
use vstd::prelude::*;
use vstd::utf8::{decode_utf8, valid_utf8};

verus! {

/// One evaluation of a rule body: the compiler was called for `query` on
/// `source_text`, and this is how the call ended.
pub struct Run {
    pub query: QueryKeyView,
    pub source_text: Seq<char>,
    pub outcome: Result<Seq<char>, Seq<char>>,
}

/// What a database holds: the inputs with the revision of each, the
/// revision clock, the memo entries, and every evaluation of a rule body
/// so far, oldest first.
pub struct State {
    pub inputs: Map<Seq<char>, InputView>,
    pub revision: nat,
    pub memos: Map<QueryKeyView, MemoView>,
    pub runs: Seq<Run>,
}

/// What a query returns, given how the compiler call ended.
pub open spec fn answer_of(query: QueryKeyView, outcome: Result<Seq<char>, Seq<char>>) -> Result<
    Seq<char>,
    QueryErrorView,
> {
    match outcome {
        Ok(output) => Ok(output),
        Err(cause) => Err(QueryErrorView::DerivationFailed(query, cause)),
    }
}

impl State {
    /// A database to which nothing was written and of which nothing was
    /// asked.
    pub open spec fn initial() -> State {
        State { inputs: Map::empty(), revision: 0, memos: Map::empty(), runs: Seq::empty() }
    }

    /// The text under `key`, where the content is well-formed.
    pub open spec fn text_of(self, key: Seq<char>) -> Seq<char> {
        decode_utf8(self.inputs[key].content)
    }

    /// The evaluation of `query` on the text that its input holds now,
    /// with the given outcome.
    pub open spec fn run_of(self, query: QueryKeyView, outcome: Result<Seq<char>, Seq<char>>) -> Run {
        Run { query, source_text: self.text_of(query.source_key()), outcome }
    }

    /// The entry of `query` can be reused: it exists, and none of the
    /// inputs that it read was written after the entry was last found
    /// valid.
    pub open spec fn reusable(self, query: QueryKeyView) -> bool {
        self.memos.contains_key(query) && unchanged_since(
            self.inputs,
            self.memos[query].dependencies,
            self.memos[query].verified_at,
        )
    }

    /// The entry of `query` was computed or found valid at the current
    /// revision.
    pub open spec fn verified_now(self, query: QueryKeyView) -> bool {
        self.memos.contains_key(query) && self.memos[query].verified_at == self.revision
    }

    /// What holds of every database between two operations.
    pub open spec fn coherent(self) -> bool {
        &&& forall|key: Seq<char>| #[trigger]
            self.inputs.contains_key(key) ==> self.inputs[key].revision <= self.revision
        &&& forall|query: QueryKeyView| #[trigger]
            self.memos.contains_key(query) ==> {
                &&& self.memos[query].verified_at <= self.revision
                &&& self.memos[query].dependencies == seq![query.source_key()]
                &&& self.inputs.contains_key(query.source_key())
                &&& self.reusable(query) ==> {
                    &&& valid_utf8(self.inputs[query.source_key()].content)
                    &&& self.runs.contains(self.run_of(query, Ok(self.memos[query].value)))
                }
            }
    }

    /// The database after `content` was written under `key`.
    pub open spec fn after_write(self, key: Seq<char>, content: Seq<u8>) -> State {
        State {
            inputs: self.inputs.insert(key, InputView { content, revision: self.revision + 1 }),
            revision: self.revision + 1,
            ..self
        }
    }

    /// The database after the entry of `query` was found valid and marked
    /// so.
    pub open spec fn after_reuse(self, query: QueryKeyView) -> State {
        State {
            memos: self.memos.insert(
                query,
                MemoView { verified_at: self.revision, ..self.memos[query] },
            ),
            ..self
        }
    }

    /// The database after the rule body of `query` was evaluated and the
    /// compiler call ended with `outcome`. Only a success is cached.
    pub open spec fn after_run(self, query: QueryKeyView, outcome: Result<Seq<char>, Seq<char>>) -> State {
        State {
            memos: match outcome {
                Ok(output) => self.memos.insert(
                    query,
                    MemoView {
                        value: output,
                        verified_at: self.revision,
                        dependencies: seq![query.source_key()],
                    },
                ),
                Err(_) => self.memos,
            },
            runs: self.runs.push(self.run_of(query, outcome)),
            ..self
        }
    }

    /// The database after every memo entry was dropped.
    pub open spec fn after_reset(self) -> State {
        State { memos: Map::empty(), ..self }
    }

    /// A query for `query` on this database may leave `after` behind and
    /// return `answer`.
    ///
    /// An entry that can be reused is marked valid and its value returned;
    /// no rule body is evaluated. Otherwise the rule body is evaluated: it
    /// fails without a compiler call where the input is missing or is not
    /// text, and else calls the compiler once, on the text that the input
    /// holds now.
    pub open spec fn answers(
        self,
        query: QueryKeyView,
        after: State,
        answer: Result<Seq<char>, QueryErrorView>,
    ) -> bool {
        let key = query.source_key();
        if self.reusable(query) {
            after == self.after_reuse(query) && answer == Ok::<Seq<char>, QueryErrorView>(
                self.memos[query].value,
            )
        } else if !self.inputs.contains_key(key) {
            after == self && answer == Err::<Seq<char>, QueryErrorView>(
                QueryErrorView::MissingInput(key),
            )
        } else if !valid_utf8(self.inputs[key].content) {
            after == self && answer == Err::<Seq<char>, QueryErrorView>(
                QueryErrorView::InvalidEncoding(key),
            )
        } else {
            after.runs.len() == self.runs.len() + 1 && after == self.after_run(
                query,
                after.runs.last().outcome,
            ) && answer == answer_of(query, after.runs.last().outcome)
        }
    }
}

} // verus!
