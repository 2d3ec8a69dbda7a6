//! What holds of the cache whatever is written and asked, proved from the
//! state machine that the database implements.

use crate::error::QueryErrorView;
use crate::input_store::{unchanged_since, InputView};
use crate::model::{answer_of, Run, State};
use crate::query_key::QueryKeyView;
use vstd::prelude::*;
use vstd::utf8::{decode_utf8, valid_utf8};

verus! {

/// The compiler has behaved as a function of its arguments: wherever it
/// was called twice for the same query on the same text, it ended the
/// same way.
pub open spec fn deterministic(runs: Seq<Run>) -> bool {
    forall|i: int, j: int|
        0 <= i < runs.len() && 0 <= j < runs.len() && (#[trigger] runs[i]).query == (
        #[trigger] runs[j]).query && runs[i].source_text == runs[j].source_text ==> runs[i].outcome
            == runs[j].outcome
}

/// An entry that depends on one input can be reused exactly when that
/// input exists and was last written no later than the entry was found
/// valid.
pub proof fn lemma_one_dependency(inputs: Map<Seq<char>, InputView>, key: Seq<char>, at: nat)
    ensures
        unchanged_since(inputs, seq![key], at) <==> inputs.contains_key(key) && inputs[key].revision
            <= at,
{
    let keys = seq![key];
    assert(keys[0] == key);
    if inputs.contains_key(key) && inputs[key].revision <= at {
        assert forall|i: int| 0 <= i < keys.len() implies inputs.contains_key(#[trigger] keys[i])
            && inputs[keys[i]].revision <= at by {
            assert(keys[i] == key);
        }
    }
}

/// In a coherent database, an entry can be reused exactly when its source
/// was last written no later than the entry was found valid.
pub proof fn lemma_reusable(s: State, query: QueryKeyView)
    requires
        s.coherent(),
        s.memos.contains_key(query),
    ensures
        s.reusable(query) <==> s.inputs[query.source_key()].revision <= s.memos[query].verified_at,
{
    lemma_one_dependency(s.inputs, query.source_key(), s.memos[query].verified_at);
}

/// A database that nothing has happened to is coherent.
pub proof fn initial_is_coherent()
    ensures
        State::initial().coherent(),
{
}

/// A write keeps the database coherent.
pub proof fn write_keeps_coherence(s: State, key: Seq<char>, content: Seq<u8>)
    requires
        s.coherent(),
    ensures
        s.after_write(key, content).coherent(),
{
    let t = s.after_write(key, content);
    assert forall|query: QueryKeyView| #[trigger] t.memos.contains_key(query) implies {
        &&& t.memos[query].verified_at <= t.revision
        &&& t.memos[query].dependencies == seq![query.source_key()]
        &&& t.inputs.contains_key(query.source_key())
        &&& t.reusable(query) ==> {
            &&& valid_utf8(t.inputs[query.source_key()].content)
            &&& t.runs.contains(t.run_of(query, Ok(t.memos[query].value)))
        }
    } by {
        assert(s.memos.contains_key(query));
        lemma_one_dependency(s.inputs, query.source_key(), s.memos[query].verified_at);
        lemma_one_dependency(t.inputs, query.source_key(), t.memos[query].verified_at);
    }
}

/// A query keeps the database coherent, however it is answered.
pub proof fn answer_keeps_coherence(
    s: State,
    query: QueryKeyView,
    after: State,
    answer: Result<Seq<char>, QueryErrorView>,
)
    requires
        s.coherent(),
        s.answers(query, after, answer),
    ensures
        after.coherent(),
{
    let key = query.source_key();
    if s.reusable(query) {
        assert forall|q: QueryKeyView| #[trigger] after.memos.contains_key(q) implies {
            &&& after.memos[q].verified_at <= after.revision
            &&& after.memos[q].dependencies == seq![q.source_key()]
            &&& after.inputs.contains_key(q.source_key())
            &&& after.reusable(q) ==> {
                &&& valid_utf8(after.inputs[q.source_key()].content)
                &&& after.runs.contains(after.run_of(q, Ok(after.memos[q].value)))
            }
        } by {
            assert(s.memos.contains_key(q));
            if q != query {
                assert(after.memos[q] == s.memos[q]);
            }
        }
    } else if !s.inputs.contains_key(key) {
    } else if !valid_utf8(s.inputs[key].content) {
    } else {
        let outcome = after.runs.last().outcome;
        let run = s.run_of(query, outcome);
        assert(after.runs == s.runs.push(run));
        assert forall|q: QueryKeyView| #[trigger] after.memos.contains_key(q) implies {
            &&& after.memos[q].verified_at <= after.revision
            &&& after.memos[q].dependencies == seq![q.source_key()]
            &&& after.inputs.contains_key(q.source_key())
            &&& after.reusable(q) ==> {
                &&& valid_utf8(after.inputs[q.source_key()].content)
                &&& after.runs.contains(after.run_of(q, Ok(after.memos[q].value)))
            }
        } by {
            if q == query && outcome is Ok {
                assert(after.runs[s.runs.len() as int] == run);
            } else {
                assert(s.memos.contains_key(q));
                assert(after.memos[q] == s.memos[q]);
                if after.reusable(q) {
                    assert(s.reusable(q));
                    let old_run = s.run_of(q, Ok(s.memos[q].value));
                    let i = choose|i: int| 0 <= i < s.runs.len() && s.runs[i] == old_run;
                    assert(after.runs[i] == old_run);
                }
            }
        }
    }
}

/// Dropping every memo entry keeps the database coherent.
pub proof fn reset_keeps_coherence(s: State)
    requires
        s.coherent(),
    ensures
        s.after_reset().coherent(),
{
}

/// A write advances the clock by exactly one tick and stamps the entry it
/// wrote with the new revision; a query leaves both the clock and the
/// inputs alone. So a revision, once shown, is never shown again.
pub proof fn only_writes_advance_the_clock(
    s: State,
    key: Seq<char>,
    content: Seq<u8>,
    query: QueryKeyView,
    after: State,
    answer: Result<Seq<char>, QueryErrorView>,
)
    requires
        s.answers(query, after, answer),
    ensures
        s.after_write(key, content).revision == s.revision + 1,
        s.after_write(key, content).inputs[key].revision == s.revision + 1,
        s.after_write(key, content).inputs[key].content == content,
        after.revision == s.revision,
        after.inputs == s.inputs,
{
}

/// An entry found valid at the current revision holds what the compiler
/// returned for the text that its input holds now.
pub proof fn verified_entry_matches_inputs(s: State, query: QueryKeyView)
    requires
        s.coherent(),
        s.verified_now(query),
    ensures
        s.reusable(query),
        valid_utf8(s.inputs[query.source_key()].content),
        s.runs.contains(
            Run {
                query,
                source_text: decode_utf8(s.inputs[query.source_key()].content),
                outcome: Ok(s.memos[query].value),
            },
        ),
{
    lemma_reusable(s, query);
}

/// A value that a query returns is what the compiler returned for the
/// text that the input holds at that moment: never one computed from
/// content that has since been replaced.
pub proof fn answer_is_never_stale(
    s: State,
    query: QueryKeyView,
    after: State,
    output: Seq<char>,
)
    requires
        s.coherent(),
        s.answers(query, after, Ok(output)),
    ensures
        after.verified_now(query),
        after.memos[query].value == output,
        s.inputs.contains_key(query.source_key()),
        valid_utf8(s.inputs[query.source_key()].content),
        after.runs.contains(
            Run {
                query,
                source_text: decode_utf8(s.inputs[query.source_key()].content),
                outcome: Ok(output),
            },
        ),
{
    answer_keeps_coherence(s, query, after, Ok(output));
    assert(after.verified_now(query));
    verified_entry_matches_inputs(after, query);
}

/// A failure is not cached: the memo table is as it was before the query.
pub proof fn failure_is_not_cached(
    s: State,
    query: QueryKeyView,
    after: State,
    error: QueryErrorView,
)
    requires
        s.coherent(),
        s.answers(query, after, Err(error)),
    ensures
        after.memos == s.memos,
        !after.reusable(query),
        error is MissingInput <==> !s.inputs.contains_key(query.source_key()),
        error is InvalidEncoding <==> s.inputs.contains_key(query.source_key()) && !valid_utf8(
            s.inputs[query.source_key()].content,
        ),
        !(error is CyclicDependency),
{
}

/// Determinism. Of two queries for the same key, the second made when the
/// input holds the same content as at the first: if the compiler behaves
/// as a function of its arguments, both return the same output.
pub proof fn same_content_same_output(
    first: State,
    after_first: State,
    second: State,
    after_second: State,
    query: QueryKeyView,
    a: Seq<char>,
    b: Seq<char>,
)
    requires
        first.coherent(),
        first.answers(query, after_first, Ok(a)),
        second.coherent(),
        second.answers(query, after_second, Ok(b)),
        after_first.runs.is_prefix_of(after_second.runs),
        first.inputs[query.source_key()].content == second.inputs[query.source_key()].content,
        deterministic(after_second.runs),
    ensures
        a == b,
{
    answer_is_never_stale(first, query, after_first, a);
    answer_is_never_stale(second, query, after_second, b);
    let text = decode_utf8(first.inputs[query.source_key()].content);
    let run_a = Run { query, source_text: text, outcome: Ok(a) };
    let run_b = Run { query, source_text: text, outcome: Ok(b) };
    let i = choose|i: int| 0 <= i < after_first.runs.len() && after_first.runs[i] == run_a;
    let j = choose|j: int| 0 <= j < after_second.runs.len() && after_second.runs[j] == run_b;
    assert(after_second.runs[i] == run_a);
    assert(after_second.runs[j] == run_b);
}

/// Idempotent reads. After a query has returned a value, the same query,
/// with no write in between, returns that value again without evaluating
/// a rule body, and leaves the database as it was. The two queries
/// together evaluate the rule body at most once, and exactly once where
/// the first one found nothing to reuse.
pub proof fn second_query_is_a_hit(
    s: State,
    query: QueryKeyView,
    mid: State,
    output: Seq<char>,
    after: State,
    again: Result<Seq<char>, QueryErrorView>,
)
    requires
        s.coherent(),
        s.answers(query, mid, Ok(output)),
        mid.answers(query, after, again),
    ensures
        again == Ok::<Seq<char>, QueryErrorView>(output),
        after == mid,
        s.reusable(query) ==> mid.runs == s.runs,
        !s.reusable(query) ==> mid.runs.len() == s.runs.len() + 1,
{
    answer_is_never_stale(s, query, mid, output);
    assert(mid.memos.insert(query, mid.memos[query]) =~= mid.memos);
}

/// Cache correctness. The first query for a key after its source was
/// written does not reuse what was cached: where the new content is text,
/// it calls the compiler exactly once, on the new text, and returns what
/// that call returned.
pub proof fn write_is_seen_by_next_query(
    s: State,
    key: Seq<char>,
    content: Seq<u8>,
    query: QueryKeyView,
    after: State,
    answer: Result<Seq<char>, QueryErrorView>,
)
    requires
        s.coherent(),
        query.source_key() == key,
        s.after_write(key, content).answers(query, after, answer),
    ensures
        !valid_utf8(content) ==> answer == Err::<Seq<char>, QueryErrorView>(
            QueryErrorView::InvalidEncoding(key),
        ) && after == s.after_write(key, content),
        valid_utf8(content) ==> after.runs.len() == s.runs.len() + 1 && after.runs.drop_last()
            == s.runs && after.runs.last().query == query && after.runs.last().source_text
            == decode_utf8(content) && answer == answer_of(query, after.runs.last().outcome),
{
    let t = s.after_write(key, content);
    write_keeps_coherence(s, key, content);
    if t.memos.contains_key(query) {
        lemma_reusable(t, query);
    }
    if valid_utf8(content) {
        assert(after.runs.drop_last() =~= s.runs);
    }
}

/// Early cutoff. A write to another key leaves an entry reusable: the
/// next query for it re-checks the one input the entry depends on, finds
/// it unchanged, and returns the cached value without evaluating a rule
/// body. Every entry depends on its source directly, so there is no
/// derivation further downstream that a write could reach.
pub proof fn other_write_costs_no_evaluation(
    s: State,
    key: Seq<char>,
    content: Seq<u8>,
    query: QueryKeyView,
    after: State,
    answer: Result<Seq<char>, QueryErrorView>,
)
    requires
        s.coherent(),
        s.reusable(query),
        query.source_key() != key,
        s.after_write(key, content).answers(query, after, answer),
    ensures
        s.memos[query].dependencies == seq![query.source_key()],
        answer == Ok::<Seq<char>, QueryErrorView>(s.memos[query].value),
        after.runs == s.runs,
        after.verified_now(query),
{
    let t = s.after_write(key, content);
    write_keeps_coherence(s, key, content);
    lemma_reusable(s, query);
    lemma_reusable(t, query);
}

} // verus!
