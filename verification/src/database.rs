//! The database: inputs, memo table and compilers in one place, and the
//! query engine that decides what is reused and what is compiled anew.

use crate::error::{answer_view, QueryError, QueryErrorView};
use crate::import_map::ImportMap;
use crate::input_store::{keys_view, InputStore};
use crate::laws::lemma_reusable;
use crate::memo_table::{MemoEntry, MemoTable};
use crate::model::{Run, State};
use crate::query_key::{QueryKey, QueryKeyView};
use crate::revision::Revision;
use crate::rules::{
    browser_accepts, browser_yields, js_for_browser, js_for_server, server_accepts, server_yields,
    Evaluation,
};
use vstd::prelude::*;

verus! {

/// The cache as its callers see it: sources are written, compiled outputs
/// are asked for. What each operation does is said over [`State`].
pub trait Files {
    /// The database is in order. Every operation needs this and keeps it.
    spec fn valid(&self) -> bool;

    /// What the database holds.
    spec fn state(&self) -> State;

    /// A database that is in order holds a coherent state.
    proof fn valid_is_coherent(&self)
        requires
            self.valid(),
        ensures
            self.state().coherent(),
    ;

    /// What the revision clock shows.
    fn current_revision(&self) -> (r: Revision)
        requires
            self.valid(),
        ensures
            r@ == self.state().revision,
    ;

    /// Stores `content` under `key`. The clock advances by one tick, in one
    /// step with the change of the content.
    fn write(&mut self, key: String, content: Vec<u8>)
        requires
            old(self).valid(),
            old(self).state().revision < Revision::limit(),
        ensures
            final(self).valid(),
            final(self).state() == old(self).state().after_write(key@, content@),
    ;

    /// The bytes under `key`, or `MissingInput` where nothing was written
    /// under it.
    fn source(&self, key: &String) -> (r: Result<Vec<u8>, QueryError>)
        requires
            self.valid(),
        ensures
            match r {
                Ok(content) => self.state().inputs.contains_key(key@) && content@
                    == self.state().inputs[key@].content,
                Err(e) => !self.state().inputs.contains_key(key@) && e@
                    == QueryErrorView::MissingInput(key@),
            },
    ;

    /// The value of the derivation that `query_key` names: the cached one
    /// where it is still valid, a newly compiled one where it is not.
    fn query(&mut self, query_key: &QueryKey) -> (r: Result<String, QueryError>)
        requires
            old(self).valid(),
        ensures
            final(self).valid(),
            old(self).state().answers(query_key@, final(self).state(), answer_view(r)),
    ;

    /// The bundle for the browser of the source under `key`.
    fn compiled_for_browser(&mut self, key: String, toolchain_path: String, import_map: ImportMap) -> (r:
        Result<String, QueryError>)
        requires
            old(self).valid(),
        ensures
            final(self).valid(),
            old(self).state().answers(
                (QueryKeyView::Browser {
                    source_key: key@,
                    toolchain_path: toolchain_path@,
                    import_map: import_map@,
                }),
                final(self).state(),
                answer_view(r),
            ),
    ;

    /// The module for the server of the source under `key`.
    fn compiled_for_server(&mut self, key: String, toolchain_path: String) -> (r: Result<
        String,
        QueryError,
    >)
        requires
            old(self).valid(),
        ensures
            final(self).valid(),
            old(self).state().answers(
                (QueryKeyView::Server { source_key: key@, toolchain_path: toolchain_path@ }),
                final(self).state(),
                answer_view(r),
            ),
    ;

    /// Drops every memo entry, so that each query compiles anew.
    fn invalidate_all(&mut self)
        requires
            old(self).valid(),
        ensures
            final(self).valid(),
            final(self).state() == old(self).state().after_reset(),
    ;
}

/// The compiler call that `run` records is one that the compiler for its
/// target allows: called on the arguments of the run, it may end as the
/// run did.
pub open spec fn explained<
    B: Fn(String, String, String, ImportMap) -> Result<String, String>,
    S: Fn(String, String, String) -> Result<String, String>,
>(browser: B, server: S, run: Run) -> bool {
    match run.query {
        QueryKeyView::Browser { source_key, toolchain_path, import_map } => browser_yields(
            browser,
            run.source_text,
            source_key,
            toolchain_path,
            import_map,
            run.outcome,
        ),
        QueryKeyView::Server { source_key, toolchain_path } => server_yields(
            server,
            run.source_text,
            source_key,
            toolchain_path,
            run.outcome,
        ),
    }
}

/// A database over two compilers of the caller's choice: `B` makes the
/// bundle for the browser, `S` the module for the server. The database is
/// an ordinary value; whoever holds it mutably is its one writer.
pub struct SalsaToastDatabaseStruct<B, S> {
    inputs: InputStore,
    memos: MemoTable,
    browser: B,
    server: S,
    runs: Ghost<Seq<Run>>,
}

impl<
    B: Fn(String, String, String, ImportMap) -> Result<String, String>,
    S: Fn(String, String, String) -> Result<String, String>,
> SalsaToastDatabaseStruct<B, S> {
    /// The compiler for the browser.
    pub closed spec fn browser(&self) -> B {
        self.browser
    }

    /// The compiler for the server.
    pub closed spec fn server(&self) -> S {
        self.server
    }

    /// An empty database over the two compilers.
    pub fn new(browser: B, server: S) -> (db: Self)
        requires
            browser_accepts(browser),
            server_accepts(server),
        ensures
            db.valid(),
            db.state() == State::initial(),
            db.browser() == browser,
            db.server() == server,
    {
        SalsaToastDatabaseStruct {
            inputs: InputStore::new(),
            memos: MemoTable::new(),
            browser,
            server,
            runs: Ghost(Seq::empty()),
        }
    }

    /// Every evaluation so far was a call that the compilers allow.
    pub proof fn runs_are_explained(&self, i: int)
        requires
            self.valid(),
            0 <= i < self.state().runs.len(),
        ensures
            explained(self.browser(), self.server(), self.state().runs[i]),
    {
    }

    /// Evaluates the rule body of `query_key` and caches a success.
    fn evaluate(&mut self, query_key: &QueryKey) -> (r: Result<String, QueryError>)
        requires
            old(self).valid(),
            !old(self).state().reusable(query_key@),
        ensures
            final(self).valid(),
            old(self).state().answers(query_key@, final(self).state(), answer_view(r)),
            final(self).browser() == old(self).browser(),
            final(self).server() == old(self).server(),
    {
        let ghost before = self.state();
        let now = self.inputs.current_revision();
        let mut evaluation = Evaluation::new(&self.inputs);
        let result = match query_key {
            QueryKey::Browser { source_key, toolchain_path, import_map } => js_for_browser(
                &mut evaluation,
                &self.browser,
                source_key.clone(),
                toolchain_path.clone(),
                import_map.clone(),
            ),
            QueryKey::Server { source_key, toolchain_path } => js_for_server(
                &mut evaluation,
                &self.server,
                source_key.clone(),
                toolchain_path.clone(),
            ),
        };
        let dependencies = evaluation.into_dependencies();
        let ghost key = query_key@.source_key();
        match result {
            Ok(value) => {
                let ghost run = before.run_of(query_key@, Ok(value@));
                assert(keys_view(dependencies@) =~= seq![key]);
                let entry = MemoEntry {
                    query_key: query_key.clone(),
                    value: value.clone(),
                    verified_at: now,
                    dependencies,
                };
                self.memos.put(entry);
                proof {
                    self.runs@ = self.runs@.push(run);
                    assert(explained(self.browser, self.server, run));
                    let after = self.state();
                    assert(after.runs.last() == run);
                    assert(after == before.after_run(query_key@, Ok(value@)));
                    crate::laws::answer_keeps_coherence(
                        before,
                        query_key@,
                        after,
                        answer_view(Ok(value)),
                    );
                }
                Ok(value)
            },
            Err(e) => {
                proof {
                    match e@ {
                        QueryErrorView::DerivationFailed(_, cause) => {
                            let run = before.run_of(query_key@, Err(cause));
                            self.runs@ = self.runs@.push(run);
                            assert(explained(self.browser, self.server, run));
                            let after = self.state();
                            assert(after.runs.last() == run);
                            assert(after == before.after_run(query_key@, Err(cause)));
                            crate::laws::answer_keeps_coherence(
                                before,
                                query_key@,
                                after,
                                answer_view(Err(e)),
                            );
                        },
                        _ => {
                            assert(self.state() == before);
                        },
                    }
                }
                Err(e)
            },
        }
    }
}

impl<
    B: Fn(String, String, String, ImportMap) -> Result<String, String>,
    S: Fn(String, String, String) -> Result<String, String>,
> Files for SalsaToastDatabaseStruct<B, S> {
    closed spec fn valid(&self) -> bool {
        &&& self.state().coherent()
        &&& browser_accepts(self.browser)
        &&& server_accepts(self.server)
        &&& forall|i: int|
            0 <= i < self.runs@.len() ==> explained(self.browser, self.server, #[trigger] self.runs@[i])
    }

    closed spec fn state(&self) -> State {
        State {
            inputs: self.inputs.contents(),
            revision: self.inputs.revision(),
            memos: self.memos@,
            runs: self.runs@,
        }
    }

    proof fn valid_is_coherent(&self) {
    }

    fn current_revision(&self) -> (r: Revision) {
        self.inputs.current_revision()
    }

    fn write(&mut self, key: String, content: Vec<u8>)
        ensures
            final(self).browser() == old(self).browser(),
            final(self).server() == old(self).server(),
    {
        let ghost before = self.state();
        proof {
            crate::laws::write_keeps_coherence(before, key@, content@);
        }
        self.inputs.write(key, content);
        assert(self.state() == before.after_write(key@, content@));
    }

    fn source(&self, key: &String) -> (r: Result<Vec<u8>, QueryError>) {
        match self.inputs.read(key) {
            Ok(content) => {
                let bytes = content.clone();
                assert(bytes@ =~= content@);
                Ok(bytes)
            },
            Err(e) => Err(e),
        }
    }

    fn query(&mut self, query_key: &QueryKey) -> (r: Result<String, QueryError>)
        ensures
            final(self).browser() == old(self).browser(),
            final(self).server() == old(self).server(),
    {
        let ghost before = self.state();
        let now = self.inputs.current_revision();
        let mut cached: Option<String> = None;
        let mut current: bool = false;
        match self.memos.get(query_key) {
            Some(entry) => {
                proof {
                    lemma_reusable(before, query_key@);
                }
                if entry.verified_at == now {
                    current = true;
                    cached = Some(entry.value.clone());
                } else if self.inputs.unchanged_since(&entry.dependencies, entry.verified_at) {
                    cached = Some(entry.value.clone());
                }
            },
            None => {},
        }
        match cached {
            Some(value) => {
                if !current {
                    self.memos.mark_verified(query_key, now);
                }
                proof {
                    let after = self.state();
                    assert(after.memos =~= before.after_reuse(query_key@).memos);
                    assert(after == before.after_reuse(query_key@));
                    crate::laws::answer_keeps_coherence(
                        before,
                        query_key@,
                        after,
                        answer_view(Ok(value)),
                    );
                }
                Ok(value)
            },
            None => self.evaluate(query_key),
        }
    }

    fn compiled_for_browser(&mut self, key: String, toolchain_path: String, import_map: ImportMap) -> (r:
        Result<String, QueryError>)
        ensures
            final(self).browser() == old(self).browser(),
            final(self).server() == old(self).server(),
    {
        self.query(&QueryKey::Browser { source_key: key, toolchain_path, import_map })
    }

    fn compiled_for_server(&mut self, key: String, toolchain_path: String) -> (r: Result<
        String,
        QueryError,
    >)
        ensures
            final(self).browser() == old(self).browser(),
            final(self).server() == old(self).server(),
    {
        self.query(&QueryKey::Server { source_key: key, toolchain_path })
    }

    fn invalidate_all(&mut self)
        ensures
            final(self).browser() == old(self).browser(),
            final(self).server() == old(self).server(),
    {
        let ghost before = self.state();
        proof {
            crate::laws::reset_keeps_coherence(before);
        }
        self.memos.invalidate_all();
        assert(self.state() == before.after_reset());
    }
}

} // verus!
