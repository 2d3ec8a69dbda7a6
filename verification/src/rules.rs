//! The derivation rules: how the bundle for the browser and the module for
//! the server are made from a source artifact.
//!
//! A rule body reads its input through an [`Evaluation`], which records
//! the read, decodes the bytes as text, and hands the text to the compiler
//! for its target. The compilers are the caller's: any function with the
//! right signature that can be called on every argument.

use crate::error::{QueryError, QueryErrorView};
use crate::import_map::ImportMap;
use crate::input_store::{keys_view, InputStore, InputView};
use crate::query_key::QueryKeyView;
use crate::text::decode_text;
use vstd::prelude::*;
use vstd::utf8::{decode_utf8, valid_utf8};

verus! {

/// How a compiler call ended, as plain values.
pub open spec fn outcome_view(r: Result<String, String>) -> Result<Seq<char>, Seq<char>> {
    match r {
        Ok(output) => Ok(output@),
        Err(cause) => Err(cause@),
    }
}

/// The compiler for the browser can be called on every argument.
pub open spec fn browser_accepts<B: Fn(String, String, String, ImportMap) -> Result<String, String>>(
    compile: B,
) -> bool {
    forall|text: String, key: String, toolchain_path: String, import_map: ImportMap|
        call_requires(compile, (text, key, toolchain_path, import_map))
}

/// The compiler for the server can be called on every argument.
pub open spec fn server_accepts<S: Fn(String, String, String) -> Result<String, String>>(
    compile: S,
) -> bool {
    forall|text: String, key: String, toolchain_path: String|
        call_requires(compile, (text, key, toolchain_path))
}

/// The compiler for the browser, called on these arguments, may end with
/// `outcome`: its own contract allows it.
pub open spec fn browser_yields<B: Fn(String, String, String, ImportMap) -> Result<String, String>>(
    compile: B,
    text: Seq<char>,
    key: Seq<char>,
    toolchain_path: Seq<char>,
    import_map: Map<Seq<char>, Seq<char>>,
    outcome: Result<Seq<char>, Seq<char>>,
) -> bool {
    exists|t: String, k: String, p: String, m: ImportMap, r: Result<String, String>| #[trigger]
        call_ensures(compile, (t, k, p, m), r) && t@ == text && k@ == key && p@ == toolchain_path
            && m@ == import_map && outcome_view(r) == outcome
}

/// The compiler for the server, called on these arguments, may end with
/// `outcome`: its own contract allows it.
pub open spec fn server_yields<S: Fn(String, String, String) -> Result<String, String>>(
    compile: S,
    text: Seq<char>,
    key: Seq<char>,
    toolchain_path: Seq<char>,
    outcome: Result<Seq<char>, Seq<char>>,
) -> bool {
    exists|t: String, k: String, p: String, r: Result<String, String>| #[trigger]
        call_ensures(compile, (t, k, p), r) && t@ == text && k@ == key && p@ == toolchain_path
            && outcome_view(r) == outcome
}

/// One evaluation of a rule body in progress: the inputs it may read, and
/// the keys of those it has read so far.
pub struct Evaluation<'a> {
    inputs: &'a InputStore,
    dependencies: Vec<String>,
}

impl<'a> Evaluation<'a> {
    /// The inputs that the rule body may read.
    pub closed spec fn inputs(&self) -> Map<Seq<char>, InputView> {
        self.inputs.contents()
    }

    /// The keys of the inputs read so far, in the order of the reads.
    pub closed spec fn reads(&self) -> Seq<Seq<char>> {
        keys_view(self.dependencies@)
    }

    /// An evaluation that has read nothing yet.
    pub fn new(inputs: &'a InputStore) -> (evaluation: Evaluation<'a>)
        ensures
            evaluation.inputs() == inputs.contents(),
            evaluation.reads() == Seq::<Seq<char>>::empty(),
    {
        let evaluation = Evaluation { inputs, dependencies: Vec::new() };
        assert(evaluation.reads() =~= Seq::<Seq<char>>::empty());
        evaluation
    }

    /// The bytes under `key`, with the read recorded as a dependency. A
    /// key that was never written gives `MissingInput`, and nothing is
    /// recorded.
    pub fn source(&mut self, key: &String) -> (r: Result<Vec<u8>, QueryError>)
        ensures
            final(self).inputs() == old(self).inputs(),
            match r {
                Ok(content) => old(self).inputs().contains_key(key@) && content@ == old(
                    self,
                ).inputs()[key@].content && final(self).reads() == old(self).reads().push(key@),
                Err(e) => !old(self).inputs().contains_key(key@) && e@
                    == QueryErrorView::MissingInput(key@) && final(self).reads() == old(
                    self,
                ).reads(),
            },
    {
        match self.inputs.read(key) {
            Ok(content) => {
                let bytes = content.clone();
                self.dependencies.push(key.clone());
                assert(self.reads() =~= old(self).reads().push(key@));
                assert(bytes@ =~= content@);
                Ok(bytes)
            },
            Err(e) => Err(e),
        }
    }

    /// Ends the evaluation and hands out the dependencies it recorded.
    pub fn into_dependencies(self) -> (dependencies: Vec<String>)
        ensures
            keys_view(dependencies@) == self.reads(),
    {
        self.dependencies
    }
}

/// The rule for the browser: reads the source under `key`, decodes it as
/// text, and has `compile` make the bundle, with `import_map` to rewrite
/// the import statements.
///
/// A missing source gives `MissingInput`, content that is not UTF-8 gives
/// `InvalidEncoding`, and a failure of the compiler gives
/// `DerivationFailed` with the compiler's cause; else the compiler's
/// output is returned as it came.
pub fn js_for_browser<B: Fn(String, String, String, ImportMap) -> Result<String, String>>(
    db: &mut Evaluation,
    compile: &B,
    key: String,
    toolchain_path: String,
    import_map: ImportMap,
) -> (r: Result<String, QueryError>)
    requires
        browser_accepts(*compile),
    ensures
        final(db).inputs() == old(db).inputs(),
        old(db).inputs().contains_key(key@) ==> final(db).reads() == old(db).reads().push(key@),
        !old(db).inputs().contains_key(key@) ==> final(db).reads() == old(db).reads(),
        match r {
            Ok(output) => old(db).inputs().contains_key(key@) && valid_utf8(
                old(db).inputs()[key@].content,
            ) && browser_yields(
                *compile,
                decode_utf8(old(db).inputs()[key@].content),
                key@,
                toolchain_path@,
                import_map@,
                Ok(output@),
            ),
            Err(QueryError::MissingInput(k)) => k@ == key@ && !old(db).inputs().contains_key(key@),
            Err(QueryError::InvalidEncoding(k)) => k@ == key@ && old(db).inputs().contains_key(key@)
                && !valid_utf8(old(db).inputs()[key@].content),
            Err(QueryError::DerivationFailed(query, cause)) => query@ == (QueryKeyView::Browser {
                source_key: key@,
                toolchain_path: toolchain_path@,
                import_map: import_map@,
            }) && old(db).inputs().contains_key(key@) && valid_utf8(
                old(db).inputs()[key@].content,
            ) && browser_yields(
                *compile,
                decode_utf8(old(db).inputs()[key@].content),
                key@,
                toolchain_path@,
                import_map@,
                Err(cause@),
            ),
            Err(QueryError::CyclicDependency(_)) => false,
        },
{
    let content = match db.source(&key) {
        Ok(content) => content,
        Err(e) => {
            return Err(e);
        },
    };
    let text = match decode_text(&key, content) {
        Ok(text) => text,
        Err(e) => {
            return Err(e);
        },
    };
    let query = crate::query_key::QueryKey::Browser {
        source_key: key.clone(),
        toolchain_path: toolchain_path.clone(),
        import_map: import_map.clone(),
    };
    match compile(text, key, toolchain_path, import_map) {
        Ok(output) => {
            assert(outcome_view(Ok::<String, String>(output)) == Ok::<Seq<char>, Seq<char>>(
                output@,
            ));
            Ok(output)
        },
        Err(cause) => {
            assert(outcome_view(Err::<String, String>(cause)) == Err::<Seq<char>, Seq<char>>(
                cause@,
            ));
            Err(QueryError::DerivationFailed(query, cause))
        },
    }
}

/// The rule for the server: reads the source under `key`, decodes it as
/// text, and has `compile` make the module. Imports are resolved by the
/// server's own rules, so no import map is taken.
///
/// A missing source gives `MissingInput`, content that is not UTF-8 gives
/// `InvalidEncoding`, and a failure of the compiler gives
/// `DerivationFailed` with the compiler's cause; else the compiler's
/// output is returned as it came.
pub fn js_for_server<S: Fn(String, String, String) -> Result<String, String>>(
    db: &mut Evaluation,
    compile: &S,
    key: String,
    toolchain_path: String,
) -> (r: Result<String, QueryError>)
    requires
        server_accepts(*compile),
    ensures
        final(db).inputs() == old(db).inputs(),
        old(db).inputs().contains_key(key@) ==> final(db).reads() == old(db).reads().push(key@),
        !old(db).inputs().contains_key(key@) ==> final(db).reads() == old(db).reads(),
        match r {
            Ok(output) => old(db).inputs().contains_key(key@) && valid_utf8(
                old(db).inputs()[key@].content,
            ) && server_yields(
                *compile,
                decode_utf8(old(db).inputs()[key@].content),
                key@,
                toolchain_path@,
                Ok(output@),
            ),
            Err(QueryError::MissingInput(k)) => k@ == key@ && !old(db).inputs().contains_key(key@),
            Err(QueryError::InvalidEncoding(k)) => k@ == key@ && old(db).inputs().contains_key(key@)
                && !valid_utf8(old(db).inputs()[key@].content),
            Err(QueryError::DerivationFailed(query, cause)) => query@ == (QueryKeyView::Server {
                source_key: key@,
                toolchain_path: toolchain_path@,
            }) && old(db).inputs().contains_key(key@) && valid_utf8(
                old(db).inputs()[key@].content,
            ) && server_yields(
                *compile,
                decode_utf8(old(db).inputs()[key@].content),
                key@,
                toolchain_path@,
                Err(cause@),
            ),
            Err(QueryError::CyclicDependency(_)) => false,
        },
{
    let content = match db.source(&key) {
        Ok(content) => content,
        Err(e) => {
            return Err(e);
        },
    };
    let text = match decode_text(&key, content) {
        Ok(text) => text,
        Err(e) => {
            return Err(e);
        },
    };
    let query = crate::query_key::QueryKey::Server {
        source_key: key.clone(),
        toolchain_path: toolchain_path.clone(),
    };
    match compile(text, key, toolchain_path) {
        Ok(output) => {
            assert(outcome_view(Ok::<String, String>(output)) == Ok::<Seq<char>, Seq<char>>(
                output@,
            ));
            Ok(output)
        },
        Err(cause) => {
            assert(outcome_view(Err::<String, String>(cause)) == Err::<Seq<char>, Seq<char>>(
                cause@,
            ));
            Err(QueryError::DerivationFailed(query, cause))
        },
    }
}

} // verus!
