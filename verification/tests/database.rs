use std::cell::Cell;
use std::rc::Rc;
use toast_cache::{Files, ImportMap, QueryError, QueryKey, SalsaToastDatabaseStruct};

fn bundle(text: &str, key: &str, toolchain_path: &str, import_map: &ImportMap) -> String {
    let react = match import_map.get(&"react".to_string()) {
        Some(target) => target.clone(),
        None => "-".to_string(),
    };
    format!("browser[{}|{}|{}]{}", key, toolchain_path, react, text)
}

fn module(text: &str, key: &str, toolchain_path: &str) -> String {
    format!("server[{}|{}]{}", key, toolchain_path, text)
}

fn counting_browser(
    calls: &Rc<Cell<u32>>,
) -> impl Fn(String, String, String, ImportMap) -> Result<String, String> {
    let calls = calls.clone();
    move |text: String, key: String, toolchain_path: String, import_map: ImportMap| {
        calls.set(calls.get() + 1);
        if text.contains("syntax error") {
            Err(format!("cannot parse {}", key))
        } else {
            Ok(bundle(&text, &key, &toolchain_path, &import_map))
        }
    }
}

fn counting_server(calls: &Rc<Cell<u32>>) -> impl Fn(String, String, String) -> Result<String, String> {
    let calls = calls.clone();
    move |text: String, key: String, toolchain_path: String| {
        calls.set(calls.get() + 1);
        if text.contains("syntax error") {
            Err(format!("cannot parse {}", key))
        } else {
            Ok(module(&text, &key, &toolchain_path))
        }
    }
}

fn s(text: &str) -> String {
    text.to_string()
}

#[test]
fn browser_bundle_is_compiled_once() {
    let browser_calls = Rc::new(Cell::new(0u32));
    let server_calls = Rc::new(Cell::new(0u32));
    let mut db =
        SalsaToastDatabaseStruct::new(counting_browser(&browser_calls), counting_server(&server_calls));
    db.write(s("a.js"), b"export const x = 1;".to_vec());
    let first = db.compiled_for_browser(s("a.js"), s("/bin"), ImportMap::new()).unwrap();
    assert!(first.contains("x"));
    assert_eq!(first, "browser[a.js|/bin|-]export const x = 1;");
    let second = db.compiled_for_browser(s("a.js"), s("/bin"), ImportMap::new()).unwrap();
    assert_eq!(second, first);
    assert_eq!(browser_calls.get(), 1);
    assert_eq!(server_calls.get(), 0);
}

#[test]
fn rewrite_recompiles_both_targets_once() {
    let browser_calls = Rc::new(Cell::new(0u32));
    let server_calls = Rc::new(Cell::new(0u32));
    let mut db =
        SalsaToastDatabaseStruct::new(counting_browser(&browser_calls), counting_server(&server_calls));
    db.write(s("a.js"), b"export const x = 1;".to_vec());
    let b1 = db.compiled_for_browser(s("a.js"), s("/bin"), ImportMap::new()).unwrap();
    let s1 = db.compiled_for_server(s("a.js"), s("/bin")).unwrap();
    assert_eq!(b1, "browser[a.js|/bin|-]export const x = 1;");
    assert_eq!(s1, "server[a.js|/bin]export const x = 1;");
    assert_eq!((browser_calls.get(), server_calls.get()), (1, 1));

    db.write(s("a.js"), b"export const y = 2;".to_vec());
    let b2 = db.compiled_for_browser(s("a.js"), s("/bin"), ImportMap::new()).unwrap();
    let s2 = db.compiled_for_server(s("a.js"), s("/bin")).unwrap();
    assert_eq!(b2, "browser[a.js|/bin|-]export const y = 2;");
    assert_eq!(s2, "server[a.js|/bin]export const y = 2;");
    assert_eq!((browser_calls.get(), server_calls.get()), (2, 2));

    assert_eq!(db.compiled_for_browser(s("a.js"), s("/bin"), ImportMap::new()).unwrap(), b2);
    assert_eq!(db.compiled_for_server(s("a.js"), s("/bin")).unwrap(), s2);
    assert_eq!((browser_calls.get(), server_calls.get()), (2, 2));
}

#[test]
fn invalid_utf8_fails_and_is_not_cached() {
    let browser_calls = Rc::new(Cell::new(0u32));
    let server_calls = Rc::new(Cell::new(0u32));
    let mut db =
        SalsaToastDatabaseStruct::new(counting_browser(&browser_calls), counting_server(&server_calls));
    db.write(s("a.js"), vec![0x66, 0x6f, 0xff, 0xfe]);
    match db.compiled_for_browser(s("a.js"), s("/bin"), ImportMap::new()) {
        Err(QueryError::InvalidEncoding(key)) => assert_eq!(key, "a.js"),
        other => panic!("unexpected answer {:?}", other),
    }
    match db.compiled_for_server(s("a.js"), s("/bin")) {
        Err(QueryError::InvalidEncoding(key)) => assert_eq!(key, "a.js"),
        other => panic!("unexpected answer {:?}", other),
    }
    assert_eq!((browser_calls.get(), server_calls.get()), (0, 0));
    // asking again fails again: the failure was not cached
    assert!(matches!(
        db.compiled_for_browser(s("a.js"), s("/bin"), ImportMap::new()),
        Err(QueryError::InvalidEncoding(_))
    ));

    db.write(s("a.js"), b"export const x = 1;".to_vec());
    assert_eq!(
        db.compiled_for_browser(s("a.js"), s("/bin"), ImportMap::new()).unwrap(),
        "browser[a.js|/bin|-]export const x = 1;"
    );
    assert_eq!(
        db.compiled_for_server(s("a.js"), s("/bin")).unwrap(),
        "server[a.js|/bin]export const x = 1;"
    );
    assert_eq!((browser_calls.get(), server_calls.get()), (1, 1));
}

#[test]
fn same_content_written_again_gives_the_same_output() {
    let browser_calls = Rc::new(Cell::new(0u32));
    let server_calls = Rc::new(Cell::new(0u32));
    let mut db =
        SalsaToastDatabaseStruct::new(counting_browser(&browser_calls), counting_server(&server_calls));
    db.write(s("a.js"), b"let a;".to_vec());
    let first = db.compiled_for_server(s("a.js"), s("/bin")).unwrap();
    db.write(s("a.js"), b"let b;".to_vec());
    let between = db.compiled_for_server(s("a.js"), s("/bin")).unwrap();
    db.write(s("a.js"), b"let a;".to_vec());
    let last = db.compiled_for_server(s("a.js"), s("/bin")).unwrap();
    assert_eq!(first, last);
    assert_ne!(first, between);
    // every write of the source costs one evaluation, none costs more
    assert_eq!(server_calls.get(), 3);
}

#[test]
fn write_to_another_key_costs_no_evaluation() {
    let browser_calls = Rc::new(Cell::new(0u32));
    let server_calls = Rc::new(Cell::new(0u32));
    let mut db =
        SalsaToastDatabaseStruct::new(counting_browser(&browser_calls), counting_server(&server_calls));
    db.write(s("a.js"), b"let a;".to_vec());
    db.write(s("b.js"), b"let b;".to_vec());
    let a1 = db.compiled_for_browser(s("a.js"), s("/bin"), ImportMap::new()).unwrap();
    let b1 = db.compiled_for_browser(s("b.js"), s("/bin"), ImportMap::new()).unwrap();
    assert_eq!(browser_calls.get(), 2);

    db.write(s("b.js"), b"let c;".to_vec());
    assert_eq!(db.current_revision().ticks(), 3);
    let a2 = db.compiled_for_browser(s("a.js"), s("/bin"), ImportMap::new()).unwrap();
    assert_eq!(a2, a1);
    assert_eq!(browser_calls.get(), 2);
    let b2 = db.compiled_for_browser(s("b.js"), s("/bin"), ImportMap::new()).unwrap();
    assert_ne!(b2, b1);
    assert_eq!(b2, "browser[b.js|/bin|-]let c;");
    assert_eq!(browser_calls.get(), 3);
    // a.js was found valid at the current revision: asking once more is a hit
    assert_eq!(db.compiled_for_browser(s("a.js"), s("/bin"), ImportMap::new()).unwrap(), a1);
    assert_eq!(browser_calls.get(), 3);
}

#[test]
fn missing_input_is_reported_with_its_key() {
    let browser_calls = Rc::new(Cell::new(0u32));
    let server_calls = Rc::new(Cell::new(0u32));
    let mut db =
        SalsaToastDatabaseStruct::new(counting_browser(&browser_calls), counting_server(&server_calls));
    db.write(s("a.js"), b"let a;".to_vec());
    match db.compiled_for_server(s("b.js"), s("/bin")) {
        Err(QueryError::MissingInput(key)) => assert_eq!(key, "b.js"),
        other => panic!("unexpected answer {:?}", other),
    }
    match db.compiled_for_browser(s("b.js"), s("/bin"), ImportMap::new()) {
        Err(QueryError::MissingInput(key)) => assert_eq!(key, "b.js"),
        other => panic!("unexpected answer {:?}", other),
    }
    match db.source(&s("b.js")) {
        Err(QueryError::MissingInput(key)) => assert_eq!(key, "b.js"),
        other => panic!("unexpected answer {:?}", other),
    }
    assert_eq!(db.source(&s("a.js")).unwrap(), b"let a;".to_vec());
    assert_eq!((browser_calls.get(), server_calls.get()), (0, 0));
}

#[test]
fn compiler_failure_is_wrapped_and_retried() {
    let browser_calls = Rc::new(Cell::new(0u32));
    let server_calls = Rc::new(Cell::new(0u32));
    let mut db =
        SalsaToastDatabaseStruct::new(counting_browser(&browser_calls), counting_server(&server_calls));
    db.write(s("a.js"), b"syntax error here".to_vec());
    let mut imports = ImportMap::new();
    imports.insert(s("react"), s("/web_modules/react.js"));
    match db.compiled_for_browser(s("a.js"), s("/bin"), imports.clone()) {
        Err(QueryError::DerivationFailed(query, cause)) => {
            assert_eq!(cause, "cannot parse a.js");
            let expected = QueryKey::Browser {
                source_key: s("a.js"),
                toolchain_path: s("/bin"),
                import_map: imports.clone(),
            };
            assert!(query.same_as(&expected));
        }
        other => panic!("unexpected answer {:?}", other),
    }
    assert_eq!(browser_calls.get(), 1);
    // not cached: the same query calls the compiler again
    assert!(matches!(
        db.compiled_for_browser(s("a.js"), s("/bin"), imports.clone()),
        Err(QueryError::DerivationFailed(_, _))
    ));
    assert_eq!(browser_calls.get(), 2);
    match db.compiled_for_server(s("a.js"), s("/bin")) {
        Err(QueryError::DerivationFailed(query, cause)) => {
            assert_eq!(cause, "cannot parse a.js");
            assert!(query
                .same_as(&QueryKey::Server { source_key: s("a.js"), toolchain_path: s("/bin") }));
        }
        other => panic!("unexpected answer {:?}", other),
    }

    db.write(s("a.js"), b"let a;".to_vec());
    assert_eq!(
        db.compiled_for_browser(s("a.js"), s("/bin"), imports).unwrap(),
        "browser[a.js|/bin|/web_modules/react.js]let a;"
    );
    assert_eq!(browser_calls.get(), 3);
}

#[test]
fn failed_recompilation_leaves_no_stale_value() {
    let browser_calls = Rc::new(Cell::new(0u32));
    let server_calls = Rc::new(Cell::new(0u32));
    let mut db =
        SalsaToastDatabaseStruct::new(counting_browser(&browser_calls), counting_server(&server_calls));
    db.write(s("a.js"), b"let a;".to_vec());
    assert!(db.compiled_for_server(s("a.js"), s("/bin")).is_ok());
    db.write(s("a.js"), vec![0xc0, 0x80]);
    assert!(matches!(
        db.compiled_for_server(s("a.js"), s("/bin")),
        Err(QueryError::InvalidEncoding(_))
    ));
    db.write(s("a.js"), b"syntax error".to_vec());
    assert!(matches!(
        db.compiled_for_server(s("a.js"), s("/bin")),
        Err(QueryError::DerivationFailed(_, _))
    ));
    db.write(s("a.js"), b"let a;".to_vec());
    assert_eq!(db.compiled_for_server(s("a.js"), s("/bin")).unwrap(), "server[a.js|/bin]let a;");
    assert_eq!(server_calls.get(), 3);
}

#[test]
fn import_maps_are_compared_by_what_they_resolve() {
    let browser_calls = Rc::new(Cell::new(0u32));
    let server_calls = Rc::new(Cell::new(0u32));
    let mut db =
        SalsaToastDatabaseStruct::new(counting_browser(&browser_calls), counting_server(&server_calls));
    db.write(s("a.js"), b"let a;".to_vec());

    let mut one = ImportMap::new();
    one.insert(s("react"), s("/r.js"));
    one.insert(s("vue"), s("/v.js"));
    let mut other = ImportMap::new();
    other.insert(s("vue"), s("/v.js"));
    other.insert(s("react"), s("/old.js"));
    other.insert(s("react"), s("/r.js"));

    let first = db.compiled_for_browser(s("a.js"), s("/bin"), one).unwrap();
    let second = db.compiled_for_browser(s("a.js"), s("/bin"), other).unwrap();
    assert_eq!(first, "browser[a.js|/bin|/r.js]let a;");
    assert_eq!(second, first);
    assert_eq!(browser_calls.get(), 1);

    let mut different = ImportMap::new();
    different.insert(s("react"), s("/r.js"));
    let third = db.compiled_for_browser(s("a.js"), s("/bin"), different).unwrap();
    assert_eq!(third, first);
    assert_eq!(browser_calls.get(), 2);

    let mut changed = ImportMap::new();
    changed.insert(s("react"), s("/r2.js"));
    changed.insert(s("vue"), s("/v.js"));
    assert_eq!(
        db.compiled_for_browser(s("a.js"), s("/bin"), changed).unwrap(),
        "browser[a.js|/bin|/r2.js]let a;"
    );
    assert_eq!(browser_calls.get(), 3);
}

#[test]
fn each_argument_is_part_of_the_query_key() {
    let browser_calls = Rc::new(Cell::new(0u32));
    let server_calls = Rc::new(Cell::new(0u32));
    let mut db =
        SalsaToastDatabaseStruct::new(counting_browser(&browser_calls), counting_server(&server_calls));
    db.write(s("a.js"), b"let a;".to_vec());
    assert_eq!(db.compiled_for_server(s("a.js"), s("/bin")).unwrap(), "server[a.js|/bin]let a;");
    assert_eq!(db.compiled_for_server(s("a.js"), s("/opt")).unwrap(), "server[a.js|/opt]let a;");
    assert_eq!(server_calls.get(), 2);
    assert_eq!(db.compiled_for_server(s("a.js"), s("/bin")).unwrap(), "server[a.js|/bin]let a;");
    assert_eq!(db.compiled_for_server(s("a.js"), s("/opt")).unwrap(), "server[a.js|/opt]let a;");
    assert_eq!(server_calls.get(), 2);
    // the rule is part of the key too
    assert_eq!(
        db.compiled_for_browser(s("a.js"), s("/bin"), ImportMap::new()).unwrap(),
        "browser[a.js|/bin|-]let a;"
    );
    assert_eq!((browser_calls.get(), server_calls.get()), (1, 2));
}

#[test]
fn query_by_key_is_the_same_as_the_named_request() {
    let browser_calls = Rc::new(Cell::new(0u32));
    let server_calls = Rc::new(Cell::new(0u32));
    let mut db =
        SalsaToastDatabaseStruct::new(counting_browser(&browser_calls), counting_server(&server_calls));
    db.write(s("a.js"), b"let a;".to_vec());
    let key = QueryKey::Server { source_key: s("a.js"), toolchain_path: s("/bin") };
    let by_key = db.query(&key).unwrap();
    let by_name = db.compiled_for_server(s("a.js"), s("/bin")).unwrap();
    assert_eq!(by_key, by_name);
    assert_eq!(server_calls.get(), 1);
    let key = QueryKey::Browser {
        source_key: s("a.js"),
        toolchain_path: s("/bin"),
        import_map: ImportMap::new(),
    };
    let by_key = db.query(&key).unwrap();
    let by_name = db.compiled_for_browser(s("a.js"), s("/bin"), ImportMap::new()).unwrap();
    assert_eq!(by_key, by_name);
    assert_eq!(browser_calls.get(), 1);
}

#[test]
fn only_writes_advance_the_clock() {
    let browser_calls = Rc::new(Cell::new(0u32));
    let server_calls = Rc::new(Cell::new(0u32));
    let mut db =
        SalsaToastDatabaseStruct::new(counting_browser(&browser_calls), counting_server(&server_calls));
    assert_eq!(db.current_revision().ticks(), 0);
    db.write(s("a.js"), b"let a;".to_vec());
    assert_eq!(db.current_revision().ticks(), 1);
    let _ = db.compiled_for_server(s("a.js"), s("/bin"));
    let _ = db.compiled_for_server(s("nothing.js"), s("/bin"));
    let _ = db.source(&s("a.js"));
    assert_eq!(db.current_revision().ticks(), 1);
    db.write(s("a.js"), b"let a;".to_vec());
    db.write(s("b.js"), Vec::new());
    assert_eq!(db.current_revision().ticks(), 3);
    db.invalidate_all();
    assert_eq!(db.current_revision().ticks(), 3);
}

#[test]
fn invalidate_all_forgets_every_entry() {
    let browser_calls = Rc::new(Cell::new(0u32));
    let server_calls = Rc::new(Cell::new(0u32));
    let mut db =
        SalsaToastDatabaseStruct::new(counting_browser(&browser_calls), counting_server(&server_calls));
    db.write(s("a.js"), b"let a;".to_vec());
    let b1 = db.compiled_for_browser(s("a.js"), s("/bin"), ImportMap::new()).unwrap();
    let s1 = db.compiled_for_server(s("a.js"), s("/bin")).unwrap();
    db.invalidate_all();
    assert_eq!(db.source(&s("a.js")).unwrap(), b"let a;".to_vec());
    assert_eq!(db.compiled_for_browser(s("a.js"), s("/bin"), ImportMap::new()).unwrap(), b1);
    assert_eq!(db.compiled_for_server(s("a.js"), s("/bin")).unwrap(), s1);
    assert_eq!((browser_calls.get(), server_calls.get()), (2, 2));
}

#[test]
fn empty_source_is_text() {
    let browser_calls = Rc::new(Cell::new(0u32));
    let server_calls = Rc::new(Cell::new(0u32));
    let mut db =
        SalsaToastDatabaseStruct::new(counting_browser(&browser_calls), counting_server(&server_calls));
    db.write(s(""), Vec::new());
    assert_eq!(db.compiled_for_server(s(""), s("")).unwrap(), "server[|]");
    assert_eq!(server_calls.get(), 1);
}

#[test]
fn text_beyond_ascii_reaches_the_compiler_decoded() {
    let browser_calls = Rc::new(Cell::new(0u32));
    let server_calls = Rc::new(Cell::new(0u32));
    let mut db =
        SalsaToastDatabaseStruct::new(counting_browser(&browser_calls), counting_server(&server_calls));
    db.write(s("é.js"), "const π = '✓😀';".as_bytes().to_vec());
    assert_eq!(
        db.compiled_for_server(s("é.js"), s("/bin")).unwrap(),
        "server[é.js|/bin]const π = '✓😀';"
    );
}
