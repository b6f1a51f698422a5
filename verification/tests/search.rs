use ra_ide_api::query::{chars_of, is_subsequence};
use ra_ide_api::{
    AnalysisChange, AnalysisHost, Canceled, FileId, FileSymbol, LibraryData, NavigationTarget,
    Query, QueryKey, SourceRootId, Step, SymbolKind, TextRange,
};

fn no_pass(_: QueryKey, _: &Vec<String>) -> Step {
    Step::Done(String::new())
}

type Host = AnalysisHost<fn(QueryKey, &Vec<String>) -> Step>;

/// A host with the workspace files 1 to 5 and the library files 10 and 11.
fn project() -> Host {
    let mut host: Host = AnalysisHost::new(no_pass);
    let mut change = AnalysisChange::new();
    for id in 1..=5 {
        change.add_file(SourceRootId(0), FileId(id), String::new());
    }
    for id in 10..=11 {
        change.add_library(LibraryData {
            file_id: FileId(id),
            root: SourceRootId(1),
            text: String::new(),
        });
    }
    host.apply_change(change);
    host
}

fn symbol(name: &str, file: u32, at: u32, kind: SymbolKind) -> FileSymbol {
    FileSymbol {
        name: name.to_string(),
        file_id: FileId(file),
        range: TextRange::from_to(at, at + name.len() as u32),
        kind,
    }
}

fn found(targets: &[NavigationTarget]) -> Vec<(String, u32, u32)> {
    targets
        .iter()
        .map(|t| (t.name.clone(), t.file_id.0, t.range.start()))
        .collect()
}

fn names(targets: &[NavigationTarget]) -> Vec<String> {
    targets.iter().map(|t| t.name.clone()).collect()
}

fn search(host: &Host, query: Query, symbols: Vec<FileSymbol>) -> Vec<NavigationTarget> {
    host.analysis().symbol_search(host, query, symbols).unwrap()
}

fn chars(text: &str) -> Vec<char> {
    text.chars().collect()
}

/// 15 symbols named `foo` and 3 named `foobar`, over the files 1 to 5.
fn foos() -> Vec<FileSymbol> {
    let mut symbols = Vec::new();
    for i in 0..18u32 {
        let name = if i % 6 == 2 { "foobar" } else { "foo" };
        symbols.push(symbol(name, 1 + i % 5, 10 * i, SymbolKind::Function));
    }
    symbols
}

#[test]
fn exact_search_with_a_limit() {
    let host = project();
    assert_eq!(foos().iter().filter(|s| s.name == "foo").count(), 15);
    assert_eq!(foos().iter().filter(|s| s.name == "foobar").count(), 3);
    let mut expected = Vec::new();
    for s in foos() {
        if s.name == "foo" && expected.len() < 10 {
            expected.push((s.name, s.file_id.0, s.range.start()));
        }
    }
    for _ in 0..3 {
        let mut query = Query::new("foo".to_string());
        query.exact();
        query.limit(10);
        let targets = search(&host, query, foos());
        assert_eq!(targets.len(), 10);
        assert!(targets.iter().all(|t| t.name == "foo"));
        assert_eq!(found(&targets), expected);
    }
}

#[test]
fn fuzzy_search_without_a_limit_finds_all() {
    let host = project();
    let targets = search(&host, Query::new("foo".to_string()), foos());
    assert_eq!(targets.len(), 18);
    let targets = search(&host, Query::new("fbr".to_string()), foos());
    assert_eq!(names(&targets), vec!["foobar"; 3]);
    let targets = search(&host, Query::new("oof".to_string()), foos());
    assert!(targets.is_empty());
}

#[test]
fn search_keeps_the_order_of_the_symbols() {
    let host = project();
    let symbols = vec![
        symbol("zeta", 3, 40, SymbolKind::Function),
        symbol("beta", 1, 7, SymbolKind::Struct),
        symbol("gamma", 2, 0, SymbolKind::Module),
        symbol("eta", 1, 3, SymbolKind::Const),
    ];
    let targets = search(&host, Query::new("eta".to_string()), symbols);
    assert_eq!(
        found(&targets),
        vec![
            ("zeta".to_string(), 3, 40),
            ("beta".to_string(), 1, 7),
            ("eta".to_string(), 1, 3),
        ]
    );
    assert_eq!(targets[1].kind, SymbolKind::Struct);
    assert_eq!(targets[1].range, TextRange::from_to(7, 11));
}

#[test]
fn search_ignores_case_unless_exact() {
    let host = project();
    let symbols = || {
        vec![
            symbol("foo", 1, 0, SymbolKind::Function),
            symbol("Foo", 1, 10, SymbolKind::Struct),
            symbol("FOO_BAR", 2, 0, SymbolKind::Const),
        ]
    };
    let targets = search(&host, Query::new("FOO".to_string()), symbols());
    assert_eq!(names(&targets), vec!["foo", "Foo", "FOO_BAR"]);
    let targets = search(&host, Query::new("fb".to_string()), symbols());
    assert_eq!(names(&targets), vec!["FOO_BAR"]);
    let mut query = Query::new("Foo".to_string());
    query.exact();
    let targets = search(&host, query, symbols());
    assert_eq!(names(&targets), vec!["Foo"]);
    let mut query = Query::new("ÄRGER".to_string());
    query.exact();
    let targets = search(&host, query, vec![symbol("ÄRGER", 1, 0, SymbolKind::Static)]);
    assert_eq!(names(&targets), vec!["ÄRGER"]);
    let targets = search(
        &host,
        Query::new("ÄR".to_string()),
        vec![symbol("ärger", 1, 0, SymbolKind::Static)],
    );
    assert_eq!(names(&targets), vec!["ärger"]);
}

#[test]
fn search_for_types_only() {
    let host = project();
    let symbols = || {
        vec![
            symbol("a_fn", 1, 0, SymbolKind::Function),
            symbol("a_struct", 1, 10, SymbolKind::Struct),
            symbol("a_enum", 1, 20, SymbolKind::Enum),
            symbol("a_trait", 1, 30, SymbolKind::Trait),
            symbol("a_alias", 1, 40, SymbolKind::TypeAlias),
            symbol("a_mod", 1, 50, SymbolKind::Module),
            symbol("a_const", 1, 60, SymbolKind::Const),
            symbol("a_static", 1, 70, SymbolKind::Static),
        ]
    };
    assert_eq!(search(&host, Query::new("a_".to_string()), symbols()).len(), 8);
    let mut query = Query::new("a_".to_string());
    query.only_types();
    let targets = search(&host, query, symbols());
    assert_eq!(names(&targets), vec!["a_struct", "a_enum", "a_trait", "a_alias"]);
    assert!(SymbolKind::Struct.is_type());
    assert!(!SymbolKind::Function.is_type());
}

#[test]
fn search_leaves_libraries_out_unless_asked() {
    let host = project();
    let symbols = || {
        vec![
            symbol("work", 1, 0, SymbolKind::Function),
            symbol("lib_work", 10, 0, SymbolKind::Function),
            symbol("homework", 2, 0, SymbolKind::Function),
            symbol("rework", 11, 5, SymbolKind::Function),
            symbol("no_work", 77, 5, SymbolKind::Function),
        ]
    };
    let targets = search(&host, Query::new("work".to_string()), symbols());
    assert_eq!(names(&targets), vec!["work", "homework"]);
    let mut query = Query::new("work".to_string());
    query.libs();
    let targets = search(&host, query, symbols());
    // The file 77 is no file of the project: its symbol is never found.
    assert_eq!(names(&targets), vec!["work", "lib_work", "homework", "rework"]);
}

#[test]
fn search_limits() {
    let host = project();
    let mut query = Query::new("foo".to_string());
    query.limit(0);
    assert!(search(&host, query, foos()).is_empty());
    let mut query = Query::new("foo".to_string());
    query.limit(1);
    assert_eq!(found(&search(&host, query, foos())), vec![("foo".to_string(), 1, 0)]);
    let mut query = Query::new("foo".to_string());
    query.limit(18);
    assert_eq!(search(&host, query, foos()).len(), 18);
    let mut query = Query::new("foo".to_string());
    query.limit(usize::MAX);
    assert_eq!(search(&host, query, foos()).len(), 18);
    let mut query = Query::new("foo".to_string());
    query.limit(3);
    query.limit(17);
    assert_eq!(search(&host, query, foos()).len(), 17);
    assert!(search(&host, Query::new("foo".to_string()), Vec::new()).is_empty());
}

#[test]
fn empty_query_finds_every_symbol_of_the_workspace() {
    let host = project();
    assert_eq!(search(&host, Query::new(String::new()), foos()).len(), 18);
    let mut query = Query::new(String::new());
    query.exact();
    assert!(search(&host, query, foos()).is_empty());
}

#[test]
fn search_through_a_stale_snapshot_is_canceled() {
    let mut host = project();
    let s = host.analysis();
    assert_eq!(
        s.symbol_search(&host, Query::new("foo".to_string()), foos()).map(|t| t.len()),
        Ok(18)
    );
    host.apply_change(AnalysisChange::new());
    assert_eq!(
        s.symbol_search(&host, Query::new("foo".to_string()), foos()).map(|t| t.len()),
        Err(Canceled)
    );
}

#[test]
fn query_with_given_lowercase_form() {
    let host = project();
    // The lowercase form decides what matches; the text decides what is exact.
    let query = Query::from_parts("anything".to_string(), "br".to_string());
    assert_eq!(names(&search(&host, query, foos())), vec!["foobar"; 3]);
    let mut query = Query::from_parts("foobar".to_string(), "fb".to_string());
    query.exact();
    assert_eq!(names(&search(&host, query, foos())), vec!["foobar"; 3]);
    let mut query = Query::from_parts("foo".to_string(), "bar".to_string());
    query.exact();
    assert!(search(&host, query, foos()).is_empty());
}

#[test]
fn accepts_symbol_case_by_case() {
    let query = Query::new("fb".to_string());
    let needle = query.needle();
    assert_eq!(needle, vec!['f', 'b']);
    let s = symbol("FooBar", 1, 0, SymbolKind::Function);
    assert!(query.accepts_symbol(&needle, &s, "foobar", Some(false)));
    assert!(!query.accepts_symbol(&needle, &s, "foobar", Some(true)));
    assert!(!query.accepts_symbol(&needle, &s, "foobar", None));
    assert!(!query.accepts_symbol(&needle, &s, "FooBar", Some(false)));
    let mut query = Query::new("fb".to_string());
    query.libs();
    assert!(query.accepts_symbol(&needle, &s, "foobar", Some(true)));
    assert!(query.accepts_symbol(&needle, &s, "foobar", Some(false)));
    query.only_types();
    assert!(!query.accepts_symbol(&needle, &s, "foobar", Some(true)));
    let t = symbol("FooBar", 1, 0, SymbolKind::Enum);
    assert!(query.accepts_symbol(&needle, &t, "foobar", Some(true)));
    query.exact();
    assert!(!query.accepts_symbol(&needle, &t, "foobar", Some(true)));
    let u = symbol("fb", 1, 0, SymbolKind::Trait);
    assert!(query.accepts_symbol(&needle, &u, "fb", Some(true)));
}

#[test]
fn subsequences() {
    assert!(is_subsequence(&chars(""), &chars("")));
    assert!(is_subsequence(&chars(""), &chars("abc")));
    assert!(!is_subsequence(&chars("a"), &chars("")));
    assert!(is_subsequence(&chars("abc"), &chars("abc")));
    assert!(is_subsequence(&chars("ac"), &chars("abc")));
    assert!(is_subsequence(&chars("aa"), &chars("aba")));
    assert!(!is_subsequence(&chars("aa"), &chars("ab")));
    assert!(!is_subsequence(&chars("ca"), &chars("abc")));
    assert!(!is_subsequence(&chars("abcd"), &chars("abc")));
    assert!(is_subsequence(&chars("ßé"), &chars("aßbéc")));
    assert!(!is_subsequence(&chars("éß"), &chars("aßbéc")));
}

#[test]
fn characters_of_a_text() {
    assert_eq!(chars_of(""), Vec::<char>::new());
    assert_eq!(chars_of("aß€"), vec!['a', 'ß', '€']);
}

#[test]
fn target_leads_to_its_symbol() {
    let target = NavigationTarget::from_symbol(symbol("main", 4, 12, SymbolKind::Function));
    assert_eq!(target.name, "main");
    assert_eq!(target.file_id, FileId(4));
    assert_eq!(target.kind, SymbolKind::Function);
    assert_eq!(target.range, TextRange::from_to(12, 16));
}
