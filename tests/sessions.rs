use nekocode::directory::{
    analyze_single_file, analyze_source, AnalysisError, DirectoryAnalysis, FailureReason, FileFailure, FileOutcome,
};
use nekocode::registry::SessionManager;
use nekocode::session::{
    is_test_file, parse_command, AnalysisConfig, AnalysisSession, Command, CommandError, CommandOutput,
    CommandProcessor, SymbolKind,
};
use nekocode::universal::{decimal_string, SymbolTable, SymbolType, UniversalSymbol};
use nekocode::utils::{
    calculate_line_number, count_lines, extract_identifier_at_position, extract_next_word, find_pattern_boundaries,
    skip_string_literal, skip_until,
};
use nekocode::types::{AnalysisResult, ClassInfo, FileInfo, FunctionCall, FunctionInfo, Language, MemberVariable};
use nekocode::extract::ExtractedConstructs;

fn outcome(path: &str, content: &str) -> FileOutcome {
    analyze_source(path, content)
}

fn sample_outcomes() -> Vec<FileOutcome> {
    vec![
        outcome("proj/a.js", "class A {}\nfunction f() {}\nfunction g() {}"),
        outcome("proj/b.rs", "use x::y;\nstruct B;\nfn h() {}"),
        outcome("proj/readme.txt", "hello"),
        FileOutcome::Failed(FileFailure { path: "proj/locked.go".to_string(), reason: FailureReason::Unreadable }),
        outcome("proj/c.py", "import os\ndef k():\n    pass"),
    ]
}

#[test]
fn test_file_exclusion() {
    let paths = vec!["proj/a.js".to_string(), "proj/a.test.js".to_string()];
    let mut config = AnalysisConfig::default();
    assert_eq!(config.select_files(&paths), vec!["proj/a.js".to_string()]);
    config.include_test_files = true;
    assert_eq!(config.select_files(&paths), paths);
}

#[test]
fn discovery_filters() {
    let config = AnalysisConfig::default();
    assert!(config.should_exclude_path("proj/node_modules/x.js"));
    assert!(!config.should_exclude_path("proj/src/x.js"));
    assert!(config.has_included_extension("a/b.rs"));
    assert!(!config.has_included_extension("a/b.txt"));
    assert!(is_test_file("proj/__tests__/x.js"));
    assert!(is_test_file("proj/tests/x.rs"));
    assert!(is_test_file("proj/FooSpec.ts"));
    assert!(!is_test_file("proj/src/main.rs"));
    let paths = vec![
        "p/src/a.go".to_string(),
        "p/src/a.txt".to_string(),
        "p/target/b.rs".to_string(),
        "p/src/b_test.go".to_string(),
        "p/src/c.cs".to_string(),
    ];
    assert_eq!(config.select_files(&paths), vec!["p/src/a.go".to_string(), "p/src/c.cs".to_string()]);
}

#[test]
fn directory_summary_is_the_sum_in_any_order() {
    let d = DirectoryAnalysis::from_outcomes("proj".to_string(), sample_outcomes()).ok().unwrap();
    assert_eq!(d.files.len(), 3);
    assert_eq!(d.failures.len(), 2);
    assert_eq!(d.failures[0].reason, FailureReason::UnsupportedLanguage);
    assert_eq!(d.failures[1].reason, FailureReason::Unreadable);
    assert_eq!(d.summary.total_classes, 2);
    assert_eq!(d.summary.total_functions, 4);
    assert_eq!(d.summary.total_imports, 2);
    let mut reversed = sample_outcomes();
    reversed.reverse();
    let r = DirectoryAnalysis::from_outcomes("proj".to_string(), reversed).ok().unwrap();
    assert_eq!(r.summary, d.summary);
    assert_eq!(r.files[0].file_info.name, "proj/c.py");
}

#[test]
fn single_file_analysis() {
    let d = analyze_single_file("foo.go", "func Bar() { if true { } }").ok().unwrap();
    assert_eq!(d.files.len(), 1);
    assert_eq!(d.files[0].functions[0].name, "Bar");
    assert_eq!(d.summary.total_functions, 1);
    assert_eq!(analyze_single_file("notes.txt", "x").err(), Some(AnalysisError::UnsupportedLanguage));
}

fn session_with_files() -> AnalysisSession {
    let mut s = AnalysisSession::new();
    let d = DirectoryAnalysis::from_outcomes("proj".to_string(), sample_outcomes()).ok().unwrap();
    s.set_analysis(d);
    s
}

#[test]
fn session_queries() {
    let s = session_with_files();
    assert_eq!(s.get_stats().total_functions, 4);
    let c = s.get_complexity();
    assert_eq!(c.len(), 3);
    assert_eq!(c[0].file, "proj/a.js");
    assert_eq!(c[0].cyclomatic_complexity, 1);
    let st = s.get_structure();
    let names: Vec<&str> = st.iter().map(|e| e.name.as_str()).collect();
    assert_eq!(names, vec!["A", "f", "g", "B", "h", "k"]);
    assert_eq!(st[0].kind, SymbolKind::Type);
    assert_eq!(st[1].kind, SymbolKind::Function);
    let found = s.find_symbols("G");
    assert_eq!(found.len(), 1);
    assert_eq!(found[0].name, "g");
    assert_eq!(found[0].line, 3);
    assert_eq!(s.find_symbols("").len(), 6);
    assert!(s.find_include_cycles().is_empty());
}

#[test]
fn include_cycles_are_found() {
    let outcomes = vec![
        outcome("src/a.h", "#include \"b.h\"\n"),
        outcome("src/b.h", "#include \"a.h\"\n"),
        outcome("src/c.h", "#include \"a.h\"\n#include <missing.h>\n"),
    ];
    let mut s = AnalysisSession::new();
    s.set_analysis(DirectoryAnalysis::from_outcomes("src".to_string(), outcomes).ok().unwrap());
    assert_eq!(s.find_include_cycles(), vec!["src/a.h".to_string(), "src/b.h".to_string()]);
}

#[test]
fn commands() {
    let s = session_with_files();
    let p = CommandProcessor::new();
    assert!(matches!(p.process_command(&s, "stats", &vec![]), Ok(CommandOutput::Stats(st)) if st.total_classes == 2));
    match p.process_command(&s, "find", &vec!["a".to_string()]) {
        Ok(CommandOutput::Found(v)) => assert_eq!(v.len(), 1),
        _ => panic!("find failed"),
    }
    assert!(matches!(p.process_command(&s, "complexity", &vec![]), Ok(CommandOutput::Complexity(v)) if v.len() == 3));
    assert!(matches!(p.process_command(&s, "structure", &vec![]), Ok(CommandOutput::Structure(v)) if v.len() == 6));
    assert!(matches!(p.process_command(&s, "include-cycles", &vec![]), Ok(CommandOutput::IncludeCycles(v)) if v.is_empty()));
    assert!(matches!(p.process_command(&s, "bogus", &vec![]), Err(CommandError::UnknownCommand)));
    assert_eq!(parse_command("stats"), Some(Command::Stats));
    assert_eq!(parse_command("Stats"), None);
}

#[test]
fn registry() {
    let mut m = SessionManager::new();
    let id = m.create_session("proj".to_string(), session_with_files()).ok().unwrap();
    assert_eq!(id.len(), 36);
    assert!(m.get_session(&id).is_some());
    assert!(m.get_session("nope").is_none());
    let list = m.list_sessions();
    assert_eq!(list.len(), 1);
    assert_eq!(list[0].id, id);
    assert_eq!(list[0].file_count, 3);
    assert!(list[0].created_at > 1_600_000_000);
    let other = m.create_session("other".to_string(), AnalysisSession::new()).ok().unwrap();
    assert_ne!(other, id);
    assert!(matches!(m.execute_session_command("nope", "stats", &vec![]), Err(CommandError::SessionNotFound)));
    assert!(matches!(m.execute_session_command(&id, "frob", &vec![]), Err(CommandError::UnknownCommand)));
    assert!(matches!(m.execute_session_command(&id, "stats", &vec![]), Ok(CommandOutput::Stats(st)) if st.total_functions == 4));
    assert_eq!(
        m.insert_session(id.clone(), "dup".to_string(), 0, AnalysisSession::new()),
        Err(CommandError::DuplicateSession)
    );
}

#[test]
fn utilities() {
    assert_eq!(count_lines("a\n// c\n\n# h\n-- s\nb"), (6, 2, 3));
    assert_eq!(extract_identifier_at_position("let foo_bar = 1;", 6), Some("foo_bar".to_string()));
    assert_eq!(extract_identifier_at_position("foo(", 3), Some("foo".to_string()));
    assert_eq!(extract_identifier_at_position("a + b", 2), None);
    assert_eq!(extract_identifier_at_position("abc", 3), None);
    assert_eq!(find_pattern_boundaries("if x; iff; (if)", "if"), vec![(0, 2), (12, 14)]);
    assert_eq!(find_pattern_boundaries("---", "--"), vec![(0, 2)]);
    assert!(find_pattern_boundaries("éé", "é").is_empty());
    assert_eq!(extract_identifier_at_position("éa", 1), Some("éa".to_string()));
    assert_eq!(count_lines("\u{3000}// wide space\ncode"), (2, 1, 1));
    assert!(find_pattern_boundaries("abc", "").is_empty());
}

#[test]
fn symbols_and_table() {
    let mut s = UniversalSymbol::new(SymbolType::ImplBlock, "MyType".to_string());
    assert_eq!(s.qualified_name, "MyType");
    s.generate_id(42);
    assert_eq!(s.symbol_id, "implblock_mytype_42");
    assert_eq!(decimal_string(0), "0");
    assert_eq!(decimal_string(1907), "1907");
    let mut t = SymbolTable::new();
    t.add_symbol(s.clone());
    let mut s2 = UniversalSymbol::new(SymbolType::Function, "run".to_string());
    s2.generate_id(1);
    t.add_symbol(s2);
    let mut s3 = UniversalSymbol::new(SymbolType::ImplBlock, "MyType".to_string());
    s3.generate_id(42);
    s3.start_line = 9;
    t.add_symbol(s3);
    assert_eq!(t.get_all_symbols().len(), 2);
    assert_eq!(t.get_symbol("implblock_mytype_42").unwrap().start_line, 9);
    assert!(t.get_symbol("missing").is_none());
}

#[test]
fn records() {
    let f = FunctionInfo::new("f".to_string());
    assert_eq!(f.complexity.cyclomatic_complexity, 1);
    assert!(!f.is_async);
    let c = ClassInfo::new("C".to_string());
    assert!(c.parent_class.is_empty());
    let m = MemberVariable::new("x".to_string(), "int".to_string(), 3);
    assert_eq!(m.access_modifier, "private");
    assert_eq!(m.declaration_line, 3);
    let call = FunctionCall {
        function_name: "push".to_string(),
        object_name: "list".to_string(),
        line_number: 1,
        is_method_call: true,
    };
    assert_eq!(call.full_name(), "list.push");
    let plain = FunctionCall { is_method_call: false, ..call };
    assert_eq!(plain.full_name(), "push");
}

#[test]
fn scanner_helpers() {
    let text = "ab\ncd\nef";
    assert_eq!(calculate_line_number(text, 0), 1);
    assert_eq!(calculate_line_number(text, 4), 2);
    assert_eq!(calculate_line_number(text, 7), 3);
    assert_eq!(calculate_line_number(text, 99), 1);
    let mut pos = 0;
    assert_eq!(extract_next_word("  hello world", &mut pos), "hello");
    assert_eq!(pos, 7);
    assert_eq!(extract_next_word("  hello world", &mut pos), "world");
    assert_eq!(pos, 13);
    let mut p = 0;
    skip_until("abc;def", &mut p, b';');
    assert_eq!(p, 3);
    skip_until("abc;def", &mut p, b';');
    assert_eq!(p, 3);
    let mut q = 4;
    skip_until("abc;def", &mut q, b'x');
    assert_eq!(q, 7);
    let s = "x = \"a\\\"b\" + y";
    let mut p = 4;
    skip_string_literal(s, &mut p, b'"');
    assert_eq!(p, 10);
    let mut p = 0;
    skip_string_literal(s, &mut p, b'"');
    assert_eq!(p, 0);
    let mut p = 0;
    skip_string_literal("'open", &mut p, b'\'');
    assert_eq!(p, 5);
}

#[test]
fn file_info_from_path() {
    assert_eq!(FileInfo::from_path("src/core/main.rs").name, "main.rs");
    assert_eq!(FileInfo::from_path("main.rs").name, "main.rs");
    assert_eq!(FileInfo::from_path("src/").name, "unknown");
    assert_eq!(FileInfo::from_path("").name, "unknown");
}

#[test]
fn extracted_constructs_merge() {
    let mut a = ExtractedConstructs::new();
    assert!(a.is_empty());
    assert!(!a.has_meaningful_content());
    let mut b = ExtractedConstructs::new();
    b.functions.push(FunctionInfo::new("f".to_string()));
    b.classes.push(ClassInfo::new("C".to_string()));
    a.merge(b);
    assert!(!a.is_empty());
    assert!(a.has_meaningful_content());
    assert_eq!(a.functions[0].name, "f");
    assert_eq!(a.classes[0].name, "C");
}

#[test]
fn find_folds_unicode_case() {
    let mut s = AnalysisSession::new();
    let outcomes = vec![outcome("p/e.py", "class Élan:\n    pass\n")];
    s.set_analysis(DirectoryAnalysis::from_outcomes("p".to_string(), outcomes).ok().unwrap());
    let found = s.find_symbols("élan");
    assert_eq!(found.len(), 1);
    assert_eq!(found[0].name, "Élan");
}

#[test]
fn first_session_is_always_created() {
    let mut m = SessionManager::new();
    assert!(m.create_session("p".to_string(), AnalysisSession::new()).is_ok());
}

#[test]
fn unique_calls_count_distinct_names() {
    let call = |o: &str, f: &str, m: bool| FunctionCall {
        function_name: f.to_string(),
        object_name: o.to_string(),
        line_number: 1,
        is_method_call: m,
    };
    let mut r = AnalysisResult::new(Language::Go);
    r.function_calls = vec![call("a", "f", true), call("b", "f", true), call("a", "f", true), call("", "f", false)];
    r.update_statistics();
    assert_eq!(r.statistics.total_calls, 4);
    assert_eq!(r.statistics.unique_calls, 3);
}

#[test]
fn structure_names_method_containers() {
    let mut s = AnalysisSession::new();
    let outcomes = vec![outcome("p/a.js", "class A {\n  m() {\n  }\n}\nfunction free() {}\n")];
    s.set_analysis(DirectoryAnalysis::from_outcomes("p".to_string(), outcomes).ok().unwrap());
    let st = s.get_structure();
    let rows: Vec<(&str, &str)> = st.iter().map(|e| (e.name.as_str(), e.container.as_str())).collect();
    assert_eq!(rows, vec![("A", ""), ("m", "A"), ("free", "")]);
}
