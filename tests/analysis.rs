use nekocode::analyzers::{
    language_of_path, Analyzer, AnalyzerError, AnalyzerFactory, CSharpAnalyzer, CppAnalyzer, GoAnalyzer,
    JavaScriptAnalyzer, LanguageAnalyzer, PythonAnalyzer, RustAnalyzer,
};
use nekocode::types::{rate, AnalysisResult, ComplexityInfo, ComplexityRating, ImportType, Language};

fn class_names(r: &AnalysisResult) -> Vec<String> {
    r.classes.iter().map(|c| c.name.clone()).collect()
}

fn function_names(r: &AnalysisResult) -> Vec<String> {
    r.functions.iter().map(|f| f.name.clone()).collect()
}

fn import_paths(r: &AnalysisResult) -> Vec<String> {
    r.imports.iter().map(|i| i.path.clone()).collect()
}

fn all_analyzers() -> Vec<Analyzer> {
    vec![
        Analyzer::JavaScript(JavaScriptAnalyzer::new()),
        Analyzer::JavaScript(JavaScriptAnalyzer::typescript()),
        Analyzer::Python(PythonAnalyzer::new()),
        Analyzer::Cpp(CppAnalyzer::new()),
        Analyzer::Cpp(CppAnalyzer::c()),
        Analyzer::CSharp(CSharpAnalyzer::new()),
        Analyzer::Go(GoAnalyzer::new()),
        Analyzer::Rust(RustAnalyzer::new()),
    ]
}

#[test]
fn line_counts_add_up_for_every_language() {
    let text = "// comment\n\nint x = 1;\n   \n# hash\n  /* block */\n* star\ncode();";
    for a in all_analyzers() {
        let r = a.analyze(text, "f");
        let f = &r.file_info;
        assert_eq!(f.total_lines, 8);
        assert_eq!(f.total_lines, f.code_lines + f.comment_lines + f.empty_lines);
        assert_eq!(f.empty_lines, 2);
    }
    let js = JavaScriptAnalyzer::new().analyze(text, "f.js");
    assert_eq!(js.file_info.comment_lines, 3);
    assert_eq!(js.file_info.code_lines, 3);
    let py = PythonAnalyzer::new().analyze(text, "f.py");
    assert_eq!(py.file_info.comment_lines, 1);
    assert_eq!(py.file_info.code_lines, 5);
}

#[test]
fn line_count_edges() {
    let go = GoAnalyzer::new();
    assert_eq!(go.analyze("", "e.go").file_info.total_lines, 0);
    assert_eq!(go.analyze("\n", "e.go").file_info.total_lines, 1);
    assert_eq!(go.analyze("a\n", "e.go").file_info.total_lines, 1);
    assert_eq!(go.analyze("a\n\nb", "e.go").file_info.total_lines, 3);
    assert_eq!(go.analyze("a\r\nb\r\n", "e.go").file_info.code_lines, 2);
}

#[test]
fn complexity_is_at_least_one() {
    for a in all_analyzers() {
        for text in ["", "x", "{}}}", "if (a) {}"] {
            let r = a.analyze(text, "f");
            assert!(r.complexity.cyclomatic_complexity >= 1);
        }
    }
}

#[test]
fn rating_boundaries() {
    assert_eq!(rate(10), ComplexityRating::Simple);
    assert_eq!(rate(11), ComplexityRating::Moderate);
    assert_eq!(rate(20), ComplexityRating::Moderate);
    assert_eq!(rate(21), ComplexityRating::Complex);
    assert_eq!(rate(50), ComplexityRating::Complex);
    assert_eq!(rate(51), ComplexityRating::VeryComplex);
    assert_eq!(ComplexityInfo::measured(11, 0).rating, ComplexityRating::Moderate);
    assert_eq!(ComplexityInfo::measured(11, 0).to_string(), "Moderate 🟡");
    assert_eq!(ComplexityInfo::measured(51, 3).to_string(), "Very Complex 🔴");
    let mut c = ComplexityInfo::new();
    assert_eq!(c.to_string(), "Simple 🟢");
    c.cyclomatic_complexity = 25;
    c.update_rating();
    assert_eq!(c.rating, ComplexityRating::Complex);
    assert_eq!(c.rating_emoji, "🟠");
}

#[test]
fn analysis_is_idempotent() {
    let text = "class A {}\nfunction f() { if (x && y) { return 1; } }\nimport z from 'z';";
    let a = JavaScriptAnalyzer::new();
    let r1 = a.analyze(text, "a.js");
    let r2 = a.analyze(text, "a.js");
    assert_eq!(format!("{:?}", r1), format!("{:?}", r2));
}

#[test]
fn word_boundaries_are_respected() {
    let js = JavaScriptAnalyzer::new();
    let r = js.analyze("classify(x)", "a.js");
    assert!(r.classes.is_empty());
    let r = js.analyze("class Foo {}", "a.js");
    assert_eq!(class_names(&r), vec!["Foo"]);
    let r = js.analyze("elsewhere; iffy; forest; while_x", "a.js");
    assert_eq!(r.complexity.cyclomatic_complexity, 1);
}

#[test]
fn malformed_input_gives_empty_result() {
    let garbage = "\u{1}\u{2}\u{7f}%%~~\u{fffd}\u{0}";
    for a in all_analyzers() {
        let r = a.analyze(garbage, "g");
        assert!(r.classes.is_empty());
        assert!(r.functions.is_empty());
        assert!(r.imports.is_empty());
        assert_eq!(r.complexity.cyclomatic_complexity, 1);
        assert_eq!(r.file_info.total_lines, 1);
        assert_eq!(r.file_info.size_bytes, garbage.len() as u64);
    }
    let truncated = "class {\nfn (\nfunc (r *T\n#include <";
    for a in all_analyzers() {
        let r = a.analyze(truncated, "t");
        assert!(r.classes.is_empty());
        assert!(r.functions.is_empty());
        assert!(r.imports.is_empty());
    }
}

#[test]
fn go_scenario() {
    let r = GoAnalyzer::new().analyze("func Bar() { if true { } }", "foo.go");
    assert_eq!(function_names(&r), vec!["Bar"]);
    assert_eq!(r.complexity.cyclomatic_complexity, 2);
    // one brace pair nested inside another
    assert_eq!(r.complexity.max_nesting_depth, 2);
}

#[test]
fn go_receivers_types_and_imports() {
    let text = "package main\nimport \"fmt\"\ntype Server struct {}\nfunc (s *Server) Start() {}\n";
    let r = GoAnalyzer::new().analyze(text, "s.go");
    assert_eq!(function_names(&r), vec!["Start"]);
    assert_eq!(r.functions[0].start_line, 4);
    assert_eq!(class_names(&r), vec!["Server"]);
    assert_eq!(r.classes[0].start_line, 3);
    assert_eq!(import_paths(&r), vec!["fmt"]);
    assert_eq!(r.imports[0].import_type, ImportType::GoImport);
    assert_eq!(r.statistics.total_functions, 1);
    assert_eq!(r.statistics.total_classes, 1);
    assert_eq!(r.statistics.total_imports, 1);
}

#[test]
fn rust_extraction() {
    let text = "use std::fmt;\npub struct Foo {}\nenum E { A }\ntrait T {}\nfn bar() -> Option<u8> { f()? }\n";
    let r = RustAnalyzer::new().analyze(text, "lib.rs");
    assert_eq!(class_names(&r), vec!["Foo", "E", "T"]);
    assert_eq!(function_names(&r), vec!["bar"]);
    assert_eq!(import_paths(&r), vec!["std::fmt"]);
    assert_eq!(r.language, Language::Rust);
    assert_eq!(r.complexity.cyclomatic_complexity, 2);
}

#[test]
fn cpp_extraction() {
    let text = "#include <stdio.h>\n#include \"util.h\"\nclass Foo : public Bar {\n};\nstruct P { int x; };\n";
    let r = CppAnalyzer::new().analyze(text, "a.cpp");
    assert_eq!(class_names(&r), vec!["Foo", "P"]);
    assert_eq!(import_paths(&r), vec!["stdio.h", "util.h"]);
    assert!(r.functions.is_empty());
    assert_eq!(CppAnalyzer::c().analyze(text, "a.c").language, Language::C);
}

#[test]
fn csharp_extraction_and_linq_half_weight() {
    let text = "using System.Text;\npublic class Foo : Bar {}\ninterface IX {}\n";
    let r = CSharpAnalyzer::new().analyze(text, "a.cs");
    assert_eq!(class_names(&r), vec!["Foo", "IX"]);
    assert_eq!(import_paths(&r), vec!["System.Text"]);
    let a = CSharpAnalyzer::new();
    assert_eq!(a.calculate_complexity("q where a").cyclomatic_complexity, 1);
    assert_eq!(a.calculate_complexity("q where a where b").cyclomatic_complexity, 2);
    assert_eq!(a.calculate_complexity("if (a) {}").cyclomatic_complexity, 2);
}

#[test]
fn python_extraction() {
    let text = "import os\nclass A(B):\n    def f(self):\n        if x and y:\n            pass\n";
    let r = PythonAnalyzer::new().analyze(text, "a.py");
    assert_eq!(class_names(&r), vec!["A"]);
    assert_eq!(function_names(&r), vec!["f"]);
    assert_eq!(r.functions[0].start_line, 3);
    assert_eq!(import_paths(&r), vec!["os"]);
    assert_eq!(r.complexity.cyclomatic_complexity, 3);
}

#[test]
fn javascript_extraction_and_complexity() {
    let text = "import x from 'react';\nconst y = require(\"lodash\");\nclass A {}\nfunction b() { if (a && c) { for (;;) {} } }";
    let r = JavaScriptAnalyzer::new().analyze(text, "a.js");
    assert_eq!(class_names(&r), vec!["A"]);
    assert_eq!(function_names(&r), vec!["b"]);
    assert_eq!(import_paths(&r), vec!["react", "lodash"]);
    assert_eq!(r.complexity.cyclomatic_complexity, 4);
    assert_eq!(r.complexity.max_nesting_depth, 3);
    assert_eq!(r.file_info.name, "a.js");
}

#[test]
fn nesting_depth_never_goes_negative() {
    let r = JavaScriptAnalyzer::new().calculate_complexity("}}}{}{{}}");
    assert_eq!(r.max_nesting_depth, 2);
}

#[test]
fn language_resolution() {
    assert_eq!(Language::from_extension("JS"), Language::JavaScript);
    assert_eq!(Language::from_extension(".tsx"), Language::TypeScript);
    assert_eq!(Language::from_extension("h++"), Language::Cpp);
    assert_eq!(Language::from_extension("h"), Language::C);
    assert_eq!(Language::from_extension("PYW"), Language::Python);
    assert_eq!(Language::from_extension("cs"), Language::CSharp);
    assert_eq!(Language::from_extension("go"), Language::Go);
    assert_eq!(Language::from_extension("rs"), Language::Rust);
    assert_eq!(Language::from_extension("txt"), Language::Unknown);
    assert_eq!(Language::from_extension(""), Language::Unknown);
    assert_eq!(Language::CSharp.name(), "C#");
    assert_eq!(Language::Cpp.name(), "C++");
}

#[test]
fn advertised_extensions_resolve_to_the_extractor_language() {
    for a in all_analyzers() {
        for ext in a.get_supported_extensions() {
            assert_eq!(Language::from_extension(ext), a.get_language());
        }
        assert_eq!(a.get_language_name(), a.get_language().name());
    }
}

#[test]
fn factory_fails_only_for_unknown() {
    assert!(matches!(AnalyzerFactory::create_analyzer(Language::Unknown), Err(AnalyzerError::UnsupportedLanguage)));
    for l in [
        Language::JavaScript,
        Language::TypeScript,
        Language::Cpp,
        Language::C,
        Language::Python,
        Language::CSharp,
        Language::Go,
        Language::Rust,
    ] {
        let a = AnalyzerFactory::create_analyzer(l).ok().unwrap();
        assert_eq!(a.get_language(), l);
    }
    let a = AnalyzerFactory::create_analyzer_from_extension("py").ok().unwrap();
    assert_eq!(a.get_language(), Language::Python);
    assert!(AnalyzerFactory::create_analyzer_from_extension("zzz").is_err());
}

#[test]
fn file_extensions() {
    assert_eq!(AnalyzerFactory::get_extension("dir/a.tar.gz"), Some("gz"));
    assert_eq!(AnalyzerFactory::get_extension("a.rs"), Some("rs"));
    assert_eq!(AnalyzerFactory::get_extension(".bashrc"), None);
    assert_eq!(AnalyzerFactory::get_extension("noext"), None);
    assert_eq!(AnalyzerFactory::get_extension("a.d/noext"), None);
    assert_eq!(AnalyzerFactory::get_extension(".."), None);
    assert_eq!(AnalyzerFactory::get_extension("a.b/"), Some("b"));
    assert_eq!(AnalyzerFactory::get_extension("a.b/."), Some("b"));
    assert_eq!(AnalyzerFactory::get_extension("a.b/.."), None);
    assert_eq!(AnalyzerFactory::get_extension("/"), None);
    assert_eq!(language_of_path("src/main.GO"), Language::Go);
    assert_eq!(language_of_path("README"), Language::Unknown);
}

#[test]
fn cpp_and_csharp_definitions() {
    let text = "int main(int argc) {\n  if (x) {\n  }\n  return 0;\n}\nvoid Foo::bar() {}\nint proto(int);\n";
    let r = CppAnalyzer::new().analyze(text, "m.cpp");
    assert_eq!(function_names(&r), vec!["main", "bar"]);
    assert_eq!(r.functions[1].start_line, 6);
    let cs = "public class A {\n  public void Run(int x) {\n    foreach (var y in xs) { }\n    lock (o) { }\n  }\n}";
    let r = CSharpAnalyzer::new().analyze(cs, "a.cs");
    assert_eq!(function_names(&r), vec!["Run"]);
    assert_eq!(class_names(&r), vec!["A"]);
    let go = GoAnalyzer::new().analyze("func main() { if (x) { } }", "m.go");
    assert_eq!(function_names(&go), vec!["main"]);
}

#[test]
fn async_functions_are_marked() {
    let r = RustAnalyzer::new().analyze("pub async fn run() {}\nfn plain() {}\n// asynchronous\nfn later() {}", "a.rs");
    let flags: Vec<bool> = r.functions.iter().map(|f| f.is_async).collect();
    assert_eq!(function_names(&r), vec!["run", "plain", "later"]);
    assert_eq!(flags, vec![true, false, false]);
    let py = PythonAnalyzer::new().analyze("async def f():\n    pass\ndef g():\n    pass\n", "a.py");
    assert!(py.functions[0].is_async);
    assert!(!py.functions[1].is_async);
    let js = JavaScriptAnalyzer::new().analyze("async function a() {}", "a.js");
    assert!(js.functions[0].is_async);
    let cs = CSharpAnalyzer::new().analyze("public async Task Run() {\n}\nvoid Stop() {\n}", "a.cs");
    assert_eq!(function_names(&cs), vec!["Run", "Stop"]);
    assert!(cs.functions[0].is_async);
    assert!(!cs.functions[1].is_async);
}

#[test]
fn javascript_methods_and_functions_once() {
    let text = "class TestClass {\n  method1() {}\n  method2(a, b) {\n    if (a) { }\n  }\n}\nfunction testFunc() {}\nconst f = function () {};\n";
    let r = JavaScriptAnalyzer::new().analyze(text, "t.js");
    assert_eq!(class_names(&r), vec!["TestClass"]);
    assert_eq!(function_names(&r), vec!["method1", "method2", "testFunc"]);
    assert_eq!(r.functions[1].start_line, 3);
}

#[test]
fn type_parents() {
    let cpp = CppAnalyzer::new().analyze("class Foo : public Bar {\n};\nstruct P { int x; };\n", "a.cpp");
    let parents: Vec<&str> = cpp.classes.iter().map(|c| c.parent_class.as_str()).collect();
    assert_eq!(parents, vec!["Bar", ""]);
    let cs = CSharpAnalyzer::new().analyze("public class Foo : Base, IThing {}", "a.cs");
    assert_eq!(cs.classes[0].parent_class, "Base");
    let py = PythonAnalyzer::new().analyze("class A(B):\n    pass\nclass C:\n    pass\n", "a.py");
    assert_eq!(py.classes[0].parent_class, "B");
    assert_eq!(py.classes[1].parent_class, "");
    let js = JavaScriptAnalyzer::new().analyze("class A extends B {}\nclass C {}", "a.js");
    assert_eq!(js.classes[0].parent_class, "B");
    assert_eq!(js.classes[1].parent_class, "");
    let rs = RustAnalyzer::new().analyze("struct W(u32);", "a.rs");
    assert_eq!(rs.classes[0].parent_class, "");
}

#[test]
fn records_end_where_their_body_closes() {
    let go = GoAnalyzer::new().analyze("func main() {\n  if x {\n  }\n}\nfunc open() {", "m.go");
    assert_eq!((go.functions[0].start_line, go.functions[0].end_line), (1, 4));
    assert_eq!((go.functions[1].start_line, go.functions[1].end_line), (5, 5));
    let js = JavaScriptAnalyzer::new().analyze("class A {\n  m() {\n  }\n}", "a.js");
    assert_eq!((js.classes[0].start_line, js.classes[0].end_line), (1, 4));
    assert_eq!((js.functions[0].start_line, js.functions[0].end_line), (2, 3));
    let cpp = CppAnalyzer::new().analyze("class Foo;\nclass Bar {\n};\n", "a.h");
    assert_eq!((cpp.classes[0].start_line, cpp.classes[0].end_line), (1, 1));
    assert_eq!((cpp.classes[1].start_line, cpp.classes[1].end_line), (2, 3));
    let py = PythonAnalyzer::new().analyze("def f():\n    return {}\n", "a.py");
    assert_eq!((py.functions[0].start_line, py.functions[0].end_line), (1, 1));
}

#[test]
fn javascript_arrow_functions() {
    let text = "const add = (a, b) => a + b;\nlet inc = x => x + 1;\nconst load = async (u) => {\n  await u;\n};\nuseEffect(() => {});\nif (a == b) {}\nconst f = function () {};\n";
    let r = JavaScriptAnalyzer::new().analyze(text, "a.js");
    assert_eq!(function_names(&r), vec!["add", "inc", "load"]);
    assert!(r.functions.iter().all(|f| f.is_arrow_function));
    assert_eq!((r.functions[2].start_line, r.functions[2].end_line), (3, 5));
    let plain = JavaScriptAnalyzer::new().analyze("function g() {}\nconst h = () => 1;", "b.js");
    assert_eq!(function_names(&plain), vec!["g", "h"]);
    assert!(!plain.functions[0].is_arrow_function);
    assert!(plain.functions[1].is_arrow_function);
}

#[test]
fn record_tags() {
    let cs = CSharpAnalyzer::new().analyze("interface IX {}\nclass C {}\nstruct S {}\npublic static void Run() {\n}\n", "a.cs");
    let tags: Vec<Vec<String>> = cs.classes.iter().map(|c| c.tags.clone()).collect();
    assert_eq!(tags, vec![vec![], vec!["is_interface".to_string()], vec!["is_struct".to_string()]]);
    assert_eq!(cs.functions[0].tags, vec!["is_static".to_string()]);
    let cpp = CppAnalyzer::new().analyze("#include <stdio.h>\n#include \"util.h\"\nvirtual void f() {}\n", "a.cpp");
    assert_eq!(cpp.imports[0].tags, vec!["is_system_header".to_string()]);
    assert!(cpp.imports[1].tags.is_empty());
    assert_eq!(cpp.functions[0].tags, vec!["is_virtual".to_string()]);
    let rs = RustAnalyzer::new().analyze("struct A;\nenum B {}\ntrait C {}\n", "a.rs");
    assert_eq!(rs.classes[1].tags, vec!["is_enum".to_string()]);
    assert_eq!(rs.classes[2].tags, vec!["is_trait".to_string()]);
    let uni = JavaScriptAnalyzer::new().analyze("class Größe {}\nfunction héllo() {}", "u.js");
    assert_eq!(class_names(&uni), vec!["Größe"]);
    assert_eq!(function_names(&uni), vec!["héllo"]);
}
