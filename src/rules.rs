//! The rule tables of each language: comment markers, branching keywords
//! and the anchors of type, function and import declarations.
use vstd::prelude::*;
use vstd::string::StringSliceAdditionalSpecFns;
use crate::extract::{anchors_view, table_view, Rules, RulesView};
use crate::lines::CommentStyle;
use crate::scan::{Anchor, BaseSyntax};
use crate::types::{ImportType, Language};

verus! {

/// The rules for C and C++.
pub open spec fn cpp_rules(language: Language) -> RulesView {
    RulesView {
        language,
        comments: CommentStyle::Slash,
        branches: seq![
            ("if".spec_bytes(), false),
            ("for".spec_bytes(), false),
            ("while".spec_bytes(), false),
            ("do".spec_bytes(), false),
            ("switch".spec_bytes(), false),
            ("case".spec_bytes(), false),
            ("catch".spec_bytes(), false),
            ("throw".spec_bytes(), false),
            ("&&".spec_bytes(), false),
            ("||".spec_bytes(), false),
            ("?".spec_bytes(), false),
        ],
        types: seq![
            ("class".spec_bytes(), Anchor::Decl),
            ("struct".spec_bytes(), Anchor::Decl),
        ],
        functions: seq![],
        imports: seq![
            ("#include".spec_bytes(), Anchor::Path),
        ],
        import_kind: ImportType::CppInclude,
        definitions: true,
        bases: Some(BaseSyntax::Colon),
        braces: true,
        arrows: false,
    }
}

pub fn cpp_rules_exec(language: Language) -> (r: Rules)
    ensures
        r@ == cpp_rules(language),
        r.wf(),
{
    let r = Rules {
        language,
        comments: CommentStyle::Slash,
        branches: vec![
            ("if".as_bytes(), false),
            ("for".as_bytes(), false),
            ("while".as_bytes(), false),
            ("do".as_bytes(), false),
            ("switch".as_bytes(), false),
            ("case".as_bytes(), false),
            ("catch".as_bytes(), false),
            ("throw".as_bytes(), false),
            ("&&".as_bytes(), false),
            ("||".as_bytes(), false),
            ("?".as_bytes(), false),
        ],
        type_anchors: vec![
            ("class".as_bytes(), Anchor::Decl),
            ("struct".as_bytes(), Anchor::Decl),
        ],
        function_anchors: Vec::new(),
        import_anchors: vec![
            ("#include".as_bytes(), Anchor::Path),
        ],
        import_kind: ImportType::CppInclude,
        definitions: true,
        bases: Some(BaseSyntax::Colon),
        braces: true,
        arrows: false,
    };
    proof {
        assert(table_view(r.branches@) =~= cpp_rules(language).branches);
        assert(anchors_view(r.type_anchors@) =~= cpp_rules(language).types);
        assert(anchors_view(r.function_anchors@) =~= cpp_rules(language).functions);
        assert(anchors_view(r.import_anchors@) =~= cpp_rules(language).imports);
    }
    r
}

/// The rules for C#; the LINQ query keywords count at half weight.
pub open spec fn csharp_rules(language: Language) -> RulesView {
    RulesView {
        language,
        comments: CommentStyle::Slash,
        branches: seq![
            ("if".spec_bytes(), false),
            ("for".spec_bytes(), false),
            ("foreach".spec_bytes(), false),
            ("while".spec_bytes(), false),
            ("do".spec_bytes(), false),
            ("switch".spec_bytes(), false),
            ("case".spec_bytes(), false),
            ("catch".spec_bytes(), false),
            ("throw".spec_bytes(), false),
            ("&&".spec_bytes(), false),
            ("||".spec_bytes(), false),
            ("??".spec_bytes(), false),
            ("async".spec_bytes(), false),
            ("await".spec_bytes(), false),
            ("yield".spec_bytes(), false),
            ("from".spec_bytes(), true),
            ("where".spec_bytes(), true),
            ("select".spec_bytes(), true),
            ("group".spec_bytes(), true),
            ("join".spec_bytes(), true),
            ("orderby".spec_bytes(), true),
        ],
        types: seq![
            ("class".spec_bytes(), Anchor::Decl),
            ("interface".spec_bytes(), Anchor::Decl),
            ("struct".spec_bytes(), Anchor::Decl),
            ("enum".spec_bytes(), Anchor::Decl),
        ],
        functions: seq![],
        imports: seq![
            ("using".spec_bytes(), Anchor::Path),
        ],
        import_kind: ImportType::CSharpUsing,
        definitions: true,
        bases: Some(BaseSyntax::Colon),
        braces: true,
        arrows: false,
    }
}

pub fn csharp_rules_exec(language: Language) -> (r: Rules)
    ensures
        r@ == csharp_rules(language),
        r.wf(),
{
    let r = Rules {
        language,
        comments: CommentStyle::Slash,
        branches: vec![
            ("if".as_bytes(), false),
            ("for".as_bytes(), false),
            ("foreach".as_bytes(), false),
            ("while".as_bytes(), false),
            ("do".as_bytes(), false),
            ("switch".as_bytes(), false),
            ("case".as_bytes(), false),
            ("catch".as_bytes(), false),
            ("throw".as_bytes(), false),
            ("&&".as_bytes(), false),
            ("||".as_bytes(), false),
            ("??".as_bytes(), false),
            ("async".as_bytes(), false),
            ("await".as_bytes(), false),
            ("yield".as_bytes(), false),
            ("from".as_bytes(), true),
            ("where".as_bytes(), true),
            ("select".as_bytes(), true),
            ("group".as_bytes(), true),
            ("join".as_bytes(), true),
            ("orderby".as_bytes(), true),
        ],
        type_anchors: vec![
            ("class".as_bytes(), Anchor::Decl),
            ("interface".as_bytes(), Anchor::Decl),
            ("struct".as_bytes(), Anchor::Decl),
            ("enum".as_bytes(), Anchor::Decl),
        ],
        function_anchors: Vec::new(),
        import_anchors: vec![
            ("using".as_bytes(), Anchor::Path),
        ],
        import_kind: ImportType::CSharpUsing,
        definitions: true,
        bases: Some(BaseSyntax::Colon),
        braces: true,
        arrows: false,
    };
    proof {
        assert(table_view(r.branches@) =~= csharp_rules(language).branches);
        assert(anchors_view(r.type_anchors@) =~= csharp_rules(language).types);
        assert(anchors_view(r.function_anchors@) =~= csharp_rules(language).functions);
        assert(anchors_view(r.import_anchors@) =~= csharp_rules(language).imports);
    }
    r
}

/// The rules for Go.
pub open spec fn go_rules(language: Language) -> RulesView {
    RulesView {
        language,
        comments: CommentStyle::Slash,
        branches: seq![
            ("if".spec_bytes(), false),
            ("else".spec_bytes(), false),
            ("for".spec_bytes(), false),
            ("switch".spec_bytes(), false),
            ("case".spec_bytes(), false),
            ("select".spec_bytes(), false),
            ("go".spec_bytes(), false),
            ("defer".spec_bytes(), false),
            ("&&".spec_bytes(), false),
            ("||".spec_bytes(), false),
        ],
        types: seq![
            ("type".spec_bytes(), Anchor::Decl),
        ],
        functions: seq![
            ("func".spec_bytes(), Anchor::Receiver),
        ],
        imports: seq![
            ("import".spec_bytes(), Anchor::Path),
        ],
        import_kind: ImportType::GoImport,
        definitions: false,
        bases: None,
        braces: true,
        arrows: false,
    }
}

pub fn go_rules_exec(language: Language) -> (r: Rules)
    ensures
        r@ == go_rules(language),
        r.wf(),
{
    let r = Rules {
        language,
        comments: CommentStyle::Slash,
        branches: vec![
            ("if".as_bytes(), false),
            ("else".as_bytes(), false),
            ("for".as_bytes(), false),
            ("switch".as_bytes(), false),
            ("case".as_bytes(), false),
            ("select".as_bytes(), false),
            ("go".as_bytes(), false),
            ("defer".as_bytes(), false),
            ("&&".as_bytes(), false),
            ("||".as_bytes(), false),
        ],
        type_anchors: vec![
            ("type".as_bytes(), Anchor::Decl),
        ],
        function_anchors: vec![
            ("func".as_bytes(), Anchor::Receiver),
        ],
        import_anchors: vec![
            ("import".as_bytes(), Anchor::Path),
        ],
        import_kind: ImportType::GoImport,
        definitions: false,
        bases: None,
        braces: true,
        arrows: false,
    };
    proof {
        assert(table_view(r.branches@) =~= go_rules(language).branches);
        assert(anchors_view(r.type_anchors@) =~= go_rules(language).types);
        assert(anchors_view(r.function_anchors@) =~= go_rules(language).functions);
        assert(anchors_view(r.import_anchors@) =~= go_rules(language).imports);
    }
    r
}

/// The rules for Rust.
pub open spec fn rust_rules(language: Language) -> RulesView {
    RulesView {
        language,
        comments: CommentStyle::Slash,
        branches: seq![
            ("if".spec_bytes(), false),
            ("else".spec_bytes(), false),
            ("for".spec_bytes(), false),
            ("while".spec_bytes(), false),
            ("loop".spec_bytes(), false),
            ("match".spec_bytes(), false),
            ("&&".spec_bytes(), false),
            ("||".spec_bytes(), false),
            ("?".spec_bytes(), false),
            ("async".spec_bytes(), false),
            ("await".spec_bytes(), false),
            ("=>".spec_bytes(), false),
        ],
        types: seq![
            ("struct".spec_bytes(), Anchor::Decl),
            ("enum".spec_bytes(), Anchor::Decl),
            ("trait".spec_bytes(), Anchor::Decl),
        ],
        functions: seq![
            ("fn".spec_bytes(), Anchor::Decl),
        ],
        imports: seq![
            ("use".spec_bytes(), Anchor::Path),
        ],
        import_kind: ImportType::RustUse,
        definitions: false,
        bases: None,
        braces: true,
        arrows: false,
    }
}

pub fn rust_rules_exec(language: Language) -> (r: Rules)
    ensures
        r@ == rust_rules(language),
        r.wf(),
{
    let r = Rules {
        language,
        comments: CommentStyle::Slash,
        branches: vec![
            ("if".as_bytes(), false),
            ("else".as_bytes(), false),
            ("for".as_bytes(), false),
            ("while".as_bytes(), false),
            ("loop".as_bytes(), false),
            ("match".as_bytes(), false),
            ("&&".as_bytes(), false),
            ("||".as_bytes(), false),
            ("?".as_bytes(), false),
            ("async".as_bytes(), false),
            ("await".as_bytes(), false),
            ("=>".as_bytes(), false),
        ],
        type_anchors: vec![
            ("struct".as_bytes(), Anchor::Decl),
            ("enum".as_bytes(), Anchor::Decl),
            ("trait".as_bytes(), Anchor::Decl),
        ],
        function_anchors: vec![
            ("fn".as_bytes(), Anchor::Decl),
        ],
        import_anchors: vec![
            ("use".as_bytes(), Anchor::Path),
        ],
        import_kind: ImportType::RustUse,
        definitions: false,
        bases: None,
        braces: true,
        arrows: false,
    };
    proof {
        assert(table_view(r.branches@) =~= rust_rules(language).branches);
        assert(anchors_view(r.type_anchors@) =~= rust_rules(language).types);
        assert(anchors_view(r.function_anchors@) =~= rust_rules(language).functions);
        assert(anchors_view(r.import_anchors@) =~= rust_rules(language).imports);
    }
    r
}

/// The rules for Python.
pub open spec fn python_rules(language: Language) -> RulesView {
    RulesView {
        language,
        comments: CommentStyle::Hash,
        branches: seq![
            ("if".spec_bytes(), false),
            ("elif".spec_bytes(), false),
            ("for".spec_bytes(), false),
            ("while".spec_bytes(), false),
            ("case".spec_bytes(), false),
            ("except".spec_bytes(), false),
            ("and".spec_bytes(), false),
            ("or".spec_bytes(), false),
        ],
        types: seq![
            ("class".spec_bytes(), Anchor::Decl),
        ],
        functions: seq![
            ("def".spec_bytes(), Anchor::Decl),
        ],
        imports: seq![
            ("import".spec_bytes(), Anchor::Path),
        ],
        import_kind: ImportType::PythonImport,
        definitions: false,
        bases: Some(BaseSyntax::Paren),
        braces: false,
        arrows: false,
    }
}

pub fn python_rules_exec(language: Language) -> (r: Rules)
    ensures
        r@ == python_rules(language),
        r.wf(),
{
    let r = Rules {
        language,
        comments: CommentStyle::Hash,
        branches: vec![
            ("if".as_bytes(), false),
            ("elif".as_bytes(), false),
            ("for".as_bytes(), false),
            ("while".as_bytes(), false),
            ("case".as_bytes(), false),
            ("except".as_bytes(), false),
            ("and".as_bytes(), false),
            ("or".as_bytes(), false),
        ],
        type_anchors: vec![
            ("class".as_bytes(), Anchor::Decl),
        ],
        function_anchors: vec![
            ("def".as_bytes(), Anchor::Decl),
        ],
        import_anchors: vec![
            ("import".as_bytes(), Anchor::Path),
        ],
        import_kind: ImportType::PythonImport,
        definitions: false,
        bases: Some(BaseSyntax::Paren),
        braces: false,
        arrows: false,
    };
    proof {
        assert(table_view(r.branches@) =~= python_rules(language).branches);
        assert(anchors_view(r.type_anchors@) =~= python_rules(language).types);
        assert(anchors_view(r.function_anchors@) =~= python_rules(language).functions);
        assert(anchors_view(r.import_anchors@) =~= python_rules(language).imports);
    }
    r
}

/// The rules for JavaScript and TypeScript.
pub open spec fn javascript_rules(language: Language) -> RulesView {
    RulesView {
        language,
        comments: CommentStyle::Slash,
        branches: seq![
            ("if".spec_bytes(), false),
            ("else".spec_bytes(), false),
            ("for".spec_bytes(), false),
            ("while".spec_bytes(), false),
            ("switch".spec_bytes(), false),
            ("case".spec_bytes(), false),
            ("catch".spec_bytes(), false),
            ("&&".spec_bytes(), false),
            ("||".spec_bytes(), false),
        ],
        types: seq![
            ("class".spec_bytes(), Anchor::Decl),
        ],
        functions: seq![],
        imports: seq![
            ("from".spec_bytes(), Anchor::Path),
            ("require".spec_bytes(), Anchor::Path),
        ],
        import_kind: ImportType::Es6Import,
        definitions: true,
        bases: Some(BaseSyntax::Extends),
        braces: true,
        arrows: true,
    }
}

pub fn javascript_rules_exec(language: Language) -> (r: Rules)
    ensures
        r@ == javascript_rules(language),
        r.wf(),
{
    let r = Rules {
        language,
        comments: CommentStyle::Slash,
        branches: vec![
            ("if".as_bytes(), false),
            ("else".as_bytes(), false),
            ("for".as_bytes(), false),
            ("while".as_bytes(), false),
            ("switch".as_bytes(), false),
            ("case".as_bytes(), false),
            ("catch".as_bytes(), false),
            ("&&".as_bytes(), false),
            ("||".as_bytes(), false),
        ],
        type_anchors: vec![
            ("class".as_bytes(), Anchor::Decl),
        ],
        function_anchors: Vec::new(),
        import_anchors: vec![
            ("from".as_bytes(), Anchor::Path),
            ("require".as_bytes(), Anchor::Path),
        ],
        import_kind: ImportType::Es6Import,
        definitions: true,
        bases: Some(BaseSyntax::Extends),
        braces: true,
        arrows: true,
    };
    proof {
        assert(table_view(r.branches@) =~= javascript_rules(language).branches);
        assert(anchors_view(r.type_anchors@) =~= javascript_rules(language).types);
        assert(anchors_view(r.function_anchors@) =~= javascript_rules(language).functions);
        assert(anchors_view(r.import_anchors@) =~= javascript_rules(language).imports);
    }
    r
}

} // verus!
