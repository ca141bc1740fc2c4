use demongrep::extractor::{
    get_extractor, BashExtractor, CSharpExtractor, ChunkKind, CppExtractor, Extractor,
    BodyStatement, Declarator, GoExtractor, JavaExtractor, Language, NamedChild, NodeField, NodeText, PhpExtractor, PythonExtractor, RubyExtractor,
    RustExtractor, SyntaxNode, TypeScriptExtractor,
};

fn node(kind: &str, parent: Option<&str>, grand: Option<&str>, fields: &[(&str, &str)]) -> SyntaxNode {
    SyntaxNode {
        kind: kind.to_string(),
        parent_kind: parent.map(|s| s.to_string()),
        grandparent_kind: grand.map(|s| s.to_string()),
        fields: fields
            .iter()
            .map(|(n, t)| NodeField { name: n.to_string(), kind: "identifier".to_string(), text: t.to_string() })
            .collect(),
        prev_sibling: None,
        body_first: None,
        innermost_declarator: None,
        named_children: Vec::new(),
    }
}

fn comment(kind: &str, text: &str) -> Option<NodeText> {
    Some(NodeText { kind: kind.to_string(), text: text.to_string() })
}

#[test]
fn test_get_extractor() {
    assert!(get_extractor(Language::Rust).is_some());
    assert!(get_extractor(Language::Python).is_some());
    assert!(get_extractor(Language::JavaScript).is_some());
    assert!(get_extractor(Language::TypeScript).is_some());
    assert!(get_extractor(Language::CSharp).is_some());
    assert!(get_extractor(Language::Go).is_some());
    assert!(get_extractor(Language::Java).is_some());
    assert!(get_extractor(Language::C).is_some());
    assert!(get_extractor(Language::Cpp).is_some());
    assert!(get_extractor(Language::Ruby).is_some());
    assert!(get_extractor(Language::Php).is_some());
    assert!(get_extractor(Language::Shell).is_some());
    assert!(get_extractor(Language::Markdown).is_none());
}

#[test]
fn test_rust_definition_types() {
    let extractor = RustExtractor;
    let types = extractor.definition_types();
    assert!(types.contains(&"function_item"));
    assert!(types.contains(&"struct_item"));
    assert!(types.contains(&"enum_item"));
    assert!(types.contains(&"impl_item"));
}

#[test]
fn test_python_definition_types() {
    let extractor = PythonExtractor;
    let types = extractor.definition_types();
    assert!(types.contains(&"function_definition"));
    assert!(types.contains(&"class_definition"));
}

#[test]
fn test_go_definition_types() {
    let extractor = GoExtractor;
    let types = extractor.definition_types();
    assert!(types.contains(&"function_declaration"));
    assert!(types.contains(&"method_declaration"));
}

#[test]
fn test_java_definition_types() {
    let extractor = JavaExtractor;
    let types = extractor.definition_types();
    assert!(types.contains(&"method_declaration"));
    assert!(types.contains(&"class_declaration"));
}

#[test]
fn test_csharp_definition_types() {
    let extractor = CSharpExtractor;
    let types = extractor.definition_types();
    assert!(types.contains(&"method_declaration"));
    assert!(types.contains(&"class_declaration"));
    assert!(types.contains(&"interface_declaration"));
    assert!(types.contains(&"namespace_declaration"));
}

#[test]
fn test_cpp_definition_types() {
    let extractor = CppExtractor;
    let types = extractor.definition_types();
    assert!(types.contains(&"function_definition"));
    assert!(types.contains(&"class_specifier"));
    assert!(types.contains(&"struct_specifier"));
}

#[test]
fn test_ruby_definition_types() {
    let extractor = RubyExtractor;
    let types = extractor.definition_types();
    assert!(types.contains(&"method"));
    assert!(types.contains(&"class"));
    assert!(types.contains(&"module"));
}

#[test]
fn test_php_definition_types() {
    let extractor = PhpExtractor;
    let types = extractor.definition_types();
    assert!(types.contains(&"function_definition"));
    assert!(types.contains(&"class_declaration"));
    assert!(types.contains(&"method_declaration"));
}

#[test]
fn test_bash_definition_types() {
    let extractor = BashExtractor;
    let types = extractor.definition_types();
    assert!(types.contains(&"function_definition"));
}

#[test]
fn rust_function_signature_and_label() {
    let n = node(
        "function_item",
        Some("source_file"),
        None,
        &[("name", "sort"), ("type_parameters", "<T: Ord>"), ("parameters", "(items: Vec<T>)"), ("return_type", "Vec<T>")],
    );
    assert_eq!(RustExtractor.extract_signature(&n), Some("fn sort<T: Ord>(items: Vec<T>) -> Vec<T>".to_string()));
    assert_eq!(RustExtractor.classify(&n), ChunkKind::Function);
    assert_eq!(Extractor::Rust.build_label(&n), Some("Function: sort".to_string()));
}

#[test]
fn rust_method_inside_impl() {
    let n = node("function_item", Some("declaration_list"), Some("impl_item"), &[("name", "evict_lru"), ("parameters", "(&mut self)")]);
    assert_eq!(RustExtractor.classify(&n), ChunkKind::Method);
    assert_eq!(Extractor::Rust.build_label(&n), Some("Method: evict_lru".to_string()));
    assert_eq!(RustExtractor.extract_signature(&n), Some("fn evict_lru(&mut self)".to_string()));
}

#[test]
fn rust_impl_signature() {
    let n = node("impl_item", None, None, &[("type_parameters", "<T>"), ("trait", "Display"), ("type", "Wrapper<T>")]);
    assert_eq!(RustExtractor.extract_signature(&n), Some("impl<T> Display for Wrapper<T>".to_string()));
    assert_eq!(RustExtractor.classify(&n), ChunkKind::Impl);
    assert_eq!(Extractor::Rust.build_label(&n), None);
}

#[test]
fn signatures_of_other_languages() {
    let py = node("function_definition", Some("block"), Some("class_definition"), &[("name", "process"), ("parameters", "(self, data)"), ("return_type", "int")]);
    assert_eq!(PythonExtractor.extract_signature(&py), Some("def process(self, data) -> int".to_string()));
    assert_eq!(PythonExtractor.classify(&py), ChunkKind::Method);
    let ts = node("function_declaration", None, None, &[("name", "compute"), ("parameters", "(x: number)"), ("return_type", "string")]);
    assert_eq!(TypeScriptExtractor.extract_signature(&ts), Some("function compute(x: number): string".to_string()));
    let go = node("method_declaration", None, None, &[("receiver", "(s *Server)"), ("name", "Run"), ("parameters", "()")]);
    assert_eq!(GoExtractor.extract_signature(&go), Some("func (s *Server) Run()".to_string()));
    let cs = node("method_declaration", Some("declaration_list"), None, &[("type", "int"), ("name", "Add"), ("parameters", "(int a)")]);
    assert_eq!(CSharpExtractor.extract_signature(&cs), Some("int Add(int a)".to_string()));
    assert_eq!(CSharpExtractor.classify(&cs), ChunkKind::Method);
    let java = node("interface_declaration", None, None, &[("name", "Shape")]);
    assert_eq!(JavaExtractor.extract_signature(&java), Some("interface Shape".to_string()));
    let cpp = node("function_definition", None, None, &[("type", "int"), ("declarator", "main(void)")]);
    assert_eq!(CppExtractor.extract_signature(&cpp), Some("int main(void)".to_string()));
    let rb = node("module", None, None, &[("name", "Util")]);
    assert_eq!(RubyExtractor.extract_signature(&rb), Some("module Util".to_string()));
    assert_eq!(RubyExtractor.classify(&rb), ChunkKind::Mod);
    let php = node("trait_declaration", None, None, &[("name", "Loggable")]);
    assert_eq!(PhpExtractor.extract_signature(&php), Some("trait Loggable".to_string()));
    let sh = node("function_definition", None, None, &[("name", "build")]);
    assert_eq!(BashExtractor.extract_signature(&sh), Some("function build".to_string()));
    let other = node("comment", None, None, &[]);
    assert_eq!(BashExtractor.extract_signature(&other), None);
    assert_eq!(BashExtractor.classify(&other), ChunkKind::Other);
}

#[test]
fn is_definition_checks_kind() {
    let n = node("struct_item", None, None, &[("name", "UserConfig")]);
    assert!(Extractor::Rust.is_definition(&n));
    assert!(!Extractor::Python.is_definition(&n));
    assert_eq!(Extractor::Rust.build_label(&n), Some("Struct: UserConfig".to_string()));
    assert_eq!(Extractor::Rust.extract_name(&n), Some("UserConfig".to_string()));
}

#[test]
fn docstrings_by_language() {
    let mut n = node("function_item", None, None, &[("name", "f")]);
    n.prev_sibling = comment("line_comment", "  /// Sorts things.");
    assert_eq!(Extractor::Rust.extract_docstring(&n), Some("  /// Sorts things.".to_string()));
    n.prev_sibling = comment("line_comment", "// plain");
    assert_eq!(Extractor::Rust.extract_docstring(&n), None);
    n.prev_sibling = comment("comment", "// any comment");
    assert_eq!(Extractor::Go.extract_docstring(&n), Some("// any comment".to_string()));
    n.prev_sibling = comment("block_comment", " /** doc */");
    assert_eq!(Extractor::Java.extract_docstring(&n), None);
    n.prev_sibling = comment("block_comment", "/** doc */");
    assert_eq!(Extractor::Java.extract_docstring(&n), Some("/** doc */".to_string()));
    n.prev_sibling = None;
    assert_eq!(Extractor::Bash.extract_docstring(&n), None);

    let mut py = node("function_definition", None, None, &[("name", "f")]);
    py.body_first = Some(BodyStatement {
        kind: "expression_statement".to_string(),
        children: vec![NodeText { kind: "string".to_string(), text: "\"\"\"Doc.\"\"\"".to_string() }],
    });
    assert_eq!(Extractor::Python.extract_docstring(&py), Some("\"\"\"Doc.\"\"\"".to_string()));
    py.body_first = Some(BodyStatement { kind: "return_statement".to_string(), children: vec![] });
    assert_eq!(Extractor::Python.extract_docstring(&py), None);
}

#[test]
fn cpp_names_come_from_declarators() {
    let mut n = node("function_definition", None, None, &[("type", "int"), ("declarator", "*make(void)")]);
    n.innermost_declarator = Some(Declarator {
        kind: "identifier".to_string(),
        text: "make".to_string(),
        name: None,
        first_identifier: None,
    });
    assert_eq!(Extractor::Cpp.extract_name(&n), Some("make".to_string()));
    assert_eq!(Extractor::Cpp.build_label(&n), Some("Function: make".to_string()));
    n.innermost_declarator = Some(Declarator {
        kind: "qualified_identifier".to_string(),
        text: "ns::run".to_string(),
        name: Some("run".to_string()),
        first_identifier: Some("ns".to_string()),
    });
    assert_eq!(Extractor::Cpp.extract_name(&n), Some("run".to_string()));
    n.innermost_declarator = Some(Declarator {
        kind: "parenthesized_declarator".to_string(),
        text: "(x)".to_string(),
        name: None,
        first_identifier: None,
    });
    assert_eq!(Extractor::Cpp.extract_name(&n), None);
    let s = node("struct_specifier", None, None, &[("name", "Point")]);
    assert_eq!(Extractor::Cpp.build_label(&s), Some("Struct: Point".to_string()));
}

#[test]
fn typescript_variable_declarations_are_named_by_declarator() {
    let mut n = node("lexical_declaration", None, None, &[]);
    n.named_children = vec![
        NamedChild { kind: "comment".to_string(), name: None },
        NamedChild { kind: "variable_declarator".to_string(), name: Some("handler".to_string()) },
    ];
    assert_eq!(Extractor::TypeScript.extract_name(&n), Some("handler".to_string()));
    assert_eq!(Extractor::TypeScript.build_label(&n), Some("Function: handler".to_string()));
    assert_eq!(Extractor::Rust.extract_name(&n), None);
}
