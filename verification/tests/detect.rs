use docgen::syntax::SyntaxNode;
use docgen::detect::{
    get_jsx_self_closing_name,
    needs_docstrings, python_has_missing_docstrings, ts_has_missing_docstrings,
    tsx_get_container_candidates,
};

#[test]
fn py_fn_without_docstring() {
    assert!(python_has_missing_docstrings("def foo():\n    pass\n", false));
}

#[test]
fn py_fn_with_docstring_not_flagged() {
    assert!(!python_has_missing_docstrings(
        "def foo():\n    \"\"\"Doc.\"\"\"\n    pass\n",
        false
    ));
}

#[test]
fn py_class_without_docstring() {
    assert!(python_has_missing_docstrings("class Foo:\n    pass\n", false));
}

#[test]
fn py_force_flags_documented() {
    assert!(python_has_missing_docstrings(
        "def foo():\n    \"\"\"Exists.\"\"\"\n    pass\n",
        true
    ));
}

#[test]
fn ts_fn_without_jsdoc() {
    assert!(ts_has_missing_docstrings("function foo(): void {}\n", false));
}

#[test]
fn ts_fn_with_jsdoc_not_flagged() {
    assert!(!ts_has_missing_docstrings(
        "/** Does something. */\nfunction foo(): void {}\n",
        false
    ));
}

#[test]
fn ts_class_without_jsdoc() {
    assert!(ts_has_missing_docstrings("class Bar {}\n", false));
}

#[test]
fn ts_force_flags_documented() {
    assert!(ts_has_missing_docstrings(
        "/** Exists. */\nfunction foo(): void {}\n",
        true
    ));
}

#[test]
fn dispatches_by_extension() {
    assert!(needs_docstrings("a.py", "def foo():\n    pass\n", false));
    assert!(needs_docstrings("a.ts", "function foo(): void {}\n", false));
    assert!(!needs_docstrings("a.md", "# Hello", false));
}

#[test]
fn test_container_candidates_direct_return() {
    let source = r#"
function DashboardPage() {
  return (
    <Layout>
      <Sidebar />
      <Content />
      <Actions />
    </Layout>
  );
}
"#;
    let candidates = tsx_get_container_candidates(source);
    assert_eq!(candidates.len(), 1);
    assert_eq!(candidates[0].component_name, "DashboardPage");
    assert_eq!(candidates[0].element_type, "Layout");
    assert_eq!(candidates[0].children, vec!["Sidebar", "Content", "Actions"]);
}

#[test]
fn test_container_atomic_component_skipped() {
    let source = r#"
function Page() {
  return (
    <div>
      <Button />
      <Input />
    </div>
  );
}
"#;
    let candidates = tsx_get_container_candidates(source);
    assert_eq!(candidates.len(), 0, "Should skip atomic components");
}

#[test]
fn test_container_single_child_skipped() {
    let source = r#"
function Page() {
  return (
    <Layout>
      <Content />
    </Layout>
  );
}
"#;
    let candidates = tsx_get_container_candidates(source);
    assert_eq!(candidates.len(), 0, "Should skip single child containers");
}

#[test]
fn py_method_without_docstring_in_documented_class() {
    let src = "class Foo:\n    \"\"\"Doc.\"\"\"\n    def bar(self):\n        return 1\n";
    assert!(python_has_missing_docstrings(src, false));
}

#[test]
fn py_fully_documented_not_flagged() {
    let src = "class Foo:\n    \"\"\"Doc.\"\"\"\n    def bar(self):\n        \"\"\"Bar.\"\"\"\n        return 1\n";
    assert!(!python_has_missing_docstrings(src, false));
    assert!(python_has_missing_docstrings(src, true));
}

#[test]
fn py_without_definitions_never_flagged() {
    assert!(!python_has_missing_docstrings("x = 1\nprint(x)\n", false));
    assert!(!python_has_missing_docstrings("x = 1\nprint(x)\n", true));
    assert!(!python_has_missing_docstrings("", true));
}

#[test]
fn py_number_first_is_not_a_docstring() {
    assert!(python_has_missing_docstrings("def foo():\n    1\n", false));
}

#[test]
fn ts_comment_after_whitespace_counts() {
    assert!(!ts_has_missing_docstrings("/** Doc. */\n\n   \nclass A {}\n", false));
    assert!(ts_has_missing_docstrings("// line comment\nclass A {}\n", false));
}

#[test]
fn ts_method_without_jsdoc() {
    let src = "/** A. */\nclass A {\n  m(): void {}\n}\n";
    assert!(ts_has_missing_docstrings(src, false));
    let doc = "/** A. */\nclass A {\n  /** M. */\n  m(): void {}\n}\n";
    assert!(!ts_has_missing_docstrings(doc, false));
}

#[test]
fn ts_non_ascii_text_before_declaration() {
    let src = "/** Größe — ok. */\nfunction größe(): void {}\n";
    assert!(!ts_has_missing_docstrings(src, false));
}

#[test]
fn needs_docstrings_by_path() {
    assert!(needs_docstrings("src/app/x.tsx", "function foo(): void {}\n", false));
    assert!(!needs_docstrings("src/app/.py", "def foo():\n    pass\n", false));
    assert!(!needs_docstrings("dir.py/", "# nothing\n", false));
    assert!(needs_docstrings("dir/a.py/", "def foo():\n    pass\n", false));
    assert!(!needs_docstrings("a.PY", "def foo():\n    pass\n", false));
}

#[test]
fn container_arrow_functions_are_not_candidates() {
    // The TSX grammar stores a declarator's value under `value`, not `init`,
    // so arrow-function variables never yield a candidate.
    let block = "const Panel = () => {\n  return <Frame>\n    <Top />\n    <Bottom />\n  </Frame>;\n};\n";
    assert_eq!(tsx_get_container_candidates(block).len(), 0);
    let jsx_body = "const Panel = () => <Frame>\n    <Top />\n    <Bottom />\n  </Frame>;\n";
    assert_eq!(tsx_get_container_candidates(jsx_body).len(), 0);
}

#[test]
fn container_functions_in_document_order() {
    let source = "const B = () => <Box><X /><Y /></Box>;\nfunction A() {\n  return <Grid><P /><Q /></Grid>;\n}\nfunction C() {\n  return <Row><P /><Q /></Row>;\n}\n";
    let c = tsx_get_container_candidates(source);
    assert_eq!(c.len(), 2);
    assert_eq!(c[0].component_name, "A");
    assert_eq!(c[0].element_type, "Grid");
    assert_eq!(c[0].return_line, 3);
    assert_eq!(c[1].component_name, "C");
    assert_eq!(c[1].return_line, 6);
}

#[test]
fn container_fragment_and_plain_return() {
    let frag = "function F() {\n  return <><A /><B /></>;\n}\n";
    assert_eq!(tsx_get_container_candidates(frag).len(), 0);
    let not_jsx = "function F() {\n  return 1;\n}\n";
    assert_eq!(tsx_get_container_candidates(not_jsx).len(), 0);
    let two_returns = "function F(x: boolean) {\n  if (x) { return 1; }\n  return <Shell><A /><B /></Shell>;\n}\n";
    assert_eq!(tsx_get_container_candidates(two_returns).len(), 1);
    let second = "function F() {\n  const y = 1;\n  return <Shell><A /><B /></Shell>;\n}\n";
    let c = tsx_get_container_candidates(second);
    assert_eq!(c.len(), 1);
    assert_eq!(c[0].element_type, "Shell");
    assert_eq!(c[0].children, vec!["A", "B"]);
}

#[test]
fn container_line_number_of_returned_element() {
    let source = r#"
function DashboardPage() {
  return (
    <Layout>
      <Sidebar />
      <Content />
    </Layout>
  );
}
"#;
    let c = tsx_get_container_candidates(source);
    assert_eq!(c.len(), 1);
    assert_eq!(c[0].return_line, 4);
}

fn node(kind: &'static str, named: bool, depth: usize, start: usize, end: usize) -> SyntaxNode {
    SyntaxNode { kind, field: None, named, depth, start_byte: start, end_byte: end, start_row: 0 }
}

#[test]
fn self_closing_name_reads_dotted_and_plain_names() {
    let src: Vec<char> = "<Nav.Item>x</Nav.Item>".chars().collect();
    let tree = vec![
        node("jsx_element", true, 0, 0, 22),
        node("jsx_opening_element", true, 1, 0, 10),
        node("<", false, 2, 0, 1),
        node("member_expression", true, 2, 1, 9),
        node("identifier", true, 3, 1, 4),
        node(".", false, 3, 4, 5),
        node("property_identifier", true, 3, 5, 9),
        node(">", false, 2, 9, 10),
        node("jsx_text", true, 1, 10, 11),
    ];
    assert_eq!(get_jsx_self_closing_name(&tree, &src, 0), Some("Nav.Item".to_string()));
    assert_eq!(get_jsx_self_closing_name(&tree, &src, 8), None);

    let src: Vec<char> = "<Card>x</Card>".chars().collect();
    let tree = vec![
        node("jsx_element", true, 0, 0, 14),
        node("jsx_opening_element", true, 1, 0, 6),
        node("<", false, 2, 0, 1),
        node("identifier", true, 2, 1, 5),
        node(">", false, 2, 5, 6),
    ];
    assert_eq!(get_jsx_self_closing_name(&tree, &src, 0), Some("Card".to_string()));
}

#[test]
fn ts_exported_function_with_jsdoc_not_flagged() {
    assert!(!ts_has_missing_docstrings("/** Doc. */\nexport function foo(): void {}\n", false));
    assert!(!ts_has_missing_docstrings("/** Doc. */\nexport default function foo(): void {}\n", false));
    assert!(!ts_has_missing_docstrings("/** Doc. */\nexport class Foo {}\n", false));
    assert!(!needs_docstrings("a.ts", "/** Doc. */\nexport function foo(): void {}\n", false));
}

#[test]
fn ts_exported_function_without_jsdoc_flagged() {
    assert!(ts_has_missing_docstrings("export function foo(): void {}\n", false));
    assert!(ts_has_missing_docstrings("/** Doc. */\nfunction a(): void {}\nexport function b(): void {}\n", false));
    assert!(ts_has_missing_docstrings("/** Doc. */\nexport function foo(): void {}\n", true));
}
