use docgen::detect::ContainerCandidate;
use docgen::process::{build_prompt, container_context};

const TAIL: &str = " source code. Return ONLY the complete patched source code with no explanation and no markdown fences.\n\n";

#[test]
fn python_prompt_defaults_to_mkdocs() {
    let p = build_prompt("a/b.py", "def f(): pass\n", None, false, false);
    assert_eq!(
        p,
        format!("Add docstrings to all functions and classes that are missing them using mkdocs format in the following Python{TAIL}def f(): pass\n")
    );
}

#[test]
fn typescript_prompt_defaults_to_tsdoc_and_force_rewrites() {
    let p = build_prompt("x.ts", "let a = 1;\n", None, true, true);
    assert_eq!(
        p,
        format!("Replace all existing docstrings and add missing ones using tsdoc format in the following TypeScript{TAIL}let a = 1;\n")
    );
    let q = build_prompt("x.py", "", Some("numpy"), false, false);
    assert!(q.starts_with("Add docstrings to all functions and classes that are missing them using numpy format in the following Python"));
}

#[test]
fn tsx_containers_add_instruction_only_with_tailwind() {
    let src = "function P() {\n  return <Layout><A /><B /></Layout>;\n}\n";
    let with = build_prompt("c.tsx", src, None, false, true);
    assert!(with.ends_with("common UI components like <Button>, <Input>."));
    assert!(with.contains(src));
    let without = build_prompt("c.tsx", src, None, false, false);
    assert!(without.ends_with(src));
    let plain = build_prompt("c.tsx", "function P() { return 1; }\n", None, false, true);
    assert!(plain.ends_with("return 1; }\n"));
}

#[test]
fn container_context_lines() {
    assert!(container_context(&vec![]).is_none());
    let c = vec![
        ContainerCandidate {
            component_name: "Page".to_string(),
            return_line: 4,
            element_type: "Layout".to_string(),
            children: vec!["A".to_string(), "B".to_string()],
        },
        ContainerCandidate {
            component_name: "Q".to_string(),
            return_line: 12,
            element_type: "Grid".to_string(),
            children: vec!["x\"y".to_string(), "Z".to_string()],
        },
    ];
    assert_eq!(
        container_context(&c).unwrap(),
        "Container returned by 'Page' at line 4: <Layout> children: [\"A\", \"B\"]\nContainer returned by 'Q' at line 12: <Grid> children: [\"x\\\"y\", \"Z\"]"
    );
}

#[test]
fn candidate_children_are_written_as_std_debug_writes_them() {
    for children in [vec![], vec!["A".to_string()], vec!["Nav".to_string(), "Q\"x\\y\n".to_string(), "é".to_string()]] {
        let c = ContainerCandidate {
            component_name: "Page".to_string(),
            return_line: 3,
            element_type: "Layout".to_string(),
            children: children.clone(),
        };
        let text = container_context(&vec![c]).unwrap();
        assert_eq!(text, format!("Container returned by 'Page' at line 3: <Layout> children: {:?}", children));
    }
}
