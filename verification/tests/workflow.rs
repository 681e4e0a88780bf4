use docgen::apply::{branch_ref, feature_branch_name, merge_allowed, merge_message, original_branch};
use docgen::cli::Cli;
use docgen::git::{dirty_paths, FileStatus};

#[test]
fn branch_names_and_messages() {
    let b = feature_branch_name("20240102-030405");
    assert_eq!(b, "docgen/20240102-030405");
    assert_eq!(branch_ref(&b), "refs/heads/docgen/20240102-030405");
    assert_eq!(merge_message(&b), "docs: merge docgen/20240102-030405");
}

#[test]
fn detached_head_is_refused() {
    assert_eq!(original_branch(Some("main")).unwrap(), "main");
    assert_eq!(original_branch(Some("")).unwrap_err(), "docgen requires a named branch (HEAD is detached)");
    assert!(original_branch(None).is_err());
}

#[test]
fn conflicts_are_refused() {
    assert!(merge_allowed(false).is_ok());
    assert_eq!(merge_allowed(true).unwrap_err(), "merge conflict — manual resolution required");
}

#[test]
fn dirty_paths_skip_current_and_nameless() {
    let statuses = vec![
        FileStatus { bits: 0, path: Some("clean.py".to_string()) },
        FileStatus { bits: 1 << 7, path: Some("new.py".to_string()) },
        FileStatus { bits: 1 << 8, path: None },
        FileStatus { bits: 1 << 1, path: Some("changed.ts".to_string()) },
    ];
    assert_eq!(dirty_paths(&statuses), vec!["new.py", "changed.ts"]);
    assert!(dirty_paths(&vec![]).is_empty());
}

#[test]
fn cli_holds_its_options() {
    let c = Cli { target: "src".to_string(), fmt: Some("tsdoc".to_string()), recursive: true, force: false };
    assert_eq!(c.target, "src");
    assert_eq!(c.fmt.as_deref(), Some("tsdoc"));
    assert!(c.recursive && !c.force);
}
