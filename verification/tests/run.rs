use docgen::error::DocgenError;
use docgen::run::{
    apply_outcome, dirty_tree_outcome, files_outcome, model_outcome, patches_outcome,
    pending_outcome, reachability_outcome, Outcome,
};

fn texts(o: &Outcome) -> Vec<(bool, String)> {
    o.lines.iter().map(|l| (l.to_stderr, l.text.clone())).collect()
}

#[test]
fn dirty_tree_stops_with_one() {
    let o = dirty_tree_outcome(&vec!["a.py".to_string(), "b.ts".to_string()]);
    assert_eq!(o.exit_code, Some(1));
    assert_eq!(
        texts(&o),
        vec![
            (true, "error: working tree has uncommitted changes. Commit or stash before running docgen:".to_string()),
            (true, "  a.py".to_string()),
            (true, "  b.ts".to_string()),
        ]
    );
    let clean = dirty_tree_outcome(&vec![]);
    assert!(clean.lines.is_empty() && clean.exit_code.is_none());
}

#[test]
fn unreachable_and_model_errors_stop_with_one() {
    let o = reachability_outcome(false, "http://x/v1");
    assert_eq!(texts(&o), vec![(true, "error: vLLM not reachable at http://x/v1".to_string())]);
    assert_eq!(o.exit_code, Some(1));
    assert!(reachability_outcome(true, "u").exit_code.is_none());
    let m = model_outcome(&Ok("llama".to_string()));
    assert_eq!(texts(&m), vec![(false, "Model: llama".to_string())]);
    assert!(m.exit_code.is_none());
    let e = model_outcome(&Err(DocgenError::NoModelsAvailable));
    assert_eq!(texts(&e), vec![(true, "error: No models available on vLLM server".to_string())]);
    assert_eq!(e.exit_code, Some(1));
}

#[test]
fn nothing_to_do_stops_with_two() {
    let f = files_outcome(0);
    assert_eq!(texts(&f), vec![(false, "warning: no Python or TypeScript files found.".to_string())]);
    assert_eq!(f.exit_code, Some(2));
    assert!(files_outcome(3).exit_code.is_none());
    let p = pending_outcome(0, 4);
    assert_eq!(texts(&p), vec![(false, "nothing to do — all files already documented.".to_string())]);
    assert_eq!(p.exit_code, Some(2));
    let q = pending_outcome(12, 4);
    assert_eq!(texts(&q), vec![(false, "Processing 12 file(s) in batches of 4...".to_string())]);
    assert!(q.exit_code.is_none());
}

#[test]
fn patches_and_apply() {
    let none = patches_outcome(0);
    assert_eq!(texts(&none), vec![(true, "warning: no files were successfully processed.".to_string())]);
    assert_eq!(none.exit_code, Some(1));
    assert_eq!(texts(&patches_outcome(2)), vec![(false, "Applying changes via git branch...".to_string())]);
    let ok = apply_outcome(&Ok(()));
    assert_eq!(texts(&ok), vec![(false, "Done. Docstrings applied.".to_string())]);
    assert!(ok.exit_code.is_none());
    let err = apply_outcome(&Err("boom".to_string()));
    assert_eq!(texts(&err), vec![(true, "error: git error: boom".to_string())]);
    assert_eq!(err.exit_code, Some(1));
}
