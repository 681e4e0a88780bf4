use docgen::tailwind::{is_stylesheet, stylesheet_mentions_tailwind, tailwind_detected};

#[test]
fn test_tailwind_config_detection() {
    let names = vec!["tailwind.config.js".to_string()];
    let result = tailwind_detected(&names, None, &vec![]);
    assert!(result, "Should detect tailwind.config.js");
}

#[test]
fn test_no_tailwind() {
    let result = tailwind_detected(&vec![], None, &vec![]);
    assert!(!result, "Should return false when no Tailwind config");
}

#[test]
fn postcss_and_stylesheets() {
    assert!(tailwind_detected(&vec![], Some("plugins: { tailwindcss: {} }"), &vec![]));
    assert!(!tailwind_detected(&vec![], Some("plugins: {}"), &vec![]));
    assert!(tailwind_detected(&vec![], None, &vec!["@tailwind base;".to_string()]));
    assert!(tailwind_detected(&vec![], None, &vec!["@layer components {}".to_string()]));
    assert!(!tailwind_detected(&vec!["tailwind.config.json".to_string()], None, &vec!["body {}".to_string()]));
    assert!(stylesheet_mentions_tailwind("@layer x"));
    assert!(is_stylesheet("app.css"));
    assert!(!is_stylesheet("app.scss"));
}
