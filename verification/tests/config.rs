use docgen::config::{Config, DocgenSection, DocgenToml, EnvOverrides, TargetsSection};

fn file_with(endpoint: Option<&str>, style: Option<&str>, model: Option<&str>, exclude: Vec<&str>) -> DocgenToml {
    let mut section = DocgenSection::default();
    if let Some(e) = endpoint {
        section.endpoint = e.to_string();
    }
    if let Some(s) = style {
        section.style = s.to_string();
    }
    section.model = model.map(|m| m.to_string());
    section.targets = TargetsSection {
        languages: TargetsSection::default().languages,
        exclude: exclude.into_iter().map(String::from).collect(),
    };
    DocgenToml { docgen: section }
}

#[test]
fn defaults_when_no_file_and_no_env() {
    let cfg = Config::load_from(DocgenToml::default(), EnvOverrides::default());
    assert_eq!(cfg.vllm_base_url, "http://localhost:30000/v1");
    assert_eq!(cfg.batch_size, 4);
    assert_eq!(cfg.vllm_timeout_secs, 120);
    assert_eq!(cfg.connect_timeout_secs, 5);
    assert_eq!(cfg.style, "google");
    assert!(cfg.model_override.is_none());
    assert!(cfg.exclude.is_empty());
}

#[test]
fn loads_docgen_toml() {
    let file = file_with(Some("http://dgx:8000/v1"), Some("numpy"), Some("llama-3"), vec!["tests/", "vendor/"]);
    let cfg = Config::load_from(file, EnvOverrides::default());
    assert_eq!(cfg.vllm_base_url, "http://dgx:8000/v1");
    assert_eq!(cfg.style, "numpy");
    assert_eq!(cfg.model_override, Some("llama-3".to_string()));
    assert_eq!(cfg.exclude, vec!["tests/", "vendor/"]);
}

#[test]
fn env_vars_override_toml() {
    let file = file_with(Some("http://file:8000/v1"), None, Some("from-file"), vec![]);
    let env = EnvOverrides {
        base_url: Some("http://env:9000/v1".to_string()),
        model: Some("from-env".to_string()),
        ..EnvOverrides::default()
    };
    let cfg = Config::load_from(file, env);
    assert_eq!(cfg.vllm_base_url, "http://env:9000/v1");
    assert_eq!(cfg.model_override, Some("from-env".to_string()));
}

#[test]
fn models_url_appends_correctly() {
    let mut cfg = Config::load_from(DocgenToml::default(), EnvOverrides::default());
    cfg.vllm_base_url = "http://host:30000/v1".to_string();
    assert_eq!(cfg.models_url(), "http://host:30000/v1/models");
}

fn with_base(base: &str) -> Config {
    let mut cfg = Config::load_from(DocgenToml::default(), EnvOverrides::default());
    cfg.vllm_base_url = base.to_string();
    cfg
}

#[test]
fn models_url_variants() {
    assert_eq!(with_base("http://host:30000").models_url(), "http://host:30000/v1/models");
    assert_eq!(with_base("http://host:30000/").models_url(), "http://host:30000/v1/models");
    assert_eq!(with_base("http://host:30000/v1///").models_url(), "http://host:30000/v1/models");
    assert_eq!(with_base("http://h/v1/v1").models_url(), "http://h/v1/v1/models");
    assert_eq!(with_base("").models_url(), "/v1/models");
}

#[test]
fn chat_url_variants() {
    assert_eq!(with_base("http://host:30000/v1").chat_completions_url(), "http://host:30000/v1/chat/completions");
    assert_eq!(with_base("http://host:30000/v1/").chat_completions_url(), "http://host:30000/v1/chat/completions");
    assert_eq!(with_base("http://host:30000").chat_completions_url(), "http://host:30000/v1/chat/completions");
}

#[test]
fn numeric_env_overrides() {
    let env = EnvOverrides {
        batch_size: Some("16".to_string()),
        timeout_secs: Some("+30".to_string()),
        ..EnvOverrides::default()
    };
    let cfg = Config::load_from(DocgenToml::default(), env);
    assert_eq!(cfg.batch_size, 16);
    assert_eq!(cfg.vllm_timeout_secs, 30);
    let bad = EnvOverrides {
        batch_size: Some(" 8".to_string()),
        timeout_secs: Some("99999999999999999999".to_string()),
        ..EnvOverrides::default()
    };
    let cfg = Config::load_from(DocgenToml::default(), bad);
    assert_eq!(cfg.batch_size, 4);
    assert_eq!(cfg.vllm_timeout_secs, 120);
}

#[test]
fn empty_model_env_falls_back_to_file() {
    let file = file_with(None, None, Some("from-file"), vec![]);
    let env = EnvOverrides { model: Some(String::new()), ..EnvOverrides::default() };
    let cfg = Config::load_from(file, env);
    assert_eq!(cfg.model_override, Some("from-file".to_string()));
    let env = EnvOverrides { base_url: Some(String::new()), ..EnvOverrides::default() };
    let cfg = Config::load_from(DocgenToml::default(), env);
    assert_eq!(cfg.vllm_base_url, "");
}

#[test]
fn default_languages() {
    let t = TargetsSection::default();
    assert_eq!(t.languages, vec!["python", "typescript"]);
    assert!(t.exclude.is_empty());
}
