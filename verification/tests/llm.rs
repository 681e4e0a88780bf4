use docgen::config::{Config, DocgenToml, EnvOverrides};
use docgen::error::DocgenError;
use docgen::llm::{
    completion_content, completion_text, detected_model, json_first, json_member, model_step, undecodable_reply, Json,
    ModelStep, ModelsOutcome,
};

fn reason(r: Result<String, DocgenError>) -> String {
    match r {
        Err(DocgenError::RequestFailed { reason }) => reason,
        other => panic!("unexpected {other:?}"),
    }
}

#[test]
fn reads_completion_content() {
    let body = r#"{"choices":[{"message":{"role":"assistant","content":"def f():\n    \"\"\"Doc.\"\"\"\n"}}]}"#;
    assert_eq!(completion_content(body).unwrap(), "def f():\n    \"\"\"Doc.\"\"\"\n");
}

#[test]
fn missing_or_blank_content_fails() {
    let missing = r#"{"choices":[]}"#;
    assert_eq!(reason(completion_content(missing)), "empty or missing content in response");
    let blank = r#"{"choices":[{"message":{"content":"  \n\t"}}]}"#;
    assert_eq!(reason(completion_content(blank)), "empty or missing content in response");
    let number = r#"{"choices":[{"message":{"content":3}}]}"#;
    assert_eq!(reason(completion_content(number)), "empty or missing content in response");
}

#[test]
fn unreadable_body_fails_as_undecodable() {
    assert_eq!(reason(completion_content("not json")), "error decoding response body");
    assert_eq!(reason(completion_content("")), "error decoding response body");
    assert_eq!(reason(completion_content("{\"choices\": [")), "error decoding response body");
}

#[test]
fn content_is_read_only_at_its_path() {
    let missing = "empty or missing content in response";
    assert_eq!(reason(completion_content("[1, 2]")), missing);
    assert_eq!(reason(completion_content(r#"{"choices":{"0":{"message":{"content":"x"}}}}"#)), missing);
    assert_eq!(reason(completion_content(r#"{"choices":[{"content":"x"}]}"#)), missing);
    assert_eq!(reason(completion_content(r#"{"choices":[{"message":{"text":"x"}}]}"#)), missing);
    assert_eq!(reason(completion_content(r#"{"choices":[{"message":null}]}"#)), missing);
    let later = r#"{"id":7,"choices":[{"message":{"content":"first"}},{"message":{"content":"second"}}],"z":[true,null,1.5]}"#;
    assert_eq!(completion_content(later).unwrap(), "first");
    let repeated = r#"{"choices":[{"message":{"content":"old","content":"new"}}]}"#;
    assert_eq!(completion_content(repeated).unwrap(), "new");
}

#[test]
fn json_lookup_helpers() {
    let reply = Json::Object(vec![
        ("a".to_string(), Json::Number("1".to_string())),
        (
            "choices".to_string(),
            Json::Array(vec![Json::Object(vec![(
                "message".to_string(),
                Json::Object(vec![("content".to_string(), Json::Str("hi".to_string()))]),
            )])]),
        ),
    ]);
    assert!(matches!(json_member(&reply, "a"), Some(Json::Number(n)) if n == "1"));
    assert!(json_member(&reply, "b").is_none());
    assert!(json_member(&Json::Null, "a").is_none());
    assert!(json_first(&Json::Array(vec![])).is_none());
    assert!(matches!(json_first(&Json::Array(vec![Json::Bool(true)])), Some(Json::Bool(true))));
    assert_eq!(completion_text(&reply), Some("hi".to_string()));
    assert_eq!(completion_text(&Json::Array(vec![reply])), None);
    assert!(matches!(undecodable_reply(), DocgenError::RequestFailed { reason } if reason == "error decoding response body"));
}

#[test]
fn override_skips_detection() {
    let env = EnvOverrides { model: Some("m1".to_string()), ..EnvOverrides::default() };
    let cfg = Config::load_from(DocgenToml::default(), env);
    match model_step(&cfg) {
        ModelStep::Use(m) => assert_eq!(m, "m1"),
        ModelStep::Detect { .. } => panic!("expected the override"),
    }
    let cfg = Config::load_from(DocgenToml::default(), EnvOverrides::default());
    match model_step(&cfg) {
        ModelStep::Detect { url } => assert_eq!(url, "http://localhost:30000/v1/models"),
        ModelStep::Use(_) => panic!("expected detection"),
    }
}

#[test]
fn detection_outcomes() {
    let url = "http://h/v1/models".to_string();
    assert_eq!(
        detected_model(url.clone(), ModelsOutcome::Listed(vec!["a".to_string(), "b".to_string()])).unwrap(),
        "a"
    );
    assert!(matches!(detected_model(url.clone(), ModelsOutcome::Listed(vec![])), Err(DocgenError::NoModelsAvailable)));
    match detected_model(url.clone(), ModelsOutcome::Unreachable) {
        Err(DocgenError::VllmUnreachable { url: u }) => assert_eq!(u, url),
        other => panic!("unexpected {other:?}"),
    }
    match detected_model(url, ModelsOutcome::Unreadable("bad".to_string())) {
        Err(DocgenError::Http(m)) => assert_eq!(m, "bad"),
        other => panic!("unexpected {other:?}"),
    }
}

#[test]
fn error_messages_and_help() {
    let e = DocgenError::VllmUnreachable { url: "http://x".to_string() };
    assert_eq!(e.message(), "vLLM server unreachable at http://x");
    assert!(e.help().unwrap().contains("VLLM_BASE_URL"));
    assert_eq!(DocgenError::NoModelsAvailable.message(), "No models available on vLLM server");
    assert!(DocgenError::NoModelsAvailable.help().is_none());
    assert_eq!(DocgenError::Http("h".to_string()).message(), "HTTP error: h");
    assert_eq!(DocgenError::Json("j".to_string()).message(), "JSON error: j");
    let r = DocgenError::RequestFailed { reason: "r".to_string() };
    assert_eq!(r.message(), "Request failed: r");
    assert_eq!(r.help().unwrap(), "Check the vLLM server logs for details");
}
