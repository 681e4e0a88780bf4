//! What the library decides around the requests to the vLLM server: which
//! model to use, and what a chat-completion reply holds.
use vstd::prelude::*;

use crate::config::Config;
use crate::error::DocgenError;
use crate::text::{chars_of, is_blank, is_blank_exec, text_eq};

verus! {

/// One message of a chat-completion request.
#[derive(Clone)]
pub struct ChatMessage {
    pub role: &'static str,
    pub content: String,
}

/// A JSON value, as `serde_json::Value` holds it.
pub enum Json {
    Null,
    Bool(bool),
    /// A number, in the text that `serde_json` writes for it.
    Number(String),
    Str(String),
    Array(Vec<Json>),
    /// The members, in the order of `serde_json`'s map, each key once.
    Object(Vec<(String, Json)>),
}

#[verifier::external_type_specification]
#[verifier::external_body]
pub struct ExJsonValue(serde_json::Value);

/// The value that `serde_json::from_str::<serde_json::Value>` reads from
/// `text`, as a `Json`; none when the text is not JSON.
pub uninterp spec fn json_reading(text: Seq<char>) -> Option<Json>;

/// Converts a `serde_json::Value` into the `Json` of the same shape: each
/// variant into its namesake, a number into its `to_string()`, the members
/// of an object in the map's order. Only `read_json` calls it; it promises
/// nothing of its own.
#[verifier::external_body]
fn json_from_serde(v: serde_json::Value) -> Json {
    match v {
        serde_json::Value::Null => Json::Null,
        serde_json::Value::Bool(b) => Json::Bool(b),
        serde_json::Value::Number(n) => Json::Number(n.to_string()),
        serde_json::Value::String(s) => Json::Str(s),
        serde_json::Value::Array(a) => Json::Array(a.into_iter().map(json_from_serde).collect()),
        serde_json::Value::Object(m) => Json::Object(m.into_iter().map(|(k, x)| (k, json_from_serde(x))).collect()),
    }
}

/// Reads `text` with `serde_json::from_str::<serde_json::Value>` and
/// converts the value one for one into a `Json`. The contract only names the
/// result (`json_reading`): JSON's grammar is serde_json's.
#[verifier::external_body]
fn read_json(text: &str) -> (r: Option<Json>)
    ensures
        r == json_reading(text@),
{
    serde_json::from_str::<serde_json::Value>(text).ok().map(json_from_serde)
}

/// The value of the first member named `key`, if there is one.
pub open spec fn member(m: Seq<(String, Json)>, key: Seq<char>) -> Option<Json>
    decreases m.len(),
{
    if m.len() == 0 {
        None
    } else if m[0].0@ == key {
        Some(m[0].1)
    } else {
        member(m.drop_first(), key)
    }
}

/// The member `key` of `j` when `j` is an object that has one.
pub open spec fn member_of(j: Json, key: Seq<char>) -> Option<Json> {
    match j {
        Json::Object(m) => member(m@, key),
        _ => None,
    }
}

/// The first element of `j` when `j` is a non-empty array.
pub open spec fn first_element(j: Json) -> Option<Json> {
    match j {
        Json::Array(a) => if a@.len() > 0 {
            Some(a@[0])
        } else {
            None
        },
        _ => None,
    }
}

/// The text at `choices[0].message.content` of a reply, when it is a string.
pub open spec fn reply_content(reply: Json) -> Option<Seq<char>> {
    match member_of(reply, "choices"@) {
        Some(choices) => match first_element(choices) {
            Some(choice) => match member_of(choice, "message"@) {
                Some(message) => match member_of(message, "content"@) {
                    Some(Json::Str(s)) => Some(s@),
                    _ => None,
                },
                None => None,
            },
            None => None,
        },
        None => None,
    }
}

/// The member `key` of `j`, when `j` is an object that has one.
pub fn json_member<'a>(j: &'a Json, key: &str) -> (r: Option<&'a Json>)
    ensures
        match r {
            Some(x) => member_of(*j, key@) == Some(*x),
            None => member_of(*j, key@) is None,
        },
{
    match j {
        Json::Object(m) => {
            let mut i: usize = 0;
            assert(m@.skip(0) == m@);
            while i < m.len()
                invariant
                    i <= m.len(),
                    *j == Json::Object(*m),
                    member(m@, key@) == member(m@.skip(i as int), key@),
                decreases m.len() - i,
            {
                assert(m@.skip(i as int).drop_first() == m@.skip(i + 1));
                assert(m@.skip(i as int)[0] == m@[i as int]);
                if text_eq(m[i].0.as_str(), key) {
                    return Some(&m[i].1);
                }
                i = i + 1;
            }
            None
        },
        _ => None,
    }
}

/// The first element of `j`, when `j` is a non-empty array.
pub fn json_first<'a>(j: &'a Json) -> (r: Option<&'a Json>)
    ensures
        match r {
            Some(x) => first_element(*j) == Some(*x),
            None => first_element(*j) is None,
        },
{
    match j {
        Json::Array(a) => if a.len() > 0 {
            Some(&a[0])
        } else {
            None
        },
        _ => None,
    }
}

/// The text at `choices[0].message.content` of a reply, when that is a
/// string.
pub fn completion_text(reply: &Json) -> (r: Option<String>)
    ensures
        match r {
            Some(s) => reply_content(*reply) == Some(s@),
            None => reply_content(*reply) is None,
        },
{
    let choices = match json_member(reply, "choices") {
        Some(c) => c,
        None => return None,
    };
    let choice = match json_first(choices) {
        Some(c) => c,
        None => return None,
    };
    let message = match json_member(choice, "message") {
        Some(m) => m,
        None => return None,
    };
    match json_member(message, "content") {
        Some(Json::Str(s)) => Some(s.clone()),
        _ => None,
    }
}

/// The reason given when a reply holds no usable content.
pub open spec fn missing_content_reason() -> Seq<char> {
    "empty or missing content in response"@
}

/// The reason given when a reply body is not JSON.
pub open spec fn undecodable_reason() -> Seq<char> {
    "error decoding response body"@
}

/// The content of a chat-completion reply body, or the reason why the
/// request failed: the body is not JSON, or its content is missing, not a
/// string, or only whitespace.
pub open spec fn completion_result(body: Seq<char>) -> Result<Seq<char>, Seq<char>> {
    match json_reading(body) {
        None => Err(undecodable_reason()),
        Some(reply) => match reply_content(reply) {
            None => Err(missing_content_reason()),
            Some(s) => if is_blank(s) {
                Err(missing_content_reason())
            } else {
                Ok(s)
            },
        },
    }
}

/// The error of a reply body that is not JSON (nor UTF-8 text).
pub fn undecodable_reply() -> (r: DocgenError)
    ensures
        r matches DocgenError::RequestFailed { reason } && reason@ == undecodable_reason(),
{
    DocgenError::RequestFailed { reason: "error decoding response body".to_string() }
}

/// The content of a chat-completion reply body.
pub fn completion_content(body: &str) -> (r: Result<String, DocgenError>)
    ensures
        match r {
            Ok(c) => completion_result(body@) == Ok::<Seq<char>, Seq<char>>(c@),
            Err(DocgenError::RequestFailed { reason }) => completion_result(body@) == Err::<
                Seq<char>,
                Seq<char>,
            >(reason@),
            Err(_) => false,
        },
{
    let reply = match read_json(body) {
        Some(j) => j,
        None => return Err(undecodable_reply()),
    };
    match completion_text(&reply) {
        None => Err(
            DocgenError::RequestFailed { reason: "empty or missing content in response".to_string() },
        ),
        Some(s) => {
            let cs = chars_of(s.as_str());
            if is_blank_exec(&cs) {
                Err(
                    DocgenError::RequestFailed {
                        reason: "empty or missing content in response".to_string(),
                    },
                )
            } else {
                Ok(s)
            }
        },
    }
}

/// How the model of a run is found.
pub enum ModelStep {
    /// The configured model is used as it is.
    Use(String),
    /// The server's list of models at this URL is asked for.
    Detect { url: String },
}

/// How the model of a run is found: the configured override when there is
/// one, else by asking the server's model list.
pub fn model_step(cfg: &Config) -> (r: ModelStep)
    ensures
        match r {
            ModelStep::Use(m) => cfg.model_override matches Some(o) && m@ == o@,
            ModelStep::Detect { url } => cfg.model_override is None && url@
                == crate::config::models_url_spec(cfg.vllm_base_url@),
        },
{
    match &cfg.model_override {
        Some(m) => ModelStep::Use(m.clone()),
        None => ModelStep::Detect { url: cfg.models_url() },
    }
}

/// A model named in the environment (`VLLM_MODEL`, not empty) is the
/// model of the run whatever the file names, and the server is not asked.
pub proof fn law_environment_model_wins(env: Option<String>, file: Option<String>)
    requires
        env matches Some(v) && v@.len() > 0,
    ensures
        crate::config::model_choice(env, file) == Some(env->0@),
{
}

/// An unset or empty `VLLM_MODEL` leaves the model to the file: its model
/// when it names one, else none (the server is then asked).
pub proof fn law_empty_environment_model_ignored(env: Option<String>, file: Option<String>)
    requires
        env matches Some(v) ==> v@.len() == 0,
    ensures
        crate::config::model_choice(env, file) == match file {
            Some(f) => Some(f@),
            None => None::<Seq<char>>,
        },
{
}

/// What asking the server for its models gave.
pub enum ModelsOutcome {
    /// No answer came.
    Unreachable,
    /// An answer came whose body did not read as a model list; the text
    /// describes why.
    Unreadable(String),
    /// The ids of the listed models, in order.
    Listed(Vec<String>),
}

/// The model that the server's answer at `url` gives: the first listed
/// model; an error when the server did not answer, when its answer could
/// not be read, or when it lists none.
pub fn detected_model(url: String, outcome: ModelsOutcome) -> (r: Result<String, DocgenError>)
    ensures
        match outcome {
            ModelsOutcome::Unreachable => r matches Err(DocgenError::VllmUnreachable { url: u })
                && u@ == url@,
            ModelsOutcome::Unreadable(m) => r matches Err(DocgenError::Http(h)) && h@ == m@,
            ModelsOutcome::Listed(ids) => if ids@.len() > 0 {
                r matches Ok(id) && id@ == ids@[0]@
            } else {
                r matches Err(DocgenError::NoModelsAvailable)
            },
        },
{
    match outcome {
        ModelsOutcome::Unreachable => Err(DocgenError::VllmUnreachable { url }),
        ModelsOutcome::Unreadable(m) => Err(DocgenError::Http(m)),
        ModelsOutcome::Listed(ids) => {
            if ids.len() > 0 {
                Ok(ids[0].clone())
            } else {
                Err(DocgenError::NoModelsAvailable)
            }
        },
    }
}

} // verus!
