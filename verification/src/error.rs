//! The errors of talking to the language-model server, and their messages.
use vstd::prelude::*;

verus! {

/// What can go wrong when talking to the vLLM server.
#[derive(Debug)]
pub enum DocgenError {
    /// The server did not answer at this URL.
    VllmUnreachable { url: String },
    /// The server lists no model.
    NoModelsAvailable,
    /// The HTTP exchange failed; the text describes how.
    Http(String),
    /// A JSON body could not be read; the text describes how.
    Json(String),
    /// A request failed for the given reason.
    RequestFailed { reason: String },
}

/// The message of an error, as it is displayed.
pub open spec fn error_message(e: DocgenError) -> Seq<char> {
    match e {
        DocgenError::VllmUnreachable { url } => "vLLM server unreachable at "@ + url@,
        DocgenError::NoModelsAvailable => "No models available on vLLM server"@,
        DocgenError::Http(m) => "HTTP error: "@ + m@,
        DocgenError::Json(m) => "JSON error: "@ + m@,
        DocgenError::RequestFailed { reason } => "Request failed: "@ + reason@,
    }
}

/// The advice that goes with an error, if any.
pub open spec fn error_help(e: DocgenError) -> Option<Seq<char>> {
    match e {
        DocgenError::VllmUnreachable { .. } => Some(
            "Check that your vLLM server is running and VLLM_BASE_URL or docgen.toml endpoint is correct"@,
        ),
        DocgenError::RequestFailed { .. } => Some("Check the vLLM server logs for details"@),
        _ => None,
    }
}

/// `prefix` followed by `rest`.
pub fn joined(prefix: &str, rest: &str) -> (r: String)
    ensures
        r@ == prefix@ + rest@,
{
    let mut s = prefix.to_string();
    s.append(rest);
    s
}

impl DocgenError {
    /// The message of the error, as it is displayed.
    pub fn message(&self) -> (r: String)
        ensures
            r@ == error_message(*self),
    {
        match self {
            DocgenError::VllmUnreachable { url } => joined("vLLM server unreachable at ", url.as_str()),
            DocgenError::NoModelsAvailable => "No models available on vLLM server".to_string(),
            DocgenError::Http(m) => joined("HTTP error: ", m.as_str()),
            DocgenError::Json(m) => joined("JSON error: ", m.as_str()),
            DocgenError::RequestFailed { reason } => joined("Request failed: ", reason.as_str()),
        }
    }

    /// The advice that goes with the error, if any.
    pub fn help(&self) -> (r: Option<String>)
        ensures
            match r {
                Some(h) => error_help(*self) == Some(h@),
                None => error_help(*self) is None,
            },
    {
        match self {
            DocgenError::VllmUnreachable { .. } => Some(
                "Check that your vLLM server is running and VLLM_BASE_URL or docgen.toml endpoint is correct".to_string(),
            ),
            DocgenError::RequestFailed { .. } => Some(
                "Check the vLLM server logs for details".to_string(),
            ),
            _ => None,
        }
    }
}

} // verus!
