//! Settings: the defaults, what `docgen.toml` gives, and what the
//! environment overrides; and the server URLs that follow from them.
use vstd::prelude::*;

use crate::text::{chars_of, ends_with, ends_with_exec, parse_u64, parse_unsigned, parse_usize, string_of};

verus! {

/// The `[docgen.targets]` table of `docgen.toml`.
pub struct TargetsSection {
    pub languages: Vec<String>,
    pub exclude: Vec<String>,
}

/// The `[docgen]` table of `docgen.toml`.
pub struct DocgenSection {
    pub model: Option<String>,
    pub endpoint: String,
    pub style: String,
    pub batch_size: usize,
    pub timeout_secs: u64,
    pub connect_timeout_secs: u64,
    pub targets: TargetsSection,
}

/// The contents of `docgen.toml`; any missing entry takes its default.
pub struct DocgenToml {
    pub docgen: DocgenSection,
}

impl Default for TargetsSection {
    fn default() -> (r: Self)
        ensures
            r.languages@.len() == 2,
            r.languages@[0]@ == "python"@,
            r.languages@[1]@ == "typescript"@,
            r.exclude@.len() == 0,
    {
        let mut languages: Vec<String> = Vec::new();
        languages.push("python".to_string());
        languages.push("typescript".to_string());
        TargetsSection { languages, exclude: Vec::new() }
    }
}

impl Default for DocgenSection {
    fn default() -> (r: Self)
        ensures
            r.model is None,
            r.endpoint@ == "http://localhost:30000/v1"@,
            r.style@ == "google"@,
            r.batch_size == 4,
            r.timeout_secs == 120,
            r.connect_timeout_secs == 5,
            r.targets.languages@.len() == 2,
            r.targets.languages@[0]@ == "python"@,
            r.targets.languages@[1]@ == "typescript"@,
            r.targets.exclude@.len() == 0,
    {
        DocgenSection {
            model: None,
            endpoint: "http://localhost:30000/v1".to_string(),
            style: "google".to_string(),
            batch_size: 4,
            timeout_secs: 120,
            connect_timeout_secs: 5,
            targets: TargetsSection::default(),
        }
    }
}

impl Default for DocgenToml {
    fn default() -> (r: Self)
        ensures
            r.docgen.model is None,
            r.docgen.endpoint@ == "http://localhost:30000/v1"@,
            r.docgen.style@ == "google"@,
            r.docgen.batch_size == 4,
            r.docgen.timeout_secs == 120,
            r.docgen.connect_timeout_secs == 5,
            r.docgen.targets.languages@.len() == 2,
            r.docgen.targets.languages@[0]@ == "python"@,
            r.docgen.targets.languages@[1]@ == "typescript"@,
            r.docgen.targets.exclude@.len() == 0,
    {
        DocgenToml { docgen: DocgenSection::default() }
    }
}

/// The values of the environment variables that override the file:
/// `VLLM_BASE_URL`, `BATCH_SIZE`, `VLLM_TIMEOUT_SECS` and `VLLM_MODEL`, each
/// present when it is set to Unicode text.
pub struct EnvOverrides {
    pub base_url: Option<String>,
    pub batch_size: Option<String>,
    pub timeout_secs: Option<String>,
    pub model: Option<String>,
}

impl Default for EnvOverrides {
    fn default() -> (r: Self)
        ensures
            r.base_url is None,
            r.batch_size is None,
            r.timeout_secs is None,
            r.model is None,
    {
        EnvOverrides { base_url: None, batch_size: None, timeout_secs: None, model: None }
    }
}

/// The settings of a run.
#[derive(Debug, Clone)]
pub struct Config {
    pub vllm_base_url: String,
    pub batch_size: usize,
    pub connect_timeout_secs: u64,
    pub vllm_timeout_secs: u64,
    pub style: String,
    pub model_override: Option<String>,
    pub exclude: Vec<String>,
}

/// The text of an optional string.
pub open spec fn opt_text(o: Option<String>) -> Option<Seq<char>> {
    match o {
        Some(s) => Some(s@),
        None => None,
    }
}

/// A number from the environment when it is set and reads as one, else the
/// file's.
pub open spec fn number_or(env: Option<String>, max: nat, file: nat) -> nat {
    match env {
        Some(v) => match parse_unsigned(v@, max) {
            Some(n) => n,
            None => file,
        },
        None => file,
    }
}

/// The model override: the environment's when it is set and not empty, else
/// the file's.
pub open spec fn model_choice(env: Option<String>, file: Option<String>) -> Option<Seq<char>> {
    match env {
        Some(v) => if v@.len() > 0 {
            Some(v@)
        } else {
            opt_text(file)
        },
        None => opt_text(file),
    }
}

/// `s` without its trailing `c`s (`str::trim_end_matches(c)`).
pub open spec fn trim_end_char(s: Seq<char>, c: char) -> Seq<char>
    decreases s.len(),
{
    if s.len() > 0 && s.last() == c {
        trim_end_char(s.drop_last(), c)
    } else {
        s
    }
}

/// `s` without a trailing `suffix`, once (`str::strip_suffix`, or `s`).
pub open spec fn strip_suffix(s: Seq<char>, suffix: Seq<char>) -> Seq<char> {
    if ends_with(s, suffix) {
        s.take(s.len() - suffix.len())
    } else {
        s
    }
}

/// The root of the server's API: the base URL without trailing slashes and
/// without a trailing `/v1`.
pub open spec fn api_root(base: Seq<char>) -> Seq<char> {
    strip_suffix(trim_end_char(base, '/'), "/v1"@)
}

/// The URL that lists the server's models.
pub open spec fn models_url_spec(base: Seq<char>) -> Seq<char> {
    api_root(base) + "/v1/models"@
}

/// The URL of the server's chat completions.
pub open spec fn chat_url_spec(base: Seq<char>) -> Seq<char> {
    let t = trim_end_char(base, '/');
    if ends_with(t, "/v1"@) {
        t + "/chat/completions"@
    } else {
        t + "/v1/chat/completions"@
    }
}

/// Trailing slashes of the base URL change neither the models URL nor the
/// chat-completions URL.
pub proof fn law_trailing_slash_ignored(base: Seq<char>)
    ensures
        models_url_spec(base.push('/')) == models_url_spec(base),
        chat_url_spec(base.push('/')) == chat_url_spec(base),
{
    assert(base.push('/').drop_last() == base);
}

/// For a base URL without a trailing slash and without a trailing `/v1`,
/// adding `/v1` does not change the models URL: both are the base URL
/// followed by `/v1/models`.
pub proof fn law_v1_suffix_optional(base: Seq<char>)
    requires
        base.len() == 0 || base.last() != '/',
        !ends_with(base, "/v1"@),
    ensures
        models_url_spec(base + "/v1"@) == models_url_spec(base),
        models_url_spec(base) == base + "/v1/models"@,
{
    reveal_strlit("/v1");
    let b = base + "/v1"@;
    assert(b.last() == '1');
    assert(trim_end_char(b, '/') == b);
    assert(b.subrange(b.len() - 3, b.len() as int) =~= "/v1"@);
    assert(b.take(b.len() - 3) =~= base);
    assert(trim_end_char(base, '/') == base);
}

/// The models URL and the chat-completions URL are built on the same API
/// root: the base URL without trailing slashes and without one trailing
/// `/v1`.
pub proof fn law_same_api_root(base: Seq<char>)
    ensures
        models_url_spec(base) == api_root(base) + "/v1/models"@,
        chat_url_spec(base) == api_root(base) + "/v1/chat/completions"@,
{
    reveal_strlit("/v1");
    reveal_strlit("/chat/completions");
    reveal_strlit("/v1/chat/completions");
    let t = trim_end_char(base, '/');
    if ends_with(t, "/v1"@) {
        let r = t.take(t.len() - 3);
        assert(t =~= r + "/v1"@) by {
            assert(t.subrange(t.len() - 3, t.len() as int) =~= "/v1"@);
        }
        assert(t + "/chat/completions"@ =~= r + "/v1/chat/completions"@);
    }
}

/// The length of `s` once its trailing `c`s are removed.
fn trim_end_char_len(s: &Vec<char>, c: char) -> (m: usize)
    ensures
        m <= s.len(),
        s@.take(m as int) == trim_end_char(s@, c),
{
    let mut m = s.len();
    assert(s@.take(m as int) == s@);
    while m > 0 && s[m - 1] == c
        invariant
            m <= s.len(),
            trim_end_char(s@.take(m as int), c) == trim_end_char(s@, c),
        decreases m,
    {
        assert(s@.take(m as int).drop_last() == s@.take(m - 1));
        m = m - 1;
    }
    m
}

/// Appends `more` to `v`.
fn extend_chars(v: &mut Vec<char>, more: &Vec<char>)
    ensures
        final(v)@ == old(v)@ + more@,
{
    let mut i: usize = 0;
    while i < more.len()
        invariant
            i <= more.len(),
            v@ == old(v)@ + more@.take(i as int),
        decreases more.len() - i,
    {
        v.push(more[i]);
        i = i + 1;
        assert(old(v)@ + more@.take(i as int) == (old(v)@ + more@.take(i - 1)).push(more@[i - 1]));
    }
    assert(more@.take(more.len() as int) == more@);
}

/// The first `n` characters of `s`.
fn prefix_chars(s: &Vec<char>, n: usize) -> (r: Vec<char>)
    requires
        n <= s.len(),
    ensures
        r@ == s@.take(n as int),
{
    let mut r: Vec<char> = Vec::new();
    let mut i: usize = 0;
    while i < n
        invariant
            i <= n <= s.len(),
            r@ == s@.take(i as int),
        decreases n - i,
    {
        r.push(s[i]);
        i = i + 1;
        assert(s@.take(i as int) == s@.take(i - 1).push(s@[i - 1]));
    }
    r
}

impl Config {
    /// The settings of a run from the file's values (`DocgenToml::default()`
    /// when there is no readable `docgen.toml`) and the environment: a set
    /// `VLLM_BASE_URL` replaces the endpoint; `BATCH_SIZE` and
    /// `VLLM_TIMEOUT_SECS` replace theirs when they read as numbers; a set,
    /// non-empty `VLLM_MODEL` replaces the model; the rest is the file's.
    pub fn load_from(file: DocgenToml, env: EnvOverrides) -> (r: Config)
        ensures
            r.vllm_base_url@ == match env.base_url {
                Some(v) => v@,
                None => file.docgen.endpoint@,
            },
            r.batch_size == number_or(
                env.batch_size,
                usize::MAX as nat,
                file.docgen.batch_size as nat,
            ),
            r.vllm_timeout_secs == number_or(
                env.timeout_secs,
                u64::MAX as nat,
                file.docgen.timeout_secs as nat,
            ),
            r.connect_timeout_secs == file.docgen.connect_timeout_secs,
            r.style@ == file.docgen.style@,
            opt_text(r.model_override) == model_choice(env.model, file.docgen.model),
            r.exclude@ == file.docgen.targets.exclude@,
    {
        let section = file.docgen;
        let endpoint = match env.base_url {
            Some(v) => v,
            None => section.endpoint,
        };
        let batch_size = match env.batch_size {
            Some(v) => match parse_usize(v.as_str()) {
                Some(n) => n,
                None => section.batch_size,
            },
            None => section.batch_size,
        };
        let vllm_timeout_secs = match env.timeout_secs {
            Some(v) => match parse_u64(v.as_str()) {
                Some(n) => n,
                None => section.timeout_secs,
            },
            None => section.timeout_secs,
        };
        let model_override = match env.model {
            Some(v) => {
                if v.as_str().is_empty() {
                    section.model
                } else {
                    Some(v)
                }
            },
            None => section.model,
        };
        Config {
            vllm_base_url: endpoint,
            batch_size,
            connect_timeout_secs: section.connect_timeout_secs,
            vllm_timeout_secs,
            style: section.style,
            model_override,
            exclude: section.targets.exclude,
        }
    }

    /// The URL that lists the server's models: the base URL without trailing
    /// slashes and without one trailing `/v1`, then `/v1/models`.
    pub fn models_url(&self) -> (r: String)
        ensures
            r@ == models_url_spec(self.vllm_base_url@),
    {
        let base = chars_of(self.vllm_base_url.as_str());
        let m = trim_end_char_len(&base, '/');
        let mut v = prefix_chars(&base, m);
        let v1 = chars_of("/v1");
        if ends_with_exec(&v, &v1) {
            v = prefix_chars(&v, v.len() - v1.len());
        }
        extend_chars(&mut v, &chars_of("/v1/models"));
        string_of(&v)
    }

    /// The URL of the server's chat completions: the base URL without trailing
    /// slashes, then `/chat/completions` when it ends with `/v1`, and
    /// `/v1/chat/completions` otherwise.
    pub fn chat_completions_url(&self) -> (r: String)
        ensures
            r@ == chat_url_spec(self.vllm_base_url@),
    {
        let base = chars_of(self.vllm_base_url.as_str());
        let m = trim_end_char_len(&base, '/');
        let mut v = prefix_chars(&base, m);
        if ends_with_exec(&v, &chars_of("/v1")) {
            extend_chars(&mut v, &chars_of("/chat/completions"));
        } else {
            extend_chars(&mut v, &chars_of("/v1/chat/completions"));
        }
        string_of(&v)
    }
}

} // verus!
