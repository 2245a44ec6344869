//! Gemini CLI configuration: the auth methods, the stored settings, the
//! model catalogue, and the environment variables one run needs. The
//! settings file itself is read and written by the shell.

use vstd::prelude::*;

verus! {

/// How the Gemini CLI authenticates.
#[derive(Clone, Copy, PartialEq, Eq, Structural, Debug)]
pub enum GeminiAuthMethod {
    GoogleOauth,
    ApiKey,
    VertexAi,
}

impl Default for GeminiAuthMethod {
    fn default() -> (r: Self)
        ensures
            r is GoogleOauth,
    {
        GeminiAuthMethod::GoogleOauth
    }
}

/// The model used when the settings do not name one.
pub fn default_model() -> (r: String)
    ensures
        r@ == "gemini-2.5-pro"@,
{
    "gemini-2.5-pro".to_owned()
}

/// The approval mode used when the settings do not name one.
pub fn default_approval_mode() -> (r: String)
    ensures
        r@ == "auto_edit"@,
{
    "auto_edit".to_owned()
}

/// The stored Gemini settings. Extra environment variables are held as
/// ordered pairs; a later pair wins when keys repeat, as the shell applies
/// them in order.
#[derive(Debug)]
pub struct GeminiConfig {
    pub auth_method: GeminiAuthMethod,
    pub default_model: String,
    pub approval_mode: String,
    pub api_key: Option<String>,
    pub google_cloud_project: Option<String>,
    pub env: Vec<(String, String)>,
}

impl Default for GeminiConfig {
    fn default() -> (r: Self)
        ensures
            r.auth_method is GoogleOauth,
            r.default_model@ == "gemini-2.5-pro"@,
            r.approval_mode@ == "auto_edit"@,
            r.api_key is None,
            r.google_cloud_project is None,
            r.env@.len() == 0,
    {
        GeminiConfig {
            auth_method: GeminiAuthMethod::GoogleOauth,
            default_model: default_model(),
            approval_mode: default_approval_mode(),
            api_key: None,
            google_cloud_project: None,
            env: Vec::new(),
        }
    }
}

/// The views of a vector of environment pairs.
pub open spec fn pairs_view(s: Seq<(String, String)>) -> Seq<(Seq<char>, Seq<char>)> {
    s.map_values(|e: (String, String)| (e.0@, e.1@))
}

/// The variables an auth method adds, appended after the stored extras so
/// that they win.
pub open spec fn auth_env_view(
    auth_method: GeminiAuthMethod,
    api_key: Option<Seq<char>>,
    project: Option<Seq<char>>,
) -> Seq<(Seq<char>, Seq<char>)> {
    match auth_method {
        GeminiAuthMethod::GoogleOauth => Seq::empty(),
        GeminiAuthMethod::ApiKey => match api_key {
            Some(k) => seq![("GEMINI_API_KEY"@, k)],
            None => Seq::empty(),
        },
        GeminiAuthMethod::VertexAi => (match api_key {
            Some(k) => seq![("GOOGLE_API_KEY"@, k)],
            None => Seq::empty(),
        }) + (match project {
            Some(p) => seq![("GOOGLE_CLOUD_PROJECT"@, p)],
            None => Seq::empty(),
        }) + seq![("GOOGLE_GENAI_USE_VERTEXAI"@, "true"@)],
    }
}

/// The view of an optional owned string.
pub open spec fn opt_view(o: Option<String>) -> Option<Seq<char>> {
    match o {
        Some(s) => Some(s@),
        None => None,
    }
}

/// The environment one Gemini run gets: the stored extras, then whatever
/// the auth method requires.
pub fn build_gemini_env(config: &GeminiConfig) -> (r: Vec<(String, String)>)
    ensures
        pairs_view(r@) == pairs_view(config.env@) + auth_env_view(
            config.auth_method,
            opt_view(config.api_key),
            opt_view(config.google_cloud_project),
        ),
{
    let n = config.env.len();
    let mut out: Vec<(String, String)> = Vec::new();
    let mut j: usize = 0;
    while j < n
        invariant
            n == config.env@.len(),
            j <= n,
            out@.len() == j,
            forall|q: int|
                0 <= q < j ==> (#[trigger] out@[q]).0@ == config.env@[q].0@ && out@[q].1@
                    == config.env@[q].1@,
        decreases n - j,
    {
        let pair = (config.env[j].0.clone(), config.env[j].1.clone());
        out.push(pair);
        j += 1;
    }
    proof {
        assert(pairs_view(out@) =~= pairs_view(config.env@));
    }
    let ghost base = pairs_view(out@);
    match config.auth_method {
        GeminiAuthMethod::GoogleOauth => {
            proof {
                assert(pairs_view(out@) =~= base + auth_env_view(
                    config.auth_method,
                    opt_view(config.api_key),
                    opt_view(config.google_cloud_project),
                ));
            }
        },
        GeminiAuthMethod::ApiKey => {
            match &config.api_key {
                Some(k) => {
                    out.push(("GEMINI_API_KEY".to_owned(), k.clone()));
                },
                None => {},
            }
            proof {
                assert(pairs_view(out@) =~= base + auth_env_view(
                    config.auth_method,
                    opt_view(config.api_key),
                    opt_view(config.google_cloud_project),
                ));
            }
        },
        GeminiAuthMethod::VertexAi => {
            match &config.api_key {
                Some(k) => {
                    out.push(("GOOGLE_API_KEY".to_owned(), k.clone()));
                },
                None => {},
            }
            match &config.google_cloud_project {
                Some(p) => {
                    out.push(("GOOGLE_CLOUD_PROJECT".to_owned(), p.clone()));
                },
                None => {},
            }
            out.push(("GOOGLE_GENAI_USE_VERTEXAI".to_owned(), "true".to_owned()));
            proof {
                assert(pairs_view(out@) =~= base + auth_env_view(
                    config.auth_method,
                    opt_view(config.api_key),
                    opt_view(config.google_cloud_project),
                ));
            }
        },
    }
    out
}

/// One entry of the model catalogue.
#[derive(Debug)]
pub struct GeminiModelInfo {
    pub id: String,
    pub name: String,
    pub description: String,
    pub context_window: u64,
    pub is_default: bool,
}

/// The fixed model catalogue: the default pro model, the flash model, and
/// the experimental flash model, each with a million-token window.
pub fn get_gemini_models() -> (r: Vec<GeminiModelInfo>)
    ensures
        r@.len() == 3,
        r@[0].id@ == "gemini-2.5-pro"@ && r@[0].name@ == "Gemini 2.5 Pro"@ && r@[0].description@
            == "Most capable model with 1M token context"@ && r@[0].context_window == 1000000u64
            && r@[0].is_default == true,
        r@[1].id@ == "gemini-2.5-flash"@ && r@[1].name@ == "Gemini 2.5 Flash"@
            && r@[1].description@ == "Fast and efficient for simpler tasks"@
            && r@[1].context_window == 1000000u64 && r@[1].is_default == false,
        r@[2].id@ == "gemini-2.0-flash-exp"@ && r@[2].name@ == "Gemini 2.0 Flash (Experimental)"@
            && r@[2].description@ == "Experimental flash model"@ && r@[2].context_window
            == 1000000u64 && r@[2].is_default == false,
{
    let mut out: Vec<GeminiModelInfo> = Vec::new();
    out.push(
        GeminiModelInfo {
            id: "gemini-2.5-pro".to_owned(),
            name: "Gemini 2.5 Pro".to_owned(),
            description: "Most capable model with 1M token context".to_owned(),
            context_window: 1000000,
            is_default: true,
        },
    );
    out.push(
        GeminiModelInfo {
            id: "gemini-2.5-flash".to_owned(),
            name: "Gemini 2.5 Flash".to_owned(),
            description: "Fast and efficient for simpler tasks".to_owned(),
            context_window: 1000000,
            is_default: false,
        },
    );
    out.push(
        GeminiModelInfo {
            id: "gemini-2.0-flash-exp".to_owned(),
            name: "Gemini 2.0 Flash (Experimental)".to_owned(),
            description: "Experimental flash model".to_owned(),
            context_window: 1000000,
            is_default: false,
        },
    );
    out
}

} // verus!
