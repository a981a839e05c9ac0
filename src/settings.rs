//! The application settings that configure the client.
use vstd::prelude::*;

verus! {

/// Settings kept by the application: model endpoints and keys, and the
/// proxy and audio-resolver URLs that the client is built with.
#[derive(Clone, Debug)]
pub struct AppSettings {
    pub api_key: Option<String>,
    pub ai_url: Option<String>,
    pub ai_model_name: Option<String>,
    pub whisper_api_key: Option<String>,
    pub whisper_url: Option<String>,
    pub whisper_model_name: Option<String>,
    pub proxy: Option<String>,
    pub tube_api_url: Option<String>,
}

impl Default for AppSettings {
    /// Nothing configured.
    fn default() -> (r: AppSettings)
        ensures
            r.api_key is None && r.ai_url is None && r.ai_model_name is None
                && r.whisper_api_key is None && r.whisper_url is None
                && r.whisper_model_name is None && r.proxy is None && r.tube_api_url is None,
    {
        AppSettings {
            api_key: None,
            ai_url: None,
            ai_model_name: None,
            whisper_api_key: None,
            whisper_url: None,
            whisper_model_name: None,
            proxy: None,
            tube_api_url: None,
        }
    }
}

} // verus!
