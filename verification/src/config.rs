//! Settings, read from the environment.

use vstd::prelude::*;

verus! {

/// Keys and choices for the services.
#[derive(Debug)]
pub struct Config {
    pub deepgram_api_key: String,
    pub deepseek_api_key: String,
    pub deepseek_base_url: String,
    pub deepseek_model: String,
    pub tts_voice: String,
}

impl Clone for Config {
    fn clone(&self) -> (copy: Config)
        ensures
            copy == *self,
    {
        Config {
            deepgram_api_key: self.deepgram_api_key.clone(),
            deepseek_api_key: self.deepseek_api_key.clone(),
            deepseek_base_url: self.deepseek_base_url.clone(),
            deepseek_model: self.deepseek_model.clone(),
            tts_voice: self.tts_voice.clone(),
        }
    }
}

/// The values of the environment variables; `None` for one that is not set or is
/// not text.
#[derive(Debug)]
pub struct Environment {
    /// `DEEPGRAM_API_KEY`
    pub deepgram_api_key: Option<String>,
    /// `DEEPSEEK_API_KEY`
    pub deepseek_api_key: Option<String>,
    /// `DEEPSEEK_BASE_URL`
    pub deepseek_base_url: Option<String>,
    /// `DEEPSEEK_MODEL`
    pub deepseek_model: Option<String>,
    /// `TTS_VOICE`
    pub tts_voice: Option<String>,
}

/// The variable that is required and not set.
#[derive(Debug, Clone, Copy, PartialEq, Eq, Structural)]
pub enum ConfigError {
    DeepgramApiKey,
    DeepseekApiKey,
}

/// The text of a variable, or `default` where it is not set.
pub open spec fn value_or(value: Option<String>, default: Seq<char>) -> Seq<char> {
    match value {
        Some(v) => v@,
        None => default,
    }
}

fn or_default(value: Option<String>, default: &str) -> (text: String)
    ensures
        text@ == value_or(value, default@),
{
    match value {
        Some(v) => v,
        None => default.to_owned(),
    }
}

impl Config {
    /// The settings that these variables give. Both keys are required; the first
    /// that is missing is reported. The rest have defaults.
    pub fn from_env(env: Environment) -> (config: Result<Config, ConfigError>)
        ensures
            match config {
                Ok(c) => {
                    &&& env.deepgram_api_key is Some
                    &&& env.deepseek_api_key is Some
                    &&& c.deepgram_api_key@ == env.deepgram_api_key->0@
                    &&& c.deepseek_api_key@ == env.deepseek_api_key->0@
                    &&& c.deepseek_base_url@ == value_or(
                        env.deepseek_base_url,
                        "https://api.deepseek.com"@,
                    )
                    &&& c.deepseek_model@ == value_or(env.deepseek_model, "deepseek-chat"@)
                    &&& c.tts_voice@ == value_or(env.tts_voice, "aura-asteria-en"@)
                },
                Err(ConfigError::DeepgramApiKey) => env.deepgram_api_key is None,
                Err(ConfigError::DeepseekApiKey) => env.deepgram_api_key is Some
                    && env.deepseek_api_key is None,
            },
    {
        let deepgram_api_key = match env.deepgram_api_key {
            Some(key) => key,
            None => return Err(ConfigError::DeepgramApiKey),
        };
        let deepseek_api_key = match env.deepseek_api_key {
            Some(key) => key,
            None => return Err(ConfigError::DeepseekApiKey),
        };
        Ok(
            Config {
                deepgram_api_key,
                deepseek_api_key,
                deepseek_base_url: or_default(env.deepseek_base_url, "https://api.deepseek.com"),
                deepseek_model: or_default(env.deepseek_model, "deepseek-chat"),
                tts_voice: or_default(env.tts_voice, "aura-asteria-en"),
            },
        )
    }
}

impl ConfigError {
    /// What is said of the missing variable.
    pub open spec fn text(self) -> Seq<char> {
        match self {
            ConfigError::DeepgramApiKey => "DEEPGRAM_API_KEY not set"@,
            ConfigError::DeepseekApiKey => "DEEPSEEK_API_KEY not set"@,
        }
    }

    /// The message for the missing variable.
    pub fn message(&self) -> (message: &'static str)
        ensures
            message@ == self.text(),
    {
        match self {
            ConfigError::DeepgramApiKey => "DEEPGRAM_API_KEY not set",
            ConfigError::DeepseekApiKey => "DEEPSEEK_API_KEY not set",
        }
    }
}

/// A variable that is set is taken as it is, whatever it holds; only one that is not
/// set has its default.
pub proof fn law_settings_are_taken_as_they_are(value: String, default: Seq<char>)
    ensures
        value_or(Some(value), default) == value@,
        value_or(None, default) == default,
{
}

/// Settings are made exactly where both keys are set, and hold the variables as they
/// are.
pub proof fn law_settings_hold_the_environment(
    env: Environment,
    config: Result<Config, ConfigError>,
)
    requires
        call_ensures(Config::from_env, (env,), config),
    ensures
        config is Ok <==> env.deepgram_api_key is Some && env.deepseek_api_key is Some,
        config is Ok ==> {
            let made = config->Ok_0;
            &&& made.deepgram_api_key@ == env.deepgram_api_key->0@
            &&& made.deepseek_api_key@ == env.deepseek_api_key->0@
            &&& env.deepseek_base_url matches Some(url) ==> made.deepseek_base_url@ == url@
            &&& env.deepseek_model matches Some(model) ==> made.deepseek_model@ == model@
            &&& env.tts_voice matches Some(voice) ==> made.tts_voice@ == voice@
        },
        env.deepgram_api_key is None ==> config == Err::<Config, _>(ConfigError::DeepgramApiKey),
{
}

} // verus!
