//! The engine settings and the decisions that follow from them alone.

use crate::text::same_text;
use vstd::prelude::*;

verus! {

/// The mode in which the application starts and stops the engine itself.
pub const DEFAULT_ENGINE_MODE: &'static str = "managed";

/// Where the engine listens unless the settings say otherwise.
pub const DEFAULT_ENGINE_GRPC_URL: &'static str = "http://127.0.0.1:50051";

/// Where the engine answers diagnostics unless the settings say otherwise.
pub const DEFAULT_ENGINE_HTTP_URL: &'static str = "http://127.0.0.1:8080";

/// How long a managed engine may take to answer for the first time.
pub const DEFAULT_ENGINE_STARTUP_TIMEOUT_S: u64 = 20;

/// How many pieces of local context a request is given.
pub const DEFAULT_ENGINE_CONTEXT_TOP_K: u32 = 5;

/// The settings of the engine.
#[derive(Clone, Debug, PartialEq, Eq)]
pub struct EngineConfig {
    pub enabled: bool,
    pub mode: String,
    pub grpc_url: String,
    pub http_url: String,
    pub fallback_to_ollama: bool,
    pub startup_timeout_s: u64,
    pub context_top_k: u32,
}

/// The settings of the application, as far as the engine is concerned.
#[derive(Clone, Debug, PartialEq, Eq)]
pub struct AppConfig {
    pub engine: EngineConfig,
}

impl Default for EngineConfig {
    fn default() -> (config: EngineConfig)
        ensures
            config.enabled,
            config.mode@ == DEFAULT_ENGINE_MODE@,
            config.grpc_url@ == DEFAULT_ENGINE_GRPC_URL@,
            config.http_url@ == DEFAULT_ENGINE_HTTP_URL@,
            config.fallback_to_ollama,
            config.startup_timeout_s == DEFAULT_ENGINE_STARTUP_TIMEOUT_S,
            config.context_top_k == DEFAULT_ENGINE_CONTEXT_TOP_K,
    {
        EngineConfig {
            enabled: true,
            mode: DEFAULT_ENGINE_MODE.to_owned(),
            grpc_url: DEFAULT_ENGINE_GRPC_URL.to_owned(),
            http_url: DEFAULT_ENGINE_HTTP_URL.to_owned(),
            fallback_to_ollama: true,
            startup_timeout_s: DEFAULT_ENGINE_STARTUP_TIMEOUT_S,
            context_top_k: DEFAULT_ENGINE_CONTEXT_TOP_K,
        }
    }
}

impl Default for AppConfig {
    fn default() -> (config: AppConfig)
        ensures
            config.engine.enabled,
            config.engine.mode@ == DEFAULT_ENGINE_MODE@,
            config.engine.grpc_url@ == DEFAULT_ENGINE_GRPC_URL@,
            config.engine.http_url@ == DEFAULT_ENGINE_HTTP_URL@,
            config.engine.fallback_to_ollama,
            config.engine.startup_timeout_s == DEFAULT_ENGINE_STARTUP_TIMEOUT_S,
            config.engine.context_top_k == DEFAULT_ENGINE_CONTEXT_TOP_K,
    {
        AppConfig { engine: EngineConfig::default() }
    }
}

/// Whether the application runs the engine itself.
pub open spec fn starts_managed_engine(config: AppConfig) -> bool {
    config.engine.enabled && config.engine.mode@ == DEFAULT_ENGINE_MODE@
}

/// Whether a turn goes to the engine.
pub open spec fn routes_to_engine(config: AppConfig, has_images: bool, think: bool) -> bool {
    config.engine.enabled && !has_images && !think
}

/// Whether the application is to start the engine itself.
pub fn should_start_managed_engine(config: &AppConfig) -> (res: bool)
    ensures
        res == starts_managed_engine(*config),
{
    config.engine.enabled && same_text(config.engine.mode.as_str(), DEFAULT_ENGINE_MODE)
}

/// Whether a turn is answered by the engine: only plain text turns are, and
/// only while the engine is enabled.
pub fn should_route_to_engine(config: &AppConfig, has_images: bool, think: bool) -> (res: bool)
    ensures
        res == routes_to_engine(*config, has_images, think),
{
    config.engine.enabled && !has_images && !think
}

/// Whether a turn that the engine failed is handed on to Ollama.
pub fn should_fallback_to_ollama(config: &AppConfig) -> (res: bool)
    ensures
        res == config.engine.fallback_to_ollama,
{
    config.engine.fallback_to_ollama
}

/// A disabled engine is neither started nor sent any turn, whatever the mode
/// and the turn.
pub proof fn law_disabled_engine_is_left_alone(config: AppConfig, has_images: bool, think: bool)
    requires
        !config.engine.enabled,
    ensures
        !starts_managed_engine(config),
        !routes_to_engine(config, has_images, think),
{
}

/// An enabled engine is sent exactly the turns without images and without
/// thinking, whoever starts it: neither the mode nor any other setting matters.
pub proof fn law_enabled_engine_gets_plain_turns(
    config: AppConfig,
    other: AppConfig,
    has_images: bool,
    think: bool,
)
    ensures
        routes_to_engine(config, has_images, think) <==> (config.engine.enabled && !has_images
            && !think),
        config.engine.enabled == other.engine.enabled ==> routes_to_engine(
            config,
            has_images,
            think,
        ) == routes_to_engine(other, has_images, think),
{
}

/// The application starts exactly an enabled engine whose mode is the word
/// `managed`, whatever the other settings are.
pub proof fn law_managed_engine_is_started(config: AppConfig, other: AppConfig)
    ensures
        starts_managed_engine(config) <==> (config.engine.enabled && config.engine.mode@
            == "managed"@),
        config.engine.enabled == other.engine.enabled && config.engine.mode@ == other.engine.mode@
            ==> starts_managed_engine(config) == starts_managed_engine(other),
{
}

/// What is started is also sent plain turns, but not the other way round: an
/// engine in another mode is sent them without being started.
pub proof fn law_started_engine_gets_plain_turns(config: AppConfig)
    ensures
        starts_managed_engine(config) ==> routes_to_engine(config, false, false),
        config.engine.enabled && config.engine.mode@ != "managed"@ ==> !starts_managed_engine(
            config,
        ) && routes_to_engine(config, false, false),
{
}

/// The three decisions of the library are these: plain turns go to an enabled
/// engine, an enabled engine in the mode `managed` is started, and a turn that
/// failed is handed on exactly where the settings say so, whether or not the
/// engine is enabled.
pub proof fn law_decisions_follow_the_settings(
    config: AppConfig,
    has_images: bool,
    think: bool,
    routed: bool,
    started: bool,
    handed_on: bool,
)
    requires
        call_ensures(should_route_to_engine, (&config, has_images, think), routed),
        call_ensures(should_start_managed_engine, (&config,), started),
        call_ensures(should_fallback_to_ollama, (&config,), handed_on),
    ensures
        routed <==> config.engine.enabled && !has_images && !think,
        started <==> config.engine.enabled && config.engine.mode@ == "managed"@,
        handed_on <==> config.engine.fallback_to_ollama,
{
}

} // verus!
