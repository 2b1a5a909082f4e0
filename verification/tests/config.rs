use fold_ingestion::config::{AIProvider, AnthropicConfig, IngestionConfig, OllamaConfig, VisionBackend};
use fold_ingestion::config::{env_count, env_flag, env_seconds, key_on_load, key_to_save, provider_from_env, ram_gb_from_meminfo, ram_gb_from_memsize, redacted_key, text_model_for_ram, vision_backend_from_env};
use fold_ingestion::error::IngestionError;

#[test]
fn vision_backend_defaults_to_ollama() {
    assert_eq!(VisionBackend::default(), VisionBackend::Ollama);
}

#[test]
fn ai_provider_defaults_to_anthropic() {
    assert_eq!(AIProvider::default(), AIProvider::Anthropic);
}

fn anthropic(key: &str, model: &str, url: &str) -> AnthropicConfig {
    AnthropicConfig { api_key: key.to_string(), model: model.to_string(), base_url: url.to_string() }
}

#[test]
fn anthropic_config_validation_reports_first_missing_setting() {
    assert!(anthropic("k", "m", "u").validate().is_ok());
    for (cfg, expected) in [
        (anthropic("", "", ""), "Anthropic API key is required"),
        (anthropic("k", "", ""), "Anthropic model is required"),
        (anthropic("k", "m", ""), "Anthropic base URL is required"),
    ] {
        match cfg.validate() {
            Err(IngestionError::ConfigurationError(m)) => assert_eq!(m, expected),
            other => panic!("unexpected {other:?}"),
        }
    }
}

#[test]
fn env_vision_backend_is_case_insensitive_and_keeps_unknown_values() {
    assert_eq!(vision_backend_from_env("Anthropic", VisionBackend::Ollama), VisionBackend::Anthropic);
    assert_eq!(vision_backend_from_env("OLLAMA", VisionBackend::Anthropic), VisionBackend::Ollama);
    assert_eq!(vision_backend_from_env("gpu", VisionBackend::Anthropic), VisionBackend::Anthropic);
}

#[test]
fn env_provider_defaults_to_anthropic() {
    assert_eq!(provider_from_env("Ollama"), AIProvider::Ollama);
    assert_eq!(provider_from_env("anthropic"), AIProvider::Anthropic);
    assert_eq!(provider_from_env("something"), AIProvider::Anthropic);
}

#[test]
fn env_flags_and_counts_fall_back_to_defaults() {
    assert!(env_flag(Some("true"), false));
    assert!(!env_flag(Some("false"), true));
    assert!(env_flag(Some("TRUE"), true));
    assert!(!env_flag(None, false));
    assert_eq!(env_count(Some("5"), 3), 5);
    assert_eq!(env_count(Some("+7"), 3), 7);
    assert_eq!(env_count(Some("-1"), 3), 3);
    assert_eq!(env_count(Some("4294967296"), 3), 3);
    assert_eq!(env_count(None, 3), 3);
    assert_eq!(env_seconds(Some("600"), 300), 600);
    assert_eq!(env_seconds(Some(" 600"), 300), 300);
}

#[test]
fn saved_key_survives_a_redacted_round_trip() {
    assert_eq!(redacted_key("sk-1"), "***configured***");
    assert_eq!(redacted_key(""), "");
    assert_eq!(key_to_save(&redacted_key("sk-1"), Some("sk-1")), "sk-1");
    assert_eq!(key_to_save("", None), "");
    assert_eq!(key_to_save("sk-2", Some("sk-1")), "sk-2");
    assert_eq!(key_on_load("***configured***"), "");
    assert_eq!(key_on_load("sk-1"), "sk-1");
}

#[test]
fn memory_size_is_read_from_meminfo_or_memsize() {
    let meminfo = "MemFree:  100 kB\nMemTotal:       32768000 kB\r\nSwap: 0 kB\n";
    assert_eq!(ram_gb_from_meminfo(Some(meminfo)), 31);
    assert_eq!(ram_gb_from_meminfo(Some("MemTotal: lots\n")), 16);
    assert_eq!(ram_gb_from_meminfo(Some("nothing here")), 16);
    assert_eq!(ram_gb_from_meminfo(None), 16);
    assert_eq!(ram_gb_from_memsize(Some("68719476736\n")), 64);
    assert_eq!(ram_gb_from_memsize(Some("n/a")), 16);
    assert_eq!(ram_gb_from_memsize(None), 16);
}

#[test]
fn provider_names_and_locality() {
    assert_eq!(AIProvider::Ollama.provider_name(), "Ollama");
    assert_eq!(AIProvider::Anthropic.provider_name(), "Anthropic");
    assert!(AIProvider::Ollama.is_local_provider());
    assert!(!AIProvider::Anthropic.is_local_provider());
}

#[test]
fn text_model_follows_memory() {
    assert_eq!(text_model_for_ram(128, "big"), "big");
    assert_eq!(text_model_for_ram(64, "big"), "big");
    assert_eq!(text_model_for_ram(63, "big"), "llama3.1:8b");
    assert_eq!(text_model_for_ram(32, "big"), "llama3.1:8b");
    assert_eq!(text_model_for_ram(16, "big"), "llama3.2:3b");
    assert_eq!(text_model_for_ram(0, "big"), "llama3.2:3b");
}

// Settings as the defaults give them: models and URLs set, no API key.
fn defaults(provider: AIProvider) -> IngestionConfig {
    IngestionConfig {
        provider,
        ollama: OllamaConfig {
            model: "llama3.2:3b".to_string(),
            base_url: "http://localhost:11434".to_string(),
            vision_model: "vision".to_string(),
            ocr_model: "ocr".to_string(),
        },
        anthropic: AnthropicConfig {
            api_key: String::new(),
            model: "haiku-model".to_string(),
            base_url: "https://api.anthropic.com".to_string(),
        },
        enabled: false,
        max_retries: 3,
        timeout_seconds: 120,
        auto_execute_mutations: true,
        vision_backend: VisionBackend::Ollama,
    }
}

#[test]
fn test_validation_anthropic_fails_without_api_key() {
    let config = defaults(AIProvider::Anthropic);
    assert!(config.validate().is_err());
}

#[test]
fn test_validation_anthropic_succeeds_with_api_key() {
    let mut config = defaults(AIProvider::Anthropic);
    config.anthropic.api_key = "test-key".to_string();
    assert!(config.validate().is_ok());
}

#[test]
fn test_validation_ollama_succeeds_by_default() {
    let config = defaults(AIProvider::Ollama);
    assert!(config.validate().is_ok());
}

#[test]
fn test_is_ready() {
    let mut config = defaults(AIProvider::Anthropic);
    assert!(!config.is_ready());

    config.enabled = true;
    config.anthropic.api_key = "test-key".to_string();
    assert!(config.is_ready());

    config.provider = AIProvider::Ollama;
    assert!(config.is_ready());
}

#[test]
fn ollama_settings_are_checked_model_first() {
    let mut config = defaults(AIProvider::Ollama);
    config.ollama.model = String::new();
    config.ollama.base_url = String::new();
    match config.validate() {
        Err(IngestionError::ConfigurationError(m)) => assert_eq!(m, "Ollama model is required"),
        other => panic!("unexpected {other:?}"),
    }
    config.ollama.model = "m".to_string();
    match config.ollama.validate() {
        Err(IngestionError::ConfigurationError(m)) => assert_eq!(m, "Ollama base URL is required"),
        other => panic!("unexpected {other:?}"),
    }
}

#[test]
fn redacted_config_masks_only_the_key() {
    let mut config = defaults(AIProvider::Anthropic);
    assert_eq!(config.redacted().anthropic.api_key, "");
    config.anthropic.api_key = "sk-secret".to_string();
    let shown = config.redacted();
    assert_eq!(shown.anthropic.api_key, "***configured***");
    assert_eq!(shown.anthropic.model, "haiku-model");
    assert_eq!(shown.ollama.model, "llama3.2:3b");
    assert_eq!(shown.max_retries, 3);
}
