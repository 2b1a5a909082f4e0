//! Provider choices of the ingestion configuration and the check of the
//! Anthropic settings.

use crate::conversion::textops::{lines_exec, lines_of, nth_word, nth_word_exec};
use crate::error::IngestionError;
use crate::text::{
    chars_of, matches_at_exec, owned, parse_unsigned, parse_unsigned_spec, starts_with_seq, str_eq,
    to_lowercase, trim_vec, unicode_lowercase, trim_seq,
};
use vstd::prelude::*;

verus! {

/// Specifies the AI provider to use for ingestion.
#[derive(Clone, Copy, Debug, PartialEq, Eq, Structural)]
pub enum AIProvider {
    Anthropic,
    Ollama,
}

impl AIProvider {
    /// Whether the provider runs locally (Ollama) and so costs nothing per
    /// token.
    pub fn is_local_provider(&self) -> (b: bool)
        ensures
            b == (*self == AIProvider::Ollama),
    {
        match self {
            AIProvider::Ollama => true,
            AIProvider::Anthropic => false,
        }
    }

    /// The provider's display name.
    pub fn provider_name(&self) -> (s: &'static str)
        ensures
            s@ == match *self {
                AIProvider::Ollama => "Ollama"@,
                AIProvider::Anthropic => "Anthropic"@,
            },
    {
        match self {
            AIProvider::Ollama => "Ollama",
            AIProvider::Anthropic => "Anthropic",
        }
    }
}

impl Default for AIProvider {
    /// Anthropic.
    fn default() -> (p: Self)
        ensures
            p == AIProvider::Anthropic,
    {
        AIProvider::Anthropic
    }
}

/// The backend that turns images into markdown (vision / OCR), separate
/// from the text provider.
#[derive(Clone, Copy, Debug, PartialEq, Eq, Structural)]
pub enum VisionBackend {
    /// Local Ollama vision models; needs a reachable Ollama daemon.
    Ollama,
    /// Anthropic vision models; needs an Anthropic API key.
    Anthropic,
}

impl Default for VisionBackend {
    /// Ollama, the backend in use before the choice existed.
    fn default() -> (b: Self)
        ensures
            b == VisionBackend::Ollama,
    {
        VisionBackend::Ollama
    }
}

/// Configuration for the Anthropic AI provider.
#[derive(Clone, Debug)]
pub struct AnthropicConfig {
    pub api_key: String,
    pub model: String,
    pub base_url: String,
}

/// The message of the first missing Anthropic setting, if any: the key,
/// then the model, then the base URL.
pub open spec fn missing_setting(c: AnthropicConfig) -> Option<Seq<char>> {
    if c.api_key@.len() == 0 {
        Some("Anthropic API key is required"@)
    } else if c.model@.len() == 0 {
        Some("Anthropic model is required"@)
    } else if c.base_url@.len() == 0 {
        Some("Anthropic base URL is required"@)
    } else {
        None
    }
}

fn is_empty_string(s: &String) -> (b: bool)
    ensures
        b <==> s@.len() == 0,
{
    crate::text::chars_of(s.as_str()).len() == 0
}

impl AnthropicConfig {
    /// Check that the key, the model and the base URL are all set; the
    /// first one missing is reported as a configuration error.
    pub fn validate(&self) -> (r: Result<(), IngestionError>)
        ensures
            r is Ok <==> missing_setting(*self) is None,
            r matches Err(e) ==> (e matches IngestionError::ConfigurationError(m) && Some(m@)
                == missing_setting(*self)),
    {
        if is_empty_string(&self.api_key) {
            return Err(IngestionError::ConfigurationError(owned("Anthropic API key is required")));
        }
        if is_empty_string(&self.model) {
            return Err(IngestionError::ConfigurationError(owned("Anthropic model is required")));
        }
        if is_empty_string(&self.base_url) {
            return Err(IngestionError::ConfigurationError(owned("Anthropic base URL is required")));
        }
        Ok(())
    }
}

/// Configuration for the Ollama provider: the models and the server. (The
/// sampling parameters, which hold floats, stay with the application.)
#[derive(Clone, Debug)]
pub struct OllamaConfig {
    pub model: String,
    pub base_url: String,
    pub vision_model: String,
    pub ocr_model: String,
}

/// The message of the first missing Ollama setting, if any: the model,
/// then the base URL.
pub open spec fn missing_ollama_setting(c: OllamaConfig) -> Option<Seq<char>> {
    if c.model@.len() == 0 {
        Some("Ollama model is required"@)
    } else if c.base_url@.len() == 0 {
        Some("Ollama base URL is required"@)
    } else {
        None
    }
}

impl OllamaConfig {
    /// Check that the model and the base URL are set; the first one missing
    /// is reported as a configuration error.
    pub fn validate(&self) -> (r: Result<(), IngestionError>)
        ensures
            r is Ok <==> missing_ollama_setting(*self) is None,
            r matches Err(e) ==> (e matches IngestionError::ConfigurationError(m) && Some(m@)
                == missing_ollama_setting(*self)),
    {
        if is_empty_string(&self.model) {
            return Err(IngestionError::ConfigurationError(owned("Ollama model is required")));
        }
        if is_empty_string(&self.base_url) {
            return Err(IngestionError::ConfigurationError(owned("Ollama base URL is required")));
        }
        Ok(())
    }
}

/// The ingestion settings the library decides on: the provider and its
/// settings, whether ingestion is on, the retry and timeout limits, whether
/// mutations run at once, and the vision backend. (The per-role overrides
/// are keyed by roles of the node crate and stay outside.)
#[derive(Clone, Debug)]
pub struct IngestionConfig {
    pub provider: AIProvider,
    pub ollama: OllamaConfig,
    pub anthropic: AnthropicConfig,
    pub enabled: bool,
    pub max_retries: u32,
    pub timeout_seconds: u64,
    pub auto_execute_mutations: bool,
    pub vision_backend: VisionBackend,
}

/// The message of the first missing setting of the chosen provider.
pub open spec fn config_problem(c: IngestionConfig) -> Option<Seq<char>> {
    match c.provider {
        AIProvider::Ollama => missing_ollama_setting(c.ollama),
        AIProvider::Anthropic => missing_setting(c.anthropic),
    }
}

fn copy_string(s: &String) -> (r: String)
    ensures
        r@ == s@,
{
    owned(s.as_str())
}

impl IngestionConfig {
    /// Check the settings of the chosen provider.
    pub fn validate(&self) -> (r: Result<(), IngestionError>)
        ensures
            r is Ok <==> config_problem(*self) is None,
            r matches Err(e) ==> (e matches IngestionError::ConfigurationError(m) && Some(m@)
                == config_problem(*self)),
    {
        match self.provider {
            AIProvider::Ollama => self.ollama.validate(),
            AIProvider::Anthropic => self.anthropic.validate(),
        }
    }

    /// Whether ingestion is enabled and its provider fully configured.
    pub fn is_ready(&self) -> (b: bool)
        ensures
            b == (self.enabled && config_problem(*self) is None),
    {
        self.enabled && self.validate().is_ok()
    }

    /// A copy with the API key masked for display (`***configured***` when
    /// one is set); every other setting is kept.
    pub fn redacted(&self) -> (r: IngestionConfig)
        ensures
            r.anthropic.api_key@ == shown_key(self.anthropic.api_key@),
            r.anthropic.model@ == self.anthropic.model@,
            r.anthropic.base_url@ == self.anthropic.base_url@,
            r.ollama.model@ == self.ollama.model@,
            r.ollama.base_url@ == self.ollama.base_url@,
            r.ollama.vision_model@ == self.ollama.vision_model@,
            r.ollama.ocr_model@ == self.ollama.ocr_model@,
            r.provider == self.provider,
            r.enabled == self.enabled,
            r.max_retries == self.max_retries,
            r.timeout_seconds == self.timeout_seconds,
            r.auto_execute_mutations == self.auto_execute_mutations,
            r.vision_backend == self.vision_backend,
    {
        IngestionConfig {
            provider: self.provider,
            ollama: OllamaConfig {
                model: copy_string(&self.ollama.model),
                base_url: copy_string(&self.ollama.base_url),
                vision_model: copy_string(&self.ollama.vision_model),
                ocr_model: copy_string(&self.ollama.ocr_model),
            },
            anthropic: AnthropicConfig {
                api_key: redacted_key(self.anthropic.api_key.as_str()),
                model: copy_string(&self.anthropic.model),
                base_url: copy_string(&self.anthropic.base_url),
            },
            enabled: self.enabled,
            max_retries: self.max_retries,
            timeout_seconds: self.timeout_seconds,
            auto_execute_mutations: self.auto_execute_mutations,
            vision_backend: self.vision_backend,
        }
    }
}

// ---------------------------------------------------------------------------
// Environment settings
// ---------------------------------------------------------------------------

/// `INGESTION_VISION_BACKEND`: `anthropic` or `ollama`, in any case, picks
/// that backend; any other value keeps the one chosen before.
pub open spec fn vision_backend_choice(value: Seq<char>, previous: VisionBackend) -> VisionBackend {
    if unicode_lowercase(value) == "anthropic"@ {
        VisionBackend::Anthropic
    } else if unicode_lowercase(value) == "ollama"@ {
        VisionBackend::Ollama
    } else {
        previous
    }
}

/// The vision backend an `INGESTION_VISION_BACKEND` value selects.
pub fn vision_backend_from_env(value: &str, previous: VisionBackend) -> (b: VisionBackend)
    ensures
        b == vision_backend_choice(value@, previous),
{
    let v = to_lowercase(value);
    if str_eq(v.as_str(), "anthropic") {
        VisionBackend::Anthropic
    } else if str_eq(v.as_str(), "ollama") {
        VisionBackend::Ollama
    } else {
        previous
    }
}

/// `AI_PROVIDER`: `ollama`, in any case, picks Ollama; any other value
/// Anthropic.
pub fn provider_from_env(value: &str) -> (p: AIProvider)
    ensures
        p == (if unicode_lowercase(value@) == "ollama"@ {
            AIProvider::Ollama
        } else {
            AIProvider::Anthropic
        }),
{
    let v = to_lowercase(value);
    if str_eq(v.as_str(), "ollama") {
        AIProvider::Ollama
    } else {
        AIProvider::Anthropic
    }
}

/// A boolean setting: exactly `true` or `false` (`bool::from_str`);
/// unset or anything else gives the default.
pub fn env_flag(value: Option<&str>, default: bool) -> (b: bool)
    ensures
        b == match value {
            Some(v) => if v@ == "true"@ {
                true
            } else if v@ == "false"@ {
                false
            } else {
                default
            },
            None => default,
        },
{
    match value {
        Some(v) => if str_eq(v, "true") {
            true
        } else if str_eq(v, "false") {
            false
        } else {
            default
        },
        None => default,
    }
}

/// A count setting (`u32::from_str`); unset or unparsable gives the
/// default.
pub fn env_count(value: Option<&str>, default: u32) -> (n: u32)
    ensures
        n == match value {
            Some(v) => match parse_unsigned_spec(v@, 0xffff_ffff) {
                Some(x) => x as u32,
                None => default,
            },
            None => default,
        },
{
    match value {
        Some(v) => match parse_unsigned(&chars_of(v), 0xffff_ffffu64) {
            Some(x) => x as u32,
            None => default,
        },
        None => default,
    }
}

/// A duration setting in seconds (`u64::from_str`); unset or unparsable
/// gives the default.
pub fn env_seconds(value: Option<&str>, default: u64) -> (n: u64)
    ensures
        n == match value {
            Some(v) => match parse_unsigned_spec(v@, 0xffff_ffff_ffff_ffff) {
                Some(x) => x as u64,
                None => default,
            },
            None => default,
        },
{
    match value {
        Some(v) => match parse_unsigned(&chars_of(v), 0xffff_ffff_ffff_ffffu64) {
            Some(x) => x,
            None => default,
        },
        None => default,
    }
}

// ---------------------------------------------------------------------------
// The API key in saved settings
// ---------------------------------------------------------------------------

/// What a redacted key reads: the placeholder for a configured key.
pub open spec fn redaction() -> Seq<char> {
    "***configured***"@
}

/// A key as shown: the placeholder when one is configured, else empty.
pub open spec fn shown_key(key: Seq<char>) -> Seq<char> {
    if key.len() == 0 {
        key
    } else {
        redaction()
    }
}

/// The key as shown in a redacted copy of the settings.
pub fn redacted_key(key: &str) -> (r: String)
    ensures
        r@ == shown_key(key@),
{
    if chars_of(key).len() == 0 {
        owned(key)
    } else {
        owned("***configured***")
    }
}

/// The key a save writes: an empty or redacted incoming key keeps the key
/// already saved (none when there is none), any other key replaces it.
pub open spec fn key_to_save_spec(incoming: Seq<char>, existing: Option<Seq<char>>) -> Seq<char> {
    if incoming.len() == 0 || incoming == redaction() {
        match existing {
            Some(k) => k,
            None => seq![],
        }
    } else {
        incoming
    }
}

/// The key a save writes.
pub fn key_to_save(incoming: &str, existing: Option<&str>) -> (r: String)
    ensures
        r@ == key_to_save_spec(incoming@, match existing {
            Some(k) => Some(k@),
            None => None,
        }),
{
    if chars_of(incoming).len() == 0 || str_eq(incoming, "***configured***") {
        match existing {
            Some(k) => owned(k),
            None => String::new(),
        }
    } else {
        owned(incoming)
    }
}

/// The key a loaded file gives: the placeholder reads as no key.
pub fn key_on_load(saved: &str) -> (r: String)
    ensures
        r@ == (if saved@ == redaction() {
            seq![]
        } else {
            saved@
        }),
{
    if str_eq(saved, "***configured***") {
        String::new()
    } else {
        owned(saved)
    }
}

/// Saving settings shown redacted keeps the key they were shown from, and
/// a stored key never reads back as the placeholder's text unless it is
/// that text.
pub proof fn law_redacted_save_keeps_key(key: Seq<char>)
    ensures
        key_to_save_spec(shown_key(key), Some(key)) == key,
{
}

// ---------------------------------------------------------------------------
// Memory size
// ---------------------------------------------------------------------------

/// The first line that starts with `prefix`.
pub open spec fn first_line_with(lines: Seq<Seq<char>>, prefix: Seq<char>) -> Option<Seq<char>>
    decreases lines.len(),
{
    if lines.len() == 0 {
        None
    } else if starts_with_seq(lines[0], prefix) {
        Some(lines[0])
    } else {
        first_line_with(lines.drop_first(), prefix)
    }
}

/// The memory size in GB that `/proc/meminfo` gives: the kilobytes on its
/// `MemTotal:` line divided by 1024², or 16 when the file or the figure is
/// missing.
pub open spec fn meminfo_gb(meminfo: Option<Seq<char>>) -> u64 {
    match meminfo {
        Some(text) => match first_line_with(lines_of(text), "MemTotal:"@) {
            Some(l) => match parse_unsigned_spec(nth_word(l, 1), 0xffff_ffff_ffff_ffff) {
                Some(kb) => (kb / 1048576int) as u64,
                None => 16,
            },
            None => 16,
        },
        None => 16,
    }
}

/// The memory size in GB read from the text of `/proc/meminfo` (`None`
/// when it could not be read).
pub fn ram_gb_from_meminfo(meminfo: Option<&str>) -> (gb: u64)
    ensures
        gb == meminfo_gb(match meminfo {
            Some(t) => Some(t@),
            None => None,
        }),
{
    let text = match meminfo {
        Some(t) => t,
        None => {
            return 16;
        },
    };
    let cs = chars_of(text);
    let lines = lines_exec(&cs);
    let ghost ls = lines_of(text@);
    let prefix = chars_of("MemTotal:");
    let mut i: usize = 0;
    proof {
        assert(ls.subrange(0, ls.len() as int) =~= ls);
    }
    while i < lines.len()
        invariant
            meminfo == Some(text),
            i <= lines@.len(),
            ls == lines_of(text@),
            lines@.len() == ls.len(),
            forall|k: int| 0 <= k < lines@.len() ==> (#[trigger] lines@[k])@ == ls[k],
            prefix@ == "MemTotal:"@,
            first_line_with(ls, "MemTotal:"@) == first_line_with(ls.subrange(i as int, ls.len() as int), "MemTotal:"@),
        decreases lines.len() - i,
    {
        let ghost rest = ls.subrange(i as int, ls.len() as int);
        proof {
            assert(rest[0] == ls[i as int]);
            assert(rest.drop_first() =~= ls.subrange(i + 1, ls.len() as int));
        }
        if matches_at_exec(&lines[i], 0, &prefix) {
            proof {
                assert(starts_with_seq(ls[i as int], "MemTotal:"@) == crate::text::matches_at(ls[i as int], 0, "MemTotal:"@));
            }
            let w = nth_word_exec(&lines[i], 1);
            proof {
                assert(lines@[i as int]@ == ls[i as int]);
                assert(first_line_with(rest, "MemTotal:"@) == Some(ls[i as int]));
                assert(w@ == nth_word(ls[i as int], 1));
            }
            let r = match parse_unsigned(&w, 0xffff_ffff_ffff_ffffu64) {
                Some(kb) => kb / 1048576,
                None => 16,
            };
            return r;
        }
        proof {
            assert(starts_with_seq(ls[i as int], "MemTotal:"@) == crate::text::matches_at(ls[i as int], 0, "MemTotal:"@));
        }
        i += 1;
    }
    16
}

/// The memory size in GB that `sysctl -n hw.memsize` gives: its trimmed
/// output in bytes divided by 1024³, or 16 when there is no figure.
pub fn ram_gb_from_memsize(output: Option<&str>) -> (gb: u64)
    ensures
        gb == match output {
            Some(t) => match parse_unsigned_spec(trim_seq(t@), 0xffff_ffff_ffff_ffff) {
                Some(b) => (b / 1073741824int) as u64,
                None => 16,
            },
            None => 16,
        },
{
    match output {
        Some(t) => {
            let v = trim_vec(&chars_of(t));
            match parse_unsigned(&v, 0xffff_ffff_ffff_ffffu64) {
                Some(b) => b / (1024 * 1024 * 1024),
                None => 16,
            }
        },
        None => 16,
    }
}

/// The default local text model for a machine with `ram_gb` gigabytes of
/// memory: the large default model (`large_model`) from 64 GB, the 8B
/// Llama 3.1 from 32 GB, and the 3B Llama 3.2 below.
pub fn text_model_for_ram(ram_gb: u64, large_model: &str) -> (m: String)
    ensures
        m@ == if ram_gb >= 64 {
            large_model@
        } else if ram_gb >= 32 {
            "llama3.1:8b"@
        } else {
            "llama3.2:3b"@
        },
{
    if ram_gb >= 64 {
        owned(large_model)
    } else if ram_gb >= 32 {
        owned("llama3.1:8b")
    } else {
        owned("llama3.2:3b")
    }
}

} // verus!
