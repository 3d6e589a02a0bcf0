//! Reading the server's settings from named text values (the process
//! environment): numbers, profile names, token permissions and the engine
//! configuration they make up.

use vstd::prelude::*;
use crate::config::{
    EmbeddingProviderKind, EngineConfig, EngineTuningInfo, RecallPlanningProfile,
    RecallPolicyProfile, RecallScorerKind, RecallScoringProfile,
};
use crate::server::AuthPermission;
use crate::text::{
    ascii_lowercase, parse_unsigned, spec_ascii_lowercase, spec_parse_unsigned, spec_trim, text_eq,
    trim, NumberParse,
};

verus! {

/// The text form of an optional owned text.
pub open spec fn spec_opt_view(raw: Option<String>) -> Option<Seq<char>> {
    match raw {
        Some(v) => Some(v@),
        None => None,
    }
}

/// The text form of the error of a result.
pub open spec fn spec_text_result<T>(r: Result<T, String>) -> Result<T, Seq<char>> {
    match r {
        Ok(v) => Ok(v),
        Err(e) => Err(e@),
    }
}

/// Why a text is no number, as `str::parse` says it.
pub open spec fn spec_number_error(p: NumberParse) -> Seq<char> {
    match p {
        NumberParse::Empty => "cannot parse integer from empty string"@,
        NumberParse::InvalidDigit => "invalid digit found in string"@,
        _ => "number too large to fit in target type"@,
    }
}

/// An unsigned setting no greater than `max`: the default when it is unset,
/// its value when it is a number, and otherwise an error naming the setting,
/// the text and the reason.
pub open spec fn spec_unsigned_setting(
    raw: Option<Seq<char>>,
    name: Seq<char>,
    default: nat,
    max: nat,
) -> Result<nat, Seq<char>> {
    match raw {
        None => Ok(default),
        Some(v) => match spec_parse_unsigned(v, max) {
            NumberParse::Parsed(n) => Ok(n as nat),
            e => Err("invalid "@ + name + " '"@ + v + "': "@ + spec_number_error(e)),
        },
    }
}

fn number_error_text(p: NumberParse) -> (r: &'static str)
    ensures
        r@ == spec_number_error(p),
{
    match p {
        NumberParse::Empty => "cannot parse integer from empty string",
        NumberParse::InvalidDigit => "invalid digit found in string",
        _ => "number too large to fit in target type",
    }
}

fn invalid_number(name: &str, value: &str, p: NumberParse) -> (r: String)
    ensures
        r@ == "invalid "@ + name@ + " '"@ + value@ + "': "@ + spec_number_error(p),
{
    let mut message = String::from_str("invalid ");
    message.append(name);
    message.append(" '");
    message.append(value);
    message.append("': ");
    message.append(number_error_text(p));
    message
}

/// Reads an unsigned number of at most `max` from a setting.
fn parse_bounded(raw: Option<String>, name: &str, default: u64, max: u64) -> (r: Result<
    u64,
    String,
>)
    requires
        default <= max,
    ensures
        spec_text_result(r) == match spec_unsigned_setting(
            spec_opt_view(raw),
            name@,
            default as nat,
            max as nat,
        ) {
            Ok(n) => Ok::<u64, Seq<char>>(n as u64),
            Err(m) => Err(m),
        },
        r matches Ok(n) ==> n <= max,
        spec_unsigned_setting(spec_opt_view(raw), name@, default as nat, max as nat) matches Ok(n)
            ==> n <= max,
{
    match raw {
        None => Ok(default),
        Some(value) => {
            let parsed = parse_unsigned(value.as_str(), max);
            match parsed {
                NumberParse::Parsed(n) => {
                    proof {
                        crate::text::lemma_parsed_within(value@, max as nat);
                    }
                    Ok(n)
                },
                _ => {
                    proof {
                        crate::text::lemma_parsed_within(value@, max as nat);
                    }
                    Err(invalid_number(name, value.as_str(), parsed))
                },
            }
        },
    }
}

/// Reads a `usize` setting, falling back to `default` when it is unset.
pub fn parse_usize(raw: Option<String>, name: &str, default: usize) -> (r: Result<usize, String>)
    ensures
        spec_text_result(r) == match spec_unsigned_setting(
            spec_opt_view(raw),
            name@,
            default as nat,
            usize::MAX as nat,
        ) {
            Ok(n) => Ok::<usize, Seq<char>>(n as usize),
            Err(m) => Err(m),
        },
        spec_unsigned_setting(spec_opt_view(raw), name@, default as nat, usize::MAX as nat) matches Ok(
            n,
        ) ==> n <= usize::MAX,
{
    match parse_bounded(raw, name, default as u64, usize::MAX as u64) {
        Ok(n) => Ok(n as usize),
        Err(e) => Err(e),
    }
}

/// Reads a `u32` setting, falling back to `default` when it is unset.
pub fn parse_u32(raw: Option<String>, name: &str, default: u32) -> (r: Result<u32, String>)
    ensures
        spec_text_result(r) == match spec_unsigned_setting(
            spec_opt_view(raw),
            name@,
            default as nat,
            u32::MAX as nat,
        ) {
            Ok(n) => Ok::<u32, Seq<char>>(n as u32),
            Err(m) => Err(m),
        },
        spec_unsigned_setting(spec_opt_view(raw), name@, default as nat, u32::MAX as nat) matches Ok(
            n,
        ) ==> n <= u32::MAX,
{
    match parse_bounded(raw, name, default as u64, u32::MAX as u64) {
        Ok(n) => Ok(n as u32),
        Err(e) => Err(e),
    }
}

/// Reads a `u16` setting, falling back to `default` when it is unset.
pub fn parse_u16(raw: Option<String>, name: &str, default: u16) -> (r: Result<u16, String>)
    ensures
        spec_text_result(r) == match spec_unsigned_setting(
            spec_opt_view(raw),
            name@,
            default as nat,
            u16::MAX as nat,
        ) {
            Ok(n) => Ok::<u16, Seq<char>>(n as u16),
            Err(m) => Err(m),
        },
        spec_unsigned_setting(spec_opt_view(raw), name@, default as nat, u16::MAX as nat) matches Ok(
            n,
        ) ==> n <= u16::MAX,
{
    match parse_bounded(raw, name, default as u64, u16::MAX as u64) {
        Ok(n) => Ok(n as u16),
        Err(e) => Err(e),
    }
}

/// A setting's text trimmed and lower-cased; a blank setting counts as unset.
pub open spec fn spec_normalized(raw: Option<Seq<char>>) -> Option<Seq<char>> {
    match raw {
        None => None,
        Some(v) => {
            let t = spec_ascii_lowercase(spec_trim(v));
            if t.len() == 0 {
                None
            } else {
                Some(t)
            }
        },
    }
}

pub(crate) fn normalized_setting(raw: Option<String>) -> (r: Option<String>)
    ensures
        spec_opt_view(r) == spec_normalized(spec_opt_view(raw)),
{
    match raw {
        None => None,
        Some(v) => {
            let trimmed = trim(v.as_str());
            let lowered = ascii_lowercase(trimmed.as_str());
            if lowered.unicode_len() == 0 {
                None
            } else {
                Some(lowered)
            }
        },
    }
}

/// The recall scoring profile a normalized name stands for.
pub open spec fn spec_recall_scoring_profile_named(t: Seq<char>) -> Option<RecallScoringProfile> {
    if t == "balanced"@ {
        Some(RecallScoringProfile::Balanced)
    } else if t == "lexical"@ || t == "lexical-first"@ || t == "lexical_first"@ {
        Some(RecallScoringProfile::LexicalFirst)
    } else if t == "importance"@ || t == "importance-first"@ || t == "importance_first"@ {
        Some(RecallScoringProfile::ImportanceFirst)
    } else {
        None
    }
}

/// The recall scoring profile setting: the default (Balanced) when unset or blank, the
/// profile its trimmed, lower-cased text names, and otherwise an error.
pub open spec fn spec_recall_scoring_profile_setting(raw: Option<Seq<char>>) -> Result<RecallScoringProfile, Seq<char>> {
    match spec_normalized(raw) {
        None => Ok(RecallScoringProfile::Balanced),
        Some(t) => match spec_recall_scoring_profile_named(t) {
            Some(v) => Ok(v),
            None => Err("invalid MNEMARA_RECALL_SCORING_PROFILE '"@ + t + "': expected balanced, lexical-first, or importance-first"@),
        },
    }
}

/// Reads the recall scoring profile setting.
pub fn parse_recall_scoring_profile(raw: Option<String>) -> (r: Result<RecallScoringProfile, String>)
    ensures
        spec_text_result(r) == spec_recall_scoring_profile_setting(spec_opt_view(raw)),
{
    let value = match normalized_setting(raw) {
        None => {
            return Ok(RecallScoringProfile::Balanced);
        },
        Some(v) => v,
    };
    let t = value.as_str();
    if text_eq(t, "balanced") {
        Ok(RecallScoringProfile::Balanced)
    } else if text_eq(t, "lexical") || text_eq(t, "lexical-first") || text_eq(t, "lexical_first") {
        Ok(RecallScoringProfile::LexicalFirst)
    } else if text_eq(t, "importance") || text_eq(t, "importance-first") || text_eq(t, "importance_first") {
        Ok(RecallScoringProfile::ImportanceFirst)
    } else {
        let mut message = String::from_str("invalid MNEMARA_RECALL_SCORING_PROFILE '");
        message.append(t);
        message.append("': expected balanced, lexical-first, or importance-first");
        Err(message)
    }
}

/// The recall scorer kind a normalized name stands for.
pub open spec fn spec_recall_scorer_kind_named(t: Seq<char>) -> Option<RecallScorerKind> {
    if t == "profile"@ {
        Some(RecallScorerKind::Profile)
    } else if t == "curated"@ {
        Some(RecallScorerKind::Curated)
    } else {
        None
    }
}

/// The recall scorer kind setting: the default (Profile) when unset or blank, the
/// profile its trimmed, lower-cased text names, and otherwise an error.
pub open spec fn spec_recall_scorer_kind_setting(raw: Option<Seq<char>>) -> Result<RecallScorerKind, Seq<char>> {
    match spec_normalized(raw) {
        None => Ok(RecallScorerKind::Profile),
        Some(t) => match spec_recall_scorer_kind_named(t) {
            Some(v) => Ok(v),
            None => Err("invalid MNEMARA_RECALL_SCORER_KIND '"@ + t + "': expected profile or curated"@),
        },
    }
}

/// Reads the recall scorer kind setting.
pub fn parse_recall_scorer_kind(raw: Option<String>) -> (r: Result<RecallScorerKind, String>)
    ensures
        spec_text_result(r) == spec_recall_scorer_kind_setting(spec_opt_view(raw)),
{
    let value = match normalized_setting(raw) {
        None => {
            return Ok(RecallScorerKind::Profile);
        },
        Some(v) => v,
    };
    let t = value.as_str();
    if text_eq(t, "profile") {
        Ok(RecallScorerKind::Profile)
    } else if text_eq(t, "curated") {
        Ok(RecallScorerKind::Curated)
    } else {
        let mut message = String::from_str("invalid MNEMARA_RECALL_SCORER_KIND '");
        message.append(t);
        message.append("': expected profile or curated");
        Err(message)
    }
}

/// The recall planning profile a normalized name stands for.
pub open spec fn spec_recall_planning_profile_named(t: Seq<char>) -> Option<RecallPlanningProfile> {
    if t == "fast"@ || t == "fast-path"@ || t == "fast_path"@ {
        Some(RecallPlanningProfile::FastPath)
    } else if t == "continuity-aware"@ || t == "continuity_aware"@ {
        Some(RecallPlanningProfile::ContinuityAware)
    } else {
        None
    }
}

/// The recall planning profile setting: the default (FastPath) when unset or blank, the
/// profile its trimmed, lower-cased text names, and otherwise an error.
pub open spec fn spec_recall_planning_profile_setting(raw: Option<Seq<char>>) -> Result<RecallPlanningProfile, Seq<char>> {
    match spec_normalized(raw) {
        None => Ok(RecallPlanningProfile::FastPath),
        Some(t) => match spec_recall_planning_profile_named(t) {
            Some(v) => Ok(v),
            None => Err("invalid MNEMARA_RECALL_PLANNING_PROFILE '"@ + t + "': expected fast_path or continuity_aware"@),
        },
    }
}

/// Reads the recall planning profile setting.
pub fn parse_recall_planning_profile(raw: Option<String>) -> (r: Result<RecallPlanningProfile, String>)
    ensures
        spec_text_result(r) == spec_recall_planning_profile_setting(spec_opt_view(raw)),
{
    let value = match normalized_setting(raw) {
        None => {
            return Ok(RecallPlanningProfile::FastPath);
        },
        Some(v) => v,
    };
    let t = value.as_str();
    if text_eq(t, "fast") || text_eq(t, "fast-path") || text_eq(t, "fast_path") {
        Ok(RecallPlanningProfile::FastPath)
    } else if text_eq(t, "continuity-aware") || text_eq(t, "continuity_aware") {
        Ok(RecallPlanningProfile::ContinuityAware)
    } else {
        let mut message = String::from_str("invalid MNEMARA_RECALL_PLANNING_PROFILE '");
        message.append(t);
        message.append("': expected fast_path or continuity_aware");
        Err(message)
    }
}

/// The recall policy profile a normalized name stands for.
pub open spec fn spec_recall_policy_profile_named(t: Seq<char>) -> Option<RecallPolicyProfile> {
    if t == "general"@ {
        Some(RecallPolicyProfile::General)
    } else if t == "support"@ {
        Some(RecallPolicyProfile::Support)
    } else if t == "research"@ {
        Some(RecallPolicyProfile::Research)
    } else if t == "assistant"@ {
        Some(RecallPolicyProfile::Assistant)
    } else if t == "autonomous-agent"@ || t == "autonomous_agent"@ {
        Some(RecallPolicyProfile::AutonomousAgent)
    } else {
        None
    }
}

/// The recall policy profile setting: the default (General) when unset or blank, the
/// profile its trimmed, lower-cased text names, and otherwise an error.
pub open spec fn spec_recall_policy_profile_setting(raw: Option<Seq<char>>) -> Result<RecallPolicyProfile, Seq<char>> {
    match spec_normalized(raw) {
        None => Ok(RecallPolicyProfile::General),
        Some(t) => match spec_recall_policy_profile_named(t) {
            Some(v) => Ok(v),
            None => Err("invalid MNEMARA_RECALL_POLICY_PROFILE '"@ + t + "': expected general, support, research, assistant, or autonomous_agent"@),
        },
    }
}

/// Reads the recall policy profile setting.
pub fn parse_recall_policy_profile(raw: Option<String>) -> (r: Result<RecallPolicyProfile, String>)
    ensures
        spec_text_result(r) == spec_recall_policy_profile_setting(spec_opt_view(raw)),
{
    let value = match normalized_setting(raw) {
        None => {
            return Ok(RecallPolicyProfile::General);
        },
        Some(v) => v,
    };
    let t = value.as_str();
    if text_eq(t, "general") {
        Ok(RecallPolicyProfile::General)
    } else if text_eq(t, "support") {
        Ok(RecallPolicyProfile::Support)
    } else if text_eq(t, "research") {
        Ok(RecallPolicyProfile::Research)
    } else if text_eq(t, "assistant") {
        Ok(RecallPolicyProfile::Assistant)
    } else if text_eq(t, "autonomous-agent") || text_eq(t, "autonomous_agent") {
        Ok(RecallPolicyProfile::AutonomousAgent)
    } else {
        let mut message = String::from_str("invalid MNEMARA_RECALL_POLICY_PROFILE '");
        message.append(t);
        message.append("': expected general, support, research, assistant, or autonomous_agent");
        Err(message)
    }
}

/// The embedding provider kind a normalized name stands for.
pub open spec fn spec_embedding_provider_kind_named(t: Seq<char>) -> Option<EmbeddingProviderKind> {
    if t == "disabled"@ {
        Some(EmbeddingProviderKind::Disabled)
    } else if t == "deterministic-local"@ || t == "deterministic_local"@ || t == "local"@ {
        Some(EmbeddingProviderKind::DeterministicLocal)
    } else {
        None
    }
}

/// The embedding provider kind setting: the default (Disabled) when unset or blank, the
/// profile its trimmed, lower-cased text names, and otherwise an error.
pub open spec fn spec_embedding_provider_kind_setting(raw: Option<Seq<char>>) -> Result<EmbeddingProviderKind, Seq<char>> {
    match spec_normalized(raw) {
        None => Ok(EmbeddingProviderKind::Disabled),
        Some(t) => match spec_embedding_provider_kind_named(t) {
            Some(v) => Ok(v),
            None => Err("invalid MNEMARA_EMBEDDING_PROVIDER_KIND '"@ + t + "': expected disabled or deterministic-local"@),
        },
    }
}

/// Reads the embedding provider kind setting.
pub fn parse_embedding_provider_kind(raw: Option<String>) -> (r: Result<EmbeddingProviderKind, String>)
    ensures
        spec_text_result(r) == spec_embedding_provider_kind_setting(spec_opt_view(raw)),
{
    let value = match normalized_setting(raw) {
        None => {
            return Ok(EmbeddingProviderKind::Disabled);
        },
        Some(v) => v,
    };
    let t = value.as_str();
    if text_eq(t, "disabled") {
        Ok(EmbeddingProviderKind::Disabled)
    } else if text_eq(t, "deterministic-local") || text_eq(t, "deterministic_local") || text_eq(t, "local") {
        Ok(EmbeddingProviderKind::DeterministicLocal)
    } else {
        let mut message = String::from_str("invalid MNEMARA_EMBEDDING_PROVIDER_KIND '");
        message.append(t);
        message.append("': expected disabled or deterministic-local");
        Err(message)
    }
}

/// The raw texts of the settings an engine configuration is read from, each
/// absent when unset.
pub struct EngineSettings {
    pub compaction_summarize_after_record_count: Option<String>,
    pub compaction_cold_archive_after_days: Option<String>,
    pub compaction_cold_archive_importance_threshold_per_mille: Option<String>,
    pub recall_scorer_kind: Option<String>,
    pub recall_scoring_profile: Option<String>,
    pub recall_planning_profile: Option<String>,
    pub recall_policy_profile: Option<String>,
    pub embedding_provider_kind: Option<String>,
    pub embedding_dimensions: Option<String>,
    pub graph_expansion_max_hops: Option<String>,
}

/// The error of a failed reading (empty for a successful one).
pub open spec fn spec_error_of<T>(r: Result<T, Seq<char>>) -> Seq<char> {
    match r {
        Ok(_) => seq![],
        Err(m) => m,
    }
}

/// The tuning the settings ask for, read in a fixed order; the first
/// setting that cannot be read makes the error.
pub open spec fn spec_engine_tuning(s: EngineSettings) -> Result<EngineTuningInfo, Seq<char>> {
    let summarize = spec_unsigned_setting(
        spec_opt_view(s.compaction_summarize_after_record_count),
        "MNEMARA_COMPACTION_SUMMARIZE_AFTER_RECORD_COUNT"@,
        50,
        usize::MAX as nat,
    );
    let days = spec_unsigned_setting(
        spec_opt_view(s.compaction_cold_archive_after_days),
        "MNEMARA_COMPACTION_COLD_ARCHIVE_AFTER_DAYS"@,
        0,
        u32::MAX as nat,
    );
    let threshold = spec_unsigned_setting(
        spec_opt_view(s.compaction_cold_archive_importance_threshold_per_mille),
        "MNEMARA_COMPACTION_COLD_ARCHIVE_IMPORTANCE_THRESHOLD_PER_MILLE"@,
        250,
        u16::MAX as nat,
    );
    let scorer = spec_recall_scorer_kind_setting(spec_opt_view(s.recall_scorer_kind));
    let scoring = spec_recall_scoring_profile_setting(spec_opt_view(s.recall_scoring_profile));
    let planning = spec_recall_planning_profile_setting(spec_opt_view(s.recall_planning_profile));
    let policy = spec_recall_policy_profile_setting(spec_opt_view(s.recall_policy_profile));
    let provider = spec_embedding_provider_kind_setting(spec_opt_view(s.embedding_provider_kind));
    let dims = spec_unsigned_setting(
        spec_opt_view(s.embedding_dimensions),
        "MNEMARA_EMBEDDING_DIMENSIONS"@,
        64,
        usize::MAX as nat,
    );
    let hops = spec_unsigned_setting(
        spec_opt_view(s.graph_expansion_max_hops),
        "MNEMARA_GRAPH_EXPANSION_MAX_HOPS"@,
        1,
        u16::MAX as nat,
    );
    if summarize is Err {
        Err(spec_error_of(summarize))
    } else if days is Err {
        Err(spec_error_of(days))
    } else if threshold is Err {
        Err(spec_error_of(threshold))
    } else if scorer is Err {
        Err(spec_error_of(scorer))
    } else if scoring is Err {
        Err(spec_error_of(scoring))
    } else if planning is Err {
        Err(spec_error_of(planning))
    } else if policy is Err {
        Err(spec_error_of(policy))
    } else if provider is Err {
        Err(spec_error_of(provider))
    } else if dims is Err {
        Err(spec_error_of(dims))
    } else if hops is Err {
        Err(spec_error_of(hops))
    } else if hops->Ok_0 > 255 {
        Err("invalid MNEMARA_GRAPH_EXPANSION_MAX_HOPS: expected a value between 0 and 255"@)
    } else {
        Ok(EngineTuningInfo {
            recall_scorer_kind: scorer->Ok_0,
            recall_scoring_profile: scoring->Ok_0,
            recall_planning_profile: planning->Ok_0,
            recall_policy_profile: policy->Ok_0,
            embedding_provider_kind: provider->Ok_0,
            embedding_dimensions: dims->Ok_0 as usize,
            graph_expansion_max_hops: hops->Ok_0 as u8,
            compaction_summarize_after_record_count: summarize->Ok_0 as usize,
            compaction_cold_archive_after_days: days->Ok_0 as u32,
            compaction_cold_archive_importance_threshold_per_mille: threshold->Ok_0 as u16,
        })
    }
}

/// Reads an engine configuration from its settings: every unset setting
/// keeps its default, and the first setting that cannot be read is the error.
pub fn engine_config_from_settings(settings: EngineSettings) -> (r: Result<EngineConfig, String>)
    ensures
        match spec_engine_tuning(settings) {
            Ok(t) => r matches Ok(c) && c.spec_tuning_info() == t
                && c.spec_is_default_apart_from_tuning(),
            Err(m) => r matches Err(e) && e@ == m,
        },
{
    let ghost s = settings;
    let mut config = EngineConfig::default();
    let summarize = match parse_usize(settings.compaction_summarize_after_record_count, "MNEMARA_COMPACTION_SUMMARIZE_AFTER_RECORD_COUNT", config.compaction.summarize_after_record_count) {
        Ok(value) => value,
        Err(e) => {
            return Err(e);
        },
    };
    let days = match parse_u32(settings.compaction_cold_archive_after_days, "MNEMARA_COMPACTION_COLD_ARCHIVE_AFTER_DAYS", config.compaction.cold_archive_after_days) {
        Ok(value) => value,
        Err(e) => {
            return Err(e);
        },
    };
    let threshold = match parse_u16(settings.compaction_cold_archive_importance_threshold_per_mille, "MNEMARA_COMPACTION_COLD_ARCHIVE_IMPORTANCE_THRESHOLD_PER_MILLE", config.compaction.cold_archive_importance_threshold_per_mille) {
        Ok(value) => value,
        Err(e) => {
            return Err(e);
        },
    };
    let scorer = match parse_recall_scorer_kind(settings.recall_scorer_kind) {
        Ok(value) => value,
        Err(e) => {
            return Err(e);
        },
    };
    let scoring = match parse_recall_scoring_profile(settings.recall_scoring_profile) {
        Ok(value) => value,
        Err(e) => {
            return Err(e);
        },
    };
    let planning = match parse_recall_planning_profile(settings.recall_planning_profile) {
        Ok(value) => value,
        Err(e) => {
            return Err(e);
        },
    };
    let policy = match parse_recall_policy_profile(settings.recall_policy_profile) {
        Ok(value) => value,
        Err(e) => {
            return Err(e);
        },
    };
    let provider = match parse_embedding_provider_kind(settings.embedding_provider_kind) {
        Ok(value) => value,
        Err(e) => {
            return Err(e);
        },
    };
    let dims = match parse_usize(settings.embedding_dimensions, "MNEMARA_EMBEDDING_DIMENSIONS", config.embedding_dimensions) {
        Ok(value) => value,
        Err(e) => {
            return Err(e);
        },
    };
    let hops = match parse_u16(settings.graph_expansion_max_hops, "MNEMARA_GRAPH_EXPANSION_MAX_HOPS", 1) {
        Ok(value) => value,
        Err(e) => {
            return Err(e);
        },
    };
    if hops > 255 {
        return Err(
            String::from_str(
                "invalid MNEMARA_GRAPH_EXPANSION_MAX_HOPS: expected a value between 0 and 255",
            ),
        );
    }
    config.compaction.summarize_after_record_count = summarize;
    config.compaction.cold_archive_after_days = days;
    config.compaction.cold_archive_importance_threshold_per_mille = threshold;
    config.recall_scorer_kind = scorer;
    config.recall_scoring_profile = scoring;
    config.recall_planning_profile = planning;
    config.recall_policy_profile = policy;
    config.embedding_provider_kind = provider;
    config.embedding_dimensions = dims;
    config.graph_expansion_max_hops = hops as u8;
    Ok(config)
}

/// Whether `settings` holds what `get` may answer for each setting's name.
pub open spec fn spec_looked_up<F: Fn(&str) -> Option<String>>(get: F, settings: EngineSettings) -> bool {
    &&& get.ensures(("MNEMARA_COMPACTION_SUMMARIZE_AFTER_RECORD_COUNT",), settings.compaction_summarize_after_record_count)
    &&& get.ensures(("MNEMARA_COMPACTION_COLD_ARCHIVE_AFTER_DAYS",), settings.compaction_cold_archive_after_days)
    &&& get.ensures(("MNEMARA_COMPACTION_COLD_ARCHIVE_IMPORTANCE_THRESHOLD_PER_MILLE",), settings.compaction_cold_archive_importance_threshold_per_mille)
    &&& get.ensures(("MNEMARA_RECALL_SCORER_KIND",), settings.recall_scorer_kind)
    &&& get.ensures(("MNEMARA_RECALL_SCORING_PROFILE",), settings.recall_scoring_profile)
    &&& get.ensures(("MNEMARA_RECALL_PLANNING_PROFILE",), settings.recall_planning_profile)
    &&& get.ensures(("MNEMARA_RECALL_POLICY_PROFILE",), settings.recall_policy_profile)
    &&& get.ensures(("MNEMARA_EMBEDDING_PROVIDER_KIND",), settings.embedding_provider_kind)
    &&& get.ensures(("MNEMARA_EMBEDDING_DIMENSIONS",), settings.embedding_dimensions)
    &&& get.ensures(("MNEMARA_GRAPH_EXPANSION_MAX_HOPS",), settings.graph_expansion_max_hops)
}

impl EngineSettings {
    /// Asks `get` for the text of each setting, by its name.
    pub fn from_lookup<F: Fn(&str) -> Option<String>>(get: F) -> (r: EngineSettings)
        requires
            forall|name: &str| get.requires((name,)),
        ensures
            spec_looked_up(get, r),
    {
        EngineSettings {
            compaction_summarize_after_record_count: get("MNEMARA_COMPACTION_SUMMARIZE_AFTER_RECORD_COUNT"),
            compaction_cold_archive_after_days: get("MNEMARA_COMPACTION_COLD_ARCHIVE_AFTER_DAYS"),
            compaction_cold_archive_importance_threshold_per_mille: get("MNEMARA_COMPACTION_COLD_ARCHIVE_IMPORTANCE_THRESHOLD_PER_MILLE"),
            recall_scorer_kind: get("MNEMARA_RECALL_SCORER_KIND"),
            recall_scoring_profile: get("MNEMARA_RECALL_SCORING_PROFILE"),
            recall_planning_profile: get("MNEMARA_RECALL_PLANNING_PROFILE"),
            recall_policy_profile: get("MNEMARA_RECALL_POLICY_PROFILE"),
            embedding_provider_kind: get("MNEMARA_EMBEDDING_PROVIDER_KIND"),
            embedding_dimensions: get("MNEMARA_EMBEDDING_DIMENSIONS"),
            graph_expansion_max_hops: get("MNEMARA_GRAPH_EXPANSION_MAX_HOPS"),
        }
    }
}

/// Reads an engine configuration from the settings `get` answers for each
/// name (the process environment, in the server): unset settings keep their
/// defaults, and the first setting that cannot be read is the error.
pub fn engine_config_from<F: Fn(&str) -> Option<String>>(get: F) -> (r: Result<EngineConfig, String>)
    requires
        forall|name: &str| get.requires((name,)),
    ensures
        exists|s: EngineSettings|
            spec_looked_up(get, s) && match spec_engine_tuning(s) {
                Ok(t) => r matches Ok(c) && c.spec_tuning_info() == t
                    && c.spec_is_default_apart_from_tuning(),
                Err(m) => r matches Err(e) && e@ == m,
            },
{
    let settings = EngineSettings::from_lookup(get);
    let ghost s = settings;
    let r = engine_config_from_settings(settings);
    assert(spec_looked_up(get, s));
    r
}

} // verus!
