//! Semantic interpretation of terminal output from an interactive CLI agent.
//!
//! A fingerprint registry holds prioritized text patterns grouped by
//! category; specialized classifiers consume a shared context of recent
//! terminal lines and produce typed, confidence-scored interpretations:
//! the overall activity state, confirmation dialogs, status-bar records,
//! window-title activity, and structured tool-invocation records.

use vstd::prelude::*;

mod chars;
mod confirm;
mod fingerprint;
mod tool;

pub use tool::AgentToolOutput;
pub use tool::AgentToolOutputParser;
pub use tool::AgentToolOutputV;
pub use tool::JsonKind;
pub use tool::ParamValue;
pub use tool::ParamValueV;
pub use tool::ToolOutputResult;
pub use tool::ToolStyle;
pub use tool::decoded_value;
pub use tool::inline_args_spec;
pub use tool::is_known_tool_spec;
pub use tool::json_scalar_of;
pub use tool::known_tool_names;
pub use tool::params_view;
pub use tool::pv_lookup;
pub use tool::split_args_from;
pub use tool::tool_parse_spec;
pub use tool::tool_scan;
pub use tool::tool_signal_line;
pub use tool::upsert_pv;

pub use fingerprint::Fingerprint;
pub use fingerprint::braille_spinner_lits;
pub use fingerprint::cat_view;
pub use fingerprint::cat_view_props;
pub use fingerprint::cat_view_upto;
pub use fingerprint::default_source;
pub use fingerprint::default_table;
pub use fingerprint::error_keyword_lits;
pub use fingerprint::insert_pos;
pub use fingerprint::inserted_at;
pub use fingerprint::known_tool_lits;
pub use fingerprint::lemma_cat_view_properties;
pub use fingerprint::lemma_get_of_member;
pub use fingerprint::refs_view;
pub use fingerprint::status_spinner_lits;
pub use fingerprint::table_entry;
pub use fingerprint::FingerprintResult;
pub use fingerprint::cat_matches;
pub use fingerprint::categories_view_spec;
pub use fingerprint::agent_fingerprints;
pub use fingerprint::default_registry;
pub use fingerprint::first_line_hit;
pub use fingerprint::lemma_extract_total;
pub use fingerprint::lemma_no_match_is_bare;
pub use fingerprint::line_hit;
pub use fingerprint::match_lookup;
pub use fingerprint::matches_upto;
pub use fingerprint::matches_view;
pub use fingerprint::spec_hints;
pub use fingerprint::spec_match_fingerprint;
pub use fingerprint::spec_no_match;
pub use fingerprint::FingerprintCategory;
pub use fingerprint::FingerprintHints;
pub use fingerprint::FingerprintMatch;
pub use fingerprint::FingerprintMatchV;
pub use fingerprint::FingerprintPattern;
pub use fingerprint::FingerprintPatternV;
pub use fingerprint::FingerprintRegistry;
pub use fingerprint::FingerprintType;
pub use fingerprint::FingerprintV;
pub use fingerprint::FingerprintVecView;
pub use fingerprint::ids_unique;
pub use fingerprint::lemma_get_after_put;
pub use fingerprint::lemma_put_keeps_ids_unique;
pub use fingerprint::lemma_put_preserves_others;
pub use fingerprint::spec_get;
pub use fingerprint::spec_put;
pub use fingerprint::spec_put_all;
mod rules;

pub use confirm::AgentConfirmParser;
pub use confirm::build_params;
pub use confirm::collect_options;
pub use confirm::detect_confirm_spec;
pub use confirm::extract_prompt_spec;
pub use confirm::format_response_spec;
pub use confirm::options_spec;
pub use confirm::prompt_lines;
pub use confirm::repeat_down;
pub use confirm::tool_info_parse_spec;
pub use confirm::upsert;
pub use confirm::yes_no_options;
mod state;
mod status;
mod title;
mod types;

pub use status::AgentStatusParser;
pub use status::spinner_chars;
pub use status::determine_phase_spec;
pub use status::first_status;
pub use status::status_parse_spec;
pub use title::AgentTitleParser;
pub use title::all_spinners;
pub use title::braille_spinners;
pub use title::other_spinners;
pub use title::is_processing_spinner_spec;
pub use title::title_parse_spec;

pub use state::AgentStateParser;
pub use state::detect_state_spec;
pub use state::error_signal_spec;
pub use state::has_prompt_spec;
pub use state::lemma_trust_confirmation_priority;
pub use state::option_confirm_state_spec;
pub use state::prompt_head_spec;
pub use state::running_spec;
pub use state::tool_signal_spec;

pub use chars::contains_seq;
pub use types::AgentStatus;
pub use types::AgentStatusV;
pub use types::AgentTitle;
pub use types::AgentTitleV;
pub use types::ConfirmAction;
pub use types::ConfirmInfo;
pub use types::ConfirmInfoV;
pub use types::ConfirmKey;
pub use types::ConfirmKeyV;
pub use types::ConfirmOption;
pub use types::ConfirmOptionV;
pub use types::ConfirmResponse;
pub use types::ConfirmType;
pub use types::ParserContext;
pub use types::ParserContextV;
pub use types::ParserMeta;
pub use types::State;
pub use types::StateDetectionResult;
pub use types::StateMeta;
pub use types::StatusPhase;
pub use types::TitleParseResult;
pub use types::TitleParserContext;
pub use types::ToolInfo;
pub use types::ToolInfoV;
pub use types::ToolStatus;
pub use types::join_lines;
pub use types::pairs_lookup;
