//! Server filtering logic for an Overwatch server blocker: which servers the
//! user blocks, which of them the firewall has applied, which one the player
//! most likely lands on, and the small decisions around the launcher window.

mod config;
mod editor;
mod flow;
mod geo;
mod laws;
mod messages;
mod paths;
mod ping;
mod probe;
mod pings;
mod selection;
mod state;
mod status;
mod text;

pub use selection::{all_slots, all_wf, bit_at, KnownServer, ServerSelection, SLOTS};
pub use probe::{Probe, ProbeAction, ProbeStage, REMEMBERED_ECHOES, TARGET_ECHOES};
pub use ping::{candidates, probe_targets, net_candidate_addresses, MAX_CANDIDATES};
pub use geo::{country_row, region_country, ascii_units, unit_chars, flag, has_flag, server_geo, FLAG_ROWS, GeoRow, COUNTRY_ROWS, NAME_ROWS, SERVER_ROWS};
pub use pings::{best_server_index, float_less, grade, max_latency_of, nan_bits, order_by_latency, total_key_of, PingTable, PingResult, INFINITY_BITS, SIGN_BIT};
pub use config::{ApiCache, DropshipApiData, DropshipConfig, Notice, Preset, ServerLists, Theme, default_presets, is_default_presets, resolve_theme, VIEW_MAP, VIEW_GAMES, VIEW_NEWS, VIEW_LOG, VIEW_HELP, VIEW_OPTIONS};
pub use state::{FirewallAction, FirewallRequest, PresetOutcome, TemplateApp, ToggleOutcome, UpdatingStatus};
pub use editor::PresetEditor;
pub use flow::{world_texture_needed, dedup_paths, first_occurrences, distinct_paths, path_views, lemma_filter_distinct, contains_string, draw_order, theme_needs_refresh, startup_pings, tab_for_keys, FilterState, NavKeys, TourMove, TOUR_LEN};
pub use text::{is_white_space, str_trim, trim, trim_end_seq, trim_start_seq, white_space};
pub use status::{status_message, status_text, LogEntry, LogLevel, StatusKind};
pub use messages::{blocked_count_sentence, blocked_phrase, editor_count_text, filter_chip_text, game_chip_text, games_label, join, level_label, panel_title, ping_failure_message, preset_button_text, preset_tooltip, process_status_message, server_tooltip, servers_pill, session_name, theme_name, update_available_message};
pub use paths::{application_type, graveyard_step, wfp_session_plan, ApplicationType, RemoveOutcome, RemoveStep, WfpPlan, GRAVEYARD_ATTEMPTS};
pub use laws::{distinct_slots, law_candidates_capped, law_candidates_inside_network, law_left_click_keeps_a_server, law_order_lists_every_server_once, law_ping_read_after_write, law_probe_skips_known, law_right_click_keeps_a_server, law_solo_and_solo_invert_complement, law_toggle_twice, law_tour_back_then_next, law_welcome_next_then_back, law_block_candidates_inside, law_server_flags_are_embedded, law_pending_change_sent_on_close, law_best_server_is_the_lowest_answering, law_order_by_latency_sorts, law_click_outcome, law_preset_outcome, law_status_line_shows_the_latest, can_land, answered, sort_latency, value_rank, total_rank, finite_or_negative, nan_pattern, another_allowed, token_listed, slot_of_named, logged_lately, inside_some_part, inside_part};
