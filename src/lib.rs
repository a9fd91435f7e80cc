//! Presence tracking on a local network: a registry of device settings keyed
//! by MAC address, the aggregation of a discovery snapshot into a presence
//! summary, and the decisions of the loops that ingest, publish and update.

mod model;
mod storage;
mod presence;
mod coordinator;
mod settings;

pub use model::{DeviceLocation, DeviceLocationView, DeviceSettings, DeviceSettingsView};
pub use storage::{lemma_records_round_trip, lemma_upsert_count, keys_unique, map_of, records_map, EntryView, StorageService};
pub use presence::{
    comes_from_shown, entry_of, lemma_summary_entries, owner_of, owns_shown_device, placed_in_group,
    groups_view, ignore_mode, lemma_aggregate_deterministic, lemma_summary_counts, not_hidden_pred,
    shown_pred, unknown_pred, is_ignored, names_distinct, place_device, summarize, tally,
    PresenceDevice, PresenceDeviceView, PresenceGroup, PresenceGroupView, PresenceSummary,
    PresenceSummaryView,
};
pub use coordinator::{
    apply_discovery, ingest_action_of, lemma_shutdown_stops_loops, publish_action_of, AppState,
    IngestAction, PublishAction,
};
pub use settings::{
    get_mac_by_ip, get_visibility_options, is_first_ip_match, lemma_submission_in_next_summary, mac_for_ip, option_view,
    save_device_settings, selected_mode, submitted_settings, visibility_options_view,
    SettingsForm, SettingsFormView, VisibilityOption, VisibilityOptionView,
};
