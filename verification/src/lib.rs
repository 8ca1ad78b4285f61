//! Verified core of a thin-edge device agent: the file-transfer request
//! handling of the agent's HTTP endpoint, the bookkeeping of file-system
//! watches, the reconnect command of the `tedge` command line and the
//! command lines that the integration helpers run.

mod path_key;
mod paths;
mod reconnect;
mod tedge_cli;
mod transfer;
mod watch;

pub use path_key::{
    flush, is_absolute, is_plain_segment, keeps_segment, law_path_key_current_dir,
    law_path_key_distinguishes_segments, law_path_key_extends, law_path_key_single_segment, scan_shape, law_path_key_double_separator,
    law_path_key_trailing_separator, lemma_scan_concat, path_key, scan_from, scan_start, scan_step,
    spec_path_key, KeyScan,
};
pub use paths::{
    joined_path, last_index_of, law_separate_rejoins, separate_path_and_file_name, spec_separate,
};
pub use reconnect::{
    law_execution_stops_at_first_failure, law_reconnect_plan, spec_cloud, spec_execution_plan, spec_next_step, Cloud,
    ExecutionStep, ReconnectCommand, ServiceAction, SystemService, TEdgeReconnectCli,
};
pub use tedge_cli::{
    args_view, cert_create_plan, config_dir_args, config_get_args, config_list_all_args,
    config_set_args, law_config_dir_prefixes, opt_view, spec_cert_create_plan, TedgeConfigCredentials, TedgeStep,
    TedgeStepModel,
};
pub use transfer::{
    accepts, law_delete_exchange, law_get_answers_file_text, law_put_creates_parent_directory,
    law_upload_and_read_reach_same_file, law_exchange_ends, law_get_exchange, law_put_exchange,
    put_targets, read_reply, remaining_steps, spec_begin, spec_next, target_path, Action,
    ActionModel, FailureKind, Method, Outcome, OutcomeModel, Reply, ReplyModel, Stage, StageModel,
    STATUS_ACCEPTED, STATUS_CREATED, STATUS_FORBIDDEN, STATUS_INTERNAL_SERVER_ERROR,
    STATUS_NOT_FOUND,
};
pub use watch::{
    entries_map, entry_key, events_of, file_event_for, file_key, has_key, law_notifications_report_each_path, law_record_commutes, law_record_merges_spellings,
    law_record_idempotent, law_record_keeps, notifications, spec_file_event, spec_notifications,
    spec_record, watch_target, watched_events, FileEvent, WatchEntry, WatchEventKind,
    WatchMetadata, WatchMode,
};
