pub mod answers;
pub mod args;
pub mod bytes;
pub mod cli;
pub mod cli_laws;
pub mod clock;
pub mod diff_answer_laws;
pub mod diff_laws;
pub mod event_laws;
pub mod events;
pub mod evidence;
pub mod evidence_file;
pub mod fields;
pub mod file_search;
pub mod filestamps;
pub mod fixups;
pub mod index_meta;
pub mod json;
pub mod line_sets;
pub mod listing;
pub mod lists;
pub mod local_search;
pub mod mcp;
pub mod mcp_tools;
pub mod meta;
pub mod options;
pub mod order;
pub mod output;
pub mod path_laws;
pub mod path_map;
pub mod paths;
pub mod print_laws;
pub mod query;
pub mod ranking;
pub mod record_laws;
pub mod reply_laws;
pub mod request_laws;
pub mod row_output;
pub mod rows;
pub mod scan;
pub mod schema_laws;
pub mod search_laws;
pub mod selection;
pub mod selection_laws;
pub mod server_reply;
pub mod server_search;
pub mod server_stats;
pub mod session_laws;
pub mod sinks;
pub mod slices;
pub mod snapshot;
pub mod snapshot_diff;
pub mod snapshot_file;
pub mod snapshot_laws;
pub mod snapshot_store;
pub mod snapshot_tools;
pub mod sort;
pub mod state;
pub mod status;
pub mod stream_laws;
pub mod targets;
pub mod text;
pub mod text_laws;
pub mod tool;
pub mod tool_laws;
