use vstd::prelude::*;

pub mod app_update;
pub mod browser;
pub mod browser_laws;
pub mod commands;
pub mod connection;
pub mod crash;
pub mod device_profile;
pub mod edit_watch;
pub mod error_hints;
pub mod events;
pub mod folder;
pub mod folder_history;
pub mod folder_upload;
pub mod ids;
pub mod job;
pub mod job_laws;
pub mod lang;
pub mod listing;
pub mod listing_laws;
pub mod local;
pub mod messages;
pub mod number;
pub mod operation_log;
pub mod order;
pub mod path_laws;
pub mod privacy;
pub mod quick_actions;
pub mod remote_path;
pub mod search;
pub mod search_laws;
pub mod search_roots;
pub mod shell;
pub mod shell_job;
pub mod shell_job_laws;
pub mod shell_upload;
pub mod text;
pub mod text_laws;
pub mod transfer;
pub mod transfer_history;
pub mod transfer_laws;
pub mod tree;
pub mod tree_walk;
pub mod utf8;
pub mod worker;
pub mod worker_laws;

verus! {

} // verus!
