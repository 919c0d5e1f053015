pub mod android;
pub mod audioserver_priority;
pub mod capabilities;
pub mod catalog;
pub mod cli;
pub mod domain;
pub mod dynamic_direct;
pub mod entry;
pub mod finalize;
pub mod operation;
pub mod paths;
pub mod protocol;
pub mod reapply;
pub mod scripts;
pub mod state;
pub mod state_file;
pub mod state_laws;
pub mod status;
pub mod text;
