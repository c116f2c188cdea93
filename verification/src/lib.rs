//! A local secret vault whose decisions are verified.

pub mod aws;
pub mod aws_discovery;
pub mod aws_discovery_laws;
pub mod aws_flow;
pub mod aws_flow_laws;
pub mod aws_laws;
pub mod aws_settings_laws;
pub mod cli;
pub mod clock;
pub mod controller;
pub mod controller_aws;
pub mod controller_aws_requests;
pub mod controller_laws;
pub mod controller_requests;
pub mod controller_snapshot;
pub mod crypto;
pub mod grants;
pub mod grants_laws;
pub mod icon;
pub mod ipc;
pub mod numeral;
pub mod paths;
pub mod process;
pub mod process_laws;
pub mod program_laws;
pub mod runtime;
pub mod seqs;
pub mod text;
pub mod text_laws;
pub mod vault;
pub mod vault_laws;
pub mod vault_records;
pub mod view;
