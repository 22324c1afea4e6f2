//! The control plane of Herdr Coordinator: what is observed, claimed, verified
//! and decided about the projects of one operator.
use vstd::prelude::*;

pub mod args;
pub mod args_laws;
pub mod attention;
pub mod claim_laws;
pub mod command_laws;
pub mod commands;
pub mod crew_laws;
pub mod delivery_laws;
pub mod depth;
pub mod dispatch;
pub mod dispatch_laws;
pub mod document_laws;
pub mod fault;
pub mod herdr;
pub mod json;
pub mod ledger;
pub mod ledger_laws;
pub mod listing;
pub mod listing_laws;
pub mod observation_laws;
pub mod order;
pub mod outside;
pub mod project_laws;
pub mod queue_laws;
pub mod records;
pub mod runtime;
pub mod runtime_laws;
pub mod screen;
pub mod screen_laws;
pub mod shallow;
pub mod state;
pub mod step_laws;
pub mod text;
pub mod text_laws;
pub mod textmap;
pub mod tower_laws;
pub mod ui;
pub mod upkeep;
pub mod value_laws;
pub mod watch;
pub mod watch_laws;
