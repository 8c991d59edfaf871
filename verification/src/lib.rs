//! The decisions of a workstation's protection: which hosts the firewall blocks, and
//! how DNS requests reach a filtering companion and come back.
//!
//! Nothing here touches the machine. Where work alternates with decisions, a machine
//! takes an event and tells the next action.

pub mod atomic_file;
pub mod cache;
pub mod controller;
pub mod digest;
pub mod dns_apply;
pub mod dns_cache;
pub mod dns_configuration;
pub mod dns_divert;
pub mod dns_filter;
pub mod dns_flow;
pub mod dns_generation;
pub mod dns_journal;
pub mod dns_launch;
pub mod dns_manager;
pub mod dns_packet;
pub mod dns_plan;
pub mod dns_process;
pub mod dns_registry;
pub mod dns_restore;
pub mod dns_router;
pub mod dns_session;
pub mod dns_startup;
pub mod dns_storage;
pub mod dns_supervisor;
pub mod dns_updater;
pub mod dns_watchdog;
pub mod dns_watchdog_cli;
pub mod dns_watchdog_process;
pub mod dns_worker;
pub mod download;
pub mod feeds;
pub mod filter_language;
pub mod guid;
pub mod json;
pub mod net;
pub mod net_text;
pub mod text;
pub mod text_order;
