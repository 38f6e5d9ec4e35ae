//! The logic of an IPv4 relay that gets TLS connections past packet inspection: the
//! configuration, the tracking of flows, the course of connections, the choice of targets
//! and what is shown of it all.

pub mod addr;
pub mod config;
pub mod dashboard;
pub mod embed;
pub mod flow;
pub mod format;
pub mod fragment;
pub mod handler;
pub mod headless;
pub mod menu;
pub mod methods;
pub mod proxy;
pub mod relay;
pub mod scan;
pub mod session;
pub mod startup;
pub mod text;
