//! A store-and-forward node for delay-tolerant networking: a bundle store,
//! a peer table, routing agents and the processing engine that drives bundles
//! from receipt to delivery or forwarding.

pub mod keys;
pub mod eid;
pub mod bundle;
pub mod bundlepack;
pub mod store;
pub mod cla;
pub mod peer;
pub mod routing;
pub mod application_agent;
pub mod dtnconfig;
pub mod dtncore;
pub mod processing;
pub mod utils;
pub mod daemon;
pub mod httpd;
pub mod janitor;
