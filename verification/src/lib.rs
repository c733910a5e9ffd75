//! Verified core of the NodeGet monitoring server: credential parsing,
//! permission decisions, key-pattern matching and input normalisation.

pub mod agent_link;
pub mod agent_list;
pub mod clock;
pub mod crontab;
pub mod decimal;
pub mod error;
pub mod ids;
pub mod js_worker;
pub mod kv_auth;
pub mod kv_query;
pub mod landing;
pub mod monitoring_cache;
pub mod monitoring_query;
pub mod pattern;
pub mod permission;
pub mod records;
pub mod responses;
pub mod route_name;
pub mod rpc_support;
pub mod schedule;
pub mod sessions;
pub mod text;
pub mod token_admin;
pub mod token_auth;
pub mod token_store;
