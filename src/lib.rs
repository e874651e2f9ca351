//! Per-epoch consensus commit processing: reconfiguration state, deferral and
//! cancellation of congested or randomness-bound transactions, shared object
//! version assignment and pending checkpoint construction.

pub mod reconfig;
pub mod types;
pub mod deferral;
pub mod table;
pub mod congestion;
pub mod policy;
pub mod versions;
pub mod end_of_publish;
pub mod randomness;
pub mod messages;
pub mod work;
pub mod ordering;
pub mod plan;
pub mod commit;
pub mod stats;
pub mod store_types;
