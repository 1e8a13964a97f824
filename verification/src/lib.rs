//! Token-usage attribution, usage reports and the conversation bookkeeping
//! around them.

mod arith;
pub mod text;
pub mod models;
pub mod attribution;
pub mod history;
pub mod environment;
pub mod state;
pub mod protocol;
pub mod usage_processor;
pub mod agent_tasks;
pub mod width;
pub mod usage_view;
