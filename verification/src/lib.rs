//! Decision logic of the Kovee daemon, stated as contracts and proved.

pub mod artifact_ops;
pub mod assistant_ops;
pub mod budget;
pub mod config;
pub mod credentials;
pub mod digests;
pub mod dispatch;
pub mod disposition_ops;
pub mod documents;
pub mod episode;
pub mod formation;
pub mod governance;
pub mod handlers;
pub mod invoke;
pub mod journal;
pub mod json;
pub mod lifecycle_ops;
pub mod listing;
pub mod model_broker;
pub mod peercred;
pub mod problem;
pub mod reads;
pub mod records;
pub mod redaction;
pub mod retention;
pub mod socket;
pub mod table;
pub mod text;
