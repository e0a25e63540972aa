pub mod events;
pub mod ingest;
pub mod query;
pub mod search;
pub mod store;
pub mod tags;
