//! Retrieves a user's liked items from a paginated timeline, extracts
//! media references from the variably shaped response documents, plans
//! resumable integrity-checked downloads behind a persisted ledger, and
//! re-files the downloaded artifacts into per-author folders.
pub mod config;
pub mod extract;
pub mod fetch;
pub mod json;
pub mod ledger;
pub mod organize;
pub mod run;
pub mod setup;
pub mod text;
pub mod x_api;
