//! Tool settings modules. Each sub-module mirrors one family of tool
//! integrations; the structs hold plain configuration and the verified
//! builders that produce it.

pub mod ai_ml;
pub mod automation;
pub mod browser;
pub mod cloud_storage;
pub mod database;
pub mod file_ops;
pub mod search;
pub mod web_scraping;
