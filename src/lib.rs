//! Incremental log synchronisation: a session that pulls new records from a
//! log source, appends them to date-named files with rollover, and advances a
//! millisecond watermark only once the records are safely on disk; plus the
//! paginated read path over those files.

pub mod api_types;
pub mod caching;
pub mod env_config;
pub mod new_relic;
pub mod scraper;
pub mod storage;
pub mod text;
