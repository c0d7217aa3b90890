use log_scraper::api_types::{
    sanitize_file_id, LogListResponse, PageParams, PagedLogContents, SimpleResponse, ValidationError,
    VersionResponse,
};
use log_scraper::caching::{cached_value_from, redis_url, CacheError};
use log_scraper::env_config::{EnvConfig, LOG_DIRECTORY, LOG_FILE_EXTENSION, LOG_FILE_PREFIX, REDIS_KEY_NAME, REDIS_URL};

#[test]
fn simple_responses() {
    let r = SimpleResponse::new();
    assert!(r.ok);
    assert_eq!(r.message, "success");
    let r = SimpleResponse::from(false, "Unable to find file");
    assert!(!r.ok);
    assert_eq!(r.message, "Unable to find file");
    let r = SimpleResponse::deleted("app_2023-01-01.log");
    assert!(r.ok);
    assert_eq!(r.message, "Deleted app_2023-01-01.log successfully");
}

#[test]
fn validation_messages() {
    let r = SimpleResponse::invalid(ValidationError::InvalidPage);
    assert!(!r.ok);
    assert_eq!(r.message, "Invalid value for page parameter.");
    let r = SimpleResponse::invalid(ValidationError::InvalidPageSize);
    assert_eq!(r.message, "Invalid value for page_size parameter.");
}

#[test]
fn page_params_defaults_and_rejections() {
    assert_eq!(PageParams { page: None, page_size: None }.resolve(), Ok((1, 100)));
    assert_eq!(PageParams { page: Some(3), page_size: Some(20) }.resolve(), Ok((3, 20)));
    assert_eq!(PageParams { page: Some(0), page_size: Some(0) }.resolve(), Err(ValidationError::InvalidPage));
    assert_eq!(PageParams { page: None, page_size: Some(0) }.resolve(), Err(ValidationError::InvalidPageSize));
}

#[test]
fn paged_contents_total() {
    let p = PagedLogContents::new(2, 10, 57, vec!["x".to_owned()]);
    assert_eq!((p.page, p.page_size, p.total), (2, 10, 57));
    assert_eq!(p.results, vec!["x".to_owned()]);
    let p = PagedLogContents::new(1, 1, u32::MAX as usize, Vec::new());
    assert_eq!(p.total, u32::MAX);
    if usize::BITS > 32 {
        let p = PagedLogContents::new(1, 1, u32::MAX as usize + 1, Vec::new());
        assert_eq!(p.total, 0);
    }
}

#[test]
fn list_and_version_responses() {
    let l = LogListResponse::new(vec!["a.log".to_owned()], "2023-01-02T00:00:00+00:00".to_owned());
    assert!(l.ok);
    assert_eq!(l.log_files, vec!["a.log".to_owned()]);
    assert_eq!(l.timestamp, "2023-01-02T00:00:00+00:00");
    assert_eq!(VersionResponse::new("0.2.0".to_owned()).version, "0.2.0");
}

#[test]
fn file_ids_lose_their_slashes() {
    assert_eq!(sanitize_file_id("../etc/passwd"), "..etcpasswd");
    assert_eq!(sanitize_file_id("app_2023-01-01.log"), "app_2023-01-01.log");
    assert_eq!(sanitize_file_id("///"), "");
}

#[test]
fn config_defaults() {
    let c = EnvConfig::new();
    assert_eq!(c.get_val(LOG_DIRECTORY), "./");
    assert_eq!(c.get_val(LOG_FILE_PREFIX), "app");
    assert_eq!(c.get_val(LOG_FILE_EXTENSION), "log");
    assert_eq!(c.get_val(REDIS_URL), "127.0.0.1:6379");
    assert_eq!(c.get_val(REDIS_KEY_NAME), "last_seen_timestamp");
    assert_eq!(c.keys().len(), 9);
    assert!(c.contains_key("NRLS_API_KEY"));
    assert!(!c.contains_key("UNKNOWN"));
}

#[test]
fn config_overrides_known_names_only() {
    let mut c = EnvConfig::new();
    c.set_val(LOG_FILE_PREFIX, "svc".to_owned());
    c.set_val("UNKNOWN", "x".to_owned());
    assert_eq!(c.get_val(LOG_FILE_PREFIX), "svc");
    assert_eq!(c.get_val(LOG_FILE_EXTENSION), "log");
    assert!(!c.contains_key("UNKNOWN"));
}

#[test]
fn cache_replies() {
    assert_eq!(cached_value_from(Ok(Some("301".to_owned()))), Ok("301".to_owned()));
    assert_eq!(cached_value_from(Ok(None)), Ok(String::new()));
    assert_eq!(cached_value_from(Err(CacheError::Operation)), Err(CacheError::Operation));
    assert_eq!(redis_url("127.0.0.1:6379"), "redis://127.0.0.1:6379");
}
