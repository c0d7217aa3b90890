use log_scraper::new_relic::{create_nrql_payload, records_to_text, FetchError, NewRelic, NewRelicLogItem};

fn item(ts: i64, message: &str) -> NewRelicLogItem {
    NewRelicLogItem {
        logger_name: "svc".to_owned(),
        request_id: "r1".to_owned(),
        logtype: "INFO".to_owned(),
        message: message.to_owned(),
        message_id: "m1".to_owned(),
        project: "proj".to_owned(),
        timestamp: ts,
    }
}

#[test]
fn record_serialises_as_one_json_line() {
    let r = item(1_700_000_000_123, "he said \"hi\"\nbye");
    assert_eq!(
        r.to_string(),
        "{\"loggerName\":\"svc\",\"requestId\":\"r1\",\"logtype\":\"INFO\",\"message\":\"he said \\\"hi\\\"\\nbye\",\"messageId\":\"m1\",\"project\":\"proj\",\"timestamp\":1700000000123}"
    );
}

#[test]
fn negative_timestamp_serialises_with_sign() {
    let r = item(-42, "m");
    assert!(r.to_string().ends_with(",\"timestamp\":-42}"));
}

#[test]
fn records_join_with_newlines_in_order() {
    let logs = vec![item(2, "b"), item(1, "a")];
    let text = records_to_text(&logs);
    assert_eq!(text, format!("{}\n{}", logs[0].to_string(), logs[1].to_string()));
    assert_eq!(records_to_text(&Vec::new()), "");
}

#[test]
fn find_latest_picks_max_and_first_on_tie() {
    let nr = NewRelic::new();
    let logs = vec![item(100, "a"), item(300, "b"), item(200, "c"), item(300, "d")];
    let latest = nr.find_latest(&logs);
    assert_eq!(latest.timestamp, 300);
    assert_eq!(latest.message, "b");
}

#[test]
fn to_watermark_adds_one_millisecond() {
    let nr = NewRelic::new();
    assert_eq!(nr.to_watermark(&item(300, "x")), "301");
    assert_eq!(nr.to_watermark(&item(-1, "x")), "0");
    assert_eq!(nr.to_watermark(&item(-10, "x")), "-9");
    assert_eq!(nr.to_watermark(&item(i64::MAX, "x")), "9223372036854775808");
    assert_eq!(nr.to_watermark(&item(i64::MIN, "x")), "-9223372036854775807");
}

#[test]
fn nrql_payload_wraps_query() {
    assert_eq!(
        create_nrql_payload("1234567", "SELECT * FROM Log SINCE 1 HOURS AGO"),
        "{ actor { account(id: 1234567) { nrql(query: \"SELECT * FROM Log SINCE 1 HOURS AGO\") { results } } } }"
    );
}

#[test]
fn query_defaults_to_seven_days() {
    let nr = NewRelic::new();
    assert_eq!(
        nr.prepare_query("1", "key", ""),
        Ok("{ actor { account(id: 1) { nrql(query: \"SELECT * FROM Log SINCE 7 DAYS AGO\") { results } } } }".to_owned())
    );
    assert_eq!(
        nr.prepare_query("1", "key", "301"),
        Ok("{ actor { account(id: 1) { nrql(query: \"SELECT * FROM Log SINCE 301\") { results } } } }".to_owned())
    );
}

#[test]
fn query_without_key_is_refused() {
    let nr = NewRelic::new();
    assert_eq!(nr.prepare_query("1", "", "301"), Err(FetchError::MissingApiKey));
}

#[test]
fn status_outside_success_range_is_an_error() {
    let nr = NewRelic::new();
    assert_eq!(nr.check_status(200), Ok(()));
    assert_eq!(nr.check_status(299), Ok(()));
    assert_eq!(nr.check_status(199), Err(FetchError::Status(199)));
    assert_eq!(nr.check_status(404), Err(FetchError::Status(404)));
}

#[test]
fn clone_keeps_every_field() {
    let r = item(7, "x");
    let c = r.clone();
    assert_eq!(c.to_string(), r.to_string());
}
