//! The log source's records and the queries sent to it.

use vstd::prelude::*;
use vstd::string::*;
use crate::text::{decimal_text, push_char, push_decimal};

verus! {

/// One record returned by the log source. `timestamp` is in milliseconds
/// since the Unix epoch, UTC.
pub struct NewRelicLogItem {
    pub logger_name: String,
    pub request_id: String,
    pub logtype: String,
    pub message: String,
    pub message_id: String,
    pub project: String,
    pub timestamp: i64,
}

impl Clone for NewRelicLogItem {
    fn clone(&self) -> (r: Self)
        ensures
            r == *self,
    {
        NewRelicLogItem {
            logger_name: self.logger_name.clone(),
            request_id: self.request_id.clone(),
            logtype: self.logtype.clone(),
            message: self.message.clone(),
            message_id: self.message_id.clone(),
            project: self.project.clone(),
            timestamp: self.timestamp,
        }
    }
}

/// Why a fetch from the log source produced no records.
#[derive(Clone, Copy, Debug, PartialEq, Eq, Structural)]
pub enum FetchError {
    /// No API key is configured.
    MissingApiKey,
    /// The request could not be sent or got no response.
    Transport,
    /// The service answered with a status outside 200..=299.
    Status(u16),
    /// The response body could not be read.
    ResponseBody,
    /// The response body is not in the expected shape.
    Payload,
}

/// The JSON string literal for `s`, as serde_json writes it.
pub uninterp spec fn json_quoted(s: Seq<char>) -> Seq<char>;

/// Relies on `serde_json::to_string` for a string slice: the quoted, escaped
/// JSON literal. Serialising a `str` into memory does not fail.
#[verifier::external_body]
fn json_string(s: &str) -> (r: String)
    ensures
        r@ == json_quoted(s@),
{
    serde_json::to_string(s).unwrap_or_default()
}

/// The one-line JSON form of a record: its fields in declaration order under
/// camel-case keys, the timestamp as a millisecond integer.
pub open spec fn record_line(r: NewRelicLogItem) -> Seq<char> {
    "{\"loggerName\":"@ + json_quoted(r.logger_name@) + ",\"requestId\":"@ + json_quoted(
        r.request_id@,
    ) + ",\"logtype\":"@ + json_quoted(r.logtype@) + ",\"message\":"@ + json_quoted(r.message@)
        + ",\"messageId\":"@ + json_quoted(r.message_id@) + ",\"project\":"@ + json_quoted(
        r.project@,
    ) + ",\"timestamp\":"@ + decimal_text(r.timestamp as int) + "}"@
}

/// The lines of all records, in the given order, joined by `\n`.
pub open spec fn joined_lines(logs: Seq<NewRelicLogItem>) -> Seq<char>
    decreases logs.len(),
{
    if logs.len() == 0 {
        seq![]
    } else if logs.len() == 1 {
        record_line(logs[0])
    } else {
        joined_lines(logs.drop_last()) + seq!['\n'] + record_line(logs.last())
    }
}

/// The largest timestamp among `logs` (meaningful when `logs` is not empty).
pub open spec fn newest_timestamp(logs: Seq<NewRelicLogItem>) -> int
    decreases logs.len(),
{
    if logs.len() <= 1 {
        logs[0].timestamp as int
    } else {
        let m = newest_timestamp(logs.drop_last());
        if logs.last().timestamp > m {
            logs.last().timestamp as int
        } else {
            m
        }
    }
}

/// The newest timestamp bounds every record's timestamp and is one of them.
pub proof fn lemma_newest_timestamp(logs: Seq<NewRelicLogItem>)
    requires
        logs.len() > 0,
    ensures
        forall|i: int| 0 <= i < logs.len() ==> logs[i].timestamp <= newest_timestamp(logs),
        exists|i: int| 0 <= i < logs.len() && logs[i].timestamp == newest_timestamp(logs),
    decreases logs.len(),
{
    if logs.len() > 1 {
        let init = logs.drop_last();
        lemma_newest_timestamp(init);
        let k = choose|i: int| 0 <= i < init.len() && init[i].timestamp == newest_timestamp(init);
        if logs.last().timestamp > newest_timestamp(init) {
            assert(logs[logs.len() - 1].timestamp == newest_timestamp(logs));
        } else {
            assert(logs[k].timestamp == newest_timestamp(logs));
        }
        assert forall|i: int| 0 <= i < logs.len() implies logs[i].timestamp <= newest_timestamp(
            logs,
        ) by {
            if i < logs.len() - 1 {
                assert(logs[i] == init[i]);
            }
        }
    } else {
        assert(logs[0].timestamp == newest_timestamp(logs));
    }
}

impl NewRelicLogItem {
    /// The record as one line of JSON text.
    pub fn to_string(&self) -> (r: String)
        ensures
            r@ == record_line(*self),
    {
        let mut s = String::new();
        s.append("{\"loggerName\":");
        s.append(json_string(self.logger_name.as_str()).as_str());
        s.append(",\"requestId\":");
        s.append(json_string(self.request_id.as_str()).as_str());
        s.append(",\"logtype\":");
        s.append(json_string(self.logtype.as_str()).as_str());
        s.append(",\"message\":");
        s.append(json_string(self.message.as_str()).as_str());
        s.append(",\"messageId\":");
        s.append(json_string(self.message_id.as_str()).as_str());
        s.append(",\"project\":");
        s.append(json_string(self.project.as_str()).as_str());
        s.append(",\"timestamp\":");
        push_decimal(&mut s, self.timestamp as i128);
        s.append("}");
        s
    }
}

/// The text written to a log file for a batch: one line per record, in the
/// given order, joined by newlines.
pub fn records_to_text(logs: &Vec<NewRelicLogItem>) -> (r: String)
    ensures
        r@ == joined_lines(logs@),
{
    let mut s = String::new();
    let mut i: usize = 0;
    while i < logs.len()
        invariant
            i <= logs.len(),
            s@ == joined_lines(logs@.take(i as int)),
        decreases logs.len() - i,
    {
        if i > 0 {
            push_char(&mut s, '\n');
        }
        let line = logs[i].to_string();
        s.append(line.as_str());
        proof {
            let t = logs@.take(i as int + 1);
            assert(t.drop_last() =~= logs@.take(i as int));
            assert(t.last() == logs@[i as int]);
        }
        i = i + 1;
    }
    assert(logs@.take(logs.len() as int) =~= logs@);
    s
}

/// Builds the GraphQL request body that runs `query` for `account_id`.
pub fn create_nrql_payload(account_id: &str, query: &str) -> (r: String)
    ensures
        r@ == "{ actor { account(id: "@ + account_id@ + ") { nrql(query: \""@ + query@
            + "\") { results } } } }"@,
{
    let mut result_str = String::new();
    result_str.append("{ actor { account(id: ");
    result_str.append(account_id);
    result_str.append(") { nrql(query: \"");
    result_str.append(query);
    result_str.append("\") { results } } } }");
    result_str
}

/// The lower bound of a query: the watermark, or the default look-back window
/// when there is none yet.
pub open spec fn since_clause(watermark: Seq<char>) -> Seq<char> {
    if watermark.len() == 0 {
        "7 DAYS AGO"@
    } else {
        watermark
    }
}

/// The NRQL query for all records at or after the watermark.
pub open spec fn log_query(watermark: Seq<char>) -> Seq<char> {
    "SELECT * FROM Log SINCE "@ + since_clause(watermark)
}

/// Client for the log source's query API.
#[derive(Debug)]
pub struct NewRelic {}

impl NewRelic {
    /// Creates a new `NewRelic` client.
    pub fn new() -> (r: NewRelic) {
        NewRelic {  }
    }

    /// The request body that fetches every record since `watermark`, or
    /// `MissingApiKey` when no API key is configured.
    pub fn prepare_query(&self, account_id: &str, api_key: &str, watermark: &str) -> (r: Result<
        String,
        FetchError,
    >)
        ensures
            api_key@.len() == 0 ==> r == Err::<String, FetchError>(FetchError::MissingApiKey),
            api_key@.len() != 0 ==> (r matches Ok(body) && body@ == "{ actor { account(id: "@
                + account_id@ + ") { nrql(query: \""@ + log_query(watermark@)
                + "\") { results } } } }"@),
    {
        if api_key.is_empty() {
            return Err(FetchError::MissingApiKey);
        }
        let mut query = String::new();
        query.append("SELECT * FROM Log SINCE ");
        if watermark.is_empty() {
            query.append("7 DAYS AGO");
        } else {
            query.append(watermark);
        }
        Ok(create_nrql_payload(account_id, query.as_str()))
    }

    /// Whether an HTTP status means the query was answered: `Status` otherwise.
    pub fn check_status(&self, status: u16) -> (r: Result<(), FetchError>)
        ensures
            200 <= status <= 299 ==> r is Ok,
            !(200 <= status <= 299) ==> r == Err::<(), FetchError>(FetchError::Status(status)),
    {
        if 200 <= status && status <= 299 {
            Ok(())
        } else {
            Err(FetchError::Status(status))
        }
    }

    /// The record with the latest timestamp; the first such one on a tie.
    pub fn find_latest(&self, logs: &Vec<NewRelicLogItem>) -> (r: NewRelicLogItem)
        requires
            logs.len() > 0,
        ensures
            r.timestamp == newest_timestamp(logs@),
            exists|k: int|
                0 <= k < logs.len() && r == logs@[k] && forall|j: int|
                    0 <= j < k ==> logs@[j].timestamp < r.timestamp,
    {
        let mut found: usize = 0;
        let mut i: usize = 1;
        while i < logs.len()
            invariant
                1 <= i <= logs.len(),
                found < i,
                logs@[found as int].timestamp == newest_timestamp(logs@.take(i as int)),
                forall|j: int| 0 <= j < found ==> logs@[j].timestamp < logs@[found as int].timestamp,
            decreases logs.len() - i,
        {
            proof {
                let t = logs@.take(i as int + 1);
                assert(t.drop_last() =~= logs@.take(i as int));
                lemma_newest_timestamp(logs@.take(i as int));
            }
            if logs[i].timestamp > logs[found].timestamp {
                proof {
                    assert forall|j: int| 0 <= j < i implies logs@[j].timestamp
                        < logs@[i as int].timestamp by {
                        assert(logs@.take(i as int)[j] == logs@[j]);
                    }
                }
                found = i;
            }
            i = i + 1;
        }
        assert(logs@.take(logs.len() as int) =~= logs@);
        logs[found].clone()
    }

    /// The watermark that follows `r`: its timestamp plus one millisecond, in
    /// decimal.
    pub fn to_watermark(&self, r: &NewRelicLogItem) -> (w: String)
        ensures
            w@ == decimal_text(r.timestamp + 1),
    {
        let mut s = String::new();
        push_decimal(&mut s, r.timestamp as i128 + 1);
        s
    }
}

} // verus!
