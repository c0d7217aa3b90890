//! The values exchanged with the HTTP layer, and the checks it applies to the
//! read path's input.

use vstd::prelude::*;
use vstd::string::*;

verus! {

/// A status and a message for the requester.
pub struct SimpleResponse {
    pub ok: bool,
    pub message: String,
}

/// The log files currently on disk, and when the list was taken.
pub struct LogListResponse {
    pub ok: bool,
    pub timestamp: String,
    pub log_files: Vec<String>,
}

/// Query parameters of a paged read; absent ones take their defaults.
pub struct PageParams {
    pub page: Option<u32>,
    pub page_size: Option<u32>,
}

/// One page of a log file.
pub struct PagedLogContents {
    pub page: u32,
    pub page_size: u32,
    pub total: u32,
    pub results: Vec<String>,
}

/// The running version of the service.
pub struct VersionResponse {
    pub version: String,
}

/// Malformed input to the read path.
#[derive(Clone, Copy, Debug, PartialEq, Eq, Structural)]
pub enum ValidationError {
    /// The page number is zero.
    InvalidPage,
    /// The page size is zero.
    InvalidPageSize,
}

/// The page used when none is given.
pub const DEFAULT_PAGE: u32 = 1;

/// The page size used when none is given.
pub const DEFAULT_PAGE_SIZE: u32 = 100;

impl LogListResponse {
    /// A successful list of `logs`, taken at `timestamp`.
    pub fn new(logs: Vec<String>, timestamp: String) -> (r: LogListResponse)
        ensures
            r.ok,
            r.log_files == logs,
            r.timestamp == timestamp,
    {
        LogListResponse { ok: true, log_files: logs, timestamp }
    }
}

impl SimpleResponse {
    /// `ok` with the message "success".
    pub fn new() -> (r: SimpleResponse)
        ensures
            r.ok,
            r.message@ == "success"@,
    {
        SimpleResponse { ok: true, message: String::from_str("success") }
    }

    /// A response with the given status and message.
    pub fn from(ok_status: bool, resp_msg: &str) -> (r: SimpleResponse)
        ensures
            r.ok == ok_status,
            r.message@ == resp_msg@,
    {
        SimpleResponse { ok: ok_status, message: String::from_str(resp_msg) }
    }

    /// The failure reported for malformed read-path input.
    pub fn invalid(e: ValidationError) -> (r: SimpleResponse)
        ensures
            !r.ok,
            e == ValidationError::InvalidPage ==> r.message@ == "Invalid value for page parameter."@,
            e == ValidationError::InvalidPageSize ==> r.message@
                == "Invalid value for page_size parameter."@,
    {
        match e {
            ValidationError::InvalidPage => SimpleResponse::from(false, "Invalid value for page parameter."),
            ValidationError::InvalidPageSize => SimpleResponse::from(
                false,
                "Invalid value for page_size parameter.",
            ),
        }
    }

    /// The success reported after deleting the file the request named.
    pub fn deleted(id: &str) -> (r: SimpleResponse)
        ensures
            r.ok,
            r.message@ == "Deleted "@ + id@ + " successfully"@,
    {
        let mut m = String::from_str("Deleted ");
        m.append(id);
        m.append(" successfully");
        SimpleResponse { ok: true, message: m }
    }
}

impl PageParams {
    /// The page and page size to read: defaults fill what is absent, and a
    /// zero page or page size is rejected, the page checked first.
    pub fn resolve(&self) -> (r: Result<(u32, u32), ValidationError>)
        ensures
            ({
                let page = match self.page {
                    Some(p) => p,
                    None => DEFAULT_PAGE,
                };
                let size = match self.page_size {
                    Some(s) => s,
                    None => DEFAULT_PAGE_SIZE,
                };
                &&& page == 0 ==> r == Err::<(u32, u32), ValidationError>(
                    ValidationError::InvalidPage,
                )
                &&& page != 0 && size == 0 ==> r == Err::<(u32, u32), ValidationError>(
                    ValidationError::InvalidPageSize,
                )
                &&& page != 0 && size != 0 ==> r == Ok::<(u32, u32), ValidationError>((page, size))
            }),
    {
        let page = match self.page {
            Some(p) => p,
            None => DEFAULT_PAGE,
        };
        let size = match self.page_size {
            Some(s) => s,
            None => DEFAULT_PAGE_SIZE,
        };
        if page == 0 {
            return Err(ValidationError::InvalidPage);
        }
        if size == 0 {
            return Err(ValidationError::InvalidPageSize);
        }
        Ok((page, size))
    }
}

impl PagedLogContents {
    /// A page of results; a total line count beyond `u32` is reported as 0.
    pub fn new(page: u32, page_size: u32, total: usize, results: Vec<String>) -> (r: PagedLogContents)
        ensures
            r.page == page,
            r.page_size == page_size,
            total <= u32::MAX ==> r.total == total,
            total > u32::MAX ==> r.total == 0,
            r.results == results,
    {
        let t: u32 = if total <= u32::MAX as usize {
            total as u32
        } else {
            0
        };
        PagedLogContents { page, page_size, total: t, results }
    }
}

impl VersionResponse {
    /// The response for version `s`.
    pub fn new(s: String) -> (r: VersionResponse)
        ensures
            r.version == s,
    {
        VersionResponse { version: s }
    }
}

/// Relies on `str::replace` with a `char` pattern: every `/` is dropped.
#[verifier::external_body]
fn drop_slashes(s: &str) -> (r: String)
    ensures
        r@ == s@.filter(|c: char| c != '/'),
{
    s.replace('/', "")
}

/// A file name taken from a request, with every `/` removed so that it cannot
/// leave the log directory.
pub fn sanitize_file_id(id: &str) -> (r: String)
    ensures
        r@ == id@.filter(|c: char| c != '/'),
        !r@.contains('/'),
{
    let r = drop_slashes(id);
    proof {
        broadcast use vstd::seq_lib::group_filter_ensures;

    }
    r
}

} // verus!
