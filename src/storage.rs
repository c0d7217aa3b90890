//! The file-backed log store: file naming and rollover, and the forward scan
//! that pages through a file's lines.

use vstd::prelude::*;
use vstd::string::*;
use vstd::utf8::{decode_utf8, valid_utf8};
use crate::text::{decimal_text, push_decimal};

verus! {

/// A file holding this many lines or more takes no further writes.
pub const MAX_LINES_PER_FILE: usize = 1000;

/// Why a filesystem operation on a log file failed.
#[derive(Clone, Copy, Debug, PartialEq, Eq, Structural)]
pub enum IoError {
    /// The file does not exist.
    NotFound,
    /// The file could not be created, opened, read, written or removed.
    Failed,
}

/// The calendar date (`YYYY-MM-DD`, UTC) of a millisecond timestamp, or
/// `None` where the timestamp lies outside the representable range.
pub uninterp spec fn utc_date_text(ms: int) -> Option<Seq<char>>;

/// Relies on chrono's `DateTime::<Utc>::from_timestamp_millis` (which is
/// `None` out of range) and `DateTime::format` with `%Y-%m-%d`.
#[verifier::external_body]
pub(crate) fn utc_date_of(ms: i64) -> (r: Option<String>)
    ensures
        r is None ==> utc_date_text(ms as int) is None,
        r matches Some(t) ==> utc_date_text(ms as int) == Some(t@),
{
    match chrono::DateTime::<chrono::Utc>::from_timestamp_millis(ms) {
        Some(d) => Some(d.format("%Y-%m-%d").to_string()),
        None => None,
    }
}

/// `prefix_DATE.ext` for suffix 0, `prefix_DATE_N.ext` for suffix N.
pub open spec fn log_file_name(prefix: Seq<char>, date: Seq<char>, ext: Seq<char>, suffix: int) -> Seq<
    char,
> {
    if suffix == 0 {
        prefix + "_"@ + date + "."@ + ext
    } else {
        prefix + "_"@ + date + "_"@ + decimal_text(suffix) + "."@ + ext
    }
}

/// The name of the log file for `date` with the given rollover suffix.
pub fn to_filename(prefix: &str, date: &str, ext: &str, suffix: u64) -> (r: String)
    ensures
        r@ == log_file_name(prefix@, date@, ext@, suffix as int),
{
    let mut s = String::from_str(prefix);
    s.append("_");
    s.append(date);
    if suffix != 0 {
        s.append("_");
        push_decimal(&mut s, suffix as i128);
    }
    s.append(".");
    s.append(ext);
    s
}

/// The line count a probe reports, a failed count reading as zero.
pub open spec fn counted_lines(line_count: Result<usize, IoError>) -> int {
    match line_count {
        Ok(n) => n as int,
        Err(_) => 0,
    }
}

/// Whether a file may take the next write: it does not exist yet, or it holds
/// fewer than `MAX_LINES_PER_FILE` lines.
pub open spec fn may_append(present: bool, line_count: Result<usize, IoError>) -> bool {
    !present || counted_lines(line_count) < MAX_LINES_PER_FILE
}

/// Whether the probed file may be written to rather than rolled over.
pub fn can_append_file(present: bool, line_count: Result<usize, IoError>) -> (r: bool)
    ensures
        r == may_append(present, line_count),
{
    if !present {
        return true;
    }
    match line_count {
        Ok(n) => n < MAX_LINES_PER_FILE,
        Err(_) => true,
    }
}

/// The text of one line read from a file: its UTF-8 decoding, or empty where
/// the bytes are not UTF-8.
pub open spec fn line_text(bytes: Seq<u8>) -> Seq<char> {
    if valid_utf8(bytes) {
        decode_utf8(bytes)
    } else {
        seq![]
    }
}

/// Relies on `std::str::from_utf8`, which succeeds exactly on valid UTF-8.
#[verifier::external_body]
fn decode_line(bytes: &[u8]) -> (r: String)
    ensures
        r@ == line_text(bytes@),
{
    std::str::from_utf8(bytes).unwrap_or("").to_owned()
}

/// One past the last 0-based line position of a page.
pub open spec fn page_end(page: int, page_size: int) -> int {
    page * page_size
}

/// The lines of a page: 1-based positions `(page-1)*page_size+1 ..=
/// page*page_size`, cut off at the end of `lines`.
pub open spec fn page_window<T>(lines: Seq<T>, page: int, page_size: int) -> Seq<T> {
    let start = (page - 1) * page_size;
    let end = page_end(page, page_size);
    if lines.len() <= start {
        seq![]
    } else if lines.len() <= end {
        lines.subrange(start, lines.len() as int)
    } else {
        lines.subrange(start, end)
    }
}

/// `v` raised to at least one.
pub open spec fn at_least_one(v: u32) -> int {
    if v < 1 {
        1
    } else {
        v as int
    }
}

/// A page read in one forward pass: lines are offered in file order until the
/// scan has seen the whole page.
pub struct PageScan {
    page: u64,
    page_size: u64,
    seen: u64,
    results: Vec<String>,
    offered: Ghost<Seq<Seq<u8>>>,
}

impl PageScan {
    /// The page number, at least one.
    pub closed spec fn page(&self) -> int {
        self.page as int
    }

    /// The page size, at least one.
    pub closed spec fn page_size(&self) -> int {
        self.page_size as int
    }

    /// The lines offered so far and taken into account.
    pub closed spec fn offered(&self) -> Seq<Seq<u8>> {
        self.offered@
    }

    pub closed spec fn wf(&self) -> bool {
        &&& 1 <= self.page <= u32::MAX
        &&& 1 <= self.page_size <= u32::MAX
        &&& self.seen == self.offered@.len()
        &&& self.seen <= page_end(self.page as int, self.page_size as int)
        &&& self.results@.len() == page_window(self.offered@, self.page as int, self.page_size as int).len()
        &&& forall|i: int|
            0 <= i < self.results@.len() ==> #[trigger] self.results@[i]@ == line_text(
                page_window(self.offered@, self.page as int, self.page_size as int)[i],
            )
    }

    /// Whether the scan wants another line.
    pub open spec fn wants_more(&self) -> bool {
        self.offered().len() < page_end(self.page(), self.page_size())
    }

    /// Starts a scan for `page` of `page_size` lines; both are raised to at
    /// least one.
    pub fn new(page: u32, page_size: u32) -> (r: PageScan)
        ensures
            r.wf(),
            r.page() == at_least_one(page),
            r.page_size() == at_least_one(page_size),
            r.offered() == Seq::<Seq<u8>>::empty(),
    {
        let p: u64 = if page < 1 {
            1
        } else {
            page as u64
        };
        let s: u64 = if page_size < 1 {
            1
        } else {
            page_size as u64
        };
        let ghost none: Seq<Seq<u8>> = seq![];
        let r = PageScan { page: p, page_size: s, seen: 0, results: Vec::new(), offered: Ghost(none) };
        assert(page_window(r.offered@, p as int, s as int) =~= Seq::<Seq<u8>>::empty());
        r
    }

    /// Offers the next line of the file (its bytes as read, terminator
    /// included). Returns whether the scan wants another line.
    pub fn offer(&mut self, line: Vec<u8>) -> (more: bool)
        requires
            old(self).wf(),
        ensures
            final(self).wf(),
            final(self).page() == old(self).page(),
            final(self).page_size() == old(self).page_size(),
            old(self).wants_more() ==> final(self).offered() == old(self).offered().push(line@),
            !old(self).wants_more() ==> final(self).offered() == old(self).offered(),
            more == final(self).wants_more(),
    {
        proof {
            let (p, q) = (self.page as int, self.page_size as int);
            assert(p * q <= u32::MAX as int * u32::MAX as int) by (nonlinear_arith)
                requires
                    1 <= p <= u32::MAX,
                    1 <= q <= u32::MAX,
            ;
            assert((p - 1) * q <= p * q) by (nonlinear_arith)
                requires
                    1 <= p,
                    1 <= q,
            ;
        }
        let end: u64 = self.page * self.page_size;
        if self.seen >= end {
            return false;
        }
        let start: u64 = (self.page - 1) * self.page_size;
        let ghost old_window = page_window(self.offered@, self.page as int, self.page_size as int);
        let ghost lines = self.offered@.push(line@);
        if self.seen >= start {
            let text = decode_line(line.as_slice());
            self.results.push(text);
            proof {
                assert(page_window(lines, self.page as int, self.page_size as int) =~= old_window.push(
                    line@,
                ));
            }
        } else {
            proof {
                assert(page_window(lines, self.page as int, self.page_size as int) =~= old_window);
            }
        }
        self.seen = self.seen + 1;
        self.offered = Ghost(lines);
        self.seen < end
    }

    /// The page's lines as text, in file order.
    pub fn finish(self) -> (r: Vec<String>)
        requires
            self.wf(),
        ensures
            r@.len() == page_window(self.offered(), self.page(), self.page_size()).len(),
            forall|i: int|
                0 <= i < r@.len() ==> #[trigger] r@[i]@ == line_text(
                    page_window(self.offered(), self.page(), self.page_size())[i],
                ),
    {
        self.results
    }
}

/// A scan that stops once it has seen the page's last line returns the same
/// page as reading the whole file: the lines after the page never matter.
pub proof fn lemma_page_of_prefix<T>(lines: Seq<T>, page: int, page_size: int, n: int)
    requires
        1 <= page,
        1 <= page_size,
        n == lines.len() || page_end(page, page_size) <= n <= lines.len(),
    ensures
        page_window(lines.take(n), page, page_size) == page_window(lines, page, page_size),
{
    assert((page - 1) * page_size <= page * page_size) by (nonlinear_arith)
        requires
            1 <= page,
            1 <= page_size,
    ;
    assert(page_window(lines.take(n), page, page_size) =~= page_window(lines, page, page_size));
}

} // verus!
