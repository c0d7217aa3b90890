use log_scraper::storage::{can_append_file, to_filename, IoError, PageScan, MAX_LINES_PER_FILE};

fn scan(total: usize, page: u32, page_size: u32) -> (Vec<String>, usize) {
    let mut s = PageScan::new(page, page_size);
    let mut offered = 0;
    for i in 1..=total {
        offered += 1;
        if !s.offer(format!("line {}\n", i).into_bytes()) {
            break;
        }
    }
    (s.finish(), offered)
}

#[test]
fn filenames_carry_date_and_suffix() {
    assert_eq!(to_filename("app", "2023-01-01", "log", 0), "app_2023-01-01.log");
    assert_eq!(to_filename("app", "2023-01-01", "log", 1), "app_2023-01-01_1.log");
    assert_eq!(to_filename("app", "2023-01-01", "log", 12), "app_2023-01-01_12.log");
}

#[test]
fn rollover_threshold() {
    assert_eq!(MAX_LINES_PER_FILE, 1000);
    assert!(!can_append_file(true, Ok(1000)));
    assert!(!can_append_file(true, Ok(5000)));
    assert!(can_append_file(true, Ok(999)));
    assert!(can_append_file(false, Err(IoError::NotFound)));
    assert!(can_append_file(true, Err(IoError::Failed)));
}

#[test]
fn last_partial_page_of_250_lines() {
    let (lines, _) = scan(250, 3, 100);
    assert_eq!(lines.len(), 50);
    assert_eq!(lines[0], "line 201\n");
    assert_eq!(lines[49], "line 250\n");
}

#[test]
fn page_past_the_end_is_empty() {
    let (lines, _) = scan(250, 4, 100);
    assert!(lines.is_empty());
}

#[test]
fn scan_stops_after_the_page() {
    let (lines, offered) = scan(250, 1, 100);
    assert_eq!(lines.len(), 100);
    assert_eq!(lines[99], "line 100\n");
    assert_eq!(offered, 100);
}

#[test]
fn zero_page_and_size_are_raised_to_one() {
    let (lines, _) = scan(5, 0, 0);
    assert_eq!(lines, vec!["line 1\n".to_owned()]);
}

#[test]
fn invalid_utf8_line_reads_as_empty() {
    let mut s = PageScan::new(1, 3);
    s.offer(b"ok\n".to_vec());
    s.offer(vec![0xff, 0xfe, b'\n']);
    s.offer("h\u{e9}\n".as_bytes().to_vec());
    assert_eq!(s.finish(), vec!["ok\n".to_owned(), String::new(), "h\u{e9}\n".to_owned()]);
}

#[test]
fn offers_after_the_page_are_ignored() {
    let mut s = PageScan::new(1, 1);
    assert!(!s.offer(b"a".to_vec()));
    assert!(!s.offer(b"b".to_vec()));
    assert_eq!(s.finish(), vec!["a".to_owned()]);
}
