use rustbook::head::{exit_status, header, LineLimiter, MAX_LINES};
use rustbook::wc::{count_bytes, report, WordCounter};

#[test]
fn counts_two_lines_three_words() {
    let c = count_bytes(b"foo bar\nbaz\n");
    assert_eq!((c.lines, c.words, c.bytes), (2, 3, 12));
    assert_eq!(report(&c, b"a.txt"), b"       2       3      12 a.txt\n".to_vec());
}

#[test]
fn trailing_word_is_not_counted() {
    let c = count_bytes(b"foo");
    assert_eq!((c.lines, c.words, c.bytes), (0, 0, 3));
    let c = count_bytes(b"foo bar");
    assert_eq!(c.words, 1);
}

#[test]
fn empty_input_counts_nothing() {
    let c = count_bytes(b"");
    assert_eq!((c.lines, c.words, c.bytes), (0, 0, 0));
}

#[test]
fn repeated_boundaries_close_one_word() {
    let c = count_bytes(b"  a  \n\n b \n");
    assert_eq!((c.lines, c.words, c.bytes), (3, 2, 11));
}

#[test]
fn chunks_count_as_the_whole() {
    let mut w = WordCounter::new();
    w.feed(b"fo");
    w.feed(b"o ba");
    w.feed(b"r\nbaz\n");
    let c = w.totals();
    assert_eq!((c.lines, c.words, c.bytes), (2, 3, 12));
}

#[test]
fn report_keeps_wide_numbers() {
    let c = count_bytes(b"x\n");
    let mut line = report(&c, b"p");
    assert_eq!(line, b"       1       1       2 p\n".to_vec());
    let mut w = WordCounter::new();
    w.feed(&vec![b'\n'; 123456789]);
    line = report(&w.totals(), b"big");
    assert_eq!(line, b"123456789       0 123456789 big\n".to_vec());
}

fn lines(n: usize) -> Vec<u8> {
    let mut v = Vec::new();
    for i in 1..=n {
        v.extend_from_slice(format!("line {}\n", i).as_bytes());
    }
    v
}

#[test]
fn head_of_fifteen_lines_is_the_first_ten() {
    let input = lines(15);
    let mut h = LineLimiter::new(MAX_LINES);
    let n = h.take(&input);
    assert_eq!(&input[..n], &lines(10)[..]);
    assert!(h.is_done());
}

#[test]
fn head_byte_by_byte_stops_after_tenth_line_feed() {
    let input = lines(15);
    let mut h = LineLimiter::new(MAX_LINES);
    let mut out = Vec::new();
    let mut read = 0;
    for b in &input {
        read += 1;
        let n = h.take(std::slice::from_ref(b));
        out.extend_from_slice(&std::slice::from_ref(b)[..n]);
        if h.is_done() {
            break;
        }
    }
    assert_eq!(out, lines(10));
    assert_eq!(read, lines(10).len());
}

#[test]
fn head_of_short_input_is_all_of_it() {
    let mut h = LineLimiter::new(MAX_LINES);
    let n = h.take(b"a\nb\nno newline");
    assert_eq!(n, 14);
    assert!(!h.is_done());
    assert_eq!(h.take(b""), 0);
}

#[test]
fn head_in_chunks() {
    let input = lines(12);
    let mut h = LineLimiter::new(MAX_LINES);
    let mut out = Vec::new();
    for chunk in input.chunks(7) {
        let n = h.take(chunk);
        out.extend_from_slice(&chunk[..n]);
    }
    assert_eq!(out, lines(10));
}

#[test]
fn head_of_zero_lines_is_empty() {
    let mut h = LineLimiter::new(0);
    assert_eq!(h.take(b"abc\n"), 0);
    assert!(h.is_done());
}

#[test]
fn exit_status_counts_failures_only_for_several_paths() {
    assert_eq!(exit_status(1, 1), 0);
    assert_eq!(exit_status(2, 1), 1);
    assert_eq!(exit_status(2, 0), 0);
    assert_eq!(exit_status(0, 0), 0);
}

#[test]
fn header_names_the_path() {
    assert_eq!(header(b"p1"), b"==> p1 <==\n".to_vec());
    assert_eq!(header(b""), b"==>  <==\n".to_vec());
}

#[test]
fn twelve_line_file_shows_ten() {
    let input = lines(12);
    let mut h = LineLimiter::new(MAX_LINES);
    let mut out = header(b"p1");
    for b in &input {
        if h.is_done() {
            break;
        }
        let n = h.take(std::slice::from_ref(b));
        out.extend_from_slice(&std::slice::from_ref(b)[..n]);
    }
    let mut expected = b"==> p1 <==\n".to_vec();
    expected.extend_from_slice(&lines(10));
    assert_eq!(out, expected);
}
