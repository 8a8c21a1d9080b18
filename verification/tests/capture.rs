use deploy_dispatcher::capture::{LineCapture, StreamTag, TimestampedLine};
use deploy_dispatcher::tools::Timestamp;

fn at(second: i32) -> Timestamp {
    Timestamp::new(2016, 3, 9, 10, 0, second, 0).unwrap()
}

fn texts(lines: &Vec<TimestampedLine>) -> Vec<String> {
    lines.iter().map(|l| l.text.clone()).collect()
}

fn written(lines: &Vec<TimestampedLine>) -> Vec<u8> {
    let mut bytes = Vec::new();
    for line in lines {
        bytes.extend_from_slice(line.text.as_bytes());
        bytes.push(b'\n');
    }
    bytes
}

#[test]
fn a_new_capture_holds_nothing() {
    let capture = LineCapture::new(StreamTag::Stderr);
    assert_eq!(capture.stream(), StreamTag::Stderr);
    assert!(capture.lines().is_empty());
    assert!(capture.finish(at(0)).is_empty());
}

#[test]
fn lines_end_at_their_terminator() {
    let mut capture = LineCapture::new(StreamTag::Stdout);
    capture.feed(b"one\ntwo\nthr", at(1));
    assert_eq!(texts(capture.lines()), vec!["one", "two"]);
    capture.feed(b"ee\n", at(2));
    assert_eq!(texts(capture.lines()), vec!["one", "two", "three"]);
    let lines = capture.finish(at(3));
    assert_eq!(texts(&lines), vec!["one", "two", "three"]);
}

#[test]
fn each_line_is_stamped_when_it_ends() {
    let mut capture = LineCapture::new(StreamTag::Stdout);
    capture.feed(b"one\ntw", at(1));
    capture.feed(b"o\nthree", at(5));
    let lines = capture.finish(at(9));
    assert_eq!(lines.len(), 3);
    assert_eq!(lines[0].captured_at, at(1));
    assert_eq!(lines[1].captured_at, at(5));
    assert_eq!(lines[2].captured_at, at(9));
    assert!(lines.iter().all(|l| l.stream == StreamTag::Stdout));
}

#[test]
fn an_unfinished_line_is_kept_whole() {
    let mut capture = LineCapture::new(StreamTag::Stdout);
    capture.feed(b"done\nno newline at the end", at(1));
    assert_eq!(texts(capture.lines()), vec!["done"]);
    assert_eq!(capture.pending().as_slice(), b"no newline at the end");
    let lines = capture.finish(at(2));
    assert_eq!(texts(&lines), vec!["done", "no newline at the end"]);
}

#[test]
fn empty_lines_are_lines() {
    let mut capture = LineCapture::new(StreamTag::Stdout);
    capture.feed(b"\n\na\n\n", at(1));
    let lines = capture.finish(at(2));
    assert_eq!(texts(&lines), vec!["", "", "a", ""]);
}

#[test]
fn an_empty_piece_changes_nothing() {
    let mut capture = LineCapture::new(StreamTag::Stdout);
    capture.feed(b"a\nb", at(1));
    capture.feed(b"", at(2));
    assert_eq!(texts(capture.lines()), vec!["a"]);
    assert_eq!(texts(&capture.finish(at(3))), vec!["a", "b"]);
}

#[test]
fn carriage_returns_stay_in_the_text() {
    let lines = LineCapture::collect(StreamTag::Stdout, Some(b"a\r\nb\r\n"), at(1));
    assert_eq!(texts(&lines), vec!["a\r", "b\r"]);
}

#[test]
fn stamps_follow_the_clock() {
    let mut capture = LineCapture::new(StreamTag::Stderr);
    capture.feed(b"first\n", at(10));
    capture.feed(b"second\nthird\n", at(10));
    capture.feed(b"fourth\n", at(40));
    capture.feed(b"fifth", at(41));
    let lines = capture.finish(at(50));
    let stamps: Vec<Timestamp> = lines.iter().map(|l| l.captured_at).collect();
    assert_eq!(stamps, vec![at(10), at(10), at(10), at(40), at(50)]);
    for pair in lines.windows(2) {
        assert!(pair[0].captured_at.not_after(&pair[1].captured_at));
    }
}

#[test]
fn a_clock_that_steps_back_shows_in_the_stamps() {
    let mut capture = LineCapture::new(StreamTag::Stderr);
    capture.feed(b"first\n", at(30));
    capture.feed(b"second\n", at(10));
    let lines = capture.finish(at(20));
    let stamps: Vec<Timestamp> = lines.iter().map(|l| l.captured_at).collect();
    assert_eq!(stamps, vec![at(30), at(10)]);
}

#[test]
fn the_pieces_do_not_matter() {
    let stream: &[u8] = b"alpha\nbeta gamma\n\ndelta";
    let whole = LineCapture::collect(StreamTag::Stdout, Some(stream), at(1));
    for cut in 0..=stream.len() {
        let mut capture = LineCapture::new(StreamTag::Stdout);
        capture.feed(&stream[..cut], at(1));
        capture.feed(&stream[cut..], at(1));
        assert_eq!(capture.finish(at(1)), whole);
    }
    let mut bytewise = LineCapture::new(StreamTag::Stdout);
    for b in stream {
        bytewise.feed(&[*b], at(1));
    }
    assert_eq!(bytewise.finish(at(1)), whole);
}

#[test]
fn captured_text_is_the_text_that_was_written() {
    let stream = "building…\nétape 2\n\n✓ done\n".as_bytes();
    let mut capture = LineCapture::new(StreamTag::Stdout);
    capture.feed(&stream[..9], at(1));
    capture.feed(&stream[9..10], at(2));
    capture.feed(&stream[10..], at(3));
    let lines = capture.finish(at(4));
    assert_eq!(texts(&lines), vec!["building…", "étape 2", "", "✓ done"]);
    assert_eq!(written(&lines), stream);
}

#[test]
fn an_unterminated_stream_comes_back_with_one_terminator_more() {
    let stream: &[u8] = b"a\nb";
    let lines = LineCapture::collect(StreamTag::Stdout, Some(stream), at(1));
    assert_eq!(written(&lines), b"a\nb\n");
}

#[test]
fn a_character_cut_in_two_is_read_whole() {
    let mut capture = LineCapture::new(StreamTag::Stdout);
    capture.feed(&[0xC3], at(1));
    capture.feed(&[0xA9, b'\n'], at(2));
    assert_eq!(texts(capture.lines()), vec!["é"]);
}

#[test]
fn bytes_that_are_no_text_are_replaced() {
    let mut capture = LineCapture::new(StreamTag::Stdout);
    capture.feed(&[b'a', 0xFF, b'b', b'\n'], at(1));
    assert_eq!(texts(capture.lines()), vec!["a\u{FFFD}b"]);
}

#[test]
fn no_stream_gives_no_lines() {
    assert!(LineCapture::collect(StreamTag::Stdout, None, at(1)).is_empty());
    assert!(LineCapture::collect(StreamTag::Stderr, Some(b""), at(1)).is_empty());
}

#[test]
fn collect_stamps_every_line_alike() {
    let lines = LineCapture::collect(StreamTag::Stderr, Some(b"x\ny\nz"), at(7));
    assert_eq!(
        lines,
        vec![
            TimestampedLine { stream: StreamTag::Stderr, captured_at: at(7), text: "x".to_string() },
            TimestampedLine { stream: StreamTag::Stderr, captured_at: at(7), text: "y".to_string() },
            TimestampedLine { stream: StreamTag::Stderr, captured_at: at(7), text: "z".to_string() },
        ]
    );
}

#[test]
fn streams_have_names() {
    assert_eq!(StreamTag::Stdout.name(), "stdout");
    assert_eq!(StreamTag::Stderr.name(), "stderr");
}

#[test]
fn a_captured_line_is_logged_under_its_stream() {
    let line = TimestampedLine {
        stream: StreamTag::Stderr,
        captured_at: Timestamp::new(2016, 3, 9, 10, 0, 7, 250_000_000).unwrap(),
        text: "warning: slow".to_string(),
    };
    assert_eq!(
        line.log("deployer-site-all"),
        Some("[2016-03-09 10:00:07.250][deployer-site-all][stderr] warning: slow".to_string())
    );
}
