use copycat::lines::LineExtractor;
use std::cell::Cell;

fn hide_digits(line: &str) -> String {
    line.chars().map(|c| if c.is_ascii_digit() { '*' } else { c }).collect()
}

#[test]
fn the_first_lines_are_kept_up_to_the_limit() {
    let mut extractor = LineExtractor::new(3);
    assert!(extractor.wants_more());
    assert!(extractor.feed("one", hide_digits));
    assert!(extractor.feed("two", hide_digits));
    assert!(!extractor.feed("three", hide_digits));
    assert!(!extractor.wants_more());
    assert!(!extractor.feed("four", hide_digits));
    assert!(!extractor.feed("five", hide_digits));
    assert_eq!(extractor.into_lines(), vec!["one", "two", "three"]);
}

#[test]
fn a_short_paste_is_kept_whole() {
    let mut extractor = LineExtractor::new(40_000);
    assert!(extractor.feed("only line", hide_digits));
    assert!(extractor.wants_more());
    assert_eq!(extractor.into_lines(), vec!["only line"]);
    assert!(LineExtractor::new(5).into_lines().is_empty());
}

#[test]
fn an_extractor_without_room_keeps_nothing() {
    let mut extractor = LineExtractor::new(0);
    assert!(!extractor.wants_more());
    assert!(!extractor.feed("dropped", hide_digits));
    assert!(extractor.into_lines().is_empty());
}

#[test]
fn every_kept_line_is_redacted() {
    let mut extractor = LineExtractor::new(2);
    extractor.feed("Player joined from 192.168.1.20:25565", hide_digits);
    extractor.feed("no address here", hide_digits);
    assert_eq!(
        extractor.into_lines(),
        vec!["Player joined from ***.***.*.**:*****", "no address here"]
    );
}

#[test]
fn lines_beyond_the_limit_are_not_even_redacted() {
    let calls = Cell::new(0u32);
    let mut extractor = LineExtractor::new(2);
    for line in ["a", "b", "c", "d", "e"] {
        extractor.feed(line, |line: &str| {
            calls.set(calls.get() + 1);
            line.to_uppercase()
        });
    }
    assert_eq!(calls.get(), 2);
    assert_eq!(extractor.into_lines(), vec!["A", "B"]);
}

#[test]
fn a_reader_that_stops_when_told_reads_no_more_than_the_limit() {
    let source: Vec<String> = (0..100).map(|i| format!("line {}", i)).collect();
    let mut extractor = LineExtractor::new(7);
    let mut read = 0;
    let mut lines = source.iter();
    while extractor.wants_more() {
        match lines.next() {
            Some(line) => {
                read += 1;
                extractor.feed(line, |line: &str| line.to_string());
            }
            None => break,
        }
    }
    assert_eq!(read, 7);
    assert_eq!(extractor.into_lines(), source[..7].to_vec());
}
