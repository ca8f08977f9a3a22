use songbook::chunk::chunk;
use songbook::chunk::ChunkingError;

#[test]
fn short_text_is_one_segment() {
    let segments = chunk(&String::from("abc"), 10).unwrap();
    assert_eq!(segments, vec![String::from("abc")]);
}

#[test]
fn splits_at_last_newline_within_limit() {
    let segments = chunk(&String::from("aaa\nbbb\ncc"), 5).unwrap();
    assert_eq!(
        segments,
        vec![String::from("aaa"), String::from("bbb"), String::from("cc")]
    );
}

#[test]
fn rejoining_segments_restores_the_text() {
    let text = String::from("first line\nsecond one\nthird\nx");
    let segments = chunk(&text, 12).unwrap();
    assert!(segments.len() > 1);
    for s in &segments {
        assert!(s.chars().count() <= 12);
    }
    let rejoined = segments.join("\n");
    assert_eq!(rejoined, text);
}

#[test]
fn earlier_newlines_stay_inside_a_segment() {
    let segments = chunk(&String::from("a\nb\ncd"), 4).unwrap();
    assert_eq!(segments, vec![String::from("a\nb"), String::from("cd")]);
}

#[test]
fn unbroken_text_over_the_limit_is_an_error() {
    let err = chunk(&String::from("aaaaaaa"), 3).unwrap_err();
    assert_eq!(err, ChunkingError);
}

#[test]
fn newline_too_late_is_an_error() {
    let err = chunk(&String::from("aaaaaaa\nb"), 3).unwrap_err();
    assert_eq!(err, ChunkingError);
}

#[test]
fn empty_text_is_one_empty_segment() {
    let segments = chunk(&String::from(""), 5).unwrap();
    assert_eq!(segments, vec![String::from("")]);
}

#[test]
fn zero_limit_splits_at_every_newline() {
    let segments = chunk(&String::from("\n\n"), 0).unwrap();
    assert_eq!(segments, vec![String::new(), String::new(), String::new()]);
    assert_eq!(segments.join("\n"), "\n\n");
}

#[test]
fn exact_limit_is_not_split() {
    let segments = chunk(&String::from("abcd"), 4).unwrap();
    assert_eq!(segments, vec![String::from("abcd")]);
}
