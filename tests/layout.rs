use ambisonic::hrir::{parse_hrir, split_bytes, FormatError};

fn text(v: &Vec<u8>) -> String {
    String::from_utf8(v.clone()).unwrap()
}

fn texts(v: &Vec<Vec<u8>>) -> Vec<String> {
    v.iter().map(text).collect()
}

#[test]
fn split_bytes_keeps_empty_pieces() {
    let pieces = split_bytes(b"a, b, , c", b", ");
    assert_eq!(texts(&pieces), vec!["a", "b", "", "c"]);
    let lines = split_bytes(b"x\n\ny\n", b"\n");
    assert_eq!(texts(&lines), vec!["x", "", "y", ""]);
    assert_eq!(texts(&split_bytes(b"", b"\n")), vec![""]);
}

#[test]
fn parses_two_speakers() {
    let data = b"48000\n\n0.7, 1, 0, 0\n0.5, 0.25\n0.125, 0.0625\n\n0.7, -1, 0, 0\n1\n2, 3, 4\n\n";
    let t = parse_hrir(data).unwrap();
    assert_eq!(text(&t.rate), "48000");
    assert_eq!(t.speakers.len(), 2);
    assert_eq!(texts(&t.speakers[0].weights), vec!["0.7", "1", "0", "0"]);
    assert_eq!(texts(&t.speakers[0].left), vec!["0.5", "0.25"]);
    assert_eq!(texts(&t.speakers[0].right), vec!["0.125", "0.0625"]);
    assert_eq!(texts(&t.speakers[1].weights), vec!["0.7", "-1", "0", "0"]);
    assert_eq!(texts(&t.speakers[1].left), vec!["1"]);
    assert_eq!(texts(&t.speakers[1].right), vec!["2", "3", "4"]);
}

#[test]
fn parses_without_final_line_break_after_separator() {
    let data = b"44100\n\n1, 0, 0, 0\n1\n1\n";
    let t = parse_hrir(data).unwrap();
    assert_eq!(text(&t.rate), "44100");
    assert_eq!(t.speakers.len(), 1);
}

#[test]
fn parses_data_set_without_speakers() {
    let t = parse_hrir(b"48000\n").unwrap();
    assert_eq!(t.speakers.len(), 0);
}

#[test]
fn rejects_missing_blank_line_after_rate() {
    assert_eq!(parse_hrir(b"48000").err(), Some(FormatError::MissingBlankLine));
    assert_eq!(
        parse_hrir(b"48000\n1, 0, 0, 0\n1\n1\n\n").err(),
        Some(FormatError::MissingBlankLine)
    );
}

#[test]
fn rejects_wrong_weight_count() {
    assert_eq!(
        parse_hrir(b"48000\n\n1, 0, 0\n1\n1\n\n").err(),
        Some(FormatError::WeightCount)
    );
    assert_eq!(
        parse_hrir(b"48000\n\n1, 0, 0, 0, 0\n1\n1\n\n").err(),
        Some(FormatError::WeightCount)
    );
}

#[test]
fn rejects_missing_response() {
    assert_eq!(
        parse_hrir(b"48000\n\n1, 0, 0, 0\n1\n\n").err(),
        Some(FormatError::MissingResponse)
    );
    assert_eq!(
        parse_hrir(b"48000\n\n1, 0, 0, 0\n1").err(),
        Some(FormatError::MissingResponse)
    );
}

#[test]
fn rejects_missing_separator_after_record() {
    assert_eq!(
        parse_hrir(b"48000\n\n1, 0, 0, 0\n1\n1").err(),
        Some(FormatError::MissingBlankLine)
    );
    assert_eq!(
        parse_hrir(b"48000\n\n1, 0, 0, 0\n1\n1\n1, 0, 0, 0").err(),
        Some(FormatError::MissingBlankLine)
    );
}

#[test]
fn rejects_trailing_data() {
    assert_eq!(
        parse_hrir(b"48000\n\n1, 0, 0, 0\n1\n1\n\n\nextra").err(),
        Some(FormatError::TrailingData)
    );
    assert_eq!(parse_hrir(b"48000\n\n\n\n").err(), Some(FormatError::TrailingData));
}
