use localize::Localize;
use localize::ParseError;
use localize::parser::parse;

#[test]
fn parse_is_deterministic() {
    let data = "kw,note,English,German\nhello,greeting,Hi,Hallo\nbye,farewell,Bye,Tschuess\n";
    let a = Localize::from_data(data).unwrap();
    let b = Localize::from_data(data).unwrap();
    for kw in ["hello", "bye", "missing"] {
        assert_eq!(a.get(kw), b.get(kw));
    }
    let mut a2 = a;
    let mut b2 = b;
    a2.set_language("German");
    b2.set_language("German");
    for kw in ["hello", "bye", "missing"] {
        assert_eq!(a2.get(kw), b2.get(kw));
    }
}

#[test]
fn parse_twice_yields_equal_tables() {
    let data = "kw,note,English,German\nhello,greeting,Hi,Hallo\nbye,farewell,Bye,Tschuess\n";
    let a = parse(data).unwrap();
    let b = parse(data).unwrap();
    assert_eq!(a, b);
    assert_eq!(a.langs, vec!["English".to_string(), "German".to_string()]);
    assert_eq!(a.words.len(), 2);
    assert_eq!(a.words[0].0, "hello");
    assert_eq!(a.words[0].1, vec!["Hi".to_string(), "Hallo".to_string()]);
}

#[test]
fn round_trip_two_languages() {
    let data = "kw,note,English,German\nhello,\"\",Hi,Hallo\n";
    let mut l = Localize::from_data(data).unwrap();
    assert_eq!(l.current_language(), 0);
    assert_eq!(l.get("hello"), "Hi");
    l.set_language("German");
    assert_eq!(l.current_language(), 1);
    assert_eq!(l.get("hello"), "Hallo");
}

#[test]
fn quoted_fields_with_separators() {
    let data = "kw,note,English\nlist,\"a, note\",\"one, two\"\n";
    let l = Localize::from_data(data).unwrap();
    assert_eq!(l.get("list"), "one, two");
}

#[test]
fn quoted_field_with_escaped_quote() {
    let data = "kw,note,English\nsay,,\"say \"\"hi\"\"\"\n";
    let l = Localize::from_data(data).unwrap();
    assert_eq!(l.get("say"), "say \"hi\"");
}

#[test]
fn quoted_field_with_line_break() {
    let data = "kw,note,English\npoem,,\"line one\nline two\"\n";
    let l = Localize::from_data(data).unwrap();
    assert_eq!(l.get("poem"), "line one\nline two");
}

#[test]
fn crlf_line_endings() {
    let data = "kw,note,English,German\r\nhello,,Hi,Hallo\r\n";
    let mut l = Localize::from_data(data).unwrap();
    assert_eq!(l.get("hello"), "Hi");
    l.set_language("German");
    assert_eq!(l.get("hello"), "Hallo");
}

#[test]
fn blank_lines_are_skipped() {
    let data = "kw,note,English\n\nhello,,Hi\n\n";
    let l = Localize::from_data(data).unwrap();
    assert_eq!(l.get("hello"), "Hi");
}

#[test]
fn missing_final_newline() {
    let data = "kw,note,English\nhello,,Hi";
    let l = Localize::from_data(data).unwrap();
    assert_eq!(l.get("hello"), "Hi");
}

#[test]
fn empty_input_is_missing_header() {
    assert_eq!(Localize::from_data("").unwrap_err(), ParseError::MissingHeader);
}

#[test]
fn header_without_reserved_columns_is_missing_header() {
    assert_eq!(Localize::from_data("kw\nhello\n").unwrap_err(), ParseError::MissingHeader);
}

#[test]
fn unterminated_quote_is_malformed() {
    assert_eq!(Localize::from_data("kw,note,English\nx,,\"oops\n").unwrap_err(), ParseError::Malformed);
}

#[test]
fn stray_text_after_closing_quote_is_malformed() {
    assert_eq!(Localize::from_data("kw,note,\"English\"x\n").unwrap_err(), ParseError::Malformed);
}

#[test]
fn lone_carriage_return_is_malformed() {
    assert_eq!(Localize::from_data("kw,note,English\rhello,,Hi\n").unwrap_err(), ParseError::Malformed);
}

#[test]
fn duplicate_keyword_last_occurrence_wins() {
    let data = "kw,note,English,German\nhello,,Old,Alt\nhello,,New,Neu\n";
    let mut l = Localize::from_data(data).unwrap();
    assert_eq!(l.get("hello"), "New");
    l.set_language("German");
    assert_eq!(l.get("hello"), "Neu");
}

#[test]
fn duplicate_language_last_occurrence_wins() {
    let data = "kw,note,Lang,Lang\nhello,,first,second\n";
    let mut l = Localize::from_data(data).unwrap();
    l.set_language("Lang");
    assert_eq!(l.current_language(), 1);
    assert_eq!(l.get("hello"), "second");
}

#[test]
fn non_ascii_text_survives_parsing() {
    let data = "kw,note,German\ngreet,,gr\u{00fc}\u{00df} dich\n";
    let mut l = Localize::from_data(data).unwrap();
    l.set_language("German");
    assert_eq!(l.get("greet"), "gr\u{00fc}\u{00df} dich");
}

#[test]
fn header_with_no_language_columns_parses() {
    let data = "kw,note\nhello,a note\n";
    let l = Localize::from_data(data).unwrap();
    assert_eq!(l.get("hello"), "");
}
