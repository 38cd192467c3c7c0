use localize::Localize;

#[test]
fn unknown_keyword_is_empty_in_every_language() {
    let data = "kw,note,English,German\nhello,,Hi,Hallo\n";
    let mut l = Localize::from_data(data).unwrap();
    assert_eq!(l.get("missing"), "");
    l.set_language("German");
    assert_eq!(l.get("missing"), "");
}

#[test]
fn ragged_row_resolves_to_empty_for_missing_indices() {
    let data = "kw,note,English,German\nhello,,Hi,Hallo\nbye,farewell,Bye\n";
    let mut l = Localize::from_data(data).unwrap();
    assert_eq!(l.get("bye"), "Bye");
    l.set_language("German");
    assert_eq!(l.get("hello"), "Hallo");
    assert_eq!(l.get("bye"), "");
}

#[test]
fn row_with_keyword_only_resolves_to_empty() {
    let data = "kw,note,English\nsolo\n";
    let l = Localize::from_data(data).unwrap();
    assert_eq!(l.get("solo"), "");
}

#[test]
fn empty_store_answers_empty() {
    let l = Localize::empty();
    assert_eq!(l.get("anything"), "");
    assert_eq!(l.current_language(), 0);
    assert!(!l.is_ready());
}

#[test]
fn deferred_selection_applies_on_table_load() {
    let mut l = Localize::empty();
    l.set_language("German");
    assert_eq!(l.current_language(), 0);
    let data = "kw,note,English,German\nhello,,Hi,Hallo\n";
    l.set_data(data).unwrap();
    assert_eq!(l.current_language(), 1);
    assert_eq!(l.get("hello"), "Hallo");
}

#[test]
fn deferred_selection_waits_for_a_table_that_declares_it() {
    let mut l = Localize::empty();
    l.set_language("Dutch");
    let data = "kw,note,English,German\nhello,,Hi,Hallo\n";
    l.set_data(data).unwrap();
    assert_eq!(l.current_language(), 0);
    assert_eq!(l.get("hello"), "Hi");
    let wider = "kw,note,English,German,Dutch\nhello,,Hi,Hallo,Hoi\n";
    l.set_data(wider).unwrap();
    assert_eq!(l.current_language(), 2);
    assert_eq!(l.get("hello"), "Hoi");
}

#[test]
fn known_language_selection_clears_pending_name() {
    let mut l = Localize::empty();
    l.set_language("German");
    let data = "kw,note,English,German\nhello,,Hi,Hallo\n";
    l.set_data(data).unwrap();
    assert_eq!(l.current_language(), 1);
    l.set_language("English");
    assert_eq!(l.current_language(), 0);
    let again = "kw,note,English,German\nhello,,Hi2,Hallo2\n";
    l.set_data(again).unwrap();
    assert_eq!(l.current_language(), 0);
    assert_eq!(l.get("hello"), "Hi2");
}

#[test]
fn unknown_language_keeps_current_index() {
    let data = "kw,note,English,German\nhello,,Hi,Hallo\n";
    let mut l = Localize::from_data(data).unwrap();
    l.set_language("German");
    assert_eq!(l.get("hello"), "Hallo");
    l.set_language("Spanish");
    assert_eq!(l.current_language(), 1);
    assert_eq!(l.get("hello"), "Hallo");
}

#[test]
fn smaller_replacement_table_degrades_to_empty() {
    let data = "kw,note,English,German\nhello,,Hi,Hallo\n";
    let mut l = Localize::from_data(data).unwrap();
    l.set_language("German");
    assert_eq!(l.get("hello"), "Hallo");
    let narrow = "kw,note,English\nhello,,Hi\n";
    l.set_data(narrow).unwrap();
    assert_eq!(l.current_language(), 1);
    assert_eq!(l.get("hello"), "");
}

#[test]
fn resolve_pending_is_idempotent_without_pending() {
    let data = "kw,note,English,German\nhello,,Hi,Hallo\n";
    let mut l = Localize::from_data(data).unwrap();
    l.set_language("German");
    l.resolve_pending();
    assert_eq!(l.current_language(), 1);
    assert_eq!(l.get("hello"), "Hallo");
}
