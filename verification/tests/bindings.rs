use localize::Localize;
use localize::LocalizeText;

#[test]
fn binding_needs_refresh_before_first_render() {
    let data = "kw,note,English,German\nhello,,Hi,Hallo\n";
    let l = Localize::from_data(data).unwrap();
    let b = LocalizeText::from_section("hello");
    assert!(b.needs_refresh(l.current_language()));
}

#[test]
fn refresh_is_idempotent_until_language_changes() {
    let data = "kw,note,English,German\nhello,,Hi,Hallo\n";
    let mut l = Localize::from_data(data).unwrap();
    let mut b = LocalizeText::from_section("hello");
    let shown = b.refresh(&l);
    assert_eq!(shown, vec!["Hi".to_string()]);
    assert!(!b.needs_refresh(l.current_language()));
    l.set_language("German");
    assert!(b.needs_refresh(l.current_language()));
    let shown = b.refresh(&l);
    assert_eq!(shown, vec!["Hallo".to_string()]);
    assert!(!b.needs_refresh(l.current_language()));
}

#[test]
fn refresh_with_unchanged_index_needs_no_rerender() {
    let data = "kw,note,English,German\nhello,,Hi,Hallo\n";
    let mut l = Localize::from_data(data).unwrap();
    let mut b = LocalizeText::from_section("hello");
    b.refresh(&l);
    l.set_data("kw,note,English,German\nhello,,Howdy,Hallo2\n").unwrap();
    assert!(!b.needs_refresh(l.current_language()));
}

#[test]
fn multi_section_binding_renders_in_order() {
    let data = "kw,note,English,German\nhello,,Hi,Hallo\nbye,,Bye,Tschuess\n";
    let mut l = Localize::from_data(data).unwrap();
    let mut b = LocalizeText::from_sections(vec!["bye".to_string(), "hello".to_string(), "missing".to_string()]);
    let shown = b.refresh(&l);
    assert_eq!(shown, vec!["Bye".to_string(), "Hi".to_string(), String::new()]);
    l.set_language("German");
    let shown = b.refresh(&l);
    assert_eq!(shown, vec!["Tschuess".to_string(), "Hallo".to_string(), String::new()]);
}

#[test]
fn binding_keywords_are_kept_in_order() {
    let b = LocalizeText::from_sections(vec!["a".to_string(), "b".to_string()]);
    assert_eq!(b.keywords(), &vec!["a".to_string(), "b".to_string()]);
}
