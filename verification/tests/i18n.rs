use line_gtk::i18n::{lang_file, lang_path, replace_all, set_lang, t, tf, I18n};

const THAI: &str = r#"{"hello": "สวัสดี {name}", "count": 3, "bye": "ลาก่อน"}"#;
const ENGLISH: &str = r#"{"hello": "Hello {name}", "bye": "Bye"}"#;

#[test]
fn looks_up_keys_and_falls_back_to_them() {
    let table = I18n::load(Some(THAI), Some(ENGLISH));
    assert_eq!(table.t("bye"), "ลาก่อน");
    assert_eq!(table.t("count"), "count");
    assert_eq!(table.t("missing_key"), "missing_key");
}

#[test]
fn falls_back_to_english_then_nothing() {
    let table = I18n::load(Some("not json"), Some(ENGLISH));
    assert_eq!(table.t("bye"), "Bye");
    let table = I18n::load(None, Some("[1, 2]"));
    assert_eq!(table.t("bye"), "bye");
    let table = I18n::load(Some("{}"), Some(ENGLISH));
    assert_eq!(table.t("bye"), "bye");
}

#[test]
fn fills_placeholders_in_order() {
    let table = I18n::load(Some(ENGLISH), None);
    assert_eq!(table.tf("hello", &[("name", "Ann")]), "Hello Ann");
    assert_eq!(table.tf("hello", &[]), "Hello {name}");
    assert_eq!(table.tf("hello", &[("other", "x")]), "Hello {name}");
    assert_eq!(table.tf("missing {a}", &[("a", "1")]), "missing 1");
}

#[test]
fn replaces_every_occurrence() {
    assert_eq!(replace_all("a{x}b{x}", "{x}", "-"), "a-b-");
    assert_eq!(replace_all("aaa", "aa", "b"), "ba");
    assert_eq!(replace_all("abc", "zz", "y"), "abc");
    assert_eq!(replace_all("", "a", "b"), "");
}

#[test]
fn current_language_helpers() {
    let mut current: Option<I18n> = None;
    assert_eq!(t(&current, "hello"), "hello");
    assert_eq!(tf(&current, "hello", &[("name", "x")]), "hello");
    set_lang(&mut current, Some(THAI), Some(ENGLISH));
    assert_eq!(t(&current, "bye"), "ลาก่อน");
    assert_eq!(tf(&current, "hello", &[("name", "Ann")]), "สวัสดี Ann");
}

#[test]
fn chooses_language_files() {
    assert_eq!(lang_file("th"), "thai.json");
    assert_eq!(lang_file("thai"), "thai.json");
    assert_eq!(lang_file("en"), "eng.json");
    assert_eq!(lang_file("TH"), "eng.json");
    assert_eq!(lang_path("/opt/app", "eng.json"), "/opt/app/assets/lang/eng.json");
    assert_eq!(lang_path("/opt/app/", "thai.json"), "/opt/app/assets/lang/thai.json");
}
