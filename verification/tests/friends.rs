use line_gtk::friends::{
    bucket_ord, first_index_char, following_thai_consonant, friend_row_visibility, friend_rows,
    is_decorative, letter_bucket, sort_friends, FriendRow,
};
use line_gtk::protocol::ChatInfo;
use line_gtk::friends::{check_add_friend_id, friend_subtitle};
use line_gtk::i18n::I18n;

fn friend(mid: &str, name: &str) -> ChatInfo {
    ChatInfo {
        mid: mid.to_string(),
        name: name.to_string(),
        kind: "dm".to_string(),
        avatar_path: None,
        last_activity: 0,
        unread: 0,
        preview: String::new(),
        muted: false,
        pinned: false,
    }
}

#[test]
fn buckets_names_by_index_letter() {
    assert_eq!(letter_bucket("alice"), "A");
    assert_eq!(letter_bucket("  Zed"), "Z");
    assert_eq!(letter_bucket("กานต์"), "ก");
    assert_eq!(letter_bucket("เก่ง"), "ก");
    assert_eq!(letter_bucket("🌸 Mina"), "M");
    assert_eq!(letter_bucket("123"), "#");
    assert_eq!(letter_bucket(""), "#");
    assert_eq!(letter_bucket("ะ"), "#");
    assert_eq!(letter_bucket("เ"), "เ");
}

#[test]
fn finds_index_characters() {
    assert_eq!(first_index_char("  -•Bob"), Some('B'));
    assert_eq!(first_index_char("..."), Some('.'));
    assert_eq!(first_index_char("   "), None);
    assert_eq!(following_thai_consonant("ไม้"), Some('ม'));
    assert_eq!(following_thai_consonant("abc"), None);
    assert!(is_decorative('~'));
    assert!(!is_decorative('a'));
}

#[test]
fn orders_sections() {
    assert_eq!(bucket_ord('ก'), (0, 0));
    assert_eq!(bucket_ord('ฮ'), (0, 43));
    assert_eq!(bucket_ord('A'), (1, 0));
    assert_eq!(bucket_ord('#'), (2, 0));
    assert_eq!(bucket_ord('เ'), (3, 0));
}

#[test]
fn sorts_thai_then_latin_then_other() {
    let list = vec![friend("1", "zoe"), friend("2", "9lives"), friend("3", "ขวัญ"), friend("4", "Adam"), friend("5", "กอล์ฟ")];
    let sorted = sort_friends(list);
    let names: Vec<&str> = sorted.iter().map(|f| f.name.as_str()).collect();
    assert_eq!(names, vec!["กอล์ฟ", "ขวัญ", "Adam", "zoe", "9lives"]);
}

#[test]
fn builds_rows_with_headers_and_filters_them() {
    let friends = vec![friend("u1", "Amy"), friend("u2", "Andy"), friend("u3", "Bea")];
    let rows = friend_rows(&friends);
    let shape: Vec<String> = rows
        .iter()
        .map(|r| match r {
            FriendRow::Header(c) => format!("H{c}"),
            FriendRow::Friend(i) => format!("F{i}"),
        })
        .collect();
    assert_eq!(shape, vec!["HA", "F0", "F1", "HB", "F2"]);
    assert_eq!(friend_row_visibility(&rows, &friends, ""), vec![true; 5]);
    assert_eq!(friend_row_visibility(&rows, &friends, "BE"), vec![false, false, false, true, true]);
    assert_eq!(friend_row_visibility(&rows, &friends, "u2"), vec![true, false, true, false, false]);
    assert_eq!(friend_row_visibility(&rows, &friends, "nobody"), vec![false; 5]);
}

#[test]
fn friend_rows_say_what_a_tap_does() {
    let t = Some(I18n::load(Some(r#"{"friend_bot": "Official account", "friend_tap_chat": "Tap to chat"}"#), None));
    let mut bot = friend("u1", "Bot");
    bot.kind = "BOT".to_string();
    assert_eq!(friend_subtitle(&t, &bot), "Official account");
    assert_eq!(friend_subtitle(&t, &friend("u2", "Ann")), "Tap to chat");
}

#[test]
fn adding_a_friend_needs_an_id() {
    let t = Some(I18n::load(Some(r#"{"enter_line_id": "Type a LINE ID"}"#), None));
    assert_eq!(check_add_friend_id(&t, "   "), Err("Type a LINE ID".to_string()));
    assert_eq!(check_add_friend_id(&t, "  alice_01 \n"), Ok("alice_01".to_string()));
}
