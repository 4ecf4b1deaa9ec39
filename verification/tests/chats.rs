use line_gtk::chats::{
    bump_unread, can_call, chat_position, clear_unread, filter_chats, activity_label, format_activity, merge_chat, msg_id_le,
    next_read_mark, order_chat_list, promote_chat_to_top, restore_last_chat_step, set_chat_muted,
    set_chat_preview, set_pinned, sort_chats, upsert_chat, RestoreStep, Upsert,
};
use line_gtk::protocol::ChatInfo;
use line_gtk::chats::{chat_row, mute_toggle, pin_toggle, read_mark_target, set_chat_pinned, MuteToggle};
use line_gtk::i18n::I18n;

fn chat(mid: &str, name: &str, last: i64, pinned: bool) -> ChatInfo {
    ChatInfo {
        mid: mid.to_string(),
        name: name.to_string(),
        kind: "dm".to_string(),
        avatar_path: None,
        last_activity: last,
        unread: 0,
        preview: String::new(),
        muted: false,
        pinned,
    }
}

fn mids(list: &[ChatInfo]) -> Vec<String> {
    list.iter().map(|c| c.mid.clone()).collect()
}

#[test]
fn sorts_pinned_then_recent_then_name() {
    let list = vec![
        chat("u1", "Bob", 10, false),
        chat("u2", "Amy", 10, false),
        chat("u3", "Zed", 50, false),
        chat("u4", "Pin", 1, true),
    ];
    assert_eq!(mids(&sort_chats(list)), vec!["u4", "u3", "u2", "u1"]);
}

#[test]
fn finds_chats_by_mid() {
    let list = vec![chat("u1", "A", 1, false), chat("u2", "B", 2, false)];
    assert_eq!(chat_position(&list, "u2"), Some(1));
    assert_eq!(chat_position(&list, "u9"), None);
}

#[test]
fn promotes_below_pinned_chats() {
    let mut list = vec![chat("p", "P", 1, true), chat("a", "A", 9, false), chat("b", "B", 5, false)];
    let moved = promote_chat_to_top(&mut list, "b");
    assert_eq!(moved, Some((2, 1)));
    assert_eq!(mids(&list), vec!["p", "b", "a"]);
    assert_eq!(promote_chat_to_top(&mut list, "zz"), None);
    assert_eq!(mids(&list), vec!["p", "b", "a"]);
}

#[test]
fn upserts_new_and_known_chats() {
    let mut list = vec![chat("p", "P", 1, true), chat("a", "A", 9, false)];
    match upsert_chat(&mut list, chat("n", "New", 20, false)) {
        Upsert::Inserted { at } => assert_eq!(at, 1),
        other => panic!("unexpected {:?}", other),
    }
    assert_eq!(mids(&list), vec!["p", "n", "a"]);
    let mut update = chat("a", "Renamed", 30, false);
    update.preview = "hi".to_string();
    assert!(matches!(upsert_chat(&mut list, update), Upsert::Updated { .. }));
    assert_eq!(mids(&list), vec!["p", "a", "n"]);
    assert_eq!(list[1].name, "Renamed");
    assert_eq!(list[1].preview, "hi");
}

#[test]
fn merges_only_meaningful_fields() {
    let mut cur = chat("a", "Alice", 10, false);
    cur.preview = "old".to_string();
    cur.muted = true;
    let new = chat("a", "a", 5, false);
    let merged = merge_chat(cur, new);
    assert_eq!(merged.name, "Alice");
    assert_eq!(merged.preview, "old");
    assert_eq!(merged.last_activity, 10);
    assert!(merged.muted);
}

#[test]
fn counts_unread_and_mutes() {
    let mut list = vec![chat("a", "A", 1, false)];
    assert_eq!(bump_unread(&mut list, "a"), 1);
    assert_eq!(bump_unread(&mut list, "a"), 2);
    assert_eq!(bump_unread(&mut list, "zz"), 1);
    clear_unread(&mut list, "a");
    assert_eq!(list[0].unread, 0);
    set_chat_muted(&mut list, "a", true);
    assert!(list[0].muted);
    set_chat_preview(&mut list, "a", "new text".to_string(), 99);
    assert_eq!(list[0].preview, "new text");
    assert_eq!(list[0].last_activity, 99);
    set_chat_preview(&mut list, "a", "older".to_string(), 5);
    assert_eq!(list[0].last_activity, 99);
}

#[test]
fn compares_message_ids_numerically() {
    assert!(msg_id_le("9", "10"));
    assert!(!msg_id_le("10", "9"));
    assert!(msg_id_le("abc", "abd"));
    assert!(msg_id_le("5", "5"));
    assert_eq!(next_read_mark("c", "12", Some("10".to_string())), Some("12".to_string()));
    assert_eq!(next_read_mark("c", "9", Some("10".to_string())), Some("10".to_string()));
    assert_eq!(next_read_mark("", "12", None), None);
    assert_eq!(next_read_mark("c", "12", None), Some("12".to_string()));
}

#[test]
fn filters_chats_by_name_or_preview() {
    let mut a = chat("a", "Alice", 1, false);
    a.preview = "See you".to_string();
    let b = chat("b", "Bob", 2, false);
    let list = vec![a, b];
    assert_eq!(filter_chats(&list, "  ALI "), vec![true, false]);
    assert_eq!(filter_chats(&list, "you"), vec![true, false]);
    assert_eq!(filter_chats(&list, "   "), vec![true, true]);
}

#[test]
fn pins_and_unpins() {
    let pins = vec!["a".to_string(), "b".to_string(), "a".to_string()];
    assert_eq!(set_pinned(pins.clone(), "a", false), vec!["b".to_string()]);
    assert_eq!(set_pinned(pins, "a", true), vec!["b".to_string(), "a".to_string()]);
    let list = vec![chat("x", "X", 9, false), chat("y", "Y", 1, false)];
    let ordered = order_chat_list(list, &vec!["y".to_string()]);
    assert_eq!(mids(&ordered), vec!["y", "x"]);
    assert!(ordered[0].pinned);
}

#[test]
fn restores_the_last_chat() {
    let list = vec![chat("a", "A", 1, false), chat("b", "B", 2, false)];
    assert!(matches!(restore_last_chat_step(true, false, true, "b", &list), RestoreStep::Wait));
    assert!(matches!(restore_last_chat_step(false, true, true, "b", &list), RestoreStep::Finish));
    assert!(matches!(restore_last_chat_step(false, false, false, "b", &list), RestoreStep::Wait));
    assert!(matches!(restore_last_chat_step(false, false, true, "", &list), RestoreStep::Finish));
    assert!(matches!(restore_last_chat_step(false, false, true, "b", &list), RestoreStep::Open(1)));
    assert!(matches!(restore_last_chat_step(false, false, true, "z", &list), RestoreStep::Wait));
}

#[test]
fn calls_only_direct_chats() {
    let mut bot = chat("ubot", "Bot", 1, false);
    bot.kind = "bot".to_string();
    let list = vec![chat("u1", "A", 1, false), chat("c1", "G", 1, false), bot];
    assert!(can_call(&list, &Some("u1".to_string())));
    assert!(!can_call(&list, &Some("c1".to_string())));
    assert!(!can_call(&list, &Some("ubot".to_string())));
    assert!(!can_call(&list, &None));
}

#[test]
fn formats_relative_activity() {
    let now = 1_700_000_000i64;
    assert_eq!(activity_label(0, now), "");
    assert_eq!(activity_label((now - 30) * 1000, now), "now");
    assert_eq!(activity_label((now - 120) * 1000, now), "2m");
    assert_eq!(activity_label((now - 7200) * 1000, now), "2h");
    assert_eq!(activity_label((now - 3 * 86400) * 1000, now), "3d");
    assert_eq!(activity_label((now + 500) * 1000, now), "now");
    assert_eq!(activity_label(1_000_000 * 1000, now), "01/12");
}

#[test]
fn activity_is_measured_against_the_clock() {
    assert_eq!(format_activity(0), "");
    let now_ms = std::time::SystemTime::now().duration_since(std::time::UNIX_EPOCH).unwrap().as_millis() as i64;
    assert_eq!(format_activity(now_ms), "now");
    assert_eq!(format_activity(now_ms - 3 * 3_600_000), "3h");
}

#[test]
fn the_mute_button_flips_direct_chats_only() {
    let t = Some(I18n::load(Some(r#"{"mute_dm_only": "Direct chats only"}"#), None));
    let mut muted = chat("u2", "B", 1, false);
    muted.muted = true;
    let list = vec![chat("u1", "A", 1, false), muted, chat("c3", "G", 1, false)];
    assert!(matches!(mute_toggle(&t, &list, &None), MuteToggle::Nothing));
    match mute_toggle(&t, &list, &Some("u1".to_string())) {
        MuteToggle::Request { mid, muted } => {
            assert_eq!(mid, "u1");
            assert!(muted);
        }
        other => panic!("unexpected {other:?}"),
    }
    match mute_toggle(&t, &list, &Some("u2".to_string())) {
        MuteToggle::Request { muted, .. } => assert!(!muted),
        other => panic!("unexpected {other:?}"),
    }
    match mute_toggle(&t, &list, &Some("c3".to_string())) {
        MuteToggle::DirectOnly(msg) => assert_eq!(msg, "Direct chats only"),
        other => panic!("unexpected {other:?}"),
    }
}

#[test]
fn the_pin_button_flips_the_open_chat() {
    let mut list = vec![chat("u1", "A", 1, false), chat("u2", "B", 1, true)];
    assert_eq!(pin_toggle(&list, &None), None);
    assert_eq!(pin_toggle(&list, &Some("u1".to_string())), Some(("u1".to_string(), true)));
    assert_eq!(pin_toggle(&list, &Some("u2".to_string())), Some(("u2".to_string(), false)));
    assert_eq!(pin_toggle(&list, &Some("u9".to_string())), Some(("u9".to_string(), true)));
    set_chat_pinned(&mut list, "u1", true);
    assert!(list[0].pinned);
    set_chat_pinned(&mut list, "u2", false);
    assert!(!list[1].pinned);
}

#[test]
fn reading_marks_the_newest_incoming_message() {
    assert_eq!(read_mark_target(true, &Some("42".to_string())), Some("42".to_string()));
    assert_eq!(read_mark_target(false, &Some("42".to_string())), None);
    assert_eq!(read_mark_target(true, &Some(String::new())), None);
    assert_eq!(read_mark_target(true, &None), None);
}

#[test]
fn chat_rows_show_badges_pins_and_previews() {
    let t = Some(I18n::load(Some(r#"{"unpin_chat": "Unpin", "loading_last": "Loading…", "no_recent": "Nothing yet", "preview_photo": "Picture"}"#), None));
    let mut c = chat("u1", "A", 0, true);
    c.unread = 12;
    let r = chat_row(&t, &c);
    assert_eq!(r.badge, "12");
    assert!(r.badge_visible);
    assert_eq!(r.pin_tooltip.as_deref(), Some("Unpin"));
    assert_eq!(r.preview, "Nothing yet");
    assert_eq!(r.time, "");
    let mut d = chat("u2", "B", 1_000, false);
    d.preview = "Photo".to_string();
    let r = chat_row(&t, &d);
    assert_eq!(r.badge, "");
    assert!(!r.badge_visible);
    assert_eq!(r.pin_tooltip, None);
    assert_eq!(r.preview, "Picture");
    let e = chat("u3", "C", 5_000, false);
    assert_eq!(chat_row(&t, &e).preview, "Loading…");
}

#[test]
fn a_chat_is_made_visible_once() {
    let mut list = vec![chat("u1", "A", 5, true), chat("u2", "B", 4, false)];
    assert!(line_gtk::chats::ensure_chat_visible(&mut list, &chat("u3", "C", 9, false)));
    assert_eq!(mids(&list), vec!["u1", "u3", "u2"]);
    assert!(!line_gtk::chats::ensure_chat_visible(&mut list, &chat("u2", "Renamed", 99, true)));
    assert_eq!(mids(&list), vec!["u1", "u3", "u2"]);
    assert_eq!(list[2].name, "B");
}
