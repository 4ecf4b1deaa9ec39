use line_gtk::events::{call_button, Pane};
use line_gtk::i18n::I18n;
use line_gtk::listing::{
    chats_loaded, day_key, format_day_separator, format_msg_time, last_incoming_id, messages_loaded,
    relative_day_text, sort_by_time, starts_new_day, to_epoch_secs,
};
use line_gtk::protocol::{ChatInfo, MessageInfo};
use line_gtk::listing::{album_messages, album_title, sort_newest_first};

fn table() -> Option<I18n> {
    Some(I18n::load(
        Some(r#"{"no_chats": "No chats", "status_no_chats": "Nothing here", "status_chats_cache": "{n} chats (cached)", "status_chats_latest": "{n} chats", "no_messages": "No messages", "empty": "Empty", "messages_count": "{n} messages", "preview_photo": "Picture", "day_today": "Today", "day_yesterday": "Yesterday", "voice_call": "Call", "voice_call_note": "beta", "voice_call_unavailable": "Calls unavailable"}"#),
        None,
    ))
}

fn chat(mid: &str, name: &str, last: i64, preview: &str) -> ChatInfo {
    ChatInfo {
        mid: mid.to_string(),
        name: name.to_string(),
        kind: "dm".to_string(),
        avatar_path: None,
        last_activity: last,
        unread: 0,
        preview: preview.to_string(),
        muted: false,
        pinned: false,
    }
}

fn msg(id: &str, created_time: i64, mine: bool) -> MessageInfo {
    MessageInfo {
        id: id.to_string(),
        text: String::new(),
        from: String::new(),
        to: String::new(),
        chat_mid: String::new(),
        sender_name: String::new(),
        mine,
        created_time,
        content_type: "TEXT".to_string(),
        image_path: None,
        image_url: None,
        audio_path: None,
        file_name: None,
        file_path: None,
        duration_ms: None,
        flex: None,
    }
}

fn ids(list: &[MessageInfo]) -> Vec<String> {
    list.iter().map(|m| m.id.clone()).collect()
}

#[test]
fn loaded_chats_are_pinned_sorted_and_localized() {
    let t = table();
    let pinned = vec!["u3".to_string()];
    let v = chats_loaded(&t, vec![chat("u1", "A", 5, "Photo"), chat("u2", "B", 9, ""), chat("u3", "C", 1, "hi")], &pinned, true);
    let mids: Vec<String> = v.chats.iter().map(|c| c.mid.clone()).collect();
    assert_eq!(mids, vec!["u3", "u2", "u1"]);
    assert!(v.chats[0].pinned);
    assert_eq!(v.chats[2].preview, "Picture");
    assert_eq!(v.chats[1].preview, "");
    assert_eq!(v.pane, Pane::List);
    assert_eq!(v.empty_text, None);
    assert_eq!(v.status, "3 chats (cached)");
    let fresh = chats_loaded(&t, vec![chat("u1", "A", 5, "")], &Vec::new(), false);
    assert_eq!(fresh.status, "1 chats");
}

#[test]
fn an_empty_chat_list_shows_the_empty_page() {
    let t = table();
    let v = chats_loaded(&t, Vec::new(), &Vec::new(), false);
    assert!(v.chats.is_empty());
    assert_eq!(v.pane, Pane::Empty);
    assert_eq!(v.empty_text.as_deref(), Some("No chats"));
    assert_eq!(v.status, "Nothing here");
}

#[test]
fn messages_sort_oldest_first_and_keep_ties_in_order() {
    let sorted = sort_by_time(vec![msg("c", 30, false), msg("a", 10, false), msg("b1", 20, true), msg("b2", 20, false)]);
    assert_eq!(ids(&sorted), vec!["a", "b1", "b2", "c"]);
}

#[test]
fn finds_the_newest_incoming_message() {
    let list = vec![msg("1", 1, false), msg("2", 2, false), msg("3", 3, true)];
    assert_eq!(last_incoming_id(&list).as_deref(), Some("2"));
    assert_eq!(last_incoming_id(&vec![msg("1", 1, true)]), None);
}

#[test]
fn loaded_messages_remember_the_list_shown() {
    let t = table();
    let current = Some("c1".to_string());
    let v = messages_loaded(&t, &current, vec![msg("9", 90, true), msg("5", 50, false), msg("7", 70, false)]);
    assert_eq!(ids(&v.messages), vec!["5", "7", "9"]);
    assert_eq!(v.shown, Some(("c1".to_string(), 3, "5".to_string(), "9".to_string())));
    assert_eq!(v.pane, Pane::List);
    assert_eq!(v.subtitle, "3 messages");
    assert_eq!(v.last_incoming.as_deref(), Some("7"));
    assert_eq!(v.empty_text, None);

    let empty = messages_loaded(&t, &None, Vec::new());
    assert_eq!(empty.shown, None);
    assert_eq!(empty.pane, Pane::Empty);
    assert_eq!(empty.empty_text.as_deref(), Some("No messages"));
    assert_eq!(empty.subtitle, "Empty");
    assert_eq!(empty.last_incoming, None);
}

#[test]
fn message_times_in_milliseconds_become_seconds() {
    assert_eq!(to_epoch_secs(1_700_000_000_000), 1_700_000_000);
    assert_eq!(to_epoch_secs(1_700_000_000), 1_700_000_000);
    assert_eq!(to_epoch_secs(1_000_000_000_000), 1_000_000_000_000);
}

#[test]
fn days_and_times_of_messages() {
    assert_eq!(format_msg_time(0), "");
    assert_eq!(format_msg_time(-5), "");
    assert!(format_msg_time(1_700_000_000_000).ends_with('M'));
    let key = day_key(1_700_000_000_000);
    assert_eq!(key.len(), 10);
    assert_eq!(&key[4..5], "-");
    let t = table();
    assert!(!format_day_separator(&t, 1_000_000_000_000).is_empty());
}

#[test]
fn today_and_yesterday_have_words() {
    let t = table();
    assert_eq!(relative_day_text(&t, 738000, 738000).as_deref(), Some("Today"));
    assert_eq!(relative_day_text(&t, 737999, 738000).as_deref(), Some("Yesterday"));
    assert_eq!(relative_day_text(&t, 737998, 738000), None);
    assert_eq!(relative_day_text(&t, 738001, 738000), None);
}

#[test]
fn a_new_day_gets_one_separator() {
    let mut last = None;
    assert!(starts_new_day(&mut last, 10, "2024-01-01".to_string()));
    assert_eq!(last.as_deref(), Some("2024-01-01"));
    assert!(!starts_new_day(&mut last, 20, "2024-01-01".to_string()));
    assert!(starts_new_day(&mut last, 30, "2024-01-02".to_string()));
    assert!(!starts_new_day(&mut last, 0, "1970-01-01".to_string()));
    assert_eq!(last.as_deref(), Some("2024-01-02"));
}

#[test]
fn the_call_button_follows_the_open_chat() {
    let t = table();
    let chats = vec![chat("u1", "A", 1, ""), chat("c2", "Group", 1, "")];
    let b = call_button(&t, false, &chats, &Some("u1".to_string()));
    assert!(!b.visible && !b.sensitive && b.tooltip.is_none());
    let b = call_button(&t, true, &chats, &Some("u1".to_string()));
    assert!(b.visible && b.sensitive);
    assert_eq!(b.tooltip.as_deref(), Some("Call: beta"));
    let b = call_button(&t, true, &chats, &Some("c2".to_string()));
    assert!(b.visible && !b.sensitive);
    assert_eq!(b.tooltip.as_deref(), Some("Calls unavailable"));
}

fn media(id: &str, kind: &str, created_time: i64, image: bool) -> MessageInfo {
    let mut m = msg(id, created_time, false);
    m.content_type = kind.to_string();
    if image {
        m.image_path = Some(format!("/m/{id}.jpg"));
    }
    m
}

#[test]
fn the_album_shows_pictures_and_videos_newest_first() {
    let list = vec![
        media("a", "image", 10, true),
        media("b", "VIDEO", 30, true),
        media("c", "IMAGE", 20, false),
        media("d", "FILE", 40, true),
        media("e", "Image", 30, true),
        media("f", "IMAGE", 50, true),
    ];
    let on_disk = vec![true, true, true, true, true, false];
    let ids: Vec<String> = album_messages(list, &on_disk).iter().map(|m| m.id.clone()).collect();
    assert_eq!(ids, vec!["b", "e", "a"]);
    let sorted = sort_newest_first(vec![msg("x", 1, false), msg("y", 2, false), msg("z", 1, false)]);
    assert_eq!(ids_of(&sorted), vec!["y", "x", "z"]);
}

fn ids_of(list: &[MessageInfo]) -> Vec<String> {
    list.iter().map(|m| m.id.clone()).collect()
}

#[test]
fn the_album_is_titled_after_the_chat() {
    let t = Some(I18n::load(Some(r#"{"chat_album": "Album"}"#), None));
    let chats = vec![chat("u1", "Ann", 1, "")];
    assert_eq!(album_title(&t, &chats, &Some("u1".to_string())), "Album · Ann");
    assert_eq!(album_title(&t, &chats, &Some("u9".to_string())), "Album");
    assert_eq!(album_title(&t, &chats, &None), "Album");
}

#[test]
fn times_chrono_cannot_show_give_empty_texts() {
    let t = table();
    assert_eq!(day_key(i64::MAX), "");
    assert_eq!(format_msg_time(i64::MAX), "");
    assert_eq!(format_day_separator(&t, i64::MAX), "");
    assert!(!day_key(1_700_000_000_000).is_empty());
}

#[test]
fn each_message_shows_once() {
    let mut seen: Vec<String> = Vec::new();
    assert!(line_gtk::listing::first_showing(&mut seen, "7"));
    assert!(!line_gtk::listing::first_showing(&mut seen, "7"));
    assert!(line_gtk::listing::first_showing(&mut seen, ""));
    assert!(line_gtk::listing::first_showing(&mut seen, ""));
    assert_eq!(seen, vec!["7".to_string()]);
}

#[test]
fn a_finished_download_stands_in_for_a_missing_picture() {
    let mut m = msg("1", 1, false);
    line_gtk::listing::use_ready_picture(&mut m, false, Some("/m/1.full.jpg".to_string()), true);
    assert_eq!(m.image_path.as_deref(), Some("/m/1.full.jpg"));
    let mut m = msg("2", 1, false);
    m.image_path = Some("/m/2.jpg".to_string());
    line_gtk::listing::use_ready_picture(&mut m, true, Some("/m/2.full.jpg".to_string()), true);
    assert_eq!(m.image_path.as_deref(), Some("/m/2.jpg"));
    line_gtk::listing::use_ready_picture(&mut m, false, Some("/m/2.full.jpg".to_string()), false);
    assert_eq!(m.image_path.as_deref(), Some("/m/2.jpg"));
    line_gtk::listing::use_ready_picture(&mut m, false, Some("/m/2.full.jpg".to_string()), true);
    assert_eq!(m.image_path.as_deref(), Some("/m/2.full.jpg"));
}

#[test]
fn message_times_in_a_given_zone() {
    let t = table();
    let ts = 1_700_000_000_000; // 2023-11-14 22:13:20 UTC
    assert_eq!(line_gtk::listing::day_key_at(ts, 0), "2023-11-14");
    assert_eq!(line_gtk::listing::day_key_at(ts, 7200), "2023-11-15");
    assert_eq!(line_gtk::listing::format_msg_time_at(ts, 0), "10:13 PM");
    assert_eq!(line_gtk::listing::format_msg_time_at(ts, 3600), "11:13 PM");
    assert_eq!(line_gtk::listing::format_msg_time_at(0, 0), "");
    let sep = |now: Option<(i64, i32)>| line_gtk::listing::day_separator_at(&t, ts, 0, now);
    assert_eq!(sep(Some((1_700_000_000, 0))), "Today");
    assert_eq!(sep(Some((1_700_000_000 + 86_400, 0))), "Yesterday");
    assert_eq!(sep(Some((1_700_000_000 + 2 * 86_400, 0))), "Tue, Nov 14");
    assert_eq!(sep(None), "Tue, Nov 14");
    assert_eq!(line_gtk::listing::day_separator_at(&t, i64::MAX, 0, None), "");
}
