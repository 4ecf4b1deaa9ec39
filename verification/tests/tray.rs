use line_gtk::tray::{menu_label, mute_label, tray_menu, tray_title, truncate_name, TrayChatItem};

#[test]
fn escapes_underscores() {
    assert_eq!(menu_label("a_b__c"), "a__b____c");
    assert_eq!(menu_label("plain"), "plain");
}

#[test]
fn truncates_long_names() {
    assert_eq!(truncate_name("short", 28), "short");
    assert_eq!(truncate_name("abcdef", 4), "abc…");
    assert_eq!(truncate_name("ภาษาไทยยาว", 3), "ภา…");
    assert_eq!(truncate_name("abc", 0), "…");
}

#[test]
fn titles_and_mute_labels() {
    assert_eq!(tray_title(100, 50), "LINE GTK (muted)");
    assert_eq!(tray_title(0, 50), "LINE GTK");
    assert_eq!(mute_label(0, 50), "Mute notifications");
    assert_eq!(mute_label(50 + 61, 50), "Mute notifications (2m left)");
    assert_eq!(mute_label(50 + 3600, 50), "Mute notifications (1h left)");
    assert_eq!(mute_label(50 + 3601, 50), "Mute notifications (2h left)");
}

#[test]
fn builds_the_menu() {
    let recent = vec![
        TrayChatItem { mid: "u1".to_string(), name: "my_friend".to_string(), unread: 3 },
        TrayChatItem { mid: "u2".to_string(), name: "x".repeat(30), unread: 0 },
    ];
    let menu = tray_menu(&recent, 1000, 10, true);
    assert_eq!(menu.chats.len(), 2);
    assert_eq!(menu.chats[0].label, "my__friend (3)");
    assert_eq!(menu.chats[0].icon, "mail-unread-symbolic");
    assert_eq!(menu.chats[0].mid, "u1");
    assert_eq!(menu.chats[1].label, format!("{}…", "x".repeat(27)));
    assert_eq!(menu.chats[1].icon, "avatar-default-symbolic");
    assert!(menu.muted);
    assert_eq!(menu.mute_entries.len(), 6);
    assert_eq!(menu.mute_entries[0].secs, 0);
    assert_eq!(menu.mute_entries[0].label, "Unmute now");
    assert_eq!(menu.mute_entries[5].secs, 86400);
    assert!(menu.discord_rpc);
    let quiet = tray_menu(&Vec::new(), 0, 10, false);
    assert!(!quiet.muted);
    assert_eq!(quiet.mute_entries.len(), 5);
    assert_eq!(quiet.mute_entries[0].label, "Mute for 15 minutes");
    assert_eq!(quiet.mute_title, "Mute notifications");
}

#[test]
fn tray_mute_choices_set_the_deadline() {
    assert_eq!(line_gtk::tray::mute_deadline(0, 1_700_000_000), 0);
    assert_eq!(line_gtk::tray::mute_deadline(900, 1_700_000_000), 1_700_000_900);
}

#[test]
fn tray_icons_are_sent_as_argb() {
    assert_eq!(line_gtk::tray::rgba_to_argb(vec![1, 2, 3, 4, 5, 6, 7, 8]), vec![4, 1, 2, 3, 8, 5, 6, 7]);
    assert_eq!(line_gtk::tray::rgba_to_argb(vec![1, 2, 3, 4, 9, 9]), vec![4, 1, 2, 3, 9, 9]);
    assert!(line_gtk::tray::rgba_to_argb(Vec::new()).is_empty());
}

#[test]
fn tray_icons_come_from_png_files() {
    // A 1 x 1 RGBA PNG made with the png crate.
    let mut bytes = Vec::new();
    {
        let mut enc = png::Encoder::new(&mut bytes, 1, 1);
        enc.set_color(png::ColorType::Rgba);
        enc.set_depth(png::BitDepth::Eight);
        let mut w = enc.write_header().unwrap();
        w.write_image_data(&[10, 20, 30, 40]).unwrap();
    }
    let icon = line_gtk::tray::tray_icon_from_png(&bytes).unwrap();
    assert_eq!((icon.width, icon.height), (1, 1));
    assert_eq!(icon.data, vec![40, 10, 20, 30]);
    assert!(line_gtk::tray::tray_icon_from_png(b"not a png").is_none());
}
