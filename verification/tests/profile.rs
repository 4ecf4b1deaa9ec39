use line_gtk::i18n::I18n;
use line_gtk::profile::{apply_profile_relation, profile_chat, sender_profile_intro, ProfileReply, ProfileTarget};
use line_gtk::sticker_picker::{sticker_tabs, StickerItem, StickerPack};

fn table() -> Option<I18n> {
    Some(I18n::load(
        Some(r#"{"profile_openchat_private_unavailable": "Private", "profile_self": "You", "profile_checking": "Checking", "profile_add_success": "Added", "profile_friend": "Friend", "profile_blocked": "Blocked", "profile_not_friend": "Not a friend", "stickers_recent": "Recent"}"#),
        None,
    ))
}

fn empty_reply() -> ProfileReply {
    ProfileReply {
        mid: None,
        display_name: None,
        avatar_path: None,
        status_message: None,
        is_friend: None,
        blocked: None,
        can_add: None,
        can_chat: None,
    }
}

fn target() -> ProfileTarget {
    ProfileTarget { mid: "u1".to_string(), name: "Old".to_string(), avatar_path: None }
}

#[test]
fn the_profile_card_starts_with_what_the_message_knows() {
    let t = table();
    let p = sender_profile_intro(&t, "u1", "", "user", &None);
    assert_eq!(p.title, "u1");
    assert_eq!(p.account, "LINE · u1");
    assert!(p.lookup);
    assert_eq!(p.status, "Checking");
    let p = sender_profile_intro(&t, "u1", "Ann", "openchat", &None);
    assert_eq!(p.title, "Ann");
    assert_eq!(p.account, "OpenChat member · u1");
    assert!(!p.lookup);
    assert_eq!(p.status, "Private");
    let p = sender_profile_intro(&t, "c5", "Ann", "user", &None);
    assert!(!p.lookup);
    assert_eq!(p.status, "Private");
    let p = sender_profile_intro(&t, "u1", "Me", "user", &Some("u1".to_string()));
    assert!(!p.lookup);
    assert_eq!(p.status, "You");
}

#[test]
fn a_friend_can_chat_but_not_be_added() {
    let t = table();
    let mut tg = target();
    let mut reply = empty_reply();
    reply.mid = Some("u9".to_string());
    reply.display_name = Some("New".to_string());
    reply.avatar_path = Some("/a.png".to_string());
    reply.status_message = Some("hello".to_string());
    reply.is_friend = Some(true);
    reply.can_add = Some(true);
    let v = apply_profile_relation(&t, &mut tg, &reply, true, false);
    assert_eq!(tg.mid, "u9");
    assert_eq!(tg.name, "New");
    assert_eq!(tg.avatar_path.as_deref(), Some("/a.png"));
    assert_eq!(v.name.as_deref(), Some("New"));
    assert_eq!(v.avatar.as_deref(), Some("/a.png"));
    assert_eq!(v.bio, "hello");
    assert!(v.bio_visible);
    assert!(!v.add_visible);
    assert!(v.add_sensitive);
    assert!(v.chat_sensitive);
    assert_eq!(v.status, "Friend");
    assert!(v.toast.is_none());
}

#[test]
fn strangers_blocked_and_new_friends() {
    let t = table();
    let mut tg = target();
    let mut reply = empty_reply();
    reply.display_name = Some(String::new());
    reply.avatar_path = Some("/missing.png".to_string());
    reply.blocked = Some(true);
    let v = apply_profile_relation(&t, &mut tg, &reply, false, false);
    assert_eq!(tg.name, "Old");
    assert_eq!(tg.avatar_path, None);
    assert!(v.name.is_none() && v.avatar.is_none());
    assert_eq!(v.bio, "");
    assert!(!v.bio_visible);
    assert!(v.add_visible);
    assert!(!v.add_sensitive);
    assert!(!v.chat_sensitive);
    assert_eq!(v.status, "Blocked");
    let v = apply_profile_relation(&t, &mut tg, &empty_reply(), false, false);
    assert_eq!(v.status, "Not a friend");
    let mut closed = empty_reply();
    closed.can_add = Some(true);
    closed.can_chat = Some(false);
    let v = apply_profile_relation(&t, &mut tg, &closed, false, true);
    assert_eq!(v.status, "Added");
    assert_eq!(v.toast.as_deref(), Some("Added"));
    assert!(!v.add_visible);
    assert!(!v.add_sensitive);
    assert!(!v.chat_sensitive);
}

#[test]
fn the_private_chat_button_opens_a_direct_chat() {
    let tg = ProfileTarget { mid: "u3".to_string(), name: "Kim".to_string(), avatar_path: Some("/k.png".to_string()) };
    let c = profile_chat(&tg);
    assert_eq!(c.mid, "u3");
    assert_eq!(c.name, "Kim");
    assert_eq!(c.kind, "dm");
    assert_eq!(c.avatar_path.as_deref(), Some("/k.png"));
    assert_eq!(c.last_activity, 0);
    assert!(!c.pinned && !c.muted);
}

fn sticker(id: &str, pkg: &str, image: Option<&str>) -> StickerItem {
    StickerItem {
        sticker_id: id.to_string(),
        package_id: pkg.to_string(),
        version: None,
        image_path: image.map(|s| s.to_string()),
    }
}

#[test]
fn the_sticker_picker_has_one_tab_per_pack() {
    let t = table();
    let packs = vec![
        StickerPack {
            id: "__recent__".to_string(),
            name: Some("ignored".to_string()),
            recent: false,
            icon_path: Some("/i.png".to_string()),
            stickers: vec![sticker("1", "10", Some("/1.png")), sticker("", "10", None), sticker("2", "", None)],
        },
        StickerPack {
            id: "77".to_string(),
            name: None,
            recent: false,
            icon_path: Some(String::new()),
            stickers: vec![sticker("3", "77", Some(""))],
        },
        StickerPack { id: "78".to_string(), name: Some("Cats".to_string()), recent: true, icon_path: None, stickers: vec![] },
    ];
    let tabs = sticker_tabs(&t, packs);
    assert_eq!(tabs.len(), 3);
    assert_eq!(tabs[0].page_name, "pack-0");
    assert_eq!(tabs[0].title, "Recent");
    assert!(tabs[0].recent && tabs[0].load_now);
    assert_eq!(tabs[0].icon_path, None);
    assert_eq!(tabs[0].stickers.len(), 1);
    assert_eq!(tabs[0].stickers[0].image_path.as_deref(), Some("/1.png"));
    assert_eq!(tabs[1].page_name, "pack-1");
    assert_eq!(tabs[1].title, "Stickers");
    assert!(!tabs[1].recent && !tabs[1].load_now);
    assert_eq!(tabs[1].icon_path, None);
    assert_eq!(tabs[1].stickers[0].image_path, None);
    assert_eq!(tabs[2].title, "Recent");
    assert!(sticker_tabs(&t, Vec::new()).is_empty());
}
