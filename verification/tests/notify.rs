use line_gtk::notify::{notification_id, notification_plan, ChatNotification};

#[test]
fn notification_ids_are_stable_and_non_zero() {
    let a = notification_id("1234567890");
    assert_eq!(a, notification_id("1234567890"));
    assert!(a >= 1);
    assert_ne!(notification_id("a"), notification_id("b"));
    let mut h = std::collections::hash_map::DefaultHasher::new();
    std::hash::Hash::hash("m-1", &mut h);
    let expected = (std::hash::Hasher::finish(&h) as u32).max(1);
    assert_eq!(notification_id("m-1"), expected);
}

#[test]
fn plans_pictures_and_hints() {
    let request = ChatNotification {
        title: "Ann",
        body: "hi",
        avatar_path: Some("/a.png"),
        image_path: Some(""),
        chat_mid: "c1",
        message_id: "m1",
        suppress_sound: true,
    };
    let plan = notification_plan(&request, true, true);
    assert_eq!(plan.icon, "/a.png");
    assert_eq!(plan.image, None);
    assert_eq!(plan.id, notification_id("m1"));
    assert!(plan.suppress_sound);
    let plan = notification_plan(&request, false, true);
    assert_eq!(plan.icon, "line-gtk");
    let with_image = ChatNotification { image_path: Some("/p.jpg"), avatar_path: None, ..request };
    let plan = notification_plan(&with_image, true, true);
    assert_eq!(plan.icon, "line-gtk");
    assert_eq!(plan.image.as_deref(), Some("/p.jpg"));
    assert_eq!(notification_plan(&with_image, true, false).image, None);
}
