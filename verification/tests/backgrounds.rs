use line_gtk::backgrounds::{
    background_choices, background_file_names, background_look, check_background_source, BackgroundLook, ChatBackground,
};

fn bg(preset: &str, path: &str) -> ChatBackground {
    ChatBackground { preset: preset.to_string(), image_path: path.to_string() }
}

#[test]
fn backgrounds_look_as_chosen() {
    assert_eq!(background_look(None, true), BackgroundLook::Default);
    assert_eq!(background_look(Some(&bg("default", "")), false), BackgroundLook::Default);
    assert_eq!(background_look(Some(&bg("mint", "")), false), BackgroundLook::Preset("line-chat-bg-mint".to_string()));
    assert_eq!(background_look(Some(&bg("custom", "/b/u1.image")), true), BackgroundLook::Custom("/b/u1.image".to_string()));
    assert_eq!(
        background_look(Some(&bg("custom", "/gone.image")), false),
        BackgroundLook::Preset("line-chat-bg-custom".to_string())
    );
}

#[test]
fn the_background_menu_marks_the_chosen_preset() {
    let v = background_choices("ocean");
    let names: Vec<&str> = v.iter().map(|c| c.preset).collect();
    assert_eq!(names, vec!["default", "mint", "ocean", "dusk", "graphite"]);
    assert_eq!(v[2].label_key, "chat_background_ocean");
    assert_eq!(v[2].swatch_class, "line-bg-swatch-ocean");
    assert!(v[2].selected);
    assert_eq!(v.iter().filter(|c| c.selected).count(), 1);
    assert!(background_choices("custom").iter().all(|c| !c.selected));
}

#[test]
fn background_pictures_are_checked() {
    assert_eq!(check_background_source(false, 10, true), Err("not a file".to_string()));
    assert_eq!(check_background_source(true, 32 * 1024 * 1024 + 1, true), Err("image is larger than 32 MB".to_string()));
    assert_eq!(check_background_source(true, 32 * 1024 * 1024, false), Err("unsupported image".to_string()));
    assert_eq!(check_background_source(true, 32 * 1024 * 1024, true), Ok(()));
}

#[test]
fn stored_backgrounds_are_named_after_the_chat() {
    assert_eq!(
        background_file_names("u1a2-b/../x"),
        Ok(("u1a2-bx.image".to_string(), ".u1a2-bx.image.tmp".to_string()))
    );
    assert_eq!(background_file_names("../"), Err("invalid chat id".to_string()));
    let long = "a".repeat(100);
    let (dest, _) = background_file_names(&long).unwrap();
    assert_eq!(dest, format!("{}.image", "a".repeat(80)));
}
