use line_gtk::media::{
    adjacent_image_index, file_extension, format_outgoing_status, format_voice_duration,
    guess_media_o_type, is_full_media_path, is_previewable_image, is_thumb_media_path,
    localize_preview, media_review_icon, message_list_fingerprint, message_tracks_media,
    preview_body_ui, pulse_device_list, pulse_sinks, pulse_sources, reaction_choices, reaction_emoji,
    same_message_list, sample_is_text, suggest_media_name, viewer_kind_for, ViewerKind,
};
use line_gtk::i18n::I18n;
use line_gtk::protocol::MessageInfo;
use line_gtk::media::{file_card, message_has_actions, text_view_content};

fn message(id: &str, content_type: &str, text: &str) -> MessageInfo {
    MessageInfo {
        id: id.to_string(),
        text: text.to_string(),
        from: "u1".to_string(),
        to: "u2".to_string(),
        chat_mid: String::new(),
        sender_name: String::new(),
        mine: false,
        created_time: 0,
        content_type: content_type.to_string(),
        image_path: None,
        image_url: None,
        audio_path: None,
        file_name: None,
        file_path: None,
        duration_ms: None,
        flex: None,
    }
}

fn thai_table() -> Option<I18n> {
    Some(I18n::load(
        Some(r#"{"you": "คุณ", "they": "เขา", "preview_photo": "รูปภาพ", "status_read": "อ่านแล้ว", "status_sent": "ส่งแล้ว", "voice_message": "ข้อความเสียง"}"#),
        None,
    ))
}

#[test]
fn image_navigation_stops_at_gallery_edges() {
    assert_eq!(adjacent_image_index(1, 3, -1), Some(0));
    assert_eq!(adjacent_image_index(1, 3, 1), Some(2));
    assert_eq!(adjacent_image_index(0, 3, -1), None);
    assert_eq!(adjacent_image_index(2, 3, 1), None);
    assert_eq!(adjacent_image_index(0, 0, 1), None);
}

#[test]
fn gallery_steps_of_more_than_one() {
    assert_eq!(adjacent_image_index(5, 10, -5), Some(0));
    assert_eq!(adjacent_image_index(5, 10, 4), Some(9));
    assert_eq!(adjacent_image_index(5, 10, 5), None);
    assert_eq!(adjacent_image_index(usize::MAX, 3, 1), None);
}

#[test]
fn suggests_names_by_content_type() {
    assert_eq!(suggest_media_name(&message("42", "image", "")), "42.jpg");
    assert_eq!(suggest_media_name(&message("42", "VIDEO", "")), "42.mp4");
    assert_eq!(suggest_media_name(&message("42", "Audio", "")), "42.m4a");
    assert_eq!(suggest_media_name(&message("42", "FILE", "report.pdf")), "report.pdf");
    assert_eq!(suggest_media_name(&message("42", "FILE", "[File]")), "line-42");
    assert_eq!(suggest_media_name(&message("42", "STICKER", "")), "line-42");
    let mut named = message("42", "IMAGE", "");
    named.file_name = Some("holiday.png".to_string());
    assert_eq!(suggest_media_name(&named), "holiday.png");
    named.file_name = Some(String::new());
    assert_eq!(suggest_media_name(&named), "42.jpg");
}

#[test]
fn recognises_thumbnails_and_full_images() {
    assert!(is_thumb_media_path("/c/123.THUMB.jpg"));
    assert!(!is_thumb_media_path("/c/123.jpg"));
    assert!(is_full_media_path("/c/123.full.png"));
    assert!(!is_full_media_path("/c/123.png"));
}

#[test]
fn extensions_follow_path_rules() {
    assert_eq!(file_extension("/a/b/photo.JPG"), Some("JPG".to_string()));
    assert_eq!(file_extension("/a/.bashrc"), None);
    assert_eq!(file_extension("/a/b/"), None);
    assert_eq!(file_extension("/a/b.png/"), Some("png".to_string()));
    assert_eq!(file_extension("/a/b.png/."), Some("png".to_string()));
    assert_eq!(file_extension("noext"), None);
    assert_eq!(file_extension("a."), Some(String::new()));
    assert_eq!(file_extension(".."), None);
}

#[test]
fn guesses_attachment_types() {
    assert_eq!(guess_media_o_type("/x/a.GIF"), "gif");
    assert_eq!(guess_media_o_type("/x/a.heic"), "image");
    assert_eq!(guess_media_o_type("/x/a.mkv"), "video");
    assert_eq!(guess_media_o_type("/x/a.flac"), "audio");
    assert_eq!(guess_media_o_type("/x/a.pdf"), "file");
    assert_eq!(guess_media_o_type("/x/a"), "file");
    assert_eq!(media_review_icon("/x/a.mp4"), "video-x-generic-symbolic");
    assert_eq!(media_review_icon("/x/a.ogg"), "audio-x-generic-symbolic");
    assert_eq!(media_review_icon("/x/a.png"), "text-x-generic-symbolic");
    assert!(is_previewable_image("/x/a.TIFF"));
    assert!(!is_previewable_image("/x/a.mp4"));
}

#[test]
fn picks_viewers() {
    assert_eq!(viewer_kind_for("VIDEO", "/x/a", "a", b""), ViewerKind::Video);
    assert_eq!(viewer_kind_for("", "/x/a.png", "a.png", b""), ViewerKind::Image);
    assert_eq!(viewer_kind_for("", "/x/a.mp3", "", b""), ViewerKind::Audio);
    assert_eq!(viewer_kind_for("FILE", "/x/doc.PDF", "", b""), ViewerKind::Pdf);
    assert_eq!(viewer_kind_for("FILE", "/x/notes.md", "", b""), ViewerKind::Text);
    assert_eq!(viewer_kind_for("FILE", "/x/blob", "blob", b"hello world\n"), ViewerKind::Text);
    assert_eq!(viewer_kind_for("FILE", "/x/blob", "blob", b"\x00\x01\x02"), ViewerKind::Generic);
    assert_eq!(viewer_kind_for("OTHER", "/x/blob", "blob", b"hello"), ViewerKind::Generic);
}

#[test]
fn sniffs_text_samples() {
    assert!(!sample_is_text(b""));
    assert!(sample_is_text(b"plain text\r\n"));
    assert!(!sample_is_text(b"has\0zero"));
    let mostly: Vec<u8> = [b'a'; 9].iter().copied().chain([0xC3u8]).collect();
    assert!(sample_is_text(&mostly));
    let half: Vec<u8> = [b'a'; 5].iter().copied().chain([0xC3u8; 5]).collect();
    assert!(!sample_is_text(&half));
}

#[test]
fn reactions_have_emoji() {
    let choices = reaction_choices();
    assert_eq!(choices.len(), 6);
    assert_eq!(choices[0], ("NICE", "👍"));
    assert_eq!(reaction_emoji("LOVE"), "❤️");
    assert_eq!(reaction_emoji("OMG"), "😱");
    assert_eq!(reaction_emoji("nope"), "🙂");
}

#[test]
fn formats_voice_durations() {
    assert_eq!(format_voice_duration(0), "0:01");
    assert_eq!(format_voice_duration(499), "0:01");
    assert_eq!(format_voice_duration(1500), "0:02");
    assert_eq!(format_voice_duration(65_000), "1:05");
    assert_eq!(format_voice_duration(600_000), "10:00");
}

#[test]
fn fingerprints_message_lists() {
    let list = vec![message("1", "TEXT", "a"), message("2", "TEXT", "b"), message("3", "TEXT", "c")];
    assert_eq!(message_list_fingerprint(&list), (3, "1".to_string(), "3".to_string()));
    assert_eq!(message_list_fingerprint(&[]), (0, String::new(), String::new()));
    let shown = Some(("c1".to_string(), 3usize, "1".to_string(), "3".to_string()));
    assert!(same_message_list(&shown, "c1", &list));
    assert!(!same_message_list(&shown, "c2", &list));
    assert!(!same_message_list(&shown, "c1", &list[..2]));
    assert!(!same_message_list(&None, "c1", &list));
}

#[test]
fn tracks_media_messages() {
    assert!(message_tracks_media(&message("1", "sticker", "")));
    assert!(!message_tracks_media(&message("1", "TEXT", "hi")));
    let mut m = message("1", "TEXT", "hi");
    m.file_path = Some("/x".to_string());
    assert!(message_tracks_media(&m));
}

#[test]
fn previews_message_bodies() {
    let none: Option<I18n> = None;
    assert_eq!(preview_body_ui(&none, &message("1", "image", "")), "preview_photo");
    assert_eq!(preview_body_ui(&thai_table(), &message("1", "IMAGE", "")), "รูปภาพ");
    assert_eq!(preview_body_ui(&none, &message("1", "TEXT", "  hello  ")), "hello");
    assert_eq!(preview_body_ui(&none, &message("1", "", "   ")), "preview_message");
    assert_eq!(preview_body_ui(&none, &message("1", "Location", "")), "location");
    assert_eq!(preview_body_ui(&none, &message("1", "FLEX", " card ")), "card");
    let long = "x".repeat(70);
    let expected = format!("{}…", "x".repeat(63));
    assert_eq!(preview_body_ui(&none, &message("1", "TEXT", &long)), expected);
    assert_eq!(preview_body_ui(&none, &message("1", "TEXT", &"y".repeat(64))), "y".repeat(64));
}

#[test]
fn localizes_cached_previews() {
    let th = thai_table();
    assert_eq!(localize_preview(&th, "You: Photo"), "คุณ: รูปภาพ");
    assert_eq!(localize_preview(&th, "They: hello"), "เขา: hello");
    assert_eq!(localize_preview(&th, "Voice message"), "ข้อความเสียง");
    assert_eq!(localize_preview(&th, "Alice: Photo"), "Alice: รูปภาพ");
    assert_eq!(localize_preview(&th, "just text"), "just text");
    let none: Option<I18n> = None;
    assert_eq!(localize_preview(&none, "You: Photo"), "you: preview_photo");
}

#[test]
fn formats_delivery_status() {
    let th = thai_table();
    assert_eq!(format_outgoing_status(&th, true, "4:34 PM"), "✓✓ อ่านแล้ว 4:34 PM");
    assert_eq!(format_outgoing_status(&th, false, ""), "✓ ส่งแล้ว");
}

#[test]
fn lists_audio_devices() {
    let listing = "0\talsa_output.pci.analog-stereo\tmodule\ts16le\n1\talsa_output.pci.analog-stereo.monitor\tx\n\nbad\n";
    let sources = pulse_sources(listing);
    assert_eq!(
        sources,
        vec![
            ("default".to_string(), "Default".to_string()),
            ("alsa_output.pci.analog-stereo".to_string(), "alsa_output.pci.analog-stereo".to_string()),
        ]
    );
    let sinks = pulse_sinks(listing);
    assert_eq!(sinks.len(), 3);
    assert_eq!(sinks[2].0, "alsa_output.pci.analog-stereo.monitor");
    assert_eq!(pulse_device_list("sinks", ""), vec![("default".to_string(), "Default".to_string())]);
    assert_eq!(pulse_device_list("sinks", "7 speaker\r\n").len(), 2);
}

#[test]
fn file_cards_name_the_file_and_pick_an_icon() {
    let t = Some(I18n::load(Some(r#"{"preview_file": "File"}"#), None));
    let mut m = message("1", "FILE", "[File]");
    assert_eq!(file_card(&t, &m), ("File".to_string(), "folder-download-symbolic"));
    m.file_name = Some("report.PDF".to_string());
    assert_eq!(file_card(&t, &m), ("report.PDF".to_string(), "application-pdf-symbolic"));
    m.file_name = Some(String::new());
    m.text = "notes.txt".to_string();
    assert_eq!(file_card(&t, &m), ("notes.txt".to_string(), "text-x-generic-symbolic"));
    m.text = "song.mp3".to_string();
    assert_eq!(file_card(&t, &m).1, "audio-x-generic-symbolic");
}

#[test]
fn only_numbered_messages_get_the_message_menu() {
    assert!(message_has_actions("123456"));
    assert!(!message_has_actions(""));
    assert!(!message_has_actions("pending-7"));
}

#[test]
fn the_text_viewer_shows_at_most_the_start_of_a_file() {
    let t = Some(I18n::load(Some(r#"{"media_text_truncated": "(cut)", "file_read_failed": "Cannot read: {error}"}"#), None));
    assert_eq!(text_view_content(&t, Ok(b"hello\xff".to_vec()), Some(6)), "hello\u{fffd}");
    assert_eq!(text_view_content(&t, Err("denied".to_string()), None), "Cannot read: denied");
    let big = vec![b'a'; 1_500_010];
    let shown = text_view_content(&t, Ok(big), Some(1_500_010));
    assert!(shown.starts_with("(cut)\n\naaa"));
    assert_eq!(shown.len(), "(cut)\n\n".len() + 1_500_000);
}

#[test]
fn cached_previews_read_in_the_current_language() {
    let t = Some(I18n::load(
        Some(r#"{"you": "Me", "they": "Them", "preview_photo": "Picture", "no_recent": "Nothing yet"}"#),
        None,
    ));
    assert_eq!(localize_preview(&t, "You: Photo"), "Me: Picture");
    assert_eq!(localize_preview(&t, "They: hello"), "Them: hello");
    assert_eq!(localize_preview(&t, "No recent messages"), "Nothing yet");
    assert_eq!(localize_preview(&t, "hi there"), "hi there");
}
