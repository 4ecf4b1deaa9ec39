use line_gtk::i18n::I18n;
use line_gtk::outgoing::{check_media_send, outgoing_media_message, outgoing_sticker_message, review_item_name, ReviewQueue};
use line_gtk::outgoing::{outgoing_image_message, media_cache_name, paste_extension, paste_file_name, paste_kind, uri_list_entries, PasteKind};
use line_gtk::outgoing::{outgoing_voice_message, record_limit_reached, record_source, record_timer_text, voice_duration_ms, voice_file_ok};

fn table() -> Option<I18n> {
    Some(I18n::load(
        Some(r#"{"select_chat_first": "Pick a chat", "still_restoring": "Still restoring", "media_send_failed": "Could not send: {error}"}"#),
        None,
    ))
}

#[test]
fn sending_a_file_needs_a_chat_a_session_and_a_file() {
    let t = table();
    let chat = Some("u1".to_string());
    assert_eq!(check_media_send(&t, &None, true, true), Err("Pick a chat".to_string()));
    assert_eq!(check_media_send(&t, &chat, false, true), Err("Still restoring".to_string()));
    assert_eq!(check_media_send(&t, &chat, true, false), Err("Could not send: not a file".to_string()));
    assert_eq!(check_media_send(&t, &chat, true, true), Ok("u1".to_string()));
}

#[test]
fn a_sent_picture_shows_at_once() {
    let m = outgoing_media_message("u1", "/home/me/cat.png", "/cache/abc.png", "image", None, 1_700_000_000_000);
    assert_eq!(m.content_type, "IMAGE");
    assert_eq!(m.text, "[Image]");
    assert_eq!(m.image_path.as_deref(), Some("/cache/abc.png"));
    assert_eq!(m.file_path.as_deref(), Some("/cache/abc.png"));
    assert_eq!(m.audio_path, None);
    assert_eq!(m.file_name.as_deref(), Some("cat.png"));
    assert_eq!(m.to, "u1");
    assert!(m.mine);
    assert!(m.id.is_empty());
    assert_eq!(m.created_time, 1_700_000_000_000);
    let g = outgoing_media_message("u1", "/a.gif", "/c/a.gif", "gif", None, 1);
    assert_eq!(g.content_type, "IMAGE");
}

#[test]
fn sent_voice_video_and_files() {
    let v = outgoing_media_message("u1", "/rec.m4a", "/c/rec.m4a", "audio", Some(4200), 5);
    assert_eq!(v.content_type, "AUDIO");
    assert_eq!(v.text, "Voice message");
    assert_eq!(v.audio_path.as_deref(), Some("/c/rec.m4a"));
    assert_eq!(v.image_path, None);
    assert_eq!(v.duration_ms, Some(4200));
    let clip = outgoing_media_message("u1", "/clip.mp4", "/c/clip.mp4", "video", Some(10), 5);
    assert_eq!(clip.content_type, "VIDEO");
    assert_eq!(clip.text, "[Video]");
    assert_eq!(clip.image_path, None);
    assert_eq!(clip.audio_path, None);
    let doc = outgoing_media_message("u1", "/docs/report.pdf", "/c/report.pdf", "file", None, 5);
    assert_eq!(doc.content_type, "FILE");
    assert_eq!(doc.text, "report.pdf");
    let odd = outgoing_media_message("u1", "/", "/c/x", "file", None, 5);
    assert_eq!(odd.text, "file");
    assert_eq!(odd.file_name.as_deref(), Some("file"));
}

#[test]
fn a_sent_sticker_shows_at_once() {
    let s = outgoing_sticker_message("c9", Some("/stickers/1.png"), 7);
    assert_eq!(s.content_type, "STICKER");
    assert_eq!(s.text, "[Sticker]");
    assert_eq!(s.image_path.as_deref(), Some("/stickers/1.png"));
    assert_eq!(s.to, "c9");
    assert!(s.mine);
    let bare = outgoing_sticker_message("c9", None, 7);
    assert_eq!(bare.image_path, None);
}

#[test]
fn the_review_queue_holds_each_file_once() {
    let mut q = ReviewQueue::new();
    assert!(q.add("/tmp/a.png".to_string(), true));
    assert!(!q.add("/tmp/a.png".to_string(), true));
    assert!(!q.add("/tmp//a.png".to_string(), true));
    assert!(!q.add("/tmp/dir".to_string(), false));
    assert!(q.add("/tmp/b.pdf".to_string(), true));
    assert_eq!(q.paths, vec!["/tmp/a.png".to_string(), "/tmp/b.pdf".to_string()]);
    assert!(q.contains("/tmp/./a.png"));
    q.remove("/tmp//a.png");
    assert_eq!(q.paths, vec!["/tmp/b.pdf".to_string()]);
    q.remove("/tmp/none");
    assert_eq!(q.paths.len(), 1);
}

#[test]
fn the_review_shows_how_many_files_go() {
    let t = Some(I18n::load(Some(r#"{"media_review_count": "{n} files", "media_review_send": "Send {n}"}"#), None));
    let mut q = ReviewQueue::new();
    let c = q.controls(&t);
    assert_eq!(c.count, "0 files");
    assert_eq!(c.send_label, "Send 0");
    assert!(!c.send_sensitive);
    assert!(c.empty_visible);
    q.add("/x".to_string(), true);
    q.add("/y".to_string(), true);
    let c = q.controls(&t);
    assert_eq!(c.count, "2 files");
    assert_eq!(c.send_label, "Send 2");
    assert!(c.send_sensitive);
    assert!(!c.empty_visible);
    assert_eq!(review_item_name("/home/me/photo.jpg"), "photo.jpg");
    assert_eq!(review_item_name("/"), "file");
}

#[test]
fn cache_copies_get_safe_names() {
    assert_eq!(media_cache_name("/home/me/My Photo (1).JPG", 1700), "out-1700-MyPhoto1.JPG");
    assert_eq!(media_cache_name("/tmp/archive.tar.gz", 5), "out-5-archivetar.gz");
    assert_eq!(media_cache_name("/tmp/README", 5), "out-5-README.bin");
    assert_eq!(media_cache_name("/tmp/.profile", 5), "out-5-profile.bin");
    assert_eq!(media_cache_name("/", 5), "out-5-file.bin");
    let long = format!("/x/{}.png", "a".repeat(60));
    assert_eq!(media_cache_name(&long, 9), format!("out-9-{}.png", "a".repeat(40)));
}

#[test]
fn pasting_sends_files_before_pictures() {
    assert_eq!(paste_kind(false, true, true, true), PasteKind::Nothing);
    assert_eq!(paste_kind(true, false, true, true), PasteKind::Nothing);
    assert_eq!(paste_kind(true, true, true, true), PasteKind::Files);
    assert_eq!(paste_kind(true, true, false, true), PasteKind::Image);
    assert_eq!(paste_kind(true, true, false, false), PasteKind::Nothing);
}

#[test]
fn pasted_pictures_are_named_by_type() {
    assert_eq!(paste_extension("image/jpeg"), "jpg");
    assert_eq!(paste_extension("image/bmp"), "bmp");
    assert_eq!(paste_extension("image/tiff"), "tiff");
    assert_eq!(paste_extension("image/png"), "png");
    assert_eq!(paste_file_name(1700000000123, "jpg"), "paste-1700000000123.jpg");
}

#[test]
fn uri_lists_skip_comments_and_blank_lines() {
    let text = "# copied\r\nfile:///home/me/a.png\r\n\r\n  file:///home/me/b.pdf  \n#x\nfile:///c";
    assert_eq!(uri_list_entries(text), vec!["file:///home/me/a.png", "file:///home/me/b.pdf", "file:///c"]);
    assert!(uri_list_entries("").is_empty());
    assert_eq!(uri_list_entries("file:///x\n"), vec!["file:///x"]);
}

#[test]
fn voice_recording_rules() {
    assert_eq!(record_source(""), "default");
    assert_eq!(record_source("default"), "default");
    assert_eq!(record_source("alsa_input.usb"), "alsa_input.usb");
    assert_eq!(record_timer_text(0), "0:00");
    assert_eq!(record_timer_text(9), "0:09");
    assert_eq!(record_timer_text(59), "0:59");
    assert_eq!(record_timer_text(75), "1:00");
    assert!(!record_limit_reached(59));
    assert!(record_limit_reached(60));
    assert_eq!(voice_duration_ms(Some(120)), 500);
    assert_eq!(voice_duration_ms(Some(4321)), 4321);
    assert_eq!(voice_duration_ms(None), 2000);
    assert!(voice_file_ok(true, Some(1024)));
    assert!(!voice_file_ok(true, Some(1023)));
    assert!(!voice_file_ok(false, Some(4096)));
    assert!(!voice_file_ok(true, None));
}

#[test]
fn a_sent_voice_message_shows_at_once() {
    let m = outgoing_voice_message("u1", "/c/voice-out.m4a", 4321, 77);
    assert_eq!(m.content_type, "AUDIO");
    assert_eq!(m.text, "Voice message");
    assert_eq!(m.audio_path.as_deref(), Some("/c/voice-out.m4a"));
    assert_eq!(m.file_path.as_deref(), Some("/c/voice-out.m4a"));
    assert_eq!(m.file_name, None);
    assert_eq!(m.duration_ms, Some(4321));
    assert_eq!(m.created_time, 77);
    assert!(m.mine);
}

#[test]
fn a_sent_picture_from_the_viewer_shows_at_once() {
    let m = outgoing_image_message("u1", "/tmp/cat.png", "/c/out-1-cat.png", 9);
    assert_eq!(m.content_type, "IMAGE");
    assert_eq!(m.text, "[Image]");
    assert_eq!(m.image_path.as_deref(), Some("/c/out-1-cat.png"));
    assert_eq!(m.file_path.as_deref(), Some("/c/out-1-cat.png"));
    assert_eq!(m.file_name.as_deref(), Some("cat.png"));
    assert_eq!(outgoing_image_message("u1", "/", "/c/x", 9).file_name.as_deref(), Some("image.png"));
}

#[test]
fn a_media_send_carries_a_length_only_for_sound_and_video() {
    let t = Some(I18n::load(Some(r#"{"media_send_failed": "Could not send: {error}"}"#), None));
    let r = line_gtk::outgoing::media_send_request("u1", "/home/a.MP3", "/c/out-1-a.MP3", Some(4000));
    assert_eq!((r.chat_mid.as_str(), r.file_path.as_str(), r.o_type, r.duration_ms), ("u1", "/c/out-1-a.MP3", "audio", Some(4000)));
    let r = line_gtk::outgoing::media_send_request("u1", "/home/clip.mp4", "/c/x.mp4", Some(9));
    assert_eq!((r.o_type, r.duration_ms), ("video", Some(9)));
    let r = line_gtk::outgoing::media_send_request("u1", "/home/cat.png", "/c/x.png", Some(9));
    assert_eq!((r.o_type, r.duration_ms), ("image", None));
    let r = line_gtk::outgoing::media_send_request("u1", "/home/doc.pdf", "/c/x.pdf", None);
    assert_eq!((r.o_type, r.duration_ms), ("file", None));
    assert!(line_gtk::outgoing::wants_duration("video") && !line_gtk::outgoing::wants_duration("gif"));
    assert_eq!(line_gtk::outgoing::media_send_failed_text(&t, "disk full"), "Could not send: disk full");
}
