use line_gtk::locate::{
    full_image_candidates, gallery_items, gallery_messages, media_path_candidates, Candidate, Check, ViewerMediaItem,
};
use line_gtk::media::image_looks_low_res;
use line_gtk::protocol::MessageInfo;

fn message(id: &str, content_type: &str, created_time: i64) -> MessageInfo {
    MessageInfo {
        id: id.to_string(),
        text: String::new(),
        from: String::new(),
        to: String::new(),
        chat_mid: String::new(),
        sender_name: String::new(),
        mine: false,
        created_time,
        content_type: content_type.to_string(),
        image_path: None,
        image_url: None,
        audio_path: None,
        file_name: None,
        file_path: None,
        duration_ms: None,
        flex: None,
    }
}

fn plain(list: &[Candidate]) -> Vec<(String, Check)> {
    list.iter().map(|c| (c.path.clone(), c.check)).collect()
}

fn pairs(list: &[(&str, Check)]) -> Vec<(String, Check)> {
    list.iter().map(|(p, c)| (p.to_string(), *c)).collect()
}

#[test]
fn low_resolution_pictures() {
    assert!(!image_looks_low_res("/m/1.full.jpg", Some((10, 10))));
    assert!(image_looks_low_res("/m/1.THUMB.jpg", Some((4000, 4000))));
    assert!(image_looks_low_res("/m/1.jpg", Some((512, 512))));
    assert!(!image_looks_low_res("/m/1.jpg", Some((513, 100))));
    assert!(!image_looks_low_res("/m/1.jpg", None));
}

#[test]
fn a_preview_points_to_the_full_picture_beside_it() {
    let got = full_image_candidates("/m/123.thumb.jpg");
    let mut want = Vec::new();
    for ext in ["jpg", "jpeg", "png", "webp", "gif"] {
        want.push((format!("/m/123.full.{ext}"), Check::IsFile));
    }
    for ext in ["jpg", "jpeg", "png", "webp", "gif"] {
        want.push((format!("/m/123.{ext}"), Check::IsFileSharp));
    }
    assert_eq!(plain(&got), want);
}

#[test]
fn a_full_download_is_taken_first() {
    let got = full_image_candidates("/m/7.full.png");
    assert_eq!(got[0].path, "/m/7.full.png");
    assert_eq!(got[0].check, Check::Exists);
    assert_eq!(got[1].check, Check::ExistsSharp);
    assert_eq!(got[2].path, "/m/7.full.jpg");
    assert_eq!(got.len(), 7);
    assert_eq!(plain(&full_image_candidates("/m/.hidden")), pairs(&[("/m/.hidden", Check::ExistsSharp)]));
    assert_eq!(plain(&full_image_candidates("/")), pairs(&[("/", Check::ExistsSharp)]));
}

#[test]
fn voice_messages_use_their_audio_file() {
    let mut m = message("1", "audio", 0);
    m.file_path = Some("/m/1.bin".to_string());
    assert_eq!(plain(&media_path_candidates(&m, false)), pairs(&[("/m/1.bin", Check::Exists)]));
    m.audio_path = Some("/m/1.m4a".to_string());
    assert_eq!(plain(&media_path_candidates(&m, true)), pairs(&[("/m/1.m4a", Check::Exists)]));
}

#[test]
fn the_viewer_takes_only_a_full_video() {
    let mut m = message("1", "VIDEO", 0);
    m.file_path = Some("/m/1.MP4".to_string());
    m.image_path = Some("/m/1.thumb.jpg".to_string());
    assert_eq!(plain(&media_path_candidates(&m, true)), pairs(&[("/m/1.MP4", Check::Exists)]));
    assert_eq!(
        plain(&media_path_candidates(&m, false)),
        pairs(&[("/m/1.MP4", Check::Exists), ("/m/1.MP4", Check::Exists), ("/m/1.thumb.jpg", Check::Exists)])
    );
    m.file_path = Some("/m/1.mov".to_string());
    assert!(media_path_candidates(&m, true).is_empty());
}

#[test]
fn pictures_in_the_viewer_look_for_the_full_size() {
    let mut m = message("5", "IMAGE", 0);
    m.image_path = Some("/m/5.thumb.jpg".to_string());
    let got = media_path_candidates(&m, true);
    assert_eq!(got.len(), 10);
    assert_eq!(got[0].path, "/m/5.full.jpg");
    let shown = media_path_candidates(&m, false);
    assert_eq!(plain(&shown), pairs(&[("/m/5.thumb.jpg", Check::Exists)]));
    m.file_path = Some("/m/5.jpg".to_string());
    let got = media_path_candidates(&m, true);
    assert_eq!(got[0].path, "/m/5.jpg");
    assert_eq!(got[0].check, Check::ExistsSharp);
}

#[test]
fn the_gallery_holds_images_oldest_first() {
    let list = vec![message("b", "image", 20), message("t", "TEXT", 5), message("a", "Image", 10), message("c", "IMAGE", 20)];
    let got: Vec<String> = gallery_messages(list).iter().map(|m| m.id.clone()).collect();
    assert_eq!(got, vec!["a", "b", "c"]);
}

fn item(path: &str) -> ViewerMediaItem {
    ViewerMediaItem { path: path.to_string(), content_type: "IMAGE".to_string(), name: "x.jpg".to_string() }
}

#[test]
fn the_gallery_lists_each_file_once() {
    let msgs = vec![message("1", "IMAGE", 1), message("2", "IMAGE", 2), message("3", "IMAGE", 3), message("4", "IMAGE", 4)];
    let found = vec![
        Some(("/m/1.jpg".to_string(), "/real/1.jpg".to_string())),
        None,
        Some(("/link/1.jpg".to_string(), "/real/1.jpg".to_string())),
        Some(("/m/4.jpg".to_string(), "/real/4.jpg".to_string())),
    ];
    let (items, index) = gallery_items(&msgs, &found, item("/link/1.jpg"), "/real/1.jpg");
    let paths: Vec<String> = items.iter().map(|i| i.path.clone()).collect();
    assert_eq!(paths, vec!["/m/1.jpg", "/m/4.jpg"]);
    assert_eq!(index, 0);
    assert_eq!(items[1].name, "4.jpg");
    let (items, index) = gallery_items(&msgs, &found, item("/other.png"), "/other.png");
    assert_eq!(items.len(), 3);
    assert_eq!(index, 2);
    assert_eq!(items[2].path, "/other.png");
}
