use line_gtk::downloads::{download_candidate_path, join, sanitize_filename, stem_and_extension};

#[test]
fn sanitizes_paths_and_control_characters() {
    assert_eq!(sanitize_filename("../../secret\n.txt"), "_.._secret_.txt");
    assert_eq!(sanitize_filename(".."), "download.bin");
    assert_eq!(sanitize_filename(""), "download.bin");
}

#[test]
fn sanitize_trims_whitespace_then_dots() {
    assert_eq!(sanitize_filename("  report.pdf  "), "report.pdf");
    assert_eq!(sanitize_filename("...hidden..."), "hidden");
    assert_eq!(sanitize_filename("a\\b\0c"), "a_b_c");
    assert_eq!(sanitize_filename(" . "), "download.bin");
    assert_eq!(sanitize_filename("ok name.jpg"), "ok name.jpg");
}

#[test]
fn sanitized_names_never_hold_separators() {
    for raw in ["/etc/passwd", "..\\..\\x", "a/b/c", "\u{7}bell", "..", "."] {
        let out = sanitize_filename(raw);
        assert!(!out.is_empty());
        assert!(out != "." && out != "..");
        assert!(!out.contains('/') && !out.contains('\\') && !out.contains('\0'));
        assert!(!out.chars().any(|c| c.is_control()));
    }
}

#[test]
fn joins_like_path_join() {
    assert_eq!(join("/tmp", "a.txt"), "/tmp/a.txt");
    assert_eq!(join("/tmp/", "a.txt"), "/tmp/a.txt");
    assert_eq!(join("", "a.txt"), "a.txt");
    assert_eq!(join("/tmp", "/abs"), "/abs");
}

#[test]
fn splits_stem_and_extension() {
    let v: Vec<char> = "photo.jpg".chars().collect();
    assert_eq!(stem_and_extension(&v), ("photo".to_string(), ".jpg".to_string()));
    let v: Vec<char> = ".bashrc".chars().collect();
    assert_eq!(stem_and_extension(&v), (".bashrc".to_string(), String::new()));
    let v: Vec<char> = "archive.tar.gz".chars().collect();
    assert_eq!(stem_and_extension(&v), ("archive.tar".to_string(), ".gz".to_string()));
}

#[test]
fn numbers_candidate_destinations() {
    assert_eq!(download_candidate_path("/d", "photo.jpg", 0), "/d/photo.jpg");
    assert_eq!(download_candidate_path("/d", "photo.jpg", 1), "/d/photo-1.jpg");
    assert_eq!(download_candidate_path("/d", "photo.jpg", 9999), "/d/photo-9999.jpg");
    assert_eq!(download_candidate_path("/d", "photo.jpg", 10000), "/d/photo-dup.jpg");
    assert_eq!(download_candidate_path("/d", "README", 2), "/d/README-2");
}

#[test]
fn the_first_free_destination_is_chosen() {
    // photo.jpg exists: photo-1.jpg is chosen.
    assert_eq!(line_gtk::downloads::pick_download_dest("/d", "photo.jpg", &vec![true, false]), "/d/photo-1.jpg");
    assert_eq!(line_gtk::downloads::pick_download_dest("/d", "photo.jpg", &vec![false]), "/d/photo.jpg");
    assert_eq!(line_gtk::downloads::pick_download_dest("/d", "photo.jpg", &vec![true, true, true, false]), "/d/photo-3.jpg");
    assert_eq!(line_gtk::downloads::pick_download_dest("/d", "photo.jpg", &vec![true; 10000]), "/d/photo-dup.jpg");
    assert_eq!(line_gtk::downloads::first_free_candidate(&vec![true, true, false, false]), 2);
    assert_eq!(line_gtk::downloads::first_free_candidate(&vec![]), 0);
}
