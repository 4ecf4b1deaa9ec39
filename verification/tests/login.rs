use line_gtk::login::{qr_failure_text, qr_png, QrFailure};

#[test]
fn sign_in_links_become_qr_pictures() {
    let bytes = qr_png("https://line.me/R/au/lgn/sq/abcdef0123456789?secret=xyz&e2eeVersion=1").unwrap();
    assert_eq!(&bytes[..8], &[0x89, b'P', b'N', b'G', 0x0D, 0x0A, 0x1A, 0x0A]);
    let decoder = png::Decoder::new(std::io::Cursor::new(bytes));
    let reader = decoder.read_info().unwrap();
    let info = reader.info();
    assert_eq!(info.width, info.height);
    assert!(info.width >= 280);
}

#[test]
fn links_too_long_for_a_qr_code_are_refused() {
    let long = "x".repeat(5000);
    assert_eq!(qr_png(&long), Err("qr encode: data too long".to_string()));
    assert_eq!(qr_failure_text(QrFailure::InvalidEciDesignator), "invalid ECI designator");
}
