use ats_bot::image::is_image;

#[test]
fn recognises_magic_bytes() {
    assert!(is_image(&[0xFF, 0xD8, 0xFF]));
    assert!(is_image(&[0xFF, 0xD8, 0xFF, 0xE0]));
    assert!(is_image(&[0x89, 0x50, 0x4E, 0x47, 0x0D]));
    assert!(is_image(b"GIF89a"));
    assert!(!is_image(b"hello world"));
    assert!(!is_image(&[0xFF, 0xD8]));
    assert!(!is_image(&[0x89, 0x50, 0x4E]));
    assert!(!is_image(&[]));
}

#[test]
fn appended_bytes_do_not_change_the_verdict() {
    let mut png = vec![0x89, 0x50, 0x4E, 0x47];
    assert!(is_image(&png));
    png.extend_from_slice(b"anything at all");
    assert!(is_image(&png));
    let mut text = b"text".to_vec();
    text.extend_from_slice(&[0xFF, 0xD8, 0xFF]);
    assert!(!is_image(&text));
}
