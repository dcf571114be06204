//! Format validation, MIME selection, data URLs, and the small
//! commands.

use images_manage::commands::{get_system_info, greet, login, ping};
use images_manage::image::{
    content_type_for, get_image_data, get_image_dimensions, mime_for_path, validate_image,
    validate_image_format,
};

#[test]
fn accepted_formats_by_extension_case_insensitive() {
    for p in [
        "/a/photo.jpg",
        "photo.JPEG",
        "x.png",
        "x.WEBP",
        "dir.with.dots/pic.Png",
    ] {
        assert_eq!(validate_image_format(p), Ok(true), "{}", p);
    }
    for p in ["a.txt", "noext", ".hidden", "a.png.gz", "dir.d/file"] {
        assert_eq!(validate_image_format(p), Ok(false), "{}", p);
    }
    assert_eq!(validate_image("/a/b.webp".to_string()), Ok(true));
}

#[test]
fn no_dimensions_are_probed() {
    assert_eq!(get_image_dimensions("/a/photo.jpg"), None);
}

#[test]
fn mime_table_follows_the_extension() {
    assert_eq!(mime_for_path("a.jpg"), "image/jpeg");
    assert_eq!(mime_for_path("a.jpeg"), "image/jpeg");
    assert_eq!(mime_for_path("a.png"), "image/png");
    assert_eq!(mime_for_path("a.webp"), "image/webp");
    assert_eq!(mime_for_path("a.gif"), "image/gif");
    // Unknown or absent extensions are served as JPEG; the table is
    // case-sensitive, as the store writes lower-case names.
    assert_eq!(mime_for_path("a.PNG"), "image/jpeg");
    assert_eq!(mime_for_path("noext"), "image/jpeg");
}

#[test]
fn data_url_encodes_the_bytes() {
    let url = get_image_data("x.png", &b"abc".to_vec());
    assert_eq!(url, "data:image/png;base64,YWJj");
    let empty = get_image_data("x.bin", &vec![]);
    assert_eq!(empty, "data:image/jpeg;base64,");
    let padded = get_image_data("x.jpg", &b"ab".to_vec());
    assert_eq!(padded, "data:image/jpeg;base64,YWI=");
}

#[test]
fn content_type_is_guessed_or_generic() {
    assert_eq!(content_type_for(&"a.png".to_string()), "image/png");
    assert_eq!(content_type_for(&"a.jpg".to_string()), "image/jpeg");
    assert_eq!(
        content_type_for(&"a.nosuchextension123".to_string()),
        "application/octet-stream"
    );
}

#[test]
fn greeting_and_ping() {
    assert_eq!(greet("World"), "Hello, World! You've been greeted from Rust!");
    assert_eq!(ping(), "pong");
}

#[test]
fn system_info_carries_the_versions() {
    let si = get_system_info("0.1.0".to_string(), "1.80".to_string());
    assert_eq!(si.version, "0.1.0");
    assert_eq!(si.rust_version, "1.80");
}

#[test]
fn login_checks_the_secret_and_mints_a_token() {
    let bad = login(&"guest".to_string(), 0);
    assert_eq!(bad.unwrap_err(), "wrong password");
    let tok = login(&"admin".to_string(), 0).expect("token");
    assert_eq!(tok, "{\"exp\":86400,\"sub\":\"admin\"}");
    let tok2 = login(&"admin".to_string(), 1_000_000).expect("token");
    assert_eq!(tok2, "{\"exp\":1086400,\"sub\":\"admin\"}");
}
