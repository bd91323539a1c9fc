use kindle_pult::FailureKind;
use kindle_pult::urls::derive_filename;
use kindle_pult::urls::validate_url;

#[test]
fn empty_input_is_invalid() {
    assert_eq!(validate_url("").unwrap_err(), FailureKind::InvalidUrl);
}

#[test]
fn text_without_scheme_is_invalid() {
    assert_eq!(validate_url("not a url").unwrap_err(), FailureKind::InvalidUrl);
    assert_eq!(validate_url("example.com/story").unwrap_err(), FailureKind::InvalidUrl);
}

#[test]
fn valid_url_is_normalized() {
    assert_eq!(validate_url("https://example.com").unwrap(), "https://example.com/");
    assert_eq!(
        validate_url("HTTPS://Example.COM/Path/Story.html").unwrap(),
        "https://example.com/Path/Story.html"
    );
}

#[test]
fn filename_from_last_path_segment() {
    assert_eq!(derive_filename("https://example.com/a/b/story.html", "tmp.bin"), "story.html");
    assert_eq!(derive_filename("https://example.com/a/pic.png?x=1", "tmp.jpg"), "pic.png");
}

#[test]
fn filename_falls_back_without_usable_segment() {
    assert_eq!(derive_filename("https://example.com/", "tmp.bin"), "tmp.bin");
    assert_eq!(derive_filename("https://example.com", "tmp.bin"), "tmp.bin");
    assert_eq!(derive_filename("https://example.com/dir/", "tmp.bin"), "tmp.bin");
    assert_eq!(derive_filename("mailto:user@example.com", "tmp.bin"), "tmp.bin");
    assert_eq!(derive_filename("not a url", "tmp.bin"), "tmp.bin");
}
