use kindle_pult::FailureKind;
use kindle_pult::resolve::resolve_references;
use kindle_pult::resolve::resolve_references_lenient;
use kindle_pult::resolve::resolve_src;

#[test]
fn relative_reference_joins_against_base() {
    let content = Some("<img src=\"/a.png\">".to_string());
    let refs = resolve_references(&content, "https://example.com/dir/page.html")
        .expect("must resolve");
    assert_eq!(refs.len(), 1);
    assert_eq!(refs[0].raw_src, "/a.png");
    assert_eq!(refs[0].resolved_url, "https://example.com/a.png");
    assert_eq!(refs[0].local_path, None);
}

#[test]
fn absolute_reference_stays_unchanged() {
    let content = Some("<img src=\"https://cdn.example.com/b.jpg\">".to_string());
    let refs = resolve_references(&content, "https://example.com/dir/page.html")
        .expect("must resolve");
    assert_eq!(refs.len(), 1);
    assert_eq!(refs[0].resolved_url, "https://cdn.example.com/b.jpg");
}

#[test]
fn absent_content_gives_empty_sequence() {
    let refs = resolve_references(&None, "https://example.com/").expect("must resolve");
    assert_eq!(refs.len(), 0);
}

#[test]
fn image_without_src_fails_the_run() {
    let content = Some("<img src=\"/ok.png\"><img alt=\"no source\">".to_string());
    let err = resolve_references(&content, "https://example.com/").unwrap_err();
    assert_eq!(err, FailureKind::ImageReferenceInvalid);
}

#[test]
fn encounter_order_and_duplicates_are_kept() {
    let content = Some(
        "<p>x</p><img src=\"/one.png\"><div><img src=\"two.png\"></div><img src=\"/one.png\">"
            .to_string(),
    );
    let refs = resolve_references(&content, "https://example.com/dir/").expect("must resolve");
    assert_eq!(refs.len(), 3);
    assert_eq!(refs[0].resolved_url, "https://example.com/one.png");
    assert_eq!(refs[1].resolved_url, "https://example.com/dir/two.png");
    assert_eq!(refs[2].resolved_url, "https://example.com/one.png");
}

#[test]
fn unparseable_reference_is_invalid() {
    // an opening bracket makes the host unparseable, which is not the
    // relative-reference case, so no base resolution applies
    let err = resolve_src("http://[", "https://example.com/").unwrap_err();
    assert_eq!(err, FailureKind::ImageReferenceInvalid);
    let content = Some("<img src=\"http://[\">".to_string());
    let err = resolve_references(&content, "https://example.com/").unwrap_err();
    assert_eq!(err, FailureKind::ImageReferenceInvalid);
}

#[test]
fn relative_reference_with_unusable_base_is_invalid() {
    let err = resolve_src("a.png", "not a base").unwrap_err();
    assert_eq!(err, FailureKind::ImageReferenceInvalid);
}

#[test]
fn lenient_resolution_keeps_good_references_and_reports_the_rest() {
    let content = Some(
        "<img src=\"/one.png\"><img alt=\"no source\"><img src=\"http://[\"><img src=\"two.png\">"
            .to_string(),
    );
    let (refs, skipped) = resolve_references_lenient(&content, "https://example.com/dir/");
    assert_eq!(refs.len(), 2);
    assert_eq!(refs[0].resolved_url, "https://example.com/one.png");
    assert_eq!(refs[1].resolved_url, "https://example.com/dir/two.png");
    assert_eq!(skipped, vec!["".to_string(), "http://[".to_string()]);
}

#[test]
fn lenient_resolution_of_absent_content_is_empty() {
    let (refs, skipped) = resolve_references_lenient(&None, "https://example.com/");
    assert_eq!(refs.len(), 0);
    assert_eq!(skipped.len(), 0);
}
