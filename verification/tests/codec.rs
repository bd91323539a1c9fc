use kindle_pult::article::Article;
use kindle_pult::codec::decode_article;
use kindle_pult::codec::encode_article;

fn article(
    title: Option<&str>,
    byline: Option<&str>,
    date: Option<&str>,
    content: Option<&str>,
    plain_content: Option<&str>,
) -> Article {
    Article {
        title: title.map(|s| s.to_string()),
        byline: byline.map(|s| s.to_string()),
        date: date.map(|s| s.to_string()),
        content: content.map(|s| s.to_string()),
        plain_content: plain_content.map(|s| s.to_string()),
    }
}

fn assert_same(a: &Article, b: &Article) {
    assert_eq!(a.title, b.title);
    assert_eq!(a.byline, b.byline);
    assert_eq!(a.date, b.date);
    assert_eq!(a.content, b.content);
    assert_eq!(a.plain_content, b.plain_content);
}

#[test]
fn round_trip_all_fields() {
    let a = article(
        Some("A Title"),
        Some("An Author"),
        Some("2021-03-04"),
        Some("<p>Hello</p>"),
        Some("Hello"),
    );
    let text = encode_article(&a);
    let back = decode_article(&text).expect("round trip must decode");
    assert_same(&a, &back);
}

#[test]
fn round_trip_all_absent() {
    let a = article(None, None, None, None, None);
    let text = encode_article(&a);
    assert_eq!(
        text,
        "{\"title\":null,\"byline\":null,\"date\":null,\"content\":null,\"plain_content\":null}"
    );
    let back = decode_article(&text).expect("round trip must decode");
    assert_same(&a, &back);
}

#[test]
fn round_trip_special_characters() {
    let a = article(
        Some("quote \" backslash \\ newline \n tab \t"),
        Some("control \u{8} and \u{c} and \r"),
        None,
        Some("unicode \u{e9} and beyond \u{1F600}"),
        None,
    );
    let text = encode_article(&a);
    let back = decode_article(&text).expect("round trip must decode");
    assert_same(&a, &back);
}

#[test]
fn encode_exact_text() {
    let a = article(Some("T"), None, None, Some("<img src=\"/a.png\">"), None);
    let text = encode_article(&a);
    assert_eq!(
        text,
        "{\"title\":\"T\",\"byline\":null,\"date\":null,\"content\":\"<img src=\\\"/a.png\\\">\",\"plain_content\":null}"
    );
}

#[test]
fn decode_whitespace_and_any_order() {
    let text = " {\n\t\"content\" : \"c\" ,\r\n \"title\" : null } ";
    let a = decode_article(text).expect("must decode");
    assert_eq!(a.title, None);
    assert_eq!(a.content, Some("c".to_string()));
    assert_eq!(a.byline, None);
}

#[test]
fn decode_empty_object() {
    let a = decode_article("{}").expect("must decode");
    assert_same(&a, &article(None, None, None, None, None));
}

#[test]
fn decode_skips_unknown_members() {
    let text = "{\"title\":\"t\",\"extra\":\"x\",\"another\":null,\"byline\":\"b\"}";
    let a = decode_article(text).expect("must decode");
    assert_eq!(a.title, Some("t".to_string()));
    assert_eq!(a.byline, Some("b".to_string()));
    assert_eq!(a.date, None);
}

#[test]
fn decode_repeated_member_last_wins() {
    let text = "{\"title\":\"a\",\"title\":\"b\"}";
    let a = decode_article(text).expect("must decode");
    assert_eq!(a.title, Some("b".to_string()));
}

#[test]
fn decode_simple_escapes() {
    let text = "{\"title\":\"q\\\" b\\\\ s\\/ n\\n r\\r t\\t b\\b f\\f\"}";
    let a = decode_article(text).expect("must decode");
    assert_eq!(a.title, Some("q\" b\\ s/ n\n r\r t\t b\u{8} f\u{c}".to_string()));
}

#[test]
fn decode_unicode_escapes() {
    let a = decode_article("{\"title\":\"caf\\u00e9\"}").expect("must decode");
    assert_eq!(a.title, Some("caf\u{e9}".to_string()));
    let b = decode_article("{\"title\":\"\\ud83d\\ude00\"}").expect("must decode");
    assert_eq!(b.title, Some("\u{1F600}".to_string()));
}

#[test]
fn decode_rejects_malformed() {
    assert!(decode_article("").is_none());
    assert!(decode_article("   ").is_none());
    assert!(decode_article("[]").is_none());
    assert!(decode_article("{").is_none());
    assert!(decode_article("{\"title\"}").is_none());
    assert!(decode_article("{\"title\":\"x\"").is_none());
    assert!(decode_article("{\"title\":\"x\"} trailing").is_none());
    assert!(decode_article("{\"title\":3}").is_none());
    assert!(decode_article("{\"title\":\"\\q\"}").is_none());
    assert!(decode_article("{\"title\":\"\\ud800\"}").is_none());
    assert!(decode_article("{\"title\":\"unterminated}").is_none());
    assert!(decode_article("{\"title\":null,}").is_none());
}

#[test]
fn decode_skips_unknown_members_of_any_shape() {
    let text = "{\"plain_text\":[{\"text\":\"para one\"},{\"text\":\"para two\"}],\"count\":3,\
                \"ok\":true,\"ratio\":-1.5e2,\"meta\":{\"tags\":[\"a\",\"b\"],\"none\":null},\
                \"title\":\"kept\"}";
    let a = decode_article(text).expect("must decode");
    assert_eq!(a.title, Some("kept".to_string()));
    assert_eq!(a.content, None);
}

#[test]
fn decode_rejects_overly_nested_unknown_member() {
    let mut text = String::from("{\"x\":");
    for _ in 0..200 {
        text.push('[');
    }
    for _ in 0..200 {
        text.push(']');
    }
    text.push('}');
    assert!(decode_article(&text).is_none());
    let mut shallow = String::from("{\"x\":");
    for _ in 0..50 {
        shallow.push('[');
    }
    for _ in 0..50 {
        shallow.push(']');
    }
    shallow.push('}');
    assert!(decode_article(&shallow).is_some());
}

#[test]
fn decode_known_member_must_be_string_or_null() {
    assert!(decode_article("{\"title\":[\"not a string\"]}").is_none());
    assert!(decode_article("{\"content\":7}").is_none());
}
