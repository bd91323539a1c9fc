use kindle_pult::FailureKind;
use kindle_pult::cmd::CalibreCmd;
use kindle_pult::cmd::ReadabiliPyCmd;
use kindle_pult::cmd::ReadabiliPyParser;
use kindle_pult::config::PultConf;

#[test]
fn extraction_command_with_mozilla_backend() {
    let cmd = ReadabiliPyCmd::new(ReadabiliPyParser::Mozilla);
    assert_eq!(
        cmd.command_string("page.html", "article.json"),
        "readabilipy  -i page.html -o article.json"
    );
}

#[test]
fn extraction_command_with_python_backend() {
    let cmd = ReadabiliPyCmd::new(ReadabiliPyParser::Python);
    assert_eq!(
        cmd.command_string("page.html", "article.json"),
        "readabilipy -p -i page.html -o article.json"
    );
}

#[test]
fn convert_command_text() {
    assert_eq!(
        CalibreCmd::convert_string("my story.html", "mobi"),
        "ebook-convert \"my story.html\" .mobi"
    );
}

#[test]
fn send_command_text() {
    let cfg = PultConf::default();
    assert_eq!(
        CalibreCmd::send_string("story", &cfg),
        "calibre-smtp -a \"story.mobi\" -s \"story\" -r \"smtp.gmail.com\" --port 587 -u \"user.name\" -p \"your-password\" \"user.name@gmail.com\" \"ebook-mail@kindle.com\" \"\""
    );
}

#[test]
fn default_configuration_values() {
    let cfg = PultConf::default();
    assert_eq!(cfg.del_sent, "false");
    assert_eq!(cfg.to_ext, "mobi");
    assert_eq!(cfg.smtp, "smtp.gmail.com");
    assert_eq!(cfg.port, "587");
    assert_eq!(cfg.username, "user.name");
    assert_eq!(cfg.password, "your-password");
    assert_eq!(cfg.from_mail, "user.name@gmail.com");
    assert_eq!(cfg.to_mail, "ebook-mail@kindle.com");
}

#[test]
fn configuration_dump_holds_every_field() {
    let cfg = PultConf::default();
    let map = cfg.dump_to_hashmap();
    assert_eq!(map.len(), 8);
    assert_eq!(map.get("smtp").map(|s| s.as_str()), Some("smtp.gmail.com"));
    assert_eq!(map.get("port").map(|s| s.as_str()), Some("587"));
    assert_eq!(map.get("to_mail").map(|s| s.as_str()), Some("ebook-mail@kindle.com"));
    assert_eq!(map.get("del_sent").map(|s| s.as_str()), Some("false"));
}

#[test]
fn failure_messages_name_the_stage() {
    assert_eq!(FailureKind::InvalidUrl.message(), "the input is not a valid URL");
    assert_eq!(FailureKind::FetchFailed.message(), "a resource could not be fetched");
    assert_eq!(FailureKind::ExtractionFailed.message(), "the extraction backend failed");
    assert_eq!(
        FailureKind::MalformedArtifact.message(),
        "the extraction artifact is malformed"
    );
    assert_eq!(
        FailureKind::ImageReferenceInvalid.message(),
        "an image reference could not be resolved"
    );
}
