use pastebin::html::escape_html;
use pastebin::mime::{
    data_mime_type, file_content_type, file_extension, is_text, mime_from_file_name,
    to_content_type, ContentType,
};

#[test]
fn text_types_are_text() {
    assert!(is_text("text/plain"));
    assert!(is_text("application/x-sh"));
    assert!(!is_text("application/octet-stream"));
}

#[test]
fn only_the_text_prefix_counts() {
    assert!(is_text("text/"));
    assert!(is_text("text/html; charset=utf-8"));
    assert!(!is_text("text"));
    assert!(!is_text(""));
    assert!(!is_text("Text/plain"));
    assert!(!is_text("application/x-sh "));
    assert!(!is_text("application/x-shell"));
    assert!(!is_text("xtext/plain"));
}

#[test]
fn extension_is_what_follows_the_last_dot() {
    assert_eq!(file_extension("a.txt"), Some("txt".to_string()));
    assert_eq!(file_extension("archive.tar.gz"), Some("gz".to_string()));
    assert_eq!(file_extension("dir.d/readme.md"), Some("md".to_string()));
    assert_eq!(file_extension("end."), Some("".to_string()));
    assert_eq!(file_extension("é.ü"), Some("ü".to_string()));
}

#[test]
fn some_names_have_no_extension() {
    assert_eq!(file_extension("Makefile"), None);
    assert_eq!(file_extension(".bashrc"), None);
    assert_eq!(file_extension(""), None);
    assert_eq!(file_extension("."), None);
    assert_eq!(file_extension(".."), None);
    assert_eq!(file_extension("dir.d/file"), None);
    assert_eq!(file_extension("dir/.."), None);
}

#[test]
fn known_extensions_have_a_mime_type() {
    assert_eq!(mime_from_file_name("picture.png"), Some("image/png".to_string()));
    assert_eq!(mime_from_file_name("NOTES.TXT"), Some("text/plain".to_string()));
    assert_eq!(mime_from_file_name("run.sh"), Some("application/x-sh".to_string()));
    assert_eq!(mime_from_file_name("file.no-such-extension"), None);
    assert_eq!(mime_from_file_name("file"), None);
    assert_eq!(mime_from_file_name("file."), None);
}

#[test]
fn the_name_decides_before_the_content() {
    assert_eq!(data_mime_type(Some("picture.png"), b"plain text"), "image/png");
    assert_eq!(data_mime_type(Some("unknown"), b"plain text"), "text/plain");
    assert_eq!(data_mime_type(None, b"plain text"), "text/plain");
    assert_eq!(data_mime_type(None, b"\x89PNG\r\n\x1a\n\0\0\0\rIHDR"), "image/png");
}

#[test]
fn content_type_is_the_media_type_or_plain_text() {
    assert_eq!(to_content_type("image/png".to_string()).value, "image/png");
    assert_eq!(to_content_type("Text/HTML".to_string()).value, "text/html");
    assert_eq!(
        to_content_type("text/plain; charset=utf-8".to_string()),
        ContentType::plaintext()
    );
    assert_eq!(to_content_type("nonsense".to_string()), ContentType::plaintext());
    assert_eq!(to_content_type("".to_string()), ContentType::plaintext());
    assert_eq!(to_content_type("text/plain; x=\"é\"".to_string()), ContentType::plaintext());
    assert_eq!(ContentType::plaintext().value, "text/plain; charset=utf-8");
    assert_eq!(ContentType::html().value, "text/html; charset=utf-8");
}

#[test]
fn content_type_of_a_file() {
    assert_eq!(file_content_type("style.css", b"body {}").value, "text/css");
    assert_eq!(file_content_type("notes", b"some notes").value, "text/plain");
}

#[test]
fn html_is_escaped() {
    assert_eq!(
        escape_html("<a href=\"/x\">'&'</a>"),
        Some("&lt;a href=&quot;&#x2F;x&quot;&gt;&#x27;&amp;&#x27;&lt;&#x2F;a&gt;".to_string())
    );
    assert_eq!(escape_html("plain"), Some("plain".to_string()));
    assert_eq!(escape_html(""), Some("".to_string()));
}
