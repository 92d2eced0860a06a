use mnotify::mime::{
    extension_of, guess_mime, guess_mime_extension, is_valid_mime, parse_file_tool_output,
};
use mnotify::strutil::{decimal_string, eq_ignore_ascii_case, lower_char, str_eq};

#[test]
fn extension_table_exact_values() {
    assert_eq!(guess_mime_extension("photo.jpg").as_str(), "image/jpeg");
    assert_eq!(guess_mime_extension("photo.jpeg").as_str(), "image/jpeg");
    assert_eq!(guess_mime_extension("anim.gif").as_str(), "image/gif");
    assert_eq!(guess_mime_extension("shot.png").as_str(), "image/png");
    assert_eq!(guess_mime_extension("doc.pdf").as_str(), "application/pdf");
    assert_eq!(guess_mime_extension("voice.opus").as_str(), "audio/ogg");
    assert_eq!(guess_mime_extension("tune.ogg").as_str(), "audio/ogg");
    assert_eq!(guess_mime_extension("song.mp3").as_str(), "audio/mp3");
}

#[test]
fn extension_matching_ignores_ascii_case() {
    assert_eq!(guess_mime_extension("PHOTO.JPG").as_str(), "image/jpeg");
    assert_eq!(guess_mime_extension("shot.PnG").as_str(), "image/png");
}

#[test]
fn unknown_or_missing_extension_falls_back_to_octet_stream() {
    assert_eq!(guess_mime_extension("archive.tar.xz").as_str(), "application/octet-stream");
    assert_eq!(guess_mime_extension("README").as_str(), "application/octet-stream");
    assert_eq!(guess_mime_extension(".bashrc").as_str(), "application/octet-stream");
    assert_eq!(guess_mime_extension("dir.d/file").as_str(), "application/octet-stream");
    assert_eq!(guess_mime_extension("").as_str(), "application/octet-stream");
}

#[test]
fn extension_extraction() {
    assert_eq!(extension_of("a/b/c.png"), Some(String::from("png")));
    assert_eq!(extension_of("c.tar.gz"), Some(String::from("gz")));
    assert_eq!(extension_of("a/.hidden"), None);
    assert_eq!(extension_of("noext"), None);
    assert_eq!(extension_of("dot.d/noext"), None);
}

#[test]
fn file_tool_output_parses() {
    let out = "/tmp/shot.png: image/png; charset=binary";
    let m = parse_file_tool_output(out).expect("tool output should parse");
    assert_eq!(m.as_str(), "image/png; charset=binary");
}

#[test]
fn file_tool_output_without_colon_or_type_is_rejected() {
    assert!(parse_file_tool_output("no colon here").is_none());
    assert!(parse_file_tool_output("/tmp/x: not a mime").is_none());
    assert!(parse_file_tool_output("/tmp/x:   ").is_none());
    assert!(parse_file_tool_output("/tmp/x: /plain").is_none());
    assert!(parse_file_tool_output("/tmp/x: text/").is_none());
    assert!(parse_file_tool_output("/tmp/x: text/plain;").is_none());
}

#[test]
fn mime_validity_essence() {
    assert!(is_valid_mime("text/plain"));
    assert!(is_valid_mime("application/octet-stream"));
    assert!(is_valid_mime("text/plain; charset=us-ascii"));
    assert!(!is_valid_mime("text"));
    assert!(!is_valid_mime("/plain"));
    assert!(!is_valid_mime("text/"));
    assert!(!is_valid_mime("te xt/plain"));
    assert!(!is_valid_mime(""));
}

#[test]
fn tool_output_wins_over_extension() {
    let m = guess_mime(Some("/tmp/data.bin: text/plain; charset=us-ascii"), "/tmp/data.bin");
    assert_eq!(m.as_str(), "text/plain; charset=us-ascii");
}

#[test]
fn failed_tool_falls_back_to_extension() {
    let m = guess_mime(None, "/tmp/photo.jpg");
    assert_eq!(m.as_str(), "image/jpeg");
    let m = guess_mime(Some("garbage with no colon"), "/tmp/photo.jpg");
    assert_eq!(m.as_str(), "image/jpeg");
}

#[test]
fn string_helpers() {
    assert!(str_eq("abc", "abc"));
    assert!(!str_eq("abc", "abd"));
    assert!(!str_eq("abc", "ab"));
    assert!(eq_ignore_ascii_case("JPeG", "jpeg"));
    assert!(!eq_ignore_ascii_case("JPeG", "jpg"));
    assert_eq!(lower_char('A'), 'a');
    assert_eq!(lower_char('z'), 'z');
    assert_eq!(lower_char('1'), '1');
}

#[test]
fn decimal_rendering() {
    assert_eq!(decimal_string(0), "0");
    assert_eq!(decimal_string(7), "7");
    assert_eq!(decimal_string(1234), "1234");
    assert_eq!(decimal_string(u16::MAX), "65535");
}

#[test]
fn extension_table_yields_valid_mime_texts() {
    for path in [
        "a.jpg", "a.jpeg", "a.gif", "a.png", "a.pdf", "a.opus", "a.ogg", "a.mp3", "a.unknown",
        "a",
    ] {
        assert!(is_valid_mime(guess_mime_extension(path).as_str()));
    }
}
