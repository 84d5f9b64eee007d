use gemini_server::error::GeminiError;
use gemini_server::wire::{request_text, respond, REQUEST_BUFFER};

#[test]
fn request_buffer_size() {
    assert_eq!(REQUEST_BUFFER, 1026);
}

#[test]
fn request_text_drops_the_fill() {
    let mut buffer = [0u8; 1026];
    let line = b"gemini://example.com/\r\n";
    buffer[..line.len()].copy_from_slice(line);
    assert_eq!(request_text(&buffer), "gemini://example.com/\r\n");
    assert_eq!(request_text(&[0u8; 16]), "");
    assert_eq!(request_text(b""), "");
    assert_eq!(request_text(b"\0\0a\0b\0"), "a\0b");
    assert_eq!(request_text("\u{e9}\0".as_bytes()), "\u{e9}");
}

#[test]
fn request_text_replaces_bad_bytes() {
    assert_eq!(request_text(b"a\xffb\0"), "a\u{fffd}b");
}

#[test]
fn success_is_header_and_body() {
    let ok = Ok(("text/gemini".to_string(), b"# hi\n".to_vec()));
    assert_eq!(respond(&ok), b"20 text/gemini\r\n# hi\n".to_vec());
    let empty = Ok(("text/plain".to_string(), Vec::new()));
    assert_eq!(respond(&empty), b"20 text/plain\r\n".to_vec());
    let binary = Ok(("application/octet-stream".to_string(), vec![0, 255, 13, 10]));
    assert_eq!(respond(&binary), b"20 application/octet-stream\r\n\x00\xff\r\n".to_vec());
}

#[test]
fn error_is_its_line_alone() {
    assert_eq!(respond(&Err(GeminiError::not_found())), b"51 \r\n".to_vec());
    assert_eq!(respond(&Err(GeminiError::bad_request(""))), b"59 \r\n".to_vec());
    assert_eq!(
        respond(&Err(GeminiError::redirect("gemini://h/\u{e9}", false))),
        "30 gemini://h/\u{e9}\r\n".as_bytes().to_vec()
    );
    assert_eq!(
        respond(&Err(GeminiError::temporary_failure("internal server error"))),
        b"40 internal server error\r\n".to_vec()
    );
}
