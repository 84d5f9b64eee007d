use gemini_server::error::{
    redirect, success_header, GeminiError, BAD_REQUEST, NOT_FOUND, REDIRECT_PERMANENT,
    REDIRECT_TEMPORARY, SUCCESS, TEMP_FAIL,
};

#[test]
fn status_codes_are_those_of_the_protocol() {
    assert_eq!(SUCCESS, 20);
    assert_eq!(REDIRECT_TEMPORARY, 30);
    assert_eq!(REDIRECT_PERMANENT, 31);
    assert_eq!(TEMP_FAIL, 40);
    assert_eq!(NOT_FOUND, 51);
    assert_eq!(BAD_REQUEST, 59);
    assert_eq!(redirect(true), 31);
    assert_eq!(redirect(false), 30);
}

#[test]
fn error_lines_are_exact() {
    assert_eq!(GeminiError::bad_request("").to_string(), "59 \r\n");
    assert_eq!(GeminiError::bad_request("no").to_string(), "59 no\r\n");
    assert_eq!(GeminiError::not_found().to_string(), "51 \r\n");
    assert_eq!(
        GeminiError::redirect("gemini://example.com/new", true).to_string(),
        "31 gemini://example.com/new\r\n"
    );
    assert_eq!(GeminiError::redirect("/t", false).to_string(), "30 /t\r\n");
    assert_eq!(
        GeminiError::temporary_failure("internal server error").to_string(),
        "40 internal server error\r\n"
    );
}

#[test]
fn errors_compare_by_code_and_meta() {
    assert_eq!(GeminiError::bad_request("x"), GeminiError::bad_request("x"));
    assert_ne!(GeminiError::bad_request("x"), GeminiError::bad_request("y"));
    assert_ne!(GeminiError::bad_request(""), GeminiError::not_found());
    assert_ne!(GeminiError::redirect("a", true), GeminiError::redirect("a", false));
}

#[test]
fn success_header_is_exact() {
    assert_eq!(success_header("text/gemini"), "20 text/gemini\r\n");
    assert_eq!(success_header(""), "20 \r\n");
}
