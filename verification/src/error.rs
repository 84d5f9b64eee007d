//! Protocol errors: a status code with its meta text, and the status line
//! that carries them to the client.
use vstd::prelude::*;
use vstd::string::StringExecFns;

verus! {

/// Status code of a successful response; its meta text is the content type.
pub const SUCCESS: u8 = 20;

/// Status code of a temporary redirect; its meta text is the destination.
pub const REDIRECT_TEMPORARY: u8 = 30;

/// Status code of a permanent redirect; its meta text is the destination.
pub const REDIRECT_PERMANENT: u8 = 31;

/// Status code of a transient condition on the server's side.
pub const TEMP_FAIL: u8 = 40;

/// Status code for a location that does not exist.
pub const NOT_FOUND: u8 = 51;

/// Status code for a request the server will not process.
pub const BAD_REQUEST: u8 = 59;

/// The status code of a redirect of the given permanence.
pub open spec fn redirect_code(permanent: bool) -> u8 {
    if permanent {
        REDIRECT_PERMANENT
    } else {
        REDIRECT_TEMPORARY
    }
}

/// The character that writes the decimal digit `d`.
pub open spec fn digit(d: int) -> char {
    if d == 0 {
        '0'
    } else if d == 1 {
        '1'
    } else if d == 2 {
        '2'
    } else if d == 3 {
        '3'
    } else if d == 4 {
        '4'
    } else if d == 5 {
        '5'
    } else if d == 6 {
        '6'
    } else if d == 7 {
        '7'
    } else if d == 8 {
        '8'
    } else {
        '9'
    }
}

/// The line that opens a response: the two digits of `code`, a space, the
/// meta text, and a carriage return with a line feed.
pub open spec fn status_line(code: u8, meta: Seq<char>) -> Seq<char> {
    seq![digit(code as int / 10), digit(code as int % 10), ' '] + meta + seq!['\r', '\n']
}

/// What a protocol error says: its status code and its meta text.
pub ghost struct ErrorView {
    pub code: u8,
    pub meta: Seq<char>,
}

/// A protocol error: the reason a request gets no body.
#[derive(Debug, PartialEq)]
pub struct GeminiError {
    code: u8,
    meta: String,
}

impl View for GeminiError {
    type V = ErrorView;

    closed spec fn view(&self) -> ErrorView {
        ErrorView { code: self.code, meta: self.meta@ }
    }
}

impl GeminiError {
    /// Every error carries a status code of two digits.
    #[verifier::type_invariant]
    spec fn two_digits(self) -> bool {
        10 <= self.code <= 99
    }

    /// The status line of this error, which is the whole response.
    pub fn to_string(&self) -> (line: String)
        ensures
            line@ == status_line(self@.code, self@.meta),
    {
        proof {
            use_type_invariant(self);
        }
        status_line_text(self.code, self.meta.as_str())
    }

    /// The error for a request that is malformed or not allowed.
    pub fn bad_request(meta: &str) -> (e: GeminiError)
        ensures
            e@ == (ErrorView { code: BAD_REQUEST, meta: meta@ }),
    {
        GeminiError { code: BAD_REQUEST, meta: String::from_str(meta) }
    }

    /// The error for a location that does not exist.
    pub fn not_found() -> (e: GeminiError)
        ensures
            e@ == (ErrorView { code: NOT_FOUND, meta: Seq::empty() }),
    {
        GeminiError { code: NOT_FOUND, meta: String::new() }
    }

    /// The redirect to `new_url`, permanent or temporary.
    pub fn redirect(new_url: &str, permanent: bool) -> (e: GeminiError)
        ensures
            e@ == (ErrorView { code: redirect_code(permanent), meta: new_url@ }),
    {
        GeminiError { code: redirect(permanent), meta: String::from_str(new_url) }
    }

    /// The error for a transient condition on the server's side.
    pub fn temporary_failure(meta: &str) -> (e: GeminiError)
        ensures
            e@ == (ErrorView { code: TEMP_FAIL, meta: meta@ }),
    {
        GeminiError { code: TEMP_FAIL, meta: String::from_str(meta) }
    }
}

/// The status code of a redirect of the given permanence.
pub fn redirect(permanent: bool) -> (code: u8)
    ensures
        code == redirect_code(permanent),
{
    if permanent {
        REDIRECT_PERMANENT
    } else {
        REDIRECT_TEMPORARY
    }
}

/// The line that opens a successful response with a body of the type
/// `content_type`.
pub fn success_header(content_type: &str) -> (line: String)
    ensures
        line@ == status_line(SUCCESS, content_type@),
{
    status_line_text(SUCCESS, content_type)
}

/// The status line for a code of two digits.
fn status_line_text(code: u8, meta: &str) -> (line: String)
    requires
        10 <= code <= 99,
    ensures
        line@ == status_line(code, meta@),
{
    let mut line = String::new();
    line.append(digit_text(code / 10));
    line.append(digit_text(code % 10));
    line.append(" ");
    line.append(meta);
    line.append("\r\n");
    proof {
        reveal_strlit(" ");
        reveal_strlit("\r\n");
        assert(line@ =~= status_line(code, meta@));
    }
    line
}

/// The text of one decimal digit.
fn digit_text(d: u8) -> (text: &'static str)
    requires
        d <= 9,
    ensures
        text@ == seq![digit(d as int)],
{
    proof {
        reveal_strlit("0");
        reveal_strlit("1");
        reveal_strlit("2");
        reveal_strlit("3");
        reveal_strlit("4");
        reveal_strlit("5");
        reveal_strlit("6");
        reveal_strlit("7");
        reveal_strlit("8");
        reveal_strlit("9");
    }
    let text = if d == 0 {
        "0"
    } else if d == 1 {
        "1"
    } else if d == 2 {
        "2"
    } else if d == 3 {
        "3"
    } else if d == 4 {
        "4"
    } else if d == 5 {
        "5"
    } else if d == 6 {
        "6"
    } else if d == 7 {
        "7"
    } else if d == 8 {
        "8"
    } else {
        "9"
    };
    assert(text@ =~= seq![digit(d as int)]);
    text
}

} // verus!
