use gemini_server::config::{GeminiConfig, Settings};
use gemini_server::error::GeminiError;
use gemini_server::redirect::RedirectEntry;
use gemini_server::worker::{Action, Event, Outcome, Worker, INTERNAL_ERROR};

fn config(pairs: &[(&str, &str)]) -> GeminiConfig {
    let mut s = Settings::new();
    for (key, value) in pairs {
        s.insert(key, value);
    }
    GeminiConfig::new(s, 0).unwrap()
}

fn with_redirects() -> GeminiConfig {
    let mut c = config(&[
        ("hostname", "example.com"),
        ("redirects_file", "redirects.ini"),
        ("redirects_ttl", "100"),
    ]);
    c.update_redirects(
        Some(vec![
            RedirectEntry::from_section("/old", "gemini://example.com/new", None),
            RedirectEntry::from_section("/a b", "/spaced", Some("false")),
            RedirectEntry::from_section("/../up", "/climbed", None),
        ]),
        0,
    );
    c
}

/// Drives one request against a file system that holds `files` and has the
/// directories `dirs`, and gives the outcome.
fn serve(
    config: &mut GeminiConfig,
    request: &str,
    dirs: &[&str],
    files: &[(&str, Option<&[u8]>)],
) -> Outcome {
    let mut worker = Worker::new(1);
    let mut action = worker.process_request(config, request, 0);
    loop {
        let event = match action {
            Action::Respond(outcome) => {
                assert!(worker.is_done());
                return outcome;
            }
            Action::LoadRedirects { .. } => Event::Redirects(None),
            Action::IsDirectory { location } => Event::IsDirectory(dirs.contains(&location.as_str())),
            Action::Exists { location } => Event::Exists(
                dirs.contains(&location.as_str()) || files.iter().any(|(name, _)| *name == location),
            ),
            Action::Read { location } => Event::Contents(
                files
                    .iter()
                    .find(|(name, _)| *name == location)
                    .and_then(|(_, bytes)| bytes.map(|b| b.to_vec())),
            ),
        };
        action = worker.resume(config, event);
    }
}

#[test]
fn process_url_decodes_the_path() {
    assert_eq!(Worker::process_url("example.com", "gemini://example.com/a%20b\r\n"), Ok("/a b".to_string()));
    assert_eq!(Worker::process_url("example.com", "gemini://example.com"), Ok("/".to_string()));
    assert_eq!(Worker::process_url("h", "gemini://h/%2e%2E/%41?%20"), Ok("/../A".to_string()));
    assert_eq!(Worker::process_url("h", "gemini://h/%C3%A9"), Ok("/\u{e9}".to_string()));
    assert_eq!(Worker::process_url("h", "gemini://h/100%"), Ok("/100%".to_string()));
    assert_eq!(Worker::process_url("h", "gemini://h/%zz%4"), Ok("/%zz%4".to_string()));
    assert_eq!(Worker::process_url("h", "gemini://h/%2541"), Ok("/%41".to_string()));
}

#[test]
fn process_url_rejects_bad_utf8() {
    assert_eq!(Worker::process_url("h", "gemini://h/%ff"), Err(GeminiError::bad_request("")));
    assert_eq!(Worker::process_url("h", "gemini://h/%C3"), Err(GeminiError::bad_request("")));
}

#[test]
fn hostname_mismatch_is_bad_request() {
    let bad = Err(GeminiError::bad_request(""));
    assert_eq!(Worker::process_url("example.com", "gemini://other.org/index.gmi"), bad);
    assert_eq!(Worker::process_url("example.com", "gemini://Example.com/"), bad);
    assert_eq!(Worker::process_url("example.com", "gemini://example.com:1965/"), bad);
    assert_eq!(Worker::process_url("example.com", "gemini://other.org/%ff"), bad);
    assert_eq!(Worker::process_url("example.com", "gemini://other.org/../../etc/passwd"), bad);
    assert_eq!(Worker::process_url("example.com", "gemini://example.co"), bad);
    let mut c = with_redirects();
    let got = serve(&mut c, "gemini://other.org/old", &[], &[]);
    assert_eq!(got, Err(GeminiError::bad_request("")));
}

#[test]
fn locations_are_built_from_root_path_and_index() {
    assert_eq!(Worker::pre_postfix_path("content", "a/b.gmi", "index.gmi", false), "content/a/b.gmi");
    assert_eq!(Worker::pre_postfix_path("content", "a", "index.gmi", true), "content/a/index.gmi");
    assert_eq!(Worker::pre_postfix_path("content", "", "index.gmi", true), "content/index.gmi");
    assert_eq!(Worker::pre_postfix_path("content/", "", "index.gmi", false), "content/");
    assert_eq!(Worker::pre_postfix_path("", "a", "i", true), "a/i");
}

#[test]
fn root_request_serves_the_index_file() {
    let mut c = config(&[]);
    let body: &[u8] = b"# hello\n";
    let got = serve(&mut c, "gemini://localhost/\r\n", &["content/"], &[("content/index.gmi", Some(body))]);
    assert_eq!(got, Ok(("text/gemini".to_string(), body.to_vec())));
    let got = serve(&mut c, "gemini://localhost", &["content/"], &[("content/index.gmi", Some(body))]);
    assert_eq!(got, Ok(("text/gemini".to_string(), body.to_vec())));
    assert_eq!(gemini_server::wire::respond(&got), b"20 text/gemini\r\n# hello\n".to_vec());
}

#[test]
fn root_request_without_index_is_not_found() {
    let mut c = config(&[]);
    let got = serve(&mut c, "gemini://localhost/", &["content/"], &[]);
    assert_eq!(got, Err(GeminiError::not_found()));
    assert_eq!(gemini_server::wire::respond(&got), b"51 \r\n".to_vec());
}

#[test]
fn content_type_follows_the_extension() {
    let mut c = config(&[]);
    let files: &[(&str, Option<&[u8]>)] = &[
        ("content/a.txt", Some(b"t")),
        ("content/b.PNG", Some(b"p")),
        ("content/c", Some(b"c")),
        ("content/d.unknownext", Some(b"d")),
    ];
    assert_eq!(serve(&mut c, "gemini://localhost/a.txt", &[], files), Ok(("text/plain".to_string(), b"t".to_vec())));
    assert_eq!(serve(&mut c, "gemini://localhost/b.PNG", &[], files), Ok(("image/png".to_string(), b"p".to_vec())));
    assert_eq!(
        serve(&mut c, "gemini://localhost/c", &[], files),
        Ok(("application/octet-stream".to_string(), b"c".to_vec()))
    );
    assert_eq!(
        serve(&mut c, "gemini://localhost/d.unknownext", &[], files),
        Ok(("application/octet-stream".to_string(), b"d".to_vec()))
    );
}

#[test]
fn unreadable_file_is_temporary_failure() {
    let mut c = config(&[]);
    let got = serve(&mut c, "gemini://localhost/a.txt", &[], &[("content/a.txt", None)]);
    assert_eq!(got, Err(GeminiError::temporary_failure("internal server error")));
    assert_eq!(INTERNAL_ERROR, "internal server error");
}

#[test]
fn traversal_stays_under_the_content_root() {
    let mut c = config(&[]);
    let files: &[(&str, Option<&[u8]>)] = &[("content/etc/passwd", Some(b"inside")), ("/etc/passwd", Some(b"outside"))];
    let got = serve(&mut c, "gemini://localhost/../../../etc/passwd", &[], files);
    assert_eq!(got, Ok(("application/octet-stream".to_string(), b"inside".to_vec())));
    let got = serve(&mut c, "gemini://localhost/%2e%2e/%2e%2e/etc/passwd", &[], files);
    assert_eq!(got, Ok(("application/octet-stream".to_string(), b"inside".to_vec())));
}

#[test]
fn redirect_precedes_existence_check() {
    let mut c = with_redirects();
    let got = serve(&mut c, "gemini://example.com/old", &[], &[]);
    assert_eq!(got, Err(GeminiError::redirect("gemini://example.com/new", true)));
    let got = serve(&mut c, "gemini://example.com/OLD", &[], &[("content/OLD", Some(b"x"))]);
    assert_eq!(got, Err(GeminiError::redirect("gemini://example.com/new", true)));
    let mut worker = Worker::new(0);
    let first = worker.process_request(&mut c, "gemini://example.com/old", 0);
    assert!(matches!(first, Action::Respond(Err(_))));
    assert!(worker.is_done());
}

#[test]
fn redirect_is_looked_up_on_the_decoded_path_before_normalising() {
    let mut c = with_redirects();
    let got = serve(&mut c, "gemini://example.com/a%20b", &[], &[]);
    assert_eq!(got, Err(GeminiError::redirect("/spaced", false)));
    let got = serve(&mut c, "gemini://example.com/../up", &[], &[]);
    assert_eq!(got, Err(GeminiError::redirect("/climbed", true)));
    let got = serve(&mut c, "gemini://example.com/x/../old", &[], &[]);
    assert_eq!(got, Err(GeminiError::not_found()));
}

#[test]
fn stale_table_asks_for_a_reload_and_survives_its_failure() {
    let mut c = with_redirects();
    let mut worker = Worker::new(9);
    assert_eq!(worker.job(), 9);
    let action = worker.process_request(&mut c, "gemini://example.com/old", 101);
    match action {
        Action::LoadRedirects { file } => assert_eq!(file, "redirects.ini"),
        other => panic!("{:?}", other),
    }
    assert!(!worker.is_done());
    let action = worker.resume(&mut c, Event::Redirects(None));
    match action {
        Action::Respond(outcome) => {
            assert_eq!(outcome, Err(GeminiError::redirect("gemini://example.com/new", true)))
        }
        other => panic!("{:?}", other),
    }
    assert_eq!(c.redirects_due(101), Some("redirects.ini"));
}

#[test]
fn reload_replaces_the_table_for_this_request() {
    let mut c = with_redirects();
    let mut worker = Worker::new(0);
    let action = worker.process_request(&mut c, "gemini://example.com/old", 101);
    assert!(matches!(action, Action::LoadRedirects { .. }));
    let loaded = vec![RedirectEntry::from_section("/other", "/there", None)];
    let action = worker.resume(&mut c, Event::Redirects(Some(loaded)));
    match action {
        Action::IsDirectory { location } => assert_eq!(location, "content/old"),
        other => panic!("{:?}", other),
    }
    assert_eq!(c.redirects_due(201), None);
    assert_eq!(c.check_redirect("/old", 101, None), None);
    assert_eq!(c.check_redirect("/other", 101, None), Some(("/there".to_string(), true)));
}

#[test]
fn unexpected_event_is_temporary_failure() {
    let mut c = config(&[]);
    let mut worker = Worker::new(0);
    let action = worker.resume(&mut c, Event::Exists(true));
    match action {
        Action::Respond(outcome) => {
            assert_eq!(outcome, Err(GeminiError::temporary_failure("internal server error")))
        }
        other => panic!("{:?}", other),
    }
    assert!(worker.is_done());
    let action = worker.process_request(&mut c, "gemini://localhost/x", 0);
    assert!(matches!(action, Action::IsDirectory { .. }));
    let action = worker.resume(&mut c, Event::Contents(Some(vec![1])));
    assert!(matches!(action, Action::Respond(Err(_))));
}

#[test]
fn steps_follow_in_order() {
    let mut c = config(&[("content_root", "/srv"), ("index", "home.gmi")]);
    let mut worker = Worker::new(0);
    match worker.process_request(&mut c, " gemini://localhost/docs/../notes/ ", 0) {
        Action::IsDirectory { location } => assert_eq!(location, "/srv/notes"),
        other => panic!("{:?}", other),
    }
    match worker.resume(&mut c, Event::IsDirectory(true)) {
        Action::Exists { location } => assert_eq!(location, "/srv/notes/home.gmi"),
        other => panic!("{:?}", other),
    }
    match worker.resume(&mut c, Event::Exists(true)) {
        Action::Read { location } => assert_eq!(location, "/srv/notes/home.gmi"),
        other => panic!("{:?}", other),
    }
    match worker.resume(&mut c, Event::Contents(Some(vec![1, 2, 3]))) {
        Action::Respond(outcome) => assert_eq!(outcome, Ok(("text/gemini".to_string(), vec![1, 2, 3]))),
        other => panic!("{:?}", other),
    }
    assert!(worker.is_done());
}
