use mii_memory::explorer::{
    browse_options, events_head, next_event, parse_target, plain_answer, query_value, query_values,
    ready_event, route, start_reading, status_of, write_head, Request, Route, MAX_REQUEST_BYTES,
};
use mii_memory::form::{decode_bytes, decode_form};
use mii_memory::MemoryMode;

fn request(method: &str, target: &str) -> Request {
    let line = format!("{method} {target} HTTP/1.1\r\n");
    start_reading(line.len(), &line).unwrap().finish()
}

#[test]
fn forms_are_decoded() {
    assert_eq!(decode_form("a+b%20c"), "a b c");
    assert_eq!(decode_form("%C3%a9t%C3%A9"), "été");
    assert_eq!(decode_form("100%"), "100%");
    assert_eq!(decode_form("%4"), "%4");
    assert_eq!(decode_form("%41"), "A");
    assert_eq!(decode_form("%zz!"), "%!");
    assert_eq!(decode_form("%+f!"), "\u{f}!");
    assert_eq!(decode_form("%ff"), "\u{fffd}");
    assert_eq!(decode_form("plain é"), "plain é");
    assert_eq!(decode_form(""), "");
    assert_eq!(decode_form("%é!"), "%!");
    for high in 0..=255_u8 {
        for low in [b'0', b'9', b'a', b'f', b'A', b'F', b'g', b'+', b'-', b' ', 0xc3] {
            let bytes = [b'%', high, low];
            let expected = std::str::from_utf8(&bytes[1..])
                .ok()
                .and_then(|hex| u8::from_str_radix(hex, 16).ok())
                .unwrap_or(b'%');
            assert_eq!(decode_bytes(&bytes), vec![expected]);
        }
    }
}

#[test]
fn every_byte_can_be_written_with_percent_signs() {
    let bytes: Vec<u8> = (0..=255).collect();
    let written: String = bytes.iter().map(|byte| format!("%{byte:02X}")).collect();
    assert_eq!(decode_bytes(written.as_bytes()), bytes);
}

#[test]
fn targets_have_a_path_and_a_query() {
    let (path, query) = parse_target("/api/memories?tag=a&&tag=b%26c&text=x=y&flag&=v");
    assert_eq!(path, "/api/memories");
    let expected: Vec<(String, String)> =
        [("tag", "a"), ("tag", "b&c"), ("text", "x=y"), ("flag", ""), ("", "v")]
            .iter()
            .map(|(name, value)| (name.to_string(), value.to_string()))
            .collect();
    assert_eq!(query, expected);
    assert_eq!(query_values(&query, "tag"), vec!["a", "b&c"]);
    assert_eq!(query_value(&query, "text").as_deref(), Some("x=y"));
    assert_eq!(query_value(&query, "none"), None);

    assert_eq!(parse_target("/"), ("/".to_string(), Vec::new()));
    assert_eq!(parse_target("/a?"), ("/a".to_string(), Vec::new()));
    assert_eq!(parse_target("?a?b=1").1, vec![("a?b".to_string(), "1".to_string())]);
}

#[test]
fn request_lines_are_read_word_by_word() {
    let reading = start_reading(30, " \tGET\u{a0}/a?b=c  HTTP/1.1\r\n").unwrap();
    assert_eq!((reading.method.as_str(), reading.target.as_str()), ("GET", "/a?b=c"));
    assert_eq!(reading.total, 30);
    assert_eq!(start_reading(0, "").unwrap_err().message(), "empty request");
    assert_eq!(start_reading(2, "\r\n").unwrap_err().message(), "missing HTTP method");
    assert_eq!(start_reading(6, "GET \r\n").unwrap_err().message(), "missing HTTP target");
}

#[test]
fn requests_end_with_an_empty_line() {
    let mut reading = start_reading(16, "GET / HTTP/1.1\r\n").unwrap();
    assert!(!reading.next_line(9, "Host: x\r\n").unwrap());
    assert!(reading.next_line(2, "\r\n").unwrap());
    assert_eq!(reading.total, 27);
    assert!(reading.next_line(1, "\n").unwrap());
    assert!(reading.next_line(0, "").unwrap());

    let rest = MAX_REQUEST_BYTES - reading.total;
    assert!(!reading.next_line(rest, "x").unwrap());
    assert_eq!(
        reading.next_line(1, "\n").unwrap_err().message(),
        "request headers too large"
    );
    assert!(reading.next_line(usize::MAX, "x").is_err());
}

/// Reads a head line by line, as it would be received, up to its last line.
fn read_head(lines: &[(usize, &str)]) -> Result<(String, String), String> {
    let mut reading =
        start_reading(lines[0].0, lines[0].1).map_err(|error| error.message())?;
    for (read, line) in &lines[1..] {
        if reading.next_line(*read, line).map_err(|error| error.message())? {
            return Ok((reading.method, reading.target));
        }
    }
    unreachable!()
}

#[test]
fn heads_are_read_or_refused() {
    let accepted = Ok(("GET".to_string(), "/a".to_string()));
    let first = (17, "GET /a HTTP/1.1\r\n");
    let refused = |message: &str| Err(message.to_string());
    assert_eq!(read_head(&[first, (9, "Host: x\r\n"), (2, "\r\n")]), accepted);
    assert_eq!(read_head(&[first, (1, "\n"), (9_000_000, "body")]), accepted);
    assert_eq!(read_head(&[first, (0, "")]), accepted);
    assert_eq!(read_head(&[(0, ""), (0, "")]), refused("empty request"));
    assert_eq!(read_head(&[(2, "\r\n"), (0, "")]), refused("missing HTTP method"));
    assert_eq!(read_head(&[(5, "GET\r\n"), (0, "")]), refused("missing HTTP target"));

    let rest = MAX_REQUEST_BYTES - 17 - 2;
    assert_eq!(read_head(&[first, (rest, "x"), (2, "\r\n")]), accepted);
    let large = refused("request headers too large");
    assert_eq!(read_head(&[first, (rest, "x"), (1, "y"), (2, "\r\n")]), large);
    assert_eq!(read_head(&[first, (rest + 3, "x"), (2, "\r\n")]), large);
    assert_eq!(read_head(&[(MAX_REQUEST_BYTES, "GET /a\n"), (0, "")]), accepted);
    assert_eq!(read_head(&[(MAX_REQUEST_BYTES, "GET /a\n"), (1, "\n")]), large);
}

#[test]
fn requests_are_routed() {
    for (method, target, expected) in [
        ("GET", "/", Route::Index),
        ("GET", "/index.html?x=1", Route::Index),
        ("GET", "/api/memories?tag=missing", Route::Memories),
        ("GET", "/api/tags", Route::Tags),
        ("GET", "/api/events", Route::Events),
        ("GET", "/nope", Route::NotFound),
        ("POST", "/", Route::MethodNotAllowed),
        ("get", "/", Route::MethodNotAllowed),
    ] {
        assert_eq!(route(&request(method, target)), expected, "{method} {target}");
    }
}

#[test]
fn requests_that_lead_nowhere_are_told_so() {
    let plain = "text/plain; charset=utf-8";
    assert_eq!(plain_answer(Route::NotFound), Some((404, plain, "not found")));
    assert_eq!(plain_answer(Route::MethodNotAllowed), Some((405, plain, "method not allowed")));
    for route in [Route::Index, Route::Memories, Route::Tags, Route::Events] {
        assert_eq!(plain_answer(route), None);
        assert_eq!(status_of(Some(route)), 200);
    }
    assert_eq!(status_of(Some(Route::NotFound)), 404);
    assert_eq!(status_of(Some(Route::MethodNotAllowed)), 405);
    assert_eq!(status_of(None), 400);
}

#[test]
fn queries_ask_for_pages() {
    let options = browse_options(
        &request("GET", "/?text=a+b&tag=x&tag=y&mode=Session&limit=5&offset=%2B7&limit=9").query,
    );
    assert_eq!(options.text.as_deref(), Some("a b"));
    assert_eq!(options.tags, vec!["x", "y"]);
    assert_eq!(options.mode, Some(MemoryMode::Session));
    assert_eq!((options.limit, options.offset), (5, 7));

    let options = browse_options(&request("GET", "/?mode=team&limit=-1&offset=x").query);
    assert_eq!(options.text, None);
    assert!(options.tags.is_empty());
    assert_eq!(options.mode, None);
    assert_eq!((options.limit, options.offset), (100, 0));
}

#[test]
fn responses_have_a_head() {
    assert_eq!(
        write_head(200, "text/html; charset=utf-8", 12),
        "HTTP/1.1 200 OK\r\nContent-Type: text/html; charset=utf-8\r\nContent-Length: 12\r\n\
         Cache-Control: no-store\r\nConnection: close\r\n\r\n"
    );
    assert!(write_head(400, "t", 0).starts_with("HTTP/1.1 400 Bad Request\r\n"));
    assert!(write_head(404, "t", 0).starts_with("HTTP/1.1 404 Not Found\r\n"));
    assert!(write_head(405, "t", 0).starts_with("HTTP/1.1 405 Method Not Allowed\r\n"));
    assert!(write_head(503, "t", 0).starts_with("HTTP/1.1 503 OK\r\n"));
    assert!(events_head().starts_with("HTTP/1.1 200 OK\r\nContent-Type: text/event-stream\r\n"));
    assert!(events_head().ends_with("X-Accel-Buffering: no\r\n\r\n"));
    assert_eq!(ready_event(), "event: ready\ndata: {}\n\n");
}

#[test]
fn events_follow_changes() {
    let mut known = None;
    let looks = [None, Some("1"), Some("1"), None, Some("1"), Some("2"), None, Some("1")];
    let events: Vec<Option<String>> = looks
        .iter()
        .map(|look| next_event(&mut known, look.map(|signature| signature.to_string())))
        .collect();
    let update = |signature: &str| Some(format!("event: update\ndata: {signature}\n\n"));
    let alive = Some(": keep-alive\n\n".to_string());
    assert_eq!(
        events,
        vec![None, update("1"), alive.clone(), None, alive, update("2"), None, update("1")]
    );
    assert_eq!(known.as_deref(), Some("1"));
}
