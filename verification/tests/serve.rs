use compile_typst_site::find::find_last_occurrence;
use compile_typst_site::serve::{
    after_bind, event_stream_head, first_line, guess_mime_type, inject_livereload_script,
    insert_bytes, lookup_fallback, lookup_step, not_found_response, parse_request_line,
    prune_clients, push_decimal, reload_event, requested_path, respond_with_file, BindOutcome,
    BindStep, FileKind, LookupStep, Request, FIRST_PORT, LIVE_RELOAD_SCRIPT, PORT_LIMIT,
};

fn injected(page: &[u8]) -> Vec<u8> {
    let mut html = page.to_vec();
    inject_livereload_script(&mut html);
    html
}

fn with_script_at(page: &[u8], at: usize) -> Vec<u8> {
    let mut expected = page[..at].to_vec();
    expected.extend_from_slice(LIVE_RELOAD_SCRIPT.as_bytes());
    expected.extend_from_slice(&page[at..]);
    expected
}

#[test]
fn script_is_the_known_one() {
    assert_eq!(LIVE_RELOAD_SCRIPT.len(), 285);
    assert!(LIVE_RELOAD_SCRIPT.starts_with("<script>\n    const source = new EventSource('/livereload');\n"));
    assert!(LIVE_RELOAD_SCRIPT.contains("        source.close(); \n        location.reload();\n"));
    assert!(LIVE_RELOAD_SCRIPT.ends_with("    window.onbeforeunload = () => {\n        source.close();\n    };\n</script>"));
}

#[test]
fn script_goes_before_body_end() {
    let page = b"<html><body><p>hi</p></body></html>";
    assert_eq!(injected(page), with_script_at(page, 21));
}

#[test]
fn script_goes_before_last_body_end() {
    let page = b"<body>a</body><body>b</body></html>";
    assert_eq!(injected(page), with_script_at(page, 21));
}

#[test]
fn script_goes_before_html_end_without_body() {
    let page = b"<html><p>hi</p></html>";
    assert_eq!(injected(page), with_script_at(page, 15));
}

#[test]
fn script_goes_to_the_end_without_tags() {
    let page = b"<p>hi</p>";
    assert_eq!(injected(page), with_script_at(page, page.len()));
    assert_eq!(injected(b""), LIVE_RELOAD_SCRIPT.as_bytes().to_vec());
    let partial = b"page </body";
    assert_eq!(injected(partial), with_script_at(partial, partial.len()));
}

#[test]
fn body_end_wins_over_later_html_end() {
    let page = b"</html></body></html>";
    assert_eq!(injected(page), with_script_at(page, 7));
}

#[test]
fn insert_bytes_splits_at_the_index() {
    let mut v = b"abcd".to_vec();
    insert_bytes(&mut v, 1, b"XY");
    assert_eq!(v, b"aXYbcd".to_vec());
    insert_bytes(&mut v, 0, b"_");
    assert_eq!(v, b"_aXYbcd".to_vec());
    insert_bytes(&mut v, 7, b"!");
    assert_eq!(v, b"_aXYbcd!".to_vec());
}

#[test]
fn mime_types_follow_the_table() {
    assert_eq!(guess_mime_type(b"/s/index.html"), "text/html; charset=utf-8");
    assert_eq!(guess_mime_type(b"/s/a.css"), "text/css; charset=utf-8");
    assert_eq!(guess_mime_type(b"/s/a.js"), "application/javascript; charset=utf-8");
    assert_eq!(guess_mime_type(b"/s/a.json"), "application/json");
    assert_eq!(guess_mime_type(b"/s/a.png"), "image/png");
    assert_eq!(guess_mime_type(b"/s/a.jpg"), "image/jpeg");
    assert_eq!(guess_mime_type(b"/s/a.jpeg"), "image/jpeg");
    assert_eq!(guess_mime_type(b"/s/a.gif"), "image/gif");
    assert_eq!(guess_mime_type(b"/s/a.svg"), "image/svg+xml");
    assert_eq!(guess_mime_type(b"/s/a.ico"), "image/x-icon");
    assert_eq!(guess_mime_type(b"/s/a.woff"), "font/woff");
    assert_eq!(guess_mime_type(b"/s/a.woff2"), "font/woff2");
    assert_eq!(guess_mime_type(b"/s/a.ttf"), "font/ttf");
    assert_eq!(guess_mime_type(b"/s/a.pdf"), "application/pdf");
    assert_eq!(guess_mime_type(b"/s/a.typ"), "application/octet-stream");
    assert_eq!(guess_mime_type(b"/s/a"), "application/octet-stream");
    assert_eq!(guess_mime_type(b"/s/a.HTML"), "application/octet-stream");
    assert_eq!(guess_mime_type(b"/s/.html"), "application/octet-stream");
}

#[test]
fn first_line_stops_at_the_line_end() {
    assert_eq!(first_line(b"GET / HTTP/1.1\r\nHost: x\r\n\r\n"), b"GET / HTTP/1.1".to_vec());
    assert_eq!(first_line(b"GET / HTTP/1.1\nHost: x\n"), b"GET / HTTP/1.1".to_vec());
    assert_eq!(first_line(b"GET / HTTP/1.1"), b"GET / HTTP/1.1".to_vec());
    assert_eq!(first_line(b"\r\nrest"), b"".to_vec());
    assert_eq!(first_line(b""), b"".to_vec());
    assert_eq!(first_line(b"a\rb\r\n"), b"a\rb".to_vec());
}

#[test]
fn request_line_is_parsed() {
    assert!(matches!(parse_request_line(b"GET /livereload HTTP/1.1"), Request::LiveReload));
    match parse_request_line(b"GET /about HTTP/1.1") {
        Request::File(p) => assert_eq!(p, b"/about".to_vec()),
        other => panic!("{:?}", other),
    }
    match parse_request_line(b"GET  HTTP/1.1") {
        Request::File(p) => assert_eq!(p, b"".to_vec()),
        other => panic!("{:?}", other),
    }
    match parse_request_line(b"GET /a b HTTP/1.1") {
        Request::File(p) => assert_eq!(p, b"/a b".to_vec()),
        other => panic!("{:?}", other),
    }
}

#[test]
fn other_requests_are_unsupported() {
    assert!(matches!(parse_request_line(b"POST / HTTP/1.1"), Request::Unsupported));
    assert!(matches!(parse_request_line(b"GET / HTTP/1.0"), Request::Unsupported));
    assert!(matches!(parse_request_line(b"GET HTTP/1.1"), Request::Unsupported));
    assert!(matches!(parse_request_line(b"get / HTTP/1.1"), Request::Unsupported));
    assert!(matches!(parse_request_line(b""), Request::Unsupported));
    assert!(matches!(parse_request_line(b"GET /"), Request::Unsupported));
}

#[test]
fn requested_path_lies_below_the_output_root() {
    assert_eq!(requested_path(b"/p/_site", b"/about"), b"/p/_site/about".to_vec());
    assert_eq!(requested_path(b"/p/_site", b"//a/b.css"), b"/p/_site/a/b.css".to_vec());
    assert_eq!(requested_path(b"/p/_site", b"/"), b"/p/_site".to_vec());
    assert_eq!(requested_path(b"/p/_site", b""), b"/p/_site".to_vec());
    assert_eq!(requested_path(b"/p/_site", b"/about/"), b"/p/_site/about".to_vec());
    assert_eq!(requested_path(b"/p/_site", b"/a/b//"), b"/p/_site/a/b".to_vec());
}

#[test]
fn directory_is_answered_with_its_index() {
    match lookup_step(b"/p/_site/about", FileKind::Directory) {
        LookupStep::Read(p) => assert_eq!(p, b"/p/_site/about/index.html".to_vec()),
        other => panic!("{:?}", other),
    }
}

#[test]
fn existing_file_is_read() {
    match lookup_step(b"/p/_site/a.css", FileKind::File) {
        LookupStep::Read(p) => assert_eq!(p, b"/p/_site/a.css".to_vec()),
        other => panic!("{:?}", other),
    }
    match lookup_step(b"/p/_site/about", FileKind::File) {
        LookupStep::Read(p) => assert_eq!(p, b"/p/_site/about".to_vec()),
        other => panic!("{:?}", other),
    }
}

#[test]
fn missing_file_without_extension_falls_back_to_html() {
    match lookup_step(b"/p/_site/about", FileKind::Missing) {
        LookupStep::ProbeFallback(p) => assert_eq!(p, b"/p/_site/about.html".to_vec()),
        other => panic!("{:?}", other),
    }
    match lookup_step(b"/p/_site/a.css", FileKind::Missing) {
        LookupStep::Read(p) => assert_eq!(p, b"/p/_site/a.css".to_vec()),
        other => panic!("{:?}", other),
    }
    assert_eq!(lookup_fallback(b"x".to_vec(), b"x.html".to_vec(), true), b"x.html".to_vec());
    assert_eq!(lookup_fallback(b"x".to_vec(), b"x.html".to_vec(), false), b"x".to_vec());
}

#[test]
fn extensionless_request_serves_the_page_with_script() {
    let requested = requested_path(b"/p/_site", b"/about");
    let fallback = match lookup_step(&requested, FileKind::Missing) {
        LookupStep::ProbeFallback(p) => p,
        other => panic!("{:?}", other),
    };
    let file = lookup_fallback(requested, fallback, true);
    assert_eq!(file, b"/p/_site/about.html".to_vec());
    let page = b"<html><body>About</body></html>";
    let response = respond_with_file(&file, page.to_vec());
    let body = with_script_at(page, 17);
    let mut expected = format!(
        "HTTP/1.1 200 OK\r\nContent-Length: {}\r\nContent-Type: text/html; charset=utf-8\r\nCache-Control: no-cache, no-store, must-revalidate\r\nPragma: no-cache\r\nExpires: 0\r\n\r\n",
        body.len()
    )
    .into_bytes();
    expected.extend_from_slice(&body);
    assert_eq!(response, expected);
}

#[test]
fn other_files_are_sent_unchanged() {
    let response = respond_with_file(b"/p/_site/a.css", b"</body>".to_vec());
    let expected = b"HTTP/1.1 200 OK\r\nContent-Length: 7\r\nContent-Type: text/css; charset=utf-8\r\nCache-Control: no-cache, no-store, must-revalidate\r\nPragma: no-cache\r\nExpires: 0\r\n\r\n</body>".to_vec();
    assert_eq!(response, expected);
    let response = respond_with_file(b"/p/_site/blob", Vec::new());
    let expected = b"HTTP/1.1 200 OK\r\nContent-Length: 0\r\nContent-Type: application/octet-stream\r\nCache-Control: no-cache, no-store, must-revalidate\r\nPragma: no-cache\r\nExpires: 0\r\n\r\n".to_vec();
    assert_eq!(response, expected);
}

#[test]
fn fixed_answers() {
    assert_eq!(
        not_found_response(),
        b"HTTP/1.1 404 NOT FOUND\r\nContent-Length: 10\r\n\r\nError 404.".to_vec()
    );
    assert_eq!(
        event_stream_head(),
        b"HTTP/1.1 200 OK\r\nContent-Type: text/event-stream\r\nCache-Control: no-cache\r\nConnection: keep-alive\r\n\r\n".to_vec()
    );
    assert_eq!(reload_event(), b"data: reload\r\n\r\n".to_vec());
}

#[test]
fn decimal_digits() {
    for (n, text) in [(0usize, "0"), (7, "7"), (10, "10"), (285, "285"), (1000, "1000"), (usize::MAX, &usize::MAX.to_string())] {
        let mut v = b"n=".to_vec();
        push_decimal(&mut v, n);
        assert_eq!(v, format!("n={}", text).into_bytes());
    }
}

#[test]
fn busy_port_leads_to_the_next() {
    assert_eq!(FIRST_PORT, 8000);
    assert_eq!(PORT_LIMIT, 8050);
    assert_eq!(after_bind(8000, BindOutcome::Bound), BindStep::Serve(8000));
    assert_eq!(after_bind(8000, BindOutcome::InUse), BindStep::Try(8001));
    assert_eq!(after_bind(8048, BindOutcome::InUse), BindStep::Try(8049));
    assert_eq!(after_bind(8049, BindOutcome::InUse), BindStep::Exhausted);
    assert_eq!(after_bind(8049, BindOutcome::Bound), BindStep::Serve(8049));
    assert_eq!(after_bind(8003, BindOutcome::Failed), BindStep::Abort);
    assert_eq!(after_bind(u16::MAX, BindOutcome::InUse), BindStep::Exhausted);
}

#[test]
fn all_fifty_ports_are_tried() {
    let mut port = FIRST_PORT;
    let mut tried = 1;
    loop {
        match after_bind(port, BindOutcome::InUse) {
            BindStep::Try(next) => {
                assert_eq!(next, port + 1);
                port = next;
                tried += 1;
            }
            BindStep::Exhausted => break,
            other => panic!("{:?}", other),
        }
    }
    assert_eq!(tried, 50);
    assert_eq!(port, 8049);
}

#[test]
fn clients_with_failed_writes_are_dropped() {
    let clients = vec!["a", "b", "c", "d"];
    assert_eq!(prune_clients(clients.clone(), &vec![true, false, true, false]), vec!["a", "c"]);
    assert_eq!(prune_clients(clients.clone(), &vec![true, true, true, true]), clients);
    assert_eq!(prune_clients(clients.clone(), &vec![false; 4]), Vec::<&str>::new());
    assert_eq!(prune_clients(clients.clone(), &vec![true, true]), vec!["a", "b"]);
    assert_eq!(prune_clients(Vec::<u8>::new(), &vec![true]), Vec::<u8>::new());
}

#[test]
fn last_occurrence_is_found() {
    assert_eq!(find_last_occurrence(b"foo bar baz", b"ba"), Some(8));
    assert_eq!(find_last_occurrence(b"foo bar baz", b"foo"), Some(0));
    assert_eq!(find_last_occurrence(b"foo bar baz", b"quux"), None);
    assert_eq!(find_last_occurrence(b"aaa", b"aa"), Some(1));
    assert_eq!(find_last_occurrence(b"ab", b"abc"), None);
    assert_eq!(find_last_occurrence(b"abc", b""), Some(3));
    assert_eq!(find_last_occurrence(b"", b""), Some(0));
}
