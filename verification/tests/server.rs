use rshttpd::request::{ParseError, Request};
use rshttpd::response::{Headers, Response};
use rshttpd::path::{extension_of, resolve};
use rshttpd::server::{Action, Fetched, Server};

fn server(docroot: &str) -> Server {
    Server::with("127.0.0.1:8080".to_string(), docroot.to_string())
}

fn fields(headers: &Headers) -> Vec<(String, String)> {
    (0..headers.len())
        .map(|i| (headers.name_at(i).to_string(), headers.value_at(i).to_string()))
        .collect()
}

fn fetch(action: Action) -> String {
    match action {
        Action::Fetch(path) => path,
        other => panic!("no file asked for: {:?}", other),
    }
}

fn reply(action: Action) -> Response {
    match action {
        Action::Reply(response) => response,
        other => panic!("no response given: {:?}", other),
    }
}

#[test]
fn root_target_resolves_to_the_index() {
    assert_eq!(resolve("/var/www", "/"), "/var/www/index.html");
    assert_eq!(resolve("htdocs", "/"), "htdocs/index.html");
}

#[test]
fn other_targets_lose_their_leading_slashes() {
    assert_eq!(resolve("/var/www", "/foo/bar.png"), "/var/www/foo/bar.png");
    assert_eq!(resolve("/var/www", "///foo/bar.png"), "/var/www/foo/bar.png");
    assert_eq!(resolve("/var/www", "foo"), "/var/www/foo");
    assert_eq!(resolve("/var/www", "//"), "/var/www/");
    assert_eq!(resolve("/var/www", ""), "/var/www/");
}

#[test]
fn document_root_is_taken_as_it_is_written() {
    assert_eq!(resolve("/var/www/", "/"), "/var/www//index.html");
    assert_eq!(resolve("/var/www/", "/a.txt"), "/var/www//a.txt");
    assert_eq!(resolve(".", "/a.txt"), "./a.txt");
    assert_eq!(resolve("", "/"), "/index.html");
    assert_eq!(resolve("", "a.txt"), "/a.txt");
}

#[test]
fn targets_are_not_normalised() {
    assert_eq!(resolve("/var/www", "/a//b/../c/"), "/var/www/a//b/../c/");
    assert_eq!(resolve("/var/www", "/../etc/passwd"), "/var/www/../etc/passwd");
    assert_eq!(resolve("/var/www", "/a%20b?x=1"), "/var/www/a%20b?x=1");
}

#[test]
fn get_of_the_root_serves_the_index() {
    let s = server("/srv");
    let path = fetch(s.receive(b"GET / HTTP/1.1\r\n\r\n"));
    assert_eq!(path, "/srv/index.html");
    let response = s.deliver(&path, Fetched::Content(b"hello".to_vec()));
    assert_eq!(response.status, 200);
    assert_eq!(response.body, b"hello");
    assert_eq!(response.headers.get("Content-type"), Some("text/html"));
    assert_eq!(response.headers.get("Content-size"), Some("5"));
}

#[test]
fn missing_file_is_not_found() {
    let s = server("/srv");
    let path = fetch(s.receive(b"GET /missing.txt HTTP/1.1\r\n\r\n"));
    assert_eq!(path, "/srv/missing.txt");
    let response = s.deliver(&path, Fetched::Missing);
    assert_eq!(response.status, 404);
    assert_eq!(response.body, b"Not Found");
    assert_eq!(response.headers.len(), 0);
    assert_eq!(
        s.respond(&response),
        b"HTTP/1.1 404 Not Found\r\nContent-type: text/plain\r\n\r\nNot Found"
    );
}

#[test]
fn unreadable_file_is_an_internal_error() {
    let s = server("/srv");
    let response = s.deliver("/srv/", Fetched::Unreadable);
    assert_eq!(response.status, 500);
    assert_eq!(response.body, b"Internal Server Error");
    assert_eq!(response.headers.len(), 0);
    assert_eq!(
        s.respond(&response),
        b"HTTP/1.1 500 Internal Server Error\r\nContent-type: text/plain\r\n\r\nInternal Server Error"
    );
}

#[test]
fn post_is_not_implemented() {
    let s = server("/srv");
    let response = reply(s.receive(b"POST / HTTP/1.1\r\n\r\n"));
    assert_eq!(response.status, 501);
    assert_eq!(response.body, b"Not Implemented");
    assert_eq!(response.headers.len(), 0);
    assert_eq!(
        s.respond(&response),
        b"HTTP/1.1 501 Not Implemented\r\nContent-type: text/plain\r\n\r\nNot Implemented"
    );
}

#[test]
fn method_is_case_sensitive() {
    let s = server("/srv");
    for line in ["get / HTTP/1.1\r\n", "Get / HTTP/1.1\r\n", "GETS / HTTP/1.1\r\n", "HEAD / x\n"] {
        assert_eq!(reply(s.receive(line.as_bytes())).status, 501);
    }
}

#[test]
fn gif_is_served_with_its_type_and_size() {
    let s = server("/srv");
    let path = fetch(s.receive(b"GET /image.gif HTTP/1.1\r\n\r\n"));
    let content: Vec<u8> = b"GIF89a\x01\x00\x01\x00\x80\x00\x00\xff\xff\xff\x00\x00\x00;".to_vec();
    let response = s.deliver(&path, Fetched::Content(content.clone()));
    assert_eq!(response.status, 200);
    assert_eq!(response.headers.get("Content-type"), Some("image/gif"));
    assert_eq!(response.headers.get("Content-size"), Some(content.len().to_string().as_str()));
    assert_eq!(response.body, content);
    assert_eq!(
        fields(&response.headers),
        vec![
            ("Content-type".to_string(), "image/gif".to_string()),
            ("Content-size".to_string(), "20".to_string()),
        ]
    );
}

#[test]
fn file_without_extension_is_plain_text() {
    let s = server("/srv");
    let path = fetch(s.receive(b"GET /README HTTP/1.1\r\n\r\n"));
    let response = s.deliver(&path, Fetched::Content(b"read me".to_vec()));
    assert_eq!(response.status, 200);
    assert_eq!(response.headers.get("Content-type"), None);
    assert_eq!(fields(&response.headers), vec![("Content-size".to_string(), "7".to_string())]);
    assert_eq!(
        s.respond(&response),
        b"HTTP/1.1 200 OK\r\nContent-size: 7\r\nContent-type: text/plain\r\n\r\nread me"
    );
}

#[test]
fn unknown_and_upper_case_extensions_are_plain_text() {
    let s = server("/srv");
    for path in ["/srv/a.bin", "/srv/a.GIF", "/srv/a.Html", "/srv/a.jpeg", "/srv/a.txt"] {
        let response = s.deliver(path, Fetched::Content(Vec::new()));
        assert_eq!(response.headers.get("Content-type"), Some("text/plain"), "{}", path);
        assert_eq!(response.headers.get("Content-size"), Some("0"));
    }
}

#[test]
fn empty_file_is_served() {
    let s = server("/srv");
    let response = s.deliver("/srv/empty.html", Fetched::Content(Vec::new()));
    assert_eq!(
        s.respond(&response),
        b"HTTP/1.1 200 OK\r\nContent-type: text/html\r\nContent-size: 0\r\n\r\n"
    );
}

#[test]
fn same_file_twice_gives_the_same_bytes() {
    let s = server("/srv");
    let mut seen: Vec<Vec<u8>> = Vec::new();
    for _ in 0..2 {
        let path = fetch(s.receive(b"GET /pics/cat.jpg HTTP/1.1\r\n\r\n"));
        let response = s.deliver(&path, Fetched::Content(vec![0xff, 0xd8, 0xff, 0xe0]));
        seen.push(s.respond(&response));
    }
    assert_eq!(seen[0], seen[1]);
    assert_eq!(
        seen[0],
        b"HTTP/1.1 200 OK\r\nContent-type: image/jpeg\r\nContent-size: 4\r\n\r\n\xff\xd8\xff\xe0"
    );
}

#[test]
fn unusable_bytes_close_the_connection() {
    let s = server("/srv");
    assert!(matches!(s.receive(b""), Action::Close(ParseError::Empty)));
    assert!(matches!(s.receive(b"\xff\xfe"), Action::Close(ParseError::InvalidUtf8)));
    assert!(matches!(s.receive(b"GET /\r\n"), Action::Close(ParseError::Malformed)));
}

#[test]
fn route_dispatches_on_the_method() {
    let s = server("root");
    let get = Request {
        method: "GET".to_string(),
        target: "/a/b.png".to_string(),
        version: "HTTP/1.1".to_string(),
    };
    assert_eq!(fetch(s.route(&get)), "root/a/b.png");
    let put = Request { method: "PUT".to_string(), ..get };
    assert_eq!(reply(s.route(&put)).status, 501);
}

#[test]
fn extension_is_what_follows_the_last_dot_of_the_file_name() {
    assert_eq!(extension_of("/srv/index.html"), Some("html"));
    assert_eq!(extension_of("/srv/archive.tar.gz"), Some("gz"));
    assert_eq!(extension_of("a.b"), Some("b"));
    assert_eq!(extension_of("/srv/..foo"), Some("foo"));
    assert_eq!(extension_of("/srv/README"), None);
    assert_eq!(extension_of("/srv.d/README"), None);
    assert_eq!(extension_of("/srv/.profile"), None);
    assert_eq!(extension_of("/srv/name."), None);
    assert_eq!(extension_of("/srv/.."), None);
    assert_eq!(extension_of("/srv/."), None);
    assert_eq!(extension_of("/srv/a.txt/"), None);
    assert_eq!(extension_of(""), None);
}

#[test]
fn content_type_table() {
    let s = server("/srv");
    assert_eq!(s.get_type(Some("gif")), "image/gif");
    assert_eq!(s.get_type(Some("png")), "image/png");
    assert_eq!(s.get_type(Some("jpg")), "image/jpeg");
    assert_eq!(s.get_type(Some("txt")), "text/plain");
    assert_eq!(s.get_type(Some("html")), "text/html");
    assert_eq!(s.get_type(Some("htm")), "text/plain");
    assert_eq!(s.get_type(Some("PNG")), "text/plain");
    assert_eq!(s.get_type(Some("")), "text/plain");
    assert_eq!(s.get_type(None), "text/plain");
}

#[test]
fn status_table() {
    let s = server("/srv");
    let table: [(u32, &str); 44] = [
        (100, "Continue"),
        (101, "Switching protocols"),
        (200, "OK"),
        (201, "Created"),
        (202, "Accepted"),
        (203, "Non-Authoritative Information"),
        (204, "No Content"),
        (205, "Reset Content"),
        (206, "Partial Content"),
        (207, "Partial Update OK"),
        (300, "Multiple Choices"),
        (301, "Moved Permanently"),
        (302, "Moved Temporarily"),
        (303, "See Other"),
        (304, "Not Modified"),
        (305, "Use Proxy"),
        (307, "Temporary Redirect"),
        (400, "Bad Request"),
        (401, "Unauthorized"),
        (402, "Payment Required"),
        (403, "Forbidden"),
        (404, "Not Found"),
        (405, "Method Not Allowed"),
        (406, "Not Acceptable"),
        (407, "Proxy Authentication Required"),
        (408, "Request Timeout"),
        (409, "Conflict"),
        (410, "Gone"),
        (411, "Length Required"),
        (412, "Precondition Failed"),
        (413, "Request Entity Too Large"),
        (414, "Request-URI Too Long"),
        (415, "Unsupported Media Type"),
        (416, "Requested range not satisfiable"),
        (417, "Expectation Failed"),
        (418, "Reauthentication Required"),
        (419, "Proxy Reauthentication Required"),
        (500, "Internal Server Error"),
        (501, "Not Implemented"),
        (502, "Bad Gateway"),
        (503, "Service Unavailable"),
        (504, "Gateway Timeout"),
        (505, "HTTP Version Not Supported"),
        (506, "Partial Update Not Implemented"),
    ];
    for (code, reason) in table {
        assert_eq!(s.get_message(code), reason);
    }
    for code in [0, 99, 102, 199, 208, 306, 308, 420, 499, 507, 600, u32::MAX] {
        assert_eq!(s.get_message(code), "UNKNOWN");
    }
}

#[test]
fn configuration_is_kept() {
    let s = Server::with("0.0.0.0:80".to_string(), "/var/www".to_string());
    assert_eq!(s.listen(), "0.0.0.0:80");
    assert_eq!(s.docroot(), "/var/www");
    let copy = s.clone();
    assert_eq!(copy.listen(), "0.0.0.0:80");
    assert_eq!(copy.docroot(), "/var/www");
}
