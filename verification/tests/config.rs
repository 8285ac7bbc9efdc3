use rshttpd::config::ConfigError;
use rshttpd::limits::{is_readable, MAX_DEPTH, MAX_EXPONENT, MAX_KEY_BYTES};
use rshttpd::server::Server;

fn config(listen: &str, docroot: &str) -> String {
    format!("{{\"listen\": \"{}\", \"docroot\": \"{}\"}}", listen, docroot)
}

fn with_member(member: &str) -> String {
    format!("{{\"listen\": \"a\", \"docroot\": \"b\", {}}}", member)
}

fn loads(text: &str) {
    assert!(is_readable(text), "{:?}", text);
    assert_eq!(Server::refusal(text), None, "{:?}", text);
    let s = Server::load(text).unwrap();
    assert_eq!(s.listen(), "a");
    assert_eq!(s.docroot(), "b");
    let s = Server::new(text);
    assert_eq!(s.listen(), "a");
    assert_eq!(s.docroot(), "b");
}

fn fails(text: &str, error: ConfigError) {
    assert_eq!(is_readable(text), error != ConfigError::Unreadable, "{:?}", text);
    assert_eq!(Server::refusal(text), Some(error), "{:?}", text);
    assert_eq!(Server::load(text).err(), Some(error), "{:?}", text);
}

#[test]
fn configuration_is_read_from_json() {
    let text = "{\"listen\": \"127.0.0.1:8080\", \"docroot\": \"/var/www\"}";
    let s = Server::new(text);
    assert_eq!(s.listen(), "127.0.0.1:8080");
    assert_eq!(s.docroot(), "/var/www");
    let s = Server::load(text).unwrap();
    assert_eq!(s.listen(), "127.0.0.1:8080");
    assert_eq!(s.docroot(), "/var/www");
    assert_eq!(Server::refusal(text), None);
}

#[test]
fn other_members_are_ignored() {
    let text = "{\n  \"docroot\": \"htdocs\",\n  \"workers\": 4,\n  \"listen\": \"[::1]:80\",\n  \"tls\": null,\n  \"hosts\": [{\"name\": \"x\", \"ports\": [1, 2.5e3, -7]}, {}]\n}\n";
    let s = Server::new(text);
    assert_eq!(s.listen(), "[::1]:80");
    assert_eq!(s.docroot(), "htdocs");
}

#[test]
fn texts_are_taken_as_they_are_written() {
    let s = Server::new(&config("  0.0.0.0:80 ", "relative/dir//"));
    assert_eq!(s.listen(), "  0.0.0.0:80 ");
    assert_eq!(s.docroot(), "relative/dir//");
    let s = Server::new(&config("", ""));
    assert_eq!(s.listen(), "");
    assert_eq!(s.docroot(), "");
}

#[test]
fn escapes_in_strings_are_decoded() {
    let s = Server::new("{\"listen\": \"a\\u0041\", \"docroot\": \"C:\\\\www\\/x\"}");
    assert_eq!(s.listen(), "aA");
    assert_eq!(s.docroot(), "C:\\www/x");
}

#[test]
fn text_that_is_not_json_is_refused() {
    for text in [
        "",
        "{",
        "{\"listen\": }",
        "listen = 1",
        "{\"listen\": \"a\",}",
        "{\"listen\": \"a\" , \n}",
        "{} {}",
        "[1,]",
        "[[1,]]",
        "[1,}",
        "true1234567890123",
        "{\"listen\": \"a",
        "]",
        "}",
    ] {
        fails(text, ConfigError::Syntax);
    }
}

#[test]
fn json_that_is_no_object_is_refused() {
    for text in ["[]", "\"listen\"", "1", "null", "true", "[{\"listen\": \"a\", \"docroot\": \"b\"}]"] {
        fails(text, ConfigError::NotAnObject);
    }
}

#[test]
fn listen_must_be_a_string() {
    for text in [
        "{}",
        "{\"docroot\": \"/srv\"}",
        "{\"listen\": 8080, \"docroot\": \"/srv\"}",
        "{\"Listen\": \"a\", \"docroot\": \"/srv\"}",
    ] {
        fails(text, ConfigError::Listen);
    }
}

#[test]
fn docroot_must_be_a_string() {
    for text in [
        "{\"listen\":\"127.0.0.1:8080\"}",
        "{\"listen\": \"a\", \"docroot\": [\"/srv\"]}",
        "{\"listen\": \"a\", \"docroot\": null}",
    ] {
        fails(text, ConfigError::Docroot);
    }
}

#[test]
fn settings_decide_in_order() {
    let a = || Some("a".to_string());
    let b = || Some("b".to_string());
    assert_eq!(Server::from_settings(false, a(), b()).err(), Some(ConfigError::NotAnObject));
    assert_eq!(Server::from_settings(false, None, None).err(), Some(ConfigError::NotAnObject));
    assert_eq!(Server::from_settings(true, None, None).err(), Some(ConfigError::Listen));
    assert_eq!(Server::from_settings(true, None, b()).err(), Some(ConfigError::Listen));
    assert_eq!(Server::from_settings(true, a(), None).err(), Some(ConfigError::Docroot));
    let s = Server::from_settings(true, a(), b()).unwrap();
    assert_eq!(s.listen(), "a");
    assert_eq!(s.docroot(), "b");
}

#[test]
fn comma_before_the_brace_of_a_nested_object_is_not_read() {
    for text in [
        "[{\"a\":{\"b\":1,},\"c\":2}]",
        "{\"a\":{\"b\":1,},\"c\":2}",
        "[{\"a\":1,}]",
        "{\"listen\": \"a\", \"docroot\": \"b\", \"x\": {\"y\": 1 , \t\r\n }}",
        "[[1,}",
    ] {
        fails(text, ConfigError::Unreadable);
    }
}

#[test]
fn comma_and_brace_inside_a_string_are_text() {
    loads(&with_member("\"x\": {\"y\": \",}\"}"));
    loads(&with_member("\"x\": {\",\": \"}\"}"));
    loads(&with_member("\"x\": [{\"y\": \"\\\\\"}, {\"z\": \"\\\",}\"}]"));
}

#[test]
fn digits_inside_a_string_are_text() {
    let s = Server::new("{\"listen\":\"a\",\"docroot\":\"/e0123456789\"}");
    assert_eq!(s.docroot(), "/e0123456789");
    let s = Server::new(&config("node1e99999999999999999999:80", "/srv/release20240101120000"));
    assert_eq!(s.listen(), "node1e99999999999999999999:80");
    assert_eq!(s.docroot(), "/srv/release20240101120000");
    loads(&with_member("\"1e99999999999999999999\": \"2E+99999999999999999999\""));
}

#[test]
fn exponents_are_read_up_to_the_limit() {
    for mark in ["e", "E", "e+", "e-", "E+", "E-"] {
        loads(&with_member(&format!("\"x\": 1{}{}", mark, MAX_EXPONENT)));
        loads(&with_member(&format!("\"x\": -1.25{}000000000000{}", mark, MAX_EXPONENT)));
        fails(&with_member(&format!("\"x\": 1{}{}", mark, MAX_EXPONENT + 1)), ConfigError::Unreadable);
        fails(&format!("[0.5{}99999999999999999999]", mark), ConfigError::Unreadable);
    }
    loads(&with_member("\"x\": 123456789012345678"));
    loads(&with_member("\"x\": 0.12345678901234567890123"));
}

#[test]
fn nesting_is_read_up_to_the_limit() {
    let deep = format!("{}{}", "[".repeat(MAX_DEPTH), "]".repeat(MAX_DEPTH));
    fails(&deep, ConfigError::NotAnObject);
    let deeper = format!("{}{}", "[".repeat(MAX_DEPTH + 1), "]".repeat(MAX_DEPTH + 1));
    fails(&deeper, ConfigError::Unreadable);
    let mixed = format!("{}{}", "[{\"k\":".repeat(MAX_DEPTH / 2), "[");
    fails(&mixed, ConfigError::Unreadable);
    let inside = format!("{}1{}", "{\"k\":".repeat(MAX_DEPTH - 1), "}".repeat(MAX_DEPTH - 1));
    loads(&with_member(&format!("\"x\": {}", inside)));
}

#[test]
fn nesting_is_depth_and_not_number() {
    let wide = format!("[{}[]]", "[{}],".repeat(4 * MAX_DEPTH));
    loads(&with_member(&format!("\"x\": {}", wide)));
    loads(&with_member(&format!("\"x\": \"{}\"", "[{".repeat(4 * MAX_DEPTH))));
}

#[test]
fn keys_are_read_up_to_the_limit() {
    let longest = "k".repeat(MAX_KEY_BYTES);
    loads(&with_member(&format!("\"{}\": 1", longest)));
    fails(&with_member(&format!("\"{}k\": 1", longest)), ConfigError::Unreadable);

    let wide = "\u{e9}".repeat(MAX_KEY_BYTES / 2);
    loads(&with_member(&format!("\"{}\": 1", wide)));
    fails(&with_member(&format!("\"{}\u{e9}\": 1", wide)), ConfigError::Unreadable);
}

#[test]
fn escapes_in_keys_count_as_what_they_stand_for() {
    loads(&with_member(&format!("\"{}\": 1", "\\u0041".repeat(MAX_KEY_BYTES))));
    fails(&with_member(&format!("\"{}\": 1", "\\u0041".repeat(MAX_KEY_BYTES + 1))), ConfigError::Unreadable);
    loads(&with_member(&format!("\"{}\": 1", "\\n".repeat(MAX_KEY_BYTES))));
    fails(&with_member(&format!("\"{}\": 1", "\\\\".repeat(MAX_KEY_BYTES + 1))), ConfigError::Unreadable);
    loads(&with_member(&format!("\"k{}\": 1", "\\u00E9".repeat(MAX_KEY_BYTES / 2))));
    fails(&with_member(&format!("\"kk{}\": 1", "\\u00e9".repeat(MAX_KEY_BYTES / 2))), ConfigError::Unreadable);
    loads(&with_member(&format!("\"{}\": 1", "\\u20ac".repeat(MAX_KEY_BYTES / 3))));
    fails(&with_member(&format!("\"k{}\": 1", "\\u20AC".repeat(MAX_KEY_BYTES / 3))), ConfigError::Unreadable);
    loads(&with_member(&format!("\"kkk{}\": 1", "\\ud83d\\ude00".repeat(MAX_KEY_BYTES / 4))));
    fails(&with_member(&format!("\"kkkk{}\": 1", "\\uD83D\\uDE00".repeat(MAX_KEY_BYTES / 4))), ConfigError::Unreadable);
}

#[test]
fn escapes_do_not_end_a_string() {
    loads(&with_member("\"x\": \"\\\"[[[{{{,}\""));
    loads(&with_member("\"x\": \"\\\\\", \"y\": \"\\u005c\\\"{,}\""));
    fails("[\"\\\\\", {\"a\": 1,}]", ConfigError::Unreadable);
}

#[test]
fn keys_count_together_only_while_they_are_held() {
    let outer = "o".repeat(40000);
    let inner = "i".repeat(MAX_KEY_BYTES - 40000);
    loads(&with_member(&format!("\"{}\": {{\"{}\": [{{\"\": 1}}]}}", outer, inner)));
    fails(
        &with_member(&format!("\"{}\": {{\"{}\": [{{\"x\": 1}}]}}", outer, inner)),
        ConfigError::Unreadable,
    );
    loads(&with_member(&format!("\"{}\": {{\"a\": 1}}, \"{}\": {{\"b\": 2}}", outer, outer)));
    loads(&with_member(&format!("\"{}\": [\"{}\", \"{}\"]", outer, outer, outer)));
}

#[test]
fn values_may_be_long() {
    let long = "d".repeat(3 * MAX_KEY_BYTES);
    let s = Server::new(&config("a", &long));
    assert_eq!(s.docroot(), long);
    loads(&with_member(&format!("\"x\": [\"{}\", {{\"k\": \"{}\"}}]", long, long)));
}

#[test]
fn every_error_has_its_message() {
    assert_eq!(
        ConfigError::Unreadable.message(),
        "Config is beyond the limits of the JSON reader."
    );
    assert_eq!(ConfigError::Syntax.message(), "Config is not valid JSON.");
    assert_eq!(ConfigError::NotAnObject.message(), "Config is not a valid JSON file.");
    assert_eq!(
        ConfigError::Listen.message(),
        "'config.listen' was missing or is not a valid string"
    );
    assert_eq!(
        ConfigError::Docroot.message(),
        "'config.docroot' was missing or is not a valid string"
    );
}
