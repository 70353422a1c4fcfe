use person_service::request::{lines, parse_pairs, Request};
use person_service::text::chars_of;
use std::collections::HashMap;

fn reference_parse(raw: &str) -> Option<(String, String, String)> {
    let lines: Vec<&str> = raw.lines().collect();
    if lines.is_empty() {
        return None;
    }
    let parts: Vec<&str> = lines[0].split_whitespace().collect();
    if parts.len() < 2 {
        return None;
    }
    let body = lines
        .iter()
        .skip_while(|line| !line.is_empty())
        .skip(1)
        .map(|line| *line)
        .collect::<Vec<&str>>()
        .join("\n");
    Some((parts[0].to_string(), parts[1].to_string(), body))
}

fn reference_pairs(body: &str) -> HashMap<String, String> {
    body.split('&')
        .filter_map(|pair| {
            let kv: Vec<&str> = pair.splitn(2, '=').collect();
            if kv.len() == 2 {
                Some((kv[0].to_string(), kv[1].to_string()))
            } else {
                None
            }
        })
        .collect()
}

fn parsed(raw: &str) -> Option<(String, String, String)> {
    Request::parse(raw).map(|r| (r.method, r.path, r.body))
}

#[test]
fn parse_reads_method_path_and_body() {
    let r = Request::parse("POST /person HTTP/1.1\r\nHost: x\r\n\r\nname=Ann&age=30").unwrap();
    assert_eq!(r.method, "POST");
    assert_eq!(r.path, "/person");
    assert_eq!(r.body, "name=Ann&age=30");
}

#[test]
fn parse_without_an_empty_line_has_no_body() {
    let r = Request::parse("GET /person/7 HTTP/1.1\r\nHost: x\r\n").unwrap();
    assert_eq!(r.method, "GET");
    assert_eq!(r.path, "/person/7");
    assert_eq!(r.body, "");
}

#[test]
fn parse_joins_the_lines_of_the_body_with_line_feeds() {
    let r = Request::parse("PUT /p x\n\nline one\r\nline two\n\nlast\n").unwrap();
    assert_eq!(r.body, "line one\nline two\n\nlast");
}

#[test]
fn parse_needs_a_line_with_two_words() {
    assert!(Request::parse("").is_none());
    assert!(Request::parse("\n").is_none());
    assert!(Request::parse("GET").is_none());
    assert!(Request::parse("   GET   \r\n/path").is_none());
    assert!(Request::parse("\nGET /path").is_none());
    assert!(Request::parse(" \t \n").is_none());
}

#[test]
fn parse_skips_white_space_around_the_words() {
    let r = Request::parse("  GET \t /a/b?c=d   HTTP/1.1 extra").unwrap();
    assert_eq!(r.method, "GET");
    assert_eq!(r.path, "/a/b?c=d");
    assert_eq!(r.body, "");
    let r = Request::parse("GET\u{a0}/x\u{3000}rest").unwrap();
    assert_eq!(r.method, "GET");
    assert_eq!(r.path, "/x");
}

#[test]
fn parse_keeps_what_follows_the_body_in_the_buffer() {
    let r = Request::parse("POST /person HTTP/1.1\r\n\r\nname=Ann&age=30\0\0\0").unwrap();
    assert_eq!(r.body, "name=Ann&age=30\0\0\0");
}

#[test]
fn parse_agrees_with_the_standard_library() {
    let samples = [
        "",
        "\n",
        "\r\n",
        "\r",
        "GET /\r",
        "GET / HTTP/1.1",
        "GET / HTTP/1.1\n",
        "GET / HTTP/1.1\r\n\r\n",
        "GET / HTTP/1.1\r\n\r\nbody",
        "GET / HTTP/1.1\r\n\r\nbody\r\n",
        "GET / HTTP/1.1\r\n\r\nbody\r",
        "GET / HTTP/1.1\n\n\n\n",
        "GET / HTTP/1.1\n\na\n\nb\n\n",
        "GET /\r\r\n\r\nx",
        "POST /person HTTP/1.1\r\nContent-Length: 15\r\n\r\nname=Ann&age=30",
        "POST /populate?count=2500 HTTP/1.1\r\n\r\n",
        "one",
        "one two",
        " one two ",
        "one\ttwo\tthree\n\nfour",
        "\n\nGET /",
        "a b\n\r\nc",
        "a b\nheader\r\n\nc\r\nd\r",
        "a\u{2003}b\n\n\u{2003}",
        "GET / HTTP/1.1\r\n\r\nname=Ann&age=30\0\0\0\0",
    ];
    for raw in samples {
        assert_eq!(parsed(raw), reference_parse(raw), "on {:?}", raw);
    }
}

#[test]
fn lines_end_at_line_feeds() {
    let texts = |s: &str| -> Vec<String> {
        lines(&chars_of(s)).iter().map(|l| l.iter().collect::<String>()).collect()
    };
    assert_eq!(texts(""), Vec::<String>::new());
    assert_eq!(texts("a"), vec!["a"]);
    assert_eq!(texts("a\n"), vec!["a"]);
    assert_eq!(texts("a\r\n"), vec!["a"]);
    assert_eq!(texts("a\r"), vec!["a\r"]);
    assert_eq!(texts("a\n\nb"), vec!["a", "", "b"]);
    assert_eq!(texts("\n"), vec![""]);
    assert_eq!(texts("a\r\r\nb\r"), vec!["a\r", "b\r"]);
    for s in ["", "a", "a\n", "a\r\n", "\r\n\r\n", "x\ny\r\nz\r", "\n\n\n", "\r"] {
        let theirs: Vec<String> = s.lines().map(|l| l.to_string()).collect();
        assert_eq!(texts(s), theirs, "on {:?}", s);
    }
}

#[test]
fn parse_body_reads_pairs() {
    let r = Request {
        method: String::from("POST"),
        path: String::from("/person"),
        body: String::from("name=Ann&age=30"),
    };
    let params = r.parse_body();
    assert_eq!(params.len(), 2);
    assert_eq!(params.get("name"), Some(String::from("Ann")));
    assert_eq!(params.get("age"), Some(String::from("30")));
    assert_eq!(params.get_u32("age"), Some(30));
    assert_eq!(params.get("email"), None);
    assert_eq!(params.get_u32("name"), None);
    assert_eq!(params.get_u32("email"), None);
}

#[test]
fn pairs_without_an_equals_sign_are_dropped() {
    let params = parse_pairs("a&b=1&&c=&=d&e=f=g");
    assert_eq!(params.len(), 4);
    assert_eq!(params.get("a"), None);
    assert_eq!(params.get("b"), Some(String::from("1")));
    assert_eq!(params.get("c"), Some(String::from("")));
    assert_eq!(params.get(""), Some(String::from("d")));
    assert_eq!(params.get("e"), Some(String::from("f=g")));
    assert_eq!(parse_pairs("").len(), 0);
}

#[test]
fn last_value_of_a_repeated_key_stays() {
    let params = parse_pairs("k=1&j=x&k=2&k=3");
    assert_eq!(params.len(), 4);
    assert_eq!(params.get("k"), Some(String::from("3")));
    assert_eq!(params.get_u32("k"), Some(3));
    assert_eq!(params.get("j"), Some(String::from("x")));
}

#[test]
fn pairs_agree_with_a_hash_map_built_by_the_standard_library() {
    let samples = [
        "", "a=1", "a=1&b=2", "a=1&a=2", "=", "&", "a", "a=&b", "x=1&&y=2&", "k=v=w&k",
        "name=Ann&age=30", "count=2500", "a=1&b=2&a=3&c=4&b=5",
    ];
    for body in samples {
        let theirs = reference_pairs(body);
        let ours = parse_pairs(body);
        for (k, v) in &theirs {
            assert_eq!(ours.get(k), Some(v.clone()), "key {:?} of {:?}", k, body);
        }
        for k in ["", "a", "b", "c", "k", "x", "y", "name", "age", "count", "zz"] {
            assert_eq!(ours.get(k), theirs.get(k).cloned(), "key {:?} of {:?}", k, body);
        }
    }
}
