use cache_proxy::cache::ResponseCache;
use cache_proxy::handler::{after_forward, after_lookup, begin, finish, forward_url, ForwardFailure, Step};
use cache_proxy::request::{get_path, is_white_space, parse_query, parse_request, parse_request_line, split_once};
use cache_proxy::response::{error_response_bytes, push_decimal, send_response};

fn lines(items: &[&str]) -> Vec<String> {
    items.iter().map(|s| s.to_string()).collect()
}

fn pairs(items: &[(&str, &str)]) -> Vec<(String, String)> {
    items.iter().map(|(k, v)| (k.to_string(), v.to_string())).collect()
}

fn hit_or_miss(body: &[u8], tag: &str) -> Vec<u8> {
    let mut out = format!(
        "HTTP/1.1 200 OK\r\nContent-Length: {}\r\nContent-Type: application/octet-stream\r\nX-Cache: {}\r\n\r\n",
        body.len(),
        tag
    )
    .into_bytes();
    out.extend_from_slice(body);
    out
}

fn expect_forward(step: Step) -> (String, String) {
    match step {
        Step::Forward { path, url } => (path, url),
        Step::Respond(_) => panic!("expected a forward"),
    }
}

fn expect_respond(step: Step) -> Vec<u8> {
    match step {
        Step::Respond(bytes) => bytes,
        Step::Forward { .. } => panic!("expected a response"),
    }
}

#[test]
fn path_of_plain_request_line() {
    let head = lines(&["GET /hello HTTP/1.1", "Host: example"]);
    assert_eq!(get_path(&head), "/hello");
}

#[test]
fn path_stops_at_first_question_mark() {
    let p = parse_request_line("GET /a/b?x=1&flag&y=2=3&?z=4 HTTP/1.1").unwrap();
    assert_eq!(p.path, "/a/b");
    assert_eq!(p.query, pairs(&[("x", "1"), ("y", "2=3"), ("?z", "4")]));
}

#[test]
fn target_without_query_has_no_pairs() {
    let p = parse_request_line("GET /plain HTTP/1.0").unwrap();
    assert_eq!(p.path, "/plain");
    assert!(p.query.is_empty());
}

#[test]
fn empty_query_after_question_mark() {
    let p = parse_request_line("GET /x? HTTP/1.1").unwrap();
    assert_eq!(p.path, "/x");
    assert!(p.query.is_empty());
}

#[test]
fn words_split_on_any_white_space() {
    let head = lines(&["  GET\t\t/tabs \u{3000}HTTP/1.1  "]);
    assert_eq!(get_path(&head), "/tabs");
    assert!(is_white_space('\u{3000}'));
    assert!(is_white_space('\u{85}'));
    assert!(!is_white_space('/'));
}

#[test]
fn request_line_with_two_words_is_enough() {
    assert_eq!(get_path(&lines(&["GET /only"])), "/only");
}

#[test]
fn no_request_line_gives_empty_path() {
    assert_eq!(get_path(&Vec::new()), "");
    assert!(parse_request(&Vec::new()).is_none());
}

#[test]
fn blank_request_line_gives_empty_path() {
    assert_eq!(get_path(&lines(&[""])), "");
    assert_eq!(get_path(&lines(&["   \t "])), "");
}

#[test]
fn one_word_request_line_gives_empty_path() {
    assert_eq!(get_path(&lines(&["GET"])), "");
    assert!(parse_request_line("GET").is_none());
}

#[test]
fn only_the_first_line_counts() {
    assert_eq!(get_path(&lines(&["GET /first HTTP/1.1", "GET /second HTTP/1.1"])), "/first");
}

#[test]
fn query_pairs_in_order() {
    assert_eq!(parse_query("a=1&b=&=c&d"), pairs(&[("a", "1"), ("b", ""), ("", "c")]));
    assert_eq!(parse_query(""), pairs(&[]));
    assert_eq!(parse_query("a=1&"), pairs(&[("a", "1")]));
    assert_eq!(parse_query("k=v=w"), pairs(&[("k", "v=w")]));
}

#[test]
fn query_pairs_round_trip() {
    let given = pairs(&[("name", "ada"), ("lang", "rust"), ("empty", "")]);
    let joined = given.iter().map(|(k, v)| format!("{}={}", k, v)).collect::<Vec<_>>().join("&");
    assert_eq!(parse_query(&joined), given);
}

#[test]
fn split_once_at_first_separator() {
    assert_eq!(split_once("a=b=c", '='), Some(("a".to_string(), "b=c".to_string())));
    assert_eq!(split_once("abc", '='), None);
    assert_eq!(split_once("é?ü", '?'), Some(("é".to_string(), "ü".to_string())));
}

#[test]
fn decimal_digits() {
    let mut out = b"n=".to_vec();
    push_decimal(&mut out, 0);
    assert_eq!(out, b"n=0".to_vec());
    let mut out = Vec::new();
    push_decimal(&mut out, 1234567);
    assert_eq!(out, b"1234567".to_vec());
    let mut out = Vec::new();
    push_decimal(&mut out, usize::MAX);
    assert_eq!(out, usize::MAX.to_string().into_bytes());
}

#[test]
fn miss_response_bytes() {
    let r = send_response(b"world".to_vec(), false);
    assert_eq!(
        r,
        b"HTTP/1.1 200 OK\r\nContent-Length: 5\r\nContent-Type: application/octet-stream\r\nX-Cache: MISS\r\n\r\nworld".to_vec()
    );
}

#[test]
fn hit_response_bytes() {
    let r = send_response(Vec::new(), true);
    assert_eq!(
        r,
        b"HTTP/1.1 200 OK\r\nContent-Length: 0\r\nContent-Type: application/octet-stream\r\nX-Cache: HIT\r\n\r\n".to_vec()
    );
    let body = vec![0u8, 255, 10, 13];
    assert_eq!(send_response(body.clone(), true), hit_or_miss(&body, "HIT"));
}

#[test]
fn error_response_is_bare_status_line() {
    assert_eq!(error_response_bytes(), b"HTTP/1.1 500 Internal Server Error\r\n\r\n".to_vec());
}

#[test]
fn url_joins_origin_and_path() {
    assert_eq!(forward_url("http://127.0.0.1:9000", "/hello"), "http://127.0.0.1:9000/hello");
    assert_eq!(forward_url("http://o", ""), "http://o");
}

#[test]
fn cache_keeps_each_path_apart() {
    let cache = ResponseCache::new();
    assert_eq!(cache.lookup(&"/a".to_string()), None);
    cache.insert("/a".to_string(), b"one".to_vec());
    cache.insert("/b".to_string(), b"two".to_vec());
    assert_eq!(cache.lookup(&"/a".to_string()), Some(b"one".to_vec()));
    assert_eq!(cache.lookup(&"/b".to_string()), Some(b"two".to_vec()));
    cache.insert("/a".to_string(), b"three".to_vec());
    assert_eq!(cache.lookup(&"/a".to_string()), Some(b"three".to_vec()));
}

#[test]
fn lookup_hit_is_served() {
    let r = expect_respond(after_lookup("http://o", "/p".to_string(), Some(b"body".to_vec())));
    assert_eq!(r, hit_or_miss(b"body", "HIT"));
    let (path, url) = expect_forward(after_lookup("http://o", "/p".to_string(), None));
    assert_eq!(path, "/p");
    assert_eq!(url, "http://o/p");
}

#[test]
fn forward_outcomes() {
    let (store, r) = after_forward("/p".to_string(), Ok(b"xyz".to_vec()));
    assert_eq!(store, Some(("/p".to_string(), b"xyz".to_vec())));
    assert_eq!(r, hit_or_miss(b"xyz", "MISS"));
    let (store, r) = after_forward("/p".to_string(), Err(ForwardFailure { cause: "refused".to_string() }));
    assert_eq!(store, None);
    assert_eq!(r, b"HTTP/1.1 500 Internal Server Error\r\n\r\n".to_vec());
}

#[test]
fn hello_world_miss_then_hit() {
    let cache = ResponseCache::new();
    let origin = "http://127.0.0.1:8081";
    let head = lines(&["GET /hello HTTP/1.1", "Host: proxy"]);
    let (path, url) = expect_forward(begin(&cache, origin, &head));
    assert_eq!(path, "/hello");
    assert_eq!(url, "http://127.0.0.1:8081/hello");
    let first = finish(&cache, path, Ok(b"world".to_vec()));
    assert_eq!(first, hit_or_miss(b"world", "MISS"));
    let second = expect_respond(begin(&cache, origin, &head));
    assert_eq!(second, hit_or_miss(b"world", "HIT"));
}

#[test]
fn same_path_twice_gives_same_body() {
    let cache = ResponseCache::new();
    let head = lines(&["GET /data?v=1 HTTP/1.1"]);
    let (path, _) = expect_forward(begin(&cache, "http://o", &head));
    assert_eq!(path, "/data");
    let first = finish(&cache, path, Ok(vec![1, 2, 3]));
    let second = expect_respond(begin(&cache, "http://o", &lines(&["GET /data HTTP/1.1"])));
    assert_eq!(first, hit_or_miss(&[1, 2, 3], "MISS"));
    assert_eq!(second, hit_or_miss(&[1, 2, 3], "HIT"));
}

#[test]
fn other_path_is_not_served_from_cache() {
    let cache = ResponseCache::new();
    cache.insert("/b".to_string(), b"payload of b".to_vec());
    let (path, url) = expect_forward(begin(&cache, "http://o", &lines(&["GET /a HTTP/1.1"])));
    assert_eq!(path, "/a");
    assert_eq!(url, "http://o/a");
}

#[test]
fn empty_path_bypasses_cache() {
    let cache = ResponseCache::new();
    cache.insert(String::new(), b"stale".to_vec());
    let (path, url) = expect_forward(begin(&cache, "http://o", &Vec::new()));
    assert_eq!(path, "");
    assert_eq!(url, "http://o");
}

#[test]
fn unreachable_origin_gives_500_and_caches_nothing() {
    let cache = ResponseCache::new();
    let head = lines(&["GET /down HTTP/1.1"]);
    let (path, _) = expect_forward(begin(&cache, "http://o", &head));
    let r = finish(&cache, path, Err(ForwardFailure { cause: "connection refused".to_string() }));
    assert_eq!(r, b"HTTP/1.1 500 Internal Server Error\r\n\r\n".to_vec());
    assert_eq!(cache.lookup(&"/down".to_string()), None);
    expect_forward(begin(&cache, "http://o", &head));
}

#[test]
fn simultaneous_first_requests_leave_one_whole_body() {
    let runtime = tokio::runtime::Builder::new_multi_thread().worker_threads(4).build().unwrap();
    let cache = std::sync::Arc::new(ResponseCache::new());
    let bodies: Vec<Vec<u8>> = (0..16u8).map(|i| vec![i; 4096 + i as usize]).collect();
    let head = lines(&["GET /slow HTTP/1.1"]);
    let mut handles = Vec::new();
    for body in bodies.clone() {
        let cache = std::sync::Arc::clone(&cache);
        let head = head.clone();
        handles.push(runtime.spawn(async move {
            let (path, _) = match begin(&cache, "http://o", &head) {
                Step::Forward { path, url } => (path, url),
                Step::Respond(bytes) => return bytes,
            };
            tokio::task::yield_now().await;
            finish(&cache, path, Ok(body))
        }));
    }
    for handle in handles {
        let response = runtime.block_on(handle).unwrap();
        assert!(bodies.iter().any(|b| response == hit_or_miss(b, "MISS") || response == hit_or_miss(b, "HIT")));
    }
    let stored = cache.lookup(&"/slow".to_string()).unwrap();
    assert!(bodies.contains(&stored));
}
