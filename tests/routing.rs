use enroute::captures::Captures;
use enroute::request::{find_header, names_equal};
use enroute::{routes, Builder, Handler, Matcher, Predicate, Request, Router};

fn compiled<H: Handler>(b: Builder<H, Predicate>) -> Router<H, Predicate> {
    match b.build() {
        Ok(r) => r,
        Err(e) => panic!("route table did not compile: {}", e.message),
    }
}

fn get(path: &str) -> Request<()> {
    Request::new("GET", path, ())
}

/// Answers with the text captured by the group `id`, or a marker when there
/// were captures but no `id`, or when there were none at all.
struct EchoId;

impl Handler for EchoId {
    type Body = ();
    type Output = String;
    fn call(&self, _: Request<()>, caps: Option<Captures>) -> String {
        match caps {
            None => "no captures".to_string(),
            Some(c) => match c.get("id") {
                Some(t) => t.to_string(),
                None => format!("{} named", c.len()),
            },
        }
    }
}

#[test]
fn it_works() {
    let routes = compiled(
        routes::<u32>()
            .get("/", 1)
            .get("/foo/(?P<id>\\d+)", 2)
            .route(Predicate::HeaderPresent("x-canary-test".to_string()), "/test", 3),
    );
    assert_eq!(routes.route(get("/")), Some(1));
    assert_eq!(routes.route(get("/foo/str")), None);
    assert_eq!(routes.route(get("/foo/1")), Some(2));
    assert_eq!(routes.route(get("/nope")), None);
}

#[test]
fn capture_is_bound_to_matched_text() {
    let table = compiled(routes::<EchoId>().get("/", EchoId).get("/foo/(?P<id>\\d+)", EchoId));
    assert_eq!(table.route(get("/foo/42")), Some("42".to_string()));
    assert_eq!(table.route(get("/")), Some("0 named".to_string()));
    assert_eq!(table.route(get("/foo/str")), None);
    assert_eq!(table.route(get("/nope")), None);
}

#[test]
fn captures_of_route() {
    let table = compiled(routes::<u32>().get("/a/(?P<x>[a-z]+)/(\\d+)/(?P<y>\\d+)?", 1).get("/plain", 2));
    let c = table.captures_of(0, "/a/bc/7/").unwrap();
    assert_eq!(c.len(), 1);
    assert_eq!(c.get("x"), Some("bc"));
    assert_eq!(c.get("y"), None);
    assert_eq!(c.group_count(), 4);
    assert_eq!(c.group(0), Some("/a/bc/7/"));
    assert_eq!(c.group(2), Some("7"));
    assert_eq!(c.group(3), None);
    let c = table.captures_of(0, "/a/bc/7/99").unwrap();
    assert_eq!(c.len(), 2);
    assert_eq!(c.get("y"), Some("99"));
    assert!(table.captures_of(0, "/a/BC/7/").is_none());
    let plain = table.captures_of(1, "/plain").unwrap();
    assert!(plain.is_empty());
    assert_eq!(plain.group_count(), 1);
    assert_eq!(plain.group(0), Some("/plain"));
    assert!(table.captures_of(1, "/plain/x").is_none());
}

#[test]
fn registration_order_wins() {
    let table = compiled(routes::<u32>().any("/x", 1).get("/x", 2));
    assert_eq!(table.route(get("/x")), Some(1));
    assert_eq!(table.select(&get("/x")), Some(0));
    let table = compiled(routes::<u32>().get("/x", 2).any("/x", 1));
    assert_eq!(table.route(get("/x")), Some(2));
    assert_eq!(table.route(Request::new("POST", "/x", ())), Some(1));
}

#[test]
fn overlapping_patterns_pick_first_registered() {
    let table = compiled(routes::<u32>().get("/a/.*", 1).get("/a/b", 2).get(".*", 3));
    assert_eq!(table.route(get("/a/b")), Some(1));
    assert_eq!(table.route(get("/c")), Some(3));
    assert_eq!(table.select(&get("/c")), Some(2));
}

#[test]
fn header_guarded_route() {
    let table = compiled(
        routes::<u32>().route(Predicate::HeaderPresent("x-canary-test".to_string()), "/test", 3),
    );
    assert_eq!(table.route(get("/test")), None);
    assert_eq!(table.route(get("/test").header("x-canary-test", "1")), Some(3));
    assert_eq!(table.route(get("/test").header("X-Canary-Test", "")), Some(3));
    assert_eq!(table.route(get("/test").header("x-other", "1")), None);
}

#[test]
fn header_value_route() {
    let table = compiled(routes::<u32>().route(
        Predicate::HeaderEquals("accept".to_string(), "text/plain".to_string()),
        "/h",
        5,
    ));
    assert_eq!(table.route(get("/h")), None);
    assert_eq!(table.route(get("/h").header("Accept", "text/plain")), Some(5));
    assert_eq!(table.route(get("/h").header("accept", "text/html")), None);
    assert_eq!(table.route(get("/h").header("accept", "Text/plain")), None);
    // only the first value of the header counts
    assert_eq!(
        table.route(get("/h").header("accept", "text/html").header("accept", "text/plain")),
        None
    );
    assert_eq!(
        table.route(get("/h").header("accept", "text/plain").header("accept", "text/html")),
        Some(5)
    );
}

#[test]
fn method_routes() {
    let table = compiled(
        routes::<u32>().get("/m", 1).post("/m", 2).delete("/m", 3).patch("/m", 4),
    );
    assert_eq!(table.route(Request::new("GET", "/m", ())), Some(1));
    assert_eq!(table.route(Request::new("POST", "/m", ())), Some(2));
    assert_eq!(table.route(Request::new("DELETE", "/m", ())), Some(3));
    assert_eq!(table.route(Request::new("PATCH", "/m", ())), Some(4));
    assert_eq!(table.route(Request::new("PUT", "/m", ())), None);
    assert_eq!(table.route(Request::new("get", "/m", ())), None);
    assert_eq!(table.len(), 4);
}

#[test]
fn anchoring_is_enforced() {
    let table = compiled(routes::<u32>().any("/foo", 1));
    assert_eq!(table.route(get("/foo")), Some(1));
    assert_eq!(table.route(get("/foo/bar")), None);
    assert_eq!(table.route(get("/xfoo")), None);
    assert_eq!(table.route(get("/foo/")), None);
}

#[test]
fn no_normalization_of_paths() {
    let table = compiled(routes::<u32>().any("/", 1).any("/a", 2));
    assert_eq!(table.route(get("")), None);
    assert_eq!(table.route(get("/A")), None);
    assert_eq!(table.route(get("/%61")), None);
    assert_eq!(table.route(get("/a")), Some(2));
}

#[test]
fn predicate_that_always_fails_gives_none() {
    let table = compiled(routes::<u32>().route(Predicate::Method("NEVER".to_string()), "/z", 1));
    assert_eq!(table.route(get("/z")), None);
    assert_eq!(table.select(&get("/z")), None);
}

#[test]
fn empty_table_routes_nothing() {
    let table = compiled(routes::<u32>());
    assert_eq!(table.len(), 0);
    assert_eq!(table.route(get("/")), None);
}

/// Answers with the whole match and the first unnamed group.
struct Positional;

impl Handler for Positional {
    type Body = ();
    type Output = (String, String);
    fn call(&self, _: Request<()>, caps: Option<Captures>) -> (String, String) {
        let c = caps.expect("a routed request always has captures");
        (c.group(0).unwrap_or("-").to_string(), c.group(1).unwrap_or("-").to_string())
    }
}

#[test]
fn handler_gets_whole_match_and_positional_groups() {
    let table = compiled(routes::<Positional>().get("/n/(\\d+)", Positional).get("/plain", Positional));
    assert_eq!(table.route(get("/n/12")), Some(("/n/12".to_string(), "12".to_string())));
    assert_eq!(table.route(get("/plain")), Some(("/plain".to_string(), "-".to_string())));
    assert_eq!(table.route(get("/n/x")), None);
}

#[test]
fn dispatch_is_repeatable() {
    let table = compiled(routes::<EchoId>().get("/foo/(?P<id>\\d+)", EchoId));
    let first = table.route(get("/foo/7"));
    let second = table.route(get("/foo/7"));
    assert_eq!(first, second);
    assert_eq!(first, Some("7".to_string()));
}

#[test]
fn invalid_pattern_fails_to_compile() {
    for _ in 0..2 {
        let r = routes::<u32>().get("/", 1).get("[", 2).build();
        match r {
            Ok(_) => panic!("an invalid pattern compiled"),
            Err(e) => assert!(!e.message.is_empty()),
        }
    }
}

#[test]
fn duplicate_group_name_fails_to_compile() {
    assert!(routes::<u32>().get("/(?P<a>x)(?P<a>y)", 1).build().is_err());
}

#[test]
fn custom_builder_and_default() {
    let b: Builder<u32, Predicate> = Builder::default();
    let table = compiled(b.route(Predicate::Always, "/d", 9));
    assert_eq!(table.route(get("/d")), Some(9));
    let b: Builder<u32, Predicate> = Builder::new();
    assert_eq!(compiled(b).len(), 0);
}

#[test]
fn matcher_predicates() {
    let r = Request::new("POST", "/p", ()).header("X-Key", "v");
    assert!(Predicate::Always.matches(&r));
    assert!(Predicate::Method("POST".to_string()).matches(&r));
    assert!(!Predicate::Method("GET".to_string()).matches(&r));
    assert!(Predicate::HeaderPresent("x-key".to_string()).matches(&r));
    assert!(!Predicate::HeaderPresent("x-ke".to_string()).matches(&r));
    assert!(Predicate::HeaderEquals("x-KEY".to_string(), "v".to_string()).matches(&r));
    assert!(!Predicate::HeaderEquals("x-key".to_string(), "V".to_string()).matches(&r));
}

#[test]
fn header_lookup() {
    let headers = vec![
        ("Host".to_string(), "a".to_string()),
        ("x-a".to_string(), "1".to_string()),
        ("X-A".to_string(), "2".to_string()),
    ];
    assert_eq!(find_header(&headers, "x-a"), Some(1));
    assert_eq!(find_header(&headers, "HOST"), Some(0));
    assert_eq!(find_header(&headers, "x-b"), None);
    assert!(names_equal("Content-Type", "content-type"));
    assert!(!names_equal("content-type", "content-typ"));
    assert!(!names_equal("a-b", "a_b"));
}

#[test]
fn captures_from_groups() {
    let names = vec![None, Some("a".to_string()), None, Some("b".to_string()), Some("c".to_string())];
    let texts = vec![
        Some("whole".to_string()),
        Some("x".to_string()),
        Some("y".to_string()),
        None,
        Some("".to_string()),
    ];
    let c = Captures::from_groups(&names, texts);
    assert_eq!(c.len(), 2);
    assert_eq!(c.get("a"), Some("x"));
    assert_eq!(c.get("b"), None);
    assert_eq!(c.get("c"), Some(""));
    assert_eq!(c.get("whole"), None);
    assert_eq!(c.group_count(), 5);
    assert_eq!(c.group(0), Some("whole"));
    assert_eq!(c.group(2), Some("y"));
    assert_eq!(c.group(3), None);
    assert_eq!(c.group(5), None);
}

#[test]
fn request_building() {
    let r = Request::new("GET", "/r", 5u8).header("a", "1").header("b", "2");
    assert_eq!(r.method, "GET");
    assert_eq!(r.path, "/r");
    assert_eq!(r.body, 5);
    assert_eq!(r.headers, vec![("a".to_string(), "1".to_string()), ("b".to_string(), "2".to_string())]);
}
