use nickel_core::pattern::Matcher;
use nickel_core::router::Router;

#[test]
fn creates_valid_regex_for_var_routes() {
    let matcher = Matcher::compile("foo/:uid/bar/:groupid");
    assert_eq!(matcher.is_match("foo/4711/bar/5490"), true);
    assert_eq!(matcher.is_match("foo/"), false);
}

#[test]
fn can_match_var_routes() {
    let route_store = &mut Router::new();

    let handler = String::from("hello from foo");

    route_store.add_route("/foo/:userid".to_string(), handler.clone());
    route_store.add_route("/bar".to_string(), handler);

    let route = route_store.match_route("/foo/4711".to_string());

    let result = match route {
        Some(_) => true,
        None => false,
    };

    assert_eq!(result, true);

    let route = route_store.match_route("/bar/4711".to_string());

    let result = match route {
        Some(_) => true,
        None => false,
    };

    assert_eq!(result, false);

    let route = route_store.match_route("/foo".to_string());

    let result = match route {
        Some(_) => true,
        None => false,
    };

    assert_eq!(result, false);
}

#[test]
fn literal_template_matches_only_itself() {
    let matcher = Matcher::compile("/bar");
    assert!(matcher.is_match("/bar"));
    assert!(!matcher.is_match("/bar/4711"));
    assert!(!matcher.is_match("/ba"));
    assert!(!matcher.is_match("/barx"));
    assert!(!matcher.is_match(""));
}

#[test]
fn empty_template_matches_only_empty_path() {
    let matcher = Matcher::compile("");
    assert!(matcher.is_match(""));
    assert!(!matcher.is_match("/"));
}

#[test]
fn one_placeholder_consumes_one_segment() {
    let matcher = Matcher::compile("/foo/:userid");
    assert!(matcher.is_match("/foo/4711"));
    assert!(matcher.is_match("/foo/abc-1"));
    assert!(matcher.is_match("/foo/a_B-9"));
    assert!(!matcher.is_match("/foo/"));
    assert!(!matcher.is_match("/foo/4711/extra"));
    assert!(!matcher.is_match("/foo/47/11"));
}

#[test]
fn two_placeholders_keep_the_literal_between() {
    let matcher = Matcher::compile("foo/:uid/bar/:groupid");
    assert!(matcher.is_match("foo/4711/bar/5490"));
    assert!(!matcher.is_match("foo/"));
    assert!(!matcher.is_match("foo/4711/baz/5490"));
    assert!(!matcher.is_match("foo/4711/bar/"));
    assert!(!matcher.is_match("foo/4711/bar"));
}

#[test]
fn placeholder_value_may_contain_hyphen_after_boundary() {
    // The literal after a placeholder opens with '/', so a hyphen inside the
    // next segment still belongs to that segment.
    let matcher = Matcher::compile("/a/:x/b");
    assert!(matcher.is_match("/a/one-two/b"));
    assert!(!matcher.is_match("/a//b"));
}

#[test]
fn captures_hand_out_one_segment_per_placeholder() {
    let matcher = Matcher::compile("/foo/:userid");
    let ranges = matcher.captures("/foo/4711").unwrap();
    assert_eq!(ranges, vec![(5, 9)]);
    assert_eq!(&"/foo/4711"[5..9], "4711");

    let matcher = Matcher::compile("foo/:uid/bar/:groupid");
    let ranges = matcher.captures("foo/4711/bar/5490").unwrap();
    assert_eq!(ranges, vec![(4, 8), (13, 17)]);
    assert_eq!(&"foo/4711/bar/5490"[4..8], "4711");
    assert_eq!(&"foo/4711/bar/5490"[13..17], "5490");

    assert!(matcher.captures("foo/").is_none());

    let literal = Matcher::compile("/bar");
    assert_eq!(literal.captures("/bar").unwrap(), vec![]);
    assert!(literal.captures("/baz").is_none());
}

#[test]
fn registration_order_decides_between_overlapping_routes() {
    let mut router: Router<u32> = Router::new();
    router.add_route("/foo/:userid".to_string(), 1);
    router.add_route("/foo/admin".to_string(), 2);

    // Both templates match "/foo/admin"; the first registered wins.
    let route = router.match_route("/foo/admin".to_string()).unwrap();
    assert_eq!(route.handler, 1);
    assert_eq!(route.path, "/foo/:userid");

    // In the opposite registration order the literal route wins instead.
    let mut router2: Router<u32> = Router::new();
    router2.add_route("/foo/admin".to_string(), 2);
    router2.add_route("/foo/:userid".to_string(), 1);
    let route = router2.match_route("/foo/admin".to_string()).unwrap();
    assert_eq!(route.handler, 2);
}

#[test]
fn empty_router_never_matches() {
    let router: Router<u32> = Router::new();
    assert!(router.match_route("/".to_string()).is_none());
    assert!(router.match_route("".to_string()).is_none());
    assert!(router.match_route("/foo/4711".to_string()).is_none());
}
