//! The route table.

use urich::{RouteId, Router};

#[test]
fn match_after_add_returns_the_id() {
    let mut router = Router::new();
    router.add("GET", "orders/list", RouteId(7));
    assert_eq!(router.match_route("GET", "orders/list"), Some(RouteId(7)));
}

#[test]
fn slashes_around_the_path_do_not_matter_on_either_side() {
    let mut router = Router::new();
    router.add("GET", "//orders/list/", RouteId(1));
    router.add("POST", "items", RouteId(2));
    for probe in ["orders/list", "/orders/list", "orders/list/", "///orders/list//"] {
        assert_eq!(router.match_route("GET", probe), Some(RouteId(1)), "{}", probe);
    }
    for probe in ["items", "/items", "items/", "/items/"] {
        assert_eq!(router.match_route("POST", probe), Some(RouteId(2)), "{}", probe);
    }
    assert_eq!(router.match_route("GET", "orders//list"), None);
}

#[test]
fn methods_are_compared_in_upper_case() {
    let mut router = Router::new();
    router.add("get", "a", RouteId(3));
    assert_eq!(router.match_route("GET", "a"), Some(RouteId(3)));
    assert_eq!(router.match_route("Get", "a"), Some(RouteId(3)));
    assert_eq!(router.match_route("POST", "a"), None);
}

#[test]
fn same_path_keeps_one_id_per_method() {
    let mut router = Router::new();
    router.add("GET", "a", RouteId(1));
    router.add("POST", "a", RouteId(2));
    router.add("DELETE", "a", RouteId(3));
    assert_eq!(router.match_route("GET", "a"), Some(RouteId(1)));
    assert_eq!(router.match_route("POST", "a"), Some(RouteId(2)));
    assert_eq!(router.match_route("DELETE", "a"), Some(RouteId(3)));
}

#[test]
fn a_second_registration_replaces_the_first() {
    let mut router = Router::new();
    router.add("GET", "a", RouteId(1));
    router.add("GET", "b", RouteId(5));
    router.add("get", "/a/", RouteId(2));
    assert_eq!(router.match_route("GET", "a"), Some(RouteId(2)));
    assert_eq!(router.match_route("GET", "b"), Some(RouteId(5)));
}

#[test]
fn empty_table_and_unknown_pairs_do_not_match() {
    let router = Router::default();
    assert_eq!(router.match_route("GET", ""), None);
    let mut router = Router::new();
    router.add("GET", "", RouteId(0));
    assert_eq!(router.match_route("GET", "/"), Some(RouteId(0)));
    assert_eq!(router.match_route("GET", "x"), None);
}

#[test]
fn paths_are_literal() {
    let mut router = Router::new();
    router.add("GET", "users/{id}", RouteId(1));
    assert_eq!(router.match_route("GET", "users/42"), None);
    assert_eq!(router.match_route("GET", "users/{id}"), Some(RouteId(1)));
}
