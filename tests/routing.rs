use hyperhtml::{Context, Router, RouterPath};

fn paths(list: &[&str]) -> Vec<RouterPath> {
    list.iter().map(|p| RouterPath::new(p)).collect()
}

#[test]
fn route_takes_table_with_known_default() {
    let mut context = Context::new();
    assert!(context.route("/home", paths(&["/", "/home", "/about"])).is_ok());
    assert_eq!(context.router.routes.len(), 3);
    assert_eq!(context.router.default_route, Some(1));
}

#[test]
fn route_rejects_unknown_default() {
    let mut context = Context::new();
    let r = context.route("/missing", paths(&["/", "/home"]));
    assert_eq!(r, Err("Invalid default route path".to_string()));
    assert!(context.router.routes.is_empty());
    assert_eq!(context.router.default_route, None);
}

#[test]
fn failed_reconfiguration_keeps_previous_table() {
    let mut router = Router::new();
    assert!(router.route("/", paths(&["/", "/a"])).is_ok());
    assert!(router.route("/x", paths(&["/b"])).is_err());
    assert_eq!(router.routes.len(), 2);
    assert_eq!(router.default_route, Some(0));
}

#[test]
fn default_is_last_route_with_its_path() {
    let mut router = Router::new();
    assert!(router.route("/a", paths(&["/a", "/b", "/a"])).is_ok());
    assert_eq!(router.default_route, Some(2));
}

#[test]
fn resolve_matches_path_or_falls_back() {
    let mut router = Router::new();
    assert_eq!(router.resolve("/a"), None);
    assert!(router.route("/home", paths(&["/home", "/a", "/b", "/a"])).is_ok());
    assert_eq!(router.resolve("/a"), Some(1));
    assert_eq!(router.resolve("/b"), Some(2));
    assert_eq!(router.resolve("/nowhere"), Some(0));
}
