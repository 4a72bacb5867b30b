use backend::routes::{get_routes, Method, RouteEntry, RouteError, RouteRegistry};

fn entry(method: Method, path: &str, handler: &str) -> RouteEntry {
    RouteEntry {
        method,
        path: path.to_string(),
        handler: handler.to_string(),
        metadata: String::new(),
    }
}

#[test]
fn get_routes_lists_the_test_page() {
    let routes = get_routes();
    assert_eq!(routes.len(), 1);
    assert_eq!(routes[0].method, Method::Get);
    assert_eq!(routes[0].path, "/test");
    assert_eq!(routes[0].handler, "test_page");
    assert_eq!(routes[0].metadata, "");
}

#[test]
fn get_routes_can_be_registered() {
    let registry = RouteRegistry::from_routes(&get_routes()).unwrap();
    assert_eq!(registry.len(), 1);
    assert!(registry.contains(Method::Get, &"/test".to_string()));
}

#[test]
fn new_registry_is_empty() {
    let registry = RouteRegistry::new();
    assert_eq!(registry.len(), 0);
    assert!(registry.routes().is_empty());
    assert!(registry.route(0).is_none());
}

#[test]
fn registering_the_same_route_twice_fails() {
    let mut registry = RouteRegistry::new();
    let first = registry.register(Method::Get, "/books".to_string(), "list".to_string(), String::new());
    assert_eq!(first, Ok(()));
    let second = registry.register(Method::Get, "/books".to_string(), "other".to_string(), "doc".to_string());
    assert_eq!(second, Err(RouteError::DuplicateRoute));
    // The failed registration changed nothing.
    assert_eq!(registry.len(), 1);
    assert_eq!(registry.route(0).unwrap().handler, "list");
}

#[test]
fn distinct_routes_never_collide() {
    let mut registry = RouteRegistry::new();
    assert!(registry.register(Method::Get, "/books".to_string(), "list".to_string(), String::new()).is_ok());
    // Same path, other method.
    assert!(registry.register(Method::Post, "/books".to_string(), "add".to_string(), String::new()).is_ok());
    // Same method, other path.
    assert!(registry.register(Method::Get, "/books/".to_string(), "list2".to_string(), String::new()).is_ok());
    // Same handler is no collision.
    assert!(registry.register(Method::Delete, "/books".to_string(), "list".to_string(), String::new()).is_ok());
    assert_eq!(registry.len(), 4);
}

#[test]
fn routes_come_in_registration_order_every_time() {
    let mut registry = RouteRegistry::new();
    registry.register(Method::Put, "/c".to_string(), "third".to_string(), "m3".to_string()).unwrap();
    registry.register(Method::Get, "/a".to_string(), "first".to_string(), "m1".to_string()).unwrap();
    registry.register(Method::Get, "/b".to_string(), "second".to_string(), "m2".to_string()).unwrap();
    for _ in 0..2 {
        let handlers: Vec<String> = registry.routes().iter().map(|e| e.handler.clone()).collect();
        assert_eq!(handlers, vec!["third".to_string(), "first".to_string(), "second".to_string()]);
    }
    let second = registry.route(1).unwrap();
    assert_eq!(second.method, Method::Get);
    assert_eq!(second.path, "/a");
    assert_eq!(second.metadata, "m1");
    assert!(registry.route(3).is_none());
}

#[test]
fn contains_looks_at_method_and_path() {
    let mut registry = RouteRegistry::new();
    registry.register(Method::Get, "/a".to_string(), "h".to_string(), String::new()).unwrap();
    assert!(registry.contains(Method::Get, &"/a".to_string()));
    assert!(!registry.contains(Method::Post, &"/a".to_string()));
    assert!(!registry.contains(Method::Get, &"/A".to_string()));
    assert!(!registry.contains(Method::Get, &"".to_string()));
}

#[test]
fn from_routes_registers_in_order() {
    let routes = vec![
        entry(Method::Get, "/a", "ha"),
        entry(Method::Post, "/a", "hb"),
        entry(Method::Get, "/b", "hc"),
    ];
    let registry = RouteRegistry::from_routes(&routes).unwrap();
    assert_eq!(registry.len(), 3);
    assert_eq!(registry.route(0).unwrap().handler, "ha");
    assert_eq!(registry.route(1).unwrap().handler, "hb");
    assert_eq!(registry.route(2).unwrap().handler, "hc");
}

#[test]
fn from_routes_fails_on_a_duplicate() {
    let routes = vec![
        entry(Method::Get, "/a", "ha"),
        entry(Method::Get, "/b", "hb"),
        entry(Method::Get, "/a", "hc"),
    ];
    assert_eq!(RouteRegistry::from_routes(&routes).unwrap_err(), RouteError::DuplicateRoute);
}

#[test]
fn from_routes_accepts_no_routes() {
    let registry = RouteRegistry::from_routes(&Vec::new()).unwrap();
    assert_eq!(registry.len(), 0);
}
