use http_server::{Request, Route, StatusCode, WebsiteHandler};

fn route_for(line: &str) -> Route {
    let handler = WebsiteHandler::new("public".to_string());
    let request = Request::parse(line.as_bytes()).unwrap();
    handler.route(&request)
}

#[test]
fn root_is_index_page() {
    assert_eq!(route_for("GET / HTTP/1.1\r\n"), Route::Page("/index.html".to_string()));
}

#[test]
fn home_is_hello_page() {
    assert_eq!(route_for("GET /home HTTP/1.1\r\n"), Route::Page("/hello.html".to_string()));
}

#[test]
fn other_get_is_file() {
    assert_eq!(route_for("GET /style.css?v=2 HTTP/1.1\r\n"), Route::File("/style.css".to_string()));
}

#[test]
fn other_method_is_unserved() {
    assert_eq!(route_for("POST / HTTP/1.1\r\n"), Route::Unserved);
}

#[test]
fn file_path_joins() {
    let handler = WebsiteHandler::new("public".to_string());
    assert_eq!(handler.public_path(), "public");
    assert_eq!(handler.file_path("/index.html"), "public//index.html");
}

#[test]
fn containment() {
    assert!(WebsiteHandler::is_within("/srv/public", "/srv/public/a.html"));
    assert!(!WebsiteHandler::is_within("/srv/public", "/srv/secret"));
    assert!(!WebsiteHandler::is_within("/srv/public", "/srv"));
    assert!(WebsiteHandler::is_within("/srv/public", "/srv/public"));
    assert!(!WebsiteHandler::is_within("/srv/pub", "/srv/public2/x"));
    assert!(WebsiteHandler::is_within("/", "/etc"));
}

#[test]
fn answers() {
    let page = Route::Page("/index.html".to_string());
    let r = WebsiteHandler::answer(&page, None);
    assert_eq!(r.status(), StatusCode::Okay);
    assert_eq!(r.content(), None);
    let file = Route::File("/a.css".to_string());
    let r = WebsiteHandler::answer(&file, Some("body{}".to_string()));
    assert_eq!(r.status(), StatusCode::Okay);
    assert_eq!(r.content(), Some(&"body{}".to_string()));
    let r = WebsiteHandler::answer(&file, None);
    assert_eq!(r.status(), StatusCode::NotFound);
    let r = WebsiteHandler::answer(&Route::Unserved, Some("x".to_string()));
    assert_eq!(r.status(), StatusCode::NotFound);
    assert_eq!(r.content(), None);
}
