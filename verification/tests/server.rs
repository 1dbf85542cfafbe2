use std::io::{Error, ErrorKind};

use sendsure_rust::{allow_origin_header, handle_accept_error, is_ignorable_connection_error, route_request, Route};

#[test]
fn ignorable_connection_errors() {
    for kind in [
        ErrorKind::BrokenPipe,
        ErrorKind::ConnectionReset,
        ErrorKind::ConnectionAborted,
        ErrorKind::UnexpectedEof,
    ] {
        assert!(is_ignorable_connection_error(&Error::new(kind, "x")));
        assert!(handle_accept_error(Error::new(kind, "x")).is_ok());
    }
    for kind in [ErrorKind::PermissionDenied, ErrorKind::AddrInUse, ErrorKind::Other] {
        assert!(!is_ignorable_connection_error(&Error::new(kind, "x")));
        let err = handle_accept_error(Error::new(kind, "kept")).unwrap_err();
        assert_eq!(err.kind(), kind);
        assert_eq!(err.to_string(), "kept");
    }
}

#[test]
fn routes_by_first_line() {
    let cases = [
        ("OPTIONS /api/evaluate HTTP/1.1\r\nHost: x", Route::EvaluateOptions),
        ("GET /health HTTP/1.1\r\n", Route::Health),
        ("GET /api/scenarios HTTP/1.1", Route::Scenarios),
        ("POST /api/evaluate HTTP/1.1\r\nContent-Length: 2", Route::Evaluate),
        ("GET / HTTP/1.1", Route::Index),
        ("GET /app.js HTTP/1.1", Route::AppJs),
        ("GET /styles.css HTTP/1.1", Route::Styles),
        ("GET /favicon.svg HTTP/1.1", Route::Mark),
        ("GET /assets/sendsure-mark.svg HTTP/1.1", Route::Mark),
        ("GET /assets/sendsure-logo-horizontal.svg HTTP/1.1", Route::LogoHorizontal),
        ("GET /health?x=1 HTTP/1.1", Route::NotFound),
        ("GET /nothing HTTP/1.1", Route::NotFound),
        ("", Route::NotFound),
        ("\r\nGET /health HTTP/1.1", Route::NotFound),
    ];
    for (request, route) in cases {
        assert_eq!(route_request(request), route, "{request:?}");
    }
}

#[test]
fn route_answers() {
    assert_eq!(Route::EvaluateOptions.status(), "204 No Content");
    assert_eq!(Route::NotFound.status(), "404 Not Found");
    assert_eq!(Route::Health.status(), "200 OK");
    assert_eq!(Route::Index.content_type(), "text/html; charset=utf-8");
    assert_eq!(Route::Evaluate.content_type(), "application/json");
    assert_eq!(Route::Mark.content_type(), "image/svg+xml");
    assert_eq!(Route::Mark.extra_headers(), "Cache-Control: public, max-age=86400\r\n");
    assert_eq!(Route::LogoHorizontal.extra_headers(), "");
    assert_eq!(
        Route::EvaluateOptions.extra_headers(),
        "Access-Control-Allow-Methods: POST, OPTIONS\r\nAccess-Control-Allow-Headers: Content-Type\r\n"
    );
    assert_eq!(allow_origin_header(), "Access-Control-Allow-Origin: *\r\n");
}
