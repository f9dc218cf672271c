use picam::request::{
    body_of, parse_request, percent_decode, query_param, route, serve_client, url_decode, Route,
};

#[test]
fn query_values_are_found() {
    assert_eq!(query_param("path=a&x=b", "path"), Some("a"));
    assert_eq!(query_param("path=a&x=b", "x"), Some("b"));
    assert_eq!(query_param("path=a&path=b", "path"), Some("a"));
    assert_eq!(query_param("path=a=b", "path"), Some("a=b"));
    assert_eq!(query_param("path=", "path"), Some(""));
    assert_eq!(query_param("path", "path"), None);
    assert_eq!(query_param("", "path"), None);
    assert_eq!(query_param("=a", ""), Some("a"));
    assert_eq!(query_param("xpath=a", "path"), None);
    assert_eq!(query_param("ä=ö&path=ü", "path"), Some("ü"));
}

#[test]
fn values_are_decoded() {
    assert_eq!(url_decode("a%2Fb"), "a/b");
    assert_eq!(url_decode("a%2fb"), "a/b");
    assert_eq!(url_decode("a+b"), "a b");
    assert_eq!(url_decode("%C3%A4"), "ä");
    assert_eq!(url_decode("100%"), "100%");
    assert_eq!(url_decode("%4"), "%4");
    assert_eq!(url_decode("%zz"), "%zz");
    assert_eq!(url_decode("%+5"), "% 5");
    assert_eq!(url_decode("%5+"), "%5 ");
    assert_eq!(url_decode("%%41"), "%A");
    assert_eq!(url_decode(""), "");
}

#[test]
fn bytes_that_are_no_text_are_replaced() {
    assert_eq!(url_decode("a%FFb"), "a\u{fffd}b");
    assert_eq!(percent_decode(b"a%FFb"), vec![b'a', 255, b'b']);
}

#[test]
fn decoding_undoes_a_browsers_encoding() {
    // encodeURIComponent("/home/pi/Bilder/Größe & 100%.jpg")
    let sent = "%2Fhome%2Fpi%2FBilder%2FGr%C3%B6%C3%9Fe%20%26%20100%25.jpg";
    assert_eq!(url_decode(sent), "/home/pi/Bilder/Größe & 100%.jpg");
}

#[test]
fn the_request_line_is_read() {
    let r = parse_request(b"GET /api/gallery/file?path=a HTTP/1.1\r\nHost: x\r\n\r\n");
    assert_eq!(r.method, "GET");
    assert_eq!(r.path, "/api/gallery/file");
    assert_eq!(r.query, "path=a");
}

#[test]
fn missing_words_have_defaults() {
    let r = parse_request(b"");
    assert_eq!((r.method.as_str(), r.path.as_str(), r.query.as_str()), ("GET", "/", ""));
    let r = parse_request(b"POST\r\n");
    assert_eq!((r.method.as_str(), r.path.as_str()), ("POST", "/"));
    let r = parse_request(&[b'P', b'O', b'S', b'T', b' ', b'/', b'x', 255]);
    assert_eq!((r.method.as_str(), r.path.as_str()), ("GET", "/"));
    let r = parse_request(b"\nGET /control");
    assert_eq!((r.method.as_str(), r.path.as_str()), ("GET", "/"));
}

#[test]
fn any_white_space_parts_the_words() {
    let r = parse_request("  DELETE\t\u{a0}/x?a?b  \u{3000}".as_bytes());
    assert_eq!((r.method.as_str(), r.path.as_str(), r.query.as_str()), ("DELETE", "/x", "a?b"));
}

#[test]
fn every_route_is_found() {
    let routes = vec![
        ("GET", "/", Route::Index),
        ("GET", "/control", Route::Control),
        ("GET", "/stream", Route::Mjpeg),
        ("GET", "/stream.mjpg", Route::Mjpeg),
        ("GET", "/mjpeg", Route::Mjpeg),
        ("GET", "/api/state", Route::State),
        ("POST", "/api/capture", Route::Capture),
        ("POST", "/api/record/start", Route::RecordStart),
        ("POST", "/api/record/stop", Route::RecordStop),
        ("POST", "/api/settings", Route::Settings),
        ("GET", "/api/settings", Route::NotFound),
        ("GET", "/api/gallery", Route::GalleryList),
        ("GET", "/api/gallery/file", Route::GalleryFile),
        ("DELETE", "/api/gallery/file", Route::GalleryDelete),
        ("GET", "/api/capture", Route::NotFound),
        ("POST", "/", Route::NotFound),
        ("DELETE", "/", Route::NotFound),
        ("get", "/", Route::NotFound),
        ("GET", "/nothing", Route::NotFound),
    ];
    for (method, path, expected) in routes {
        assert_eq!(route(method, path), expected);
    }
}

#[test]
fn clients_are_routed() {
    let (route, query) = serve_client(b"GET /stream?t=17 HTTP/1.1\r\n");
    assert_eq!(route, Route::Mjpeg);
    assert_eq!(query, "t=17");
    let (route, query) = serve_client(b"DELETE /api/gallery/file?path=%2Fa HTTP/1.1\r\n");
    assert_eq!(route, Route::GalleryDelete);
    assert_eq!(query, "path=%2Fa");
}

#[test]
fn the_body_is_behind_the_first_blank_line() {
    let request = b"POST /api/settings HTTP/1.1\r\nHost: x\r\n\r\n{\"a\":1}\r\n\r\n";
    assert_eq!(body_of(request), Some(&b"{\"a\":1}\r\n\r\n"[..]));
    assert_eq!(body_of(b"POST / HTTP/1.1\r\n\r\n"), Some(&b""[..]));
    assert_eq!(body_of(b"\r\n\r\nx"), Some(&b"x"[..]));
    assert_eq!(body_of(b"POST / HTTP/1.1\r\nHost: x\r\n"), None);
    assert_eq!(body_of(b""), None);
}

#[test]
fn plain_text_is_decoded_on_its_own() {
    assert_eq!(url_decode("a+b%20c%"), format!("{}{}", url_decode("a+b"), url_decode("%20c%")));
    assert_eq!(url_decode("41%41"), "41A");
}
