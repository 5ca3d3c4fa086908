use http_server::interface::{
    http_response, DocType, Encoding, HeaderDetails, Method, Response, Status, Type,
};

#[test]
fn status_headers() {
    assert_eq!(Status::OK.status_header(), "HTTP/1.1 200 OK");
    assert_eq!(Status::Created.status_header(), "HTTP/1.1 201 Created");
    assert_eq!(Status::BadRequest.status_header(), "HTTP/1.1 400 BadRequest");
    assert_eq!(Status::Forbidden.status_header(), "HTTP/1.1 403 Forbidden");
    assert_eq!(Status::NotFound.status_header(), "HTTP/1.1 404 NotFound");
    assert_eq!(
        Status::InternalServerError.status_header(),
        "HTTP/1.1 500 InternalServerError"
    );
    assert_eq!(Status::NotFound.code(), 404);
}

#[test]
fn methods_by_name() {
    assert_eq!(Method::new("POST"), Method::POST);
    assert_eq!(Method::new("GET"), Method::GET);
    assert_eq!(Method::new("PUT"), Method::PUT);
    assert_eq!(Method::new("PATCH"), Method::PUT);
    assert_eq!(Method::new("DELETE"), Method::DELETE);
    let unknown: Vec<char> = "get".chars().collect();
    assert_eq!(Method::from_chars(&unknown), None);
}

#[test]
fn column_types() {
    assert_eq!(Type::TEXT.to_sql("title"), "title TEXT,");
    assert_eq!(Type::INTEGER.as_str(), "INTEGER");
    assert_eq!(Type::from_str("\"text\""), Type::TEXT);
    assert_eq!(Type::from_str("Integer"), Type::INTEGER);
    assert_eq!(Type::from_str("float"), Type::REAL);
    assert_eq!(Type::from_str("REAL"), Type::REAL);
    assert_eq!(Type::from_str("\"\"blob\""), Type::BLOB);
    assert_eq!(Type::from_str("null"), Type::NULL);
    assert_eq!(Type::parse_name("varchar"), None);
    assert_eq!(Type::parse_name(" text"), None);
}

#[test]
fn type_names_read_back() {
    for t in [Type::INTEGER, Type::TEXT, Type::REAL, Type::BLOB, Type::NULL] {
        assert_eq!(Type::parse_name(t.as_str()), Some(t));
    }
}

#[test]
fn request_line_details() {
    let h = HeaderDetails::get_header_details("GET /index HTTP/1.1");
    assert_eq!(h.route, "/index");
    assert_eq!(h.method, Method::GET);
    let h = HeaderDetails::get_header_details("  PATCH\t/api/games/1  HTTP/1.1");
    assert_eq!(h.route, "/api/games/1");
    assert_eq!(h.method, Method::PUT);
    assert!(HeaderDetails::try_header_details("FETCH / HTTP/1.1").is_none());
    assert!(HeaderDetails::try_header_details("GET").is_none());
    assert!(HeaderDetails::try_header_details("   ").is_none());
}

#[test]
fn document_types() {
    assert_eq!(DocType::parse_ext("/styles/index.css"), DocType::CSS);
    assert_eq!(DocType::parse_ext("/scripts/app.js"), DocType::JS);
    assert_eq!(DocType::parse_ext("/api/games"), DocType::API);
    assert_eq!(DocType::parse_ext("/about"), DocType::HTML);
    assert_eq!(DocType::parse_ext("/docs/"), DocType::HTML);
    assert_eq!(DocType::parse_ext("/"), DocType::HTML);
    assert_eq!(DocType::parse_ext("/logo.png"), DocType::OTHER);
    assert_eq!(DocType::parse_ext("/api.css"), DocType::CSS);
    assert_eq!(DocType::CSS.to_string(), "text/css");
    assert_eq!(DocType::JS.to_string(), "text/javascript");
    assert_eq!(DocType::HTML.to_string(), "text/html");
    assert_eq!(DocType::API.to_string(), "application/json");
    assert_eq!(DocType::OTHER.to_string(), "application/octet-stream");
}

#[test]
fn body_encodings() {
    let url: Vec<char> = "application/x-www-form-urlencoded".chars().collect();
    let json: Vec<char> = "application/json".chars().collect();
    let other: Vec<char> = "text/plain".chars().collect();
    assert_eq!(Encoding::from_content_type(&url), Encoding::URL);
    assert_eq!(Encoding::from_content_type(&json), Encoding::JSON);
    assert_eq!(Encoding::parse(&other), None);
}

#[test]
fn response_framing() {
    assert_eq!(
        http_response("HTTP/1.1 200 OK", "text/html", "<p>hi</p>"),
        "HTTP/1.1 200 OK\r\nContent-Type: text/html\r\nContent-Length: 9\r\n\r\n<p>hi</p>"
    );
    // the length counts bytes, not characters
    assert_eq!(
        http_response("HTTP/1.1 200 OK", "text/plain", "é"),
        "HTTP/1.1 200 OK\r\nContent-Type: text/plain\r\nContent-Length: 2\r\n\r\né"
    );
    assert_eq!(
        http_response("HTTP/1.1 200 OK", "text/plain", ""),
        "HTTP/1.1 200 OK\r\nContent-Type: text/plain\r\nContent-Length: 0\r\n\r\n"
    );
    let response = Response { status: Status::OK, message: String::from("Succesfully deleted") };
    assert_eq!(
        response.response_text("{}", DocType::API),
        "HTTP/1.1 200 OK\r\nContent-Type: application/json\r\nContent-Length: 2\r\n\r\n{}"
    );
}

#[test]
fn quoted_type_names_read_back() {
    for t in [Type::INTEGER, Type::TEXT, Type::REAL, Type::BLOB, Type::NULL] {
        let quoted = format!("\"{}\"", t.as_str().to_lowercase());
        assert_eq!(Type::from_str(&quoted), t);
    }
    assert_eq!(Type::from_str("Float"), Type::REAL);
}
