use http_server::error::ServerError;
use http_server::interface::{DocType, Encoding};
use http_server::server::{
    body_framing, body_framing_supported, create_statement, decode_body, file_response,
    find_by_pat, get_route_supported, insert_statement, plan_delete_request, plan_get_request,
    plan_post_request, plan_put_request, read_body_fields, request_line, split_by_delimeter,
    update_statement, table_list_response, GetPlan, FORBIDDEN_RESPONSE, LIST_TABLES_SQL, NOT_FOUND_PAGE,
};

fn strings(items: &[&str]) -> Vec<String> {
    items.iter().map(|s| s.to_string()).collect()
}

fn parse_message(e: ServerError) -> String {
    match e {
        ServerError::ParseError(m) => m,
        other => panic!("expected a parse error, got {:?}", other),
    }
}

#[test]
fn splitting_at_a_delimiter() {
    assert_eq!(split_by_delimeter("a=b=c", '=').unwrap(), ("a", "b=c"));
    assert_eq!(split_by_delimeter("games/", '/').unwrap(), ("games", ""));
    let e = split_by_delimeter("games", '/').unwrap_err();
    assert_eq!(parse_message(e), "Could not split by delimeter: /");
}

#[test]
fn split_parts_rejoin() {
    let s = "key=value=more";
    let (a, b) = split_by_delimeter(s, '=').unwrap();
    assert_eq!(format!("{}={}", a, b), s);
    assert!(!a.contains('='));
}

#[test]
fn finding_a_character() {
    assert_eq!(find_by_pat("api/games", '/').unwrap(), 3);
    assert_eq!(find_by_pat("é/x", '/').unwrap(), 2);
    let e = find_by_pat("api", '/').unwrap_err();
    assert_eq!(parse_message(e), "Could not find by pat: /");
}

#[test]
fn delete_statements() {
    let st = plan_delete_request("/api/games/delete").unwrap();
    assert_eq!(st.sql, "DROP TABLE IF EXISTS games");
    assert!(st.params.is_empty());
    let st = plan_delete_request("/api/games/3").unwrap();
    assert_eq!(st.sql, "DELETE FROM games WHERE id = ?1");
    assert_eq!(st.params, strings(&["3"]));
    assert_eq!(
        parse_message(plan_delete_request("/api").err().unwrap()),
        "Could not find by pat: /"
    );
    assert_eq!(
        parse_message(plan_delete_request("/api/games").err().unwrap()),
        "Could not split by delimeter: /"
    );
}

#[test]
fn url_encoded_fields() {
    let (keys, values) = read_body_fields("title=Roblox&rating=7", Encoding::URL).unwrap().unwrap();
    assert_eq!(keys, strings(&["title", "rating"]));
    assert_eq!(values, strings(&["Roblox", "7"]));
    let (keys, values) = read_body_fields("a==b", Encoding::URL).unwrap().unwrap();
    assert_eq!(keys, strings(&["a"]));
    assert_eq!(values, strings(&["=b"]));
    let e = read_body_fields("a=1&b", Encoding::URL).err().unwrap();
    assert_eq!(parse_message(e), "Could not split by delimeter: =");
    let e = read_body_fields("", Encoding::URL).err().unwrap();
    assert_eq!(parse_message(e), "Could not split by delimeter: =");
}

#[test]
fn json_fields() {
    let (keys, values) =
        read_body_fields("{\"title\":\"Roblox\",\"rating\":7}", Encoding::JSON).unwrap().unwrap();
    assert_eq!(keys, strings(&["rating", "title"]));
    assert_eq!(values, strings(&["7", "\"Roblox\""]));
    assert!(matches!(
        read_body_fields("{not json", Encoding::JSON),
        Err(ServerError::JsonError(_))
    ));
    assert!(matches!(read_body_fields("[1, 2]", Encoding::JSON), Ok(None)));
}

#[test]
fn update_statements() {
    let st = plan_put_request("/api/games/3", "rating=10", Encoding::URL).unwrap().unwrap();
    assert_eq!(st.sql, "UPDATE games SET rating = ?1 WHERE id = ?2");
    assert_eq!(st.params, strings(&["10", "3"]));
    let st = plan_put_request("/api/games/3", "a=1&b=2", Encoding::URL).unwrap().unwrap();
    assert_eq!(st.sql, "UPDATE games SET a = ?1, b = ?2 WHERE id = ?3");
    assert_eq!(st.params, strings(&["1", "2", "3"]));
    let e = plan_put_request("/api/games", "a=1", Encoding::URL).err().unwrap();
    assert_eq!(parse_message(e), "Could not split by delimeter: /");
    assert!(matches!(plan_put_request("/api/games/1", "7", Encoding::JSON), Ok(None)));
    let e = update_statement("t", "1", &strings(&["a"]), &strings(&[])).err().unwrap();
    assert_eq!(parse_message(e), "Something went wrong with parsing");
}

#[test]
fn create_statements() {
    let st = plan_post_request(
        "/api/games/create",
        "{\"title\":\"text\",\"rating\":\"integer\"}",
        Encoding::JSON,
    )
    .unwrap()
    .unwrap();
    assert_eq!(
        st.sql,
        "CREATE TABLE IF NOT EXISTS games (id INTEGER PRIMARY KEY, rating INTEGER, title TEXT)"
    );
    assert!(st.params.is_empty());
    let st = create_statement("games/create", &strings(&[]), &strings(&[])).unwrap();
    assert_eq!(st.sql, "CREATE TABLE IF NOT EXISTS games (id INTEGER PRIMARY KEY)");
    assert!(matches!(
        plan_post_request("/api/games/create", "{\"title\":\"varchar\"}", Encoding::JSON),
        Ok(None)
    ));
    let e = plan_post_request("/api/create", "a=text", Encoding::URL).err().unwrap();
    assert_eq!(parse_message(e), "Could not split by delimeter: /");
}

#[test]
fn insert_statements() {
    let st = plan_post_request("/api/games", "title=Roblox&rating=7", Encoding::URL)
        .unwrap()
        .unwrap();
    assert_eq!(st.sql, "INSERT INTO games (title,rating) VALUES (?1,?2)");
    assert_eq!(st.params, strings(&["Roblox", "7"]));
    let st = insert_statement("t", &strings(&[]), &strings(&[]));
    assert_eq!(st.sql, "INSERT INTO t () VALUES ()");
    let e = plan_post_request("/games", "a=1", Encoding::URL).err().unwrap();
    assert_eq!(parse_message(e), "Could not find by pat: /");
}

#[test]
fn get_plans() {
    match plan_get_request("/", DocType::HTML) {
        GetPlan::File { path } => assert_eq!(path, "static/index.html"),
        _ => panic!("expected the index page"),
    }
    match plan_get_request("/about", DocType::HTML) {
        GetPlan::File { path } => assert_eq!(path, "static/about.html"),
        _ => panic!("expected a page"),
    }
    match plan_get_request("/styles/index.css", DocType::CSS) {
        GetPlan::File { path } => assert_eq!(path, "styles/index.css"),
        _ => panic!("expected a stylesheet"),
    }
    assert!(matches!(plan_get_request("/../secret.txt", DocType::OTHER), GetPlan::Forbidden));
    assert!(matches!(plan_get_request("/etc/passwd.css", DocType::CSS), GetPlan::Forbidden));
    assert!(matches!(plan_get_request("/api", DocType::API), GetPlan::ListTables));
    assert!(matches!(plan_get_request("/api/", DocType::API), GetPlan::ListTables));
    match plan_get_request("/api/games", DocType::API) {
        GetPlan::Rows { columns_sql, rows_sql, id } => {
            assert_eq!(columns_sql, "PRAGMA table_info(games)");
            assert_eq!(rows_sql, "SELECT * FROM games");
            assert_eq!(id, None);
        }
        _ => panic!("expected rows"),
    }
    match plan_get_request("/api/games/2", DocType::API) {
        GetPlan::Rows { columns_sql, rows_sql, id } => {
            assert_eq!(columns_sql, "PRAGMA table_info(games)");
            assert_eq!(rows_sql, "SELECT * FROM games WHERE id = ?1");
            assert_eq!(id, Some(String::from("2")));
        }
        _ => panic!("expected a row"),
    }
    assert_eq!(FORBIDDEN_RESPONSE, "HTTP/1.1 403 Forbidden\r\n\r\n");
    assert!(LIST_TABLES_SQL.starts_with("SELECT name FROM sqlite_schema"));
    assert_eq!(NOT_FOUND_PAGE, "static/not-found.html");
}

#[test]
fn get_routes_that_cut_characters() {
    assert!(get_route_supported("/about", DocType::HTML));
    assert!(get_route_supported("/", DocType::HTML));
    assert!(!get_route_supported("/apié", DocType::API));
    assert!(get_route_supported("/api/é", DocType::API));
    assert!(!get_route_supported("", DocType::HTML));
}

#[test]
fn file_responses() {
    assert_eq!(
        file_response(true, DocType::CSS, "a{}"),
        "HTTP/1.1 200 OK\r\nContent-Type: text/css\r\nContent-Length: 3\r\n\r\na{}"
    );
    assert_eq!(
        file_response(false, DocType::HTML, "nope"),
        "HTTP/1.1 404 Not Found\r\nContent-Type: text/html\r\nContent-Length: 4\r\n\r\nnope"
    );
}

#[test]
fn body_framing_from_headers() {
    let headers = strings(&[
        "POST /api/games HTTP/1.1",
        "Content-Type: application/json",
        "CONTENT-LENGTH:  12 ",
    ]);
    assert!(body_framing_supported(&headers));
    assert_eq!(body_framing(&headers).unwrap(), (12, Encoding::JSON));
    let headers = strings(&["POST / HTTP/1.1", "Content-Length: abc", "Content-Type: application/x-www-form-urlencoded"]);
    assert_eq!(body_framing(&headers).unwrap(), (0, Encoding::URL));
    let headers = strings(&["POST / HTTP/1.1", "Content-Type: application/json"]);
    assert_eq!(parse_message(body_framing(&headers).unwrap_err()), "Could not find content length");
    let headers = strings(&["POST / HTTP/1.1", "Content-Length: 3"]);
    assert_eq!(parse_message(body_framing(&headers).unwrap_err()), "Could not find content type");
    let headers = strings(&["POST / HTTP/1.1", "Content-Length: 3", "Content-Type: text/plain"]);
    assert!(!body_framing_supported(&headers));
}

#[test]
fn body_decoding() {
    assert_eq!(decode_body(vec![104, 105]).unwrap(), "hi");
    assert_eq!(parse_message(decode_body(vec![0xff, 0xfe]).unwrap_err()), "Could not convert body");
}

#[test]
fn request_lines() {
    let headers = strings(&["GET / HTTP/1.1", "Host: x"]);
    assert_eq!(request_line(&headers).unwrap(), "GET / HTTP/1.1");
    let none: Vec<String> = Vec::new();
    assert_eq!(parse_message(request_line(&none).unwrap_err()), "Could not find request header");
}

#[test]
fn climbing_paths_are_refused() {
    assert!(matches!(plan_get_request("/static/../Cargo.toml", DocType::OTHER), GetPlan::Forbidden));
    assert!(matches!(plan_get_request("/styles/../../etc/x.css", DocType::CSS), GetPlan::Forbidden));
    assert!(matches!(plan_get_request("/scripts/a/../b.js", DocType::JS), GetPlan::Forbidden));
    assert!(matches!(plan_get_request("/static/..", DocType::OTHER), GetPlan::Forbidden));
    assert!(matches!(plan_get_request("/api/../static/x", DocType::API), GetPlan::Forbidden));
    match plan_get_request("/styles/./site.css", DocType::CSS) {
        GetPlan::File { path } => assert_eq!(path, "styles/./site.css"),
        _ => panic!("expected a stylesheet"),
    }
    match plan_get_request("/styles/..site.css", DocType::CSS) {
        GetPlan::File { path } => assert_eq!(path, "styles/..site.css"),
        _ => panic!("expected a stylesheet"),
    }
}

#[test]
fn multi_column_update() {
    let st = plan_put_request("/api/games/1", "title=Zelda&rating=10", Encoding::URL)
        .unwrap()
        .unwrap();
    assert_eq!(st.sql, "UPDATE games SET title = ?1, rating = ?2 WHERE id = ?3");
    assert_eq!(st.params, strings(&["Zelda", "10", "1"]));
}

#[test]
fn table_list_answer() {
    let text = table_list_response(&strings(&["games", "people"])).unwrap();
    assert_eq!(
        text,
        "HTTP/1.1 200 OK\r\nContent-Type: application/json\r\nContent-Length: 18\r\n\r\n[\"games\",\"people\"]"
    );
    let text = table_list_response(&strings(&[])).unwrap();
    assert_eq!(text, "HTTP/1.1 200 OK\r\nContent-Type: application/json\r\nContent-Length: 2\r\n\r\n[]");
}

#[test]
fn server_error_messages() {
    assert_eq!(ServerError::ParseError(String::from("x")).message(), "Parse Error: x");
    let e = serde_json::from_str::<serde_json::Value>("{").unwrap_err();
    let text = e.to_string();
    assert_eq!(ServerError::JsonError(e).message(), format!("Json Error: {text}"));
    let e = std::io::Error::new(std::io::ErrorKind::Other, "boom");
    assert_eq!(ServerError::IoError(e).message(), "I/O Error: boom");
}
