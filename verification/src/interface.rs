//! The vocabulary of the server: statuses, methods, column types, document
//! types, body encodings, the request line, and the framing of a response.
use vstd::prelude::*;
use vstd::utf8::encode_utf8;

use crate::text::{
    chars_of, char_is_trimmed, contains_char, decimal, decimal_string, ends_with, eq_str,
    has_prefix, has_prefix_ignore_case, has_suffix, is_space, leading, push_str, slice_of,
    starts_with, starts_with_ignore_case, trim, trim_range,
};

verus! {

broadcast use vstd::string::group_string_axioms;

/// A response's outcome, with the JSON message that accompanies it.
pub struct Response {
    pub status: Status,
    pub message: String,
}

/// The statuses the server answers with.
#[derive(Debug, Clone, Copy, PartialEq, Eq, Structural)]
pub enum Status {
    OK,
    Created,
    BadRequest,
    Forbidden,
    NotFound,
    InternalServerError,
}

/// The status line of each status.
pub open spec fn status_line(s: Status) -> Seq<char> {
    match s {
        Status::OK => "HTTP/1.1 200 OK"@,
        Status::Created => "HTTP/1.1 201 Created"@,
        Status::BadRequest => "HTTP/1.1 400 BadRequest"@,
        Status::Forbidden => "HTTP/1.1 403 Forbidden"@,
        Status::NotFound => "HTTP/1.1 404 NotFound"@,
        Status::InternalServerError => "HTTP/1.1 500 InternalServerError"@,
    }
}

/// The numeric code of each status.
pub open spec fn status_code(s: Status) -> u16 {
    match s {
        Status::OK => 200,
        Status::Created => 201,
        Status::BadRequest => 400,
        Status::Forbidden => 403,
        Status::NotFound => 404,
        Status::InternalServerError => 500,
    }
}

impl Status {
    /// The status line that starts a response with this status.
    pub fn status_header(&self) -> (h: &str)
        ensures
            h@ == status_line(*self),
    {
        match self {
            Status::OK => "HTTP/1.1 200 OK",
            Status::Created => "HTTP/1.1 201 Created",
            Status::BadRequest => "HTTP/1.1 400 BadRequest",
            Status::Forbidden => "HTTP/1.1 403 Forbidden",
            Status::NotFound => "HTTP/1.1 404 NotFound",
            Status::InternalServerError => "HTTP/1.1 500 InternalServerError",
        }
    }

    /// The numeric code of this status.
    pub fn code(&self) -> (c: u16)
        ensures
            c == status_code(*self),
    {
        match self {
            Status::OK => 200,
            Status::Created => 201,
            Status::BadRequest => 400,
            Status::Forbidden => 403,
            Status::NotFound => 404,
            Status::InternalServerError => 500,
        }
    }
}

/// The text of a response: status line, `Content-Type` and `Content-Length`
/// headers, an empty line, then the content. The length is what `str::len`
/// gives: the number of bytes of the content's UTF-8 encoding.
pub open spec fn response_text(status: Seq<char>, content_type: Seq<char>, content: Seq<char>) -> Seq<
    char,
> {
    status + "\r\nContent-Type: "@ + content_type + "\r\nContent-Length: "@ + decimal(
        (encode_utf8(content).len() as usize) as nat,
    ) + "\r\n\r\n"@ + content
}

/// Frames `content` as a complete response with the given status line and
/// content type.
pub fn http_response(status_header: &str, content_type: &str, content: &str) -> (r: String)
    ensures
        r@ == response_text(status_header@, content_type@, content@),
{
    let length = content.len();
    let mut r = String::from_str(status_header);
    push_str(&mut r, "\r\nContent-Type: ");
    push_str(&mut r, content_type);
    push_str(&mut r, "\r\nContent-Length: ");
    let digits = decimal_string(length as u128);
    push_str(&mut r, digits.as_str());
    push_str(&mut r, "\r\n\r\n");
    push_str(&mut r, content);
    r
}

impl Response {
    /// The text that answers a request with this response's status, carrying
    /// `content` of the given document type.
    pub fn response_text(&self, content: &str, content_type: DocType) -> (r: String)
        ensures
            r@ == response_text(status_line(self.status), doc_type_name(content_type), content@),
    {
        let status_header = self.status.status_header();
        let content_type = content_type.to_string();
        http_response(status_header, content_type, content)
    }
}

/// The request methods the server handles.
#[derive(Debug, Clone, Copy, PartialEq, Eq, Structural)]
pub enum Method {
    POST,
    GET,
    PUT,
    DELETE,
}

/// The method that a request names, if the server handles it; `PATCH` is
/// handled as `PUT`.
pub open spec fn method_of(s: Seq<char>) -> Option<Method> {
    if s == "POST"@ {
        Some(Method::POST)
    } else if s == "GET"@ {
        Some(Method::GET)
    } else if s == "PUT"@ || s == "PATCH"@ {
        Some(Method::PUT)
    } else if s == "DELETE"@ {
        Some(Method::DELETE)
    } else {
        None
    }
}

impl Method {
    /// The method named `string` (any other name is not accepted).
    pub fn new(string: &str) -> (m: Method)
        requires
            method_of(string@) is Some,
        ensures
            method_of(string@) == Some(m),
    {
        let s = chars_of(string);
        Self::from_chars(&s).unwrap()
    }

    /// The method named by the characters `s`, if any.
    pub fn from_chars(s: &Vec<char>) -> (m: Option<Method>)
        ensures
            m == method_of(s@),
    {
        if eq_str(s, "POST") {
            Some(Method::POST)
        } else if eq_str(s, "GET") {
            Some(Method::GET)
        } else if eq_str(s, "PUT") || eq_str(s, "PATCH") {
            Some(Method::PUT)
        } else if eq_str(s, "DELETE") {
            Some(Method::DELETE)
        } else {
            None
        }
    }
}

/// The column types of a table.
#[derive(Debug, Clone, Copy, PartialEq, Eq, Structural)]
pub enum Type {
    INTEGER,
    TEXT,
    REAL,
    BLOB,
    NULL,
}

/// The SQL name of each column type.
pub open spec fn column_type_name(t: Type) -> Seq<char> {
    match t {
        Type::INTEGER => "INTEGER"@,
        Type::TEXT => "TEXT"@,
        Type::REAL => "REAL"@,
        Type::BLOB => "BLOB"@,
        Type::NULL => "NULL"@,
    }
}

/// `s` equals the lower-case `p` once lower-cased.
pub open spec fn eq_ignore_case(s: Seq<char>, p: Seq<char>) -> bool {
    s.len() == p.len() && starts_with_ignore_case(s, p)
}

/// The column type that a type name denotes: the name is lower-cased and
/// stripped of surrounding double quotes; `float` denotes `REAL`.
pub open spec fn type_of_name(s: Seq<char>) -> Option<Type> {
    let t = trim(s, true);
    if eq_ignore_case(t, "integer"@) {
        Some(Type::INTEGER)
    } else if eq_ignore_case(t, "text"@) {
        Some(Type::TEXT)
    } else if eq_ignore_case(t, "real"@) || eq_ignore_case(t, "float"@) {
        Some(Type::REAL)
    } else if eq_ignore_case(t, "blob"@) {
        Some(Type::BLOB)
    } else if eq_ignore_case(t, "null"@) {
        Some(Type::NULL)
    } else {
        None
    }
}

/// Whether `s` equals the lower-case text `p` once lower-cased.
fn eq_ignore_case_str(s: &Vec<char>, p: &str) -> (r: bool)
    ensures
        r == eq_ignore_case(s@, p@),
{
    let n = p.unicode_len();
    s.len() == n && has_prefix_ignore_case(s, p)
}

impl Type {
    /// The column definition `key TYPE,` of a `CREATE TABLE` statement.
    pub fn to_sql(&self, key: &str) -> (r: String)
        ensures
            r@ == key@ + " "@ + column_type_name(*self) + ","@,
    {
        let mut r = String::from_str(key);
        push_str(&mut r, " ");
        push_str(&mut r, self.as_str());
        push_str(&mut r, ",");
        r
    }

    /// The SQL name of this type.
    pub fn as_str(&self) -> (r: &str)
        ensures
            r@ == column_type_name(*self),
    {
        match self {
            Type::INTEGER => "INTEGER",
            Type::TEXT => "TEXT",
            Type::REAL => "REAL",
            Type::BLOB => "BLOB",
            Type::NULL => "NULL",
        }
    }

    /// The column type that the name `s` denotes; see `type_of_name`.
    pub fn from_str(s: &str) -> (t: Type)
        requires
            type_of_name(s@) is Some,
        ensures
            type_of_name(s@) == Some(t),
    {
        Self::parse_name(s).unwrap()
    }

    /// The column type that the name `s` denotes, if it names one.
    pub fn parse_name(s: &str) -> (t: Option<Type>)
        ensures
            t == type_of_name(s@),
    {
        let v = chars_of(s);
        let t = trim_range(&v, 0, v.len(), true);
        assert(v@.subrange(0, v@.len() as int) =~= s@);
        if eq_ignore_case_str(&t, "integer") {
            Some(Type::INTEGER)
        } else if eq_ignore_case_str(&t, "text") {
            Some(Type::TEXT)
        } else if eq_ignore_case_str(&t, "real") || eq_ignore_case_str(&t, "float") {
            Some(Type::REAL)
        } else if eq_ignore_case_str(&t, "blob") {
            Some(Type::BLOB)
        } else if eq_ignore_case_str(&t, "null") {
            Some(Type::NULL)
        } else {
            None
        }
    }
}

/// How many characters at the front of `s` are not white space.
pub open spec fn word_len(s: Seq<char>) -> nat
    decreases s.len(),
{
    if s.len() > 0 && !is_space(s[0]) {
        1 + word_len(s.drop_first())
    } else {
        0
    }
}

/// The first white-space separated word of `s` and what follows it.
pub open spec fn next_word(s: Seq<char>) -> Option<(Seq<char>, Seq<char>)> {
    let t = s.skip(leading(s, false) as int);
    if t.len() == 0 {
        None
    } else {
        Some((t.take(word_len(t) as int), t.skip(word_len(t) as int)))
    }
}

/// The method and the route that a request line names, where its first two
/// words are a handled method and a route.
pub open spec fn header_details(s: Seq<char>) -> Option<(Method, Seq<char>)> {
    match next_word(s) {
        Some((m, rest)) => match next_word(rest) {
            Some((route, _)) => match method_of(m) {
                Some(method) => Some((method, route)),
                None => None,
            },
            None => None,
        },
        None => None,
    }
}

/// The route and method of a request line.
pub struct HeaderDetails<'a> {
    pub route: &'a str,
    pub method: Method,
}

/// The bounds of the first word of `v` at or after `from`.
fn word_bounds(v: &Vec<char>, from: usize) -> (r: Option<(usize, usize)>)
    requires
        from <= v.len(),
    ensures
        match r {
            Some((a, b)) => {
                &&& from <= a < b <= v.len()
                &&& next_word(v@.skip(from as int)) == Some(
                    (v@.subrange(a as int, b as int), v@.skip(b as int)),
                )
            },
            None => next_word(v@.skip(from as int)) is None,
        },
{
    let ghost s = v@.skip(from as int);
    let mut a = from;
    while a < v.len() && char_is_trimmed(v[a], false)
        invariant
            from <= a <= v.len(),
            s == v@.skip(from as int),
            leading(s, false) == (a - from) + leading(v@.skip(a as int), false),
        decreases v.len() - a,
    {
        assert(v@.skip(a as int).drop_first() =~= v@.skip(a + 1));
        a = a + 1;
    }
    proof {
        assert(leading(v@.skip(a as int), false) == 0);
        assert(s.skip(leading(s, false) as int) =~= v@.skip(a as int));
    }
    if a == v.len() {
        return None;
    }
    let ghost t = v@.skip(a as int);
    let mut b = a;
    while b < v.len() && !char_is_trimmed(v[b], false)
        invariant
            a <= b <= v.len(),
            t == v@.skip(a as int),
            word_len(t) == (b - a) + word_len(v@.skip(b as int)),
        decreases v.len() - b,
    {
        assert(v@.skip(b as int).drop_first() =~= v@.skip(b + 1));
        b = b + 1;
    }
    proof {
        assert(word_len(v@.skip(b as int)) == 0);
        assert(t.take(word_len(t) as int) =~= v@.subrange(a as int, b as int));
        assert(t.skip(word_len(t) as int) =~= v@.skip(b as int));
    }
    Some((a, b))
}

impl<'a> HeaderDetails<'a> {
    /// The method and route of a request line whose first two words are a
    /// handled method and a route.
    pub fn get_header_details(request_header: &'a str) -> (h: HeaderDetails<'a>)
        requires
            header_details(request_header@) is Some,
        ensures
            header_details(request_header@) == Some((h.method, h.route@)),
    {
        Self::try_header_details(request_header).unwrap()
    }

    /// The method and route of a request line, or `None` where its first two
    /// words are not a handled method and a route.
    pub fn try_header_details(request_header: &'a str) -> (h: Option<HeaderDetails<'a>>)
        ensures
            match h {
                Some(h) => header_details(request_header@) == Some((h.method, h.route@)),
                None => header_details(request_header@) is None,
            },
    {
        let v = chars_of(request_header);
        assert(v@.skip(0) =~= v@);
        let (a, b) = match word_bounds(&v, 0) {
            Some(p) => p,
            None => return None,
        };
        let (c, d) = match word_bounds(&v, b) {
            Some(p) => p,
            None => return None,
        };
        let m = slice_of(&v, a, b);
        let method = match Method::from_chars(&m) {
            Some(method) => method,
            None => return None,
        };
        let route = request_header.substring_char(c, d);
        Some(HeaderDetails { route, method })
    }
}

/// The kinds of document the server serves.
#[derive(Debug, Clone, Copy, PartialEq, Eq, Structural)]
pub enum DocType {
    CSS,
    JS,
    HTML,
    API,
    OTHER,
}

/// The document type of a route: by its extension, `/api` routes, and
/// extension-less or directory routes as pages.
pub open spec fn doc_type_of(route: Seq<char>) -> DocType {
    if ends_with(route, ".css"@) {
        DocType::CSS
    } else if ends_with(route, ".js"@) {
        DocType::JS
    } else if starts_with(route, "/api"@) {
        DocType::API
    } else if (starts_with(route, "/"@) && !route.contains('.')) || ends_with(route, "/"@) {
        DocType::HTML
    } else {
        DocType::OTHER
    }
}

/// The `Content-Type` of each document type.
pub open spec fn doc_type_name(d: DocType) -> Seq<char> {
    match d {
        DocType::CSS => "text/css"@,
        DocType::HTML => "text/html"@,
        DocType::JS => "text/javascript"@,
        DocType::OTHER => "application/octet-stream"@,
        DocType::API => "application/json"@,
    }
}

impl DocType {
    /// The document type of a route; see `doc_type_of`.
    pub fn parse_ext(route: &str) -> (d: DocType)
        ensures
            d == doc_type_of(route@),
    {
        let r = chars_of(route);
        if has_suffix(&r, ".css") {
            return DocType::CSS;
        } else if has_suffix(&r, ".js") {
            return DocType::JS;
        } else if has_prefix(&r, "/api") {
            return DocType::API;
        } else if (has_prefix(&r, "/") && !contains_char(&r, '.')) || has_suffix(&r, "/") {
            return DocType::HTML;
        } else {
            return DocType::OTHER;
        }
    }

    /// The `Content-Type` of this document type.
    pub fn to_string(&self) -> (r: &str)
        ensures
            r@ == doc_type_name(*self),
    {
        match self {
            DocType::CSS => "text/css",
            DocType::HTML => "text/html",
            DocType::JS => "text/javascript",
            DocType::OTHER => "application/octet-stream",
            DocType::API => "application/json",
        }
    }
}

/// The encodings of a request body.
#[derive(Debug, Clone, Copy, PartialEq, Eq, Structural)]
pub enum Encoding {
    URL,
    JSON,
}

/// The encoding that a `Content-Type` value names, if the server reads it.
pub open spec fn encoding_of(s: Seq<char>) -> Option<Encoding> {
    if s == "application/x-www-form-urlencoded"@ {
        Some(Encoding::URL)
    } else if s == "application/json"@ {
        Some(Encoding::JSON)
    } else {
        None
    }
}

impl Encoding {
    /// The encoding named by a `Content-Type` value that the server reads.
    pub fn from_content_type(value: &Vec<char>) -> (e: Encoding)
        requires
            encoding_of(value@) is Some,
        ensures
            encoding_of(value@) == Some(e),
    {
        Self::parse(value).unwrap()
    }

    /// The encoding named by a `Content-Type` value, if the server reads it.
    pub fn parse(value: &Vec<char>) -> (e: Option<Encoding>)
        ensures
            e == encoding_of(value@),
    {
        if eq_str(value, "application/x-www-form-urlencoded") {
            Some(Encoding::URL)
        } else if eq_str(value, "application/json") {
            Some(Encoding::JSON)
        } else {
            None
        }
    }
}

} // verus!
