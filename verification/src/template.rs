//! The HTML page that wraps a title, a body and a script.
use vstd::prelude::*;

use crate::text::push_str;

verus! {

broadcast use vstd::string::group_string_axioms;

/// The page up to the title.
pub const PAGE_START: &'static str = r#"
            <!DOCTYPE html>
            <html lang="en">
                <head>
                <meta charset="UTF-8">
                <meta name="viewport" content="width=device-width, initial-scale=0">
                <meta http-equiv="X-UA-Compatible" content="ie=edge">
                <link
                    rel="stylesheet"
                    href="https://cdn.jsdelivr.net/npm/@picocss/pico@2/css/pico.min.css"
                >
                <link rel="stylesheet" href="styles/index.css">
                <title>"#;

/// The page from the title to the body.
pub const PAGE_AFTER_TITLE: &'static str = r#"</title> 
                </head>
                <body>
                "#;

/// The page between the body and the script.
pub const PAGE_AFTER_BODY: &'static str = r#"
                "#;

/// The page after the script.
pub const PAGE_END: &'static str = r#"
                </body>
            </html>
        "#;

/// The parts of a page.
pub struct Content {
    pub title: String,
    pub body: String,
    pub script: String,
}

impl Content {
    /// A page's parts; the title defaults to `Default`, body and script to
    /// nothing.
    pub fn new(title: Option<String>, body: Option<String>, script: Option<String>) -> (c: Content)
        ensures
            c.title@ == match title {
                Some(t) => t@,
                None => "Default"@,
            },
            c.body@ == match body {
                Some(b) => b@,
                None => Seq::<char>::empty(),
            },
            c.script@ == match script {
                Some(s) => s@,
                None => Seq::<char>::empty(),
            },
    {
        let title = title.unwrap_or(String::from_str("Default"));
        let body = body.unwrap_or(String::new());
        let script = script.unwrap_or(String::new());
        Content { title, body, script }
    }
}

/// The page with the given title, body and script.
pub open spec fn page(title: Seq<char>, body: Seq<char>, script: Seq<char>) -> Seq<char> {
    PAGE_START@ + title + PAGE_AFTER_TITLE@ + body + PAGE_AFTER_BODY@ + script + PAGE_END@
}

/// The page of `content`.
pub fn append(content: Content) -> (r: String)
    ensures
        r@ == page(content.title@, content.body@, content.script@),
{
    let title = content.title;
    let body = content.body;
    let script = content.script;
    let mut r = String::from_str(PAGE_START);
    push_str(&mut r, title.as_str());
    push_str(&mut r, PAGE_AFTER_TITLE);
    push_str(&mut r, body.as_str());
    push_str(&mut r, PAGE_AFTER_BODY);
    push_str(&mut r, script.as_str());
    push_str(&mut r, PAGE_END);
    r
}

} // verus!
