use http_server::balancer::{backend_port, backend_ports, RequestFrame};
use http_server::cli::{flag_exists, plan_command, to_pretty_string, with_json_body, CliAction, Data, HELP_TEXT};
use http_server::error::CliError;
use http_server::interface::http_response;
use http_server::template::{append, Content};

fn strings(items: &[&str]) -> Vec<String> {
    items.iter().map(|s| s.to_string()).collect()
}

#[test]
fn page_defaults() {
    let c = Content::new(None, None, None);
    assert_eq!(c.title, "Default");
    assert_eq!(c.body, "");
    assert_eq!(c.script, "");
    let c = Content::new(Some("T".to_string()), Some("B".to_string()), Some("S".to_string()));
    assert_eq!((c.title.as_str(), c.body.as_str(), c.script.as_str()), ("T", "B", "S"));
}

#[test]
fn page_text() {
    let page = append(Content::new(Some("Games".to_string()), Some("<p>x</p>".to_string()), None));
    assert!(page.starts_with("\n            <!DOCTYPE html>\n"));
    assert!(page.contains("<title>Games</title> \n"));
    assert!(page.contains("<body>\n                <p>x</p>\n                \n                </body>"));
    assert!(page.ends_with("</html>\n        "));
}

#[test]
fn arguments_to_fields() {
    let args = strings(&["rweb", "insert", "games", "title=Roblox", "rating=7", "x=a=b", "noise"]);
    let d = Data::from_args(&args);
    assert_eq!(d.keys, strings(&["title", "rating", "x"]));
    assert_eq!(d.values, strings(&["Roblox", "7", "a=b"]));
    assert!(flag_exists(&args, "noise"));
    assert!(!flag_exists(&args, "--id"));
}

fn curl(r: Result<CliAction, CliError>) -> String {
    match r {
        Ok(CliAction::Curl(c)) => c,
        _ => panic!("expected a curl command"),
    }
}

#[test]
fn commands() {
    assert!(matches!(plan_command(&strings(&["rweb", "help"])), Ok(CliAction::Help)));
    assert!(HELP_TEXT.contains("rweb <command> <table> [options]"));
    assert_eq!(curl(plan_command(&strings(&["rweb", "get", "tables"]))), "curl http://localhost:8080/api/");
    assert_eq!(curl(plan_command(&strings(&["rweb", "get", "games"]))), "curl http://localhost:8080/api/games");
    assert_eq!(
        curl(plan_command(&strings(&["rweb", "get", "games", "--id", "1"]))),
        "curl http://localhost:8080/api/games/1"
    );
    assert_eq!(
        curl(plan_command(&strings(&["rweb", "delete", "games"]))),
        "curl -X DELETE http://localhost:8080/api/games/delete"
    );
    assert_eq!(
        curl(plan_command(&strings(&["rweb", "delete", "games", "--id", "1"]))),
        "curl -X DELETE http://localhost:8080/api/games/1"
    );
    assert_eq!(
        curl(plan_command(&strings(&["rweb", "create", "games", "title=text", "rating=integer"]))),
        "curl -X POST http://localhost:8080/api/games/create -H \"Content-Type: application/json\" -d '{\"rating\":\"integer\",\"title\":\"text\"}'"
    );
    match plan_command(&strings(&["rweb", "put", "games", "--id", "1", "rating=10"])) {
        Ok(CliAction::CurlWithValues { command, data }) => {
            assert_eq!(command, "curl -X PATCH http://localhost:8080/api/games/1");
            assert_eq!(data.keys, strings(&["rating"]));
            assert_eq!(data.values, strings(&["10"]));
        }
        _ => panic!("expected an update"),
    }
    match plan_command(&strings(&["rweb", "insert", "games", "title=Roblox"])) {
        Ok(CliAction::CurlWithValues { command, data }) => {
            assert_eq!(command, "curl -X POST http://localhost:8080/api/games");
            assert_eq!(data.keys, strings(&["title"]));
        }
        _ => panic!("expected an insert"),
    }
    assert!(matches!(plan_command(&strings(&["rweb", "get"])), Err(CliError::NotEnoughArguments)));
    assert!(matches!(plan_command(&strings(&["rweb", "patch", "games", "--id"])), Err(CliError::NotEnoughArguments)));
    assert!(matches!(plan_command(&strings(&["rweb", "frobnicate"])), Err(CliError::CommandNotFound)));
}

#[test]
fn json_bodies_and_replies() {
    assert_eq!(
        with_json_body("curl x", "{}"),
        "curl x -H \"Content-Type: application/json\" -d '{}'"
    );
    assert_eq!(to_pretty_string(b"{\"a\":1}").unwrap(), "{\n  \"a\": 1\n}");
    assert!(matches!(to_pretty_string(b"not json"), Err(CliError::JsonError(_))));
    assert!(matches!(to_pretty_string(&[0xff]), Err(CliError::JsonError(_))));
}

#[test]
fn backends_in_turn() {
    assert_eq!(backend_ports(), vec![8081, 8082, 8083, 8084, 8085]);
    assert_eq!(backend_port(0), 8081);
    assert_eq!(backend_port(4), 8085);
    assert_eq!(backend_port(5), 8081);
    assert_eq!(backend_port(8081), 8082);
    // the counter wraps from its maximum to 0: two connections in a row go to 8081
    assert_eq!(backend_port(u16::MAX), 8081);
    for c in 0..100u16 {
        let next = if backend_port(c) == 8085 { 8081 } else { backend_port(c) + 1 };
        assert_eq!(backend_port(c + 1), next);
    }
}

#[test]
fn forwarded_message_framing() {
    let mut frame = RequestFrame::new();
    assert!(!frame.absorb_line("POST /api/games HTTP/1.1\r\n"));
    assert!(!frame.absorb_line("content-LENGTH: 5\r\n"));
    assert_eq!(frame.content_length, 5);
    assert!(!frame.absorb_line("Content-Length: nope\r\n"));
    assert_eq!(frame.content_length, 0);
    assert!(!frame.absorb_line("Content-Length: 7\r\n"));
    assert!(frame.absorb_line("\r\n"));
    frame.append_body(b"a=1&b=2");
    assert_eq!(
        frame.request,
        b"POST /api/games HTTP/1.1\r\ncontent-LENGTH: 5\r\nContent-Length: nope\r\nContent-Length: 7\r\n\r\na=1&b=2".to_vec()
    );
    assert_eq!(frame.content_length, 7);
}

#[test]
fn response_length_reads_back() {
    let content = "{\"name\":\"é\"}";
    let response = http_response("HTTP/1.1 200 OK", "application/json", content);
    let mut frame = RequestFrame::new();
    let mut rest = response.as_str();
    loop {
        let end = rest.find('\n').unwrap() + 1;
        let line = &rest[..end];
        rest = &rest[end..];
        if frame.absorb_line(line) {
            break;
        }
    }
    assert_eq!(frame.content_length, content.len());
    assert_eq!(rest.len(), frame.content_length);
    frame.append_body(rest.as_bytes());
    assert_eq!(frame.request, response.as_bytes().to_vec());
}

#[test]
fn client_error_messages() {
    assert_eq!(CliError::NotEnoughArguments.message(), "Not enough arguments");
    assert_eq!(
        CliError::CommandNotFound.message(),
        "Command not found, use 'rweb help' for more information "
    );
    assert_eq!(CliError::ParseError(String::from("bad")).message(), "Parse Error: bad");
}

#[test]
fn argument_pairs_rejoin() {
    let args = strings(&["rweb", "put", "a=1", "b", "c=x=y", "=v"]);
    let d = Data::from_args(&args);
    let with_eq: Vec<&String> = args.iter().filter(|a| a.contains('=')).collect();
    assert_eq!(d.keys.len(), with_eq.len());
    for j in 0..d.keys.len() {
        assert_eq!(&format!("{}={}", d.keys[j], d.values[j]), with_eq[j]);
        assert!(!d.keys[j].contains('='));
    }
}
