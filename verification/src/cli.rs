//! The command-line client: which request each command sends to the server.
use vstd::prelude::*;

use crate::codec::{json_string_object, json_string_object_text, lossy_utf8_text, pretty_json,
    pretty_json_text, utf8_lossy};
use crate::error::CliError;
use crate::server::{keys_of, values_of};
use crate::text::{chars_of, eq_str, find_char, split_once, string_of, push_str};

verus! {

broadcast use vstd::string::group_string_axioms;

/// The usage text that `help` prints.
pub const HELP_TEXT: &'static str = r#"
rweb <command> <table> [options]

Commands:
  get <table>                     Get all rows from table
  get <table> --id <id>           Get a single row by id
  get tables                      List all tables
  create <table> <col=type>       Create table
  insert <table> <col=val>        Insert a row into table
  put <table> --id <id> <col=val> Update a row by id
  delete <table>                  Drop the table
  delete <table> --id <id>        Delete a row by id

Examples:
  rweb get games
  rweb get games --id 1
  rweb create games title=text rating=integer
  rweb insert games title=Roblox rating=7
  rweb put games --id 1 rating=10
  rweb delete games --id 1
  rweb delete games
"#;

/// The header that declares a JSON body.
pub const JSON_HEADER: &'static str = r#" -H "Content-Type: application/json""#;

/// The `key=value` arguments of a command, split at their first `=`.
pub struct Data {
    pub keys: Vec<String>,
    pub values: Vec<String>,
}

/// The `key=value` pairs among the arguments, in order.
pub open spec fn arg_pairs(args: Seq<Seq<char>>) -> Seq<(Seq<char>, Seq<char>)>
    decreases args.len(),
{
    if args.len() == 0 {
        Seq::empty()
    } else {
        arg_pairs(args.drop_last()) + match split_once(args.last(), '=') {
            Some(p) => seq![p],
            None => Seq::empty(),
        }
    }
}

impl Data {
    /// The `key=value` pairs among the arguments; see `arg_pairs`.
    pub fn from_args(args: &[String]) -> (d: Data)
        ensures
            d.keys.deep_view() == keys_of(arg_pairs(args.deep_view())),
            d.values.deep_view() == values_of(arg_pairs(args.deep_view())),
    {
        let mut keys: Vec<String> = Vec::new();
        let mut values: Vec<String> = Vec::new();
        let mut i: usize = 0;
        while i < args.len()
            invariant
                i <= args.len(),
                keys.deep_view() == keys_of(arg_pairs(args.deep_view().take(i as int))),
                values.deep_view() == values_of(arg_pairs(args.deep_view().take(i as int))),
            decreases args.len() - i,
        {
            let ghost before = arg_pairs(args.deep_view().take(i as int));
            let v = chars_of(args[i].as_str());
            proof {
                let t = args.deep_view().take(i + 1);
                assert(t.drop_last() =~= args.deep_view().take(i as int));
                assert(t.last() == v@);
            }
            match find_char(&v, '=') {
                Some(k) => {
                    let n = v.len();
                    let key = string_of(&v, 0, k);
                    let value = string_of(&v, k + 1, n);
                    let ghost p = (v@.take(k as int), v@.skip(k + 1));
                    assert(v@.subrange(0, k as int) =~= p.0);
                    assert(v@.subrange(k + 1, n as int) =~= p.1);
                    let ghost old_keys = keys.deep_view();
                    let ghost old_values = values.deep_view();
                    keys.push(key);
                    values.push(value);
                    assert(keys.deep_view() =~= old_keys.push(p.0));
                    assert(values.deep_view() =~= old_values.push(p.1));
                    proof {
                        let after = arg_pairs(args.deep_view().take(i + 1));
                        assert(after =~= before.push(p));
                        assert(keys.deep_view() =~= keys_of(after));
                        assert(values.deep_view() =~= values_of(after));
                    }
                },
                None => {
                    proof {
                        let after = arg_pairs(args.deep_view().take(i + 1));
                        assert(after =~= before);
                    }
                },
            }
            i = i + 1;
        }
        assert(args.deep_view().take(i as int) =~= args.deep_view());
        Data { keys, values }
    }
}

/// Whether `flag` is one of the arguments.
pub fn flag_exists(args: &[String], flag: &str) -> (r: bool)
    ensures
        r == args.deep_view().contains(flag@),
{
    let f = chars_of(flag);
    let mut i: usize = 0;
    while i < args.len()
        invariant
            f@ == flag@,
            i <= args.len(),
            forall|j: int| 0 <= j < i ==> args.deep_view()[j] != flag@,
        decreases args.len() - i,
    {
        let v = chars_of(args[i].as_str());
        assert(v@ == args.deep_view()[i as int]);
        if crate::text::chars_eq(&v, &f) {
            assert(args.deep_view()[i as int] == flag@);
            return true;
        }
        i = i + 1;
    }
    false
}

/// A command with a JSON body attached.
pub open spec fn with_body(command: Seq<char>, body: Seq<char>) -> Seq<char> {
    command + JSON_HEADER@ + " -d '"@ + body + "'"@
}

/// Attaches the JSON `body` to a `curl` command.
pub fn with_json_body(command: &str, body: &str) -> (r: String)
    ensures
        r@ == with_body(command@, body@),
{
    let mut r = String::from_str(command);
    push_str(&mut r, JSON_HEADER);
    push_str(&mut r, " -d '");
    push_str(&mut r, body);
    push_str(&mut r, "'");
    r
}

/// What a command comes to.
pub enum CliAction {
    /// Print `HELP_TEXT`.
    Help,
    /// Run this `curl` command.
    Curl(String),
    /// Run `command` with the JSON object of the pairs attached, each value
    /// written as a number where it reads as one and as a string otherwise.
    CurlWithValues { command: String, data: Data },
}

/// What a command comes to, as a model.
pub enum CliPlan {
    Help,
    Curl(Seq<char>),
    CurlWithValues(Seq<char>, Seq<(Seq<char>, Seq<char>)>),
    NotEnoughArguments,
    CommandNotFound,
}

/// The server's address for a table.
pub open spec fn api_url(method: Seq<char>, table: Seq<char>) -> Seq<char> {
    method + "http://localhost:8080/api/"@ + table
}

/// What the arguments `rweb <command> <table> [options]` come to:
/// `get` reads a table, a row (`--id`) or the table names (`tables`);
/// `create` makes a table with string-typed columns; `insert` adds a row;
/// `put`/`patch` updates row `args[4]`; `delete` drops a table or deletes a
/// row (`--id`).
pub open spec fn cli_plan(args: Seq<Seq<char>>) -> CliPlan {
    let cmd = args[1];
    let pairs = arg_pairs(args);
    if cmd == "help"@ {
        CliPlan::Help
    } else if cmd == "get"@ {
        if args.len() < 3 {
            CliPlan::NotEnoughArguments
        } else if args[2] == "tables"@ {
            CliPlan::Curl(api_url("curl "@, Seq::empty()))
        } else if args.contains("--id"@) {
            CliPlan::Curl(api_url("curl "@, args[2]) + "/"@ + args[4])
        } else {
            CliPlan::Curl(api_url("curl "@, args[2]))
        }
    } else if cmd == "create"@ {
        if args.len() < 3 {
            CliPlan::NotEnoughArguments
        } else {
            CliPlan::Curl(
                with_body(
                    api_url("curl -X POST "@, args[2]) + "/create"@,
                    json_string_object_text(keys_of(pairs), values_of(pairs)),
                ),
            )
        }
    } else if cmd == "insert"@ {
        if args.len() < 3 {
            CliPlan::NotEnoughArguments
        } else {
            CliPlan::CurlWithValues(api_url("curl -X POST "@, args[2]), pairs)
        }
    } else if cmd == "put"@ || cmd == "patch"@ {
        if args.len() < 5 {
            CliPlan::NotEnoughArguments
        } else {
            CliPlan::CurlWithValues(api_url("curl -X PATCH "@, args[2]) + "/"@ + args[4], pairs)
        }
    } else if cmd == "delete"@ {
        if args.len() < 3 {
            CliPlan::NotEnoughArguments
        } else if args.contains("--id"@) {
            CliPlan::Curl(api_url("curl -X DELETE "@, args[2]) + "/"@ + args[4])
        } else {
            CliPlan::Curl(api_url("curl -X DELETE "@, args[2]) + "/delete"@)
        }
    } else {
        CliPlan::CommandNotFound
    }
}

/// Arguments that name a command, and that give a fifth argument where an
/// `--id` flag is read.
pub open spec fn cli_args_ok(args: Seq<Seq<char>>) -> bool {
    &&& args.len() >= 2
    &&& ((args[1] == "get"@ && args.len() >= 3 && args[2] != "tables"@) || (args[1] == "delete"@
        && args.len() >= 3)) && args.contains("--id"@) ==> args.len() >= 5
}

/// An action agrees with its model.
pub open spec fn action_is(r: Result<CliAction, CliError>, m: CliPlan) -> bool {
    match m {
        CliPlan::Help => r matches Ok(CliAction::Help),
        CliPlan::Curl(c) => r matches Ok(CliAction::Curl(x)) && x@ == c,
        CliPlan::CurlWithValues(c, pairs) => r matches Ok(CliAction::CurlWithValues { command, data })
            && command@ == c && data.keys.deep_view() == keys_of(pairs) && data.values.deep_view()
            == values_of(pairs),
        CliPlan::NotEnoughArguments => r matches Err(CliError::NotEnoughArguments),
        CliPlan::CommandNotFound => r matches Err(CliError::CommandNotFound),
    }
}

/// The URL of a table with the given `curl` method prefix.
fn table_url(method: &str, table: &String) -> (r: String)
    ensures
        r@ == api_url(method@, table@),
{
    let mut r = String::from_str(method);
    push_str(&mut r, "http://localhost:8080/api/");
    push_str(&mut r, table.as_str());
    r
}

/// What the command-line arguments come to; see `cli_plan`.
pub fn plan_command(args: &[String]) -> (r: Result<CliAction, CliError>)
    requires
        cli_args_ok(args.deep_view()),
    ensures
        action_is(r, cli_plan(args.deep_view())),
{
    let ghost a = args.deep_view();
    let cmd = chars_of(args[1].as_str());
    assert(cmd@ == a[1]);
    if eq_str(&cmd, "help") {
        Ok(CliAction::Help)
    } else if eq_str(&cmd, "get") {
        if args.len() < 3 {
            return Err(CliError::NotEnoughArguments);
        }
        assert(args[2]@ == a[2]);
        let db = chars_of(args[2].as_str());
        if eq_str(&db, "tables") {
            let empty = String::new();
            return Ok(CliAction::Curl(table_url("curl ", &empty)));
        }
        let mut curl = table_url("curl ", &args[2]);
        if flag_exists(args, "--id") {
            assert(args[4]@ == a[4]);
            push_str(&mut curl, "/");
            push_str(&mut curl, args[4].as_str());
        }
        Ok(CliAction::Curl(curl))
    } else if eq_str(&cmd, "create") {
        if args.len() < 3 {
            return Err(CliError::NotEnoughArguments);
        }
        assert(args[2]@ == a[2]);
        let mut curl = table_url("curl -X POST ", &args[2]);
        push_str(&mut curl, "/create");
        let data = Data::from_args(args);
        let body = json_string_object(&data.keys, &data.values);
        Ok(CliAction::Curl(with_json_body(curl.as_str(), body.as_str())))
    } else if eq_str(&cmd, "insert") {
        if args.len() < 3 {
            return Err(CliError::NotEnoughArguments);
        }
        assert(args[2]@ == a[2]);
        let command = table_url("curl -X POST ", &args[2]);
        let data = Data::from_args(args);
        Ok(CliAction::CurlWithValues { command, data })
    } else if eq_str(&cmd, "put") || eq_str(&cmd, "patch") {
        if args.len() < 5 {
            return Err(CliError::NotEnoughArguments);
        }
        assert(args[2]@ == a[2]);
        assert(args[4]@ == a[4]);
        let mut command = table_url("curl -X PATCH ", &args[2]);
        push_str(&mut command, "/");
        push_str(&mut command, args[4].as_str());
        let data = Data::from_args(args);
        Ok(CliAction::CurlWithValues { command, data })
    } else if eq_str(&cmd, "delete") {
        if args.len() < 3 {
            return Err(CliError::NotEnoughArguments);
        }
        assert(args[2]@ == a[2]);
        let mut curl = table_url("curl -X DELETE ", &args[2]);
        if flag_exists(args, "--id") {
            assert(args[4]@ == a[4]);
            push_str(&mut curl, "/");
            push_str(&mut curl, args[4].as_str());
        } else {
            push_str(&mut curl, "/delete");
        }
        Ok(CliAction::Curl(curl))
    } else {
        Err(CliError::CommandNotFound)
    }
}

/// Whether the arguments name a command and give the arguments that it
/// reads by position; see `cli_args_ok`.
pub fn cli_args_supported(args: &[String]) -> (r: bool)
    ensures
        r == cli_args_ok(args.deep_view()),
{
    if args.len() < 2 {
        return false;
    }
    assert(args[1]@ == args.deep_view()[1]);
    let cmd = chars_of(args[1].as_str());
    let reads_id = if args.len() >= 3 {
        assert(args[2]@ == args.deep_view()[2]);
        let db = chars_of(args[2].as_str());
        (eq_str(&cmd, "get") && !eq_str(&db, "tables")) || eq_str(&cmd, "delete")
    } else {
        false
    };
    !(reads_id && flag_exists(args, "--id")) || args.len() >= 5
}

/// The server's reply, re-indented: the bytes are read as UTF-8 (invalid
/// sequences replaced) and the JSON they hold is written pretty-printed.
pub fn to_pretty_string(vec: &[u8]) -> (r: Result<String, CliError>)
    ensures
        match pretty_json_text(lossy_utf8_text(vec@)) {
            Some(t) => r matches Ok(s) && s@ == t,
            None => r matches Err(e) && e is JsonError,
        },
{
    let raw_output = utf8_lossy(vec);
    match pretty_json(raw_output.as_str()) {
        Ok(pp) => Ok(pp),
        Err(e) => Err(CliError::JsonError(e)),
    }
}

} // verus!
