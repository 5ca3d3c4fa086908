//! What the server decides for a request: the route's table and row, the
//! fields of a body, the SQL statement that a `POST`, `PUT` or `DELETE`
//! executes, and what a `GET` serves. The connection, the database and the
//! file system are the caller's.
use vstd::prelude::*;

use crate::codec::{json_fields, json_object_fields, json_string_list, json_string_list_text, utf8_string};
use crate::error::ServerError;
use crate::interface::{
    column_type_name, encoding_of, DocType, Encoding, Type, type_of_name,
};
use crate::text::{
    chars_of, decimal, decimal_string, ends_with, eq_str, find_char, find_char_from, first_index,
    has_prefix, has_prefix_ignore_case, has_suffix, parse_usize, parse_usize_range, pop_char,
    push_char, push_str, slice_of, split_once, starts_with, starts_with_ignore_case, string_of,
    trim, trim_range,
};
use vstd::utf8::{decode_utf8, encode_utf8, valid_utf8};

verus! {

broadcast use vstd::string::group_string_axioms;

/// An SQL statement and the values of its positional parameters `?1`, `?2`, ...
pub struct SqlStatement {
    pub sql: String,
    pub params: Vec<String>,
}

/// `e` is a parse error with the message `msg`.
pub open spec fn is_parse_error(e: ServerError, msg: Seq<char>) -> bool {
    e matches ServerError::ParseError(m) && m@ == msg
}

/// The message of a failed split at `d`.
pub open spec fn split_error(d: char) -> Seq<char> {
    "Could not split by delimeter: "@.push(d)
}

/// The message of a failed search for `d`.
pub open spec fn find_error(d: char) -> Seq<char> {
    "Could not find by pat: "@.push(d)
}

/// The message `prefix` followed by the character `d`.
fn message_with(prefix: &str, d: char) -> (m: String)
    ensures
        m@ == prefix@.push(d),
{
    let mut m = String::from_str(prefix);
    push_char(&mut m, d);
    m
}

/// Splits `string` at the first `delimiter`: the parts before and after it.
pub fn split_by_delimeter(string: &str, delimiter: char) -> (r: Result<(&str, &str), ServerError>)
    ensures
        match r {
            Ok((a, b)) => split_once(string@, delimiter) == Some((a@, b@)),
            Err(e) => split_once(string@, delimiter) is None && is_parse_error(
                e,
                split_error(delimiter),
            ),
        },
{
    let v = chars_of(string);
    match find_char(&v, delimiter) {
        Some(i) => {
            let first = string.substring_char(0, i);
            let second = string.substring_char(i + 1, v.len());
            assert(first@ =~= string@.take(i as int));
            assert(second@ =~= string@.skip(i + 1));
            Ok((first, second))
        },
        None => Err(
            ServerError::ParseError(message_with("Could not split by delimeter: ", delimiter)),
        ),
    }
}

/// The byte offset of the first `pat` in `string` (`str::find`): the length
/// of the UTF-8 encoding of the characters before it.
pub fn find_by_pat(string: &str, pat: char) -> (r: Result<usize, ServerError>)
    ensures
        match r {
            Ok(n) => first_index(string@, pat) matches Some(i) && n == encode_utf8(
                string@.take(i),
            ).len() as usize,
            Err(e) => first_index(string@, pat) is None && is_parse_error(e, find_error(pat)),
        },
{
    let v = chars_of(string);
    match find_char(&v, pat) {
        Some(i) => {
            let before = string.substring_char(0, i);
            assert(before@ =~= string@.take(i as int));
            Ok(before.len())
        },
        None => Err(ServerError::ParseError(message_with("Could not find by pat: ", pat))),
    }
}

/// A route whose first character can be cut off as one byte.
pub open spec fn route_sliceable(route: Seq<char>) -> bool {
    route.len() > 0 && (route[0] as u32) < 128
}

/// The part of a route after its second `/`: the table, and the row or
/// command that may follow it (`/api/games/3` gives `games/3`).
pub open spec fn table_path(route: Seq<char>) -> Option<Seq<char>> {
    let r = route.drop_first();
    match first_index(r, '/') {
        Some(i) => Some(r.skip(i + 1)),
        None => None,
    }
}

/// The part of `route` after its second `/`; see `table_path`.
pub fn route_table_path(route: &str) -> (r: Result<&str, ServerError>)
    requires
        route_sliceable(route@),
    ensures
        match r {
            Ok(t) => table_path(route@) == Some(t@),
            Err(e) => table_path(route@) is None && is_parse_error(e, find_error('/')),
        },
{
    let n = route.unicode_len();
    let rest = route.substring_char(1, n);
    assert(rest@ =~= route@.drop_first());
    let rv = chars_of(rest);
    let slice_idx = match find_char(&rv, '/') {
        Some(i) => i + 1,
        None => {
            return Err(ServerError::ParseError(message_with("Could not find by pat: ", '/')));
        },
    };
    let m = rest.unicode_len();
    let schema = rest.substring_char(slice_idx, m);
    assert(schema@ =~= rest@.skip(slice_idx as int));
    Ok(schema)
}

/// The statement of a `DELETE` request: `/api/<table>/delete` drops the
/// table, `/api/<table>/<id>` deletes the row with that id. `Err` carries
/// the message of the parse error.
pub open spec fn delete_plan(route: Seq<char>) -> Result<(Seq<char>, Seq<Seq<char>>), Seq<char>> {
    match table_path(route) {
        None => Err(find_error('/')),
        Some(schema) => match split_once(schema, '/') {
            None => Err(split_error('/')),
            Some((name, id)) => if ends_with(route.drop_first(), "delete"@) {
                Ok(("DROP TABLE IF EXISTS "@ + name, Seq::<Seq<char>>::empty()))
            } else {
                Ok(("DELETE FROM "@ + name + " WHERE id = ?1"@, seq![id]))
            },
        },
    }
}

/// A statement outcome agrees with its model.
pub open spec fn statement_is(
    r: Result<SqlStatement, ServerError>,
    m: Result<(Seq<char>, Seq<Seq<char>>), Seq<char>>,
) -> bool {
    match m {
        Ok((sql, params)) => r matches Ok(st) && st.sql@ == sql && st.params.deep_view()
            == params,
        Err(msg) => r matches Err(e) && is_parse_error(e, msg),
    }
}

/// The statement that a `DELETE` request executes; see `delete_plan`.
pub fn plan_delete_request(route: &str) -> (r: Result<SqlStatement, ServerError>)
    requires
        route_sliceable(route@),
    ensures
        statement_is(r, delete_plan(route@)),
{
    let schema = route_table_path(route)?;
    let rv = chars_of(route);
    let n = rv.len();
    let tail = slice_of(&rv, 1, n);
    assert(tail@ =~= route@.drop_first());
    if has_suffix(&tail, "delete") {
        let (name, _) = split_by_delimeter(schema, '/')?;
        let mut sql = String::from_str("DROP TABLE IF EXISTS ");
        push_str(&mut sql, name);
        let params: Vec<String> = Vec::new();
        assert(params.deep_view() =~= Seq::<Seq<char>>::empty());
        Ok(SqlStatement { sql, params })
    } else {
        let (name, id) = split_by_delimeter(schema, '/')?;
        let mut sql = String::from_str("DELETE FROM ");
        push_str(&mut sql, name);
        push_str(&mut sql, " WHERE id = ?1");
        let mut params: Vec<String> = Vec::new();
        params.push(String::from_str(id));
        assert(params.deep_view() =~= seq![id@]);
        Ok(SqlStatement { sql, params })
    }
}

/// The fields of a URL-encoded body: `&`-separated `key=value` pairs, each
/// split at its first `=`; `None` where a pair has no `=`.
pub open spec fn url_fields(s: Seq<char>) -> Option<Seq<(Seq<char>, Seq<char>)>>
    decreases s.len(),
{
    match first_index(s, '&') {
        Some(i) => if 0 <= i < s.len() {
            match split_once(s.take(i), '=') {
                Some(kv) => match url_fields(s.skip(i + 1)) {
                    Some(rest) => Some(seq![kv] + rest),
                    None => None,
                },
                None => None,
            }
        } else {
            None
        },
        None => match split_once(s, '=') {
            Some(kv) => Some(seq![kv]),
            None => None,
        },
    }
}

/// The fields of a body as the server reads them.
pub enum BodyFields {
    /// The key and value of each field, in order.
    Fields(Seq<(Seq<char>, Seq<char>)>),
    /// A parse error with this message.
    ParseFailed(Seq<char>),
    /// The body is not JSON.
    JsonFailed,
    /// The body is JSON but not an object.
    NotAnObject,
}

/// The fields of `body` in the given encoding.
pub open spec fn body_fields(body: Seq<char>, encoding: Encoding) -> BodyFields {
    match encoding {
        Encoding::URL => match url_fields(body) {
            Some(fs) => BodyFields::Fields(fs),
            None => BodyFields::ParseFailed(split_error('=')),
        },
        Encoding::JSON => match json_object_fields(body) {
            None => BodyFields::JsonFailed,
            Some(None) => BodyFields::NotAnObject,
            Some(Some(fs)) => BodyFields::Fields(fs),
        },
    }
}

/// The keys of some fields.
pub open spec fn keys_of(fs: Seq<(Seq<char>, Seq<char>)>) -> Seq<Seq<char>> {
    fs.map_values(|f: (Seq<char>, Seq<char>)| f.0)
}

/// The values of some fields.
pub open spec fn values_of(fs: Seq<(Seq<char>, Seq<char>)>) -> Seq<Seq<char>> {
    fs.map_values(|f: (Seq<char>, Seq<char>)| f.1)
}

/// An outcome of reading fields agrees with its model; `Ok(None)` is a JSON
/// body that is not an object.
pub open spec fn fields_are(
    r: Result<Option<(Vec<String>, Vec<String>)>, ServerError>,
    m: BodyFields,
) -> bool {
    match m {
        BodyFields::Fields(fs) => r matches Ok(Some((k, v))) && k.deep_view() == keys_of(fs)
            && v.deep_view() == values_of(fs),
        BodyFields::ParseFailed(msg) => r matches Err(e) && is_parse_error(e, msg),
        BodyFields::JsonFailed => r matches Err(e) && e is JsonError,
        BodyFields::NotAnObject => r matches Ok(None),
    }
}

/// Prefixing known fields to an outcome.
pub open spec fn prepend_fields(
    acc: Seq<(Seq<char>, Seq<char>)>,
    o: Option<Seq<(Seq<char>, Seq<char>)>>,
) -> Option<Seq<(Seq<char>, Seq<char>)>> {
    match o {
        Some(fs) => Some(acc + fs),
        None => None,
    }
}

/// Splits `v[a..b]` at its first `=` and appends the key and value.
fn push_pair(
    v: &Vec<char>,
    a: usize,
    b: usize,
    keys: &mut Vec<String>,
    values: &mut Vec<String>,
) -> (r: Result<(), ServerError>)
    requires
        a <= b <= v.len(),
    ensures
        match split_once(v@.subrange(a as int, b as int), '=') {
            Some((k, x)) => r is Ok && final(keys).deep_view() == old(keys).deep_view().push(k)
                && final(values).deep_view() == old(values).deep_view().push(x),
            None => r matches Err(e) && is_parse_error(e, split_error('=')),
        },
{
    let piece = slice_of(v, a, b);
    match find_char(&piece, '=') {
        Some(k) => {
            let n = piece.len();
            let key = string_of(&piece, 0, k);
            let value = string_of(&piece, k + 1, n);
            proof {
                assert(piece@.subrange(0, k as int) =~= piece@.take(k as int));
                assert(piece@.subrange(k + 1, n as int) =~= piece@.skip(k + 1));
            }
            keys.push(key);
            values.push(value);
            assert(keys.deep_view() =~= old(keys).deep_view().push(piece@.take(k as int)));
            assert(values.deep_view() =~= old(values).deep_view().push(piece@.skip(k + 1)));
            Ok(())
        },
        None => Err(ServerError::ParseError(message_with("Could not split by delimeter: ", '='))),
    }
}

/// The fields of a URL-encoded body; see `url_fields`.
fn read_url_fields(body: &str) -> (r: Result<(Vec<String>, Vec<String>), ServerError>)
    ensures
        match url_fields(body@) {
            Some(fs) => r matches Ok((k, v)) && k.deep_view() == keys_of(fs) && v.deep_view()
                == values_of(fs),
            None => r matches Err(e) && is_parse_error(e, split_error('=')),
        },
{
    let v = chars_of(body);
    let mut keys: Vec<String> = Vec::new();
    let mut values: Vec<String> = Vec::new();
    let ghost mut acc: Seq<(Seq<char>, Seq<char>)> = Seq::empty();
    let mut pos: usize = 0;
    assert(v@.skip(0) =~= body@);
    loop
        invariant
            v@ == body@,
            pos <= v.len(),
            keys.deep_view() == keys_of(acc),
            values.deep_view() == values_of(acc),
            url_fields(body@) == prepend_fields(acc, url_fields(v@.skip(pos as int))),
        decreases v.len() - pos,
    {
        let ghost t = v@.skip(pos as int);
        match find_char_from(&v, '&', pos) {
            Some(i) => {
                proof {
                    assert(t.take(i - pos) =~= v@.subrange(pos as int, i as int));
                    assert(t.skip(i - pos + 1) =~= v@.skip(i + 1));
                }
                let ghost kv = split_once(v@.subrange(pos as int, i as int), '=');
                push_pair(&v, pos, i, &mut keys, &mut values)?;
                proof {
                    let p = kv.unwrap();
                    assert(prepend_fields(acc, prepend_fields(seq![p], url_fields(v@.skip(i + 1))))
                        =~~= prepend_fields(acc.push(p), url_fields(v@.skip(i + 1))));
                    acc = acc.push(p);
                    assert(keys_of(acc) =~= keys.deep_view());
                    assert(values_of(acc) =~= values.deep_view());
                }
                pos = i + 1;
            },
            None => {
                let n = v.len();
                assert(v@.subrange(pos as int, n as int) =~= t);
                let ghost kv = split_once(t, '=');
                push_pair(&v, pos, n, &mut keys, &mut values)?;
                proof {
                    let p = kv.unwrap();
                    acc = acc.push(p);
                    assert(keys_of(acc) =~= keys.deep_view());
                    assert(values_of(acc) =~= values.deep_view());
                }
                return Ok((keys, values));
            },
        }
    }
}

/// The fields of a request body in the given encoding; `Ok(None)` where a
/// JSON body is not an object.
pub fn read_body_fields(body: &str, encoding: Encoding) -> (r: Result<
    Option<(Vec<String>, Vec<String>)>,
    ServerError,
>)
    ensures
        fields_are(r, body_fields(body@, encoding)),
{
    match encoding {
        Encoding::URL => {
            let (keys, values) = read_url_fields(body)?;
            Ok(Some((keys, values)))
        },
        Encoding::JSON => {
            let fields = match json_fields(body) {
                Ok(Some(fields)) => fields,
                Ok(None) => return Ok(None),
                Err(e) => return Err(ServerError::JsonError(e)),
            };
            let mut keys: Vec<String> = Vec::new();
            let mut values: Vec<String> = Vec::new();
            let mut i: usize = 0;
            while i < fields.len()
                invariant
                    i <= fields.len(),
                    keys.deep_view() == keys_of(fields.deep_view().take(i as int)),
                    values.deep_view() == values_of(fields.deep_view().take(i as int)),
                decreases fields.len() - i,
            {
                let (k, x) = &fields[i];
                let ghost old_keys = keys.deep_view();
                let ghost old_values = values.deep_view();
                assert(fields.deep_view()[i as int] == (k@, x@));
                keys.push(k.clone());
                values.push(x.clone());
                assert(keys.deep_view() =~= old_keys.push(k@));
                assert(values.deep_view() =~= old_values.push(x@));
                assert(fields.deep_view().take(i + 1) =~= fields.deep_view().take(i as int).push(
                    (k@, x@),
                ));
                i = i + 1;
                assert(keys.deep_view() =~= keys_of(fields.deep_view().take(i as int)));
                assert(values.deep_view() =~= values_of(fields.deep_view().take(i as int)));
            }
            assert(fields.deep_view().take(i as int) =~= fields.deep_view());
            Ok(Some((keys, values)))
        },
    }
}

/// A copy of the strings `v`.
pub fn copy_strings(v: &Vec<String>) -> (r: Vec<String>)
    ensures
        r.deep_view() == v.deep_view(),
{
    let mut r: Vec<String> = Vec::new();
    let mut j: usize = 0;
    while j < v.len()
        invariant
            j <= v.len(),
            r.deep_view() == v.deep_view().take(j as int),
        decreases v.len() - j,
    {
        let ghost before = r.deep_view();
        let s = v[j].clone();
        r.push(s);
        assert(r.deep_view() =~= before.push(v[j as int]@));
        j = j + 1;
        assert(r.deep_view() =~= v.deep_view().take(j as int));
    }
    assert(v.deep_view().take(j as int) =~= v.deep_view());
    r
}

/// One assignment of an update: `key = ?n`.
pub open spec fn assignment(key: Seq<char>, n: nat) -> Seq<char> {
    key + " = ?"@ + decimal(n)
}

/// The `SET` list of an update: `key = ?n` for the n-th key, separated by
/// `, `.
pub open spec fn assignments(keys: Seq<Seq<char>>) -> Seq<char>
    decreases keys.len(),
{
    if keys.len() == 0 {
        Seq::empty()
    } else if keys.len() == 1 {
        assignment(keys[0], 1)
    } else {
        assignments(keys.drop_last()) + ", "@ + assignment(keys.last(), keys.len())
    }
}

/// The statement that updates the row whose id is the parameter after the
/// keys' parameters.
pub open spec fn update_sql(table: Seq<char>, keys: Seq<Seq<char>>) -> Seq<char> {
    "UPDATE "@ + table + " SET "@ + assignments(keys) + " WHERE id = ?"@ + decimal(keys.len() + 1)
}

/// The message of a field list whose keys and values differ in number.
pub open spec fn mismatch_error() -> Seq<char> {
    "Something went wrong with parsing"@
}

/// The statement that sets the fields `keys` to `values` in the row `id` of
/// `table`; the values and then the id are its parameters.
pub fn update_statement(table: &str, id: &str, keys: &Vec<String>, values: &Vec<String>) -> (r:
    Result<SqlStatement, ServerError>)
    ensures
        keys.len() == values.len() ==> (r matches Ok(st) && st.sql@ == update_sql(
            table@,
            keys.deep_view(),
        ) && st.params.deep_view() == values.deep_view().push(id@)),
        keys.len() != values.len() ==> (r matches Err(e) && is_parse_error(e, mismatch_error())),
{
    if keys.len() != values.len() {
        return Err(ServerError::ParseError(String::from_str("Something went wrong with parsing")));
    }
    let mut sql = String::from_str("UPDATE ");
    push_str(&mut sql, table);
    push_str(&mut sql, " SET ");
    let ghost head = "UPDATE "@ + table@ + " SET "@;
    let mut i: usize = 0;
    while i < keys.len()
        invariant
            i <= keys.len(),
            sql@ == head + assignments(keys.deep_view().take(i as int)),
        decreases keys.len() - i,
    {
        let ghost before = sql@;
        if i > 0 {
            push_str(&mut sql, ", ");
        }
        push_str(&mut sql, keys[i].as_str());
        push_str(&mut sql, " = ?");
        let number = decimal_string(i as u128 + 1);
        push_str(&mut sql, number.as_str());
        proof {
            let t = keys.deep_view().take(i + 1);
            assert(t.drop_last() =~= keys.deep_view().take(i as int));
            assert(t.last() == keys[i as int]@);
            if i == 0 {
                assert(t[0] == keys[0]@);
            }
        }
        i = i + 1;
    }
    assert(keys.deep_view().take(i as int) =~= keys.deep_view());
    push_str(&mut sql, " WHERE id = ?");
    let number = decimal_string(values.len() as u128 + 1);
    push_str(&mut sql, number.as_str());
    let mut params = copy_strings(values);
    let ghost before = params.deep_view();
    params.push(String::from_str(id));
    assert(params.deep_view() =~= values.deep_view().push(id@));
    Ok(SqlStatement { sql, params })
}

/// The items joined by commas.
pub open spec fn joined(items: Seq<Seq<char>>) -> Seq<char>
    decreases items.len(),
{
    if items.len() == 0 {
        Seq::empty()
    } else if items.len() == 1 {
        items[0]
    } else {
        joined(items.drop_last()) + ","@ + items.last()
    }
}

/// The parameter names `?1` to `?n`.
pub open spec fn parameter_names(n: nat) -> Seq<Seq<char>> {
    Seq::new(n, |i: int| "?"@ + decimal((i + 1) as nat))
}

/// The statement that inserts a row with the values of `keys` given as
/// parameters `?1` to `?n`.
pub open spec fn insert_sql(table: Seq<char>, keys: Seq<Seq<char>>) -> Seq<char> {
    "INSERT INTO "@ + table + " ("@ + joined(keys) + ") VALUES ("@ + joined(
        parameter_names(keys.len()),
    ) + ")"@
}

/// Appends the items of `items` joined by commas.
fn push_joined(sql: &mut String, items: &Vec<String>)
    ensures
        final(sql)@ == old(sql)@ + joined(items.deep_view()),
{
    let mut i: usize = 0;
    while i < items.len()
        invariant
            i <= items.len(),
            sql@ == old(sql)@ + joined(items.deep_view().take(i as int)),
        decreases items.len() - i,
    {
        if i > 0 {
            push_str(sql, ",");
        }
        push_str(sql, items[i].as_str());
        proof {
            let t = items.deep_view().take(i + 1);
            assert(t.drop_last() =~= items.deep_view().take(i as int));
            assert(t.last() == items[i as int]@);
            if i == 0 {
                assert(t[0] == items[0]@);
            }
        }
        i = i + 1;
    }
    assert(items.deep_view().take(i as int) =~= items.deep_view());
}

/// Appends the parameter names `?1` to `?n` joined by commas.
fn push_parameter_names(sql: &mut String, n: usize)
    ensures
        final(sql)@ == old(sql)@ + joined(parameter_names(n as nat)),
{
    let mut i: usize = 0;
    while i < n
        invariant
            i <= n,
            sql@ == old(sql)@ + joined(parameter_names(i as nat)),
        decreases n - i,
    {
        if i > 0 {
            push_str(sql, ",");
        }
        push_str(sql, "?");
        let number = decimal_string(i as u128 + 1);
        push_str(sql, number.as_str());
        proof {
            let t = parameter_names((i + 1) as nat);
            assert(t.drop_last() =~= parameter_names(i as nat));
            assert(t.last() == "?"@ + decimal((i + 1) as nat));
            if i == 0 {
                assert(t[0] == "?"@ + decimal(1));
            }
        }
        i = i + 1;
    }
}

/// The statement that inserts a row into `table` with the given fields; the
/// values are its parameters.
pub fn insert_statement(table: &str, keys: &Vec<String>, values: &Vec<String>) -> (st:
    SqlStatement)
    ensures
        st.sql@ == insert_sql(table@, keys.deep_view()),
        st.params.deep_view() == values.deep_view(),
{
    let mut sql = String::from_str("INSERT INTO ");
    push_str(&mut sql, table);
    push_str(&mut sql, " (");
    push_joined(&mut sql, keys);
    push_str(&mut sql, ") VALUES (");
    push_parameter_names(&mut sql, keys.len());
    push_str(&mut sql, ")");
    let params = copy_strings(values);
    SqlStatement { sql, params }
}

/// Every key has a value that names a column type.
pub open spec fn types_known(keys: Seq<Seq<char>>, values: Seq<Seq<char>>) -> bool {
    &&& keys.len() <= values.len()
    &&& forall|i: int| 0 <= i < keys.len() ==> type_of_name(#[trigger] values[i]) is Some
}

/// The column definitions ` key TYPE,` of the keys, each typed by the value
/// at its position.
pub open spec fn column_defs(keys: Seq<Seq<char>>, values: Seq<Seq<char>>) -> Seq<char>
    decreases keys.len(),
{
    if keys.len() == 0 {
        Seq::empty()
    } else {
        column_defs(keys.drop_last(), values) + " "@ + keys.last() + " "@ + column_type_name(
            type_of_name(values[keys.len() - 1]).unwrap(),
        ) + ","@
    }
}

/// The statement that creates `table` with an integer primary key `id` and
/// one column per key, without the trailing comma of the last definition.
pub open spec fn create_sql(table: Seq<char>, keys: Seq<Seq<char>>, values: Seq<Seq<char>>) -> Seq<
    char,
> {
    ("CREATE TABLE IF NOT EXISTS "@ + table + " (id INTEGER PRIMARY KEY,"@ + column_defs(
        keys,
        values,
    )).drop_last() + ")"@
}

/// The statement of a `POST` to `<table>/create`; `Err` carries the message
/// of the parse error.
pub open spec fn create_plan(schema: Seq<char>, keys: Seq<Seq<char>>, values: Seq<Seq<char>>) -> Result<
    (Seq<char>, Seq<Seq<char>>),
    Seq<char>,
> {
    match split_once(schema, '/') {
        None => Err(split_error('/')),
        Some((table, _)) => Ok((create_sql(table, keys, values), Seq::<Seq<char>>::empty())),
    }
}

/// The statement that creates the table that `schema` (`<table>/create`)
/// names, with a column per key typed by the value at its position.
pub fn create_statement(schema: &str, keys: &Vec<String>, values: &Vec<String>) -> (r: Result<
    SqlStatement,
    ServerError,
>)
    requires
        split_once(schema@, '/') is Some ==> types_known(keys.deep_view(), values.deep_view()),
    ensures
        statement_is(r, create_plan(schema@, keys.deep_view(), values.deep_view())),
{
    let (table, _) = split_by_delimeter(schema, '/')?;
    let mut sql = String::from_str("CREATE TABLE IF NOT EXISTS ");
    push_str(&mut sql, table);
    push_str(&mut sql, " (id INTEGER PRIMARY KEY,");
    let ghost head = "CREATE TABLE IF NOT EXISTS "@ + table@ + " (id INTEGER PRIMARY KEY,"@;
    let mut i: usize = 0;
    while i < keys.len()
        invariant
            i <= keys.len(),
            types_known(keys.deep_view(), values.deep_view()),
            sql@ == head + column_defs(keys.deep_view().take(i as int), values.deep_view()),
        decreases keys.len() - i,
    {
        assert(type_of_name(values.deep_view()[i as int]) is Some);
        let db_type = Type::from_str(values[i].as_str());
        push_str(&mut sql, " ");
        let def = db_type.to_sql(keys[i].as_str());
        push_str(&mut sql, def.as_str());
        proof {
            let t = keys.deep_view().take(i + 1);
            assert(t.drop_last() =~= keys.deep_view().take(i as int));
            assert(t.last() == keys[i as int]@);
        }
        i = i + 1;
    }
    assert(keys.deep_view().take(i as int) =~= keys.deep_view());
    let ghost full = sql@;
    proof {
        reveal_strlit(" (id INTEGER PRIMARY KEY,");
        assert(full.len() > 0);
    }
    pop_char(&mut sql);
    push_char(&mut sql, ')');
    proof {
        reveal_strlit(")");
        assert(sql@ =~= full.drop_last() + ")"@);
    }
    let params: Vec<String> = Vec::new();
    assert(params.deep_view() =~= Seq::<Seq<char>>::empty());
    Ok(SqlStatement { sql, params })
}

/// What a request that changes the database comes to.
pub enum Planned {
    /// The statement with this text and these parameters.
    Statement(Seq<char>, Seq<Seq<char>>),
    /// A parse error with this message.
    Failed(Seq<char>),
    /// The body is not JSON.
    JsonFailed,
    /// A request that the server does not survive: a JSON body that is not
    /// an object, or a column type that it does not know.
    Panics,
}

/// An outcome of planning agrees with its model; `Ok(None)` is a request
/// that the server does not survive.
pub open spec fn planned_is(r: Result<Option<SqlStatement>, ServerError>, m: Planned) -> bool {
    match m {
        Planned::Statement(sql, params) => r matches Ok(Some(st)) && st.sql@ == sql
            && st.params.deep_view() == params,
        Planned::Failed(msg) => r matches Err(e) && is_parse_error(e, msg),
        Planned::JsonFailed => r matches Err(e) && e is JsonError,
        Planned::Panics => r matches Ok(None),
    }
}

/// The statement of a `PUT` (or `PATCH`) to `/api/<table>/<id>`: the row
/// `id` of the table gets the body's fields.
pub open spec fn put_plan(route: Seq<char>, body: Seq<char>, encoding: Encoding) -> Planned {
    match table_path(route) {
        None => Planned::Failed(find_error('/')),
        Some(schema) => match split_once(schema, '/') {
            None => Planned::Failed(split_error('/')),
            Some((table, id)) => match body_fields(body, encoding) {
                BodyFields::ParseFailed(msg) => Planned::Failed(msg),
                BodyFields::JsonFailed => Planned::JsonFailed,
                BodyFields::NotAnObject => Planned::Panics,
                BodyFields::Fields(fs) => Planned::Statement(
                    update_sql(table, keys_of(fs)),
                    values_of(fs).push(id),
                ),
            },
        },
    }
}

/// The statement of a `POST`: to `/api/<table>/create` it creates the table
/// with a column per field, the field's value naming the column's type; to
/// `/api/<table>` it inserts a row with the body's fields.
pub open spec fn post_plan(route: Seq<char>, body: Seq<char>, encoding: Encoding) -> Planned {
    match table_path(route) {
        None => Planned::Failed(find_error('/')),
        Some(schema) => match body_fields(body, encoding) {
            BodyFields::ParseFailed(msg) => Planned::Failed(msg),
            BodyFields::JsonFailed => Planned::JsonFailed,
            BodyFields::NotAnObject => Planned::Panics,
            BodyFields::Fields(fs) => if ends_with(schema, "create"@) {
                match split_once(schema, '/') {
                    None => Planned::Failed(split_error('/')),
                    Some((table, _)) => if types_known(keys_of(fs), values_of(fs)) {
                        Planned::Statement(
                            create_sql(table, keys_of(fs), values_of(fs)),
                            Seq::<Seq<char>>::empty(),
                        )
                    } else {
                        Planned::Panics
                    },
                }
            } else {
                Planned::Statement(insert_sql(schema, keys_of(fs)), values_of(fs))
            },
        },
    }
}

/// Whether the first `n` values all name column types.
fn all_types_known(keys: &Vec<String>, values: &Vec<String>) -> (r: bool)
    ensures
        r == types_known(keys.deep_view(), values.deep_view()),
{
    if keys.len() > values.len() {
        return false;
    }
    let mut i: usize = 0;
    while i < keys.len()
        invariant
            keys.len() <= values.len(),
            i <= keys.len(),
            forall|j: int| 0 <= j < i ==> type_of_name(#[trigger] values.deep_view()[j]) is Some,
        decreases keys.len() - i,
    {
        if Type::parse_name(values[i].as_str()).is_none() {
            assert(type_of_name(values.deep_view()[i as int]) is None);
            return false;
        }
        i = i + 1;
    }
    true
}

/// The statement that a `PUT` (or `PATCH`) request executes; see
/// `put_plan`.
pub fn plan_put_request(route: &str, body: &str, encoding: Encoding) -> (r: Result<
    Option<SqlStatement>,
    ServerError,
>)
    requires
        route_sliceable(route@),
    ensures
        planned_is(r, put_plan(route@, body@, encoding)),
{
    let schema = route_table_path(route)?;
    let (table, id) = split_by_delimeter(schema, '/')?;
    let (keys, values) = match read_body_fields(body, encoding)? {
        Some(fields) => fields,
        None => return Ok(None),
    };
    proof {
        if let BodyFields::Fields(fs) = body_fields(body@, encoding) {
            assert(keys.deep_view().len() == keys_of(fs).len());
            assert(values.deep_view().len() == values_of(fs).len());
        }
    }
    let st = update_statement(table, id, &keys, &values)?;
    Ok(Some(st))
}

/// The statement that a `POST` request executes; see `post_plan`.
pub fn plan_post_request(route: &str, body: &str, encoding: Encoding) -> (r: Result<
    Option<SqlStatement>,
    ServerError,
>)
    requires
        route_sliceable(route@),
    ensures
        planned_is(r, post_plan(route@, body@, encoding)),
{
    let schema = route_table_path(route)?;
    let (keys, values) = match read_body_fields(body, encoding)? {
        Some(fields) => fields,
        None => return Ok(None),
    };
    let sv = chars_of(schema);
    if has_suffix(&sv, "create") {
        if find_char(&sv, '/').is_some() && !all_types_known(&keys, &values) {
            return Ok(None);
        }
        let st = create_statement(schema, &keys, &values)?;
        Ok(Some(st))
    } else {
        Ok(Some(insert_statement(schema, &keys, &values)))
    }
}

/// The file that a route names: `/` is the index page; a page route names
/// an `.html` file under `static/`; any other route names itself without
/// its leading `/`.
pub open spec fn served_path(route: Seq<char>, doc_type: DocType) -> Seq<char> {
    if route == "/"@ {
        "static/index.html"@
    } else if doc_type == DocType::HTML {
        "static/"@ + route.drop_first() + ".html"@
    } else {
        route.drop_first()
    }
}

/// The `/`-separated segments of a path, empty ones included.
pub open spec fn segments(p: Seq<char>) -> Seq<Seq<char>>
    decreases p.len(),
{
    match first_index(p, '/') {
        Some(i) => if 0 <= i < p.len() {
            seq![p.take(i)] + segments(p.skip(i + 1))
        } else {
            seq![p]
        },
        None => seq![p],
    }
}

/// A path with a `..` segment, which could lead out of its directory.
pub open spec fn climbs(p: Seq<char>) -> bool {
    segments(p).contains(".."@)
}

/// The directories that `segs` lead to from `stack`: empty and `.`
/// segments stay, `..` goes up (`None` where it would leave the start),
/// any other segment goes down.
pub open spec fn resolve(stack: Seq<Seq<char>>, segs: Seq<Seq<char>>) -> Option<Seq<Seq<char>>>
    decreases segs.len(),
{
    if segs.len() == 0 {
        Some(stack)
    } else {
        let s = segs[0];
        if s == Seq::<char>::empty() || s == "."@ {
            resolve(stack, segs.drop_first())
        } else if s == ".."@ {
            if stack.len() == 0 {
                None
            } else {
                resolve(stack.drop_last(), segs.drop_first())
            }
        } else {
            resolve(stack.push(s), segs.drop_first())
        }
    }
}

/// A relative path with its `.` and `..` segments resolved: the segments of
/// the place it names, or `None` where it leads above its start.
pub open spec fn normalized(p: Seq<char>) -> Option<Seq<Seq<char>>> {
    resolve(Seq::empty(), segments(p))
}

/// A path that the server may answer: under `static/`, `styles/` or
/// `scripts/`, or a database route under `api`, and with no `..` segment.
pub open spec fn is_safe_path(p: Seq<char>) -> bool {
    &&& {
        ||| starts_with(p, "static/"@)
        ||| starts_with(p, "styles/"@)
        ||| starts_with(p, "scripts/"@)
        ||| starts_with(p, "api"@)
    }
    &&& !climbs(p)
}

/// `seq![a] + rest` holds `x` where `a` is `x` or `rest` holds it.
pub proof fn lemma_contains_prepend(a: Seq<char>, rest: Seq<Seq<char>>, x: Seq<char>)
    ensures
        (seq![a] + rest).contains(x) == (a == x || rest.contains(x)),
{
    let s = seq![a] + rest;
    if s.contains(x) {
        let k = choose|k: int| 0 <= k < s.len() && s[k] == x;
        if k > 0 {
            assert(rest[k - 1] == x);
        }
    }
    if a == x {
        assert(s[0] == x);
    }
    if rest.contains(x) {
        let k = choose|k: int| 0 <= k < rest.len() && rest[k] == x;
        assert(s[k + 1] == x);
    }
}

/// Whether the path has a `..` segment; see `climbs`.
pub fn has_parent_segment(v: &Vec<char>) -> (r: bool)
    ensures
        r == climbs(v@),
{
    let mut pos: usize = 0;
    assert(v@.skip(0) =~= v@);
    loop
        invariant
            pos <= v.len(),
            climbs(v@) == segments(v@.skip(pos as int)).contains(".."@),
        decreases v.len() - pos,
    {
        let ghost t = v@.skip(pos as int);
        match find_char_from(v, '/', pos) {
            Some(i) => {
                let seg = slice_of(v, pos, i);
                proof {
                    assert(t.take(i - pos) =~= seg@);
                    assert(t.skip(i - pos + 1) =~= v@.skip(i + 1));
                    lemma_contains_prepend(seg@, segments(v@.skip(i + 1)), ".."@);
                }
                if eq_str(&seg, "..") {
                    return true;
                }
                pos = i + 1;
            },
            None => {
                let n = v.len();
                let seg = slice_of(v, pos, n);
                proof {
                    assert(seg@ =~= t);
                    assert(segments(t) == seq![t]);
                    lemma_contains_prepend(t, Seq::empty(), ".."@);
                    assert(seq![t] + Seq::<Seq<char>>::empty() =~= seq![t]);
                }
                return eq_str(&seg, "..");
            },
        }
    }
}

/// What a `GET` request is answered with.
pub enum GetTarget {
    /// A refusal: the path is outside the served directories, or could
    /// leave them through a `..` segment.
    Forbidden,
    /// The names of the database's tables.
    ListTables,
    /// The rows of a table, or the row with an id.
    Rows(Seq<char>, Option<Seq<char>>),
    /// The contents of a file.
    File(Seq<char>),
}

/// What a `GET` for `route`, whose document type is `doc_type`, is answered
/// with.
pub open spec fn get_target(route: Seq<char>, doc_type: DocType) -> GetTarget {
    let p = served_path(route, doc_type);
    if !is_safe_path(p) {
        GetTarget::Forbidden
    } else if starts_with(p, "api"@) {
        if p == "api"@ || p == "api/"@ {
            GetTarget::ListTables
        } else {
            let rest = p.skip(4);
            match split_once(rest, '/') {
                Some((table, id)) => GetTarget::Rows(table, Some(id)),
                None => GetTarget::Rows(rest, None),
            }
        }
    } else {
        GetTarget::File(p)
    }
}

/// A `GET` route whose cuts fall between characters: its first character
/// and the fourth character of a database path are one byte each.
pub open spec fn get_route_ok(route: Seq<char>, doc_type: DocType) -> bool {
    let p = served_path(route, doc_type);
    &&& route.len() > 0
    &&& route != "/"@ ==> (route[0] as u32) < 128
    &&& (is_safe_path(p) && starts_with(p, "api"@) && p.len() >= 4) ==> (p[3] as u32) < 128
}

/// How a `GET` request is answered.
pub enum GetPlan {
    /// With `FORBIDDEN_RESPONSE`.
    Forbidden,
    /// With the JSON list of the table names that `LIST_TABLES_SQL` selects.
    ListTables,
    /// With the JSON list of the rows that `rows_sql` selects (with `id` as
    /// its parameter, if any), their members named by the column names
    /// that `columns_sql` selects.
    Rows { columns_sql: String, rows_sql: String, id: Option<String> },
    /// With the file at `path`, or the not-found page.
    File { path: String },
}

/// The answer to a path outside the served directories.
pub const FORBIDDEN_RESPONSE: &'static str = "HTTP/1.1 403 Forbidden\r\n\r\n";

/// The message of a response to a `PUT` (or `PATCH`).
pub const UPDATED_MESSAGE: &'static str = "Succesfully updated";

/// The message of a response to a `DELETE`.
pub const DELETED_MESSAGE: &'static str = "Succesfully deleted";

/// The message of a response to a `POST`.
pub const CREATED_MESSAGE: &'static str = "Succesfully created";

/// The message of a response to a database `GET`.
pub const RECEIVED_MESSAGE: &'static str = "Succesfully recieved";

/// The query for the names of the database's tables.
pub const LIST_TABLES_SQL: &'static str =
    "SELECT name FROM sqlite_schema WHERE type='table' AND name NOT LIKE 'sqlite_%';\n";

/// The page served for a file that cannot be opened.
pub const NOT_FOUND_PAGE: &'static str = "static/not-found.html";

/// A plan agrees with its model.
pub open spec fn get_plan_is(plan: GetPlan, t: GetTarget) -> bool {
    match t {
        GetTarget::Forbidden => plan is Forbidden,
        GetTarget::ListTables => plan is ListTables,
        GetTarget::Rows(table, id) => match plan {
            GetPlan::Rows { columns_sql, rows_sql, id: pid } => {
                &&& columns_sql@ == "PRAGMA table_info("@ + table + ")"@
                &&& match id {
                    Some(i) => pid matches Some(x) && x@ == i && rows_sql@ == "SELECT * FROM "@
                        + table + " WHERE id = ?1"@,
                    None => pid is None && rows_sql@ == "SELECT * FROM "@ + table,
                }
            },
            _ => false,
        },
        GetTarget::File(p) => plan matches GetPlan::File { path } && path@ == p,
    }
}

/// The file that a route names; see `served_path`.
fn absolute_route(rv: &Vec<char>, doc_type: DocType) -> (r: Vec<char>)
    requires
        rv.len() > 0,
    ensures
        r@ == served_path(rv@, doc_type),
{
    if eq_str(rv, "/") {
        chars_of("static/index.html")
    } else {
        let n = rv.len();
        let tail = string_of(rv, 1, n);
        assert(rv@.subrange(1, n as int) =~= rv@.drop_first());
        match doc_type {
            DocType::HTML => {
                let mut s = String::from_str("static/");
                push_str(&mut s, tail.as_str());
                push_str(&mut s, ".html");
                chars_of(s.as_str())
            },
            _ => chars_of(tail.as_str()),
        }
    }
}

/// Whether the path is one that the server may answer.
fn safe_path(p: &Vec<char>) -> (r: bool)
    ensures
        r == is_safe_path(p@),
{
    (has_prefix(p, "static/") || has_prefix(p, "styles/") || has_prefix(p, "scripts/")
        || has_prefix(p, "api")) && !has_parent_segment(p)
}

/// Whether a `GET` route's cuts fall between characters; see
/// `get_route_ok`.
pub fn get_route_supported(route: &str, doc_type: DocType) -> (r: bool)
    ensures
        r == get_route_ok(route@, doc_type),
{
    let rv = chars_of(route);
    if rv.len() == 0 {
        return false;
    }
    if !eq_str(&rv, "/") && rv[0] as u32 >= 128 {
        return false;
    }
    let p = absolute_route(&rv, doc_type);
    if safe_path(&p) && has_prefix(&p, "api") && p.len() >= 4 {
        return (p[3] as u32) < 128;
    }
    true
}

/// How a `GET` for `route`, whose document type is `doc_type`, is
/// answered; see `get_target`.
pub fn plan_get_request(route: &str, doc_type: DocType) -> (plan: GetPlan)
    requires
        get_route_ok(route@, doc_type),
    ensures
        get_plan_is(plan, get_target(route@, doc_type)),
{
    let rv = chars_of(route);
    let p = absolute_route(&rv, doc_type);
    if !safe_path(&p) {
        return GetPlan::Forbidden;
    }
    if has_prefix(&p, "api") {
        if eq_str(&p, "api") || eq_str(&p, "api/") {
            return GetPlan::ListTables;
        }
        proof {
            reveal_strlit("api");
            if p@.len() == 3 {
                assert(p@ =~= p@.take(3));
            }
        }
        let n = p.len();
        let rest = slice_of(&p, 4, n);
        assert(rest@ =~= p@.skip(4));
        let (table, id) = match find_char(&rest, '/') {
            Some(i) => {
                let m = rest.len();
                let t = string_of(&rest, 0, i);
                let x = string_of(&rest, i + 1, m);
                assert(rest@.subrange(0, i as int) =~= rest@.take(i as int));
                assert(rest@.subrange(i + 1, m as int) =~= rest@.skip(i + 1));
                (t, Some(x))
            },
            None => {
                let m = rest.len();
                let t = string_of(&rest, 0, m);
                assert(rest@.subrange(0, m as int) =~= rest@);
                (t, None)
            },
        };
        let mut columns_sql = String::from_str("PRAGMA table_info(");
        push_str(&mut columns_sql, table.as_str());
        push_str(&mut columns_sql, ")");
        let mut rows_sql = String::from_str("SELECT * FROM ");
        push_str(&mut rows_sql, table.as_str());
        if id.is_some() {
            push_str(&mut rows_sql, " WHERE id = ?1");
        }
        return GetPlan::Rows { columns_sql, rows_sql, id };
    }
    let n = p.len();
    let path = string_of(&p, 0, n);
    assert(p@.subrange(0, n as int) =~= p@);
    GetPlan::File { path }
}

/// The status line of a file response: found, or the not-found page.
pub open spec fn file_status(found: bool) -> Seq<char> {
    if found {
        "HTTP/1.1 200 OK"@
    } else {
        "HTTP/1.1 404 Not Found"@
    }
}

/// The response carrying a file's contents (or, where the file was not
/// found, the not-found page) with the route's content type.
pub fn file_response(found: bool, doc_type: DocType, content: &str) -> (r: String)
    ensures
        r@ == crate::interface::response_text(
            file_status(found),
            crate::interface::doc_type_name(doc_type),
            content@,
        ),
{
    let status_header = if found {
        "HTTP/1.1 200 OK"
    } else {
        "HTTP/1.1 404 Not Found"
    };
    crate::interface::http_response(status_header, doc_type.to_string(), content)
}

/// `i` is the position of the first header that begins, case aside, with
/// `name`.
pub open spec fn is_first_header(hs: Seq<Seq<char>>, name: Seq<char>, i: int) -> bool {
    &&& 0 <= i < hs.len()
    &&& starts_with_ignore_case(hs[i], name)
    &&& forall|j: int| 0 <= j < i ==> !starts_with_ignore_case(#[trigger] hs[j], name)
}

/// The position of the first header that begins, case aside, with `name`.
pub open spec fn first_header(hs: Seq<Seq<char>>, name: Seq<char>) -> Option<int> {
    if exists|i: int| is_first_header(hs, name, i) {
        Some(choose|i: int| is_first_header(hs, name, i))
    } else {
        None
    }
}

/// The value of the first header named `name` (given in lower case, with
/// its colon): what follows the header's first `:`, trimmed.
pub open spec fn header_value(hs: Seq<Seq<char>>, name: Seq<char>) -> Option<Seq<char>> {
    match first_header(hs, name) {
        Some(i) => match split_once(hs[i], ':') {
            Some((_, v)) => Some(trim(v, false)),
            None => None,
        },
        None => None,
    }
}

/// Headers whose `Content-Type`, where the body is read, names an encoding
/// that the server reads.
pub open spec fn framing_ok(hs: Seq<Seq<char>>) -> bool {
    (header_value(hs, "content-length:"@) is Some && header_value(hs, "content-type:"@) is Some)
        ==> encoding_of(header_value(hs, "content-type:"@).unwrap()) is Some
}

/// The value of the first header named `name`; see `header_value`.
pub fn find_header_value(headers: &Vec<String>, name: &str) -> (r: Option<Vec<char>>)
    ensures
        match r {
            Some(v) => header_value(headers.deep_view(), name@) == Some(v@),
            None => header_value(headers.deep_view(), name@) is None,
        },
{
    let ghost hs = headers.deep_view();
    let mut i: usize = 0;
    while i < headers.len()
        invariant
            hs == headers.deep_view(),
            i <= headers.len(),
            forall|j: int| 0 <= j < i ==> !starts_with_ignore_case(#[trigger] hs[j], name@),
        decreases headers.len() - i,
    {
        let h = chars_of(headers[i].as_str());
        assert(h@ == hs[i as int]);
        if has_prefix_ignore_case(&h, name) {
            proof {
                lemma_first_header(hs, name@, i as int);
            }
            match find_char(&h, ':') {
                Some(k) => {
                    let n = h.len();
                    let v = trim_range(&h, k + 1, n, false);
                    assert(h@.subrange(k + 1, n as int) =~= h@.skip(k + 1));
                    return Some(v);
                },
                None => return None,
            }
        }
        i = i + 1;
    }
    proof {
        if exists|k: int| is_first_header(hs, name@, k) {
            let k = choose|k: int| is_first_header(hs, name@, k);
            assert(!starts_with_ignore_case(hs[k], name@));
        }
    }
    None
}

/// The first matching header, where there is one, is unique.
pub proof fn lemma_first_header(hs: Seq<Seq<char>>, name: Seq<char>, i: int)
    requires
        is_first_header(hs, name, i),
    ensures
        first_header(hs, name) == Some(i),
{
    let k = choose|k: int| is_first_header(hs, name, k);
    assert(is_first_header(hs, name, k));
    if k < i {
        assert(!starts_with_ignore_case(hs[k], name));
    } else if i < k {
        assert(!starts_with_ignore_case(hs[i], name));
    }
}

/// Whether the headers' `Content-Type` can be read where the body is; see
/// `framing_ok`.
pub fn body_framing_supported(headers: &Vec<String>) -> (r: bool)
    ensures
        r == framing_ok(headers.deep_view()),
{
    match (find_header_value(headers, "content-length:"), find_header_value(headers, "content-type:")) {
        (Some(_), Some(t)) => Encoding::parse(&t).is_some(),
        _ => true,
    }
}

/// The length and encoding of a request's body: the `Content-Length` value
/// read as a number (0 where it is not one) and the encoding that the
/// `Content-Type` value names.
pub fn body_framing(headers: &Vec<String>) -> (r: Result<(usize, Encoding), ServerError>)
    requires
        framing_ok(headers.deep_view()),
    ensures
        match header_value(headers.deep_view(), "content-length:"@) {
            None => r matches Err(e) && is_parse_error(e, "Could not find content length"@),
            Some(l) => match header_value(headers.deep_view(), "content-type:"@) {
                None => r matches Err(e) && is_parse_error(e, "Could not find content type"@),
                Some(t) => r == Ok::<(usize, Encoding), ServerError>(
                    (
                        match parse_usize(l) {
                            Some(n) => n,
                            None => 0,
                        },
                        encoding_of(t).unwrap(),
                    ),
                ),
            },
        },
{
    let length = match find_header_value(headers, "content-length:") {
        Some(l) => {
            let n = l.len();
            assert(l@.subrange(0, n as int) =~= l@);
            match parse_usize_range(&l, 0, n) {
                Some(x) => x,
                None => 0,
            }
        },
        None => {
            return Err(ServerError::ParseError(String::from_str("Could not find content length")));
        },
    };
    let content_type = match find_header_value(headers, "content-type:") {
        Some(t) => t,
        None => {
            return Err(ServerError::ParseError(String::from_str("Could not find content type")));
        },
    };
    let encoding = Encoding::from_content_type(&content_type);
    Ok((length, encoding))
}

/// The text of a request body: its bytes decoded as UTF-8.
pub fn decode_body(bytes: Vec<u8>) -> (r: Result<String, ServerError>)
    ensures
        valid_utf8(bytes@) ==> (r matches Ok(s) && s@ == decode_utf8(bytes@)),
        !valid_utf8(bytes@) ==> (r matches Err(e) && is_parse_error(e, "Could not convert body"@)),
{
    match utf8_string(bytes) {
        Some(s) => Ok(s),
        None => Err(ServerError::ParseError(String::from_str("Could not convert body"))),
    }
}

/// The request line: the first of the request's header lines.
pub fn request_line(headers: &Vec<String>) -> (r: Result<&String, ServerError>)
    ensures
        headers.len() > 0 ==> (r matches Ok(h) && h@ == headers[0]@),
        headers.len() == 0 ==> (r matches Err(e) && is_parse_error(
            e,
            "Could not find request header"@,
        )),
{
    if headers.len() == 0 {
        return Err(ServerError::ParseError(String::from_str("Could not find request header")));
    }
    Ok(&headers[0])
}

/// The answer to a `GET` of the table list: always an OK response whose
/// JSON content is the array of the table names.
pub fn table_list_response(names: &Vec<String>) -> (r: Result<String, ServerError>)
    ensures
        r matches Ok(text) && text@ == crate::interface::response_text(
            crate::interface::status_line(crate::interface::Status::OK),
            crate::interface::doc_type_name(DocType::API),
            json_string_list_text(names.deep_view()),
        ),
{
    let json = match json_string_list(names) {
        Ok(json) => json,
        Err(e) => return Err(ServerError::JsonError(e)),
    };
    let response = crate::interface::Response {
        status: crate::interface::Status::OK,
        message: String::from_str(RECEIVED_MESSAGE),
    };
    Ok(response.response_text(json.as_str(), DocType::API))
}

} // verus!
