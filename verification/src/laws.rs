//! Properties of the library as a whole, proved over the models that the
//! functions' contracts use.
use vstd::prelude::*;

use crate::balancer::{backend_for, line_content_length};
use crate::interface::{column_type_name, doc_type_name, doc_type_of, DocType, Type, type_of_name};
use crate::interface::{encoding_of, status_code, status_line, Encoding, Status};
use crate::server::{
    body_fields, create_sql, delete_plan, get_target, insert_sql, keys_of, post_plan, put_plan,
    table_path, types_known, update_sql, values_of, BodyFields, GetTarget, Planned, climbs,
    lemma_contains_prepend, normalized, resolve, segments, get_plan_is, GetPlan, header_value,
    is_first_header, lemma_first_header, framing_ok,
};
use crate::cli::{arg_pairs, cli_args_ok};
use crate::text::{lemma_has_first_index, parse_usize, all_digits, decimal, digit_char, digits_value, is_digit, lemma_decimal_digits, lower_code,
    starts_with_ignore_case, unsigned_digits, is_trimmed, leading, trailing, trim, ends_with, split_once, starts_with, is_first_index, first_index, lemma_first_index, lemma_no_index};

verus! {

/// Every file that a `GET` serves lies, once its `.` and `..` segments are
/// resolved, inside `static/`, `styles/` or `scripts/`: a route whose path
/// would leave them is refused (or, under `api`, is a database route).
pub proof fn lemma_served_files_confined(route: Seq<char>, doc_type: DocType)
    ensures
        get_target(route, doc_type) matches GetTarget::File(p) ==> (normalized(p) matches Some(n)
            && n.len() >= 1 && (n[0] == "static"@ || n[0] == "styles"@ || n[0] == "scripts"@)),
{
    if let GetTarget::File(p) = get_target(route, doc_type) {
        reveal_strlit(".");
        reveal_strlit("..");
        reveal_strlit("static/");
        reveal_strlit("styles/");
        reveal_strlit("scripts/");
        reveal_strlit("static");
        reveal_strlit("styles");
        reveal_strlit("scripts");
        if starts_with(p, "static/"@) {
            assert("static"@.push('/') =~= "static/"@);
            lemma_confined_under(p, "static"@);
        } else if starts_with(p, "styles/"@) {
            assert("styles"@.push('/') =~= "styles/"@);
            lemma_confined_under(p, "styles"@);
        } else {
            assert("scripts"@.push('/') =~= "scripts/"@);
            lemma_confined_under(p, "scripts"@);
        }
    }
}

/// A path `dir/rest` without `..` segments, `dir` a plain name, resolves
/// to a place inside `dir`.
proof fn lemma_confined_under(p: Seq<char>, dir: Seq<char>)
    requires
        dir.len() > 0,
        !dir.contains('/'),
        dir != "."@,
        dir != ".."@,
        starts_with(p, dir.push('/')),
        !climbs(p),
    ensures
        normalized(p) matches Some(n) && n.len() >= 1 && n[0] == dir,
{
    let rest = p.skip(dir.len() as int + 1);
    let q = dir + seq!['/'] + rest;
    assert(p =~= q) by {
        assert(p.take(dir.len() as int + 1) == dir.push('/'));
        assert forall|k: int| 0 <= k < p.len() implies p[k] == q[k] by {
            if k <= dir.len() {
                assert(p[k] == p.take(dir.len() as int + 1)[k]);
                assert(dir.push('/')[k] == q[k]);
            } else {
                assert(p[k] == rest[k - dir.len() - 1]);
            }
        }
    }
    lemma_segments_prefix(dir, rest);
    lemma_contains_prepend(dir, segments(rest), ".."@);
    let segs = seq![dir] + segments(rest);
    assert(segs[0] == dir);
    assert(segs.drop_first() =~= segments(rest));
    assert(dir != Seq::<char>::empty());
    assert(resolve(Seq::empty(), segs) == resolve(seq![dir], segments(rest))) by {
        assert(Seq::<Seq<char>>::empty().push(dir) =~= seq![dir]);
    }
    lemma_resolve_keeps(seq![dir], segments(rest));
}

/// The segments of `dir/rest`, for `dir` without `/`: `dir`, then those of
/// `rest`.
pub proof fn lemma_segments_prefix(dir: Seq<char>, rest: Seq<char>)
    requires
        !dir.contains('/'),
    ensures
        segments(dir + seq!['/'] + rest) == seq![dir] + segments(rest),
{
    let p = dir + seq!['/'] + rest;
    assert forall|j: int| 0 <= j < dir.len() implies p[j] != '/' by {
        assert(p[j] == dir[j]);
        if dir[j] == '/' {
            assert(dir.contains('/'));
        }
    }
    assert(is_first_index(p, '/', dir.len() as int));
    lemma_first_index(p, '/', dir.len() as int);
    assert(p.take(dir.len() as int) =~= dir);
    assert(p.skip(dir.len() as int + 1) =~= rest);
}

/// Resolving segments without `..` from a stack only goes deeper: the stack
/// stays at the front of the result.
pub proof fn lemma_resolve_keeps(stack: Seq<Seq<char>>, segs: Seq<Seq<char>>)
    requires
        !segs.contains(".."@),
    ensures
        resolve(stack, segs) matches Some(n) && n.len() >= stack.len() && (forall|j: int|
            0 <= j < stack.len() ==> n[j] == stack[j]),
    decreases segs.len(),
{
    if segs.len() > 0 {
        let s = segs[0];
        let rest = segs.drop_first();
        assert(s != ".."@) by {
            if s == ".."@ {
                assert(segs.contains(".."@));
            }
        }
        assert(!rest.contains(".."@)) by {
            if rest.contains(".."@) {
                let k = choose|k: int| 0 <= k < rest.len() && rest[k] == ".."@;
                assert(segs[k + 1] == ".."@);
            }
        }
        if s == Seq::<char>::empty() || s == "."@ {
            lemma_resolve_keeps(stack, rest);
        } else {
            lemma_resolve_keeps(stack.push(s), rest);
        }
    }
}

/// `p` holds two dots in a row at `k`.
pub open spec fn double_dot_at(p: Seq<char>, k: int) -> bool {
    0 <= k && k + 1 < p.len() && p[k] == '.' && p[k + 1] == '.'
}

/// A path with a `..` segment holds two dots in a row.
pub proof fn lemma_climbs_double_dot(p: Seq<char>)
    requires
        climbs(p),
    ensures
        exists|k: int| double_dot_at(p, k),
    decreases p.len(),
{
    reveal_strlit("..");
    match first_index(p, '/') {
        Some(i) => {
            if 0 <= i < p.len() {
                lemma_contains_prepend(p.take(i), segments(p.skip(i + 1)), ".."@);
                if p.take(i) == ".."@ {
                    assert(".."@[0] == '.' && ".."@[1] == '.');
                    assert(p.take(i).len() == i);
                    assert(p[0] == p.take(i)[0] && p[1] == p.take(i)[1]);
                    assert(double_dot_at(p, 0));
                } else {
                    let q = p.skip(i + 1);
                    lemma_climbs_double_dot(q);
                    let k = choose|k: int| double_dot_at(q, k);
                    assert(p[k + i + 1] == q[k] && p[k + i + 2] == q[k + 1]);
                    assert(double_dot_at(p, k + i + 1));
                }
            } else {
                lemma_contains_prepend(p, Seq::empty(), ".."@);
                assert(seq![p] + Seq::<Seq<char>>::empty() =~= seq![p]);
                assert(p[0] == '.' && p[1] == '.');
                assert(double_dot_at(p, 0));
            }
        },
        None => {
            lemma_contains_prepend(p, Seq::empty(), ".."@);
            assert(seq![p] + Seq::<Seq<char>>::empty() =~= seq![p]);
            assert(p[0] == '.' && p[1] == '.');
            assert(double_dot_at(p, 0));
        },
    }
}

/// The backends take connections in turn: the connection after one that
/// went to a backend goes to the next backend, the last followed by the
/// first (the counter's wrap from its maximum to 0 excepted).
pub proof fn lemma_round_robin(current: u16)
    requires
        current < u16::MAX,
    ensures
        backend_for((current + 1) as u16) == if backend_for(current) == 8085 {
            8081
        } else {
            (backend_for(current) + 1) as u16
        },
{
}

/// The SQL name of each column type reads back as that type.
pub proof fn lemma_type_name_round_trip(t: Type)
    ensures
        type_of_name(column_type_name(t)) == Some(t),
{
    reveal_strlit("INTEGER");
    reveal_strlit("TEXT");
    reveal_strlit("REAL");
    reveal_strlit("BLOB");
    reveal_strlit("NULL");
    reveal_strlit("integer");
    reveal_strlit("text");
    reveal_strlit("real");
    reveal_strlit("float");
    reveal_strlit("blob");
    reveal_strlit("null");
    let s = column_type_name(t);
    assert(s.len() > 0 && s[0] != '"' && s.last() != '"');
    lemma_trim_noop(s, true);
    assert(trim(s, true) == s);
}

/// A text that neither starts nor ends with a trimmed character is its own
/// trim.
pub proof fn lemma_trim_noop(s: Seq<char>, quotes: bool)
    requires
        s.len() > 0 ==> !is_trimmed(s[0], quotes) && !is_trimmed(s.last(), quotes),
    ensures
        trim(s, quotes) == s,
{
    assert(leading(s, quotes) == 0);
    assert(s.skip(0) =~= s);
    assert(trailing(s, quotes) == 0);
    assert(s.take(s.len() as int) =~= s);
}

/// A route that ends with a text ending in `.` followed by characters holds
/// a `.`.
proof fn lemma_suffix_dot(route: Seq<char>, ext: Seq<char>)
    requires
        ext.len() > 0,
        ext[0] == '.',
        ends_with(route, ext),
    ensures
        route.contains('.'),
{
    let k = route.len() - ext.len();
    assert(route.skip(k)[0] == '.');
    assert(route[k] == '.');
}

/// A page added as `static/<name>.html` is served at `/<name>`, as HTML,
/// for any name without a `.` that does not begin with `api`.
pub proof fn lemma_pages_served_from_static(name: Seq<char>)
    requires
        name.len() > 0,
        !name.contains('.'),
        !starts_with(name, "api"@),
    ensures
        doc_type_of(seq!['/'] + name) == DocType::HTML,
        doc_type_name(DocType::HTML) == "text/html"@,
        get_target(seq!['/'] + name, DocType::HTML) == GetTarget::File(
            "static/"@ + name + ".html"@,
        ),
{
    reveal_strlit(".css");
    reveal_strlit(".js");
    reveal_strlit("/api");
    reveal_strlit("api");
    reveal_strlit("/");
    reveal_strlit("static/");
    reveal_strlit("static/index.html");
    let route = seq!['/'] + name;
    assert(!route.contains('.')) by {
        if route.contains('.') {
            let k = choose|k: int| 0 <= k < route.len() && route[k] == '.';
            assert(name[k - 1] == '.');
        }
    }
    if ends_with(route, ".css"@) {
        lemma_suffix_dot(route, ".css"@);
    }
    if ends_with(route, ".js"@) {
        lemma_suffix_dot(route, ".js"@);
    }
    if starts_with(route, "/api"@) {
        assert(name.take(3) =~= route.take(4).drop_first());
        assert("/api"@.drop_first() =~= "api"@);
        assert(false);
    }
    assert(!ends_with(route, ".css"@));
    assert(!ends_with(route, ".js"@));
    assert(route.take(1) =~= "/"@);
    assert(starts_with(route, "/"@));
    assert(route != "/"@);
    assert(route.drop_first() =~= name);
    let p = "static/"@ + name + ".html"@;
    assert(p.take(7) =~= "static/"@);
    assert(!starts_with(p, "api"@)) by {
        if starts_with(p, "api"@) {
            assert(p.take(3)[0] == p[0]);
        }
    }
    reveal_strlit(".html");
    assert(!climbs(p)) by {
        if climbs(p) {
            lemma_climbs_double_dot(p);
            let k = choose|k: int| double_dot_at(p, k);
            let n = name.len() as int;
            if k < 7 {
                assert(p[k] == "static/"@[k]);
            } else if k < 7 + n {
                assert(p[k] == name[k - 7]);
            } else {
                assert(p[k + 1] == ".html"@[k + 1 - 7 - n]);
                assert(p[k] == ".html"@[k - 7 - n]);
            }
        }
    }
}

/// A stylesheet under `styles/` is served at its path, as CSS, where the
/// path has no `..` segment.
pub proof fn lemma_stylesheets_served(path: Seq<char>)
    requires
        starts_with(path, "styles/"@),
        !climbs(path),
        ends_with(path, ".css"@),
    ensures
        doc_type_of(seq!['/'] + path) == DocType::CSS,
        doc_type_name(DocType::CSS) == "text/css"@,
        get_target(seq!['/'] + path, DocType::CSS) == GetTarget::File(path),
{
    reveal_strlit("styles/");
    reveal_strlit("api");
    reveal_strlit("/");
    reveal_strlit(".css");
    let route = seq!['/'] + path;
    assert(route.skip(route.len() - 4) =~= path.skip(path.len() - 4));
    assert(route != "/"@) by {
        if route == "/"@ {
            assert(route.len() == 1);
        }
    }
    assert(route.drop_first() =~= path);
    assert(!starts_with(path, "api"@)) by {
        if starts_with(path, "api"@) {
            assert(path.take(3)[0] == path[0]);
            assert(path.take(7)[0] == path[0]);
        }
    }
}

/// A script under `scripts/` is served at its path, as JavaScript, where
/// the path has no `..` segment.
pub proof fn lemma_scripts_served(path: Seq<char>)
    requires
        starts_with(path, "scripts/"@),
        !climbs(path),
        ends_with(path, ".js"@),
    ensures
        doc_type_of(seq!['/'] + path) == DocType::JS,
        doc_type_name(DocType::JS) == "text/javascript"@,
        get_target(seq!['/'] + path, DocType::JS) == GetTarget::File(path),
{
    reveal_strlit("scripts/");
    reveal_strlit("api");
    reveal_strlit("/");
    reveal_strlit(".js");
    reveal_strlit(".css");
    let route = seq!['/'] + path;
    assert(route.skip(route.len() - 3) =~= path.skip(path.len() - 3));
    assert(!ends_with(route, ".css"@)) by {
        if ends_with(route, ".css"@) {
            assert(route.skip(route.len() - 4)[2] == route[route.len() - 2]);
            assert(path.skip(path.len() - 3)[1] == path[path.len() - 2]);
        }
    }
    assert(route != "/"@) by {
        if route == "/"@ {
            assert(route.len() == 1);
        }
    }
    assert(route.drop_first() =~= path);
    assert(!starts_with(path, "api"@)) by {
        if starts_with(path, "api"@) {
            assert(path.take(3)[0] == path[0]);
            assert(path.take(8)[0] == path[0]);
        }
    }
}

/// Splitting at the first `c` loses nothing: the parts rejoin around `c`
/// into the text, and the first part holds no `c`.
pub proof fn lemma_split_rejoins(s: Seq<char>, c: char)
    ensures
        split_once(s, c) matches Some((a, b)) ==> s == a.push(c) + b && !a.contains(c),
{
    if let Some(i) = first_index(s, c) {
        assert(is_first_index(s, c, i));
        assert(s =~= s.take(i).push(c) + s.skip(i + 1));
    }
}

/// The number that the decimal text of `n` spells is `n`.
pub proof fn lemma_decimal_value(n: nat)
    ensures
        digits_value(decimal(n)) == n,
    decreases n,
{
    let d = decimal(n);
    if n < 10 {
        assert(d.drop_last() =~= Seq::<char>::empty());
        assert(digit_char(n) as u32 == n + 48);
        assert(d.last() == digit_char(n));
        assert(digits_value(Seq::<char>::empty()) == 0);
        assert(digits_value(d) == digits_value(d.drop_last()) * 10 + ((d.last() as u32) - 48) as nat);
        assert(digits_value(d) == n);
    } else {
        lemma_decimal_value(n / 10);
        assert(d.drop_last() =~= decimal(n / 10));
        assert(digit_char(n % 10) as u32 == n % 10 + 48);
        assert(d.last() == digit_char(n % 10));
        assert((n / 10) * 10 + n % 10 == n);
        assert(digits_value(d) == digits_value(d.drop_last()) * 10 + ((d.last() as u32) - 48) as nat);
        assert(digits_value(d.drop_last()) == n / 10);
        assert(((d.last() as u32) - 48) as nat == n % 10);
        assert(digits_value(d) == n);
    }
}

/// The `Content-Length` line that a response carries reads back, where the
/// load balancer frames the response, as the length written: the balancer
/// forwards the whole body.
pub proof fn lemma_content_length_read_back(n: usize)
    ensures
        starts_with_ignore_case("Content-Length: "@ + decimal(n as nat) + "\r\n"@, "content-length:"@),
        line_content_length("Content-Length: "@ + decimal(n as nat) + "\r\n"@) == n,
{
    reveal_strlit("Content-Length: ");
    reveal_strlit("content-length:");
    reveal_strlit("\r\n");
    let d = decimal(n as nat);
    lemma_decimal_digits(n as nat);
    lemma_decimal_value(n as nat);
    let line = "Content-Length: "@ + d + "\r\n"@;
    assert forall|i: int| 0 <= i < 15 implies lower_code(#[trigger] line[i])
        == "content-length:"@[i] as u32 by {
        assert(line[i] == "Content-Length: "@[i]);
    }
    assert(is_first_index(line, ':', 14)) by {
        assert(line[14] == ':');
        assert forall|j: int| 0 <= j < 14 implies line[j] != ':' by {
            assert(line[j] == "Content-Length: "@[j]);
        }
    }
    lemma_first_index(line, ':', 14);
    let v = line.skip(15);
    assert(v =~= seq![' '] + d + "\r\n"@);
    let t = seq![' '] + d + "\r\n"@;
    assert(t.drop_first() =~= d + "\r\n"@);
    assert(is_digit(d[0]));
    assert((d + "\r\n"@)[0] == d[0]);
    assert(leading(d + "\r\n"@, false) == 0);
    assert(leading(t, false) == 1);
    let u = t.skip(1);
    assert(u =~= d + "\r\n"@);
    assert(u.drop_last() =~= d.push('\r'));
    assert(d.push('\r').drop_last() =~= d);
    assert(is_digit(d.last()));
    assert(trailing(d, false) == 0);
    assert(trailing(d.push('\r'), false) == 1);
    assert(trailing(u, false) == 2);
    assert(trim(v, false) =~= d);
    assert(unsigned_digits(d) == d);
    assert(all_digits(d));
}

/// The part of `/api/<rest>` after its second `/` is `rest`.
proof fn lemma_api_table_path(rest: Seq<char>)
    ensures
        table_path("/api/"@ + rest) == Some(rest),
        ("/api/"@ + rest).drop_first() == "api/"@ + rest,
{
    reveal_strlit("/api/");
    reveal_strlit("api/");
    let r = ("/api/"@ + rest).drop_first();
    assert(r =~= "api/"@ + rest);
    assert(is_first_index(r, '/', 3));
    lemma_first_index(r, '/', 3);
    assert(r.skip(4) =~= rest);
}

/// Splitting `a/b` at its first `/`, where `a` holds none, gives `a` and `b`.
proof fn lemma_split_slash(a: Seq<char>, b: Seq<char>)
    requires
        !a.contains('/'),
    ensures
        split_once(a + seq!['/'] + b, '/') == Some((a, b)),
{
    let s = a + seq!['/'] + b;
    assert forall|j: int| 0 <= j < a.len() implies s[j] != '/' by {
        assert(s[j] == a[j]);
        if a[j] == '/' {
            assert(a.contains('/'));
        }
    }
    assert(is_first_index(s, '/', a.len() as int));
    lemma_first_index(s, '/', a.len() as int);
    assert(s.take(a.len() as int) =~= a);
    assert(s.skip(a.len() as int + 1) =~= b);
}

/// `POST /api/<table>/create` creates the table, with a column per field of
/// the body typed by the field's value.
pub proof fn lemma_create_route(
    table: Seq<char>,
    body: Seq<char>,
    encoding: Encoding,
    fs: Seq<(Seq<char>, Seq<char>)>,
)
    requires
        !table.contains('/'),
        body_fields(body, encoding) == BodyFields::Fields(fs),
        types_known(keys_of(fs), values_of(fs)),
    ensures
        post_plan("/api/"@ + table + "/create"@, body, encoding) == Planned::Statement(
            create_sql(table, keys_of(fs), values_of(fs)),
            Seq::<Seq<char>>::empty(),
        ),
{
    reveal_strlit("/create");
    reveal_strlit("create");
    let x = table + "/create"@;
    assert("/api/"@ + table + "/create"@ =~= "/api/"@ + x);
    lemma_api_table_path(x);
    assert(x =~= table + seq!['/'] + "create"@);
    lemma_split_slash(table, "create"@);
    assert(x.skip(x.len() - 6) =~= "create"@);
}

/// `POST /api/<table>` inserts a row with the body's fields.
pub proof fn lemma_insert_route(
    table: Seq<char>,
    body: Seq<char>,
    encoding: Encoding,
    fs: Seq<(Seq<char>, Seq<char>)>,
)
    requires
        !ends_with(table, "create"@),
        body_fields(body, encoding) == BodyFields::Fields(fs),
    ensures
        post_plan("/api/"@ + table, body, encoding) == Planned::Statement(
            insert_sql(table, keys_of(fs)),
            values_of(fs),
        ),
{
    lemma_api_table_path(table);
}

/// `PATCH /api/<table>/<id>` updates the row `id` with the body's fields.
#[verifier::rlimit(40)]
pub proof fn lemma_update_route(
    table: Seq<char>,
    id: Seq<char>,
    body: Seq<char>,
    encoding: Encoding,
    fs: Seq<(Seq<char>, Seq<char>)>,
)
    requires
        !table.contains('/'),
        body_fields(body, encoding) == BodyFields::Fields(fs),
    ensures
        put_plan("/api/"@ + table + "/"@ + id, body, encoding) == Planned::Statement(
            update_sql(table, keys_of(fs)),
            values_of(fs).push(id),
        ),
{
    reveal_strlit("/");
    let x = table + seq!['/'] + id;
    assert("/api/"@ + table + "/"@ + id =~= "/api/"@ + x);
    lemma_api_table_path(x);
    lemma_split_slash(table, id);
}

/// `DELETE /api/<table>/delete` drops the table.
pub proof fn lemma_drop_route(table: Seq<char>)
    requires
        !table.contains('/'),
    ensures
        delete_plan("/api/"@ + table + "/delete"@) == Ok::<_, Seq<char>>(
            ("DROP TABLE IF EXISTS "@ + table, Seq::<Seq<char>>::empty()),
        ),
{
    reveal_strlit("/delete");
    reveal_strlit("delete");
    let x = table + "/delete"@;
    assert("/api/"@ + table + "/delete"@ =~= "/api/"@ + x);
    lemma_api_table_path(x);
    assert(x =~= table + seq!['/'] + "delete"@);
    lemma_split_slash(table, "delete"@);
    let r = ("/api/"@ + x).drop_first();
    assert(r.skip(r.len() - 6) =~= "delete"@);
}

/// `DELETE /api/<table>/<id>` deletes the row `id`, for an id that does not
/// end in `delete`.
pub proof fn lemma_delete_row_route(table: Seq<char>, id: Seq<char>)
    requires
        !table.contains('/'),
        !ends_with(id, "delete"@),
    ensures
        delete_plan("/api/"@ + table + "/"@ + id) == Ok::<_, Seq<char>>(
            ("DELETE FROM "@ + table + " WHERE id = ?1"@, seq![id]),
        ),
{
    reveal_strlit("/");
    reveal_strlit("delete");
    let x = table + seq!['/'] + id;
    assert("/api/"@ + table + "/"@ + id =~= "/api/"@ + x);
    lemma_api_table_path(x);
    lemma_split_slash(table, id);
    let r = ("/api/"@ + x).drop_first();
    if ends_with(r, "delete"@) {
        if id.len() >= 6 {
            assert(r.skip(r.len() - 6) =~= id.skip(id.len() - 6));
        } else {
            assert(r.skip(r.len() - 6)[5 - id.len()] == '/');
            assert("delete"@[5 - id.len()] != '/');
        }
    }
}

/// The database paths `api/<table>` and `api/<table>/<id>` have no `..`
/// segment, for a table other than `..` without `/` and an id without one.
proof fn lemma_api_paths_stay(table: Seq<char>, id: Seq<char>)
    requires
        !table.contains('/'),
        table != ".."@,
        !climbs(id),
    ensures
        !climbs("api/"@ + table),
        !climbs("api/"@ + table + "/"@ + id),
{
    reveal_strlit("..");
    reveal_strlit("api/");
    reveal_strlit("api");
    reveal_strlit("/");
    assert("api"@ != ".."@) by {
        assert("api"@[0] != ".."@[0]);
    }
    let p1 = "api/"@ + table;
    assert(p1 =~= "api"@ + seq!['/'] + table);
    lemma_segments_prefix("api"@, table);
    lemma_split_none(table);
    assert(segments(table) == seq![table]);
    lemma_contains_prepend("api"@, seq![table], ".."@);
    lemma_contains_prepend(table, Seq::empty(), ".."@);
    assert(seq![table] + Seq::<Seq<char>>::empty() =~= seq![table]);
    let x = table + seq!['/'] + id;
    assert("api/"@ + table + "/"@ + id =~= "api"@ + seq!['/'] + x);
    lemma_segments_prefix("api"@, x);
    lemma_segments_prefix(table, id);
    lemma_contains_prepend("api"@, segments(x), ".."@);
    lemma_contains_prepend(table, segments(id), ".."@);
}

/// `GET /api/<table>` reads the table's rows and `GET /api/<table>/<id>`
/// the row `id` (for a table other than `..` and an id without a `..`
/// segment; other routes are refused).
pub proof fn lemma_read_routes(table: Seq<char>, id: Seq<char>, doc_type: DocType)
    requires
        !table.contains('/'),
        table.len() > 0,
        table != ".."@,
        !climbs(id),
        doc_type != DocType::HTML,
    ensures
        get_target("/api/"@ + table, doc_type) == GetTarget::Rows(table, None),
        get_target("/api/"@ + table + "/"@ + id, doc_type) == GetTarget::Rows(table, Some(id)),
{
    reveal_strlit("/");
    reveal_strlit("/api/");
    reveal_strlit("api/");
    reveal_strlit("api");
    reveal_strlit("static/");
    reveal_strlit("styles/");
    reveal_strlit("scripts/");
    reveal_strlit("..");
    let p1 = "api/"@ + table;
    assert(("/api/"@ + table).drop_first() =~= p1);
    lemma_api_paths_stay(table, id);
    assert(p1.take(3) =~= "api"@);
    assert(p1 != "api"@ && p1 != "api/"@) by {
        assert(p1.len() > 4);
    }
    assert(p1.skip(4) =~= table);
    lemma_split_none(table);
    let x = table + seq!['/'] + id;
    let p2 = "api/"@ + x;
    assert(p2 =~= "api/"@ + table + "/"@ + id);
    assert(!climbs(p2));
    assert(("/api/"@ + table + "/"@ + id).drop_first() =~= p2);
    assert(p2.take(3) =~= "api"@);
    assert(p2 != "api"@ && p2 != "api/"@) by {
        assert(p2.len() > 4);
    }
    assert(p2.skip(4) =~= x);
    lemma_split_slash(table, id);
    assert(("/api/"@ + table) != "/"@) by {
        assert(("/api/"@ + table).len() > 1);
    }
    assert(("/api/"@ + table + "/"@ + id) != "/"@) by {
        assert(("/api/"@ + table + "/"@ + id).len() > 1);
    }
}

/// A text without `/` does not split at `/`.
proof fn lemma_split_none(a: Seq<char>)
    requires
        !a.contains('/'),
    ensures
        split_once(a, '/') is None,
{
    assert forall|j: int| 0 <= j < a.len() implies a[j] != '/' by {
        if a[j] == '/' {
            assert(a.contains('/'));
        }
    }
    lemma_no_index(a, '/');
}

/// The lower-case name of each column type.
pub open spec fn lower_type_name(t: Type) -> Seq<char> {
    match t {
        Type::INTEGER => "integer"@,
        Type::TEXT => "text"@,
        Type::REAL => "real"@,
        Type::BLOB => "blob"@,
        Type::NULL => "null"@,
    }
}

/// A column type's lower-case name in double quotes, as a JSON body
/// carries it, reads back as that type; `Float`, in any case, reads as
/// `REAL`.
pub proof fn lemma_quoted_type_names(t: Type)
    ensures
        type_of_name(seq!['"'] + lower_type_name(t) + seq!['"']) == Some(t),
        type_of_name("Float"@) == Some(Type::REAL),
{
    reveal_strlit("integer");
    reveal_strlit("text");
    reveal_strlit("real");
    reveal_strlit("float");
    reveal_strlit("blob");
    reveal_strlit("null");
    reveal_strlit("Float");
    let n = lower_type_name(t);
    let s = seq!['"'] + n + seq!['"'];
    assert(n.len() > 0 && n[0] != '"' && n.last() != '"');
    let u = s.drop_first();
    assert(u =~= n + seq!['"']);
    assert(u[0] == n[0]);
    assert(leading(u, true) == 0);
    assert(leading(s, true) == 1);
    assert(s.skip(1) =~= u);
    assert(u.drop_last() =~= n);
    assert(trailing(n, true) == 0);
    assert(trailing(u, true) == 1);
    assert(u.take(u.len() - 1) =~= n);
    assert(trim(s, true) == n);
    lemma_trim_noop("Float"@, true);
}

/// The `key=value` arguments pair up in order: the j-th pair, rejoined
/// around `=`, is the j-th argument that holds a `=`, and its key holds
/// none; other arguments give no pair.
pub proof fn lemma_arg_pairs(args: Seq<Seq<char>>)
    ensures
        arg_pairs(args).len() == args.filter(|a: Seq<char>| a.contains('=')).len(),
        forall|j: int|
            0 <= j < arg_pairs(args).len() ==> {
                &&& (#[trigger] arg_pairs(args)[j]).0.push('=') + arg_pairs(args)[j].1 == args.filter(
                    |a: Seq<char>| a.contains('='),
                )[j]
                &&& !arg_pairs(args)[j].0.contains('=')
            },
    decreases args.len(),
{
    reveal_with_fuel(Seq::<_>::filter, 1);
    let pred = |a: Seq<char>| a.contains('=');
    if args.len() > 0 {
        lemma_arg_pairs(args.drop_last());
        let a = args.last();
        lemma_split_rejoins(a, '=');
        let before = arg_pairs(args.drop_last());
        let fb = args.drop_last().filter(pred);
        if a.contains('=') {
            let k = choose|k: int| 0 <= k < a.len() && a[k] == '=';
            lemma_has_first_index(a, '=', k);
            let p = split_once(a, '=').unwrap();
            assert(arg_pairs(args) =~= before.push(p));
            assert(args.filter(pred) =~= fb.push(a));
        } else {
            assert forall|j: int| 0 <= j < a.len() implies a[j] != '=' by {
                if a[j] == '=' {
                    assert(a.contains('='));
                }
            }
            lemma_no_index(a, '=');
            assert(arg_pairs(args) =~= before);
            assert(args.filter(pred) =~= fb);
        }
    }
}

/// The value of a `Content-Length` header line, where it is the first one,
/// is the decimal length it carries, and it reads back as that number.
pub proof fn lemma_framing_reads_length(hs: Seq<Seq<char>>, i: int, n: usize)
    requires
        is_first_header(hs, "content-length:"@, i),
        hs[i] == "Content-Length: "@ + decimal(n as nat),
    ensures
        header_value(hs, "content-length:"@) == Some(decimal(n as nat)),
        parse_usize(decimal(n as nat)) == Some(n),
{
    reveal_strlit("Content-Length: ");
    let d = decimal(n as nat);
    lemma_decimal_digits(n as nat);
    lemma_decimal_value(n as nat);
    lemma_first_header(hs, "content-length:"@, i);
    let line = hs[i];
    assert(is_first_index(line, ':', 14)) by {
        assert(line[14] == ':');
        assert forall|j: int| 0 <= j < 14 implies line[j] != ':' by {
            assert(line[j] == "Content-Length: "@[j]);
        }
    }
    lemma_first_index(line, ':', 14);
    let v = line.skip(15);
    assert(v =~= seq![' '] + d);
    assert(v.drop_first() =~= d);
    assert(is_digit(d[0]));
    assert(leading(d, false) == 0);
    assert(leading(v, false) == 1);
    assert(v.skip(1) =~= d);
    assert(is_digit(d.last()));
    assert(trailing(d, false) == 0);
    assert(d.take(d.len() as int) =~= d);
    assert(trim(v, false) =~= d);
    assert(unsigned_digits(d) == d);
    assert(all_digits(d));
}

/// A `GET` only reads the database: the statements it plans ask for a
/// table's columns (`PRAGMA table_info`) or select rows.
pub proof fn lemma_get_reads_only(route: Seq<char>, doc_type: DocType, plan: GetPlan)
    requires
        get_plan_is(plan, get_target(route, doc_type)),
    ensures
        plan matches GetPlan::Rows { columns_sql, rows_sql, id } ==> starts_with(
            columns_sql@,
            "PRAGMA table_info("@,
        ) && starts_with(rows_sql@, "SELECT * FROM "@),
{
    if let GetPlan::Rows { columns_sql, rows_sql, id } = plan {
        if let GetTarget::Rows(table, tid) = get_target(route, doc_type) {
            assert(columns_sql@.take("PRAGMA table_info("@.len() as int) =~= "PRAGMA table_info("@);
            assert(rows_sql@.take("SELECT * FROM "@.len() as int) =~= "SELECT * FROM "@);
        }
    }
}


/// A `GET` under `/api` that is not for a stylesheet or a script is a
/// database request: the route's document type is API, and it is answered
/// with the table names (exactly at `/api` and `/api/`), a table's rows, or
/// refused, never with a file.
pub proof fn lemma_api_routes(route: Seq<char>)
    requires
        starts_with(route, "/api"@),
        !ends_with(route, ".css"@),
        !ends_with(route, ".js"@),
    ensures
        doc_type_of(route) == DocType::API,
        get_target(route, doc_type_of(route)) is ListTables || get_target(route, doc_type_of(route)) is Rows
            || get_target(route, doc_type_of(route)) is Forbidden,
        (get_target(route, doc_type_of(route)) is ListTables) == (route == "/api"@ || route == "/api/"@),
{
    reveal_strlit("/api");
    reveal_strlit("/api/");
    reveal_strlit("/");
    reveal_strlit("api");
    reveal_strlit("api/");
    reveal_strlit("..");
    assert(route.len() >= 4);
    assert(route != "/"@);
    let p = route.drop_first();
    assert(p.take(3) =~= "api"@) by {
        assert forall|i: int| 0 <= i < 3 implies p.take(3)[i] == "api"@[i] by {
            assert(route.take(4)[i + 1] == "/api"@[i + 1]);
        }
    }
    assert(route[0] == '/') by {
        assert(route.take(4)[0] == "/api"@[0]);
    }
    assert(route =~= seq!['/'] + p);
    if route == "/api"@ {
        assert(p =~= "api"@);
    }
    if route == "/api/"@ {
        assert(p =~= "api/"@);
    }
    if p == "api"@ {
        assert(route =~= "/api"@);
        lemma_plain_segment("api"@);
        lemma_contains_prepend("api"@, Seq::empty(), ".."@);
    }
    if p == "api/"@ {
        assert(route =~= "/api/"@);
        assert("api"@ + seq!['/'] + Seq::<char>::empty() =~= "api/"@);
        lemma_segments_prefix("api"@, Seq::empty());
        lemma_plain_segment(Seq::<char>::empty());
        lemma_contains_prepend(Seq::<char>::empty(), Seq::empty(), ".."@);
        lemma_contains_prepend("api"@, seq![Seq::<char>::empty()], ".."@);
        assert(seq![Seq::<char>::empty()] + Seq::<Seq<char>>::empty() =~= seq![Seq::<char>::empty()]);
    }
}

/// The document type of a route follows its extension: `.css` is a
/// stylesheet and `.js` a script wherever they stand, `/api` too.
pub proof fn lemma_doc_types_by_extension(route: Seq<char>)
    ensures
        ends_with(route, ".css"@) ==> doc_type_of(route) == DocType::CSS,
        ends_with(route, ".js"@) ==> doc_type_of(route) == DocType::JS,
{
    reveal_strlit(".css");
    reveal_strlit(".js");
    if ends_with(route, ".js"@) && ends_with(route, ".css"@) {
        let n = route.len() as int;
        assert(route[n - 3] == ".js"@[0]) by {
            assert(route.skip(n - 3)[0] == route[n - 3]);
        }
        assert(route[n - 3] == ".css"@[1]) by {
            assert(route.skip(n - 4)[1] == route[n - 3]);
        }
    }
}

/// A text without `/` is a single segment.
proof fn lemma_plain_segment(a: Seq<char>)
    requires
        !a.contains('/'),
    ensures
        segments(a) == seq![a] + Seq::<Seq<char>>::empty(),
{
    assert forall|j: int| 0 <= j < a.len() implies a[j] != '/' by {
        if a[j] == '/' {
            assert(a.contains('/'));
        }
    }
    lemma_no_index(a, '/');
    assert(seq![a] + Seq::<Seq<char>>::empty() =~= seq![a]);
}

/// How many leading characters of `s + x` are trimmed: those of `s`, unless
/// all of `s` is trimmed, and then those of `x` besides.
proof fn lemma_leading_append(s: Seq<char>, x: Seq<char>, quotes: bool)
    ensures
        leading(s, quotes) <= s.len(),
        leading(s + x, quotes) == if leading(s, quotes) < s.len() {
            leading(s, quotes)
        } else {
            s.len() + leading(x, quotes)
        },
    decreases s.len(),
{
    if s.len() == 0 {
        assert(s + x =~= x);
    } else {
        assert((s + x)[0] == s[0]);
        if is_trimmed(s[0], quotes) {
            assert((s + x).drop_first() =~= s.drop_first() + x);
            lemma_leading_append(s.drop_first(), x, quotes);
        }
    }
}

/// No more characters are trimmed from the back than a text has.
proof fn lemma_trailing_bound(s: Seq<char>, quotes: bool)
    ensures
        trailing(s, quotes) <= s.len(),
    decreases s.len(),
{
    if s.len() > 0 {
        lemma_trailing_bound(s.drop_last(), quotes);
    }
}

/// Double quotes around a type name never change the column type it
/// denotes, as when a JSON body carries the name as a string; so `"float"`,
/// quoted, denotes `REAL`.
pub proof fn lemma_type_name_quotes(n: Seq<char>)
    ensures
        type_of_name(seq!['"'] + n + seq!['"']) == type_of_name(n),
        type_of_name("\"float\""@) == Some(Type::REAL),
{
    lemma_trim_quotes(n);
    reveal_strlit("\"float\"");
    reveal_strlit("float");
    assert("\"float\""@ =~= seq!['"'] + "float"@ + seq!['"']);
    lemma_trim_quotes("float"@);
    lemma_type_name_quotes_float();
}

/// Trimming double quotes from `"n"` gives what trimming them from `n` does.
proof fn lemma_trim_quotes(n: Seq<char>)
    ensures
        trim(seq!['"'] + n + seq!['"'], true) == trim(n, true),
{
    let q = seq!['"'];
    let s = q + n + q;
    assert(s[0] == '"');
    assert(s.drop_first() =~= n + q);
    lemma_leading_append(n, q, true);
    assert(q[0] == '"');
    assert(q.drop_first() =~= Seq::<char>::empty());
    assert(leading(Seq::<char>::empty(), true) == 0);
    assert(is_trimmed(q[0], true));
    assert(leading(q, true) == 1 + leading(q.drop_first(), true));
    let l = leading(n, true);
    assert(leading(s, true) == 1 + leading(n + q, true));
    let m = n.skip(l as int);
    lemma_trailing_bound(m, true);
    if l < n.len() {
        let t = s.skip(l as int + 1);
        assert(t =~= m + q);
        assert(t.last() == '"');
        assert(t.drop_last() =~= m);
        assert(trailing(t, true) == 1 + trailing(m, true));
        assert(t.take(t.len() - trailing(t, true)) =~= m.take(m.len() - trailing(m, true)));
    } else {
        assert(s.skip(s.len() as int) =~= Seq::<char>::empty());
        assert(m =~= Seq::<char>::empty());
        assert(Seq::<char>::empty().take(0) =~= Seq::<char>::empty());
    }
}

/// The name `float` denotes `REAL`.
proof fn lemma_type_name_quotes_float()
    ensures
        type_of_name("float"@) == Some(Type::REAL),
{
    reveal_strlit("float");
    reveal_strlit("integer");
    reveal_strlit("text");
    reveal_strlit("real");
    lemma_trim_noop("float"@, true);
}

/// The headers of a request whose `Content-Type` is
/// `application/x-www-form-urlencoded` (an HTML form) or `application/json`
/// are accepted, and the body is read in that encoding; the only headers
/// refused carry a `Content-Length` and a `Content-Type` of another value.
pub proof fn lemma_framing_encodings(hs: Seq<Seq<char>>)
    ensures
        header_value(hs, "content-type:"@) == Some("application/x-www-form-urlencoded"@) ==> framing_ok(hs),
        header_value(hs, "content-type:"@) == Some("application/json"@) ==> framing_ok(hs),
        encoding_of("application/x-www-form-urlencoded"@) == Some(Encoding::URL),
        encoding_of("application/json"@) == Some(Encoding::JSON),
        !framing_ok(hs) <==> (header_value(hs, "content-length:"@) is Some && (header_value(
            hs,
            "content-type:"@,
        ) matches Some(t) && t != "application/x-www-form-urlencoded"@ && t != "application/json"@)),
{
    reveal_strlit("application/x-www-form-urlencoded");
    reveal_strlit("application/json");
    assert("application/x-www-form-urlencoded"@ != "application/json"@) by {
        assert("application/x-www-form-urlencoded"@.len() != "application/json"@.len());
    }
}

/// The command-line client refuses only what it would read past: an
/// argument list without a command, and a `get` of a table or a `delete`
/// that has `--id` but no value after it. So `rweb help`, any command other
/// than `get` and `delete`, `rweb get tables`, and any list without `--id`
/// or with five arguments are accepted.
pub proof fn lemma_cli_args_refusals(args: Seq<Seq<char>>)
    ensures
        args.len() < 2 ==> !cli_args_ok(args),
        args.len() >= 2 && args[1] == "help"@ ==> cli_args_ok(args),
        args.len() >= 2 && args[1] != "get"@ && args[1] != "delete"@ ==> cli_args_ok(args),
        args.len() >= 3 && args[1] == "get"@ && args[2] == "tables"@ ==> cli_args_ok(args),
        args.len() >= 2 && !args.contains("--id"@) ==> cli_args_ok(args),
        args.len() >= 5 ==> cli_args_ok(args),
        args.len() >= 2 && args.len() < 3 ==> cli_args_ok(args),
{
    reveal_strlit("help");
    reveal_strlit("get");
    reveal_strlit("delete");
    assert("help"@ != "get"@) by {
        assert("help"@.len() != "get"@.len());
    }
    assert("help"@ != "delete"@) by {
        assert("help"@.len() != "delete"@.len());
    }
    assert("get"@ != "delete"@) by {
        assert("get"@.len() != "delete"@.len());
    }
}

/// Three decimal digits spell a number from 100 to 999.
proof fn lemma_three_digits(n: nat)
    requires
        100 <= n < 1000,
    ensures
        decimal(n) == seq![digit_char(n / 100), digit_char((n / 10) % 10), digit_char(n % 10)],
{
    assert(decimal(n / 100) == seq![digit_char(n / 100)]);
    assert((n / 10) / 10 == n / 100);
    assert(decimal(n / 10) == decimal(n / 100).push(digit_char((n / 10) % 10)));
    assert(decimal(n) == decimal(n / 10).push(digit_char(n % 10)));
    assert(decimal(n) =~= seq![digit_char(n / 100), digit_char((n / 10) % 10), digit_char(n % 10)]);
}

/// Each status's code is the number that its status line carries:
/// the line is `HTTP/1.1 `, the code in decimal, a space, then the reason.
pub proof fn lemma_status_code_in_line(s: Status)
    ensures
        status_line(s) == "HTTP/1.1 "@ + decimal(status_code(s) as nat) + " "@ + status_line(s).skip(13),
        status_line(s).len() > 13,
{
    reveal_strlit("HTTP/1.1 ");
    reveal_strlit(" ");
    reveal_strlit("HTTP/1.1 200 OK");
    reveal_strlit("HTTP/1.1 201 Created");
    reveal_strlit("HTTP/1.1 400 BadRequest");
    reveal_strlit("HTTP/1.1 403 Forbidden");
    reveal_strlit("HTTP/1.1 404 NotFound");
    reveal_strlit("HTTP/1.1 500 InternalServerError");
    let c = status_code(s) as nat;
    lemma_three_digits(c);
    let l = status_line(s);
    assert(digit_char(c / 100) == l[9]);
    assert(digit_char((c / 10) % 10) == l[10]);
    assert(digit_char(c % 10) == l[11]);
    assert(l =~= "HTTP/1.1 "@ + decimal(c) + " "@ + l.skip(13));
}

/// `a` and `b` differ at most in the case of ASCII letters.
pub open spec fn same_but_case(a: Seq<char>, b: Seq<char>) -> bool {
    &&& a.len() == b.len()
    &&& forall|i: int| 0 <= i < a.len() ==> lower_code(#[trigger] a[i]) == lower_code(b[i])
}

/// The case of a type name's letters never changes the column type it
/// denotes.
pub proof fn lemma_type_name_case(a: Seq<char>, b: Seq<char>)
    requires
        same_but_case(a, b),
    ensures
        type_of_name(a) == type_of_name(b),
{
    lemma_trim_same_but_case(a, b);
    let ta = trim(a, true);
    let tb = trim(b, true);
    assert forall|p: Seq<char>| #[trigger] starts_with_ignore_case(ta, p) == starts_with_ignore_case(tb, p) by {
        if starts_with_ignore_case(ta, p) {
            assert forall|i: int| 0 <= i < p.len() implies lower_code(#[trigger] tb[i]) == p[i] as u32 by {
                assert(lower_code(ta[i]) == lower_code(tb[i]));
            }
        }
        if starts_with_ignore_case(tb, p) {
            assert forall|i: int| 0 <= i < p.len() implies lower_code(#[trigger] ta[i]) == p[i] as u32 by {
                assert(lower_code(ta[i]) == lower_code(tb[i]));
            }
        }
    }
}

/// Characters that agree once lower-cased are both double quotes or
/// neither is.
proof fn lemma_quote_case(c: char, d: char)
    requires
        lower_code(c) == lower_code(d),
    ensures
        is_trimmed(c, true) == is_trimmed(d, true),
{
    if c == '"' {
        assert(lower_code(d) == 34);
        assert(d as u32 == 34);
    }
    if d == '"' {
        assert(lower_code(c) == 34);
        assert(c as u32 == 34);
    }
}

/// Texts that differ only in case trim alike.
proof fn lemma_trim_same_but_case(a: Seq<char>, b: Seq<char>)
    requires
        same_but_case(a, b),
    ensures
        same_but_case(trim(a, true), trim(b, true)),
{
    lemma_leading_same_but_case(a, b);
    let l = leading(a, true) as int;
    let ta = a.skip(l);
    let tb = b.skip(l);
    assert(same_but_case(ta, tb)) by {
        assert forall|i: int| 0 <= i < ta.len() implies lower_code(#[trigger] ta[i]) == lower_code(tb[i]) by {
            assert(lower_code(a[i + l]) == lower_code(b[i + l]));
        }
    }
    lemma_trailing_same_but_case(ta, tb);
    let k = ta.len() - trailing(ta, true);
    assert(same_but_case(ta.take(k), tb.take(k))) by {
        assert forall|i: int| 0 <= i < ta.take(k).len() implies lower_code(#[trigger] ta.take(k)[i])
            == lower_code(tb.take(k)[i]) by {
            assert(lower_code(ta[i]) == lower_code(tb[i]));
        }
    }
}

/// Texts that differ only in case have as many leading quotes.
proof fn lemma_leading_same_but_case(a: Seq<char>, b: Seq<char>)
    requires
        same_but_case(a, b),
    ensures
        leading(a, true) == leading(b, true),
        leading(a, true) <= a.len(),
    decreases a.len(),
{
    if a.len() > 0 {
        assert(lower_code(a[0]) == lower_code(b[0]));
        lemma_quote_case(a[0], b[0]);
        assert(same_but_case(a.drop_first(), b.drop_first())) by {
            assert forall|i: int| 0 <= i < a.drop_first().len() implies lower_code(
                #[trigger] a.drop_first()[i],
            ) == lower_code(b.drop_first()[i]) by {
                assert(lower_code(a[i + 1]) == lower_code(b[i + 1]));
            }
        }
        lemma_leading_same_but_case(a.drop_first(), b.drop_first());
    }
}

/// Texts that differ only in case have as many trailing quotes.
proof fn lemma_trailing_same_but_case(a: Seq<char>, b: Seq<char>)
    requires
        same_but_case(a, b),
    ensures
        trailing(a, true) == trailing(b, true),
        trailing(a, true) <= a.len(),
    decreases a.len(),
{
    if a.len() > 0 {
        let n = a.len() - 1;
        assert(lower_code(a[n]) == lower_code(b[n]));
        lemma_quote_case(a.last(), b.last());
        assert(same_but_case(a.drop_last(), b.drop_last())) by {
            assert forall|i: int| 0 <= i < a.drop_last().len() implies lower_code(
                #[trigger] a.drop_last()[i],
            ) == lower_code(b.drop_last()[i]) by {
                assert(lower_code(a[i]) == lower_code(b[i]));
            }
        }
        lemma_trailing_same_but_case(a.drop_last(), b.drop_last());
    }
}

} // verus!
