//! Where the calls of the tools go: the routes of the service, tool by tool.
use vstd::prelude::*;
use crate::json::{at, get, int_in, object, text_in, Data};
use crate::mcp::{
    diff_namespace_call, get_changeset_call, get_namespace_call, get_resource_call,
    get_snapshot_call, get_symbol_call, getting, lemma_with, list_changesets_call,
    list_resources_call, list_symbols_call, needed_int, needed_text, posting, tool_call,
    tool_entries, tool_entry, tool_names, Call,
};
use crate::text::decimal_int;

verus! {

/// A part of a path, behind a slash.
pub enum Piece {
    Word(Seq<char>),
    /// The text argument with this name.
    Text(Seq<char>),
    /// The integer argument with this name.
    Number(Seq<char>),
}

/// A field of a query: its key, the argument that it carries, whether that is an
/// integer, and whether it has to be given.
pub struct Field {
    pub key: Seq<char>,
    pub argument: Seq<char>,
    pub number: bool,
    pub needed: bool,
}

/// A route of the service: all arguments are posted to it, or it is read with
/// arguments in its path and its query.
pub enum Route {
    Post(Seq<char>),
    Get(Seq<Piece>, Seq<Field>),
}

pub open spec fn pieces() -> Seq<Piece> {
    Seq::empty()
}

pub open spec fn fields() -> Seq<Field> {
    Seq::empty()
}

pub open spec fn text_field(name: Seq<char>, needed: bool) -> Field {
    Field { key: name, argument: name, number: false, needed }
}

pub open spec fn number_field(name: Seq<char>) -> Field {
    Field { key: name, argument: name, number: true, needed: false }
}

/// What each tool does: the route that it goes to.
pub open spec fn route(name: Seq<char>) -> Option<Route> {
    if name == "lux.put_symbol"@ {
        Some(Route::Post("/symbols/put"@))
    } else if name == "lux.put_resource"@ {
        Some(Route::Post("/resources/put"@))
    } else if name == "lux.create_snapshot"@ {
        Some(Route::Post("/snapshot"@))
    } else if name == "lux.run"@ {
        Some(Route::Post("/run"@))
    } else if name == "lux.list_namespaces"@ {
        Some(Route::Get(pieces().push(Piece::Word("namespaces"@)), fields()))
    } else if name == "lux.get_namespace"@ {
        Some(
            Route::Get(
                pieces().push(Piece::Word("namespaces"@)).push(Piece::Text("namespace"@)),
                fields().push(number_field("generation"@)),
            ),
        )
    } else if name == "lux.diff_namespace"@ {
        Some(
            Route::Get(
                pieces().push(Piece::Word("namespaces"@)).push(Piece::Text("namespace"@)).push(
                    Piece::Word("diff"@),
                ),
                fields().push(
                    Field {
                        key: "from"@,
                        argument: "from_generation"@,
                        number: true,
                        needed: true,
                    },
                ).push(
                    Field { key: "to"@, argument: "to_generation"@, number: true, needed: true },
                ),
            ),
        )
    } else if name == "lux.list_symbols"@ {
        Some(
            Route::Get(
                pieces().push(Piece::Word("symbols"@)),
                fields().push(text_field("namespace"@, true)).push(number_field("generation"@)),
            ),
        )
    } else if name == "lux.get_symbol"@ {
        Some(
            Route::Get(
                pieces().push(Piece::Word("symbol"@)),
                fields().push(text_field("namespace"@, true)).push(text_field("kind"@, true)).push(
                    text_field("symbol"@, true),
                ).push(number_field("generation"@)),
            ),
        )
    } else if name == "lux.get_snapshot"@ {
        Some(
            Route::Get(
                pieces().push(Piece::Word("snapshots"@)).push(Piece::Number("snapshot_id"@)),
                fields(),
            ),
        )
    } else if name == "lux.list_changesets"@ {
        Some(
            Route::Get(
                pieces().push(Piece::Word("changesets"@)),
                fields().push(text_field("namespace"@, true)),
            ),
        )
    } else if name == "lux.get_changeset"@ {
        Some(
            Route::Get(
                pieces().push(Piece::Word("changesets"@)).push(Piece::Text("namespace"@)).push(
                    Piece::Text("changeset"@),
                ),
                fields().push(text_field("revision_id"@, false)),
            ),
        )
    } else if name == "lux.list_resources"@ {
        Some(
            Route::Get(
                pieces().push(Piece::Word("resources"@)),
                fields().push(text_field("namespace"@, true)),
            ),
        )
    } else if name == "lux.get_resource"@ {
        Some(
            Route::Get(
                pieces().push(Piece::Word("resources"@)).push(Piece::Text("namespace"@)).push(
                    Piece::Text("name"@),
                ),
                fields().push(text_field("resource_id"@, false)),
            ),
        )
    } else {
        None
    }
}

pub open spec fn piece_text(p: Piece, arguments: Data) -> Result<Seq<char>, Seq<char>> {
    match p {
        Piece::Word(w) => Ok(w),
        Piece::Text(name) => needed_text(arguments, name),
        Piece::Number(name) => match needed_int(arguments, name) {
            Ok(n) => Ok(decimal_int(n)),
            Err(e) => Err(e),
        },
    }
}

/// A path with its arguments; or what is wrong with the first that is.
pub open spec fn path_text(s: Seq<Piece>, arguments: Data) -> Result<Seq<char>, Seq<char>>
    decreases s.len(),
{
    if s.len() == 0 {
        Ok(Seq::empty())
    } else {
        match path_text(s.drop_last(), arguments) {
            Ok(t) => match piece_text(s.last(), arguments) {
                Ok(x) => Ok(t + "/"@ + x),
                Err(e) => Err(e),
            },
            Err(e) => Err(e),
        }
    }
}

/// The value of a field, if it is given.
pub open spec fn field_text(f: Field, arguments: Data) -> Result<Option<Seq<char>>, Seq<char>> {
    if f.needed {
        match piece_text(
            if f.number {
                Piece::Number(f.argument)
            } else {
                Piece::Text(f.argument)
            },
            arguments,
        ) {
            Ok(x) => Ok(Some(x)),
            Err(e) => Err(e),
        }
    } else if f.number {
        match int_in(at(arguments, f.argument)) {
            Some(n) => Ok(Some(decimal_int(n))),
            None => Ok(None),
        }
    } else {
        Ok(text_in(at(arguments, f.argument)))
    }
}

/// A query with the fields that are given: a question mark in front of the
/// first, an ampersand in front of any other.
pub open spec fn query_text(s: Seq<Field>, arguments: Data) -> Result<Seq<char>, Seq<char>>
    decreases s.len(),
{
    if s.len() == 0 {
        Ok(Seq::empty())
    } else {
        match query_text(s.drop_last(), arguments) {
            Ok(t) => match field_text(s.last(), arguments) {
                Ok(Some(x)) => Ok(
                    t + if t.len() == 0 {
                        "?"@
                    } else {
                        "&"@
                    } + s.last().key + "="@ + x,
                ),
                Ok(None) => Ok(t),
                Err(e) => Err(e),
            },
            Err(e) => Err(e),
        }
    }
}

/// The request of a route with arguments.
pub open spec fn request(r: Route, arguments: Data) -> Result<Call, Seq<char>> {
    match r {
        Route::Post(path) => Ok(posting(path, arguments)),
        Route::Get(path, query) => match path_text(path, arguments) {
            Ok(p) => match query_text(query, arguments) {
                Ok(q) => Ok(getting(p + q)),
                Err(e) => Err(e),
            },
            Err(e) => Err(e),
        },
    }
}

broadcast proof fn path_step(s: Seq<Piece>, p: Piece, arguments: Data)
    ensures
        #[trigger] path_text(s.push(p), arguments) == match path_text(s, arguments) {
            Ok(t) => match piece_text(p, arguments) {
                Ok(x) => Ok(t + "/"@ + x),
                Err(e) => Err(e),
            },
            Err(e) => Err(e),
        },
{
    assert(s.push(p).drop_last() =~= s);
}

broadcast proof fn query_step(s: Seq<Field>, f: Field, arguments: Data)
    ensures
        #[trigger] query_text(s.push(f), arguments) == match query_text(s, arguments) {
            Ok(t) => match field_text(f, arguments) {
                Ok(Some(x)) => Ok(
                    t + if t.len() == 0 {
                        "?"@
                    } else {
                        "&"@
                    } + f.key + "="@ + x,
                ),
                Ok(None) => Ok(t),
                Err(e) => Err(e),
            },
            Err(e) => Err(e),
        },
{
    assert(s.push(f).drop_last() =~= s);
}

proof fn slashed()
    ensures
        "/namespaces"@ == "/"@ + "namespaces"@,
        "/namespaces/"@ == "/"@ + "namespaces"@ + "/"@,
        "/diff?from="@ == "/"@ + "diff"@ + "?"@ + "from"@ + "="@,
        "/snapshots/"@ == "/"@ + "snapshots"@ + "/"@,
        "/changesets/"@ == "/"@ + "changesets"@ + "/"@,
        "/resources/"@ == "/"@ + "resources"@ + "/"@,
        "/symbols?namespace="@ == "/"@ + "symbols"@ + "?"@ + "namespace"@ + "="@,
        "/symbol?namespace="@ == "/"@ + "symbol"@ + "?"@ + "namespace"@ + "="@,
        "/changesets?namespace="@ == "/"@ + "changesets"@ + "?"@ + "namespace"@ + "="@,
        "/resources?namespace="@ == "/"@ + "resources"@ + "?"@ + "namespace"@ + "="@,
{
    reveal_strlit("/");
    reveal_strlit("?");
    reveal_strlit("=");
    reveal_strlit("namespaces");
    reveal_strlit("/namespaces");
    reveal_strlit("/namespaces/");
    reveal_strlit("diff");
    reveal_strlit("from");
    reveal_strlit("/diff?from=");
    reveal_strlit("snapshots");
    reveal_strlit("/snapshots/");
    reveal_strlit("changesets");
    reveal_strlit("/changesets/");
    reveal_strlit("resources");
    reveal_strlit("/resources/");
    reveal_strlit("symbols");
    reveal_strlit("symbol");
    reveal_strlit("namespace");
    reveal_strlit("/symbols?namespace=");
    reveal_strlit("/symbol?namespace=");
    reveal_strlit("/changesets?namespace=");
    reveal_strlit("/resources?namespace=");
    assert("/namespaces"@ =~= "/"@ + "namespaces"@);
    assert("/namespaces/"@ =~= "/"@ + "namespaces"@ + "/"@);
    assert("/diff?from="@ =~= "/"@ + "diff"@ + "?"@ + "from"@ + "="@);
    assert("/snapshots/"@ =~= "/"@ + "snapshots"@ + "/"@);
    assert("/changesets/"@ =~= "/"@ + "changesets"@ + "/"@);
    assert("/resources/"@ =~= "/"@ + "resources"@ + "/"@);
    assert("/symbols?namespace="@ =~= "/"@ + "symbols"@ + "?"@ + "namespace"@ + "="@);
    assert("/symbol?namespace="@ =~= "/"@ + "symbol"@ + "?"@ + "namespace"@ + "="@);
    assert("/changesets?namespace="@ =~= "/"@ + "changesets"@ + "?"@ + "namespace"@ + "="@);
    assert("/resources?namespace="@ =~= "/"@ + "resources"@ + "?"@ + "namespace"@ + "="@);
}

proof fn keyed()
    ensures
        "?generation="@ == "?"@ + "generation"@ + "="@,
        "&generation="@ == "&"@ + "generation"@ + "="@,
        "?revision_id="@ == "?"@ + "revision_id"@ + "="@,
        "?resource_id="@ == "?"@ + "resource_id"@ + "="@,
        "&kind="@ == "&"@ + "kind"@ + "="@,
        "&symbol="@ == "&"@ + "symbol"@ + "="@,
        "&to="@ == "&"@ + "to"@ + "="@,
        "?"@.len() == 1,
{
    reveal_strlit("?");
    reveal_strlit("&");
    reveal_strlit("=");
    reveal_strlit("generation");
    reveal_strlit("?generation=");
    reveal_strlit("&generation=");
    reveal_strlit("revision_id");
    reveal_strlit("?revision_id=");
    reveal_strlit("resource_id");
    reveal_strlit("?resource_id=");
    reveal_strlit("kind");
    reveal_strlit("&kind=");
    reveal_strlit("symbol");
    reveal_strlit("&symbol=");
    reveal_strlit("to");
    reveal_strlit("&to=");
    assert("?generation="@ =~= "?"@ + "generation"@ + "="@);
    assert("&generation="@ =~= "&"@ + "generation"@ + "="@);
    assert("?revision_id="@ =~= "?"@ + "revision_id"@ + "="@);
    assert("?resource_id="@ =~= "?"@ + "resource_id"@ + "="@);
    assert("&kind="@ =~= "&"@ + "kind"@ + "="@);
    assert("&symbol="@ =~= "&"@ + "symbol"@ + "="@);
    assert("&to="@ =~= "&"@ + "to"@ + "="@);
}

proof fn get_namespace_goes(arguments: Data)
    ensures
        get_namespace_call(arguments) == request(route("lux.get_namespace"@)->Some_0, arguments),
{
    broadcast use path_step, query_step;

    tool_names_differ();
    slashed();
    keyed();
    match needed_text(arguments, "namespace"@) {
        Ok(x) => {
            let p = Seq::<char>::empty() + "/"@ + "namespaces"@ + "/"@ + x;
            assert(p =~= "/namespaces/"@ + x);
            match int_in(at(arguments, "generation"@)) {
                Some(n) => {
                    let q = Seq::<char>::empty() + "?"@ + "generation"@ + "="@ + decimal_int(n);
                    assert(p + q =~= "/namespaces/"@ + x + "?generation="@ + decimal_int(n));
                },
                None => {
                    assert(p + Seq::<char>::empty() =~= p);
                },
            }
        },
        Err(_) => {},
    }
}

proof fn list_symbols_goes(arguments: Data)
    ensures
        list_symbols_call(arguments) == request(route("lux.list_symbols"@)->Some_0, arguments),
{
    broadcast use path_step, query_step;

    tool_names_differ();
    slashed();
    keyed();
    match needed_text(arguments, "namespace"@) {
        Ok(x) => {
            let p = Seq::<char>::empty() + "/"@ + "symbols"@;
            let q = Seq::<char>::empty() + "?"@ + "namespace"@ + "="@ + x;
            assert(q.len() > 0);
            assert(p + q =~= "/symbols?namespace="@ + x);
            match int_in(at(arguments, "generation"@)) {
                Some(n) => {
                    let r = q + "&"@ + "generation"@ + "="@ + decimal_int(n);
                    assert(p + r =~= "/symbols?namespace="@ + x + "&generation="@ + decimal_int(n));
                },
                None => {},
            }
        },
        Err(_) => {},
    }
}

proof fn get_symbol_goes(arguments: Data)
    ensures
        get_symbol_call(arguments) == request(route("lux.get_symbol"@)->Some_0, arguments),
{
    broadcast use path_step, query_step;

    tool_names_differ();
    slashed();
    keyed();
    match (
        needed_text(arguments, "namespace"@),
        needed_text(arguments, "kind"@),
        needed_text(arguments, "symbol"@),
    ) {
        (Ok(x), Ok(y), Ok(z)) => {
            let p = Seq::<char>::empty() + "/"@ + "symbol"@;
            let q = Seq::<char>::empty() + "?"@ + "namespace"@ + "="@ + x;
            let r = q + "&"@ + "kind"@ + "="@ + y;
            let t = r + "&"@ + "symbol"@ + "="@ + z;
            assert(q.len() > 0 && r.len() > 0 && t.len() > 0);
            let whole = "/symbol?namespace="@ + x + "&kind="@ + y + "&symbol="@ + z;
            assert(p + t =~= whole);
            match int_in(at(arguments, "generation"@)) {
                Some(n) => {
                    let u = t + "&"@ + "generation"@ + "="@ + decimal_int(n);
                    assert(p + u =~= whole + "&generation="@ + decimal_int(n));
                },
                None => {},
            }
        },
        _ => {},
    }
}

proof fn diff_namespace_goes(arguments: Data)
    ensures
        diff_namespace_call(arguments) == request(route("lux.diff_namespace"@)->Some_0, arguments),
{
    broadcast use path_step, query_step;

    tool_names_differ();
    slashed();
    keyed();
    match (
        needed_text(arguments, "namespace"@),
        needed_int(arguments, "from_generation"@),
        needed_int(arguments, "to_generation"@),
    ) {
        (Ok(x), Ok(m), Ok(n)) => {
            let p = Seq::<char>::empty() + "/"@ + "namespaces"@ + "/"@ + x + "/"@ + "diff"@;
            let q = Seq::<char>::empty() + "?"@ + "from"@ + "="@ + decimal_int(m);
            let r = q + "&"@ + "to"@ + "="@ + decimal_int(n);
            assert(q.len() > 0);
            assert(p + r =~= "/namespaces/"@ + x + "/diff?from="@ + decimal_int(m) + "&to="@
                + decimal_int(n));
        },
        _ => {},
    }
}

proof fn get_snapshot_goes(arguments: Data)
    ensures
        get_snapshot_call(arguments) == request(route("lux.get_snapshot"@)->Some_0, arguments),
{
    broadcast use path_step, query_step;

    tool_names_differ();
    slashed();
    keyed();
    match needed_int(arguments, "snapshot_id"@) {
        Ok(n) => {
            let p = Seq::<char>::empty() + "/"@ + "snapshots"@ + "/"@ + decimal_int(n);
            assert(p + Seq::<char>::empty() =~= "/snapshots/"@ + decimal_int(n));
        },
        Err(_) => {},
    }
}

proof fn list_changesets_goes(arguments: Data)
    ensures
        list_changesets_call(arguments) == request(route("lux.list_changesets"@)->Some_0, arguments),
{
    broadcast use path_step, query_step;

    tool_names_differ();
    slashed();
    keyed();
    match needed_text(arguments, "namespace"@) {
        Ok(x) => {
            let p = Seq::<char>::empty() + "/"@ + "changesets"@;
            let q = Seq::<char>::empty() + "?"@ + "namespace"@ + "="@ + x;
            assert(p + q =~= "/changesets?namespace="@ + x);
        },
        Err(_) => {},
    }
}

proof fn get_changeset_goes(arguments: Data)
    ensures
        get_changeset_call(arguments) == request(route("lux.get_changeset"@)->Some_0, arguments),
{
    broadcast use path_step, query_step;

    tool_names_differ();
    slashed();
    keyed();
    match (needed_text(arguments, "namespace"@), needed_text(arguments, "changeset"@)) {
        (Ok(x), Ok(y)) => {
            let p = Seq::<char>::empty() + "/"@ + "changesets"@ + "/"@ + x + "/"@ + y;
            let whole = "/changesets/"@ + x + "/"@ + y;
            assert(p =~= whole);
            match text_in(at(arguments, "revision_id"@)) {
                Some(z) => {
                    let q = Seq::<char>::empty() + "?"@ + "revision_id"@ + "="@ + z;
                    assert(p + q =~= whole + "?revision_id="@ + z);
                },
                None => {
                    assert(p + Seq::<char>::empty() =~= p);
                },
            }
        },
        _ => {},
    }
}

proof fn list_resources_goes(arguments: Data)
    ensures
        list_resources_call(arguments) == request(route("lux.list_resources"@)->Some_0, arguments),
{
    broadcast use path_step, query_step;

    tool_names_differ();
    slashed();
    keyed();
    match needed_text(arguments, "namespace"@) {
        Ok(x) => {
            let p = Seq::<char>::empty() + "/"@ + "resources"@;
            let q = Seq::<char>::empty() + "?"@ + "namespace"@ + "="@ + x;
            assert(p + q =~= "/resources?namespace="@ + x);
        },
        Err(_) => {},
    }
}

proof fn get_resource_goes(arguments: Data)
    ensures
        get_resource_call(arguments) == request(route("lux.get_resource"@)->Some_0, arguments),
{
    broadcast use path_step, query_step;

    tool_names_differ();
    slashed();
    keyed();
    match (needed_text(arguments, "namespace"@), needed_text(arguments, "name"@)) {
        (Ok(x), Ok(y)) => {
            let p = Seq::<char>::empty() + "/"@ + "resources"@ + "/"@ + x + "/"@ + y;
            let whole = "/resources/"@ + x + "/"@ + y;
            assert(p =~= whole);
            match text_in(at(arguments, "resource_id"@)) {
                Some(z) => {
                    let q = Seq::<char>::empty() + "?"@ + "resource_id"@ + "="@ + z;
                    assert(p + q =~= whole + "?resource_id="@ + z);
                },
                None => {
                    assert(p + Seq::<char>::empty() =~= p);
                },
            }
        },
        _ => {},
    }
}

/// A tool does what its name says: it goes to its route, with its arguments where
/// the route wants them, and it is refused if one that is needed is missing. A
/// name without a route is that of no tool.
pub proof fn tools_follow_their_routes(name: Seq<char>, arguments: Data)
    ensures
        tool_call(name, arguments) == match route(name) {
            Some(r) => request(r, arguments),
            None => Err("Unknown tool: "@ + name),
        },
{
    broadcast use path_step, query_step;

    tool_names_differ();
    slashed();
    assert(Seq::<char>::empty() + "/"@ + "namespaces"@ + Seq::<char>::empty() =~= "/namespaces"@);
    get_namespace_goes(arguments);
    list_symbols_goes(arguments);
    get_symbol_goes(arguments);
    diff_namespace_goes(arguments);
    get_snapshot_goes(arguments);
    list_changesets_goes(arguments);
    get_changeset_goes(arguments);
    list_resources_goes(arguments);
    get_resource_goes(arguments);
}

/// No two tools have the same name.
proof fn tool_names_differ()
    ensures
        "lux.list_namespaces"@.len() == 19,
        "lux.get_namespace"@.len() == 17,
        "lux.list_symbols"@.len() == 16,
        "lux.get_symbol"@.len() == 14,
        "lux.put_symbol"@.len() == 14,
        "lux.diff_namespace"@.len() == 18,
        "lux.get_snapshot"@.len() == 16,
        "lux.create_snapshot"@.len() == 19,
        "lux.list_changesets"@.len() == 19,
        "lux.get_changeset"@.len() == 17,
        "lux.run"@.len() == 7,
        "lux.list_resources"@.len() == 18,
        "lux.get_resource"@.len() == 16,
        "lux.put_resource"@.len() == 16,
        "lux.list_namespaces"@[4] != "lux.create_snapshot"@[4],
        "lux.list_namespaces"@[9] != "lux.list_changesets"@[9],
        "lux.get_namespace"@[8] != "lux.get_changeset"@[8],
        "lux.list_symbols"@[4] != "lux.get_snapshot"@[4],
        "lux.list_symbols"@[4] != "lux.get_resource"@[4],
        "lux.list_symbols"@[4] != "lux.put_resource"@[4],
        "lux.get_symbol"@[4] != "lux.put_symbol"@[4],
        "lux.diff_namespace"@[4] != "lux.list_resources"@[4],
        "lux.get_snapshot"@[8] != "lux.get_resource"@[8],
        "lux.get_snapshot"@[4] != "lux.put_resource"@[4],
        "lux.create_snapshot"@[4] != "lux.list_changesets"@[4],
        "lux.get_resource"@[4] != "lux.put_resource"@[4],
{
    reveal_strlit("lux.list_namespaces");
    reveal_strlit("lux.get_namespace");
    reveal_strlit("lux.list_symbols");
    reveal_strlit("lux.get_symbol");
    reveal_strlit("lux.put_symbol");
    reveal_strlit("lux.diff_namespace");
    reveal_strlit("lux.get_snapshot");
    reveal_strlit("lux.create_snapshot");
    reveal_strlit("lux.list_changesets");
    reveal_strlit("lux.get_changeset");
    reveal_strlit("lux.run");
    reveal_strlit("lux.list_resources");
    reveal_strlit("lux.get_resource");
    reveal_strlit("lux.put_resource");
}

/// No two tools post to the same route, and whatever a tool posts are its
/// arguments.
pub proof fn posting_tools_differ(m: Seq<char>, n: Seq<char>, a: Data, b: Data)
    requires
        tool_call(m, a) matches Ok(c) && c.post && (tool_call(n, b) matches Ok(d) && d.post
            && c.path == d.path),
    ensures
        m == n,
        tool_call(m, a) matches Ok(c) && c.body == Some(a),
{
    tools_follow_their_routes(m, a);
    tools_follow_their_routes(n, b);
    reveal_strlit("/symbols/put");
    reveal_strlit("/resources/put");
    reveal_strlit("/snapshot");
    reveal_strlit("/run");
    assert("/symbols/put"@.len() == 12 && "/resources/put"@.len() == 14);
    assert("/snapshot"@.len() == 9 && "/run"@.len() == 4);
}

/// The tools that are described as reading only are those that post nothing.
pub proof fn reading_tools_post_nothing(i: int, arguments: Data)
    requires
        0 <= i < tool_names().len(),
    ensures
        tool_call(tool_names()[i], arguments) matches Ok(c) ==> at(
            at(tool_entries()[i], "annotations"@),
            "readOnlyHint"@,
        ) == Data::Bool(!c.post) && (c.body is None <==> !c.post),
{
    tools_follow_their_routes(tool_names()[i], arguments);
    tool_names_differ();
    hinted();
    assert(tool_names()[0] == "lux.list_namespaces"@);
    assert(tool_names()[1] == "lux.get_namespace"@);
    assert(tool_names()[2] == "lux.list_symbols"@);
    assert(tool_names()[3] == "lux.get_symbol"@);
    assert(tool_names()[4] == "lux.put_symbol"@);
    assert(tool_names()[5] == "lux.diff_namespace"@);
    assert(tool_names()[6] == "lux.get_snapshot"@);
    assert(tool_names()[7] == "lux.create_snapshot"@);
    assert(tool_names()[8] == "lux.list_changesets"@);
    assert(tool_names()[9] == "lux.get_changeset"@);
    assert(tool_names()[10] == "lux.run"@);
    assert(tool_names()[11] == "lux.list_resources"@);
    assert(tool_names()[12] == "lux.get_resource"@);
    assert(tool_names()[13] == "lux.put_resource"@);
}

/// A description tells whether its tool only reads.
proof fn hinted()
    ensures
        forall|name: Seq<char>, description: Seq<char>, input: Data, read_only: bool, wild: bool|
            at(
                at(#[trigger] tool_entry(name, description, input, read_only, wild), "annotations"@),
                "readOnlyHint"@,
            ) == Data::Bool(read_only),
{
    reveal_strlit("readOnlyHint");
    reveal_strlit("destructiveHint");
    reveal_strlit("idempotentHint");
    assert("readOnlyHint"@.len() == 12 && "destructiveHint"@.len() == 15);
    assert("idempotentHint"@.len() == 14);
    assert forall|name: Seq<char>, description: Seq<char>, input: Data, read_only: bool, wild: bool|
        at(
            at(#[trigger] tool_entry(name, description, input, read_only, wild), "annotations"@),
            "readOnlyHint"@,
        ) == Data::Bool(read_only) by {
        let a = object().with("readOnlyHint"@, Data::Bool(read_only));
        let b = a.with("destructiveHint"@, Data::Bool(wild));
        let c = b.with("idempotentHint"@, Data::Bool(read_only));
        lemma_with(object(), "readOnlyHint"@, Data::Bool(read_only), "readOnlyHint"@);
        lemma_with(a, "destructiveHint"@, Data::Bool(wild), "readOnlyHint"@);
        lemma_with(b, "idempotentHint"@, Data::Bool(read_only), "readOnlyHint"@);
        let d = object().with("name"@, Data::Text(name)).with(
            "description"@,
            Data::Text(description),
        ).with("inputSchema"@, input);
        lemma_with(object(), "name"@, Data::Text(name), ""@);
        lemma_with(
            object().with("name"@, Data::Text(name)),
            "description"@,
            Data::Text(description),
            ""@,
        );
        lemma_with(
            object().with("name"@, Data::Text(name)).with("description"@, Data::Text(description)),
            "inputSchema"@,
            input,
            ""@,
        );
        lemma_with(d, "annotations"@, c, "annotations"@);
        assert(get(tool_entry(name, description, input, read_only, wild), "annotations"@)
            == Some(c));
    }
}

} // verus!
