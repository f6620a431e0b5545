//! The tools that an agent drives the service with, over JSON-RPC: what each
//! request is answered, and what is asked of the service for it.
use vstd::prelude::*;
use crate::json::{
    at, data_of, get, int_in, list, list_of, member, object, text_in, Data, Json,
};
use crate::json_text::{flat, plain, pretty, pretty_of, read_json, reading, settled};
use crate::text::{decimal, decimal_int, push_i64, push_u64, same, texts};
use crate::words::{
    number, parse_u16, trim, trim_slashes, trimmed, within, without_slashes,
};

verus! {

/// The newest version of the protocol.
pub const LATEST_PROTOCOL_VERSION: &'static str = "2025-11-25";

/// The version that the server reports of itself.
pub const SERVER_VERSION: &'static str = "0.1.0";

/// What the server tells an agent about itself.
pub const INSTRUCTIONS: &'static str = "Develop Lux projects through atomic namespace function/type symbols, immutable revisions, generations, snapshots, and protected resource metadata. Changesets are provenance/import compatibility, not the normal editing unit. Secret reveal is intentionally not exposed through MCP.";

/// Whether a version of the protocol is supported.
pub open spec fn supported(v: Seq<char>) -> bool {
    v == "2024-11-05"@ || v == "2025-03-26"@ || v == "2025-06-18"@ || v == LATEST_PROTOCOL_VERSION@
}

/// The version that is spoken with a client that asks for one.
pub open spec fn negotiated(requested: Option<Seq<char>>) -> Seq<char> {
    match requested {
        Some(v) => if supported(v) {
            v
        } else {
            LATEST_PROTOCOL_VERSION@
        },
        None => LATEST_PROTOCOL_VERSION@,
    }
}

/// Whatever a client asks for, the version that is spoken is supported, and it
/// is the one asked for if that is supported.
pub proof fn negotiation_is_supported(requested: Option<Seq<char>>)
    ensures
        supported(negotiated(requested)),
        requested matches Some(v) ==> supported(v) ==> negotiated(requested) == v,
{
}

/// The version that is spoken with a client that asks for one.
pub fn negotiate(requested: Option<&str>) -> (r: String)
    ensures
        r@ == negotiated(match requested {
            Some(v) => Some(v@),
            None => None,
        }),
{
    match requested {
        Some(v) => if same(v, "2024-11-05") || same(v, "2025-03-26") || same(v, "2025-06-18")
            || same(v, LATEST_PROTOCOL_VERSION) {
            v.to_owned()
        } else {
            LATEST_PROTOCOL_VERSION.to_owned()
        },
        None => LATEST_PROTOCOL_VERSION.to_owned(),
    }
}

/// A request to the service: a `POST` with a body, or a `GET`.
#[derive(Debug)]
pub struct ApiCall {
    pub post: bool,
    pub path: String,
    pub body: Option<Json>,
}

/// The model of [`ApiCall`].
pub struct Call {
    pub post: bool,
    pub path: Seq<char>,
    pub body: Option<Data>,
}

pub open spec fn call_of(c: ApiCall) -> Call {
    Call {
        post: c.post,
        path: c.path@,
        body: match c.body {
            Some(j) => Some(data_of(j)),
            None => None,
        },
    }
}

pub open spec fn getting(path: Seq<char>) -> Call {
    Call { post: false, path, body: None }
}

pub open spec fn posting(path: Seq<char>, body: Data) -> Call {
    Call { post: true, path, body: Some(body) }
}

impl ApiCall {
    pub fn get(path: String) -> (r: ApiCall)
        ensures
            call_of(r) == getting(path@),
    {
        ApiCall { post: false, path, body: None }
    }

    pub fn post(path: &str, body: Json) -> (r: ApiCall)
        ensures
            call_of(r) == posting(path@, data_of(body)),
    {
        ApiCall { post: true, path: path.to_owned(), body: Some(body) }
    }

    /// The URL of the request at a server.
    pub fn url(&self, server_url: &str) -> (r: String)
        ensures
            r@ == without_slashes(server_url@) + self.path@,
    {
        let mut out = trim_slashes(server_url);
        out.append(self.path.as_str());
        out
    }
}

/// The answer to a request that succeeded.
pub open spec fn result_message(id: Data, result: Data) -> Data {

    object().with("jsonrpc"@, Data::Text("2.0"@)).with("id"@, id).with("result"@, result)
}

/// The answer to a request that failed.
pub open spec fn error_message(id: Data, code: int, message: Seq<char>) -> Data {
    object()
        .with("jsonrpc"@, Data::Text("2.0"@))
        .with("id"@, id)
        .with(
            "error"@,
            object().with("code"@, Data::Int(code)).with("message"@, Data::Text(message)),
        )
}

pub fn rpc_result(id: Json, result: Json) -> (r: Json)
    ensures
        data_of(r) == result_message(data_of(id), data_of(result)),
{
    Json::object().with("jsonrpc", Json::text("2.0")).with("id", id).with("result", result)
}

pub fn rpc_error(id: Json, code: i64, message: &str) -> (r: Json)
    ensures
        data_of(r) == error_message(data_of(id), code as int, message@),
{
    Json::object()
        .with("jsonrpc", Json::text("2.0"))
        .with("id", id)
        .with(
            "error",
            Json::object()
                .with("code", Json::Int(code))
                .with("message", Json::text(message)),
        )
}

/// The description of a tool.
pub open spec fn tool_entry(
    name: Seq<char>,
    description: Seq<char>,
    input_schema: Data,
    read_only: bool,
    destructive: bool,
) -> Data {
    object()
        .with("name"@, Data::Text(name))
        .with("description"@, Data::Text(description))
        .with("inputSchema"@, input_schema)
        .with(
            "annotations"@,
            object()
                .with("readOnlyHint"@, Data::Bool(read_only))
                .with("destructiveHint"@, Data::Bool(destructive))
                .with("idempotentHint"@, Data::Bool(read_only)),
        )
}

pub fn tool(
    name: &str,
    description: &str,
    input_schema: Json,
    read_only: bool,
    destructive: bool,
) -> (r: Json)
    ensures
        data_of(r) == tool_entry(
            name@,
            description@,
            data_of(input_schema),
            read_only,
            destructive,
        ),
{
    Json::object()
        .with("name", Json::text(name))
        .with("description", Json::text(description))
        .with("inputSchema", input_schema)
        .with(
            "annotations",
            Json::object()
                .with("readOnlyHint", Json::Bool(read_only))
                .with("destructiveHint", Json::Bool(destructive))
                .with("idempotentHint", Json::Bool(read_only)),
        )
}

/// The schema of an object with the given properties and no others.
pub open spec fn schema(properties: Data, required: Data) -> Data {
    object()
        .with("type"@, Data::Text("object"@))
        .with("properties"@, properties)
        .with("required"@, required)
        .with("additionalProperties"@, Data::Bool(false))
}

pub fn object_schema(properties: Json, required: Json) -> (r: Json)
    ensures
        data_of(r) == schema(data_of(properties), data_of(required)),
{
    Json::object()
        .with("type", Json::text("object"))
        .with("properties", properties)
        .with("required", required)
        .with("additionalProperties", Json::Bool(false))
}

/// The schema of a text that is not empty.
pub open spec fn string_schema(description: Seq<char>) -> Data {
    object()
        .with("type"@, Data::Text("string"@))
        .with("minLength"@, Data::Int(1))
        .with("description"@, Data::Text(description))
}

pub fn string_property(description: &str) -> (r: Json)
    ensures
        data_of(r) == string_schema(description@),
{
    Json::object()
        .with("type", Json::text("string"))
        .with("minLength", Json::Int(1))
        .with("description", Json::text(description))
}

/// The schema of what selects a symbol.
pub open spec fn selector_schema(with_generation: bool) -> Data {
    let properties = object()
        .with("namespace"@, string_schema("Namespace name"@))
        .with(
            "kind"@,
            object()
                .with("type"@, Data::Text("string"@))
                .with("enum"@, list().and(Data::Text("function"@)).and(Data::Text("type"@))),
        )
        .with("symbol"@, string_schema("Function or type name"@));
    schema(
        if with_generation {
            properties.with(
                "generation"@,
                object()
                    .with("type"@, Data::Text("integer"@))
                    .with("minimum"@, Data::Int(0)),
            )
        } else {
            properties
        },
        list().and(Data::Text("namespace"@)).and(Data::Text("kind"@)).and(Data::Text("symbol"@)),
    )
}

pub fn symbol_selector_schema(with_generation: bool) -> (r: Json)
    ensures
        data_of(r) == selector_schema(with_generation),
{
    let mut properties = Json::object()
        .with("namespace", string_property("Namespace name"))
        .with(
            "kind",
            Json::object()
                .with("type", Json::text("string"))
                .with("enum", Json::list().and(Json::text("function")).and(Json::text("type"))),
        )
        .with("symbol", string_property("Function or type name"));
    if with_generation {
        properties = properties.with(
            "generation",
            Json::object().with("type", Json::text("integer")).with("minimum", Json::Int(0)),
        );
    }
    object_schema(
        properties,
        Json::list()
            .and(Json::text("namespace"))
            .and(Json::text("kind"))
            .and(Json::text("symbol")),
    )
}

pub open spec fn list_namespaces_entry() -> Data {
    tool_entry(
        "lux.list_namespaces"@,
        "List namespace generations, binding counts, and snapshots."@,
        schema(object(), list()),
        true,
        false,
    )
}

fn list_namespaces_tool() -> (r: Json)
    ensures
        data_of(r) == list_namespaces_entry(),
{
    tool(
        "lux.list_namespaces",
        "List namespace generations, binding counts, and snapshots.",
        object_schema(Json::object(), Json::list()),
        true,
        false,
    )
}

pub open spec fn get_namespace_entry() -> Data {
    tool_entry(
        "lux.get_namespace"@,
        "Read bindings in a namespace generation."@,
        schema(
            object()
                .with("namespace"@, string_schema("Namespace name"@))
                .with(
                    "generation"@,
                    object()
                        .with("type"@, Data::Text("integer"@))
                        .with("description"@, Data::Text("Optional generation"@)),
                ),
            list().and(Data::Text("namespace"@)),
        ),
        true,
        false,
    )
}

fn get_namespace_tool() -> (r: Json)
    ensures
        data_of(r) == get_namespace_entry(),
{
    tool(
        "lux.get_namespace",
        "Read bindings in a namespace generation.",
        object_schema(
            Json::object()
                .with("namespace", string_property("Namespace name"))
                .with(
                    "generation",
                    Json::object()
                        .with("type", Json::text("integer"))
                        .with("description", Json::text("Optional generation")),
                ),
            Json::list().and(Json::text("namespace")),
        ),
        true,
        false,
    )
}

pub open spec fn list_symbols_entry() -> Data {
    tool_entry(
        "lux.list_symbols"@,
        "List atomic function and type symbols published in a namespace generation."@,
        schema(
            object()
                .with("namespace"@, string_schema("Namespace name"@))
                .with(
                    "generation"@,
                    object()
                        .with("type"@, Data::Text("integer"@))
                        .with("minimum"@, Data::Int(0))
                        .with(
                            "description"@,
                            Data::Text("Optional generation; defaults to current"@),
                        ),
                ),
            list().and(Data::Text("namespace"@)),
        ),
        true,
        false,
    )
}

fn list_symbols_tool() -> (r: Json)
    ensures
        data_of(r) == list_symbols_entry(),
{
    tool(
        "lux.list_symbols",
        "List atomic function and type symbols published in a namespace generation.",
        object_schema(
            Json::object()
                .with("namespace", string_property("Namespace name"))
                .with(
                    "generation",
                    Json::object()
                        .with("type", Json::text("integer"))
                        .with("minimum", Json::Int(0))
                        .with("description", Json::text("Optional generation; defaults to current")),
                ),
            Json::list().and(Json::text("namespace")),
        ),
        true,
        false,
    )
}

pub open spec fn get_symbol_entry() -> Data {
    tool_entry(
        "lux.get_symbol"@,
        "Read one immutable namespace function/type symbol revision, including its Lux source."@,
        selector_schema(true),
        true,
        false,
    )
}

fn get_symbol_tool() -> (r: Json)
    ensures
        data_of(r) == get_symbol_entry(),
{
    tool(
        "lux.get_symbol",
        "Read one immutable namespace function/type symbol revision, including its Lux source.",
        symbol_selector_schema(true),
        true,
        false,
    )
}

pub open spec fn put_symbol_entry() -> Data {
    tool_entry(
        "lux.put_symbol"@,
        "Atomically create or replace one namespace function/type symbol, compile it, publish a new generation, and create a snapshot. Replacements require the current revision ID."@,
        schema(
            object()
                .with("namespace"@, string_schema("Namespace name"@))
                .with(
                    "kind"@,
                    object()
                        .with("type"@, Data::Text("string"@))
                        .with("enum"@, list().and(Data::Text("function"@)).and(Data::Text("type"@))),
                )
                .with("symbol"@, string_schema("Function or type name"@))
                .with(
                    "source"@,
                    string_schema("Exactly one complete Lux function or type definition"@),
                )
                .with(
                    "expected_generation"@,
                    object()
                        .with("type"@, Data::Text("integer"@))
                        .with("minimum"@, Data::Int(0)),
                )
                .with(
                    "expected_revision_id"@,
                    string_schema(
                        "Required when replacing; omit only when creating a symbol"@,
                    ),
                )
                .with(
                    "sandbox"@,
                    object()
                        .with("type"@, Data::Text("boolean"@))
                        .with(
                            "description"@,
                            Data::Text(
                                "Optional; inherited on replacement, true on creation"@,
                            ),
                        ),
                )
                .with(
                    "capabilities"@,
                    object()
                        .with("type"@, Data::Text("array"@))
                        .with("items"@, object().with("type"@, Data::Text("string"@)))
                        .with("description"@, Data::Text("Optional; inherited on replacement"@)),
                ),
            list()
                .and(Data::Text("namespace"@))
                .and(Data::Text("kind"@))
                .and(Data::Text("symbol"@))
                .and(Data::Text("source"@))
                .and(Data::Text("expected_generation"@)),
        ),
        false,
        false,
    )
}

fn put_symbol_tool() -> (r: Json)
    ensures
        data_of(r) == put_symbol_entry(),
{
    tool(
        "lux.put_symbol",
        "Atomically create or replace one namespace function/type symbol, compile it, publish a new generation, and create a snapshot. Replacements require the current revision ID.",
        object_schema(
            Json::object()
                .with("namespace", string_property("Namespace name"))
                .with(
                    "kind",
                    Json::object()
                        .with("type", Json::text("string"))
                        .with(
                            "enum",
                            Json::list().and(Json::text("function")).and(Json::text("type")),
                        ),
                )
                .with("symbol", string_property("Function or type name"))
                .with(
                    "source",
                    string_property("Exactly one complete Lux function or type definition"),
                )
                .with(
                    "expected_generation",
                    Json::object()
                        .with("type", Json::text("integer"))
                        .with("minimum", Json::Int(0)),
                )
                .with(
                    "expected_revision_id",
                    string_property(
                        "Required when replacing; omit only when creating a symbol",
                    ),
                )
                .with(
                    "sandbox",
                    Json::object()
                        .with("type", Json::text("boolean"))
                        .with(
                            "description",
                            Json::text(
                                "Optional; inherited on replacement, true on creation",
                            ),
                        ),
                )
                .with(
                    "capabilities",
                    Json::object()
                        .with("type", Json::text("array"))
                        .with("items", Json::object().with("type", Json::text("string")))
                        .with("description", Json::text("Optional; inherited on replacement")),
                ),
            Json::list()
                .and(Json::text("namespace"))
                .and(Json::text("kind"))
                .and(Json::text("symbol"))
                .and(Json::text("source"))
                .and(Json::text("expected_generation")),
        ),
        false,
        false,
    )
}

pub open spec fn diff_namespace_entry() -> Data {
    tool_entry(
        "lux.diff_namespace"@,
        "Compare two immutable generations of a namespace."@,
        schema(
            object()
                .with("namespace"@, string_schema("Namespace name"@))
                .with(
                    "from_generation"@,
                    object()
                        .with("type"@, Data::Text("integer"@))
                        .with("minimum"@, Data::Int(1)),
                )
                .with(
                    "to_generation"@,
                    object()
                        .with("type"@, Data::Text("integer"@))
                        .with("minimum"@, Data::Int(1)),
                ),
            list()
                .and(Data::Text("namespace"@))
                .and(Data::Text("from_generation"@))
                .and(Data::Text("to_generation"@)),
        ),
        true,
        false,
    )
}

fn diff_namespace_tool() -> (r: Json)
    ensures
        data_of(r) == diff_namespace_entry(),
{
    tool(
        "lux.diff_namespace",
        "Compare two immutable generations of a namespace.",
        object_schema(
            Json::object()
                .with("namespace", string_property("Namespace name"))
                .with(
                    "from_generation",
                    Json::object()
                        .with("type", Json::text("integer"))
                        .with("minimum", Json::Int(1)),
                )
                .with(
                    "to_generation",
                    Json::object()
                        .with("type", Json::text("integer"))
                        .with("minimum", Json::Int(1)),
                ),
            Json::list()
                .and(Json::text("namespace"))
                .and(Json::text("from_generation"))
                .and(Json::text("to_generation")),
        ),
        true,
        false,
    )
}

pub open spec fn get_snapshot_entry() -> Data {
    tool_entry(
        "lux.get_snapshot"@,
        "Read an immutable snapshot and its binding provenance."@,
        schema(
            object()
                .with(
                    "snapshot_id"@,
                    object()
                        .with("type"@, Data::Text("integer"@))
                        .with("minimum"@, Data::Int(1)),
                ),
            list().and(Data::Text("snapshot_id"@)),
        ),
        true,
        false,
    )
}

fn get_snapshot_tool() -> (r: Json)
    ensures
        data_of(r) == get_snapshot_entry(),
{
    tool(
        "lux.get_snapshot",
        "Read an immutable snapshot and its binding provenance.",
        object_schema(
            Json::object()
                .with(
                    "snapshot_id",
                    Json::object()
                        .with("type", Json::text("integer"))
                        .with("minimum", Json::Int(1)),
                ),
            Json::list().and(Json::text("snapshot_id")),
        ),
        true,
        false,
    )
}

pub open spec fn create_snapshot_entry() -> Data {
    tool_entry(
        "lux.create_snapshot"@,
        "Freeze a namespace generation as an immutable execution snapshot."@,
        schema(
            object()
                .with("namespace"@, string_schema("Namespace name"@))
                .with(
                    "generation"@,
                    object()
                        .with("type"@, Data::Text("integer"@))
                        .with("minimum"@, Data::Int(1))
                        .with(
                            "description"@,
                            Data::Text(
                                "Optional generation; defaults to the current generation"@,
                            ),
                        ),
                ),
            list().and(Data::Text("namespace"@)),
        ),
        false,
        false,
    )
}

fn create_snapshot_tool() -> (r: Json)
    ensures
        data_of(r) == create_snapshot_entry(),
{
    tool(
        "lux.create_snapshot",
        "Freeze a namespace generation as an immutable execution snapshot.",
        object_schema(
            Json::object()
                .with("namespace", string_property("Namespace name"))
                .with(
                    "generation",
                    Json::object()
                        .with("type", Json::text("integer"))
                        .with("minimum", Json::Int(1))
                        .with(
                            "description",
                            Json::text(
                                "Optional generation; defaults to the current generation",
                            ),
                        ),
                ),
            Json::list().and(Json::text("namespace")),
        ),
        false,
        false,
    )
}

pub open spec fn list_changesets_entry() -> Data {
    tool_entry(
        "lux.list_changesets"@,
        "List database-native changesets and their head revisions."@,
        schema(
            object().with("namespace"@, string_schema("Namespace name"@)),
            list().and(Data::Text("namespace"@)),
        ),
        true,
        false,
    )
}

fn list_changesets_tool() -> (r: Json)
    ensures
        data_of(r) == list_changesets_entry(),
{
    tool(
        "lux.list_changesets",
        "List database-native changesets and their head revisions.",
        object_schema(
            Json::object().with("namespace", string_property("Namespace name")),
            Json::list().and(Json::text("namespace")),
        ),
        true,
        false,
    )
}

pub open spec fn get_changeset_entry() -> Data {
    tool_entry(
        "lux.get_changeset"@,
        "Read a changeset revision, including its Lux source and capability grants."@,
        schema(
            object()
                .with("namespace"@, string_schema("Namespace name"@))
                .with("changeset"@, string_schema("Changeset name"@))
                .with("revision_id"@, string_schema("Optional immutable revision ID"@)),
            list().and(Data::Text("namespace"@)).and(Data::Text("changeset"@)),
        ),
        true,
        false,
    )
}

fn get_changeset_tool() -> (r: Json)
    ensures
        data_of(r) == get_changeset_entry(),
{
    tool(
        "lux.get_changeset",
        "Read a changeset revision, including its Lux source and capability grants.",
        object_schema(
            Json::object()
                .with("namespace", string_property("Namespace name"))
                .with("changeset", string_property("Changeset name"))
                .with("revision_id", string_property("Optional immutable revision ID")),
            Json::list().and(Json::text("namespace")).and(Json::text("changeset")),
        ),
        true,
        false,
    )
}

pub open spec fn run_entry() -> Data {
    tool_entry(
        "lux.run"@,
        "Run a symbol or artifact from an immutable snapshot."@,
        schema(
            object()
                .with(
                    "snapshot_id"@,
                    object()
                        .with("type"@, Data::Text("integer"@))
                        .with("minimum"@, Data::Int(1)),
                )
                .with("target"@, string_schema("Symbol name or artifact hash"@))
                .with(
                    "args"@,
                    object()
                        .with("type"@, Data::Text("array"@))
                        .with("items"@, object().with("type"@, Data::Text("string"@)))
                        .with("default"@, list()),
                )
                .with(
                    "limits"@,
                    object()
                        .with("type"@, Data::Text("object"@))
                        .with(
                            "properties"@,
                            object()
                                .with(
                                    "timeout_ms"@,
                                    object()
                                        .with("type"@, Data::Text("integer"@))
                                        .with("minimum"@, Data::Int(1)),
                                )
                                .with(
                                    "output_limit_bytes"@,
                                    object()
                                        .with("type"@, Data::Text("integer"@))
                                        .with("minimum"@, Data::Int(1)),
                                ),
                        )
                        .with("additionalProperties"@, Data::Bool(false)),
                ),
            list().and(Data::Text("snapshot_id"@)).and(Data::Text("target"@)),
        ),
        false,
        false,
    )
}

fn run_tool() -> (r: Json)
    ensures
        data_of(r) == run_entry(),
{
    tool(
        "lux.run",
        "Run a symbol or artifact from an immutable snapshot.",
        object_schema(
            Json::object()
                .with(
                    "snapshot_id",
                    Json::object()
                        .with("type", Json::text("integer"))
                        .with("minimum", Json::Int(1)),
                )
                .with("target", string_property("Symbol name or artifact hash"))
                .with(
                    "args",
                    Json::object()
                        .with("type", Json::text("array"))
                        .with("items", Json::object().with("type", Json::text("string")))
                        .with("default", Json::list()),
                )
                .with(
                    "limits",
                    Json::object()
                        .with("type", Json::text("object"))
                        .with(
                            "properties",
                            Json::object()
                                .with(
                                    "timeout_ms",
                                    Json::object()
                                        .with("type", Json::text("integer"))
                                        .with("minimum", Json::Int(1)),
                                )
                                .with(
                                    "output_limit_bytes",
                                    Json::object()
                                        .with("type", Json::text("integer"))
                                        .with("minimum", Json::Int(1)),
                                ),
                        )
                        .with("additionalProperties", Json::Bool(false)),
                ),
            Json::list().and(Json::text("snapshot_id")).and(Json::text("target")),
        ),
        false,
        false,
    )
}

pub open spec fn list_resources_entry() -> Data {
    tool_entry(
        "lux.list_resources"@,
        "List protected namespace resource metadata. Values, nonces, and ciphertext are never returned."@,
        schema(
            object().with("namespace"@, string_schema("Namespace name"@)),
            list().and(Data::Text("namespace"@)),
        ),
        true,
        false,
    )
}

fn list_resources_tool() -> (r: Json)
    ensures
        data_of(r) == list_resources_entry(),
{
    tool(
        "lux.list_resources",
        "List protected namespace resource metadata. Values, nonces, and ciphertext are never returned.",
        object_schema(
            Json::object().with("namespace", string_property("Namespace name")),
            Json::list().and(Json::text("namespace")),
        ),
        true,
        false,
    )
}

pub open spec fn get_resource_entry() -> Data {
    tool_entry(
        "lux.get_resource"@,
        "Read protected resource metadata for the head or an immutable resource version. Secret material is never returned."@,
        schema(
            object()
                .with("namespace"@, string_schema("Namespace name"@))
                .with("name"@, string_schema("Resource name"@))
                .with("resource_id"@, string_schema("Optional immutable resource ID"@)),
            list().and(Data::Text("namespace"@)).and(Data::Text("name"@)),
        ),
        true,
        false,
    )
}

fn get_resource_tool() -> (r: Json)
    ensures
        data_of(r) == get_resource_entry(),
{
    tool(
        "lux.get_resource",
        "Read protected resource metadata for the head or an immutable resource version. Secret material is never returned.",
        object_schema(
            Json::object()
                .with("namespace", string_property("Namespace name"))
                .with("name", string_property("Resource name"))
                .with("resource_id", string_property("Optional immutable resource ID")),
            Json::list().and(Json::text("namespace")).and(Json::text("name")),
        ),
        true,
        false,
    )
}

pub open spec fn put_resource_entry() -> Data {
    tool_entry(
        "lux.put_resource"@,
        "Create or update an encrypted namespace resource. The response contains metadata only."@,
        schema(
            object()
                .with("namespace"@, string_schema("Namespace name"@))
                .with("name"@, string_schema("Resource name"@))
                .with(
                    "kind"@,
                    object()
                        .with("type"@, Data::Text("string"@))
                        .with("default"@, Data::Text("secret/json"@)),
                )
                .with("revision_id"@, string_schema("Optional owning source revision"@))
                .with(
                    "expected_resource_id"@,
                    string_schema("Current resource head ID for updates"@),
                )
                .with(
                    "value"@,
                    object()
                        .with("description"@, Data::Text("JSON value to encrypt and store"@)),
                ),
            list()
                .and(Data::Text("namespace"@))
                .and(Data::Text("name"@))
                .and(Data::Text("value"@)),
        ),
        false,
        false,
    )
}

fn put_resource_tool() -> (r: Json)
    ensures
        data_of(r) == put_resource_entry(),
{
    tool(
        "lux.put_resource",
        "Create or update an encrypted namespace resource. The response contains metadata only.",
        object_schema(
            Json::object()
                .with("namespace", string_property("Namespace name"))
                .with("name", string_property("Resource name"))
                .with(
                    "kind",
                    Json::object()
                        .with("type", Json::text("string"))
                        .with("default", Json::text("secret/json")),
                )
                .with("revision_id", string_property("Optional owning source revision"))
                .with(
                    "expected_resource_id",
                    string_property("Current resource head ID for updates"),
                )
                .with(
                    "value",
                    Json::object()
                        .with("description", Json::text("JSON value to encrypt and store")),
                ),
            Json::list()
                .and(Json::text("namespace"))
                .and(Json::text("name"))
                .and(Json::text("value")),
        ),
        false,
        false,
    )
}

/// The names of the tools.
pub open spec fn tool_names() -> Seq<Seq<char>> {
    seq![
        "lux.list_namespaces"@,
        "lux.get_namespace"@,
        "lux.list_symbols"@,
        "lux.get_symbol"@,
        "lux.put_symbol"@,
        "lux.diff_namespace"@,
        "lux.get_snapshot"@,
        "lux.create_snapshot"@,
        "lux.list_changesets"@,
        "lux.get_changeset"@,
        "lux.run"@,
        "lux.list_resources"@,
        "lux.get_resource"@,
        "lux.put_resource"@,
    ]
}

/// The descriptions of the tools.
pub open spec fn tool_entries() -> Seq<Data> {
    seq![
        list_namespaces_entry(),
        get_namespace_entry(),
        list_symbols_entry(),
        get_symbol_entry(),
        put_symbol_entry(),
        diff_namespace_entry(),
        get_snapshot_entry(),
        create_snapshot_entry(),
        list_changesets_entry(),
        get_changeset_entry(),
        run_entry(),
        list_resources_entry(),
        get_resource_entry(),
        put_resource_entry(),
    ]
}

/// The descriptions of the tools.
pub fn tool_definitions() -> (r: Vec<Json>)
    ensures
        list_of(r@) == tool_entries(),
{
    let mut out: Vec<Json> = Vec::new();
    out.push(list_namespaces_tool());
    out.push(get_namespace_tool());
    out.push(list_symbols_tool());
    out.push(get_symbol_tool());
    out.push(put_symbol_tool());
    out.push(diff_namespace_tool());
    out.push(get_snapshot_tool());
    out.push(create_snapshot_tool());
    out.push(list_changesets_tool());
    out.push(get_changeset_tool());
    out.push(run_tool());
    out.push(list_resources_tool());
    out.push(get_resource_tool());
    out.push(put_resource_tool());
    proof {
        crate::json::lemma_list(out@);
    }
    assert(list_of(out@) =~= tool_entries());
    out
}

/// An argument that has to be a text that is not empty.
pub open spec fn needed_text(arguments: Data, name: Seq<char>) -> Result<Seq<char>, Seq<char>> {
    match text_in(at(arguments, name)) {
        Some(s) => if s.len() > 0 {
            Ok(s)
        } else {
            Err("Missing or invalid argument: "@ + name)
        },
        None => Err("Missing or invalid argument: "@ + name),
    }
}

/// An argument that has to be an integer.
pub open spec fn needed_int(arguments: Data, name: Seq<char>) -> Result<int, Seq<char>> {
    match int_in(at(arguments, name)) {
        Some(n) => Ok(n),
        None => Err("Missing or invalid argument: "@ + name),
    }
}

fn missing(name: &str) -> (r: String)
    ensures
        r@ == "Missing or invalid argument: "@ + name@,
{
    let mut out = "Missing or invalid argument: ".to_owned();
    out.append(name);
    out
}

pub fn required_string<'a>(arguments: &'a Json, name: &str) -> (r: Result<&'a str, String>)
    ensures
        match r {
            Ok(s) => needed_text(data_of(*arguments), name@) == Ok::<Seq<char>, Seq<char>>(s@),
            Err(e) => needed_text(data_of(*arguments), name@) == Err::<Seq<char>, Seq<char>>(e@),
        },
{
    match arguments.text_at(name) {
        Some(s) => {
            proof {
                reveal_strlit("");
                assert(s@.len() == 0 ==> s@ =~= ""@);
            }
            if same(s, "") {
                Err(missing(name))
            } else {
                Ok(s)
            }
        },
        None => Err(missing(name)),
    }
}

pub fn required_i64(arguments: &Json, name: &str) -> (r: Result<i64, String>)
    ensures
        match r {
            Ok(n) => needed_int(data_of(*arguments), name@) == Ok::<int, Seq<char>>(n as int),
            Err(e) => needed_int(data_of(*arguments), name@) == Err::<int, Seq<char>>(e@),
        },
{
    match arguments.int_at(name) {
        Some(n) => Ok(n),
        None => Err(missing(name)),
    }
}

/// The path with the integer argument behind it, if it is given.
pub open spec fn with_int(
    path: Seq<char>,
    before: Seq<char>,
    arguments: Data,
    name: Seq<char>,
) -> Seq<char> {
    match int_in(at(arguments, name)) {
        Some(n) => path + before + decimal_int(n),
        None => path,
    }
}

/// The path with the text argument behind it, if it is given.
pub open spec fn with_text(
    path: Seq<char>,
    before: Seq<char>,
    arguments: Data,
    name: Seq<char>,
) -> Seq<char> {
    match text_in(at(arguments, name)) {
        Some(s) => path + before + s,
        None => path,
    }
}

fn append_int(path: String, before: &str, arguments: &Json, name: &str) -> (r: String)
    ensures
        r@ == with_int(path@, before@, data_of(*arguments), name@),
{
    let mut path = path;
    match arguments.int_at(name) {
        Some(n) => {
            path.append(before);
            push_i64(&mut path, n);
        },
        None => {},
    }
    path
}

fn append_text(path: String, before: &str, arguments: &Json, name: &str) -> (r: String)
    ensures
        r@ == with_text(path@, before@, data_of(*arguments), name@),
{
    let mut path = path;
    match arguments.text_at(name) {
        Some(s) => {
            path.append(before);
            path.append(s);
        },
        None => {},
    }
    path
}

/// The result of planning a request.
pub open spec fn plan_of(r: Result<ApiCall, String>) -> Result<Call, Seq<char>> {
    match r {
        Ok(c) => Ok(call_of(c)),
        Err(e) => Err(e@),
    }
}

pub open spec fn get_namespace_call(arguments: Data) -> Result<Call, Seq<char>> {
    match needed_text(arguments, "namespace"@) {
        Ok(namespace) => Ok(
            getting(with_int("/namespaces/"@ + namespace, "?generation="@, arguments, "generation"@)),
        ),
        Err(e) => Err(e),
    }
}

fn get_namespace(arguments: &Json) -> (r: Result<ApiCall, String>)
    ensures
        plan_of(r) == get_namespace_call(data_of(*arguments)),
{
    let namespace = match required_string(arguments, "namespace") {
        Ok(v) => v,
        Err(e) => {
            return Err(e);
        },
    };
    let mut path = "/namespaces/".to_owned();
    path.append(namespace);
    Ok(ApiCall::get(append_int(path, "?generation=", arguments, "generation")))
}

pub open spec fn list_symbols_call(arguments: Data) -> Result<Call, Seq<char>> {
    match needed_text(arguments, "namespace"@) {
        Ok(namespace) => Ok(
            getting(with_int("/symbols?namespace="@ + namespace, "&generation="@, arguments, "generation"@)),
        ),
        Err(e) => Err(e),
    }
}

fn list_symbols(arguments: &Json) -> (r: Result<ApiCall, String>)
    ensures
        plan_of(r) == list_symbols_call(data_of(*arguments)),
{
    let namespace = match required_string(arguments, "namespace") {
        Ok(v) => v,
        Err(e) => {
            return Err(e);
        },
    };
    let mut path = "/symbols?namespace=".to_owned();
    path.append(namespace);
    Ok(ApiCall::get(append_int(path, "&generation=", arguments, "generation")))
}

pub open spec fn get_symbol_call(arguments: Data) -> Result<Call, Seq<char>> {
    match needed_text(arguments, "namespace"@) {
        Ok(namespace) => match needed_text(arguments, "kind"@) {
            Ok(kind) => match needed_text(arguments, "symbol"@) {
                Ok(symbol) => Ok(
                    getting(with_int("/symbol?namespace="@ + namespace + "&kind="@ + kind + "&symbol="@ + symbol, "&generation="@, arguments, "generation"@)),
                ),
                Err(e) => Err(e),
            },
            Err(e) => Err(e),
        },
        Err(e) => Err(e),
    }
}

fn get_symbol(arguments: &Json) -> (r: Result<ApiCall, String>)
    ensures
        plan_of(r) == get_symbol_call(data_of(*arguments)),
{
    let namespace = match required_string(arguments, "namespace") {
        Ok(v) => v,
        Err(e) => {
            return Err(e);
        },
    };
    let kind = match required_string(arguments, "kind") {
        Ok(v) => v,
        Err(e) => {
            return Err(e);
        },
    };
    let symbol = match required_string(arguments, "symbol") {
        Ok(v) => v,
        Err(e) => {
            return Err(e);
        },
    };
    let mut path = "/symbol?namespace=".to_owned();
    path.append(namespace);
    path.append("&kind=");
    path.append(kind);
    path.append("&symbol=");
    path.append(symbol);
    Ok(ApiCall::get(append_int(path, "&generation=", arguments, "generation")))
}

pub open spec fn diff_namespace_call(arguments: Data) -> Result<Call, Seq<char>> {
    match needed_text(arguments, "namespace"@) {
        Ok(namespace) => match needed_int(arguments, "from_generation"@) {
            Ok(from_generation) => match needed_int(arguments, "to_generation"@) {
                Ok(to_generation) => Ok(
                    getting("/namespaces/"@ + namespace + "/diff?from="@ + decimal_int(from_generation) + "&to="@ + decimal_int(to_generation)),
                ),
                Err(e) => Err(e),
            },
            Err(e) => Err(e),
        },
        Err(e) => Err(e),
    }
}

fn diff_namespace(arguments: &Json) -> (r: Result<ApiCall, String>)
    ensures
        plan_of(r) == diff_namespace_call(data_of(*arguments)),
{
    let namespace = match required_string(arguments, "namespace") {
        Ok(v) => v,
        Err(e) => {
            return Err(e);
        },
    };
    let from_generation: i64 = match required_i64(arguments, "from_generation") {
        Ok(v) => v,
        Err(e) => {
            return Err(e);
        },
    };
    let to_generation: i64 = match required_i64(arguments, "to_generation") {
        Ok(v) => v,
        Err(e) => {
            return Err(e);
        },
    };
    let mut path = "/namespaces/".to_owned();
    path.append(namespace);
    path.append("/diff?from=");
    push_i64(&mut path, from_generation);
    path.append("&to=");
    push_i64(&mut path, to_generation);
    Ok(ApiCall::get(path))
}

pub open spec fn get_snapshot_call(arguments: Data) -> Result<Call, Seq<char>> {
    match needed_int(arguments, "snapshot_id"@) {
        Ok(snapshot_id) => Ok(getting("/snapshots/"@ + decimal_int(snapshot_id))),
        Err(e) => Err(e),
    }
}

fn get_snapshot(arguments: &Json) -> (r: Result<ApiCall, String>)
    ensures
        plan_of(r) == get_snapshot_call(data_of(*arguments)),
{
    let snapshot_id: i64 = match required_i64(arguments, "snapshot_id") {
        Ok(v) => v,
        Err(e) => {
            return Err(e);
        },
    };
    let mut path = "/snapshots/".to_owned();
    push_i64(&mut path, snapshot_id);
    Ok(ApiCall::get(path))
}

pub open spec fn list_changesets_call(arguments: Data) -> Result<Call, Seq<char>> {
    match needed_text(arguments, "namespace"@) {
        Ok(namespace) => Ok(getting("/changesets?namespace="@ + namespace)),
        Err(e) => Err(e),
    }
}

fn list_changesets(arguments: &Json) -> (r: Result<ApiCall, String>)
    ensures
        plan_of(r) == list_changesets_call(data_of(*arguments)),
{
    let namespace = match required_string(arguments, "namespace") {
        Ok(v) => v,
        Err(e) => {
            return Err(e);
        },
    };
    let mut path = "/changesets?namespace=".to_owned();
    path.append(namespace);
    Ok(ApiCall::get(path))
}

pub open spec fn get_changeset_call(arguments: Data) -> Result<Call, Seq<char>> {
    match needed_text(arguments, "namespace"@) {
        Ok(namespace) => match needed_text(arguments, "changeset"@) {
            Ok(changeset) => Ok(
                getting(with_text("/changesets/"@ + namespace + "/"@ + changeset, "?revision_id="@,
                    arguments, "revision_id"@)),
            ),
            Err(e) => Err(e),
        },
        Err(e) => Err(e),
    }
}

fn get_changeset(arguments: &Json) -> (r: Result<ApiCall, String>)
    ensures
        plan_of(r) == get_changeset_call(data_of(*arguments)),
{
    let namespace = match required_string(arguments, "namespace") {
        Ok(v) => v,
        Err(e) => {
            return Err(e);
        },
    };
    let changeset = match required_string(arguments, "changeset") {
        Ok(v) => v,
        Err(e) => {
            return Err(e);
        },
    };
    let mut path = "/changesets/".to_owned();
    path.append(namespace);
    path.append("/");
    path.append(changeset);
    Ok(ApiCall::get(append_text(path, "?revision_id=", arguments, "revision_id")))
}

pub open spec fn list_resources_call(arguments: Data) -> Result<Call, Seq<char>> {
    match needed_text(arguments, "namespace"@) {
        Ok(namespace) => Ok(getting("/resources?namespace="@ + namespace)),
        Err(e) => Err(e),
    }
}

fn list_resources(arguments: &Json) -> (r: Result<ApiCall, String>)
    ensures
        plan_of(r) == list_resources_call(data_of(*arguments)),
{
    let namespace = match required_string(arguments, "namespace") {
        Ok(v) => v,
        Err(e) => {
            return Err(e);
        },
    };
    let mut path = "/resources?namespace=".to_owned();
    path.append(namespace);
    Ok(ApiCall::get(path))
}

pub open spec fn get_resource_call(arguments: Data) -> Result<Call, Seq<char>> {
    match needed_text(arguments, "namespace"@) {
        Ok(namespace) => match needed_text(arguments, "name"@) {
            Ok(name) => Ok(
                getting(with_text("/resources/"@ + namespace + "/"@ + name, "?resource_id="@,
                    arguments, "resource_id"@)),
            ),
            Err(e) => Err(e),
        },
        Err(e) => Err(e),
    }
}

fn get_resource(arguments: &Json) -> (r: Result<ApiCall, String>)
    ensures
        plan_of(r) == get_resource_call(data_of(*arguments)),
{
    let namespace = match required_string(arguments, "namespace") {
        Ok(v) => v,
        Err(e) => {
            return Err(e);
        },
    };
    let name = match required_string(arguments, "name") {
        Ok(v) => v,
        Err(e) => {
            return Err(e);
        },
    };
    let mut path = "/resources/".to_owned();
    path.append(namespace);
    path.append("/");
    path.append(name);
    Ok(ApiCall::get(append_text(path, "?resource_id=", arguments, "resource_id")))
}

/// What the service is asked for the call of a tool, or why the call is refused.
pub open spec fn tool_call(name: Seq<char>, arguments: Data) -> Result<Call, Seq<char>> {
    if name == "lux.list_namespaces"@ {
        Ok(getting("/namespaces"@))
    } else if name == "lux.get_namespace"@ {
        get_namespace_call(arguments)
    } else if name == "lux.list_symbols"@ {
        list_symbols_call(arguments)
    } else if name == "lux.get_symbol"@ {
        get_symbol_call(arguments)
    } else if name == "lux.put_symbol"@ {
        Ok(posting("/symbols/put"@, arguments))
    } else if name == "lux.diff_namespace"@ {
        diff_namespace_call(arguments)
    } else if name == "lux.get_snapshot"@ {
        get_snapshot_call(arguments)
    } else if name == "lux.create_snapshot"@ {
        Ok(posting("/snapshot"@, arguments))
    } else if name == "lux.list_changesets"@ {
        list_changesets_call(arguments)
    } else if name == "lux.get_changeset"@ {
        get_changeset_call(arguments)
    } else if name == "lux.run"@ {
        Ok(posting("/run"@, arguments))
    } else if name == "lux.list_resources"@ {
        list_resources_call(arguments)
    } else if name == "lux.get_resource"@ {
        get_resource_call(arguments)
    } else if name == "lux.put_resource"@ {
        Ok(posting("/resources/put"@, arguments))
    } else {
        Err("Unknown tool: "@ + name)
    }
}

/// What the service is asked for the call of a tool, or why the call is refused.
pub fn try_call_tool(name: &str, arguments: Json) -> (r: Result<ApiCall, String>)
    ensures
        plan_of(r) == tool_call(name@, data_of(arguments)),
{
    if same(name, "lux.list_namespaces") {
        Ok(ApiCall::get("/namespaces".to_owned()))
    } else if same(name, "lux.get_namespace") {
        get_namespace(&arguments)
    } else if same(name, "lux.list_symbols") {
        list_symbols(&arguments)
    } else if same(name, "lux.get_symbol") {
        get_symbol(&arguments)
    } else if same(name, "lux.put_symbol") {
        Ok(ApiCall::post("/symbols/put", arguments))
    } else if same(name, "lux.diff_namespace") {
        diff_namespace(&arguments)
    } else if same(name, "lux.get_snapshot") {
        get_snapshot(&arguments)
    } else if same(name, "lux.create_snapshot") {
        Ok(ApiCall::post("/snapshot", arguments))
    } else if same(name, "lux.list_changesets") {
        list_changesets(&arguments)
    } else if same(name, "lux.get_changeset") {
        get_changeset(&arguments)
    } else if same(name, "lux.run") {
        Ok(ApiCall::post("/run", arguments))
    } else if same(name, "lux.list_resources") {
        list_resources(&arguments)
    } else if same(name, "lux.get_resource") {
        get_resource(&arguments)
    } else if same(name, "lux.put_resource") {
        Ok(ApiCall::post("/resources/put", arguments))
    } else {
        let mut out = "Unknown tool: ".to_owned();
        out.append(name);
        Err(out)
    }
}

/// The tools that are described are the ones that can be called: a call is
/// refused as of an unknown tool exactly if no tool with its name is described.
pub proof fn described_tools_are_callable(name: Seq<char>, arguments: Data)
    ensures
        tool_names().contains(name) <==> tool_call(name, arguments) != Err::<Call, Seq<char>>(
            "Unknown tool: "@ + name,
        ),
        tool_names().len() == tool_entries().len(),
        forall|i: int|
            0 <= i < tool_names().len() ==> at(#[trigger] tool_entries()[i], "name"@) == Data::Text(
                tool_names()[i],
            ),
{
    assert(tool_names()[0] == "lux.list_namespaces"@);
    assert(tool_names()[1] == "lux.get_namespace"@);
    assert(tool_names()[2] == "lux.list_symbols"@);
    assert(tool_names()[3] == "lux.get_symbol"@);
    assert(tool_names()[4] == "lux.put_symbol"@);
    assert(tool_names()[5] == "lux.diff_namespace"@);
    assert(tool_names()[6] == "lux.get_snapshot"@);
    assert(tool_names()[7] == "lux.create_snapshot"@);
    assert(tool_names()[8] == "lux.list_changesets"@);
    assert(tool_names()[9] == "lux.get_changeset"@);
    assert(tool_names()[10] == "lux.run"@);
    assert(tool_names()[11] == "lux.list_resources"@);
    assert(tool_names()[12] == "lux.get_resource"@);
    assert(tool_names()[13] == "lux.put_resource"@);
    reveal_strlit("Unknown tool: ");
    reveal_strlit("Missing or invalid argument: ");
    assert forall|a: Seq<char>, b: Seq<char>|
        #[trigger] ("Missing or invalid argument: "@ + a) != #[trigger] ("Unknown tool: "@ + b) by {
        assert(("Missing or invalid argument: "@ + a)[0] == 'M');
        assert(("Unknown tool: "@ + b)[0] == 'U');
    }
    assert forall|i: int| 0 <= i < tool_names().len() implies at(
        #[trigger] tool_entries()[i],
        "name"@,
    ) == Data::Text(tool_names()[i]) by {

        lemma_entry_name();
    }
}

/// No tool asks for the plaintext of a resource: what a tool posts goes to one
/// of four routes, and none of them is the one that hands plaintext out.
pub proof fn tools_never_reveal(name: Seq<char>, arguments: Data)
    ensures
        tool_call(name, arguments) matches Ok(c) ==> c.post ==> {
            &&& c.path == "/symbols/put"@ || c.path == "/snapshot"@ || c.path == "/run"@ || c.path
                == "/resources/put"@
            &&& c.path != "/resources/read"@
            &&& c.body == Some(arguments)
        },
{
    reveal_strlit("/symbols/put");
    reveal_strlit("/snapshot");
    reveal_strlit("/run");
    reveal_strlit("/resources/put");
    reveal_strlit("/resources/read");
    assert("/resources/read"@.len() == 15);
    assert("/symbols/put"@.len() == 12);
    assert("/snapshot"@.len() == 9);
    assert("/run"@.len() == 4);
    assert("/resources/put"@.len() == 14);
}

/// A description tells the name of its tool.
proof fn lemma_entry_name()
    ensures
        forall|name: Seq<char>, description: Seq<char>, input: Data, read_only: bool, wild: bool|
            at(#[trigger] tool_entry(name, description, input, read_only, wild), "name"@)
                == Data::Text(name),
{
    reveal_strlit("name");
    reveal_strlit("description");
    reveal_strlit("inputSchema");
    reveal_strlit("annotations");
    assert forall|name: Seq<char>, description: Seq<char>, input: Data, read_only: bool, wild: bool|
        at(#[trigger] tool_entry(name, description, input, read_only, wild), "name"@)
            == Data::Text(name) by {
        let s1 = object()->Object_0.push(("name"@, Data::Text(name)));
        let s2 = s1.push(("description"@, Data::Text(description)));
        let s3 = s2.push(("inputSchema"@, input));
        let s4 = tool_entry(name, description, input, read_only, wild)->Object_0;
        assert(s4.drop_last() =~= s3);
        assert(s3.drop_last() =~= s2);
        assert(s2.drop_last() =~= s1);
        let n = "name"@;
        assert(n.len() == 4 && "annotations"@.len() == 11);
        assert("inputSchema"@.len() == 11 && "description"@.len() == 11);
        assert(member(s4, n) == member(s3, n));
        assert(member(s3, n) == member(s2, n));
        assert(member(s2, n) == member(s1, n));
        assert(s1.last() == (n, Data::Text(name)));
    }
}

/// What a client is told when it introduces itself.
pub open spec fn introduction(requested: Option<Seq<char>>) -> Data {
    object()
        .with("protocolVersion"@, Data::Text(negotiated(requested)))
        .with(
            "capabilities"@,
            object().with("tools"@, object().with("listChanged"@, Data::Bool(false))),
        )
        .with(
            "serverInfo"@,
            object()
                .with("name"@, Data::Text("lux"@))
                .with("version"@, Data::Text(SERVER_VERSION@)),
        )
        .with("instructions"@, Data::Text(INSTRUCTIONS@))
}

fn introduce(requested: Option<&str>) -> (r: Json)
    ensures
        data_of(r) == introduction(match requested {
            Some(v) => Some(v@),
            None => None,
        }),
{
    let version = negotiate(requested);
    Json::object()
        .with("protocolVersion", Json::Text(version))
        .with(
            "capabilities",
            Json::object()
                .with("tools", Json::object().with("listChanged", Json::Bool(false))),
        )
        .with(
            "serverInfo",
            Json::object()
                .with("name", Json::text("lux"))
                .with("version", Json::text(SERVER_VERSION)),
        )
        .with("instructions", Json::text(INSTRUCTIONS))
}

/// What follows on a request.
#[derive(Debug)]
pub enum Handled {
    /// It wants no answer.
    Ignored,
    /// It is answered at once.
    Reply(Json),
    /// It calls a tool: what the service is asked, or why the call is refused.
    Tool { id: Json, plan: Result<ApiCall, String> },
}

/// The model of [`Handled`].
pub enum Answer {
    Ignored,
    Reply(Data),
    Tool { id: Data, plan: Result<Call, Seq<char>> },
}

pub open spec fn answer_of(h: Handled) -> Answer {
    match h {
        Handled::Ignored => Answer::Ignored,
        Handled::Reply(j) => Answer::Reply(data_of(j)),
        Handled::Tool { id, plan } => Answer::Tool { id: data_of(id), plan: plan_of(plan) },
    }
}

/// The text of a member, or the empty text.
pub open spec fn text_or_empty(d: Data, name: Seq<char>) -> Seq<char> {
    match text_in(at(d, name)) {
        Some(s) => s,
        None => ""@,
    }
}

/// What follows on a request.
pub open spec fn handled(request: Data) -> Answer {
    match get(request, "id"@) {
        None => Answer::Ignored,
        Some(id) => {
            let method = text_or_empty(request, "method"@);
            let params = at(request, "params"@);
            if method == "initialize"@ {
                Answer::Reply(
                    result_message(id, introduction(text_in(at(params, "protocolVersion"@)))),
                )
            } else if method == "ping"@ {
                Answer::Reply(result_message(id, object()))
            } else if method == "tools/list"@ {
                Answer::Reply(
                    result_message(id, object().with("tools"@, Data::List(tool_entries()))),
                )
            } else if method == "tools/call"@ {
                match text_in(at(params, "name"@)) {
                    None => Answer::Reply(error_message(id, -32602, "Missing tool name"@)),
                    Some(name) => Answer::Tool {
                        id,
                        plan: tool_call(
                            name,
                            match get(params, "arguments"@) {
                                Some(a) => a,
                                None => object(),
                            },
                        ),
                    },
                }
            } else {
                Answer::Reply(error_message(id, -32601, "Method not found: "@ + method))
            }
        },
    }
}

/// What follows on a request.
pub fn handle_request(request: &Json) -> (r: Handled)
    ensures
        answer_of(r) == handled(data_of(*request)),
{
    let id = match request.get("id") {
        Some(id) => id.dup(),
        None => {
            return Handled::Ignored;
        },
    };
    let method = match request.text_at("method") {
        Some(m) => m,
        None => "",
    };
    let nothing = Json::Null;
    let params = match request.get("params") {
        Some(p) => p,
        None => &nothing,
    };
    if same(method, "initialize") {
        let result = introduce(params.text_at("protocolVersion"));
        Handled::Reply(rpc_result(id, result))
    } else if same(method, "ping") {
        Handled::Reply(rpc_result(id, Json::object()))
    } else if same(method, "tools/list") {
        let tools = Json::List(tool_definitions());
        Handled::Reply(rpc_result(id, Json::object().with("tools", tools)))
    } else if same(method, "tools/call") {
        match params.text_at("name") {
            None => Handled::Reply(rpc_error(id, -32602, "Missing tool name")),
            Some(name) => {
                let arguments = match params.get("arguments") {
                    Some(a) => a.dup(),
                    None => Json::object(),
                };
                Handled::Tool { id, plan: try_call_tool(name, arguments) }
            },
        }
    } else {
        let mut message = "Method not found: ".to_owned();
        message.append(method);
        Handled::Reply(rpc_error(id, -32601, message.as_str()))
    }
}

pub proof fn lemma_with(d: Data, name: Seq<char>, v: Data, other: Seq<char>)
    requires
        d is Object,
    ensures
        d.with(name, v) is Object,
        get(d.with(name, v), other) == if name == other {
            Some(v)
        } else {
            get(d, other)
        },
{
    let s = d->Object_0;
    assert(s.push((name, v)).drop_last() =~= s);
}

proof fn lemma_message_id(id: Data, last: Seq<char>, v: Data)
    requires
        last != "id"@,
    ensures
        get(
            object().with("jsonrpc"@, Data::Text("2.0"@)).with("id"@, id).with(last, v),
            "id"@,
        ) == Some(id),
{
    let a = object().with("jsonrpc"@, Data::Text("2.0"@));
    lemma_with(object(), "jsonrpc"@, Data::Text("2.0"@), "id"@);
    lemma_with(a, "id"@, id, "id"@);
    lemma_with(a.with("id"@, id), last, v, "id"@);
}

/// A request gets an answer exactly if it has an id, and the answer carries it.
pub proof fn answers_carry_the_id(request: Data)
    ensures
        match handled(request) {
            Answer::Ignored => get(request, "id"@) is None,
            Answer::Reply(reply) => get(request, "id"@) is Some && get(reply, "id"@) == get(
                request,
                "id"@,
            ),
            Answer::Tool { id, .. } => get(request, "id"@) == Some(id),
        },
{
    reveal_strlit("id");
    reveal_strlit("result");
    reveal_strlit("error");
    assert("result"@ != "id"@ && "error"@ != "id"@) by {
        assert("result"@.len() == 6 && "error"@.len() == 5 && "id"@.len() == 2);
    }
    assert forall|id: Data, result: Data| get(#[trigger] result_message(id, result), "id"@) == Some(
        id,
    ) by {
        lemma_message_id(id, "result"@, result);
    }
    assert forall|id: Data, code: int, message: Seq<char>|
        get(#[trigger] error_message(id, code, message), "id"@) == Some(id) by {
        lemma_message_id(
            id,
            "error"@,
            object().with("code"@, Data::Int(code)).with("message"@, Data::Text(message)),
        );
    }
}

/// What came back on a request to the service.
#[derive(Debug)]
pub enum ApiReply {
    Value(Json),
    /// The answer is no JSON, for the reason given.
    InvalidJson(String),
    /// The service refused, with a status and, if it is JSON, what it said.
    Refused(u16, Option<Json>),
    /// No answer came, for the reason given.
    Failed(String),
}

/// The value or the message in what came back.
pub open spec fn reply_result(reply: ApiReply) -> Result<Data, Seq<char>> {
    match reply {
        ApiReply::Value(j) => Ok(data_of(j)),
        ApiReply::InvalidJson(e) => Err("Lux returned invalid JSON: "@ + e@),
        ApiReply::Refused(status, body) => match body {
            Some(j) => match text_in(at(data_of(j), "error"@)) {
                Some(message) => Err(message),
                None => Err("Lux API request failed"@),
            },
            None => Err("HTTP "@ + decimal(status as nat)),
        },
        ApiReply::Failed(e) => Err("Lux API request failed: "@ + e@),
    }
}

/// The value or the message in what came back.
pub fn api_result(reply: ApiReply) -> (r: Result<Json, String>)
    ensures
        match r {
            Ok(j) => reply_result(reply) == Ok::<Data, Seq<char>>(data_of(j)),
            Err(e) => reply_result(reply) == Err::<Data, Seq<char>>(e@),
        },
{
    match reply {
        ApiReply::Value(j) => Ok(j),
        ApiReply::InvalidJson(e) => {
            let mut out = "Lux returned invalid JSON: ".to_owned();
            out.append(e.as_str());
            Err(out)
        },
        ApiReply::Refused(status, body) => match body {
            Some(j) => match j.text_at("error") {
                Some(message) => Err(message.to_owned()),
                None => Err("Lux API request failed".to_owned()),
            },
            None => {
                let mut out = "HTTP ".to_owned();
                push_u64(&mut out, status as u64);
                Err(out)
            },
        },
        ApiReply::Failed(e) => {
            let mut out = "Lux API request failed: ".to_owned();
            out.append(e.as_str());
            Err(out)
        },
    }
}

/// What a tool hands back for the outcome of its request, and whether that is
/// an error.
pub open spec fn outcome_value(outcome: Result<Data, Seq<char>>) -> (Data, bool) {
    match outcome {
        Ok(d) => (d, false),
        Err(e) => (object().with("error"@, Data::Text(e)), true),
    }
}

/// What a client is told of the outcome of a tool: the value, and as text how
/// it is written.
pub open spec fn told(value: Data, text: Seq<char>, is_error: bool) -> Data {
    object()
        .with(
            "content"@,
            list().and(object().with("type"@, Data::Text("text"@)).with("text"@, Data::Text(text))),
        )
        .with("structuredContent"@, value)
        .with("isError"@, Data::Bool(is_error))
}

/// What a client is told of a value that is written as `text`.
pub fn tell(value: Json, text: &str, is_error: bool) -> (r: Json)
    ensures
        data_of(r) == told(data_of(value), text@, is_error),
{
    Json::object()
        .with(
            "content",
            Json::list()
                .and(Json::object().with("type", Json::text("text")).with("text", Json::text(text))),
        )
        .with("structuredContent", value)
        .with("isError", Json::Bool(is_error))
}

/// What a client is told of the outcome of a tool.
pub fn tool_result(value: Json, is_error: bool) -> (r: Json)
    ensures
        data_of(r) == told(data_of(value), pretty_of(data_of(value)), is_error),
{
    let text = pretty(&value);
    tell(value, text.as_str(), is_error)
}

/// What a client is told of a call whose request had this outcome.
pub fn call_tool(outcome: Result<Json, String>) -> (r: Json)
    ensures
        ({
            let (value, is_error) = outcome_value(
                match outcome {
                    Ok(j) => Ok(data_of(j)),
                    Err(e) => Err(e@),
                },
            );
            data_of(r) == told(value, pretty_of(value), is_error)
        }),
{
    match outcome {
        Ok(j) => tool_result(j, false),
        Err(e) => tool_result(Json::object().with("error", Json::Text(e)), true),
    }
}

/// What follows on a line that was read as a request, or that is no JSON for the
/// reason given.
pub open spec fn line_read(read: Result<Data, Seq<char>>) -> Answer {
    match read {
        Ok(request) => handled(request),
        Err(e) => Answer::Reply(error_message(Data::Null, -32700, "Parse error: "@ + e)),
    }
}

/// What follows on a line that was read as a request, or that is no JSON for the
/// reason given.
pub fn answer_read(read: Result<Json, String>) -> (r: Handled)
    ensures
        answer_of(r) == line_read(
            match read {
                Ok(j) => Ok(data_of(j)),
                Err(e) => Err(e@),
            },
        ),
{
    match read {
        Ok(request) => handle_request(&request),
        Err(e) => {
            let mut message = "Parse error: ".to_owned();
            message.append(e.as_str());
            Handled::Reply(rpc_error(Json::Null, -32700, message.as_str()))
        },
    }
}

/// What follows on a line: nothing on a blank one.
pub fn answer_line(line: &str) -> (r: Handled)
    ensures
        answer_of(r) == if trimmed(line@).len() == 0 {
            Answer::Ignored
        } else {
            line_read(reading(line@))
        },
{
    if trim(line).as_str().unicode_len() == 0 {
        return Handled::Ignored;
    }
    answer_read(read_json(line))
}

/// The line that a message is sent as.
pub fn message_line(message: &Json) -> (r: String)
    ensures
        r@ == flat(settled(data_of(*message))) + "\n"@,
{
    let mut line = plain(message);
    line.append("\n");
    line
}

/// Where reading the arguments of the program stands.
pub struct Start {
    pub explicit: Option<Seq<char>>,
    pub port: int,
}

/// What the arguments from `i` on add, or why they are refused.
pub open spec fn started(args: Seq<Seq<char>>, start: Start) -> Result<Start, Seq<char>>
    decreases args.len(),
{
    if args.len() == 0 {
        Ok(start)
    } else if args[0] == "--server"@ {
        if args.len() == 1 {
            Err("Missing value for --server"@)
        } else {
            started(args.skip(2), Start { explicit: Some(args[1]), port: start.port })
        }
    } else if args[0] == "--port"@ {
        if args.len() == 1 {
            Err("Missing value for --port"@)
        } else {
            match within(number(args[1], false), 0, u16::MAX as int) {
                Some(port) => started(args.skip(2), Start { explicit: start.explicit, port }),
                None => Err("Invalid port: "@ + args[1]),
            }
        }
    } else {
        Err("Unknown option: "@ + args[0])
    }
}

/// The URL of the service that the arguments of the program name.
pub open spec fn server_url(args: Seq<Seq<char>>) -> Result<Seq<char>, Seq<char>> {
    match started(args, Start { explicit: None, port: 4002 }) {
        Ok(start) => Ok(
            match start.explicit {
                Some(url) => url,
                None => "http://127.0.0.1:"@ + decimal(start.port as nat),
            },
        ),
        Err(e) => Err(e),
    }
}

/// The URL of the service that the arguments of the program name, or why they
/// are refused.
pub fn parse_server_url(args: &Vec<String>) -> (r: Result<String, String>)
    ensures
        match r {
            Ok(url) => server_url(texts(args@)) == Ok::<Seq<char>, Seq<char>>(url@),
            Err(e) => server_url(texts(args@)) == Err::<Seq<char>, Seq<char>>(e@),
        },
{
    let ghost all = texts(args@);
    let mut explicit: Option<String> = None;
    let mut port: u16 = 4002;
    let mut i: usize = 0;
    assert(all.skip(0) =~= all);
    while i < args.len()
        invariant
            i <= args@.len(),
            all == texts(args@),
            started(all, Start { explicit: None, port: 4002 }) == started(
                all.skip(i as int),
                (Start { explicit: crate::names::text_of(explicit), port: port as int }),
            ),
        decreases args@.len() - i,
    {
        let ghost rest = all.skip(i as int);
        assert(rest[0] == args@[i as int]@);
        if same(args[i].as_str(), "--server") {
            if i + 1 >= args.len() {
                return Err("Missing value for --server".to_owned());
            }
            assert(rest[1] == args@[i + 1]@);
            explicit = Some(args[i + 1].clone());
        } else if same(args[i].as_str(), "--port") {
            if i + 1 >= args.len() {
                return Err("Missing value for --port".to_owned());
            }
            assert(rest[1] == args@[i + 1]@);
            match parse_u16(args[i + 1].as_str()) {
                Some(n) => {
                    port = n;
                },
                None => {
                    let mut out = "Invalid port: ".to_owned();
                    out.append(args[i + 1].as_str());
                    return Err(out);
                },
            }
        } else {
            let mut out = "Unknown option: ".to_owned();
            out.append(args[i].as_str());
            return Err(out);
        }
        assert(rest.skip(2) =~= all.skip(i as int + 2));
        i = i + 2;
    }
    match explicit {
        Some(url) => Ok(url),
        None => Ok(crate::service::default_server_url(port)),
    }
}

} // verus!
