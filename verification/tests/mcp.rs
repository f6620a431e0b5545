use lux::json::Json;
use lux::mcp::{
    answer_line, api_result, call_tool, handle_request, message_line, negotiate, parse_server_url, required_i64, rpc_error,
    tool_definitions, tell, tool_result, try_call_tool, ApiCall, ApiReply, Handled,
};

fn at<'a>(j: &'a Json, path: &[&str]) -> &'a Json {
    let mut j = j;
    for p in path {
        j = j.get(p).unwrap();
    }
    j
}

fn request(method: &str, params: Json) -> Json {
    Json::object()
        .with("jsonrpc", Json::text("2.0"))
        .with("id", Json::Int(1))
        .with("method", Json::text(method))
        .with("params", params)
}

fn reply(r: &Json) -> Json {
    match handle_request(r) {
        Handled::Reply(j) => j,
        _ => panic!("no reply"),
    }
}

#[test]
fn initialize_negotiates_a_supported_protocol() {
    let response = reply(&request(
        "initialize",
        Json::object().with("protocolVersion", Json::text("2025-06-18")),
    ));
    assert_eq!(at(&response, &["result", "protocolVersion"]).as_text(), Some("2025-06-18"));
    assert_eq!(
        at(&response, &["result", "capabilities", "tools"]).bool_at("listChanged"),
        Some(false)
    );
    assert_eq!(response.text_at("jsonrpc"), Some("2.0"));
    assert_eq!(response.int_at("id"), Some(1));
}

#[test]
fn tools_do_not_expose_secret_reveal() {
    let names = tool_definitions()
        .into_iter()
        .map(|tool| tool.text_at("name").unwrap().to_string())
        .collect::<Vec<_>>();
    assert!(names.contains(&"lux.list_symbols".to_string()));
    assert!(names.contains(&"lux.get_symbol".to_string()));
    assert!(names.contains(&"lux.put_symbol".to_string()));
    assert!(!names.contains(&"lux.edit_changeset".to_string()));
    assert!(names.contains(&"lux.diff_namespace".to_string()));
    assert!(names.contains(&"lux.put_resource".to_string()));
    assert!(names.contains(&"lux.get_resource".to_string()));
    assert!(!names.iter().any(|name| name.contains("read_resource")));
}

#[test]
fn invalid_tool_arguments_are_reported_as_tool_errors() {
    let plan = try_call_tool("lux.get_namespace", Json::object());
    let result = call_tool(plan.map(|_| Json::Null));
    assert_eq!(result.bool_at("isError"), Some(true));
    assert_eq!(
        at(&result, &["structuredContent", "error"]).as_text(),
        Some("Missing or invalid argument: namespace")
    );
}

#[test]
fn an_unknown_protocol_gets_the_latest() {
    let latest = negotiate(None);
    assert_eq!(negotiate(Some("1999-01-01")), latest);
    assert_eq!(negotiate(Some("2024-11-05")), "2024-11-05");
}

#[test]
fn a_notification_gets_no_reply() {
    let note = Json::object()
        .with("jsonrpc", Json::text("2.0"))
        .with("method", Json::text("notifications/initialized"));
    assert!(matches!(handle_request(&note), Handled::Ignored));
}

#[test]
fn an_unknown_method_is_refused() {
    let response = reply(&request("nope", Json::object()));
    assert_eq!(at(&response, &["error"]).int_at("code"), Some(-32601));
}

#[test]
fn a_ping_is_answered() {
    let response = reply(&request("ping", Json::object()));
    assert!(matches!(at(&response, &["result"]), Json::Object(v) if v.is_empty()));
}

#[test]
fn every_listed_tool_can_be_called() {
    let response = reply(&request("tools/list", Json::object()));
    let tools = at(&response, &["result"]).list_at("tools").unwrap();
    assert_eq!(tools.len(), tool_definitions().len());
    for t in tools {
        let name = t.text_at("name").unwrap();
        let outcome = try_call_tool(name, Json::object());
        if let Err(e) = outcome {
            assert!(e.starts_with("Missing or invalid argument: "), "{name}: {e}");
        }
    }
    assert_eq!(
        try_call_tool("lux.nope", Json::object()).err(),
        Some("Unknown tool: lux.nope".to_string())
    );
}

#[test]
fn a_tool_call_becomes_an_http_call() {
    let arguments = Json::object()
        .with("namespace", Json::text("demo"))
        .with("generation", Json::Int(3));
    let params = Json::object()
        .with("name", Json::text("lux.get_namespace"))
        .with("arguments", arguments);
    match handle_request(&request("tools/call", params)) {
        Handled::Tool { id, plan } => {
            assert_eq!(id.as_int(), Some(1));
            let call = plan.unwrap();
            assert!(!call.post);
            assert_eq!(
                call.url("http://localhost:4002"),
                "http://localhost:4002/namespaces/demo?generation=3"
            );
        }
        _ => panic!("no tool"),
    }
}

#[test]
fn the_url_has_one_slash_behind_the_server() {
    let call = ApiCall::get("/namespaces".to_string());
    assert_eq!(call.url("http://h:1//"), "http://h:1/namespaces");
}

#[test]
fn replies_become_results() {
    assert_eq!(api_result(ApiReply::Value(Json::Int(4))).unwrap().as_int(), Some(4));
    let refused = ApiReply::Refused(
        404,
        Some(Json::object().with("error", Json::text("no such thing"))),
    );
    let message = api_result(refused).err().unwrap();
    assert!(message.contains("no such thing"), "{message}");
    assert!(api_result(ApiReply::Refused(500, None)).err().unwrap().contains("500"));
}

#[test]
fn a_result_is_told_twice() {
    let r = call_tool(Ok(Json::object().with("x", Json::Int(1))));
    assert_eq!(r.bool_at("isError"), Some(false));
    assert_eq!(at(&r, &["structuredContent"]).int_at("x"), Some(1));
    assert_eq!(r.list_at("content").unwrap()[0].text_at("text"), Some("{\n  \"x\": 1\n}"));
}

#[test]
fn numbers_are_required_as_numbers() {
    let j = Json::object().with("n", Json::text("1"));
    assert_eq!(required_i64(&j, "n"), Err("Missing or invalid argument: n".to_string()));
    let j = Json::object().with("n", Json::Int(-9));
    assert_eq!(required_i64(&j, "n"), Ok(-9));
}

#[test]
fn an_error_carries_its_code() {
    let e = rpc_error(Json::Null, -32700, "Parse error");
    assert_eq!(at(&e, &["error"]).int_at("code"), Some(-32700));
    assert_eq!(at(&e, &["error"]).text_at("message"), Some("Parse error"));
    assert!(matches!(e.get("id"), Some(Json::Null)));
}

#[test]
fn the_server_is_given_by_address_or_port() {
    let args = |v: &[&str]| v.iter().map(|s| s.to_string()).collect::<Vec<_>>();
    assert_eq!(parse_server_url(&args(&["--port", "5000"])), Ok("http://127.0.0.1:5000".to_string()));
    assert_eq!(
        parse_server_url(&args(&["--server", "http://h:1"])),
        Ok("http://h:1".to_string())
    );
    assert!(parse_server_url(&args(&["--bogus"])).is_err());
}

#[test]
fn a_line_that_is_no_json_is_answered_with_a_parse_error() {
    match answer_line("{nope") {
        Handled::Reply(reply) => {
            assert!(matches!(reply.get("id"), Some(Json::Null)));
            let error = at(&reply, &["error"]);
            assert_eq!(error.int_at("code"), Some(-32700));
            assert_eq!(
                error.text_at("message"),
                Some("Parse error: key must be a string at line 1 column 2")
            );
        }
        _ => panic!("no reply"),
    }
}

#[test]
fn a_blank_line_gets_no_answer() {
    assert!(matches!(answer_line("  \t "), Handled::Ignored));
    assert!(matches!(answer_line(""), Handled::Ignored));
}

#[test]
fn a_line_is_read_and_answered() {
    match answer_line("{\"id\": 7, \"method\": \"ping\"}\n") {
        Handled::Reply(reply) => {
            assert_eq!(message_line(&reply), "{\"id\":7,\"jsonrpc\":\"2.0\",\"result\":{}}\n");
        }
        _ => panic!("no reply"),
    }
}

#[test]
fn a_tool_result_is_told_with_its_text() {
    let told = tell(Json::Int(1), "one", true);
    assert_eq!(told.list_at("content").unwrap()[0].text_at("text"), Some("one"));
    let told = tool_result(Json::Int(1), true);
    assert_eq!(told.list_at("content").unwrap()[0].text_at("text"), Some("1"));
    assert_eq!(told.bool_at("isError"), Some(true));
}
