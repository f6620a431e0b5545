use lux::json::Json;
use lux::mcp::ApiReply;
use lux::repl::process_repl_line;
use lux::repl_answer::{
    current_namespace_generation, on_paste, on_resource, on_response, on_value, on_written,
};
use lux::repl_print::{entry_is_whole, print_compile_response};
use lux::repl_state::{
    ensure_service_available, parse_arguments, paste_line, pasted_text, print_help, print_prompt,
    request_json, strip_bracketed_paste_markers, Next, Pasted, ReplControl, ReplState,
};

fn asked(state: &mut ReplState, line: &str) -> (bool, String, Json, Next) {
    match process_repl_line(state, line).unwrap() {
        ReplControl::Request { call, next } => {
            let body = call.body.as_ref().map(|b| b.dup()).unwrap_or(Json::Null);
            (call.post, call.path, body, next)
        }
        other => panic!("{other:?}"),
    }
}

fn said(state: &mut ReplState, line: &str) -> Vec<String> {
    assert!(matches!(process_repl_line(state, line).unwrap(), ReplControl::Continue));
    state.take_output()
}

fn refused(state: &mut ReplState, line: &str) -> String {
    process_repl_line(state, line).err().unwrap()
}

#[test]
fn blank_repl_line_is_ignored() {
    let mut state = ReplState::default();
    let control = process_repl_line(&mut state, "   ").unwrap();
    assert!(matches!(control, ReplControl::Continue));
    assert!(state.output.is_empty());
}

#[test]
fn bracketed_paste_markers_are_stripped() {
    assert_eq!(
        strip_bracketed_paste_markers("\u{1b}[200~:namespace warmtest\u{1b}[201~"),
        ":namespace warmtest"
    );
}

#[test]
fn a_namespace_starts_over() {
    let mut state = ReplState::default();
    state.generation = Some(3);
    state.symbol_revision_id = Some("r".to_string());
    state.capabilities.push("net".to_string());
    state.draft = Some("x".to_string());
    assert_eq!(said(&mut state, ":namespace demo"), vec!["namespace = demo".to_string()]);
    assert_eq!(state.namespace, "demo");
    assert_eq!(state.generation, None);
    assert_eq!(state.symbol_revision_id, None);
    assert_eq!(state.draft, None);
    assert!(state.capabilities.is_empty());
    assert_eq!(refused(&mut state, ":namespace"), "Usage: :namespace <name>");
}

#[test]
fn symbols_are_asked_for_by_generation() {
    let mut state = ReplState::default();
    let (post, path, _, next) = asked(&mut state, ":symbols 7");
    assert!(!post);
    assert_eq!(path, "/symbols?namespace=repl&generation=7");
    assert!(matches!(next, Next::Symbols));
    assert_eq!(refused(&mut state, ":symbols x"), "Usage: :symbols [generation]");
}

#[test]
fn a_symbol_is_a_function_or_a_type() {
    let mut state = ReplState::default();
    assert_eq!(
        said(&mut state, ":symbol type Shape"),
        vec!["symbol = type/Shape (use :load for an existing symbol or :paste to create it)".to_string()]
    );
    assert_eq!(
        refused(&mut state, ":symbol enum Shape"),
        "Symbol kind must be function or type"
    );
    said(&mut state, ":symbol function fib 1");
    assert_eq!(state.symbol, "fib");
}

#[test]
fn a_symbol_is_loaded_and_saved() {
    let mut state = ReplState::default();
    let (_, path, _, next) = asked(&mut state, ":load");
    assert_eq!(path, "/namespaces");
    let listed = Json::object().with(
        "namespaces",
        Json::list().and(
            Json::object().with("name", Json::text("repl")).with("current_generation", Json::Int(9)),
        ),
    );
    assert_eq!(current_namespace_generation(&state, &listed), 9);
    let next = match on_response(&mut state, next, &listed).unwrap() {
        ReplControl::Request { call, next } => {
            assert_eq!(call.path, "/symbol?namespace=repl&kind=function&symbol=main");
            next
        }
        other => panic!("{other:?}"),
    };
    assert_eq!(state.generation, Some(9));
    let answer = Json::object().with(
        "symbol",
        Json::object()
            .with("revision_id", Json::text("r1"))
            .with("source", Json::text("fn main() { 1 }"))
            .with("sandbox", Json::Bool(false))
            .with("capabilities", Json::list().and(Json::text("net"))),
    );
    on_response(&mut state, next, &answer).unwrap();
    assert_eq!(state.take_output(), vec!["loaded repl/function/main revision r1".to_string()]);
    assert_eq!(state.draft, Some("fn main() { 1 }".to_string()));
    assert!(!state.sandbox);
    assert_eq!(state.capabilities, vec!["net".to_string()]);
    let (post, path, body, next) = asked(&mut state, ":save");
    assert!(post);
    assert_eq!(path, "/symbols/put");
    assert_eq!(body.text_at("source"), Some("fn main() { 1 }"));
    assert_eq!(body.int_at("expected_generation"), Some(9));
    assert_eq!(body.text_at("expected_revision_id"), Some("r1"));
    let answer = Json::object()
        .with("generation", Json::Int(10))
        .with("snapshot_id", Json::Int(4))
        .with("symbol", Json::object().with("revision_id", Json::text("r2")));
    on_response(&mut state, next, &answer).unwrap();
    assert_eq!(
        state.take_output(),
        vec!["published repl/function/main generation=10 revision=r2 snapshot=4".to_string()]
    );
}

#[test]
fn a_symbol_without_revision_is_not_loaded() {
    let mut state = ReplState::default();
    let answer = Json::object().with("symbol", Json::object());
    assert_eq!(
        on_response(&mut state, Next::LoadSymbol, &answer).err().unwrap(),
        "Symbol response missing revision_id"
    );
}

#[test]
fn nothing_is_saved_without_a_draft() {
    let mut state = ReplState::default();
    assert_eq!(refused(&mut state, ":save"), "No symbol draft. Use :paste first.");
}

#[test]
fn capabilities_are_kept_sorted_and_once() {
    let mut state = ReplState::default();
    state.sandbox = false;
    said(&mut state, ":grant net");
    said(&mut state, ":grant disk");
    said(&mut state, ":grant net");
    assert_eq!(state.capabilities, vec!["disk".to_string(), "net".to_string()]);
    assert!(state.sandbox);
    assert_eq!(
        said(&mut state, ":revoke disk"),
        vec!["revoked disk (takes effect on :save)".to_string()]
    );
    assert_eq!(said(&mut state, ":capabilities"), vec!["net".to_string()]);
    said(&mut state, ":revoke net");
    assert_eq!(said(&mut state, ":capabilities"), vec!["capabilities = []".to_string()]);
}

#[test]
fn a_grant_and_its_revoke_leave_the_rest() {
    let mut state = ReplState::default();
    state.capabilities = vec!["disk".to_string(), "net".to_string()];
    said(&mut state, ":grant mail");
    assert_eq!(state.capabilities, vec!["disk".to_string(), "mail".to_string(), "net".to_string()]);
    assert!(state.sandbox);
    said(&mut state, ":revoke mail");
    assert_eq!(state.capabilities, vec!["disk".to_string(), "net".to_string()]);
    said(&mut state, ":grant net");
    said(&mut state, ":revoke net");
    assert_eq!(state.capabilities, vec!["disk".to_string()]);
}

#[test]
fn a_pasted_text_becomes_the_draft() {
    let mut state = ReplState::default();
    match process_repl_line(&mut state, ":paste").unwrap() {
        ReplControl::Paste(p) => {
            on_paste(&mut state, p, "fn f() { 1 }").unwrap();
        }
        other => panic!("{other:?}"),
    }
    assert_eq!(
        state.take_output(),
        vec!["paste mode; end with :end".to_string(), "stored draft".to_string()]
    );
    assert_eq!(said(&mut state, ":show"), vec!["fn f() { 1 }".to_string()]);
    said(&mut state, ":clear");
    assert_eq!(said(&mut state, ":show"), vec!["draft is empty".to_string()]);
}

#[test]
fn an_edit_replaces_a_range() {
    let mut state = ReplState::default();
    assert_eq!(
        refused(&mut state, ":legacy-edit 1 2"),
        "No saved revision. Use :save first."
    );
    assert_eq!(refused(&mut state, ":legacy-edit x 2"), "Edit start must be a byte offset");
    state.revision_id = Some("r".to_string());
    let pasted = match process_repl_line(&mut state, ":legacy-edit 1 2").unwrap() {
        ReplControl::Paste(p) => p,
        other => panic!("{other:?}"),
    };
    assert!(matches!(&pasted, Pasted::Edit { start: 1, end: 2, .. }));
    match on_paste(&mut state, pasted, "new").unwrap() {
        ReplControl::Request { call, .. } => {
            assert_eq!(call.path, "/changesets/edit");
            let body = call.body.unwrap();
            let edit = &body.list_at("edits").unwrap()[0];
            assert_eq!(edit.count_at("start"), Some(1));
            assert_eq!(edit.text_at("replacement"), Some("new"));
        }
        other => panic!("{other:?}"),
    }
}

#[test]
fn a_resource_is_put_over_the_one_that_is_there() {
    let mut state = ReplState::default();
    let control = on_resource(
        &mut state,
        "db".to_string(),
        "secret/json".to_string(),
        "1\n",
    );
    let next = match control.unwrap() {
        ReplControl::Request { call, next } => {
            assert_eq!(call.path, "/resources?namespace=repl");
            next
        }
        other => panic!("{other:?}"),
    };
    let listed = Json::object().with(
        "resources",
        Json::list().and(
            Json::object().with("name", Json::text("db")).with("resource_id", Json::text("id1")),
        ),
    );
    match on_response(&mut state, next, &listed).unwrap() {
        ReplControl::Request { call, .. } => {
            let body = call.body.unwrap();
            assert_eq!(body.text_at("expected_resource_id"), Some("id1"));
            assert_eq!(body.int_at("value"), Some(1));
        }
        other => panic!("{other:?}"),
    }
    assert_eq!(
        on_value(&mut state, "a".to_string(), "b".to_string(), Err("oops".to_string())).err().unwrap(),
        "Invalid resource JSON: oops"
    );
}

#[test]
fn a_bare_line_is_evaluated_in_a_snapshot() {
    let mut state = ReplState::default();
    assert_eq!(
        refused(&mut state, "1 + 1"),
        "No snapshot selected. Use :snapshot-create or :snapshot before evaluating expressions."
    );
    said(&mut state, ":snapshot 5");
    let (post, path, body, next) = asked(&mut state, "1 + 1");
    assert!(post);
    assert_eq!(path, "/eval");
    assert_eq!(body.text_at("source"), Some("fn main() { 1 + 1 }"));
    assert_eq!(body.get("limits").unwrap().count_at("timeout_ms"), Some(5000));
    let answer =
        Json::object().with("stdout", Json::text("2")).with("beam_time_us", Json::Int(12));
    on_response(&mut state, next, &answer).unwrap();
    assert_eq!(state.take_output(), vec!["2".to_string(), "beam_time_us=12".to_string()]);
}

#[test]
fn a_run_names_its_target() {
    let mut state = ReplState::default();
    assert_eq!(
        refused(&mut state, ":run main"),
        "No snapshot selected. Use :snapshot or :snapshot-create."
    );
    state.snapshot_id = Some(2);
    let (_, path, body, _) = asked(&mut state, ":run main a b");
    assert_eq!(path, "/run");
    assert_eq!(body.text_at("target"), Some("main"));
    assert_eq!(body.list_at("args").unwrap().len(), 2);
    assert_eq!(refused(&mut state, ":run"), "Usage: :run <symbol|hash> [args ...]");
}

#[test]
fn limits_take_two_numbers() {
    let mut state = ReplState::default();
    assert_eq!(
        said(&mut state, ":limits"),
        vec!["limits timeout_ms=5000 output_limit_bytes=65536".to_string()]
    );
    assert_eq!(
        said(&mut state, ":limits 10 20"),
        vec!["limits timeout_ms=10 output_limit_bytes=20".to_string()]
    );
    assert_eq!(refused(&mut state, ":limits 10"), "Usage: :limits <timeout_ms> <output_limit_bytes>");
    assert_eq!(refused(&mut state, ":limits x 1"), "Invalid timeout_ms");
    assert_eq!(refused(&mut state, ":limits 1 x"), "Invalid output_limit_bytes");
}

#[test]
fn a_failed_second_limit_leaves_the_first() {
    let mut state = ReplState::default();
    refused(&mut state, ":limits 77 x");
    assert_eq!(state.timeout_ms, 77);
    assert_eq!(state.output_limit_bytes, 65536);
}

#[test]
fn the_sandbox_is_on_or_off() {
    let mut state = ReplState::default();
    assert_eq!(said(&mut state, ":sandbox"), vec!["sandbox = true".to_string()]);
    assert_eq!(said(&mut state, ":sandbox off"), vec!["sandbox = false".to_string()]);
    assert_eq!(refused(&mut state, ":sandbox maybe"), "Usage: :sandbox on|off");
}

#[test]
fn quitting_and_unknown_commands() {
    let mut state = ReplState::default();
    assert!(matches!(process_repl_line(&mut state, ":q").unwrap(), ReplControl::Exit));
    assert!(matches!(process_repl_line(&mut state, ":quit").unwrap(), ReplControl::Exit));
    assert_eq!(refused(&mut state, ":bogus 1"), "Unknown command: :bogus");
    assert_eq!(said(&mut state, ":help"), print_help());
}

#[test]
fn a_snapshot_is_created_for_the_namespace() {
    let mut state = ReplState::default();
    let (_, path, body, next) = asked(&mut state, ":snapshot-create");
    assert_eq!(path, "/snapshot");
    assert!(matches!(body.get("generation"), Some(Json::Null)));
    let answer = Json::object().with("snapshot_id", Json::Int(8));
    on_response(&mut state, next, &answer).unwrap();
    assert_eq!(state.take_output(), vec!["created snapshot 8 for repl".to_string()]);
    assert_eq!(state.snapshot_id, Some(8));
    assert_eq!(
        on_response(&mut state, Next::SnapshotCreated, &Json::object()).err().unwrap(),
        "Snapshot response missing snapshot_id"
    );
}

#[test]
fn pasted_lines_end_with_an_end() {
    let mut lines = Vec::new();
    assert!(!paste_line(&mut lines, "a  \n"));
    assert!(!paste_line(&mut lines, "  b\n"));
    assert!(paste_line(&mut lines, ":end\n"));
    assert_eq!(pasted_text(&lines), "a\n  b");
}

#[test]
fn the_prompt_tells_where_one_is() {
    let mut state = ReplState::default();
    state.namespace = "demo".to_string();
    assert!(print_prompt(&state).contains("demo"));
}

#[test]
fn the_service_has_to_be_healthy() {
    let ok = Json::object().with("status", Json::text("ok"));
    assert_eq!(ensure_service_available("http://h/", &ok), Ok(()));
    assert_eq!(
        ensure_service_available("http://h/", &Json::object()),
        Err("Service at http://h is not healthy".to_string())
    );
}

#[test]
fn a_refusal_tells_what_the_service_said() {
    let j = Json::object().with("error", Json::text("no"));
    let e = request_json(ApiReply::Refused(409, Some(j))).err().unwrap();
    assert!(e.contains("no"), "{e}");
    assert_eq!(request_json(ApiReply::Value(Json::Int(1))).unwrap().as_int(), Some(1));
}

#[test]
fn arguments_choose_server_and_namespace() {
    let args = |v: &[&str]| v.iter().map(|s| s.to_string()).collect::<Vec<_>>();
    let s = parse_arguments(&args(&["--port", "5001", "--namespace", "demo"])).unwrap();
    assert_eq!(s.server_url, "http://127.0.0.1:5001");
    assert_eq!(s.namespace, "demo");
    let s = parse_arguments(&args(&["--server", "http://h"])).unwrap();
    assert_eq!(s.server_url, "http://h");
    assert_eq!(
        parse_arguments(&args(&["--port"])).err().unwrap(),
        "Missing value for --port"
    );
    assert_eq!(
        parse_arguments(&args(&["--port", "99999"])).err().unwrap(),
        "Invalid port: 99999"
    );
    assert_eq!(parse_arguments(&args(&["-x"])).err().unwrap(), "Unknown option: -x");
}

#[test]
fn a_compiled_entry_is_told_if_it_is_whole() {
    let no_entry = Json::object();
    assert!(entry_is_whole(&no_entry));
    let half = Json::object().with("entry", Json::object().with("symbol", Json::text("main")));
    assert!(!entry_is_whole(&half));
    assert!(!print_compile_response(&no_entry).is_empty());
}

#[test]
fn a_pasted_resource_has_to_be_json() {
    let mut state = ReplState::default();
    assert_eq!(
        on_resource(&mut state, "a".to_string(), "b".to_string(), "{").err().unwrap(),
        "Invalid resource JSON: EOF while parsing an object at line 1 column 1"
    );
}

#[test]
fn an_answer_is_shown_as_it_is_written() {
    let mut state = ReplState::default();
    let answer = Json::object().with("a", Json::Int(1));
    on_response(&mut state, Next::Show, &answer).unwrap();
    assert_eq!(state.take_output(), vec!["{\n  \"a\": 1\n}".to_string()]);
    on_written(&mut state, Next::Show, &answer, "text").unwrap();
    assert_eq!(state.take_output(), vec!["text".to_string()]);
}
