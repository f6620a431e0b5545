use lux::ast::{Expr, Function, Item, Module};
use lux::cli::{
    backend, build_metadata_json, job, json_escape, listing, manifest_text, package_name,
    print_compile_error, print_service_error, read_options, run_directory, usage,
    workspace_dir_from_env, yggdrasil_file, yggdrasil_manifest, Backend, CompileError,
    CompiledPackage, FunctionArtifact, Job, Options, SecurityError, ServiceError,
};
use lux::translate::FunctionModuleMetadata;

fn options(args: &[&str]) -> Result<Options, String> {
    let mut all = vec!["lux".to_string()];
    all.extend(args.iter().map(|a| a.to_string()));
    read_options(&all)
}

fn package(arity: usize) -> CompiledPackage {
    CompiledPackage {
        source_module: "example".to_string(),
        entry_module: Some("artifact_main".to_string()),
        entry_arity: Some(arity),
        artifacts: vec![FunctionArtifact {
            source_name: "main".to_string(),
            body_hash: "body_main".to_string(),
            abi_hash: "abi_main".to_string(),
            artifact_hash: "artifact_main".to_string(),
            build_key: "build_main".to_string(),
            arity,
            core_source: String::new(),
            dependencies: Vec::new(),
        }],
    }
}

#[test]
fn workspace_defaults_to_target_lux() {
    assert_eq!(workspace_dir_from_env(None), "target/lux");
}

#[test]
fn workspace_honors_lux_home_override() {
    assert_eq!(workspace_dir_from_env(Some("/tmp/lux-home".to_string())), "/tmp/lux-home");
}

#[test]
fn build_metadata_does_not_announce_symbol_arities() {
    let package = package(1);
    let metadata = build_metadata_json(&package);
    assert!(!metadata.contains("\"arity\""));
    assert!(metadata.contains("\"source_name\": \"main\""));
}

#[test]
fn metadata_is_the_same_for_another_arity() {
    assert_eq!(build_metadata_json(&package(1)), build_metadata_json(&package(3)));
}

#[test]
fn metadata_of_an_empty_package() {
    let p = CompiledPackage {
        source_module: "a\"b".to_string(),
        entry_module: None,
        entry_arity: None,
        artifacts: vec![],
    };
    assert_eq!(
        build_metadata_json(&p),
        "{\n  \"source_module\": \"a\\\"b\",\n  \"entry\": null,\n  \"functions\": [\n  ]\n}\n"
    );
}

#[test]
fn quotes_and_control_characters_are_escaped() {
    assert_eq!(json_escape("a\"b\\c\nd\re\tf"), "a\\\"b\\\\c\\nd\\re\\tf");
}

#[test]
fn a_file_is_compiled_by_default() {
    let o = options(&["a.lux"]).unwrap();
    assert!(matches!(job(&o).unwrap(), Job::File(f) if f == "a.lux"));
    assert_eq!(backend(&o), Ok(Backend::Beam));
    assert_eq!(job(&options(&[]).unwrap()).err().unwrap(), "No input file specified");
}

#[test]
fn backends_exclude_one_another() {
    let o = options(&["--native", "--yggdrasil", "a.lux"]).unwrap();
    assert_eq!(
        backend(&o),
        Err("--native and --yggdrasil select different backends and cannot be combined".to_string())
    );
    assert_eq!(backend(&options(&["--native", "a"]).unwrap()), Ok(Backend::Native));
    assert_eq!(backend(&options(&["--yggdrasil", "a"]).unwrap()), Ok(Backend::Yggdrasil));
    assert_eq!(backend(&options(&["--parse-only", "--native", "a"]).unwrap()), Ok(Backend::Listing));
}

#[test]
fn serving_has_an_address() {
    let o = options(&["--serve"]).unwrap();
    assert!(matches!(job(&o).unwrap(), Job::Serve(a) if a == "127.0.0.1:4002"));
    let o = options(&["--serve", "--port", "4010"]).unwrap();
    assert!(matches!(job(&o).unwrap(), Job::Serve(a) if a == "127.0.0.1:4010"));
    let o = options(&["--serve", "0.0.0.0:1"]).unwrap();
    assert!(matches!(job(&o).unwrap(), Job::Serve(a) if a == "0.0.0.0:1"));
}

#[test]
fn snapshots_and_runs_are_jobs() {
    let o = options(&["--snapshot", "demo", "3"]).unwrap();
    assert!(matches!(job(&o).unwrap(), Job::Snapshot { namespace, generation: Some(3) } if namespace == "demo"));
    let o = options(&["--run", "7", "main", "x"]).unwrap();
    match job(&o).unwrap() {
        Job::Run { snapshot_id, target, args } => {
            assert_eq!(snapshot_id, 7);
            assert_eq!(target, "main");
            assert_eq!(args, vec!["x".to_string()]);
        }
        other => panic!("{other:?}"),
    }
    let o = options(&["--run", "seven", "main"]).unwrap();
    assert_eq!(job(&o).err().unwrap(), "Invalid snapshot id: seven");
}

#[test]
fn unknown_options_are_refused() {
    assert_eq!(options(&["--bogus"]).err().unwrap(), "Unknown option: --bogus");
    assert_eq!(options(&["--port", "70000"]).err().unwrap(), "Invalid port: 70000");
    assert_eq!(usage()[0], "Usage: lux [options] <file.lux>");
}

#[test]
fn a_listing_tells_each_item() {
    let m = Module {
        name: None,
        items: vec![
            Item::Function(Function {
                name: "f".to_string(),
                type_params: vec![],
                params: vec![],
                return_type: None,
                body: Expr::Unit,
            }),
            Item::Enum { name: "Shape".to_string(), variants: 2 },
            Item::Struct { name: "P".to_string(), fields: 3 },
            Item::TypeAlias("T".to_string()),
            Item::Extern { abi: "erlang".to_string(), decls: 1 },
            Item::Use { module: "lists".to_string(), items: None },
            Item::Use {
                module: "lists".to_string(),
                items: Some(vec!["a".to_string(), "b".to_string()]),
            },
        ],
    };
    assert_eq!(
        listing(&m, "stem"),
        vec![
            "Parsed module: stem",
            "Items: 7",
            "  fn f/0",
            "  enum Shape (2 variants)",
            "  struct P (3 fields)",
            "  type T",
            "  extern \"erlang\" (1 decls)",
            "  use lists",
            "  use lists::{a, b}",
        ]
    );
}

#[test]
fn outputs_go_under_the_name_of_the_module() {
    assert_eq!(package_name("main", "stem"), "stem");
    assert_eq!(package_name("other", "stem"), "other");
    assert_eq!(run_directory(-3, "h"), "snapshot--3-h");
}

#[test]
fn errors_are_told() {
    let span = || "1:2".to_string();
    let m = || "net".to_string();
    let say = |e| print_compile_error(&e);
    assert_eq!(
        say(CompileError::Parse { span: span(), message: m() }),
        "Parse error at 1:2: net"
    );
    assert_eq!(say(CompileError::Type(m())), "Type error: net");
    assert_eq!(say(CompileError::Io(m())), "I/O error: net");
    assert_eq!(
        say(CompileError::Security(SecurityError::ExternDisallowed(span()))),
        "Security error at 1:2: external declarations are disabled in sandbox mode"
    );
    assert_eq!(
        say(CompileError::Security(SecurityError::ExternModuleDisallowed { module: m(), span: span() })),
        "Security error at 1:2: external module 'net' is not granted"
    );
    assert_eq!(
        say(CompileError::Security(SecurityError::ImportDisallowed { module: m(), span: span() })),
        "Security error at 1:2: import 'net' is not allowed in sandbox mode"
    );
    let tell = |e| print_service_error(&e);
    assert_eq!(tell(ServiceError::Compile(CompileError::Type(m()))), "Type error: net");
    assert_eq!(tell(ServiceError::Store(m())), "Store error: net");
    assert_eq!(tell(ServiceError::Io(m())), "I/O error: net");
    assert_eq!(tell(ServiceError::NoFunctions), "No functions to compile");
    assert_eq!(tell(ServiceError::MissingEntryPoint), "Compiled package has no main entry point");
    assert_eq!(tell(ServiceError::Timeout { timeout_ms: 5 }), "Execution timed out after 5 ms");
    assert_eq!(
        tell(ServiceError::OutputLimitExceeded { limit_bytes: 9 }),
        "Execution output exceeded 9 bytes"
    );
    assert_eq!(tell(ServiceError::Conflict(m())), "net");
    assert_eq!(tell(ServiceError::NotFound(m())), "net");
    assert_eq!(tell(ServiceError::InvalidRequest(m())), "net");
}

#[test]
fn a_manifest_lists_modules_and_aliases() {
    let meta = FunctionModuleMetadata {
        source_name: "main".to_string(),
        body_hash: String::new(),
        abi_hash: String::new(),
        module_name: "m1".to_string(),
        module_hash: String::new(),
        build_key: String::new(),
        arity: 2,
        dependencies: vec![],
    };
    let j = yggdrasil_manifest(&vec!["m1".to_string()], &Some("m1".to_string()), 2, &vec![meta]);
    assert_eq!(j.text_at("format"), Some("YGGM1"));
    assert_eq!(j.get("entry").unwrap().text_at("function"), Some("apply"));
    assert_eq!(j.list_at("modules").unwrap()[0].text_at("file"), Some("m1.yggm"));
    assert_eq!(j.list_at("aliases").unwrap()[0].int_at("arity"), Some(2));
    assert_eq!(yggdrasil_file("x"), "x.yggm");
}

#[test]
fn a_manifest_is_written_with_indentation() {
    assert_eq!(
        manifest_text(&Vec::new(), &None, 0, &Vec::new()),
        "{\n  \"aliases\": [],\n  \"entry\": null,\n  \"format\": \"YGGM1\",\n  \"modules\": []\n}"
    );
}
