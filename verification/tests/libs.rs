use lux::libs::{candidates, join_path, pick, FsProvider};
use lux::link::{link_arguments, link_result, OBJECT_FILE, RUNTIME_FILE};
use lux::runtime::NativeError;

#[test]
fn paths_are_joined() {
    assert_eq!(join_path("", "a"), "a");
    assert_eq!(join_path("d", "a"), "d/a");
    assert_eq!(join_path("d/", "a"), "d/a");
    assert_eq!(join_path("d", "/a"), "/a");
}

#[test]
fn a_use_is_looked_for_near_the_file_first() {
    assert_eq!(
        candidates("list", "p", "s"),
        vec![
            "p/list.lux",
            "p/lib/list.lux",
            "p/../lib/list.lux",
            "s/lib/list.lux",
            "s/examples/list.lux",
            "s/stdlib/list.lux",
        ]
    );
}

#[test]
fn the_file_itself_is_left_out() {
    let found = vec![None, Some("/p/list.lux".to_string()), Some("/s/list.lux".to_string())];
    assert_eq!(pick(&found, Some("/p/list.lux")), Some(2));
    assert_eq!(pick(&found, None), Some(1));
    assert_eq!(pick(&vec![None], None), None);
}

#[test]
fn the_program_has_the_outermost_uses() {
    let p = FsProvider::for_program("main.lux");
    assert_eq!(p.includer(None), "main.lux");
    assert_eq!(p.includer(Some("lib/a.lux")), "lib/a.lux");
}

#[test]
fn linking_goes_by_the_exit_code() {
    assert_eq!(
        link_arguments("out", RUNTIME_FILE, OBJECT_FILE),
        vec!["-o", "out", "_lux_runtime.c", "_lux_native.o", "-lm", "-no-pie"]
    );
    assert!(link_result(Some(0)).is_ok());
    let message = |code| match link_result(code) {
        Err(NativeError::Message(m)) => m,
        _ => panic!(),
    };
    assert_eq!(message(Some(1)), "linker (cc) failed with exit code: Some(1)");
    assert_eq!(message(None), "linker (cc) failed with exit code: None");
}
