//! How a native program is linked.
use vstd::prelude::*;
use crate::runtime::NativeError;
use crate::text::{decimal_int, push_i64, texts};

verus! {

/// The file that the object code is written to for linking.
pub const OBJECT_FILE: &'static str = "_lux_native.o";

/// The file that the source of the runtime is written to for linking.
pub const RUNTIME_FILE: &'static str = "_lux_runtime.c";

/// What the C compiler is given to compile the runtime and link it with the
/// object code.
pub fn link_arguments(out_path: &str, runtime_path: &str, object_path: &str) -> (r: Vec<String>)
    ensures
        texts(r@) == seq![
            "-o"@,
            out_path@,
            runtime_path@,
            object_path@,
            "-lm"@,
            "-no-pie"@,
        ],
{
    let mut out: Vec<String> = Vec::new();
    out.push("-o".to_owned());
    out.push(out_path.to_owned());
    out.push(runtime_path.to_owned());
    out.push(object_path.to_owned());
    out.push("-lm".to_owned());
    out.push("-no-pie".to_owned());
    assert(texts(out@) =~= seq![
        "-o"@,
        out_path@,
        runtime_path@,
        object_path@,
        "-lm"@,
        "-no-pie"@,
    ]);
    out
}

/// What is said of a linker that failed. One that a signal ended has no code.
pub open spec fn link_failure(code: Option<i32>) -> Seq<char> {
    match code {
        Some(n) => "linker (cc) failed with exit code: Some("@ + decimal_int(n as int) + ")"@,
        None => "linker (cc) failed with exit code: None"@,
    }
}

/// Whether linking succeeded, by the exit code of the C compiler.
pub fn link_result(code: Option<i32>) -> (r: Result<(), NativeError>)
    ensures
        r is Ok <==> code == Some(0i32),
        r matches Err(e) ==> e matches NativeError::Message(m) && m@ == link_failure(code),
{
    match code {
        Some(n) => if n == 0 {
            Ok(())
        } else {
            let mut out = "linker (cc) failed with exit code: Some(".to_owned();
            push_i64(&mut out, n as i64);
            out.append(")");
            Err(NativeError::Message(out))
        },
        None => Err(
            NativeError::Message("linker (cc) failed with exit code: None".to_owned()),
        ),
    }
}

} // verus!
