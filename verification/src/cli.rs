//! What the compiler's command line asks for, and what is said on the way.
use vstd::prelude::*;
use crate::ast::{Item, Module};
use crate::json::{count, count_value, data_of, list_of, object, Data, Json};
use crate::json_text::{pretty, pretty_of};
use crate::names::text_of;
use crate::service::{parse_port, resolve_serve_addr};
use crate::text::{
    chars_of, decimal, decimal_int, dup_strings, join, joined, push_i64, push_u64, push_usize, same,
    texts,
};
use crate::translate::{metas_of, FunctionModuleMetadata, Meta};
use crate::words::{number, parse_i64, within};

verus! {

/// What the options say.
#[derive(Debug)]
pub struct Options {
    pub emit_core_only: bool,
    pub parse_only: bool,
    pub native_mode: bool,
    pub yggdrasil_mode: bool,
    pub sandbox: bool,
    pub publish_namespace: Option<String>,
    pub serve_requested: bool,
    pub explicit_serve_addr: Option<String>,
    pub serve_port: u16,
    pub snapshot_namespace: Option<String>,
    pub run_snapshot: Option<String>,
    pub run_target: Option<String>,
    pub positionals: Vec<String>,
}

/// The model of [`Options`].
pub struct Settings {
    pub emit_core_only: bool,
    pub parse_only: bool,
    pub native_mode: bool,
    pub yggdrasil_mode: bool,
    pub sandbox: bool,
    pub publish_namespace: Option<Seq<char>>,
    pub serve_requested: bool,
    pub explicit_serve_addr: Option<Seq<char>>,
    pub serve_port: int,
    pub snapshot_namespace: Option<Seq<char>>,
    pub run_snapshot: Option<Seq<char>>,
    pub run_target: Option<Seq<char>>,
    pub positionals: Seq<Seq<char>>,
}

/// What holds where no option says otherwise.
pub open spec fn no_options() -> Settings {
    Settings {
        emit_core_only: false,
        parse_only: false,
        native_mode: false,
        yggdrasil_mode: false,
        sandbox: false,
        publish_namespace: None,
        serve_requested: false,
        explicit_serve_addr: None,
        serve_port: 4002,
        snapshot_namespace: None,
        run_snapshot: None,
        run_target: None,
        positionals: Seq::empty(),
    }
}

impl Options {
    pub open spec fn model(self) -> Settings {
        Settings {
            emit_core_only: self.emit_core_only,
            parse_only: self.parse_only,
            native_mode: self.native_mode,
            yggdrasil_mode: self.yggdrasil_mode,
            sandbox: self.sandbox,
            publish_namespace: text_of(self.publish_namespace),
            serve_requested: self.serve_requested,
            explicit_serve_addr: text_of(self.explicit_serve_addr),
            serve_port: self.serve_port as int,
            snapshot_namespace: text_of(self.snapshot_namespace),
            run_snapshot: text_of(self.run_snapshot),
            run_target: text_of(self.run_target),
            positionals: texts(self.positionals@),
        }
    }

    fn new() -> (r: Options)
        ensures
            r.model() == no_options(),
    {
        let r = Options {
            emit_core_only: false,
            parse_only: false,
            native_mode: false,
            yggdrasil_mode: false,
            sandbox: false,
            publish_namespace: None,
            serve_requested: false,
            explicit_serve_addr: None,
            serve_port: 4002,
            snapshot_namespace: None,
            run_snapshot: None,
            run_target: None,
            positionals: Vec::new(),
        };
        assert(texts(r.positionals@) =~= Seq::empty());
        r
    }
}

/// The text at a place, if there is one.
pub open spec fn nth(args: Seq<Seq<char>>, i: int) -> Option<Seq<char>> {
    if 0 <= i < args.len() {
        Some(args[i])
    } else {
        None
    }
}

/// What is left behind the first texts.
pub open spec fn behind(args: Seq<Seq<char>>, n: int) -> Seq<Seq<char>> {
    if n <= args.len() {
        args.skip(n)
    } else {
        Seq::empty()
    }
}

/// Whether a text starts with a dash.
pub open spec fn dashed(s: Seq<char>) -> bool {
    s.len() > 0 && s[0] == '-'
}

fn starts_with_dash(s: &str) -> (r: bool)
    ensures
        r == dashed(s@),
{
    let v = chars_of(s);
    v.len() > 0 && v[0] == '-'
}

/// What the arguments add to the settings, or why they are refused. An option
/// that takes a value takes the next argument, whatever it is; the address of
/// `--serve` may be left out, and is then no argument with a dash.
pub open spec fn settings(args: Seq<Seq<char>>, o: Settings) -> Result<Settings, Seq<char>>
    decreases args.len(),
{
    if args.len() == 0 {
        Ok(o)
    } else if args[0] == "--emit-core"@ {
        settings(args.skip(1), Settings { emit_core_only: true, ..o })
    } else if args[0] == "--parse-only"@ {
        settings(args.skip(1), Settings { parse_only: true, ..o })
    } else if args[0] == "--native"@ {
        settings(args.skip(1), Settings { native_mode: true, ..o })
    } else if args[0] == "--yggdrasil"@ {
        settings(args.skip(1), Settings { yggdrasil_mode: true, ..o })
    } else if args[0] == "--sandbox"@ {
        settings(args.skip(1), Settings { sandbox: true, ..o })
    } else if args[0] == "--publish"@ {
        settings(behind(args, 2), Settings { publish_namespace: nth(args, 1), ..o })
    } else if args[0] == "--port"@ {
        if args.len() < 2 {
            Err("Missing value for --port"@)
        } else {
            match within(number(args[1], false), 0, u16::MAX as int) {
                Some(port) => settings(args.skip(2), Settings { serve_port: port, ..o }),
                None => Err("Invalid port: "@ + args[1]),
            }
        }
    } else if args[0] == "--serve"@ {
        if args.len() > 1 && !dashed(args[1]) {
            settings(
                args.skip(2),
                Settings { serve_requested: true, explicit_serve_addr: Some(args[1]), ..o },
            )
        } else {
            settings(args.skip(1), Settings { serve_requested: true, ..o })
        }
    } else if args[0] == "--snapshot"@ {
        settings(behind(args, 2), Settings { snapshot_namespace: nth(args, 1), ..o })
    } else if args[0] == "--run"@ {
        settings(
            behind(args, 3),
            Settings { run_snapshot: nth(args, 1), run_target: nth(args, 2), ..o },
        )
    } else if !dashed(args[0]) {
        settings(args.skip(1), Settings { positionals: o.positionals.push(args[0]), ..o })
    } else {
        Err("Unknown option: "@ + args[0])
    }
}

fn argument(args: &Vec<String>, i: usize) -> (r: Option<String>)
    ensures
        text_of(r) == nth(texts(args@), i as int),
{
    if i < args.len() {
        Some(args[i].clone())
    } else {
        None
    }
}

/// The place behind `n` more arguments, or the end.
fn further(args: &Vec<String>, i: usize, n: usize) -> (r: usize)
    requires
        i <= args@.len(),
    ensures
        r == (if i + n <= args@.len() {
            (i + n) as int
        } else {
            args@.len() as int
        }),
{
    if args.len() - i >= n {
        i + n
    } else {
        args.len()
    }
}

/// What the option at a place says. The place behind it and its values is
/// handed back.
fn read_option(args: &Vec<String>, i: usize, o: Options) -> (r: Result<(Options, usize), String>)
    requires
        i < args@.len(),
    ensures
        match r {
            Ok((next, j)) => i < j <= args@.len() && settings(
                texts(args@).skip(i as int),
                o.model(),
            ) == settings(texts(args@).skip(j as int), next.model()),
            Err(e) => settings(texts(args@).skip(i as int), o.model()) == Err::<
                Settings,
                Seq<char>,
            >(e@),
        },
{
    let ghost all = texts(args@);
    let ghost rest = all.skip(i as int);
    proof {
        assert(rest[0] == args@[i as int]@);
        assert(rest.skip(1) =~= all.skip(i as int + 1));
        if i + 1 < args@.len() {
            assert(rest[1] == args@[i + 1]@);
            assert(rest.skip(2) =~= all.skip(i as int + 2));
        }
        if i + 2 < args@.len() {
            assert(rest.skip(3) =~= all.skip(i as int + 3));
        }
        assert(all.skip(args@.len() as int) =~= Seq::empty());
    }
    let mut o = o;
    let n: usize = args.len();
    let arg = args[i].as_str();
    if same(arg, "--emit-core") {
        o.emit_core_only = true;
    } else if same(arg, "--parse-only") {
        o.parse_only = true;
    } else if same(arg, "--native") {
        o.native_mode = true;
    } else if same(arg, "--yggdrasil") {
        o.yggdrasil_mode = true;
    } else if same(arg, "--sandbox") {
        o.sandbox = true;
    } else if same(arg, "--publish") {
        o.publish_namespace = argument(args, i + 1);
        return Ok((o, further(args, i, 2)));
    } else if same(arg, "--port") {
        if i + 1 >= n {
            return Err("Missing value for --port".to_owned());
        }
        match parse_port(args[i + 1].as_str()) {
            Ok(port) => {
                o.serve_port = port;
                return Ok((o, i + 2));
            },
            Err(e) => {
                return Err(e);
            },
        }
    } else if same(arg, "--serve") {
        o.serve_requested = true;
        if i + 1 < n && !starts_with_dash(args[i + 1].as_str()) {
            o.explicit_serve_addr = Some(args[i + 1].clone());
            return Ok((o, i + 2));
        }
    } else if same(arg, "--snapshot") {
        o.snapshot_namespace = argument(args, i + 1);
        return Ok((o, further(args, i, 2)));
    } else if same(arg, "--run") {
        o.run_snapshot = argument(args, i + 1);
        o.run_target = if i + 1 < n {
            argument(args, i + 2)
        } else {
            None
        };
        return Ok((o, further(args, i, 3)));
    } else if !starts_with_dash(arg) {
        let ghost before = texts(o.positionals@);
        o.positionals.push(args[i].clone());
        assert(texts(o.positionals@) =~= before.push(rest[0]));
    } else {
        let mut out = "Unknown option: ".to_owned();
        out.append(arg);
        return Err(out);
    }
    Ok((o, i + 1))
}

/// What the options behind the program's name say, or why they are refused.
pub fn read_options(args: &Vec<String>) -> (r: Result<Options, String>)
    requires
        args@.len() > 0,
    ensures
        match r {
            Ok(o) => settings(texts(args@).skip(1), no_options()) == Ok::<Settings, Seq<char>>(
                o.model(),
            ),
            Err(e) => settings(texts(args@).skip(1), no_options()) == Err::<Settings, Seq<char>>(
                e@,
            ),
        },
{
    let ghost all = texts(args@);
    let mut o = Options::new();
    let mut i: usize = 1;
    while i < args.len()
        invariant
            1 <= i <= args@.len(),
            all == texts(args@),
            settings(all.skip(1), no_options()) == settings(all.skip(i as int), o.model()),
        decreases args@.len() - i,
    {
        match read_option(args, i, o) {
            Ok((next, j)) => {
                o = next;
                i = j;
            },
            Err(e) => {
                return Err(e);
            },
        }
    }
    Ok(o)
}

/// What is said where no argument is given.
pub open spec fn usage_lines() -> Seq<Seq<char>> {
    seq![
        "Usage: lux [options] <file.lux>"@,
        "Options:"@,
        "  --emit-core    Output Core Erlang only (don't compile to BEAM)"@,
        "  --parse-only   Parse only (don't generate code)"@,
        "  --publish NS   Compile and publish functions into namespace NS"@,
        "  --snapshot NS  Create snapshot for namespace NS"@,
        "  --run SNAP ID  Run symbol name or artifact hash in snapshot"@,
        "  --serve [ADDR] Start the local HTTP service (default 127.0.0.1:4002)"@,
        "  --port PORT    Port for --serve when no explicit address is given"@,
        "  --native       Compile to native executable via Cranelift"@,
        "  --yggdrasil    Compile to verified Yggdrasil .yggm modules"@,
        "  --sandbox      Compile with sandbox restrictions"@,
    ]
}

/// What is said where no argument is given.
pub fn usage() -> (r: Vec<String>)
    ensures
        texts(r@) == usage_lines(),
{
    let mut out: Vec<String> = Vec::new();
    out.push("Usage: lux [options] <file.lux>".to_owned());
    out.push("Options:".to_owned());
    out.push("  --emit-core    Output Core Erlang only (don't compile to BEAM)".to_owned());
    out.push("  --parse-only   Parse only (don't generate code)".to_owned());
    out.push("  --publish NS   Compile and publish functions into namespace NS".to_owned());
    out.push("  --snapshot NS  Create snapshot for namespace NS".to_owned());
    out.push("  --run SNAP ID  Run symbol name or artifact hash in snapshot".to_owned());
    out.push("  --serve [ADDR] Start the local HTTP service (default 127.0.0.1:4002)".to_owned());
    out.push("  --port PORT    Port for --serve when no explicit address is given".to_owned());
    out.push("  --native       Compile to native executable via Cranelift".to_owned());
    out.push("  --yggdrasil    Compile to verified Yggdrasil .yggm modules".to_owned());
    out.push("  --sandbox      Compile with sandbox restrictions".to_owned());
    assert(texts(out@) =~= usage_lines());
    out
}

/// What the program is to do.
#[derive(Debug)]
pub enum Job {
    /// Serve on an address.
    Serve(String),
    /// Freeze a generation of a namespace, or its current one.
    Snapshot { namespace: String, generation: Option<i64> },
    /// Run what a snapshot binds to a name, or an artifact.
    Run { snapshot_id: i64, target: String, args: Vec<String> },
    /// Compile a file.
    File(String),
}

/// The model of [`Job`].
pub enum Task {
    Serve(Seq<char>),
    Snapshot { namespace: Seq<char>, generation: Option<int> },
    Run { snapshot_id: int, target: Seq<char>, args: Seq<Seq<char>> },
    File(Seq<char>),
}

pub open spec fn task_of(j: Job) -> Task {
    match j {
        Job::Serve(addr) => Task::Serve(addr@),
        Job::Snapshot { namespace, generation } => Task::Snapshot {
            namespace: namespace@,
            generation: crate::json::int_of(generation),
        },
        Job::Run { snapshot_id, target, args } => Task::Run {
            snapshot_id: snapshot_id as int,
            target: target@,
            args: texts(args@),
        },
        Job::File(name) => Task::File(name@),
    }
}

/// The number in the range of `i64` that a text writes.
pub open spec fn integer(s: Seq<char>) -> Option<int> {
    within(number(s, true), i64::MIN as int, i64::MAX as int)
}

/// What the program is to do, or why it cannot. Serving comes before a
/// snapshot, a snapshot before a run, and a run before compiling.
pub open spec fn task(o: Settings) -> Result<Task, Seq<char>> {
    if o.serve_requested {
        Ok(
            Task::Serve(
                match o.explicit_serve_addr {
                    Some(addr) => addr,
                    None => "127.0.0.1:"@ + decimal(o.serve_port as nat),
                },
            ),
        )
    } else if o.snapshot_namespace is Some {
        Ok(
            Task::Snapshot {
                namespace: o.snapshot_namespace->0,
                generation: match nth(o.positionals, 0) {
                    Some(s) => integer(s),
                    None => None,
                },
            },
        )
    } else if o.run_snapshot is Some && o.run_target is Some {
        match integer(o.run_snapshot->0) {
            Some(snapshot_id) => Ok(
                Task::Run { snapshot_id, target: o.run_target->0, args: o.positionals },
            ),
            None => Err("Invalid snapshot id: "@ + o.run_snapshot->0),
        }
    } else {
        match nth(o.positionals, 0) {
            Some(name) => Ok(Task::File(name)),
            None => Err("No input file specified"@),
        }
    }
}

/// What the program is to do, or why it cannot.
pub fn job(o: &Options) -> (r: Result<Job, String>)
    ensures
        match r {
            Ok(j) => task(o.model()) == Ok::<Task, Seq<char>>(task_of(j)),
            Err(e) => task(o.model()) == Err::<Task, Seq<char>>(e@),
        },
{
    let explicit = match &o.explicit_serve_addr {
        Some(addr) => Some(addr.clone()),
        None => None,
    };
    match resolve_serve_addr(o.serve_requested, explicit, o.serve_port) {
        Some(addr) => {
            return Ok(Job::Serve(addr));
        },
        None => {},
    }
    let first = argument(&o.positionals, 0);
    match &o.snapshot_namespace {
        Some(namespace) => {
            let generation = match &first {
                Some(s) => parse_i64(s.as_str()),
                None => None,
            };
            return Ok(Job::Snapshot { namespace: namespace.clone(), generation });
        },
        None => {},
    }
    match (&o.run_snapshot, &o.run_target) {
        (Some(id), Some(target)) => match parse_i64(id.as_str()) {
            Some(snapshot_id) => Ok(
                Job::Run {
                    snapshot_id,
                    target: target.clone(),
                    args: dup_strings(&o.positionals),
                },
            ),
            None => {
                let mut out = "Invalid snapshot id: ".to_owned();
                out.append(id.as_str());
                Err(out)
            },
        },
        _ => match first {
            Some(name) => Ok(Job::File(name)),
            None => Err("No input file specified".to_owned()),
        },
    }
}

/// How a file is compiled.
#[derive(Debug, Clone, Copy, PartialEq, Eq, Structural)]
pub enum Backend {
    /// It is only parsed.
    Listing,
    /// To a native executable.
    Native,
    /// To Yggdrasil modules.
    Yggdrasil,
    /// To BEAM modules.
    Beam,
}

/// How a file is compiled. Two backends cannot be asked for at once.
pub fn backend(o: &Options) -> (r: Result<Backend, String>)
    ensures
        r is Err <==> o.native_mode && o.yggdrasil_mode,
        r matches Err(e) ==> e@
            == "--native and --yggdrasil select different backends and cannot be combined"@,
        r matches Ok(b) ==> b == (if o.parse_only {
            Backend::Listing
        } else if o.native_mode {
            Backend::Native
        } else if o.yggdrasil_mode {
            Backend::Yggdrasil
        } else {
            Backend::Beam
        }),
{
    if o.native_mode && o.yggdrasil_mode {
        Err(
            "--native and --yggdrasil select different backends and cannot be combined".to_owned(),
        )
    } else if o.parse_only {
        Ok(Backend::Listing)
    } else if o.native_mode {
        Ok(Backend::Native)
    } else if o.yggdrasil_mode {
        Ok(Backend::Yggdrasil)
    } else {
        Ok(Backend::Beam)
    }
}

/// The directory that a run works in.
pub fn run_directory(snapshot_id: i64, artifact_hash: &str) -> (r: String)
    ensures
        r@ == "snapshot-"@ + decimal_int(snapshot_id as int) + "-"@ + artifact_hash@,
{
    let mut out = "snapshot-".to_owned();
    push_i64(&mut out, snapshot_id);
    out.append("-");
    out.append(artifact_hash);
    out
}

/// The directory that everything is stored under: the one that the environment
/// names, or `target/lux`.
pub fn workspace_dir_from_env(value: Option<String>) -> (r: String)
    ensures
        r@ == (match value {
            Some(dir) => dir@,
            None => "target/lux"@,
        }),
{
    match value {
        Some(dir) => dir,
        None => "target/lux".to_owned(),
    }
}

/// The line of a listing about an item.
pub open spec fn item_line(item: Item) -> Seq<char> {
    match item {
        Item::Function(f) => "  fn "@ + f.name@ + "/"@ + decimal(f.params@.len()),
        Item::Enum { name, variants } => "  enum "@ + name@ + " ("@ + decimal(variants as nat)
            + " variants)"@,
        Item::Struct { name, fields } => "  struct "@ + name@ + " ("@ + decimal(fields as nat)
            + " fields)"@,
        Item::TypeAlias(name) => "  type "@ + name@,
        Item::Extern { abi, decls } => "  extern \""@ + abi@ + "\" ("@ + decimal(decls as nat)
            + " decls)"@,
        Item::Use { module, items } => match items {
            Some(names) => "  use "@ + module@ + "::{"@ + joined(texts(names@), ", "@) + "}"@,
            None => "  use "@ + module@,
        },
    }
}

fn item_text(item: &Item) -> (r: String)
    ensures
        r@ == item_line(*item),
{
    match item {
        Item::Function(f) => {
            let mut out = "  fn ".to_owned();
            out.append(f.name.as_str());
            out.append("/");
            push_usize(&mut out, f.params.len());
            out
        },
        Item::Enum { name, variants } => {
            let mut out = "  enum ".to_owned();
            out.append(name.as_str());
            out.append(" (");
            push_usize(&mut out, *variants);
            out.append(" variants)");
            out
        },
        Item::Struct { name, fields } => {
            let mut out = "  struct ".to_owned();
            out.append(name.as_str());
            out.append(" (");
            push_usize(&mut out, *fields);
            out.append(" fields)");
            out
        },
        Item::TypeAlias(name) => {
            let mut out = "  type ".to_owned();
            out.append(name.as_str());
            out
        },
        Item::Extern { abi, decls } => {
            let mut out = "  extern \"".to_owned();
            out.append(abi.as_str());
            out.append("\" (");
            push_usize(&mut out, *decls);
            out.append(" decls)");
            out
        },
        Item::Use { module, items } => {
            let mut out = "  use ".to_owned();
            out.append(module.as_str());
            match items {
                Some(names) => {
                    out.append("::{");
                    out.append(join(names, ", ").as_str());
                    out.append("}");
                },
                None => {},
            }
            out
        },
    }
}

/// The listing of a parsed module. A module without a name has that of its file.
pub open spec fn listing_lines(module: Module, stem: Seq<char>) -> Seq<Seq<char>> {
    seq![
        "Parsed module: "@ + (match module.name {
            Some(name) => name@,
            None => stem,
        }),
        "Items: "@ + decimal(module.items@.len()),
    ] + Seq::new(module.items@.len(), |i: int| item_line(module.items@[i]))
}

/// The listing of a parsed module.
pub fn listing(module: &Module, stem: &str) -> (r: Vec<String>)
    ensures
        texts(r@) == listing_lines(*module, stem@),
{
    let mut out: Vec<String> = Vec::new();
    let mut title = "Parsed module: ".to_owned();
    match &module.name {
        Some(name) => title.append(name.as_str()),
        None => title.append(stem),
    }
    let mut total = "Items: ".to_owned();
    push_usize(&mut total, module.items.len());
    out.push(title);
    out.push(total);
    let ghost whole = listing_lines(*module, stem@);
    assert(texts(out@) =~= whole.take(2));
    let mut i: usize = 0;
    while i < module.items.len()
        invariant
            i <= module.items@.len(),
            whole == listing_lines(*module, stem@),
            texts(out@) == whole.take(2 + i),
        decreases module.items@.len() - i,
    {
        let ghost before = texts(out@);
        out.push(item_text(&module.items[i]));
        assert(texts(out@) =~= before.push(item_line(module.items@[i as int])));
        assert(whole.take(2 + i + 1) =~= whole.take(2 + i).push(whole[2 + i]));
        i = i + 1;
    }
    assert(whole.take(2 + i) =~= whole);
    out
}

/// The name that the outputs of a package go under: that of its module, or, if
/// that is `main`, that of its file.
pub fn package_name(source_module: &str, stem: &str) -> (r: String)
    ensures
        r@ == (if source_module@ == "main"@ {
            stem@
        } else {
            source_module@
        }),
{
    if same(source_module, "main") {
        stem.to_owned()
    } else {
        source_module.to_owned()
    }
}

/// What became of a source: its functions, each compiled on its own.
#[derive(Debug)]
pub struct CompiledPackage {
    pub source_module: String,
    pub entry_module: Option<String>,
    pub entry_arity: Option<usize>,
    pub artifacts: Vec<FunctionArtifact>,
}

/// A compiled function.
#[derive(Debug)]
pub struct FunctionArtifact {
    pub source_name: String,
    pub body_hash: String,
    pub abi_hash: String,
    pub artifact_hash: String,
    pub build_key: String,
    pub arity: usize,
    pub core_source: String,
    pub dependencies: Vec<String>,
}

/// What the metadata of a function tells. Its arity is not told.
pub struct ArtifactFacts {
    pub source_name: Seq<char>,
    pub body_hash: Seq<char>,
    pub abi_hash: Seq<char>,
    pub artifact_hash: Seq<char>,
    pub build_key: Seq<char>,
    pub dependencies: Seq<Seq<char>>,
}

/// What the metadata of a package tells.
pub struct PackageFacts {
    pub source_module: Seq<char>,
    pub entry_module: Option<Seq<char>>,
    pub artifacts: Seq<ArtifactFacts>,
}

pub open spec fn facts(a: FunctionArtifact) -> ArtifactFacts {
    ArtifactFacts {
        source_name: a.source_name@,
        body_hash: a.body_hash@,
        abi_hash: a.abi_hash@,
        artifact_hash: a.artifact_hash@,
        build_key: a.build_key@,
        dependencies: texts(a.dependencies@),
    }
}

pub open spec fn package_facts(p: CompiledPackage) -> PackageFacts {
    PackageFacts {
        source_module: p.source_module@,
        entry_module: text_of(p.entry_module),
        artifacts: Seq::new(p.artifacts@.len(), |i: int| facts(p.artifacts@[i])),
    }
}

/// A character inside a JSON text.
pub open spec fn json_char(c: char) -> Seq<char> {
    if c == '"' {
        "\\\""@
    } else if c == '\\' {
        "\\\\"@
    } else if c == '\n' {
        "\\n"@
    } else if c == '\r' {
        "\\r"@
    } else if c == '\t' {
        "\\t"@
    } else {
        seq![c]
    }
}

/// A text inside a JSON text.
pub open spec fn json_escaped(s: Seq<char>) -> Seq<char>
    decreases s.len(),
{
    if s.len() == 0 {
        Seq::empty()
    } else {
        json_escaped(s.drop_last()) + json_char(s.last())
    }
}

/// A text inside a JSON text.
pub fn json_escape(s: &str) -> (r: String)
    ensures
        r@ == json_escaped(s@),
{
    let cs = chars_of(s);
    let mut out = String::new();
    let mut i: usize = 0;
    while i < cs.len()
        invariant
            i <= cs@.len(),
            out@ == json_escaped(cs@.take(i as int)),
        decreases cs@.len() - i,
    {
        assert(cs@.take(i as int + 1).drop_last() =~= cs@.take(i as int));
        let c = cs[i];
        let ghost before = out@;
        if c == '"' {
            out.append("\\\"");
        } else if c == '\\' {
            out.append("\\\\");
        } else if c == '\n' {
            out.append("\\n");
        } else if c == '\r' {
            out.append("\\r");
        } else if c == '\t' {
            out.append("\\t");
        } else {
            out.push(c);
            assert(out@ =~= before + seq![c]);
        }
        i = i + 1;
    }
    assert(cs@.take(i as int) =~= cs@);
    out
}

/// The texts, escaped and in quotes.
pub open spec fn quoted(s: Seq<Seq<char>>) -> Seq<Seq<char>> {
    Seq::new(s.len(), |i: int| "\""@ + json_escaped(s[i]) + "\""@)
}

fn quote_all(v: &Vec<String>) -> (r: Vec<String>)
    ensures
        texts(r@) == quoted(texts(v@)),
{
    let mut out: Vec<String> = Vec::new();
    let mut i: usize = 0;
    while i < v.len()
        invariant
            i <= v@.len(),
            out@.len() == i,
            forall|k: int|
                0 <= k < i ==> (#[trigger] out@[k])@ == "\""@ + json_escaped(v@[k]@) + "\""@,
        decreases v@.len() - i,
    {
        let mut one = "\"".to_owned();
        one.append(json_escape(v[i].as_str()).as_str());
        one.append("\"");
        out.push(one);
        i = i + 1;
    }
    assert(texts(out@) =~= quoted(texts(v@)));
    out
}

/// The metadata of a function.
pub open spec fn artifact_text(a: ArtifactFacts, last: bool) -> Seq<char> {
    "    {\n"@ + "      \"source_name\": \""@ + json_escaped(a.source_name) + "\",\n"@
        + "      \"body_hash\": \""@ + json_escaped(a.body_hash) + "\",\n"@
        + "      \"abi_hash\": \""@ + json_escaped(a.abi_hash) + "\",\n"@
        + "      \"module\": \""@ + json_escaped(a.artifact_hash) + "\",\n"@
        + "      \"build_key\": \""@ + json_escaped(a.build_key) + "\",\n"@
        + "      \"function\": \"apply\",\n"@ + "      \"dependencies\": ["@
        + joined(quoted(a.dependencies), ", "@) + "],\n"@ + "      \"hash\": \""@
        + json_escaped(a.artifact_hash) + "\"\n"@ + "    }"@
        + (if last {
        "\n"@
    } else {
        ",\n"@
    })
}

fn artifact_json(a: &FunctionArtifact, last: bool) -> (r: String)
    ensures
        r@ == artifact_text(facts(*a), last),
{
    let mut out = "    {\n".to_owned();
    out.append("      \"source_name\": \"");
    out.append(json_escape(a.source_name.as_str()).as_str());
    out.append("\",\n");
    out.append("      \"body_hash\": \"");
    out.append(json_escape(a.body_hash.as_str()).as_str());
    out.append("\",\n");
    out.append("      \"abi_hash\": \"");
    out.append(json_escape(a.abi_hash.as_str()).as_str());
    out.append("\",\n");
    out.append("      \"module\": \"");
    out.append(json_escape(a.artifact_hash.as_str()).as_str());
    out.append("\",\n");
    out.append("      \"build_key\": \"");
    out.append(json_escape(a.build_key.as_str()).as_str());
    out.append("\",\n");
    out.append("      \"function\": \"apply\",\n");
    out.append("      \"dependencies\": [");
    out.append(join(&quote_all(&a.dependencies), ", ").as_str());
    out.append("],\n");
    out.append("      \"hash\": \"");
    out.append(json_escape(a.artifact_hash.as_str()).as_str());
    out.append("\"\n");
    out.append("    }");
    out.append(
        if last {
            "\n"
        } else {
            ",\n"
        },
    );
    out
}

/// The metadata of the first of `total` functions.
pub open spec fn artifacts_text(s: Seq<ArtifactFacts>, total: nat) -> Seq<char>
    decreases s.len(),
{
    if s.len() == 0 {
        Seq::empty()
    } else {
        artifacts_text(s.drop_last(), total) + artifact_text(s.last(), s.len() == total)
    }
}

fn artifacts_json(v: &Vec<FunctionArtifact>) -> (r: String)
    ensures
        r@ == artifacts_text(Seq::new(v@.len(), |i: int| facts(v@[i])), v@.len()),
{
    let ghost all = Seq::new(v@.len(), |i: int| facts(v@[i]));
    let mut out = String::new();
    let mut i: usize = 0;
    assert(out@ =~= artifacts_text(all.take(0), v@.len()));
    while i < v.len()
        invariant
            i <= v@.len(),
            all == Seq::new(v@.len(), |k: int| facts(v@[k])),
            out@ == artifacts_text(all.take(i as int), v@.len()),
        decreases v@.len() - i,
    {
        assert(all.take(i as int + 1).drop_last() =~= all.take(i as int));
        let last = i == v.len() - 1;
        let text = artifact_json(&v[i], last);
        out.append(text.as_str());
        i = i + 1;
    }
    assert(all.take(i as int) =~= all);
    out
}

/// The metadata about the entry of a package.
pub open spec fn entry_text(entry: Option<Seq<char>>) -> Seq<char> {
    match entry {
        Some(module) => "  \"entry\": {\n"@ + "    \"module\": \""@ + json_escaped(module) + "\",\n"@
            + "    \"function\": \"apply\"\n"@ + "  },\n"@,
        None => "  \"entry\": null,\n"@,
    }
}

fn entry_json(entry: &Option<String>) -> (r: String)
    ensures
        r@ == entry_text(text_of(*entry)),
{
    match entry {
        Some(module) => {
            let mut out = "  \"entry\": {\n".to_owned();
            out.append("    \"module\": \"");
            out.append(json_escape(module.as_str()).as_str());
            out.append("\",\n");
            out.append("    \"function\": \"apply\"\n");
            out.append("  },\n");
            out
        },
        None => "  \"entry\": null,\n".to_owned(),
    }
}

/// The metadata of a package.
pub open spec fn metadata_text(p: PackageFacts) -> Seq<char> {
    "{\n"@ + "  \"source_module\": \""@ + json_escaped(p.source_module) + "\",\n"@
        + entry_text(p.entry_module) + "  \"functions\": [\n"@
        + artifacts_text(p.artifacts, p.artifacts.len()) + "  ]\n"@ + "}\n"@
}

/// The metadata of a package.
pub fn build_metadata_json(package: &CompiledPackage) -> (r: String)
    ensures
        r@ == metadata_text(package_facts(*package)),
{
    let mut out = "{\n".to_owned();
    out.append("  \"source_module\": \"");
    out.append(json_escape(package.source_module.as_str()).as_str());
    out.append("\",\n");
    out.append(entry_json(&package.entry_module).as_str());
    out.append("  \"functions\": [\n");
    out.append(artifacts_json(&package.artifacts).as_str());
    out.append("  ]\n");
    out.append("}\n");
    out
}

/// Metadata does not announce arities: packages that differ in nothing else
/// but arities and generated sources have the same metadata.
pub proof fn metadata_ignores_arities(p: CompiledPackage, q: CompiledPackage)
    requires
        p.source_module@ == q.source_module@,
        text_of(p.entry_module) == text_of(q.entry_module),
        p.artifacts@.len() == q.artifacts@.len(),
        forall|i: int|
            0 <= i < p.artifacts@.len() ==> {
                &&& (#[trigger] p.artifacts@[i]).source_name@ == q.artifacts@[i].source_name@
                &&& p.artifacts@[i].body_hash@ == q.artifacts@[i].body_hash@
                &&& p.artifacts@[i].abi_hash@ == q.artifacts@[i].abi_hash@
                &&& p.artifacts@[i].artifact_hash@ == q.artifacts@[i].artifact_hash@
                &&& p.artifacts@[i].build_key@ == q.artifacts@[i].build_key@
                &&& texts(p.artifacts@[i].dependencies@) == texts(q.artifacts@[i].dependencies@)
            },
    ensures
        metadata_text(package_facts(p)) == metadata_text(package_facts(q)),
{
    assert(package_facts(p).artifacts =~= package_facts(q).artifacts);
}

/// Why a source is refused. Places in it are given as text.
#[derive(Debug)]
pub enum CompileError {
    Parse { span: String, message: String },
    Type(String),
    Io(String),
    Security(SecurityError),
}

/// What a sandbox does not allow.
#[derive(Debug)]
pub enum SecurityError {
    ExternDisallowed(String),
    ExternModuleDisallowed { module: String, span: String },
    ImportDisallowed { module: String, span: String },
}

/// Why the service could not do something.
#[derive(Debug)]
pub enum ServiceError {
    Compile(CompileError),
    Store(String),
    Io(String),
    NoFunctions,
    MissingEntryPoint,
    Timeout { timeout_ms: u64 },
    OutputLimitExceeded { limit_bytes: usize },
    Conflict(String),
    NotFound(String),
    InvalidRequest(String),
}

/// What is said of a source that is refused.
pub open spec fn compile_error_text(e: CompileError) -> Seq<char> {
    match e {
        CompileError::Parse { span, message } => "Parse error at "@ + span@ + ": "@ + message@,
        CompileError::Type(e) => "Type error: "@ + e@,
        CompileError::Io(e) => "I/O error: "@ + e@,
        CompileError::Security(SecurityError::ExternDisallowed(span)) => "Security error at "@ + span@
            + ": external declarations are disabled in sandbox mode"@,
        CompileError::Security(SecurityError::ExternModuleDisallowed { module,
            span }) => "Security error at "@ + span@ + ": external module '"@ + module@ + "' is not granted"@,
        CompileError::Security(SecurityError::ImportDisallowed { module,
            span }) => "Security error at "@ + span@ + ": import '"@ + module@
            + "' is not allowed in sandbox mode"@,
    }
}

/// What is said of a source that is refused.
pub fn print_compile_error(e: &CompileError) -> (r: String)
    ensures
        r@ == compile_error_text(*e),
{
    match e {
        CompileError::Parse { span, message } => {
            let mut out = "Parse error at ".to_owned();
            out.append(span.as_str());
            out.append(": ");
            out.append(message.as_str());
            out
        },
        CompileError::Type(e) => {
            let mut out = "Type error: ".to_owned();
            out.append(e.as_str());
            out
        },
        CompileError::Io(e) => {
            let mut out = "I/O error: ".to_owned();
            out.append(e.as_str());
            out
        },
        CompileError::Security(SecurityError::ExternDisallowed(span)) => {
            let mut out = "Security error at ".to_owned();
            out.append(span.as_str());
            out.append(": external declarations are disabled in sandbox mode");
            out
        },
        CompileError::Security(SecurityError::ExternModuleDisallowed { module, span }) => {
            let mut out = "Security error at ".to_owned();
            out.append(span.as_str());
            out.append(": external module '");
            out.append(module.as_str());
            out.append("' is not granted");
            out
        },
        CompileError::Security(SecurityError::ImportDisallowed { module, span }) => {
            let mut out = "Security error at ".to_owned();
            out.append(span.as_str());
            out.append(": import '");
            out.append(module.as_str());
            out.append("' is not allowed in sandbox mode");
            out
        },
    }
}

/// What is said of something that the service could not do.
pub open spec fn service_error_text(e: ServiceError) -> Seq<char> {
    match e {
        ServiceError::Compile(e) => compile_error_text(e),
        ServiceError::Store(e) => "Store error: "@ + e@,
        ServiceError::Io(e) => "I/O error: "@ + e@,
        ServiceError::NoFunctions => "No functions to compile"@,
        ServiceError::MissingEntryPoint => "Compiled package has no main entry point"@,
        ServiceError::Timeout { timeout_ms } => "Execution timed out after "@ + decimal(timeout_ms as nat) + " ms"@,
        ServiceError::OutputLimitExceeded { limit_bytes } => "Execution output exceeded "@ + decimal(limit_bytes as nat) + " bytes"@,
        ServiceError::Conflict(m) => m@,
        ServiceError::NotFound(m) => m@,
        ServiceError::InvalidRequest(m) => m@,
    }
}

/// What is said of something that the service could not do.
pub fn print_service_error(e: &ServiceError) -> (r: String)
    ensures
        r@ == service_error_text(*e),
{
    match e {
        ServiceError::Compile(e) => print_compile_error(e),
        ServiceError::Store(e) => {
            let mut out = "Store error: ".to_owned();
            out.append(e.as_str());
            out
        },
        ServiceError::Io(e) => {
            let mut out = "I/O error: ".to_owned();
            out.append(e.as_str());
            out
        },
        ServiceError::NoFunctions => "No functions to compile".to_owned(),
        ServiceError::MissingEntryPoint => "Compiled package has no main entry point".to_owned(),
        ServiceError::Timeout { timeout_ms } => {
            let mut out = "Execution timed out after ".to_owned();
            push_u64(&mut out, *timeout_ms);
            out.append(" ms");
            out
        },
        ServiceError::OutputLimitExceeded { limit_bytes } => {
            let mut out = "Execution output exceeded ".to_owned();
            push_usize(&mut out, *limit_bytes);
            out.append(" bytes");
            out
        },
        ServiceError::Conflict(m) => m.clone(),
        ServiceError::NotFound(m) => m.clone(),
        ServiceError::InvalidRequest(m) => m.clone(),
    }
}

/// The file that a Yggdrasil module is written to.
pub fn yggdrasil_file(name: &str) -> (r: String)
    ensures
        r@ == name@ + ".yggm"@,
{
    let mut out = name.to_owned();
    out.append(".yggm");
    out
}

/// What a manifest tells of the modules.
pub open spec fn module_entries(names: Seq<Seq<char>>) -> Seq<Data> {
    Seq::new(
        names.len(),
        |i: int| object()
            .with("name"@, Data::Text(names[i]))
            .with("file"@, Data::Text(names[i] + ".yggm"@)),
    )
}

/// What a manifest tells of a function.
pub open spec fn alias(m: Meta) -> Data {
    object()
        .with("name"@, Data::Text(m.source_name))
        .with("module"@, Data::Text(m.module_name))
        .with("arity"@, count(m.arity))
}

/// What a manifest tells of the functions.
pub open spec fn aliases(s: Seq<Meta>) -> Seq<Data> {
    Seq::new(s.len(), |i: int| alias(s[i]))
}

/// What a manifest tells of the entry.
pub open spec fn entry_data(entry: Option<Seq<char>>, arity: nat) -> Data {
    match entry {
        Some(module) => object()
            .with("module"@, Data::Text(module))
            .with("function"@, Data::Text("apply"@))
            .with("arity"@, count(arity)),
        None => Data::Null,
    }
}

/// The manifest of compiled Yggdrasil modules.
pub open spec fn manifest(
    names: Seq<Seq<char>>,
    entry: Option<Seq<char>>,
    arity: nat,
    metadata: Seq<Meta>,
) -> Data {
    object()
        .with("format"@, Data::Text("YGGM1"@))
        .with("entry"@, entry_data(entry, arity))
        .with("modules"@, Data::List(module_entries(names)))
        .with("aliases"@, Data::List(aliases(metadata)))
}

fn module_values(names: &Vec<String>) -> (r: Vec<Json>)
    ensures
        list_of(r@) == module_entries(texts(names@)),
{
    let mut out: Vec<Json> = Vec::new();
    let mut i: usize = 0;
    while i < names.len()
        invariant
            i <= names@.len(),
            out@.len() == i,
            forall|k: int|
                0 <= k < i ==> data_of(#[trigger] out@[k]) == module_entries(texts(names@))[k],
        decreases names@.len() - i,
    {
        let file = yggdrasil_file(names[i].as_str());
        out.push(Json::object()
            .with("name", Json::text(names[i].as_str()))
            .with("file", Json::Text(file)));
        i = i + 1;
    }
    proof {
        crate::json::lemma_list(out@);
    }
    assert(list_of(out@) =~= module_entries(texts(names@)));
    out
}

fn alias_values(v: &Vec<FunctionModuleMetadata>) -> (r: Vec<Json>)
    ensures
        list_of(r@) == aliases(metas_of(v@)),
{
    let mut out: Vec<Json> = Vec::new();
    let mut i: usize = 0;
    while i < v.len()
        invariant
            i <= v@.len(),
            out@.len() == i,
            forall|k: int| 0 <= k < i ==> data_of(#[trigger] out@[k]) == alias(v@[k].model()),
        decreases v@.len() - i,
    {
        let m = &v[i];
        out.push(Json::object()
            .with("name", Json::text(m.source_name.as_str()))
            .with("module", Json::text(m.module_name.as_str()))
            .with("arity", count_value(m.arity as u64)));
        i = i + 1;
    }
    proof {
        crate::json::lemma_list(out@);
    }
    assert(list_of(out@) =~= aliases(metas_of(v@)));
    out
}

/// The manifest of compiled Yggdrasil modules.
pub fn yggdrasil_manifest(
    names: &Vec<String>,
    entry_module: &Option<String>,
    arity: usize,
    metadata: &Vec<FunctionModuleMetadata>,
) -> (r: Json)
    ensures
        data_of(r) == manifest(
            texts(names@),
            text_of(*entry_module),
            arity as nat,
            metas_of(metadata@),
        ),
{
    let modules = module_values(names);
    let aliases = alias_values(metadata);
    let entry = match entry_module {
        Some(module) => Json::object()
            .with("module", Json::text(module.as_str()))
            .with("function", Json::text("apply"))
            .with("arity", count_value(arity as u64)),
        None => Json::Null,
    };
    Json::object()
        .with("format", Json::text("YGGM1"))
        .with("entry", entry)
        .with("modules", Json::List(modules))
        .with("aliases", Json::List(aliases))
}

/// The manifest of compiled Yggdrasil modules, as it is written to its file.
pub fn manifest_text(
    names: &Vec<String>,
    entry_module: &Option<String>,
    arity: usize,
    metadata: &Vec<FunctionModuleMetadata>,
) -> (r: String)
    ensures
        r@ == pretty_of(
            manifest(
                texts(names@),
                text_of(*entry_module),
                arity as nat,
                metas_of(metadata@),
            ),
        ),
{
    pretty(&yggdrasil_manifest(names, entry_module, arity, metadata))
}

} // verus!
