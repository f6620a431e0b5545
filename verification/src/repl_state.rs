//! The state of an interactive session, and what a session asks of the outside.
use vstd::prelude::*;
use crate::json::{at, data_of, int_of, text_in, Data, Json};
use crate::mcp::{call_of, ApiCall, ApiReply, Call};
use crate::names::text_of;
use crate::repl_print::{number_or, number_text};
use crate::runtime::{replace_all, replaced};
use crate::service::{default_server_url, parse_port, resolve_server_url};
use crate::text::{decimal, join, joined, same, texts};
use crate::words::{number, trim_end, trim_slashes, trimmed_end, within, without_slashes};

verus! {

/// The state of a session. The lines that are to be printed gather in `output`.
#[derive(Debug)]
pub struct ReplState {
    pub server_url: String,
    pub namespace: String,
    pub symbol_kind: String,
    pub symbol: String,
    pub symbol_revision_id: Option<String>,
    pub generation: Option<i64>,
    pub changeset: String,
    pub revision_id: Option<String>,
    pub capabilities: Vec<String>,
    pub snapshot_id: Option<i64>,
    pub sandbox: bool,
    pub timeout_ms: u64,
    pub output_limit_bytes: usize,
    pub draft: Option<String>,
    pub output: Vec<String>,
}

/// The model of [`ReplState`].
pub struct Repl {
    pub server_url: Seq<char>,
    pub namespace: Seq<char>,
    pub symbol_kind: Seq<char>,
    pub symbol: Seq<char>,
    pub symbol_revision_id: Option<Seq<char>>,
    pub generation: Option<int>,
    pub changeset: Seq<char>,
    pub revision_id: Option<Seq<char>>,
    pub capabilities: Seq<Seq<char>>,
    pub snapshot_id: Option<int>,
    pub sandbox: bool,
    pub timeout_ms: nat,
    pub output_limit_bytes: nat,
    pub draft: Option<Seq<char>>,
    pub output: Seq<Seq<char>>,
}

/// The state that a session starts in.
pub open spec fn fresh_session() -> Repl {
    Repl {
        server_url: "http://127.0.0.1:"@ + decimal(4002),
        namespace: "repl"@,
        symbol_kind: "function"@,
        symbol: "main"@,
        symbol_revision_id: None,
        generation: None,
        changeset: "scratch"@,
        revision_id: None,
        capabilities: Seq::empty(),
        snapshot_id: None,
        sandbox: true,
        timeout_ms: 5000,
        output_limit_bytes: 65536,
        draft: None,
        output: Seq::empty(),
    }
}

/// The state with one more line to print.
pub open spec fn say(s: Repl, line: Seq<char>) -> Repl {
    Repl { output: s.output.push(line), ..s }
}

/// The state with more lines to print.
pub open spec fn print(s: Repl, lines: Seq<Seq<char>>) -> Repl {
    Repl { output: s.output + lines, ..s }
}

impl ReplState {
    pub open spec fn model(self) -> Repl {
        Repl {
            server_url: self.server_url@,
            namespace: self.namespace@,
            symbol_kind: self.symbol_kind@,
            symbol: self.symbol@,
            symbol_revision_id: text_of(self.symbol_revision_id),
            generation: int_of(self.generation),
            changeset: self.changeset@,
            revision_id: text_of(self.revision_id),
            capabilities: texts(self.capabilities@),
            snapshot_id: int_of(self.snapshot_id),
            sandbox: self.sandbox,
            timeout_ms: self.timeout_ms as nat,
            output_limit_bytes: self.output_limit_bytes as nat,
            draft: text_of(self.draft),
            output: texts(self.output@),
        }
    }

    /// Adds a line to print.
    pub fn say(&mut self, line: String)
        ensures
            final(self).model() == say(old(self).model(), line@),
    {
        let ghost before = texts(self.output@);
        self.output.push(line);
        assert(texts(self.output@) =~= before.push(line@));
    }

    /// Adds lines to print.
    pub fn print(&mut self, lines: Vec<String>)
        ensures
            final(self).model() == print(old(self).model(), texts(lines@)),
    {
        let ghost start = self.model();
        let ghost all = texts(lines@);
        let mut i: usize = 0;
        assert(start.output + all.take(0) =~= start.output);
        while i < lines.len()
            invariant
                i <= lines@.len(),
                all == texts(lines@),
                self.model() == print(start, all.take(i as int)),
            decreases lines@.len() - i,
        {
            self.say(lines[i].clone());
            assert(start.output + all.take(i as int + 1) =~= (start.output + all.take(
                i as int,
            )).push(all[i as int]));
            i = i + 1;
        }
        assert(all.take(i as int) =~= all);
    }

    /// The lines to print, which are taken out of the state.
    pub fn take_output(&mut self) -> (r: Vec<String>)
        ensures
            texts(r@) == old(self).model().output,
            final(self).model() == (Repl { output: Seq::empty(), ..old(self).model() }),
    {
        let mut out: Vec<String> = Vec::new();
        std::mem::swap(&mut out, &mut self.output);
        assert(texts(self.output@) =~= Seq::empty());
        out
    }
}

impl Default for ReplState {
    fn default() -> (r: Self)
        ensures
            r.model() == fresh_session(),
    {
        let r = ReplState {
            server_url: default_server_url(4002),
            namespace: "repl".to_owned(),
            symbol_kind: "function".to_owned(),
            symbol: "main".to_owned(),
            symbol_revision_id: None,
            generation: None,
            changeset: "scratch".to_owned(),
            revision_id: None,
            capabilities: Vec::new(),
            snapshot_id: None,
            sandbox: true,
            timeout_ms: 5000,
            output_limit_bytes: 65536,
            draft: None,
            output: Vec::new(),
        };
        assert(texts(r.capabilities@) =~= Seq::empty());
        assert(texts(r.output@) =~= Seq::empty());
        r
    }
}

/// What is done with the answer to a request.
#[derive(Debug)]
pub enum Next {
    Symbols,
    LoadGeneration,
    LoadSymbol,
    SaveGeneration,
    Saved,
    Changesets,
    Resources,
    Show,
    ResourceListed { name: String, kind: String, value: Json },
    LoadChangeset,
    SnapshotCreated,
    Namespaces,
    Bindings,
    Diff,
    ChangesetSaved,
    Edited,
    Compiled,
    Published,
    Ran,
}

/// The model of [`Next`].
pub enum Then {
    Symbols,
    LoadGeneration,
    LoadSymbol,
    SaveGeneration,
    Saved,
    Changesets,
    Resources,
    Show,
    ResourceListed { name: Seq<char>, kind: Seq<char>, value: Data },
    LoadChangeset,
    SnapshotCreated,
    Namespaces,
    Bindings,
    Diff,
    ChangesetSaved,
    Edited,
    Compiled,
    Published,
    Ran,
}

pub open spec fn then_of(n: Next) -> Then {
    match n {
        Next::Symbols => Then::Symbols,
        Next::LoadGeneration => Then::LoadGeneration,
        Next::LoadSymbol => Then::LoadSymbol,
        Next::SaveGeneration => Then::SaveGeneration,
        Next::Saved => Then::Saved,
        Next::Changesets => Then::Changesets,
        Next::Resources => Then::Resources,
        Next::Show => Then::Show,
        Next::ResourceListed { name, kind, value } => Then::ResourceListed {
            name: name@,
            kind: kind@,
            value: data_of(value),
        },
        Next::LoadChangeset => Then::LoadChangeset,
        Next::SnapshotCreated => Then::SnapshotCreated,
        Next::Namespaces => Then::Namespaces,
        Next::Bindings => Then::Bindings,
        Next::Diff => Then::Diff,
        Next::ChangesetSaved => Then::ChangesetSaved,
        Next::Edited => Then::Edited,
        Next::Compiled => Then::Compiled,
        Next::Published => Then::Published,
        Next::Ran => Then::Ran,
    }
}

/// What is done with a text that is pasted.
#[derive(Debug)]
pub enum Pasted {
    /// It becomes the draft.
    Draft,
    /// It takes the place of a range of a revision.
    Edit { start: usize, end: usize, revision_id: String },
}

/// The model of [`Pasted`].
pub enum PastedFor {
    Draft,
    Edit { start: nat, end: nat, revision_id: Seq<char> },
}

pub open spec fn pasted_of(p: Pasted) -> PastedFor {
    match p {
        Pasted::Draft => PastedFor::Draft,
        Pasted::Edit { start, end, revision_id } => PastedFor::Edit {
            start: start as nat,
            end: end as nat,
            revision_id: revision_id@,
        },
    }
}

/// How a session goes on.
#[derive(Debug)]
pub enum ReplControl {
    Continue,
    Exit,
    /// The service is asked.
    Request { call: ApiCall, next: Next },
    /// A text is pasted.
    Paste(Pasted),
    /// The JSON value of a resource is pasted.
    PasteResource { name: String, kind: String },
}

/// The model of [`ReplControl`].
pub enum Move {
    Continue,
    Exit,
    Request { call: Call, next: Then },
    Paste(PastedFor),
    PasteResource { name: Seq<char>, kind: Seq<char> },
}

pub open spec fn move_of(c: ReplControl) -> Move {
    match c {
        ReplControl::Continue => Move::Continue,
        ReplControl::Exit => Move::Exit,
        ReplControl::Request { call, next } => Move::Request {
            call: call_of(call),
            next: then_of(next),
        },
        ReplControl::Paste(p) => Move::Paste(pasted_of(p)),
        ReplControl::PasteResource { name, kind } => Move::PasteResource {
            name: name@,
            kind: kind@,
        },
    }
}

/// The state after a step, and how the session goes on or what went wrong.
pub struct Turn {
    pub state: Repl,
    pub outcome: Result<Move, Seq<char>>,
}

pub open spec fn turn_of(s: ReplState, r: Result<ReplControl, String>) -> Turn {
    Turn {
        state: s.model(),
        outcome: match r {
            Ok(c) => Ok(move_of(c)),
            Err(e) => Err(e@),
        },
    }
}

pub open spec fn done(s: Repl) -> Turn {
    Turn { state: s, outcome: Ok(Move::Continue) }
}

pub open spec fn failed(s: Repl, message: Seq<char>) -> Turn {
    Turn { state: s, outcome: Err(message) }
}

pub open spec fn asking(s: Repl, call: Call, next: Then) -> Turn {
    Turn { state: s, outcome: Ok(Move::Request { call, next }) }
}

/// The request and what is done with its answer.
pub fn request(call: ApiCall, next: Next) -> (r: Result<ReplControl, String>)
    ensures
        r matches Ok(c) && move_of(c) == (Move::Request {
            call: call_of(call),
            next: then_of(next),
        }),
{
    Ok(ReplControl::Request { call, next })
}

/// The value or the message in what came back on a request.
pub open spec fn request_outcome(reply: ApiReply) -> Result<Data, Seq<char>> {
    match reply {
        ApiReply::Value(j) => Ok(data_of(j)),
        ApiReply::InvalidJson(e) => Err("Invalid JSON response: "@ + e@),
        ApiReply::Refused(_, body) => match body {
            Some(j) => match text_in(at(data_of(j), "error"@)) {
                Some(message) => Err(message),
                None => Err("request failed"@),
            },
            None => Err("request failed"@),
        },
        ApiReply::Failed(e) => Err("Request failed: "@ + e@),
    }
}

/// The value or the message in what came back on a request.
pub fn request_json(reply: ApiReply) -> (r: Result<Json, String>)
    ensures
        match r {
            Ok(j) => request_outcome(reply) == Ok::<Data, Seq<char>>(data_of(j)),
            Err(e) => request_outcome(reply) == Err::<Data, Seq<char>>(e@),
        },
{
    match reply {
        ApiReply::Value(j) => Ok(j),
        ApiReply::InvalidJson(e) => {
            let mut out = "Invalid JSON response: ".to_owned();
            out.append(e.as_str());
            Err(out)
        },
        ApiReply::Refused(_, body) => match body {
            Some(j) => match j.text_at("error") {
                Some(message) => Err(message.to_owned()),
                None => Err("request failed".to_owned()),
            },
            None => Err("request failed".to_owned()),
        },
        ApiReply::Failed(e) => {
            let mut out = "Request failed: ".to_owned();
            out.append(e.as_str());
            Err(out)
        },
    }
}

/// Whether the service that answered is healthy, or else what is said of it.
pub fn ensure_service_available(server_url: &str, response: &Json) -> (r: Result<(), String>)
    ensures
        r is Ok <==> text_in(at(data_of(*response), "status"@)) == Some("ok"@),
        r matches Err(e) ==> e@ == "Service at "@ + without_slashes(server_url@)
            + " is not healthy"@,
{
    let healthy = match response.text_at("status") {
        Some(s) => same(s, "ok"),
        None => false,
    };
    if healthy {
        Ok(())
    } else {
        let mut out = "Service at ".to_owned();
        out.append(trim_slashes(server_url).as_str());
        out.append(" is not healthy");
        Err(out)
    }
}

/// The text without the marks that a terminal puts around what is pasted.
pub open spec fn unmarked(s: Seq<char>) -> Seq<char> {
    replaced(replaced(s, "\u{1b}[200~"@, ""@), "\u{1b}[201~"@, ""@)
}

/// The text without the marks that a terminal puts around what is pasted.
pub fn strip_bracketed_paste_markers(input: &str) -> (r: String)
    ensures
        r@ == unmarked(input@),
{
    let once = replace_all(input, "\u{1b}[200~", "");
    replace_all(once.as_str(), "\u{1b}[201~", "")
}

/// A text without the first character of what is replaced stays as it is.
pub proof fn lemma_replaced_absent(s: Seq<char>, from: Seq<char>, to: Seq<char>)
    requires
        from.len() > 0,
        !s.contains(from[0]),
    ensures
        replaced(s, from, to) == s,
    decreases s.len(),
{
    if s.len() >= from.len() {
        assert(s.contains(s[0]));
        assert(s.take(from.len() as int)[0] == s[0]);
        assert forall|i: int| 0 <= i < s.drop_first().len() implies s.drop_first()[i] != from[0] by {
            assert(s.contains(s[i + 1]));
        }
        lemma_replaced_absent(s.drop_first(), from, to);
        assert(seq![s[0]] + s.drop_first() =~= s);
    }
}

proof fn lemma_replaced_after(s: Seq<char>, t: Seq<char>, from: Seq<char>, to: Seq<char>)
    requires
        from.len() > 0,
        !s.contains(from[0]),
        t.len() >= from.len(),
    ensures
        replaced(s + t, from, to) == s + replaced(t, from, to),
    decreases s.len(),
{
    let all = s + t;
    if s.len() == 0 {
        assert(all =~= t);
        assert(s + replaced(t, from, to) =~= replaced(t, from, to));
    } else {
        assert(s.contains(s[0]));
        assert(all.take(from.len() as int)[0] == s[0]);
        assert forall|i: int| 0 <= i < s.drop_first().len() implies s.drop_first()[i] != from[0] by {
            assert(s.contains(s[i + 1]));
        }
        lemma_replaced_after(s.drop_first(), t, from, to);
        assert(all.drop_first() =~= s.drop_first() + t);
        assert(seq![s[0]] + (s.drop_first() + replaced(t, from, to)) =~= s + replaced(
            t,
            from,
            to,
        ));
    }
}

/// What a terminal pastes comes out without the marks around it.
pub proof fn paste_marks_are_removed(t: Seq<char>)
    requires
        !t.contains('\u{1b}'),
    ensures
        unmarked("\u{1b}[200~"@ + t + "\u{1b}[201~"@) == t,
{
    let open = "\u{1b}[200~"@;
    let close = "\u{1b}[201~"@;
    let none = ""@;
    reveal_with_fuel(replaced, 2);
    reveal_strlit("\u{1b}[200~");
    reveal_strlit("\u{1b}[201~");
    reveal_strlit("");
    assert(none =~= Seq::empty());
    let s = open + t + close;
    assert(s.take(open.len() as int) =~= open);
    assert(s.skip(open.len() as int) =~= t + close);
    lemma_replaced_after(t, close, open, none);
    assert(replaced(close, open, none) == close) by {
        assert(close.take(open.len() as int) =~= close);
        assert(close[4] != open[4]);
        assert(seq![close[0]] + close.drop_first() =~= close);
    }
    assert(replaced(s, open, none) =~= t + close);
    lemma_replaced_after(t, close, close, none);
    assert(close.take(close.len() as int) =~= close);
    assert(close.skip(close.len() as int) =~= Seq::empty());
    assert(replaced(close, close, none) =~= Seq::empty());
}

/// Takes in a line of a text that is pasted. Says whether the line ends it.
pub fn paste_line(lines: &mut Vec<String>, line: &str) -> (ended: bool)
    ensures
        ended == (trimmed_end(line@) == ":end"@),
        texts(final(lines)@) == (if ended {
            texts(old(lines)@)
        } else {
            texts(old(lines)@).push(trimmed_end(line@))
        }),
{
    let trimmed = trim_end(line);
    if same(trimmed.as_str(), ":end") {
        true
    } else {
        let ghost before = texts(lines@);
        lines.push(trimmed);
        assert(texts(lines@) =~= before.push(trimmed@));
        false
    }
}

/// The text that pasted lines make up.
pub fn pasted_text(lines: &Vec<String>) -> (r: String)
    ensures
        r@ == joined(texts(lines@), "\n"@),
{
    join(lines, "\n")
}

/// The prompt.
pub open spec fn prompt(s: Repl) -> Seq<char> {

    "lux["@ + s.namespace + "/"@ + s.symbol_kind + ":"@ + s.symbol + "#"@
        + number_or(s.generation, "-"@) + "@"@ + number_or(s.snapshot_id, "-"@) + "]> "@
}

/// The prompt.
pub fn print_prompt(state: &ReplState) -> (r: String)
    ensures
        r@ == prompt(state.model()),
{
    let mut line = "lux[".to_owned();
    line.append(state.namespace.as_str());
    line.append("/");
    line.append(state.symbol_kind.as_str());
    line.append(":");
    line.append(state.symbol.as_str());
    line.append("#");
    line.append(number_text(state.generation, "-").as_str());
    line.append("@");
    line.append(number_text(state.snapshot_id, "-").as_str());
    line.append("]> ");
    line
}

/// The lines of the help.
pub open spec fn help_lines() -> Seq<Seq<char>> {
    seq![
        "Commands:"@,
        "  :help"@,
        "  :namespace <name>"@,
        "  :symbols [generation]"@,
        "  :symbol <function|type> <name>"@,
        "  :load"@,
        "  :paste"@,
        "  :show"@,
        "  :clear"@,
        "  :save  (atomic compile + publish + snapshot of the selected symbol)"@,
        "  :resources"@,
        "  :resource <name>"@,
        "  :resource-put <name> [kind]"@,
        "  :resource-read <name> [resource_id]"@,
        "  :capabilities"@,
        "  :grant <capability>"@,
        "  :revoke <capability>"@,
        "  :snapshot [id]"@,
        "  :snapshot-create [generation]"@,
        "  :namespaces"@,
        "  :bindings"@,
        "  :diff <from_generation> <to_generation>"@,
        "  :run <symbol|hash> [args ...]"@,
        "  :sandbox on|off"@,
        "  :limits [timeout_ms output_limit_bytes]"@,
        "  :quit"@,
        "Legacy changeset compatibility commands use the :legacy-* prefix."@,
        "Bare lines are evaluated as expressions via fn main() { ... }."@,
    ]
}

/// The lines of the help.
pub fn print_help() -> (r: Vec<String>)
    ensures
        texts(r@) == help_lines(),
{
    let mut out: Vec<String> = Vec::new();
    out.push("Commands:".to_owned());
    out.push("  :help".to_owned());
    out.push("  :namespace <name>".to_owned());
    out.push("  :symbols [generation]".to_owned());
    out.push("  :symbol <function|type> <name>".to_owned());
    out.push("  :load".to_owned());
    out.push("  :paste".to_owned());
    out.push("  :show".to_owned());
    out.push("  :clear".to_owned());
    out.push("  :save  (atomic compile + publish + snapshot of the selected symbol)".to_owned());
    out.push("  :resources".to_owned());
    out.push("  :resource <name>".to_owned());
    out.push("  :resource-put <name> [kind]".to_owned());
    out.push("  :resource-read <name> [resource_id]".to_owned());
    out.push("  :capabilities".to_owned());
    out.push("  :grant <capability>".to_owned());
    out.push("  :revoke <capability>".to_owned());
    out.push("  :snapshot [id]".to_owned());
    out.push("  :snapshot-create [generation]".to_owned());
    out.push("  :namespaces".to_owned());
    out.push("  :bindings".to_owned());
    out.push("  :diff <from_generation> <to_generation>".to_owned());
    out.push("  :run <symbol|hash> [args ...]".to_owned());
    out.push("  :sandbox on|off".to_owned());
    out.push("  :limits [timeout_ms output_limit_bytes]".to_owned());
    out.push("  :quit".to_owned());
    out.push("Legacy changeset compatibility commands use the :legacy-* prefix.".to_owned());
    out.push("Bare lines are evaluated as expressions via fn main() { ... }.".to_owned());
    assert(texts(out@) =~= help_lines());
    out
}

/// Where reading the arguments of the program stands.
pub struct Chosen {
    pub explicit: Option<Seq<char>>,
    pub port: int,
    pub namespace: Seq<char>,
}

/// What the arguments add, or why they are refused.
pub open spec fn chosen(args: Seq<Seq<char>>, c: Chosen) -> Result<Chosen, Seq<char>>
    decreases args.len(),
{
    if args.len() == 0 {
        Ok(c)
    } else if args[0] == "--port"@ {
        if args.len() == 1 {
            Err("Missing value for --port"@)
        } else {
            match within(number(args[1], false), 0, u16::MAX as int) {
                Some(port) => chosen(args.skip(2), Chosen { port, ..c }),
                None => Err("Invalid port: "@ + args[1]),
            }
        }
    } else if args[0] == "--server"@ {
        if args.len() == 1 {
            Err("Missing value for --server"@)
        } else {
            chosen(args.skip(2), Chosen { explicit: Some(args[1]), ..c })
        }
    } else if args[0] == "--namespace"@ {
        if args.len() == 1 {
            Err("Missing value for --namespace"@)
        } else {
            chosen(args.skip(2), Chosen { namespace: args[1], ..c })
        }
    } else {
        Err("Unknown option: "@ + args[0])
    }
}

/// The state that a session with the given arguments starts in.
pub open spec fn session(args: Seq<Seq<char>>) -> Result<Repl, Seq<char>> {
    match chosen(args, Chosen { explicit: None, port: 4002, namespace: "repl"@ }) {
        Ok(c) => Ok(
            Repl {
                server_url: match c.explicit {
                    Some(url) => url,
                    None => "http://127.0.0.1:"@ + decimal(c.port as nat),
                },
                namespace: c.namespace,
                ..fresh_session()
            },
        ),
        Err(e) => Err(e),
    }
}

/// The state that a session with the given arguments starts in, or why they
/// are refused.
pub fn parse_arguments(args: &Vec<String>) -> (r: Result<ReplState, String>)
    ensures
        match r {
            Ok(s) => session(texts(args@)) == Ok::<Repl, Seq<char>>(s.model()),
            Err(e) => session(texts(args@)) == Err::<Repl, Seq<char>>(e@),
        },
{
    let ghost all = texts(args@);
    let ghost first = Chosen { explicit: None, port: 4002, namespace: "repl"@ };
    let mut explicit: Option<String> = None;
    let mut port: u16 = 4002;
    let mut namespace = "repl".to_owned();
    let mut i: usize = 0;
    assert(all.skip(0) =~= all);
    while i < args.len()
        invariant
            i <= args@.len(),
            all == texts(args@),
            first == (Chosen { explicit: None, port: 4002, namespace: "repl"@ }),
            chosen(all, first) == chosen(
                all.skip(i as int),
                (Chosen { explicit: text_of(explicit), port: port as int, namespace: namespace@ }),
            ),
        decreases args@.len() - i,
    {
        let ghost rest = all.skip(i as int);
        assert(rest[0] == args@[i as int]@);
        let option = args[i].as_str();
        if !same(option, "--port") && !same(option, "--server") && !same(option, "--namespace") {
            let mut out = "Unknown option: ".to_owned();
            out.append(option);
            return Err(out);
        }
        if i + 1 >= args.len() {
            if same(option, "--port") {
                return Err("Missing value for --port".to_owned());
            } else if same(option, "--server") {
                return Err("Missing value for --server".to_owned());
            } else {
                return Err("Missing value for --namespace".to_owned());
            }
        }
        assert(rest[1] == args@[i + 1]@);
        if same(option, "--port") {
            match parse_port(args[i + 1].as_str()) {
                Ok(n) => {
                    port = n;
                },
                Err(e) => {
                    return Err(e);
                },
            }
        } else if same(option, "--server") {
            explicit = Some(args[i + 1].clone());
        } else {
            namespace = args[i + 1].clone();
        }
        assert(rest.skip(2) =~= all.skip(i as int + 2));
        i = i + 2;
    }
    let mut state = ReplState::default();
    state.server_url = resolve_server_url(explicit, port);
    state.namespace = namespace;
    Ok(state)
}

} // verus!
