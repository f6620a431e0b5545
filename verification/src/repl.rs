//! What a line typed into a session does.
use vstd::prelude::*;
use crate::json::{
    at, count, count_value, data_of, int_of, int_or_null, int_value, member, object, text_list,
    text_or_null, text_value, texts_value, Data, Json,
};
use crate::mcp::{getting, posting, ApiCall};
use crate::names::text_of;
use crate::order::{
    ascending_texts_unique, sort_texts, sorted_texts, sorting_ascends, strictly_ascending,
    text_irreflexive, text_less,
};
use crate::repl_print::{number_or, number_text};
use crate::repl_state::{
    asking, done, failed, help_lines, lemma_replaced_absent, print, print_help, request, say,
    strip_bracketed_paste_markers, turn_of, unmarked, Move, Next, Pasted, PastedFor, Repl,
    ReplControl, ReplState, Then, Turn,
};
use crate::text::{
    decimal, decimal_int, dup_strings, holds, push_i64, push_u64, push_usize, same, texts,
};
use crate::words::{
    char_is_whitespace, number, parse_i64, parse_u64, parse_usize, split_words, trim, trimmed,
    within, words,
};

verus! {

/// The number in the range of `i64` that a word writes.
pub open spec fn integer(word: Seq<char>) -> Option<int> {
    within(number(word, true), i64::MIN as int, i64::MAX as int)
}

/// The words from the `from`th on.
fn rest_of(parts: &Vec<String>, from: usize) -> (r: Vec<String>)
    requires
        from <= parts@.len(),
    ensures
        texts(r@) == texts(parts@).skip(from as int),
{
    let mut out: Vec<String> = Vec::new();
    let mut i: usize = from;
    while i < parts.len()
        invariant
            from <= i <= parts@.len(),
            out@.len() == i - from,
            forall|k: int| 0 <= k < out@.len() ==> (#[trigger] out@[k])@ == parts@[from + k]@,
        decreases parts@.len() - i,
    {
        out.push(parts[i].clone());
        i = i + 1;
    }
    assert(texts(out@) =~= texts(parts@).skip(from as int));
    out
}

/// The texts other than a given one.
pub open spec fn without(s: Seq<Seq<char>>, x: Seq<char>) -> Seq<Seq<char>>
    decreases s.len(),
{
    if s.len() == 0 {
        Seq::empty()
    } else if s.last() == x {
        without(s.drop_last(), x)
    } else {
        without(s.drop_last(), x).push(s.last())
    }
}

/// What is revoked is gone, and everything else stays.
pub proof fn revoking_removes(s: Seq<Seq<char>>, x: Seq<char>)
    ensures
        !without(s, x).contains(x),
        forall|y: Seq<char>| y != x ==> (without(s, x).contains(y) <==> #[trigger] s.contains(y)),
    decreases s.len(),
{
    if s.len() > 0 {
        let front = s.drop_last();
        revoking_removes(front, x);
        let r = without(front, x);
        assert(s =~= front.push(s.last()));
        assert forall|y: Seq<char>| s.contains(y) <==> front.contains(y) || y == s.last() by {
            if front.contains(y) {
                let k = choose|k: int| 0 <= k < front.len() && front[k] == y;
                assert(s[k] == y);
            }
            if y == s.last() {
                assert(s[s.len() - 1] == y);
            }
            if s.contains(y) && y != s.last() {
                let k = choose|k: int| 0 <= k < s.len() && s[k] == y;
                assert(front[k] == y);
            }
        }
        if s.last() != x {
            let out = r.push(s.last());
            assert forall|y: Seq<char>| out.contains(y) <==> r.contains(y) || y == s.last() by {
                if r.contains(y) {
                    let k = choose|k: int| 0 <= k < r.len() && r[k] == y;
                    assert(out[k] == y);
                }
                if y == s.last() {
                    assert(out[out.len() - 1] == y);
                }
                if out.contains(y) && y != s.last() {
                    let k = choose|k: int| 0 <= k < out.len() && out[k] == y;
                    assert(r[k] == y);
                }
            }
        }
    }
}

fn remove_all(v: &Vec<String>, x: &str) -> (r: Vec<String>)
    ensures
        texts(r@) == without(texts(v@), x@),
{
    let ghost all = texts(v@);
    let mut out: Vec<String> = Vec::new();
    let mut i: usize = 0;
    assert(texts(out@) =~= without(all.take(0), x@));
    while i < v.len()
        invariant
            i <= v@.len(),
            all == texts(v@),
            texts(out@) == without(all.take(i as int), x@),
        decreases v@.len() - i,
    {
        assert(all.take(i as int + 1).drop_last() =~= all.take(i as int));
        if !same(v[i].as_str(), x) {
            let ghost before = texts(out@);
            out.push(v[i].clone());
            assert(texts(out@) =~= before.push(all[i as int]));
        }
        i = i + 1;
    }
    assert(all.take(i as int) =~= all);
    out
}

/// The capabilities with one more, in order.
pub open spec fn granted(s: Seq<Seq<char>>, x: Seq<char>) -> Seq<Seq<char>> {
    if s.contains(x) {
        s
    } else {
        sorted_texts(s.push(x))
    }
}

fn add_capability(v: &Vec<String>, x: &str) -> (r: Vec<String>)
    ensures
        texts(r@) == granted(texts(v@), x@),
{
    let mut out = dup_strings(v);
    if holds(v, x) {
        out
    } else {
        out.push(x.to_owned());
        assert(texts(out@) =~= texts(v@).push(x@));
        sort_texts(&out)
    }
}

/// `:namespace <name>`
pub open spec fn namespace_turn(s: Repl, parts: Seq<Seq<char>>) -> Turn {
    if parts.len() < 2 {
        failed(s, "Usage: :namespace <name>"@)
    } else {
        let t = Repl {
            namespace: parts[1],
            symbol_revision_id: None,
            generation: None,
            revision_id: None,
            capabilities: Seq::empty(),
            draft: None,
            ..s
        };
        done(say(t, "namespace = "@ + parts[1]))
    }
}

fn namespace_command(state: &mut ReplState, parts: &Vec<String>) -> (r: Result<ReplControl, String>)
    ensures
        turn_of(*final(state), r) == namespace_turn(old(state).model(), texts(parts@)),
{
    if parts.len() < 2 {
        return Err("Usage: :namespace <name>".to_owned());
    }
    state.namespace = parts[1].clone();
    state.symbol_revision_id = None;
    state.generation = None;
    state.revision_id = None;
    state.capabilities = Vec::new();
    assert(texts(state.capabilities@) =~= Seq::empty());
    state.draft = None;
    let mut line = "namespace = ".to_owned();
    line.append(state.namespace.as_str());
    state.say(line);
    Ok(ReplControl::Continue)
}

/// `:symbols [generation]`
pub open spec fn symbols_turn(s: Repl, parts: Seq<Seq<char>>) -> Turn {
    let path = "/symbols?namespace="@ + s.namespace;
    if parts.len() < 2 {
        asking(s, getting(path), Then::Symbols)
    } else {
        match integer(parts[1]) {
            Some(n) => asking(
                s,
                getting(path + "&generation="@ + decimal_int(n)),
                Then::Symbols,
            ),
            None => failed(s, "Usage: :symbols [generation]"@),
        }
    }
}

fn symbols_command(state: &mut ReplState, parts: &Vec<String>) -> (r: Result<ReplControl, String>)
    ensures
        turn_of(*final(state), r) == symbols_turn(old(state).model(), texts(parts@)),
{
    let mut path = "/symbols?namespace=".to_owned();
    path.append(state.namespace.as_str());
    if parts.len() >= 2 {
        match parse_i64(parts[1].as_str()) {
            Some(n) => {
                path.append("&generation=");
                push_i64(&mut path, n);
            },
            None => {
                return Err("Usage: :symbols [generation]".to_owned());
            },
        }
    }
    request(ApiCall::get(path), Next::Symbols)
}

/// `:symbol <function|type> <name>`, where a number of parameters may follow.
pub open spec fn symbol_turn(s: Repl, parts: Seq<Seq<char>>) -> Turn {
    if parts.len() < 2 {
        failed(s, "Usage: :symbol <function|type> <name>"@)
    } else if parts[1] != "function"@ && parts[1] != "type"@ {
        failed(s, "Symbol kind must be function or type"@)
    } else if parts.len() < 3 || parts.len() > 4 || (parts.len() == 4 && within(
        number(parts[3], false),
        0,
        u64::MAX as int,
    ) is None) {
        failed(s, "Usage: :symbol <function|type> <name>"@)
    } else {
        let t = Repl {
            symbol_kind: parts[1],
            symbol: parts[2],
            symbol_revision_id: None,
            draft: None,
            capabilities: Seq::empty(),
            ..s
        };
        done(
            say(
                t,
                "symbol = "@ + parts[1] + "/"@ + parts[2]
                    + " (use :load for an existing symbol or :paste to create it)"@,
            ),
        )
    }
}

fn symbol_command(state: &mut ReplState, parts: &Vec<String>) -> (r: Result<ReplControl, String>)
    ensures
        turn_of(*final(state), r) == symbol_turn(old(state).model(), texts(parts@)),
{
    if parts.len() < 2 {
        return Err("Usage: :symbol <function|type> <name>".to_owned());
    }
    if !same(parts[1].as_str(), "function") && !same(parts[1].as_str(), "type") {
        return Err("Symbol kind must be function or type".to_owned());
    }
    if parts.len() < 3 || parts.len() > 4 {
        return Err("Usage: :symbol <function|type> <name>".to_owned());
    }
    if parts.len() == 4 && parse_u64(parts[3].as_str()).is_none() {
        return Err("Usage: :symbol <function|type> <name>".to_owned());
    }
    state.symbol_kind = parts[1].clone();
    state.symbol = parts[2].clone();
    state.symbol_revision_id = None;
    state.draft = None;
    state.capabilities = Vec::new();
    assert(texts(state.capabilities@) =~= Seq::empty());
    let mut line = "symbol = ".to_owned();
    line.append(state.symbol_kind.as_str());
    line.append("/");
    line.append(state.symbol.as_str());
    line.append(" (use :load for an existing symbol or :paste to create it)");
    state.say(line);
    Ok(ReplControl::Continue)
}

/// What is stored of the selected symbol.
pub open spec fn symbol_body(s: Repl, source: Seq<char>, generation: int) -> Data {
    object()
        .with("namespace"@, Data::Text(s.namespace))
        .with("kind"@, Data::Text(s.symbol_kind))
        .with("symbol"@, Data::Text(s.symbol))
        .with("source"@, Data::Text(source))
        .with("expected_generation"@, Data::Int(generation))
        .with("expected_revision_id"@, text_or_null(s.symbol_revision_id))
        .with("sandbox"@, Data::Bool(s.sandbox))
        .with("capabilities"@, text_list(s.capabilities))
}

/// What is stored of the selected symbol.
pub fn symbol_value(state: &ReplState, source: &str, generation: i64) -> (r: Json)
    ensures
        data_of(r) == symbol_body(state.model(), source@, generation as int),
{
    Json::object()
        .with("namespace", Json::text(state.namespace.as_str()))
        .with("kind", Json::text(state.symbol_kind.as_str()))
        .with("symbol", Json::text(state.symbol.as_str()))
        .with("source", Json::text(source))
        .with("expected_generation", Json::Int(generation))
        .with("expected_revision_id", text_value(&state.symbol_revision_id))
        .with("sandbox", Json::Bool(state.sandbox))
        .with("capabilities", texts_value(&state.capabilities))
}

/// `:save`
pub open spec fn save_turn(s: Repl, parts: Seq<Seq<char>>) -> Turn {
    match s.draft {
        None => failed(s, "No symbol draft. Use :paste first."@),
        Some(source) => match s.generation {
            Some(n) => asking(s, posting("/symbols/put"@, symbol_body(s, source, n)), Then::Saved),
            None => asking(s, getting("/namespaces"@), Then::SaveGeneration),
        },
    }
}

fn save_command(state: &mut ReplState, parts: &Vec<String>) -> (r: Result<ReplControl, String>)
    ensures
        turn_of(*final(state), r) == save_turn(old(state).model(), texts(parts@)),
{
    match &state.draft {
        None => Err("No symbol draft. Use :paste first.".to_owned()),
        Some(source) => match state.generation {
            Some(n) => {
                let body = symbol_value(state, source.as_str(), n);
                request(ApiCall::post("/symbols/put", body), Next::Saved)
            },
            None => request(ApiCall::get("/namespaces".to_owned()), Next::SaveGeneration),
        },
    }
}

/// The text, or another.
pub open spec fn shown_or(s: Option<Seq<char>>, otherwise: Seq<char>) -> Seq<char> {
    match s {
        Some(t) => t,
        None => otherwise,
    }
}

/// The text, or another.
pub fn text_or(s: &Option<String>, otherwise: &str) -> (r: String)
    ensures
        r@ == shown_or(text_of(*s), otherwise@),
{
    match s {
        Some(t) => t.clone(),
        None => otherwise.to_owned(),
    }
}

/// `:legacy-changeset [name]`
pub open spec fn legacy_changeset_turn(s: Repl, parts: Seq<Seq<char>>) -> Turn {
    if parts.len() < 2 {
        done(say(s, "changeset = "@ + s.changeset + " revision = "@ + shown_or(s.revision_id, "unset"@)))
    } else {
        let t = Repl {
            changeset: parts[1],
            revision_id: None,
            capabilities: Seq::empty(),
            draft: None,
            ..s
        };
        done(say(t, "changeset = "@ + parts[1] + " (use :load or :paste)"@))
    }
}

fn legacy_changeset_command(state: &mut ReplState, parts: &Vec<String>) -> (r: Result<ReplControl, String>)
    ensures
        turn_of(*final(state), r) == legacy_changeset_turn(old(state).model(), texts(parts@)),
{
    if parts.len() < 2 {
        let mut line = "changeset = ".to_owned();
        line.append(state.changeset.as_str());
        line.append(" revision = ");
        line.append(text_or(&state.revision_id, "unset").as_str());
        state.say(line);
        return Ok(ReplControl::Continue);
    }
    state.changeset = parts[1].clone();
    state.revision_id = None;
    state.capabilities = Vec::new();
    assert(texts(state.capabilities@) =~= Seq::empty());
    state.draft = None;
    let mut line = "changeset = ".to_owned();
    line.append(state.changeset.as_str());
    line.append(" (use :load or :paste)");
    state.say(line);
    Ok(ReplControl::Continue)
}

/// `:legacy-changesets`
pub open spec fn legacy_changesets_turn(s: Repl, parts: Seq<Seq<char>>) -> Turn {
    asking(s, getting("/changesets?namespace="@ + s.namespace), Then::Changesets)
}

fn legacy_changesets_command(state: &mut ReplState, parts: &Vec<String>) -> (r: Result<ReplControl, String>)
    ensures
        turn_of(*final(state), r) == legacy_changesets_turn(old(state).model(), texts(parts@)),
{
    let mut path = "/changesets?namespace=".to_owned();
    path.append(state.namespace.as_str());
    request(ApiCall::get(path), Next::Changesets)
}

/// `:resources`
pub open spec fn resources_turn(s: Repl, parts: Seq<Seq<char>>) -> Turn {
    asking(s, getting("/resources?namespace="@ + s.namespace), Then::Resources)
}

fn resources_command(state: &mut ReplState, parts: &Vec<String>) -> (r: Result<ReplControl, String>)
    ensures
        turn_of(*final(state), r) == resources_turn(old(state).model(), texts(parts@)),
{
    let mut path = "/resources?namespace=".to_owned();
    path.append(state.namespace.as_str());
    request(ApiCall::get(path), Next::Resources)
}

/// `:bindings`
pub open spec fn bindings_turn(s: Repl, parts: Seq<Seq<char>>) -> Turn {
    asking(s, getting("/namespaces/"@ + s.namespace), Then::Bindings)
}

fn bindings_command(state: &mut ReplState, parts: &Vec<String>) -> (r: Result<ReplControl, String>)
    ensures
        turn_of(*final(state), r) == bindings_turn(old(state).model(), texts(parts@)),
{
    let mut path = "/namespaces/".to_owned();
    path.append(state.namespace.as_str());
    request(ApiCall::get(path), Next::Bindings)
}

/// `:resource <name>`
pub open spec fn resource_turn(s: Repl, parts: Seq<Seq<char>>) -> Turn {
    if parts.len() < 2 {
        failed(s, "Usage: :resource <name>"@)
    } else {
        asking(s, getting("/resources/"@ + s.namespace + "/"@ + parts[1]), Then::Show)
    }
}

fn resource_command(state: &mut ReplState, parts: &Vec<String>) -> (r: Result<ReplControl, String>)
    ensures
        turn_of(*final(state), r) == resource_turn(old(state).model(), texts(parts@)),
{
    if parts.len() < 2 {
        return Err("Usage: :resource <name>".to_owned());
    }
    let mut path = "/resources/".to_owned();
    path.append(state.namespace.as_str());
    path.append("/");
    path.append(parts[1].as_str());
    request(ApiCall::get(path), Next::Show)
}

/// `:resource-put <name> [kind]`
pub open spec fn resource_put_turn(s: Repl, parts: Seq<Seq<char>>) -> Turn {
    if parts.len() < 2 || parts.len() > 3 {
        failed(s, "Usage: :resource-put <name> [kind]"@)
    } else {
        let t = say(say(s, "resource JSON; end with :end"@), "paste mode; end with :end"@);
        Turn {
            state: t,
            outcome: Ok(
                Move::PasteResource {
                    name: parts[1],
                    kind: if parts.len() == 3 {
                        parts[2]
                    } else {
                        "secret/json"@
                    },
                },
            ),
        }
    }
}

fn resource_put_command(state: &mut ReplState, parts: &Vec<String>) -> (r: Result<ReplControl, String>)
    ensures
        turn_of(*final(state), r) == resource_put_turn(old(state).model(), texts(parts@)),
{
    if parts.len() < 2 || parts.len() > 3 {
        return Err("Usage: :resource-put <name> [kind]".to_owned());
    }
    let kind = if parts.len() == 3 {
        parts[2].clone()
    } else {
        "secret/json".to_owned()
    };
    state.say("resource JSON; end with :end".to_owned());
    state.say("paste mode; end with :end".to_owned());
    Ok(ReplControl::PasteResource { name: parts[1].clone(), kind })
}

/// `:resource-read <name> [resource_id]`
pub open spec fn resource_read_turn(s: Repl, parts: Seq<Seq<char>>) -> Turn {
    if parts.len() < 2 || parts.len() > 3 {
        failed(s, "Usage: :resource-read <name> [resource_id]"@)
    } else {
        let id = if parts.len() == 3 {
            Data::Text(parts[2])
        } else {
            Data::Null
        };
        let body = object()
            .with("namespace"@, Data::Text(s.namespace))
            .with("name"@, Data::Text(parts[1]))
            .with("resource_id"@, id);
        asking(s, posting("/resources/read"@, body), Then::Show)
    }
}

fn resource_read_command(state: &mut ReplState, parts: &Vec<String>) -> (r: Result<ReplControl, String>)
    ensures
        turn_of(*final(state), r) == resource_read_turn(old(state).model(), texts(parts@)),
{
    if parts.len() < 2 || parts.len() > 3 {
        return Err("Usage: :resource-read <name> [resource_id]".to_owned());
    }
    let id = if parts.len() == 3 {
        Json::text(parts[2].as_str())
    } else {
        Json::Null
    };
    let body = Json::object()
        .with("namespace", Json::text(state.namespace.as_str()))
        .with("name", Json::text(parts[1].as_str()))
        .with("resource_id", id);
    request(ApiCall::post("/resources/read", body), Next::Show)
}

/// `:capabilities`
pub open spec fn capabilities_turn(s: Repl, parts: Seq<Seq<char>>) -> Turn {
    if s.capabilities.len() == 0 {
        done(say(s, "capabilities = []"@))
    } else {
        done(print(s, s.capabilities))
    }
}

fn capabilities_command(state: &mut ReplState, parts: &Vec<String>) -> (r: Result<ReplControl, String>)
    ensures
        turn_of(*final(state), r) == capabilities_turn(old(state).model(), texts(parts@)),
{
    if state.capabilities.len() == 0 {
        state.say("capabilities = []".to_owned());
    } else {
        let lines = dup_strings(&state.capabilities);
        state.print(lines);
    }
    Ok(ReplControl::Continue)
}

/// `:grant <capability>`
pub open spec fn grant_turn(s: Repl, parts: Seq<Seq<char>>) -> Turn {
    if parts.len() != 2 {
        failed(s, "Usage: :grant <capability>"@)
    } else {
        let t = Repl { capabilities: granted(s.capabilities, parts[1]), sandbox: true, ..s };
        done(say(t, "granted "@ + parts[1] + " (takes effect on :save)"@))
    }
}

fn grant_command(state: &mut ReplState, parts: &Vec<String>) -> (r: Result<ReplControl, String>)
    ensures
        turn_of(*final(state), r) == grant_turn(old(state).model(), texts(parts@)),
{
    if parts.len() != 2 {
        return Err("Usage: :grant <capability>".to_owned());
    }
    state.capabilities = add_capability(&state.capabilities, parts[1].as_str());
    state.sandbox = true;
    let mut line = "granted ".to_owned();
    line.append(parts[1].as_str());
    line.append(" (takes effect on :save)");
    state.say(line);
    Ok(ReplControl::Continue)
}

/// `:revoke <capability>`
pub open spec fn revoke_turn(s: Repl, parts: Seq<Seq<char>>) -> Turn {
    if parts.len() != 2 {
        failed(s, "Usage: :revoke <capability>"@)
    } else {
        let t = Repl { capabilities: without(s.capabilities, parts[1]), ..s };
        done(say(t, "revoked "@ + parts[1] + " (takes effect on :save)"@))
    }
}

fn revoke_command(state: &mut ReplState, parts: &Vec<String>) -> (r: Result<ReplControl, String>)
    ensures
        turn_of(*final(state), r) == revoke_turn(old(state).model(), texts(parts@)),
{
    if parts.len() != 2 {
        return Err("Usage: :revoke <capability>".to_owned());
    }
    state.capabilities = remove_all(&state.capabilities, parts[1].as_str());
    let mut line = "revoked ".to_owned();
    line.append(parts[1].as_str());
    line.append(" (takes effect on :save)");
    state.say(line);
    Ok(ReplControl::Continue)
}

/// `:legacy-load [changeset]`
pub open spec fn legacy_load_turn(s: Repl, parts: Seq<Seq<char>>) -> Turn {
    let t = if parts.len() > 1 {
        Repl { changeset: parts[1], ..s }
    } else {
        s
    };
    asking(
        t,
        getting("/changesets/"@ + t.namespace + "/"@ + t.changeset),
        Then::LoadChangeset,
    )
}

fn legacy_load_command(state: &mut ReplState, parts: &Vec<String>) -> (r: Result<ReplControl, String>)
    ensures
        turn_of(*final(state), r) == legacy_load_turn(old(state).model(), texts(parts@)),
{
    if parts.len() > 1 {
        state.changeset = parts[1].clone();
    }
    let mut path = "/changesets/".to_owned();
    path.append(state.namespace.as_str());
    path.append("/");
    path.append(state.changeset.as_str());
    request(ApiCall::get(path), Next::LoadChangeset)
}

/// `:snapshot [id]`
pub open spec fn snapshot_turn(s: Repl, parts: Seq<Seq<char>>) -> Turn {
    if parts.len() < 2 {
        done(say(s, "snapshot = "@ + number_or(s.snapshot_id, "unset"@)))
    } else {
        match integer(parts[1]) {
            Some(n) => done(
                say(Repl { snapshot_id: Some(n), ..s }, "snapshot = "@ + decimal_int(n)),
            ),
            None => failed(s, "Invalid snapshot id: "@ + parts[1]),
        }
    }
}

fn snapshot_command(state: &mut ReplState, parts: &Vec<String>) -> (r: Result<ReplControl, String>)
    ensures
        turn_of(*final(state), r) == snapshot_turn(old(state).model(), texts(parts@)),
{
    if parts.len() < 2 {
        let mut line = "snapshot = ".to_owned();
        line.append(number_text(state.snapshot_id, "unset").as_str());
        state.say(line);
        return Ok(ReplControl::Continue);
    }
    match parse_i64(parts[1].as_str()) {
        Some(n) => {
            state.snapshot_id = Some(n);
            let mut line = "snapshot = ".to_owned();
            push_i64(&mut line, n);
            state.say(line);
            Ok(ReplControl::Continue)
        },
        None => {
            let mut out = "Invalid snapshot id: ".to_owned();
            out.append(parts[1].as_str());
            Err(out)
        },
    }
}

/// The request that freezes a generation.
pub open spec fn snapshot_turn_for(s: Repl, generation: Option<int>) -> Turn {
    asking(
        s,
        posting(
            "/snapshot"@,
            object()
                .with("namespace"@, Data::Text(s.namespace))
                .with("generation"@, int_or_null(generation)),
        ),
        Then::SnapshotCreated,
    )
}

/// The request that freezes a generation.
pub fn create_snapshot(state: &mut ReplState, generation: Option<i64>) -> (r: Result<
    ReplControl,
    String,
>)
    ensures
        turn_of(*final(state), r) == snapshot_turn_for(old(state).model(), int_of(generation)),
{
    let body = Json::object()
        .with("namespace", Json::text(state.namespace.as_str()))
        .with("generation", int_value(generation));
    request(ApiCall::post("/snapshot", body), Next::SnapshotCreated)
}

/// `:snapshot-create [generation]`
pub open spec fn snapshot_create_turn(s: Repl, parts: Seq<Seq<char>>) -> Turn {
    if parts.len() < 2 {
        snapshot_turn_for(s, None)
    } else {
        match integer(parts[1]) {
            Some(n) => snapshot_turn_for(s, Some(n)),
            None => failed(s, "Usage: :snapshot-create [generation]"@),
        }
    }
}

fn snapshot_create_command(state: &mut ReplState, parts: &Vec<String>) -> (r: Result<ReplControl, String>)
    ensures
        turn_of(*final(state), r) == snapshot_create_turn(old(state).model(), texts(parts@)),
{
    if parts.len() < 2 {
        return create_snapshot(state, None);
    }
    match parse_i64(parts[1].as_str()) {
        Some(n) => create_snapshot(state, Some(n)),
        None => Err("Usage: :snapshot-create [generation]".to_owned()),
    }
}

/// `:diff <from_generation> <to_generation>`
pub open spec fn diff_turn(s: Repl, parts: Seq<Seq<char>>) -> Turn {
    if parts.len() < 3 {
        failed(s, "Usage: :diff <from_generation> <to_generation>"@)
    } else {
        asking(
            s,
            getting("/namespaces/"@ + s.namespace + "/diff?from="@ + parts[1] + "&to="@ + parts[2]),
            Then::Diff,
        )
    }
}

fn diff_command(state: &mut ReplState, parts: &Vec<String>) -> (r: Result<ReplControl, String>)
    ensures
        turn_of(*final(state), r) == diff_turn(old(state).model(), texts(parts@)),
{
    if parts.len() < 3 {
        return Err("Usage: :diff <from_generation> <to_generation>".to_owned());
    }
    let mut path = "/namespaces/".to_owned();
    path.append(state.namespace.as_str());
    path.append("/diff?from=");
    path.append(parts[1].as_str());
    path.append("&to=");
    path.append(parts[2].as_str());
    request(ApiCall::get(path), Next::Diff)
}

/// `:show`
pub open spec fn show_turn(s: Repl, parts: Seq<Seq<char>>) -> Turn {
    match s.draft {
        Some(draft) => done(say(s, draft)),
        None => done(say(s, "draft is empty"@)),
    }
}

fn show_command(state: &mut ReplState, parts: &Vec<String>) -> (r: Result<ReplControl, String>)
    ensures
        turn_of(*final(state), r) == show_turn(old(state).model(), texts(parts@)),
{
    let line = text_or(&state.draft, "draft is empty");
    state.say(line);
    Ok(ReplControl::Continue)
}

/// `:legacy-save`
pub open spec fn legacy_save_turn(s: Repl, parts: Seq<Seq<char>>) -> Turn {
    match s.draft {
        None => failed(s, "No draft. Use :paste first."@),
        Some(source) => {
            let body = object()
                .with("namespace"@, Data::Text(s.namespace))
                .with("changeset"@, Data::Text(s.changeset))
                .with("source"@, Data::Text(source))
                .with("base_snapshot_id"@, int_or_null(s.snapshot_id))
                .with("sandbox"@, Data::Bool(s.sandbox))
                .with("capabilities"@, text_list(s.capabilities))
                .with("expected_parent_revision_id"@, text_or_null(s.revision_id));
            asking(s, posting("/changesets/save"@, body), Then::ChangesetSaved)
        },
    }
}

fn legacy_save_command(state: &mut ReplState, parts: &Vec<String>) -> (r: Result<ReplControl, String>)
    ensures
        turn_of(*final(state), r) == legacy_save_turn(old(state).model(), texts(parts@)),
{
    match &state.draft {
        None => Err("No draft. Use :paste first.".to_owned()),
        Some(source) => {
            let body = Json::object()
                .with("namespace", Json::text(state.namespace.as_str()))
                .with("changeset", Json::text(state.changeset.as_str()))
                .with("source", Json::text(source.as_str()))
                .with("base_snapshot_id", int_value(state.snapshot_id))
                .with("sandbox", Json::Bool(state.sandbox))
                .with("capabilities", texts_value(&state.capabilities))
                .with("expected_parent_revision_id", text_value(&state.revision_id));
            request(ApiCall::post("/changesets/save", body), Next::ChangesetSaved)
        },
    }
}

/// `:legacy-edit <start_byte> <end_byte>`
pub open spec fn legacy_edit_turn(s: Repl, parts: Seq<Seq<char>>) -> Turn {
    if parts.len() < 2 {
        failed(s, "Usage: :edit <start_byte> <end_byte>"@)
    } else {
        match within(number(parts[1], false), 0, usize::MAX as int) {
            None => failed(s, "Edit start must be a byte offset"@),
            Some(start) => if parts.len() < 3 {
                failed(s, "Usage: :edit <start_byte> <end_byte>"@)
            } else {
                match within(number(parts[2], false), 0, usize::MAX as int) {
                    None => failed(s, "Edit end must be a byte offset"@),
                    Some(end) => if parts.len() > 3 {
                        failed(s, "Usage: :edit <start_byte> <end_byte>"@)
                    } else {
                        match s.revision_id {
                            None => failed(s, "No saved revision. Use :save first."@),
                            Some(revision_id) => Turn {
                                state: say(
                                    say(
                                        s,
                                        "replacement text; use an empty paste to delete the range"@,
                                    ),
                                    "paste mode; end with :end"@,
                                ),
                                outcome: Ok(
                                    Move::Paste(
                                        PastedFor::Edit {
                                            start: start as nat,
                                            end: end as nat,
                                            revision_id,
                                        },
                                    ),
                                ),
                            },
                        }
                    },
                }
            },
        }
    }
}

fn legacy_edit_command(state: &mut ReplState, parts: &Vec<String>) -> (r: Result<ReplControl, String>)
    ensures
        turn_of(*final(state), r) == legacy_edit_turn(old(state).model(), texts(parts@)),
{
    if parts.len() < 2 {
        return Err("Usage: :edit <start_byte> <end_byte>".to_owned());
    }
    let start: usize = match parse_usize(parts[1].as_str()) {
        Some(n) => n,
        None => {
            return Err("Edit start must be a byte offset".to_owned());
        },
    };
    if parts.len() < 3 {
        return Err("Usage: :edit <start_byte> <end_byte>".to_owned());
    }
    let end: usize = match parse_usize(parts[2].as_str()) {
        Some(n) => n,
        None => {
            return Err("Edit end must be a byte offset".to_owned());
        },
    };
    if parts.len() > 3 {
        return Err("Usage: :edit <start_byte> <end_byte>".to_owned());
    }
    let revision_id = match &state.revision_id {
        Some(id) => id.clone(),
        None => {
            return Err("No saved revision. Use :save first.".to_owned());
        },
    };
    state.say("replacement text; use an empty paste to delete the range".to_owned());
    state.say("paste mode; end with :end".to_owned());
    Ok(ReplControl::Paste(Pasted::Edit { start, end, revision_id }))
}

/// `:legacy-compile`
pub open spec fn legacy_compile_turn(s: Repl, parts: Seq<Seq<char>>) -> Turn {
    match s.revision_id {
        None => failed(s, "No saved revision. Use :save first."@),
        Some(revision_id) => {
            let body = object()
                .with("namespace"@, Data::Text(s.namespace))
                .with("changeset"@, Data::Text(s.changeset))
                .with("revision_id"@, Data::Text(revision_id));
            asking(s, posting("/changesets/compile"@, body), Then::Compiled)
        },
    }
}

fn legacy_compile_command(state: &mut ReplState, parts: &Vec<String>) -> (r: Result<ReplControl, String>)
    ensures
        turn_of(*final(state), r) == legacy_compile_turn(old(state).model(), texts(parts@)),
{
    match &state.revision_id {
        None => Err("No saved revision. Use :save first.".to_owned()),
        Some(revision_id) => {
            let body = Json::object()
                .with("namespace", Json::text(state.namespace.as_str()))
                .with("changeset", Json::text(state.changeset.as_str()))
                .with("revision_id", Json::text(revision_id.as_str()));
            request(ApiCall::post("/changesets/compile", body), Next::Compiled)
        },
    }
}

/// `:legacy-publish [symbols ...]`
pub open spec fn legacy_publish_turn(s: Repl, parts: Seq<Seq<char>>) -> Turn {
    match s.revision_id {
        None => failed(s, "No saved revision. Use :save first."@),
        Some(revision_id) => {
            let symbols = if parts.len() < 2 {
                Data::Null
            } else {
                text_list(parts.skip(1))
            };
            let body = object()
                .with("namespace"@, Data::Text(s.namespace))
                .with("changeset"@, Data::Text(s.changeset))
                .with("revision_id"@, Data::Text(revision_id))
                .with("symbols"@, symbols);
            asking(s, posting("/changesets/publish"@, body), Then::Published)
        },
    }
}

fn legacy_publish_command(state: &mut ReplState, parts: &Vec<String>) -> (r: Result<ReplControl, String>)
    ensures
        turn_of(*final(state), r) == legacy_publish_turn(old(state).model(), texts(parts@)),
{
    match &state.revision_id {
        None => Err("No saved revision. Use :save first.".to_owned()),
        Some(revision_id) => {
            let symbols = if parts.len() < 2 {
                Json::Null
            } else {
                texts_value(&rest_of(parts, 1))
            };
            let body = Json::object()
                .with("namespace", Json::text(state.namespace.as_str()))
                .with("changeset", Json::text(state.changeset.as_str()))
                .with("revision_id", Json::text(revision_id.as_str()))
                .with("symbols", symbols);
            request(ApiCall::post("/changesets/publish", body), Next::Published)
        },
    }
}

/// The limits that a run is held to.
pub open spec fn limits(s: Repl) -> Data {
    object()
        .with("timeout_ms"@, count(s.timeout_ms))
        .with("output_limit_bytes"@, count(s.output_limit_bytes))
}

fn limits_value(state: &ReplState) -> (r: Json)
    ensures
        data_of(r) == limits(state.model()),
{
    Json::object()
        .with("timeout_ms", count_value(state.timeout_ms))
        .with("output_limit_bytes", count_value(state.output_limit_bytes as u64))
}

/// `:run <symbol|hash> [args ...]`
pub open spec fn run_turn(s: Repl, parts: Seq<Seq<char>>) -> Turn {
    match s.snapshot_id {
        None => failed(s, "No snapshot selected. Use :snapshot or :snapshot-create."@),
        Some(snapshot_id) => if parts.len() < 2 {
            failed(s, "Usage: :run <symbol|hash> [args ...]"@)
        } else {
            let body = object()
                .with("snapshot_id"@, Data::Int(snapshot_id))
                .with("target"@, Data::Text(parts[1]))
                .with("args"@, text_list(parts.skip(2)))
                .with("limits"@, limits(s));
            asking(s, posting("/run"@, body), Then::Ran)
        },
    }
}

fn run_command(state: &mut ReplState, parts: &Vec<String>) -> (r: Result<ReplControl, String>)
    ensures
        turn_of(*final(state), r) == run_turn(old(state).model(), texts(parts@)),
{
    let snapshot_id: i64 = match state.snapshot_id {
        Some(n) => n,
        None => {
            return Err("No snapshot selected. Use :snapshot or :snapshot-create.".to_owned());
        },
    };
    if parts.len() < 2 {
        return Err("Usage: :run <symbol|hash> [args ...]".to_owned());
    }
    let body = Json::object()
        .with("snapshot_id", Json::Int(snapshot_id))
        .with("target", Json::text(parts[1].as_str()))
        .with("args", texts_value(&rest_of(parts, 2)))
        .with("limits", limits_value(state));
    request(ApiCall::post("/run", body), Next::Ran)
}

/// `:sandbox [on|off]`
pub open spec fn sandbox_turn(s: Repl, parts: Seq<Seq<char>>) -> Turn {
    if parts.len() < 2 {
        done(say(s, "sandbox = "@ + truth(s.sandbox)))
    } else if parts[1] == "on"@ {
        done(say(Repl { sandbox: true, ..s }, "sandbox = "@ + truth(true)))
    } else if parts[1] == "off"@ {
        done(say(Repl { sandbox: false, ..s }, "sandbox = "@ + truth(false)))
    } else {
        failed(s, "Usage: :sandbox on|off"@)
    }
}

fn sandbox_command(state: &mut ReplState, parts: &Vec<String>) -> (r: Result<ReplControl, String>)
    ensures
        turn_of(*final(state), r) == sandbox_turn(old(state).model(), texts(parts@)),
{
    if parts.len() >= 2 {
        if same(parts[1].as_str(), "on") {
            state.sandbox = true;
        } else if same(parts[1].as_str(), "off") {
            state.sandbox = false;
        } else {
            return Err("Usage: :sandbox on|off".to_owned());
        }
    }
    let mut line = "sandbox = ".to_owned();
    line.append(
        if state.sandbox {
            "true"
        } else {
            "false"
        },
    );
    state.say(line);
    Ok(ReplControl::Continue)
}

/// How a truth value is written.
pub open spec fn truth(b: bool) -> Seq<char> {
    if b {
        "true"@
    } else {
        "false"@
    }
}

/// The line about the limits.
pub open spec fn limits_line(s: Repl) -> Seq<char> {
    "limits timeout_ms="@ + decimal(s.timeout_ms) + " output_limit_bytes="@
        + decimal(s.output_limit_bytes)
}

fn say_limits(state: &mut ReplState)
    ensures
        final(state).model() == say(old(state).model(), limits_line(old(state).model())),
{
    let mut line = "limits timeout_ms=".to_owned();
    push_u64(&mut line, state.timeout_ms);
    line.append(" output_limit_bytes=");
    push_usize(&mut line, state.output_limit_bytes);
    state.say(line);
}

/// `:limits [timeout_ms output_limit_bytes]`. The first limit holds even where the second is no number.
pub open spec fn limits_turn(s: Repl, parts: Seq<Seq<char>>) -> Turn {
    if parts.len() < 2 {
        done(say(s, limits_line(s)))
    } else if parts.len() < 3 {
        failed(s, "Usage: :limits <timeout_ms> <output_limit_bytes>"@)
    } else {
        match within(number(parts[1], false), 0, u64::MAX as int) {
            None => failed(s, "Invalid timeout_ms"@),
            Some(timeout) => {
                let t = Repl { timeout_ms: timeout as nat, ..s };
                match within(number(parts[2], false), 0, usize::MAX as int) {
                    None => failed(t, "Invalid output_limit_bytes"@),
                    Some(limit) => {
                        let u = Repl { output_limit_bytes: limit as nat, ..t };
                        done(say(u, limits_line(u)))
                    },
                }
            },
        }
    }
}

fn limits_command(state: &mut ReplState, parts: &Vec<String>) -> (r: Result<ReplControl, String>)
    ensures
        turn_of(*final(state), r) == limits_turn(old(state).model(), texts(parts@)),
{
    if parts.len() < 2 {
        say_limits(state);
        return Ok(ReplControl::Continue);
    }
    if parts.len() < 3 {
        return Err("Usage: :limits <timeout_ms> <output_limit_bytes>".to_owned());
    }
    match parse_u64(parts[1].as_str()) {
        Some(n) => {
            state.timeout_ms = n;
        },
        None => {
            return Err("Invalid timeout_ms".to_owned());
        },
    }
    match parse_usize(parts[2].as_str()) {
        Some(n) => {
            state.output_limit_bytes = n;
        },
        None => {
            return Err("Invalid output_limit_bytes".to_owned());
        },
    }
    say_limits(state);
    Ok(ReplControl::Continue)
}

/// What a command does, by its words.
pub open spec fn command_turn(s: Repl, parts: Seq<Seq<char>>) -> Turn {
    let command = if parts.len() > 0 {
        parts[0]
    } else {
        ""@
    };
    if command == ":help"@ {
        done(print(s, help_lines()))
    } else if command == ":quit"@ || command == ":q"@ {
        Turn { state: s, outcome: Ok(Move::Exit) }
    } else if command == ":load"@ {
        asking(s, getting("/namespaces"@), Then::LoadGeneration)
    } else if command == ":namespaces"@ {
        asking(s, getting("/namespaces"@), Then::Namespaces)
    } else if command == ":paste"@ {
        Turn {
            state: say(s, "paste mode; end with :end"@),
            outcome: Ok(Move::Paste(PastedFor::Draft)),
        }
    } else if command == ":clear"@ {
        done(say(Repl { draft: None, ..s }, "draft cleared"@))
    } else if command == ":namespace"@ {
        namespace_turn(s, parts)
    } else if command == ":symbols"@ {
        symbols_turn(s, parts)
    } else if command == ":symbol"@ {
        symbol_turn(s, parts)
    } else if command == ":save"@ {
        save_turn(s, parts)
    } else if command == ":legacy-changeset"@ {
        legacy_changeset_turn(s, parts)
    } else if command == ":legacy-changesets"@ {
        legacy_changesets_turn(s, parts)
    } else if command == ":resources"@ {
        resources_turn(s, parts)
    } else if command == ":resource"@ {
        resource_turn(s, parts)
    } else if command == ":resource-put"@ {
        resource_put_turn(s, parts)
    } else if command == ":resource-read"@ {
        resource_read_turn(s, parts)
    } else if command == ":capabilities"@ {
        capabilities_turn(s, parts)
    } else if command == ":grant"@ {
        grant_turn(s, parts)
    } else if command == ":revoke"@ {
        revoke_turn(s, parts)
    } else if command == ":legacy-load"@ {
        legacy_load_turn(s, parts)
    } else if command == ":snapshot"@ {
        snapshot_turn(s, parts)
    } else if command == ":snapshot-create"@ {
        snapshot_create_turn(s, parts)
    } else if command == ":bindings"@ {
        bindings_turn(s, parts)
    } else if command == ":diff"@ {
        diff_turn(s, parts)
    } else if command == ":show"@ {
        show_turn(s, parts)
    } else if command == ":legacy-save"@ {
        legacy_save_turn(s, parts)
    } else if command == ":legacy-edit"@ {
        legacy_edit_turn(s, parts)
    } else if command == ":legacy-compile"@ {
        legacy_compile_turn(s, parts)
    } else if command == ":legacy-publish"@ {
        legacy_publish_turn(s, parts)
    } else if command == ":run"@ {
        run_turn(s, parts)
    } else if command == ":sandbox"@ {
        sandbox_turn(s, parts)
    } else if command == ":limits"@ {
        limits_turn(s, parts)
    } else {
        failed(s, "Unknown command: "@ + command)
    }
}

/// What a command does.
pub fn handle_command(state: &mut ReplState, line: &str) -> (r: Result<ReplControl, String>)
    ensures
        turn_of(*final(state), r) == command_turn(old(state).model(), words(line@)),
{
    let parts = split_words(line);
    let command = if parts.len() > 0 {
        parts[0].as_str()
    } else {
        ""
    };
    if same(command, ":help") {
        state.print(print_help());
        Ok(ReplControl::Continue)
    } else if same(command, ":quit") || same(command, ":q") {
        Ok(ReplControl::Exit)
    } else if same(command, ":load") {
        request(ApiCall::get("/namespaces".to_owned()), Next::LoadGeneration)
    } else if same(command, ":namespaces") {
        request(ApiCall::get("/namespaces".to_owned()), Next::Namespaces)
    } else if same(command, ":paste") {
        state.say("paste mode; end with :end".to_owned());
        Ok(ReplControl::Paste(Pasted::Draft))
    } else if same(command, ":clear") {
        state.draft = None;
        state.say("draft cleared".to_owned());
        Ok(ReplControl::Continue)
    } else if same(command, ":namespace") {
        namespace_command(state, &parts)
    } else if same(command, ":symbols") {
        symbols_command(state, &parts)
    } else if same(command, ":symbol") {
        symbol_command(state, &parts)
    } else if same(command, ":save") {
        save_command(state, &parts)
    } else if same(command, ":legacy-changeset") {
        legacy_changeset_command(state, &parts)
    } else if same(command, ":legacy-changesets") {
        legacy_changesets_command(state, &parts)
    } else if same(command, ":resources") {
        resources_command(state, &parts)
    } else if same(command, ":resource") {
        resource_command(state, &parts)
    } else if same(command, ":resource-put") {
        resource_put_command(state, &parts)
    } else if same(command, ":resource-read") {
        resource_read_command(state, &parts)
    } else if same(command, ":capabilities") {
        capabilities_command(state, &parts)
    } else if same(command, ":grant") {
        grant_command(state, &parts)
    } else if same(command, ":revoke") {
        revoke_command(state, &parts)
    } else if same(command, ":legacy-load") {
        legacy_load_command(state, &parts)
    } else if same(command, ":snapshot") {
        snapshot_command(state, &parts)
    } else if same(command, ":snapshot-create") {
        snapshot_create_command(state, &parts)
    } else if same(command, ":bindings") {
        bindings_command(state, &parts)
    } else if same(command, ":diff") {
        diff_command(state, &parts)
    } else if same(command, ":show") {
        show_command(state, &parts)
    } else if same(command, ":legacy-save") {
        legacy_save_command(state, &parts)
    } else if same(command, ":legacy-edit") {
        legacy_edit_command(state, &parts)
    } else if same(command, ":legacy-compile") {
        legacy_compile_command(state, &parts)
    } else if same(command, ":legacy-publish") {
        legacy_publish_command(state, &parts)
    } else if same(command, ":run") {
        run_command(state, &parts)
    } else if same(command, ":sandbox") {
        sandbox_command(state, &parts)
    } else if same(command, ":limits") {
        limits_command(state, &parts)
    } else {
        let mut out = "Unknown command: ".to_owned();
        out.append(command);
        Err(out)
    }
}

proof fn lemma_without_ascends(s: Seq<Seq<char>>, x: Seq<char>)
    requires
        strictly_ascending(s),
    ensures
        strictly_ascending(without(s, x)),
    decreases s.len(),
{
    if s.len() > 0 {
        let front = s.drop_last();
        assert forall|i: int, j: int| 0 <= i < j < front.len() implies text_less(
            #[trigger] front[i],
            #[trigger] front[j],
        ) by {
            assert(text_less(s[i], s[j]));
        }
        lemma_without_ascends(front, x);
        let w = without(front, x);
        if s.last() != x {
            let r = w.push(s.last());
            revoking_removes(front, x);
            assert forall|i: int, j: int| 0 <= i < j < r.len() implies text_less(
                #[trigger] r[i],
                #[trigger] r[j],
            ) by {
                if j < w.len() {
                    assert(text_less(w[i], w[j]));
                } else {
                    assert(w.contains(w[i]));
                    assert(w[i] != x);
                    assert(front.contains(w[i]));
                    let k = choose|k: int| 0 <= k < front.len() && front[k] == w[i];
                    assert(text_less(s[k], s[s.len() - 1]));
                }
            }
        }
    }
}

proof fn lemma_granted(s: Seq<Seq<char>>, c: Seq<char>)
    requires
        strictly_ascending(s),
    ensures
        strictly_ascending(granted(s, c)),
        forall|x: Seq<char>| #[trigger]
            granted(s, c).contains(x) <==> s.contains(x) || x == c,
        without(granted(s, c), c) == without(s, c),
{
    let t = granted(s, c);
    if !s.contains(c) {
        let m = s.push(c);
        assert forall|i: int, j: int| 0 <= i < m.len() && 0 <= j < m.len() && i != j implies m[i]
            != m[j] by {
            if i < s.len() && j < s.len() {
                if i < j {
                    assert(text_less(s[i], s[j]));
                } else {
                    assert(text_less(s[j], s[i]));
                }
                text_irreflexive(s[i]);
            } else if i < s.len() {
                assert(s.contains(s[i]));
            } else {
                assert(s.contains(s[j]));
            }
        }
        sorting_ascends(m);
        assert forall|x: Seq<char>| #[trigger] t.contains(x) <==> s.contains(x) || x == c by {
            assert(t.contains(x) <==> m.contains(x));
            if s.contains(x) {
                let i = choose|i: int| 0 <= i < s.len() && s[i] == x;
                assert(m[i] == x);
            }
            assert(m[s.len() as int] == c);
            if m.contains(x) && x != c {
                let i = choose|i: int| 0 <= i < m.len() && m[i] == x;
                assert(s[i] == x);
            }
        }
    }
    lemma_without_ascends(s, c);
    lemma_without_ascends(t, c);
    revoking_removes(s, c);
    revoking_removes(t, c);
    assert forall|x: Seq<char>| #[trigger] without(t, c).contains(x) <==> without(s, c).contains(
        x,
    ) by {
        if x != c {
            assert(t.contains(x) <==> s.contains(x) || x == c);
        }
    }
    ascending_texts_unique(without(t, c), without(s, c));
}

/// A grant adds a capability to those of the session, which stay in ascending
/// order, each once, and turns the sandbox on; nothing else changes but what is
/// said. Revoking the capability after that leaves the capabilities that there
/// were, without it.
pub proof fn grants_are_revoked(s: Repl, grant: Seq<char>, revoke: Seq<char>, c: Seq<char>)
    requires
        strictly_ascending(s.capabilities),
        words(grant) == seq![":grant"@, c],
        words(revoke) == seq![":revoke"@, c],
    ensures
        ({
            let t = command_turn(s, words(grant));
            let u = command_turn(t.state, words(revoke));
            &&& t == done(
                say(
                    Repl { capabilities: t.state.capabilities, sandbox: true, ..s },
                    "granted "@ + c + " (takes effect on :save)"@,
                ),
            )
            &&& strictly_ascending(t.state.capabilities)
            &&& forall|x: Seq<char>| #[trigger]
                t.state.capabilities.contains(x) <==> s.capabilities.contains(x) || x == c
            &&& u == done(
                say(
                    Repl { capabilities: without(s.capabilities, c), ..t.state },
                    "revoked "@ + c + " (takes effect on :save)"@,
                ),
            )
            &&& strictly_ascending(u.state.capabilities)
        }),
{
    reveal_strlit(":grant");
    reveal_strlit(":revoke");
    reveal_strlit(":help");
    reveal_strlit(":quit");
    reveal_strlit(":q");
    reveal_strlit(":load");
    reveal_strlit(":namespaces");
    reveal_strlit(":paste");
    reveal_strlit(":clear");
    reveal_strlit(":namespace");
    reveal_strlit(":symbols");
    reveal_strlit(":symbol");
    reveal_strlit(":save");
    reveal_strlit(":legacy-changeset");
    reveal_strlit(":legacy-changesets");
    reveal_strlit(":resources");
    reveal_strlit(":resource");
    reveal_strlit(":resource-put");
    reveal_strlit(":resource-read");
    reveal_strlit(":capabilities");
    assert(":grant"@[1] == 'g' && ":revoke"@[1] == 'r' && ":revoke"@[3] == 'v');
    assert(":help"@[1] == 'h' && ":quit"@[1] == 'q' && ":q"@[1] == 'q' && ":load"@[1] == 'l');
    assert(":namespaces"@[1] == 'n' && ":namespace"@[1] == 'n' && ":paste"@[1] == 'p');
    assert(":clear"@[1] == 'c' && ":symbols"@[1] == 's' && ":symbol"@[1] == 's');
    assert(":save"@[1] == 's' && ":legacy-changeset"@[1] == 'l');
    assert(":legacy-changesets"@[1] == 'l' && ":capabilities"@[1] == 'c');
    assert(":resources"@[1] == 'r' && ":resources"@[3] == 's');
    assert(":resource"@[1] == 'r' && ":resource"@[3] == 's');
    assert(":resource-put"@[1] == 'r' && ":resource-put"@[3] == 's');
    assert(":resource-read"@[1] == 'r' && ":resource-read"@[3] == 's');
    let t = command_turn(s, words(grant));
    assert(t == grant_turn(s, words(grant)));
    lemma_granted(s.capabilities, c);
    assert(t.state.capabilities == granted(s.capabilities, c));
    assert(command_turn(t.state, words(revoke)) == revoke_turn(t.state, words(revoke)));
    lemma_without_ascends(s.capabilities, c);
}

/// What an expression does: it is evaluated as the body of a `main` function.
pub open spec fn eval_turn(s: Repl, expr: Seq<char>) -> Turn {
    match s.snapshot_id {
        None => failed(
            s,
            "No snapshot selected. Use :snapshot-create or :snapshot before evaluating expressions."@,
        ),
        Some(snapshot_id) => {
            let body = object()
                .with("snapshot_id"@, Data::Int(snapshot_id))
                .with("sandbox"@, Data::Bool(s.sandbox))
                .with("source"@, Data::Text("fn main() { "@ + expr + " }"@))
                .with("limits"@, limits(s));
            asking(s, posting("/eval"@, body), Then::Ran)
        },
    }
}

/// What an expression does.
pub fn eval_expression(state: &mut ReplState, expr: &str) -> (r: Result<ReplControl, String>)
    ensures
        turn_of(*final(state), r) == eval_turn(old(state).model(), expr@),
{
    let snapshot_id: i64 = match state.snapshot_id {
        Some(n) => n,
        None => {
            return Err(
                "No snapshot selected. Use :snapshot-create or :snapshot before evaluating expressions.".to_owned(),
            );
        },
    };
    let mut source = "fn main() { ".to_owned();
    source.append(expr);
    source.append(" }");
    let body = Json::object()
        .with("snapshot_id", Json::Int(snapshot_id))
        .with("sandbox", Json::Bool(state.sandbox))
        .with("source", Json::Text(source))
        .with("limits", limits_value(state));
    request(ApiCall::post("/eval", body), Next::Ran)
}

/// What a line does.
pub open spec fn line_turn(s: Repl, line: Seq<char>) -> Turn {
    let text = trimmed(unmarked(line));
    if text.len() == 0 {
        done(s)
    } else if text[0] == ':' {
        command_turn(s, words(text))
    } else {
        eval_turn(s, text)
    }
}

/// A line that is no command is evaluated in the snapshot as the body of a `main`
/// function.
pub proof fn bare_line_is_wrapped(s: Repl, line: Seq<char>)
    requires
        trimmed(unmarked(line)).len() > 0,
        trimmed(unmarked(line))[0] != ':',
        s.snapshot_id is Some,
    ensures
        exists|body: Data|
            line_turn(s, line) == asking(s, #[trigger] posting("/eval"@, body), Then::Ran) && at(
                body,
                "source"@,
            ) == Data::Text("fn main() { "@ + trimmed(unmarked(line)) + " }"@) && at(
                body,
                "snapshot_id"@,
            ) == Data::Int(s.snapshot_id->Some_0),
{
    reveal_strlit("source");
    reveal_strlit("limits");
    reveal_strlit("sandbox");
    reveal_strlit("snapshot_id");
    assert("limits"@[0] == 'l' && "source"@[0] == 's');
    assert("snapshot_id"@.len() == 11 && "limits"@.len() == 6 && "source"@.len() == 6
        && "sandbox"@.len() == 7);
    let text = trimmed(unmarked(line));
    let a = object().with("snapshot_id"@, Data::Int(s.snapshot_id->Some_0));
    let b = a.with("sandbox"@, Data::Bool(s.sandbox));
    let c = b.with("source"@, Data::Text("fn main() { "@ + text + " }"@));
    let d = c.with("limits"@, limits(s));
    assert(a->Object_0.drop_last() =~= object()->Object_0);
    assert(b->Object_0.drop_last() =~= a->Object_0);
    assert(c->Object_0.drop_last() =~= b->Object_0);
    assert(d->Object_0.drop_last() =~= c->Object_0);
    assert(member(a->Object_0, "snapshot_id"@) == Some(Data::Int(s.snapshot_id->Some_0)));
    assert(member(b->Object_0, "snapshot_id"@) == member(a->Object_0, "snapshot_id"@));
    assert(member(c->Object_0, "snapshot_id"@) == member(b->Object_0, "snapshot_id"@));
    assert(member(d->Object_0, "snapshot_id"@) == member(c->Object_0, "snapshot_id"@));
    assert(member(d->Object_0, "source"@) == member(c->Object_0, "source"@));
    assert(line_turn(s, line) == asking(s, posting("/eval"@, d), Then::Ran));
}

/// A line of blanks does nothing.
pub proof fn blank_line_is_ignored(s: Repl, line: Seq<char>)
    requires
        forall|i: int| 0 <= i < line.len() ==> char_is_whitespace(#[trigger] line[i]),
        !line.contains('\u{1b}'),
    ensures
        line_turn(s, line) == done(s),
{
    reveal_strlit("\u{1b}[200~");
    reveal_strlit("\u{1b}[201~");
    lemma_replaced_absent(line, "\u{1b}[200~"@, ""@);
    lemma_replaced_absent(line, "\u{1b}[201~"@, ""@);
    lemma_blanks_trimmed(line);
}

proof fn lemma_blanks_trimmed(s: Seq<char>)
    requires
        forall|i: int| 0 <= i < s.len() ==> char_is_whitespace(#[trigger] s[i]),
    ensures
        trimmed(s).len() == 0,
    decreases s.len(),
{
    if s.len() > 0 {
        assert forall|i: int| 0 <= i < s.skip(1).len() implies char_is_whitespace(
            #[trigger] s.skip(1)[i],
        ) by {
            assert(s.skip(1)[i] == s[i + 1]);
        }
        lemma_blanks_trimmed(s.skip(1));
    }
}

/// What a line does.
pub fn process_repl_line(state: &mut ReplState, line: &str) -> (r: Result<ReplControl, String>)
    ensures
        turn_of(*final(state), r) == line_turn(old(state).model(), line@),
{
    let normalized = strip_bracketed_paste_markers(line);
    let text = trim(normalized.as_str());
    let chars = crate::text::chars_of(text.as_str());
    if chars.len() == 0 {
        return Ok(ReplControl::Continue);
    }
    if chars[0] == ':' {
        return handle_command(state, text.as_str());
    }
    eval_expression(state, text.as_str())
}

} // verus!
