//! What the answers to a session's requests do.
use vstd::prelude::*;
use crate::json::{
    at, bool_in, count, count_value, data_of, int_in, int_of, list, list_in, list_of, object,
    text_in, text_items, text_or_null, text_value, texts_among, Data, Json,
};
use crate::json_text::{pretty, pretty_of, read_json, reading};
use crate::mcp::{getting, posting, ApiCall};
use crate::names::text_of;
use crate::repl::{shown_or, symbol_body, symbol_value, text_or};
use crate::repl_print::{
    any_rows, bindings_shown, changesets_shown, compiled_shown, diff_shown, entry_whole,
    namespaces_shown, print_bindings, print_changesets, print_compile_response, print_diff,
    print_namespaces, print_resources, print_run_response, print_symbols, resources_shown,
    rows_if_any, run_shown, symbols_shown, RowKind,
};
use crate::repl_state::{
    asking, done, failed, pasted_of, print, request, say, then_of, turn_of, Next, Pasted, PastedFor,
    Repl, ReplControl, ReplState, Then, Turn,
};
use crate::text::{decimal_int, push_i64, same, texts};

verus! {

/// The first item of a list whose member has the given text.
pub open spec fn first_with(items: Seq<Data>, member: Seq<char>, name: Seq<char>) -> Option<Data>
    decreases items.len(),
{
    if items.len() == 0 {
        None
    } else if text_in(at(items[0], member)) == Some(name) {
        Some(items[0])
    } else {
        first_with(items.skip(1), member, name)
    }
}

/// The first item of a listing whose name is the given one.
pub open spec fn named(d: Data, listing: Seq<char>, name: Seq<char>) -> Option<Data> {
    match list_in(at(d, listing)) {
        Some(items) => first_with(items, "name"@, name),
        None => None,
    }
}

fn find_named<'a>(j: &'a Json, listing: &str, name: &str) -> (r: Option<&'a Json>)
    ensures
        match r {
            Some(item) => named(data_of(*j), listing@, name@) == Some(data_of(*item)),
            None => named(data_of(*j), listing@, name@) is None,
        },
{
    match j.list_at(listing) {
        Some(items) => {
            let ghost all = list_of(items@);
            proof {
                crate::json::lemma_list(items@);
            }
            let mut i: usize = 0;
            assert(all.skip(0) =~= all);
            while i < items.len()
                invariant
                    i <= items@.len(),
                    all.len() == items@.len(),
                    forall|k: int| 0 <= k < all.len() ==> #[trigger] all[k] == data_of(items@[k]),
                    named(data_of(*j), listing@, name@) == first_with(
                        all.skip(i as int),
                        "name"@,
                        name@,
                    ),
                decreases items@.len() - i,
            {
                let ghost rest = all.skip(i as int);
                assert(rest[0] == all[i as int]);
                assert(rest.skip(1) =~= all.skip(i as int + 1));
                let found = match items[i].text_at("name") {
                    Some(s) => same(s, name),
                    None => false,
                };
                if found {
                    return Some(&items[i]);
                }
                i = i + 1;
            }
            None
        },
        None => None,
    }
}

/// The generation that a namespace is at, by the list of namespaces.
pub open spec fn generation_in(d: Data, namespace: Seq<char>) -> int {
    match named(d, "namespaces"@, namespace) {
        Some(item) => match int_in(at(item, "current_generation"@)) {
            Some(n) => n,
            None => 0,
        },
        None => 0,
    }
}

/// The generation that the session's namespace is at, by the list of namespaces.
pub fn current_namespace_generation(state: &ReplState, response: &Json) -> (r: i64)
    ensures
        r == generation_in(data_of(*response), state.model().namespace),
{
    match find_named(response, "namespaces", state.namespace.as_str()) {
        Some(item) => match item.int_at("current_generation") {
            Some(n) => n,
            None => 0,
        },
        None => 0,
    }
}

/// The capabilities that an answer lists.
pub open spec fn capabilities_in(d: Data) -> Seq<Seq<char>> {
    match list_in(at(d, "capabilities"@)) {
        Some(items) => texts_among(items),
        None => Seq::empty(),
    }
}

fn capabilities(j: &Json) -> (r: Vec<String>)
    ensures
        texts(r@) == capabilities_in(data_of(*j)),
{
    match j.list_at("capabilities") {
        Some(items) => text_items(items),
        None => {
            let out: Vec<String> = Vec::new();
            assert(texts(out@) =~= Seq::empty());
            out
        },
    }
}

/// A member of a value, or null.
fn member<'a>(j: &'a Json, name: &str, nothing: &'a Json) -> (r: &'a Json)
    requires
        data_of(*nothing) is Null,
    ensures
        data_of(*r) == at(data_of(*j), name@),
{
    match j.get(name) {
        Some(v) => v,
        None => nothing,
    }
}

/// The truth value of a member, or another.
pub open spec fn truth_or(d: Data, name: Seq<char>, otherwise: bool) -> bool {
    match bool_in(at(d, name)) {
        Some(b) => b,
        None => otherwise,
    }
}

fn bool_or(j: &Json, name: &str, otherwise: bool) -> (r: bool)
    ensures
        r == truth_or(data_of(*j), name@, otherwise),
{
    match j.bool_at(name) {
        Some(b) => b,
        None => otherwise,
    }
}

/// The text of a member, as the library's own.
fn owned_text(j: &Json, name: &str) -> (r: Option<String>)
    ensures
        text_of(r) == text_in(at(data_of(*j), name@)),
{
    match j.text_at(name) {
        Some(s) => Some(s.to_owned()),
        None => None,
    }
}

/// What the answer to `:load` does. A revision without a source leaves the revision selected.
pub open spec fn loaded_symbol_turn(s: Repl, d: Data) -> Turn {
    let symbol = at(d, "symbol"@);
    match text_in(at(symbol, "revision_id"@)) {
        None => failed(s, "Symbol response missing revision_id"@),
        Some(id) => {
            let t = Repl { symbol_revision_id: Some(id), ..s };
            match text_in(at(symbol, "source"@)) {
                None => failed(t, "Symbol response missing source"@),
                Some(source) => done(
                    say(
                        Repl {
                            draft: Some(source),
                            sandbox: truth_or(symbol, "sandbox"@, true),
                            capabilities: capabilities_in(symbol),
                            ..t
                        },
                        "loaded "@ + s.namespace + "/"@ + s.symbol_kind + "/"@ + s.symbol
                            + " revision "@ + id,
                    ),
                ),
            }
        },
    }
}

fn loaded_symbol(state: &mut ReplState, response: &Json) -> (r: Result<ReplControl, String>)
    ensures
        turn_of(*final(state), r) == loaded_symbol_turn(old(state).model(), data_of(*response)),
{
    let nothing = Json::Null;
    let symbol = member(response, "symbol", &nothing);
    let id = match symbol.text_at("revision_id") {
        Some(id) => id.to_owned(),
        None => {
            return Err("Symbol response missing revision_id".to_owned());
        },
    };
    state.symbol_revision_id = Some(id);
    let source = match symbol.text_at("source") {
        Some(source) => source.to_owned(),
        None => {
            return Err("Symbol response missing source".to_owned());
        },
    };
    state.draft = Some(source);
    state.sandbox = bool_or(symbol, "sandbox", true);
    state.capabilities = capabilities(symbol);
    let mut line = "loaded ".to_owned();
    line.append(state.namespace.as_str());
    line.append("/");
    line.append(state.symbol_kind.as_str());
    line.append("/");
    line.append(state.symbol.as_str());
    line.append(" revision ");
    line.append(text_or(&state.symbol_revision_id, "?").as_str());
    state.say(line);
    Ok(ReplControl::Continue)
}

/// The number, or zero.
pub open spec fn int_or(n: Option<int>) -> int {
    match n {
        Some(i) => i,
        None => 0,
    }
}

fn some_or_zero(n: Option<i64>) -> (r: i64)
    ensures
        r == int_or(int_of(n)),
{
    match n {
        Some(i) => i,
        None => 0,
    }
}

/// What the answer to `:save` does.
pub open spec fn saved_symbol_turn(s: Repl, d: Data) -> Turn {
    let generation = int_in(at(d, "generation"@));
    let snapshot = int_in(at(d, "snapshot_id"@));
    let revision = text_in(at(at(d, "symbol"@), "revision_id"@));
    done(
        say(
            Repl { generation, snapshot_id: snapshot, symbol_revision_id: revision, ..s },
            "published "@ + s.namespace + "/"@ + s.symbol_kind + "/"@ + s.symbol
                + " generation="@ + decimal_int(int_or(generation)) + " revision="@
                + shown_or(revision, "?"@) + " snapshot="@ + decimal_int(int_or(snapshot)),
        ),
    )
}

fn saved_symbol(state: &mut ReplState, response: &Json) -> (r: Result<ReplControl, String>)
    ensures
        turn_of(*final(state), r) == saved_symbol_turn(old(state).model(), data_of(*response)),
{
    let nothing = Json::Null;
    state.generation = response.int_at("generation");
    state.snapshot_id = response.int_at("snapshot_id");
    state.symbol_revision_id = owned_text(member(response, "symbol", &nothing), "revision_id");
    let mut line = "published ".to_owned();
    line.append(state.namespace.as_str());
    line.append("/");
    line.append(state.symbol_kind.as_str());
    line.append("/");
    line.append(state.symbol.as_str());
    line.append(" generation=");
    push_i64(&mut line, some_or_zero(state.generation));
    line.append(" revision=");
    line.append(text_or(&state.symbol_revision_id, "?").as_str());
    line.append(" snapshot=");
    push_i64(&mut line, some_or_zero(state.snapshot_id));
    state.say(line);
    Ok(ReplControl::Continue)
}

/// What the answer to `:legacy-load` does.
pub open spec fn loaded_changeset_turn(s: Repl, d: Data) -> Turn {
    let revision = at(d, "revision"@);
    match text_in(at(revision, "revision_id"@)) {
        None => failed(s, "Changeset response missing revision_id"@),
        Some(id) => match text_in(at(revision, "source"@)) {
            None => failed(s, "Changeset response missing source"@),
            Some(source) => done(
                say(
                    Repl {
                        revision_id: Some(id),
                        draft: Some(source),
                        snapshot_id: int_in(at(revision, "base_snapshot_id"@)),
                        sandbox: truth_or(revision, "sandbox"@, false),
                        capabilities: capabilities_in(revision),
                        ..s
                    },
                    "loaded "@ + s.namespace + "/"@ + s.changeset + " revision "@ + id,
                ),
            ),
        },
    }
}

fn loaded_changeset(state: &mut ReplState, response: &Json) -> (r: Result<ReplControl, String>)
    ensures
        turn_of(*final(state), r) == loaded_changeset_turn(old(state).model(), data_of(*response)),
{
    let nothing = Json::Null;
    let revision = member(response, "revision", &nothing);
    let id = match revision.text_at("revision_id") {
        Some(id) => id.to_owned(),
        None => {
            return Err("Changeset response missing revision_id".to_owned());
        },
    };
    let source = match revision.text_at("source") {
        Some(source) => source.to_owned(),
        None => {
            return Err("Changeset response missing source".to_owned());
        },
    };
    state.revision_id = Some(id);
    state.draft = Some(source);
    state.snapshot_id = revision.int_at("base_snapshot_id");
    state.sandbox = bool_or(revision, "sandbox", false);
    state.capabilities = capabilities(revision);
    let mut line = "loaded ".to_owned();
    line.append(state.namespace.as_str());
    line.append("/");
    line.append(state.changeset.as_str());
    line.append(" revision ");
    line.append(text_or(&state.revision_id, "?").as_str());
    state.say(line);
    Ok(ReplControl::Continue)
}

/// What the answer to `:legacy-save` does.
pub open spec fn saved_changeset_turn(s: Repl, d: Data) -> Turn {
    match text_in(at(at(d, "revision"@), "revision_id"@)) {
        None => failed(s, "Save response missing revision_id"@),
        Some(id) => done(
            say(
                Repl { revision_id: Some(id), ..s },
                "saved "@ + s.namespace + "/"@ + s.changeset + " revision "@ + id,
            ),
        ),
    }
}

fn saved_changeset(state: &mut ReplState, response: &Json) -> (r: Result<ReplControl, String>)
    ensures
        turn_of(*final(state), r) == saved_changeset_turn(old(state).model(), data_of(*response)),
{
    let nothing = Json::Null;
    let id = match member(response, "revision", &nothing).text_at("revision_id") {
        Some(id) => id.to_owned(),
        None => {
            return Err("Save response missing revision_id".to_owned());
        },
    };
    state.revision_id = Some(id);
    let mut line = "saved ".to_owned();
    line.append(state.namespace.as_str());
    line.append("/");
    line.append(state.changeset.as_str());
    line.append(" revision ");
    line.append(text_or(&state.revision_id, "?").as_str());
    state.say(line);
    Ok(ReplControl::Continue)
}

/// What the answer to `:legacy-edit` does. A revision without a source leaves the revision selected.
pub open spec fn edited_turn(s: Repl, d: Data) -> Turn {
    let revision = at(d, "revision"@);
    match text_in(at(revision, "revision_id"@)) {
        None => failed(s, "Edit response missing revision_id"@),
        Some(id) => {
            let t = Repl { revision_id: Some(id), ..s };
            match text_in(at(revision, "source"@)) {
                None => failed(t, "Edit response missing source"@),
                Some(source) => done(
                    say(
                        Repl { draft: Some(source), ..t },
                        "edited "@ + s.namespace + "/"@ + s.changeset + " revision "@ + id,
                    ),
                ),
            }
        },
    }
}

fn edited(state: &mut ReplState, response: &Json) -> (r: Result<ReplControl, String>)
    ensures
        turn_of(*final(state), r) == edited_turn(old(state).model(), data_of(*response)),
{
    let nothing = Json::Null;
    let revision = member(response, "revision", &nothing);
    let id = match revision.text_at("revision_id") {
        Some(id) => id.to_owned(),
        None => {
            return Err("Edit response missing revision_id".to_owned());
        },
    };
    state.revision_id = Some(id);
    let source = match revision.text_at("source") {
        Some(source) => source.to_owned(),
        None => {
            return Err("Edit response missing source".to_owned());
        },
    };
    state.draft = Some(source);
    let mut line = "edited ".to_owned();
    line.append(state.namespace.as_str());
    line.append("/");
    line.append(state.changeset.as_str());
    line.append(" revision ");
    line.append(text_or(&state.revision_id, "?").as_str());
    state.say(line);
    Ok(ReplControl::Continue)
}

/// What the answer to `:legacy-publish` does.
pub open spec fn published_turn(s: Repl, d: Data) -> Turn {
    match int_in(at(d, "generation"@)) {
        None => failed(s, "Publish response missing generation"@),
        Some(generation) => {
            let t = print(
                say(s, "published "@ + s.namespace + " generation "@ + decimal_int(generation)),
                rows_if_any(d, "published_symbols"@, RowKind::Binding),
            );
            match int_in(at(d, "snapshot_id"@)) {
                None => failed(t, "Publish response missing snapshot_id"@),
                Some(id) => done(
                    say(
                        Repl { snapshot_id: Some(id), ..t },
                        "current snapshot = "@ + decimal_int(id),
                    ),
                ),
            }
        },
    }
}

fn published(state: &mut ReplState, response: &Json) -> (r: Result<ReplControl, String>)
    ensures
        turn_of(*final(state), r) == published_turn(old(state).model(), data_of(*response)),
{
    let generation: i64 = match response.int_at("generation") {
        Some(n) => n,
        None => {
            return Err("Publish response missing generation".to_owned());
        },
    };
    let mut line = "published ".to_owned();
    line.append(state.namespace.as_str());
    line.append(" generation ");
    push_i64(&mut line, generation);
    state.say(line);
    state.print(any_rows(response, "published_symbols", RowKind::Binding));
    let id: i64 = match response.int_at("snapshot_id") {
        Some(n) => n,
        None => {
            return Err("Publish response missing snapshot_id".to_owned());
        },
    };
    state.snapshot_id = Some(id);
    let mut line = "current snapshot = ".to_owned();
    push_i64(&mut line, id);
    state.say(line);
    Ok(ReplControl::Continue)
}

/// What the answer to `:snapshot-create` does.
pub open spec fn snapshot_created_turn(s: Repl, d: Data) -> Turn {
    match int_in(at(d, "snapshot_id"@)) {
        None => failed(s, "Snapshot response missing snapshot_id"@),
        Some(id) => done(
            say(
                Repl { snapshot_id: Some(id), ..s },
                "created snapshot "@ + decimal_int(id) + " for "@ + s.namespace,
            ),
        ),
    }
}

fn snapshot_created(state: &mut ReplState, response: &Json) -> (r: Result<ReplControl, String>)
    ensures
        turn_of(*final(state), r) == snapshot_created_turn(old(state).model(), data_of(*response)),
{
    let id: i64 = match response.int_at("snapshot_id") {
        Some(n) => n,
        None => {
            return Err("Snapshot response missing snapshot_id".to_owned());
        },
    };
    state.snapshot_id = Some(id);
    let mut line = "created snapshot ".to_owned();
    push_i64(&mut line, id);
    line.append(" for ");
    line.append(state.namespace.as_str());
    state.say(line);
    Ok(ReplControl::Continue)
}

/// What the list of namespaces does on the way of `:load`.
pub open spec fn load_symbol_turn(s: Repl, d: Data) -> Turn {
    asking(
        Repl { generation: Some(generation_in(d, s.namespace)), ..s },
        getting(
            "/symbol?namespace="@ + s.namespace + "&kind="@ + s.symbol_kind + "&symbol="@
                + s.symbol,
        ),
        Then::LoadSymbol,
    )
}

fn load_symbol(state: &mut ReplState, response: &Json) -> (r: Result<ReplControl, String>)
    ensures
        turn_of(*final(state), r) == load_symbol_turn(old(state).model(), data_of(*response)),
{
    state.generation = Some(current_namespace_generation(state, response));
    let mut path = "/symbol?namespace=".to_owned();
    path.append(state.namespace.as_str());
    path.append("&kind=");
    path.append(state.symbol_kind.as_str());
    path.append("&symbol=");
    path.append(state.symbol.as_str());
    request(ApiCall::get(path), Next::LoadSymbol)
}

/// What the list of namespaces does on the way of `:save`.
pub open spec fn save_symbol_turn(s: Repl, d: Data) -> Turn {
    match s.draft {
        None => failed(s, "No symbol draft. Use :paste first."@),
        Some(source) => asking(
            s,
            posting("/symbols/put"@, symbol_body(s, source, generation_in(d, s.namespace))),
            Then::Saved,
        ),
    }
}

fn save_symbol(state: &mut ReplState, response: &Json) -> (r: Result<ReplControl, String>)
    ensures
        turn_of(*final(state), r) == save_symbol_turn(old(state).model(), data_of(*response)),
{
    let generation = current_namespace_generation(state, response);
    match &state.draft {
        None => Err("No symbol draft. Use :paste first.".to_owned()),
        Some(source) => {
            let body = symbol_value(state, source.as_str(), generation);
            request(ApiCall::post("/symbols/put", body), Next::Saved)
        },
    }
}

/// What the list of resources does on the way of `:resource-put`.
pub open spec fn resource_listed_turn(s: Repl, d: Data, name: Seq<char>, kind: Seq<char>, value: Data) -> Turn {
    let current = match named(d, "resources"@, name) {
        Some(item) => text_in(at(item, "resource_id"@)),
        None => None,
    };
    let body = object()
        .with("namespace"@, Data::Text(s.namespace))
        .with("name"@, Data::Text(name))
        .with("kind"@, Data::Text(kind))
        .with("expected_resource_id"@, text_or_null(current))
        .with("value"@, value);
    asking(s, posting("/resources/put"@, body), Then::Show)
}

fn resource_listed(state: &mut ReplState, response: &Json, name: &str, kind: &str,
    value: &Json) -> (r: Result<ReplControl, String>)
    ensures
        turn_of(*final(state), r)
            == resource_listed_turn(old(state).model(), data_of(*response), name@, kind@,
            data_of(*value)),
{
    let current = match find_named(response, "resources", name) {
        Some(item) => owned_text(item, "resource_id"),
        None => None,
    };
    let body = Json::object()
        .with("namespace", Json::text(state.namespace.as_str()))
        .with("name", Json::text(name))
        .with("kind", Json::text(kind))
        .with("expected_resource_id", text_value(&current))
        .with("value", value.dup());
    request(ApiCall::post("/resources/put", body), Next::Show)
}

/// What the answer to a request does. The answer comes with how it is written
/// out.
pub open spec fn answer_turn(s: Repl, next: Then, d: Data, pretty: Seq<char>) -> Turn {
    match next {
        Then::Symbols => done(print(Repl { generation: int_in(at(d, "generation"@)), ..s },
            symbols_shown(d, pretty))),
        Then::LoadGeneration => load_symbol_turn(s, d),
        Then::LoadSymbol => loaded_symbol_turn(s, d),
        Then::SaveGeneration => save_symbol_turn(s, d),
        Then::Saved => saved_symbol_turn(s, d),
        Then::Changesets => done(print(s, changesets_shown(d, pretty))),
        Then::Resources => done(print(s, resources_shown(d, pretty))),
        Then::Show => done(say(s, pretty)),
        Then::ResourceListed { name, kind, value } => resource_listed_turn(s, d, name, kind, value),
        Then::LoadChangeset => loaded_changeset_turn(s, d),
        Then::SnapshotCreated => snapshot_created_turn(s, d),
        Then::Namespaces => done(print(s, namespaces_shown(d, pretty))),
        Then::Bindings => done(print(s, bindings_shown(d))),
        Then::Diff => done(print(s, diff_shown(d))),
        Then::ChangesetSaved => saved_changeset_turn(s, d),
        Then::Edited => edited_turn(s, d),
        Then::Compiled => done(print(s, compiled_shown(d))),
        Then::Published => published_turn(s, d),
        Then::Ran => done(print(s, run_shown(d, pretty))),
    }
}

/// What the answer to a request does. The entry of a compiled changeset has to
/// be whole.
pub fn on_response(state: &mut ReplState, next: Next, response: &Json) -> (r: Result<
    ReplControl,
    String,
>)
    requires
        next is Compiled ==> entry_whole(data_of(*response)),
    ensures
        turn_of(*final(state), r) == answer_turn(
            old(state).model(),
            then_of(next),
            data_of(*response),
            pretty_of(data_of(*response)),
        ),
{
    let text = pretty(response);
    on_written(state, next, response, text.as_str())
}

/// What the answer to a request does. The answer comes with how it is written
/// out. The entry of a compiled changeset has to be whole.
pub fn on_written(state: &mut ReplState, next: Next, response: &Json, pretty: &str) -> (r: Result<
    ReplControl,
    String,
>)
    requires
        next is Compiled ==> entry_whole(data_of(*response)),
    ensures
        turn_of(*final(state), r) == answer_turn(
            old(state).model(),
            then_of(next),
            data_of(*response),
            pretty@,
        ),
{
    match next {
        Next::Symbols => {
            state.generation = response.int_at("generation");
            state.print(print_symbols(response, pretty));
            Ok(ReplControl::Continue)
        },
        Next::LoadGeneration => load_symbol(state, response),
        Next::LoadSymbol => loaded_symbol(state, response),
        Next::SaveGeneration => save_symbol(state, response),
        Next::Saved => saved_symbol(state, response),
        Next::Changesets => {
            state.print(print_changesets(response, pretty));
            Ok(ReplControl::Continue)
        },
        Next::Resources => {
            state.print(print_resources(response, pretty));
            Ok(ReplControl::Continue)
        },
        Next::Show => {
            state.say(pretty.to_owned());
            Ok(ReplControl::Continue)
        },
        Next::ResourceListed { name, kind, value } => resource_listed(
            state,
            response,
            name.as_str(),
            kind.as_str(),
            &value,
        ),
        Next::LoadChangeset => loaded_changeset(state, response),
        Next::SnapshotCreated => snapshot_created(state, response),
        Next::Namespaces => {
            state.print(print_namespaces(response, pretty));
            Ok(ReplControl::Continue)
        },
        Next::Bindings => {
            state.print(print_bindings(response));
            Ok(ReplControl::Continue)
        },
        Next::Diff => {
            state.print(print_diff(response));
            Ok(ReplControl::Continue)
        },
        Next::ChangesetSaved => saved_changeset(state, response),
        Next::Edited => edited(state, response),
        Next::Compiled => {
            state.print(print_compile_response(response));
            Ok(ReplControl::Continue)
        },
        Next::Published => published(state, response),
        Next::Ran => {
            state.print(print_run_response(response, pretty));
            Ok(ReplControl::Continue)
        },
    }
}

/// What a text that is pasted does.
pub open spec fn paste_turn(s: Repl, pasted: PastedFor, text: Seq<char>) -> Turn {
    match pasted {
        PastedFor::Draft => done(say(Repl { draft: Some(text), ..s }, "stored draft"@)),
        PastedFor::Edit { start, end, revision_id } => {
            let body = object()
                .with("namespace"@, Data::Text(s.namespace))
                .with("changeset"@, Data::Text(s.changeset))
                .with("revision_id"@, Data::Text(revision_id))
                .with(
                    "edits"@,
                    list()
                        .and(
                            object()
                                .with("start"@, count(start))
                                .with("end"@, count(end))
                                .with("replacement"@, Data::Text(text)),
                        ),
                );
            asking(s, posting("/changesets/edit"@, body), Then::Edited)
        },
    }
}

/// What a text that is pasted does.
pub fn on_paste(state: &mut ReplState, pasted: Pasted, text: &str) -> (r: Result<
    ReplControl,
    String,
>)
    ensures
        turn_of(*final(state), r) == paste_turn(old(state).model(), pasted_of(pasted), text@),
{
    match pasted {
        Pasted::Draft => {
            state.draft = Some(text.to_owned());
            state.say("stored draft".to_owned());
            Ok(ReplControl::Continue)
        },
        Pasted::Edit { start, end, revision_id } => {
            let body = Json::object()
                .with("namespace", Json::text(state.namespace.as_str()))
                .with("changeset", Json::text(state.changeset.as_str()))
                .with("revision_id", Json::text(revision_id.as_str()))
                .with(
                    "edits",
                    Json::list()
                        .and(
                            Json::object()
                                .with("start", count_value(start as u64))
                                .with("end", count_value(end as u64))
                                .with("replacement", Json::text(text)),
                        ),
                );
            request(ApiCall::post("/changesets/edit", body), Next::Edited)
        },
    }
}

/// What the value of a resource does that is pasted, if it is JSON.
pub open spec fn resource_turn(
    s: Repl,
    name: Seq<char>,
    kind: Seq<char>,
    value: Result<Data, Seq<char>>,
) -> Turn {
    match value {
        Ok(value) => asking(
            s,
            getting("/resources?namespace="@ + s.namespace),
            Then::ResourceListed { name, kind, value },
        ),
        Err(e) => failed(s, "Invalid resource JSON: "@ + e),
    }
}

/// What a text does that is pasted as the value of a resource.
pub fn on_resource(state: &mut ReplState, name: String, kind: String, text: &str) -> (r: Result<
    ReplControl,
    String,
>)
    ensures
        turn_of(*final(state), r) == resource_turn(
            old(state).model(),
            name@,
            kind@,
            reading(text@),
        ),
{
    on_value(state, name, kind, read_json(text))
}

/// What the value of a resource does that is pasted: the value, or why it is no
/// JSON.
pub fn on_value(
    state: &mut ReplState,
    name: String,
    kind: String,
    value: Result<Json, String>,
) -> (r: Result<ReplControl, String>)
    ensures
        turn_of(*final(state), r) == resource_turn(
            old(state).model(),
            name@,
            kind@,
            match value {
                Ok(j) => Ok(data_of(j)),
                Err(e) => Err(e@),
            },
        ),
{
    match value {
        Ok(value) => {
            let mut path = "/resources?namespace=".to_owned();
            path.append(state.namespace.as_str());
            request(ApiCall::get(path), Next::ResourceListed { name, kind, value })
        },
        Err(e) => {
            let mut out = "Invalid resource JSON: ".to_owned();
            out.append(e.as_str());
            Err(out)
        },
    }
}

} // verus!
