//! How the answers of the service are shown.
use vstd::prelude::*;
use crate::json::{at, count_in, data_of, get, int_in, int_of, list_in, list_of, text_in, Data, Json};
use crate::text::{decimal, decimal_int, push_i64, push_u64, push_usize, texts};

verus! {

/// The text of a member, or another text.
pub open spec fn text_or(d: Data, name: Seq<char>, otherwise: Seq<char>) -> Seq<char> {
    match text_in(at(d, name)) {
        Some(s) => s,
        None => otherwise,
    }
}

/// The integer of a member, or zero.
pub open spec fn int_or_zero(d: Data, name: Seq<char>) -> int {
    match int_in(at(d, name)) {
        Some(n) => n,
        None => 0,
    }
}

/// The number, or another text.
pub open spec fn number_or(n: Option<int>, otherwise: Seq<char>) -> Seq<char> {
    match n {
        Some(i) => decimal_int(i),
        None => otherwise,
    }
}

/// How many dependencies an answer lists.
pub open spec fn dependency_count(d: Data) -> nat {
    match list_in(at(d, "dependencies"@)) {
        Some(s) => s.len(),
        None => 0,
    }
}

fn text_member<'a>(j: &'a Json, name: &str, otherwise: &'a str) -> (r: &'a str)
    ensures
        r@ == text_or(data_of(*j), name@, otherwise@),
{
    match j.text_at(name) {
        Some(s) => s,
        None => otherwise,
    }
}

fn int_member(j: &Json, name: &str) -> (r: i64)
    ensures
        r == int_or_zero(data_of(*j), name@),
{
    match j.int_at(name) {
        Some(n) => n,
        None => 0,
    }
}

/// The number, or another text.
pub fn number_text(n: Option<i64>, otherwise: &str) -> (r: String)
    ensures
        r@ == number_or(int_of(n), otherwise@),
{
    match n {
        Some(i) => {
            let mut out = String::new();
            push_i64(&mut out, i);
            assert(out@ =~= decimal_int(i as int));
            out
        },
        None => otherwise.to_owned(),
    }
}

fn dependencies(j: &Json) -> (r: usize)
    ensures
        r == dependency_count(data_of(*j)),
{
    match j.list_at("dependencies") {
        Some(v) => {
            proof {
                crate::json::lemma_list(v@);
            }
            v.len()
        },
        None => 0,
    }
}

/// What a line of a listing is about.
#[derive(Clone, Copy, Debug)]
pub enum RowKind {
    /// A symbol.
    Symbol,
    /// A changeset.
    Changeset,
    /// A namespace.
    Namespace,
    /// A resource.
    Resource,
    /// A binding, or a symbol that was published.
    Binding,
    /// A change between generations.
    Change,
    /// A compiled function.
    Artifact,
}

/// The line about a symbol.
pub open spec fn symbol_line(d: Data) -> Seq<char> {
    "  "@ + text_or(d, "kind"@, "?"@) + "/"@ + text_or(d, "symbol"@, "?"@) + " revision="@
        + text_or(d, "revision_id"@, "?"@) + " artifact="@
        + text_or(d, "artifact_hash"@, "-"@)
}

fn symbol_text(j: &Json) -> (r: String)
    ensures
        r@ == symbol_line(data_of(*j)),
{
    let mut line = "  ".to_owned();
    line.append(text_member(j, "kind", "?"));
    line.append("/");
    line.append(text_member(j, "symbol", "?"));
    line.append(" revision=");
    line.append(text_member(j, "revision_id", "?"));
    line.append(" artifact=");
    line.append(text_member(j, "artifact_hash", "-"));
    line
}

/// The line about a changeset.
pub open spec fn changeset_line(d: Data) -> Seq<char> {
    text_or(d, "namespace"@, "?"@) + "/"@ + text_or(d, "name"@, "?"@) + " head="@
        + text_or(d, "head_revision_id"@, "-"@) + " revisions="@
        + decimal_int(int_or_zero(d, "revision_count"@))
}

fn changeset_text(j: &Json) -> (r: String)
    ensures
        r@ == changeset_line(data_of(*j)),
{
    let mut line = text_member(j, "namespace", "?").to_owned();
    line.append("/");
    line.append(text_member(j, "name", "?"));
    line.append(" head=");
    line.append(text_member(j, "head_revision_id", "-"));
    line.append(" revisions=");
    push_i64(&mut line, int_member(j, "revision_count"));
    line
}

/// The line about a namespace.
pub open spec fn namespace_line(d: Data) -> Seq<char> {
    text_or(d, "name"@, "?"@) + " generation="@
        + number_or(int_in(at(d, "current_generation"@)), "-"@) + " bindings="@
        + decimal_int(int_or_zero(d, "binding_count"@)) + " snapshots="@
        + decimal_int(int_or_zero(d, "snapshot_count"@))
}

fn namespace_text(j: &Json) -> (r: String)
    ensures
        r@ == namespace_line(data_of(*j)),
{
    let mut line = text_member(j, "name", "?").to_owned();
    line.append(" generation=");
    line.append(number_text(j.int_at("current_generation"), "-").as_str());
    line.append(" bindings=");
    push_i64(&mut line, int_member(j, "binding_count"));
    line.append(" snapshots=");
    push_i64(&mut line, int_member(j, "snapshot_count"));
    line
}

/// The line about a resource.
pub open spec fn resource_line(d: Data) -> Seq<char> {
    text_or(d, "namespace"@, "?"@) + "/"@ + text_or(d, "name"@, "?"@) + " kind="@
        + text_or(d, "kind"@, "?"@) + " head="@ + text_or(d, "resource_id"@, "?"@)
        + " revision="@ + text_or(d, "revision_id"@, "-"@)
}

fn resource_text(j: &Json) -> (r: String)
    ensures
        r@ == resource_line(data_of(*j)),
{
    let mut line = text_member(j, "namespace", "?").to_owned();
    line.append("/");
    line.append(text_member(j, "name", "?"));
    line.append(" kind=");
    line.append(text_member(j, "kind", "?"));
    line.append(" head=");
    line.append(text_member(j, "resource_id", "?"));
    line.append(" revision=");
    line.append(text_member(j, "revision_id", "-"));
    line
}

/// The line about a binding, or a symbol that was published.
pub open spec fn binding_line(d: Data) -> Seq<char> {
    "  "@ + text_or(d, "symbol"@, "?"@) + " -> "@ + text_or(d, "artifact_hash"@, "?"@)
}

fn binding_text(j: &Json) -> (r: String)
    ensures
        r@ == binding_line(data_of(*j)),
{
    let mut line = "  ".to_owned();
    line.append(text_member(j, "symbol", "?"));
    line.append(" -> ");
    line.append(text_member(j, "artifact_hash", "?"));
    line
}

/// The line about a change between generations.
pub open spec fn change_line(d: Data) -> Seq<char> {
    "  "@ + text_or(d, "symbol"@, "?"@) + " "@ + text_or(d, "from_artifact_hash"@, "-"@)
        + " -> "@ + text_or(d, "to_artifact_hash"@, "-"@)
}

fn change_text(j: &Json) -> (r: String)
    ensures
        r@ == change_line(data_of(*j)),
{
    let mut line = "  ".to_owned();
    line.append(text_member(j, "symbol", "?"));
    line.append(" ");
    line.append(text_member(j, "from_artifact_hash", "-"));
    line.append(" -> ");
    line.append(text_member(j, "to_artifact_hash", "-"));
    line
}

/// The line about a compiled function.
pub open spec fn artifact_line(d: Data) -> Seq<char> {
    "  "@ + text_or(d, "source_name"@, "?"@) + " -> "@ + text_or(d, "artifact_hash"@, "?"@)
        + " deps="@ + decimal(dependency_count(d))
}

fn artifact_text(j: &Json) -> (r: String)
    ensures
        r@ == artifact_line(data_of(*j)),
{
    let mut line = "  ".to_owned();
    line.append(text_member(j, "source_name", "?"));
    line.append(" -> ");
    line.append(text_member(j, "artifact_hash", "?"));
    line.append(" deps=");
    push_usize(&mut line, dependencies(j));
    line
}

/// A line of a listing.
pub open spec fn row_line(kind: RowKind, d: Data) -> Seq<char> {
    match kind {
        RowKind::Symbol => symbol_line(d),
        RowKind::Changeset => changeset_line(d),
        RowKind::Namespace => namespace_line(d),
        RowKind::Resource => resource_line(d),
        RowKind::Binding => binding_line(d),
        RowKind::Change => change_line(d),
        RowKind::Artifact => artifact_line(d),
    }
}

/// The lines of a listing.
pub open spec fn row_lines(kind: RowKind, items: Seq<Data>) -> Seq<Seq<char>> {
    Seq::new(items.len(), |i: int| row_line(kind, items[i]))
}

fn row_text(kind: RowKind, j: &Json) -> (r: String)
    ensures
        r@ == row_line(kind, data_of(*j)),
{
    match kind {
        RowKind::Symbol => symbol_text(j),
        RowKind::Changeset => changeset_text(j),
        RowKind::Namespace => namespace_text(j),
        RowKind::Resource => resource_text(j),
        RowKind::Binding => binding_text(j),
        RowKind::Change => change_text(j),
        RowKind::Artifact => artifact_text(j),
    }
}

/// The lines of a listing.
pub fn rows(kind: RowKind, items: &Vec<Json>) -> (r: Vec<String>)
    ensures
        texts(r@) == row_lines(kind, list_of(items@)),
{
    proof {
        crate::json::lemma_list(items@);
    }
    let mut out: Vec<String> = Vec::new();
    let mut i: usize = 0;
    while i < items.len()
        invariant
            i <= items@.len(),
            out@.len() == i,
            forall|k: int| 0 <= k < i ==> (#[trigger] out@[k])@ == row_line(kind, data_of(items@[k])),
        decreases items@.len() - i,
    {
        out.push(row_text(kind, &items[i]));
        i = i + 1;
    }
    assert(texts(out@) =~= row_lines(kind, list_of(items@)));
    out
}

/// One line, as lines.
fn one(line: String) -> (r: Vec<String>)
    ensures
        texts(r@) == seq![line@],
{
    let mut out: Vec<String> = Vec::new();
    out.push(line);
    assert(texts(out@) =~= seq![line@]);
    out
}

/// Lines behind others.
fn extend(out: &mut Vec<String>, more: Vec<String>)
    ensures
        texts(final(out)@) == texts(old(out)@) + texts(more@),
{
    let ghost before = texts(out@);
    let mut i: usize = 0;
    assert(texts(more@).take(0) =~= seq![]);
    assert(before + seq![] =~= before);
    while i < more.len()
        invariant
            i <= more@.len(),
            texts(out@) == before + texts(more@).take(i as int),
        decreases more@.len() - i,
    {
        let ghost now = texts(out@);
        out.push(more[i].clone());
        assert(texts(out@) =~= now.push(more@[i as int]@));
        assert(before + texts(more@).take(i as int + 1) =~= now.push(more@[i as int]@));
        i = i + 1;
    }
    assert(texts(more@).take(i as int) =~= texts(more@));
}

/// A listing under a name: its lines and what is said if there are none, or
/// the whole answer if there is no listing.
pub open spec fn listing(
    d: Data,
    name: Seq<char>,
    kind: RowKind,
    none: Seq<Seq<char>>,
    pretty: Seq<char>,
) -> Seq<Seq<char>> {
    match list_in(at(d, name)) {
        Some(items) => if items.len() == 0 {
            none
        } else {
            row_lines(kind, items)
        },
        None => seq![pretty],
    }
}

fn list_lines(j: &Json, name: &str, kind: RowKind, none: Vec<String>, pretty: &str) -> (r: Vec<String>)
    ensures
        texts(r@) == listing(data_of(*j), name@, kind, texts(none@), pretty@),
{
    match j.list_at(name) {
        Some(items) => {
            proof {
                crate::json::lemma_list(items@);
            }
            if items.len() == 0 {
                none
            } else {
                rows(kind, items)
            }
        },
        None => one(pretty.to_owned()),
    }
}

fn no_lines() -> (r: Vec<String>)
    ensures
        texts(r@) == Seq::<Seq<char>>::empty(),
{
    let out: Vec<String> = Vec::new();
    assert(texts(out@) =~= Seq::empty());
    out
}

/// The line above the listings of a generation.
pub open spec fn generation_line(d: Data) -> Seq<char> {
    "namespace="@ + text_or(d, "namespace"@, "?"@) + " generation="@
        + decimal_int(int_or_zero(d, "generation"@))
}

fn generation_text(j: &Json) -> (r: String)
    ensures
        r@ == generation_line(data_of(*j)),
{
    let mut line = "namespace=".to_owned();
    line.append(text_member(j, "namespace", "?"));
    line.append(" generation=");
    push_i64(&mut line, int_member(j, "generation"));
    line
}

/// How the symbols of a namespace are shown.
pub open spec fn symbols_shown(d: Data, pretty: Seq<char>) -> Seq<Seq<char>> {
    seq![generation_line(d)] + listing(d, "symbols"@, RowKind::Symbol, seq!["  (none)"@], pretty)
}

pub fn print_symbols(j: &Json, pretty: &str) -> (r: Vec<String>)
    ensures
        texts(r@) == symbols_shown(data_of(*j), pretty@),
{
    let mut out = one(generation_text(j));
    extend(&mut out, list_lines(j, "symbols", RowKind::Symbol, one("  (none)".to_owned()), pretty));
    out
}

/// How the changesets of a namespace are shown.
pub open spec fn changesets_shown(d: Data, pretty: Seq<char>) -> Seq<Seq<char>> {
    listing(d, "changesets"@, RowKind::Changeset, seq![], pretty)
}

pub fn print_changesets(j: &Json, pretty: &str) -> (r: Vec<String>)
    ensures
        texts(r@) == changesets_shown(data_of(*j), pretty@),
{
    list_lines(j, "changesets", RowKind::Changeset, no_lines(), pretty)
}

/// How the namespaces are shown.
pub open spec fn namespaces_shown(d: Data, pretty: Seq<char>) -> Seq<Seq<char>> {
    listing(d, "namespaces"@, RowKind::Namespace, seq![], pretty)
}

pub fn print_namespaces(j: &Json, pretty: &str) -> (r: Vec<String>)
    ensures
        texts(r@) == namespaces_shown(data_of(*j), pretty@),
{
    list_lines(j, "namespaces", RowKind::Namespace, no_lines(), pretty)
}

/// How the resources of a namespace are shown.
pub open spec fn resources_shown(d: Data, pretty: Seq<char>) -> Seq<Seq<char>> {
    listing(d, "resources"@, RowKind::Resource, seq!["(none)"@], pretty)
}

pub fn print_resources(j: &Json, pretty: &str) -> (r: Vec<String>)
    ensures
        texts(r@) == resources_shown(data_of(*j), pretty@),
{
    list_lines(j, "resources", RowKind::Resource, one("(none)".to_owned()), pretty)
}

/// The lines of a listing, if there is one.
pub open spec fn rows_if_any(d: Data, name: Seq<char>, kind: RowKind) -> Seq<Seq<char>> {
    match list_in(at(d, name)) {
        Some(items) => row_lines(kind, items),
        None => seq![],
    }
}

/// The lines of a listing, if there is one.
pub fn any_rows(j: &Json, name: &str, kind: RowKind) -> (r: Vec<String>)
    ensures
        texts(r@) == rows_if_any(data_of(*j), name@, kind),
{
    match j.list_at(name) {
        Some(items) => rows(kind, items),
        None => no_lines(),
    }
}

/// How the bindings of a namespace are shown.
pub open spec fn bindings_shown(d: Data) -> Seq<Seq<char>> {
    seq![generation_line(d)] + rows_if_any(d, "bindings"@, RowKind::Binding)
}

pub fn print_bindings(j: &Json) -> (r: Vec<String>)
    ensures
        texts(r@) == bindings_shown(data_of(*j)),
{
    let mut out = one(generation_text(j));
    extend(&mut out, any_rows(j, "bindings", RowKind::Binding));
    out
}

/// How the changes of one sort are shown, if the answer has them.
pub open spec fn section(label: Seq<char>, d: Data) -> Seq<Seq<char>> {
    match list_in(at(d, label)) {
        Some(items) => seq![label + ":"@] + (if items.len() == 0 {
            seq!["  (none)"@]
        } else {
            row_lines(RowKind::Change, items)
        }),
        None => seq![],
    }
}

pub fn print_change_section(label: &str, j: &Json) -> (r: Vec<String>)
    ensures
        texts(r@) == section(label@, data_of(*j)),
{
    match j.list_at(label) {
        Some(items) => {
            proof {
                crate::json::lemma_list(items@);
            }
            let mut line = label.to_owned();
            line.append(":");
            let mut out = one(line);
            if items.len() == 0 {
                extend(&mut out, one("  (none)".to_owned()));
            } else {
                extend(&mut out, rows(RowKind::Change, items));
            }
            out
        },
        None => no_lines(),
    }
}

/// How the changes between two generations are shown.
pub open spec fn diff_shown(d: Data) -> Seq<Seq<char>> {
    seq![
        text_or(d, "namespace"@, "?"@) + " "@
            + decimal_int(int_or_zero(d, "from_generation"@)) + " -> "@
            + decimal_int(int_or_zero(d, "to_generation"@)),
    ] + section("added"@, d) + section("removed"@, d) + section("changed"@, d)
}

pub fn print_diff(j: &Json) -> (r: Vec<String>)
    ensures
        texts(r@) == diff_shown(data_of(*j)),
{
    let mut line = text_member(j, "namespace", "?").to_owned();
    line.append(" ");
    push_i64(&mut line, int_member(j, "from_generation"));
    line.append(" -> ");
    push_i64(&mut line, int_member(j, "to_generation"));
    let mut out = one(line);
    extend(&mut out, print_change_section("added", j));
    extend(&mut out, print_change_section("removed", j));
    extend(&mut out, print_change_section("changed", j));
    out
}

/// Whether the entry of a compiled changeset, if it is an object, names its
/// function and its artifact.
pub open spec fn entry_whole(d: Data) -> bool {
    at(d, "entry"@) is Object ==> get(at(d, "entry"@), "function"@) is Some && get(
        at(d, "entry"@),
        "artifact_hash"@,
    ) is Some
}

pub fn entry_is_whole(j: &Json) -> (r: bool)
    ensures
        r == entry_whole(data_of(*j)),
{
    match j.get("entry") {
        Some(entry) => match entry {
            Json::Object(_) => entry.get("function").is_some() && entry.get(
                "artifact_hash",
            ).is_some(),
            _ => true,
        },
        None => true,
    }
}

/// The line about the entry of a compiled changeset.
pub open spec fn entry_line(d: Data) -> Seq<char> {
    let entry = at(d, "entry"@);
    if entry is Object {
        "entry "@ + text_or(entry, "function"@, "apply"@) + " -> "@ + text_or(
            entry,
            "artifact_hash"@,
            "?"@,
        )
    } else {
        "entry none"@
    }
}

fn entry_text(j: &Json) -> (r: String)
    ensures
        r@ == entry_line(data_of(*j)),
{
    match j.get("entry") {
        Some(entry) => match entry {
            Json::Object(_) => {
                let mut line = "entry ".to_owned();
                line.append(text_member(entry, "function", "apply"));
                line.append(" -> ");
                line.append(text_member(entry, "artifact_hash", "?"));
                line
            },
            _ => "entry none".to_owned(),
        },
        None => "entry none".to_owned(),
    }
}

/// How a compiled changeset is shown.
pub open spec fn compiled_shown(d: Data) -> Seq<Seq<char>> {
    seq![entry_line(d)] + rows_if_any(d, "artifacts"@, RowKind::Artifact)
}

pub fn print_compile_response(j: &Json) -> (r: Vec<String>)
    requires
        entry_whole(data_of(*j)),
    ensures
        texts(r@) == compiled_shown(data_of(*j)),
{
    let mut out = one(entry_text(j));
    extend(&mut out, any_rows(j, "artifacts", RowKind::Artifact));
    out
}

/// How the outcome of a run is shown.
pub open spec fn run_shown(d: Data, pretty: Seq<char>) -> Seq<Seq<char>> {
    match text_in(at(d, "stdout"@)) {
        Some(stdout) => match count_in(at(d, "beam_time_us"@)) {
            Some(n) => seq![stdout, "beam_time_us="@ + decimal(n as nat)],
            None => seq![stdout],
        },
        None => seq![pretty],
    }
}

pub fn print_run_response(j: &Json, pretty: &str) -> (r: Vec<String>)
    ensures
        texts(r@) == run_shown(data_of(*j), pretty@),
{
    match j.text_at("stdout") {
        Some(stdout) => {
            let mut out = one(stdout.to_owned());
            match j.count_at("beam_time_us") {
                Some(n) => {
                    let mut line = "beam_time_us=".to_owned();
                    push_u64(&mut line, n);
                    let ghost before = texts(out@);
                    out.push(line);
                    assert(texts(out@) =~= before.push(line@));
                    assert(texts(out@) =~= seq![stdout@, line@]);
                },
                None => {},
            }
            out
        },
        None => one(pretty.to_owned()),
    }
}

} // verus!
