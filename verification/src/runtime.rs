//! The values of the native runtime, 64-bit words whose low three bits are a
//! tag, and the C source that native programs are linked with.
use vstd::prelude::*;
use crate::runtime_c::{library_source, library_text, PRELUDE, SUPPORT};
use crate::text::{chars_of, decimal, join, joined, push_usize, texts};

verus! {

pub const TAG_BITS: i64 = 3;

pub const TAG_MASK: i64 = 0x7;

/// A pointer to the arity and the elements.
pub const TAG_TUPLE: i64 = 0;

/// A small integer.
pub const TAG_INT: i64 = 1;

/// A pointer to head and tail.
pub const TAG_CONS: i64 = 2;

/// The index of an atom.
pub const TAG_ATOM: i64 = 3;

/// A pointer to a string or a floating-point number.
pub const TAG_BOXED: i64 = 4;

/// A pointer to a closure.
pub const TAG_FUN: i64 = 6;

/// The empty list.
pub const TAG_NIL: i64 = 7;

pub const BOXED_FLOAT: i64 = 2;

pub const VALUE_NIL: i64 = 7;

pub const VALUE_TRUE: i64 = 3;

pub const VALUE_FALSE: i64 = 11;

#[derive(Debug)]
pub enum NativeError {
    Message(String),
    Io(String),
}

impl NativeError {
    /// The error in words.
    pub fn text(&self) -> (r: String)
        ensures
            r@ == (match *self {
                NativeError::Message(m) => m@,
                NativeError::Io(m) => "I/O error: "@ + m@,
            }),
    {
        match self {
            NativeError::Message(m) => m.clone(),
            NativeError::Io(m) => {
                let mut t = "I/O error: ".to_owned();
                t.append(m.as_str());
                t
            },
        }
    }
}

#[derive(Debug)]
pub struct NativeOutput {
    pub object_bytes: Vec<u8>,
    pub runtime_c_source: String,
    pub entry_symbol: String,
}

/// The word that stands for a small integer.
#[inline]
pub fn make_tagged_int(n: i64) -> (r: i64)
    ensures
        r == ((n << 3) | 1),
{
    (n << 3) | 1
}

/// The word that stands for the atom with the given index.
#[inline]
pub fn make_tagged_atom(index: usize) -> (r: i64)
    ensures
        r == (((index as i64) << 3) | 3),
{
    ((index as i64) << 3) | 3
}

/// An integer that fits in 61 bits comes back when its word is shifted, and its
/// word has the tag of integers.
pub proof fn tagged_int_round_trip(n: i64)
    ensures
        ((n << 3) | 1) & 7 == 1,
        -0x1000_0000_0000_0000 <= n < 0x1000_0000_0000_0000 ==> ((n << 3) | 1) >> 3 == n,
{
    assert(((n << 3) | 1) & 7 == 1) by (bit_vector);
    assert(-0x1000_0000_0000_0000 <= n < 0x1000_0000_0000_0000 ==> ((n << 3) | 1) >> 3 == n)
        by (bit_vector);
}

/// An index below 2^60 comes back when its word is shifted, and its word has
/// the tag of atoms.
pub proof fn tagged_atom_round_trip(i: i64)
    ensures
        ((i << 3) | 3) & 7 == 3,
        0 <= i < 0x1000_0000_0000_0000 ==> ((i << 3) | 3) >> 3 == i,
{
    assert(((i << 3) | 3) & 7 == 3) by (bit_vector);
    assert(0 <= i < 0x1000_0000_0000_0000 ==> ((i << 3) | 3) >> 3 == i) by (bit_vector);
}

/// The text with every occurrence of `from`, taken from the left, replaced.
pub open spec fn replaced(s: Seq<char>, from: Seq<char>, to: Seq<char>) -> Seq<char>
    decreases s.len(),
{
    if from.len() == 0 || s.len() < from.len() {
        s
    } else if s.take(from.len() as int) == from {
        to + replaced(s.skip(from.len() as int), from, to)
    } else {
        seq![s[0]] + replaced(s.drop_first(), from, to)
    }
}

/// Replaces every occurrence of `from`.
pub fn replace_all(s: &str, from: &str, to: &str) -> (r: String)
    ensures
        r@ == replaced(s@, from@, to@),
{
    let cs = chars_of(s);
    let fs = chars_of(from);
    let mut out = String::new();
    let mut i: usize = 0;
    assert(cs@.skip(0) =~= cs@);
    assert(out@ + replaced(cs@.skip(0), from@, to@) =~= replaced(s@, from@, to@));
    while i < cs.len()
        invariant
            i <= cs@.len(),
            cs@ == s@,
            fs@ == from@,
            out@ + replaced(cs@.skip(i as int), from@, to@) == replaced(s@, from@, to@),
        decreases cs@.len() - i,
    {
        let ghost rest = cs@.skip(i as int);
        let ghost before = out@;
        if fs.len() > 0 && starts_at(&cs, i, &fs) {
            out.append(to);
            assert(rest.skip(fs@.len() as int) =~= cs@.skip(i as int + fs@.len()));
            assert(before + (to@ + replaced(rest.skip(fs@.len() as int), from@, to@)) =~= (before
                + to@) + replaced(rest.skip(fs@.len() as int), from@, to@));
            i = i + fs.len();
        } else {
            out.push(cs[i]);
            assert(rest.drop_first() =~= cs@.skip(i as int + 1));
            proof {
                if from@.len() == 0 || rest.len() < from@.len() {
                    assert(replaced(rest.drop_first(), from@, to@) == rest.drop_first());
                    assert(out@ + rest.drop_first() =~= before + rest);
                } else {
                    assert(before + (seq![rest[0]] + replaced(rest.drop_first(), from@, to@)) =~= out@
                        + replaced(rest.drop_first(), from@, to@));
                }
            }
            i = i + 1;
        }
    }
    assert(cs@.skip(i as int) =~= Seq::empty());
    assert(out@ + replaced(cs@.skip(i as int), from@, to@) =~= out@);
    out
}

fn starts_at(cs: &Vec<char>, i: usize, fs: &Vec<char>) -> (r: bool)
    requires
        i <= cs@.len(),
    ensures
        r == (cs@.len() - i >= fs@.len() && cs@.skip(i as int).take(fs@.len() as int) == fs@),
{
    if cs.len() - i < fs.len() {
        return false;
    }
    let ghost rest = cs@.skip(i as int).take(fs@.len() as int);
    let n = cs.len();
    let mut k: usize = 0;
    while k < fs.len()
        invariant
            n == cs@.len(),
            i + fs@.len() <= n,
            k <= fs@.len(),
            rest == cs@.skip(i as int).take(fs@.len() as int),
            forall|j: int| 0 <= j < k ==> rest[j] == fs@[j],
        decreases fs@.len() - k,
    {
        assert(rest[k as int] == cs@[i + k]);
        if cs[i + k] != fs[k] {
            return false;
        }
        k = k + 1;
    }
    assert(rest =~= fs@);
    true
}

/// A character of a C string literal.
pub open spec fn c_char(c: char) -> Seq<char> {
    if c == '\\' {
        "\\\\"@
    } else if c == '"' {
        "\\\""@
    } else {
        seq![c]
    }
}

pub open spec fn c_escaped(s: Seq<char>) -> Seq<char>
    decreases s.len(),
{
    if s.len() == 0 {
        Seq::empty()
    } else {
        c_escaped(s.drop_last()) + c_char(s.last())
    }
}

fn c_escape(s: &str) -> (r: String)
    ensures
        r@ == c_escaped(s@),
{
    let cs = chars_of(s);
    let mut out = String::new();
    let mut i: usize = 0;
    while i < cs.len()
        invariant
            i <= cs@.len(),
            cs@ == s@,
            out@ == c_escaped(s@.take(i as int)),
        decreases cs@.len() - i,
    {
        assert(s@.take(i as int + 1).drop_last() =~= s@.take(i as int));
        let ghost before = out@;
        if cs[i] == '\\' {
            out.append("\\\\");
        } else if cs[i] == '"' {
            out.append("\\\"");
        } else {
            out.push(cs[i]);
            assert(out@ =~= before + seq![cs@[i as int]]);
        }
        i = i + 1;
    }
    assert(s@.take(i as int) =~= s@);
    out
}

/// The header that the clock needs is named behind every mention of the header
/// for jumps.
pub open spec fn with_clock(s: Seq<char>) -> Seq<char> {
    replaced(s, "#include <setjmp.h>"@, "#include <setjmp.h>\n#include <time.h>"@)
}

/// The lines of the atom table up to an atom.
pub open spec fn atom_lines(atoms: Seq<Seq<char>>, total: nat) -> Seq<char>
    decreases atoms.len(),
{
    if atoms.len() == 0 {
        Seq::empty()
    } else {
        atom_lines(atoms.drop_last(), total) + "    \""@ + with_clock(c_escaped(atoms.last()))
            + "\""@ + (if atoms.len() < total {
            ","@
        } else {
            ""@
        }) + "\n"@
    }
}

pub open spec fn entry_param(i: nat) -> Seq<char> {
    "Value a"@ + decimal(i)
}

/// The declaration of the function that a program starts with.
pub open spec fn entry_declaration(symbol: Seq<char>, arity: nat) -> Seq<char> {
    if arity == 0 {
        "extern Value "@ + symbol + "(void);\n\n"@
    } else {
        "extern Value "@ + symbol + "("@ + joined(
            Seq::new(arity, |i: int| entry_param(i as nat)),
            ", "@,
        ) + ");\n\n"@
    }
}

/// The C source for a program.
pub open spec fn runtime_text(atoms: Seq<Seq<char>>, symbol: Seq<char>, arity: nat) -> Seq<char> {
    PRELUDE@ + SUPPORT@ + "static const char* atom_names["@ + decimal(
        if atoms.len() == 0 {
            1
        } else {
            atoms.len()
        },
    ) + "] = {\n"@ + atom_lines(atoms, atoms.len()) + "};\n"@ + "static int num_atoms = "@ + decimal(
        atoms.len(),
    ) + ";\n\n"@ + library_text() + "/* ---- Entry point ---- */\n"@ + entry_declaration(
        symbol,
        arity,
    ) + ENTRY_HEAD@ + symbol + ENTRY_TAIL@
}

/// The start of the program.
pub const ENTRY_HEAD: &'static str = "int main(int argc, char** argv) {
    (void)argc;
    (void)argv;
    Value result = ";

pub const ENTRY_TAIL: &'static str = "();
    /* Only print the result if it is not unit/nil */
    if (result != VALUE_NIL && result != ((4LL << TAG_BITS) | TAG_ATOM)) {
        print_value(result);
    }
    return 0;
}
";

fn atom_table(atoms: &Vec<String>) -> (r: String)
    ensures
        r@ == atom_lines(texts(atoms@), atoms@.len()),
{
    let ghost all = texts(atoms@);
    let mut out = String::new();
    let mut i: usize = 0;
    while i < atoms.len()
        invariant
            i <= atoms@.len(),
            all == texts(atoms@),
            out@ == atom_lines(all.take(i as int), atoms@.len()),
        decreases atoms@.len() - i,
    {
        assert(all.take(i as int + 1).drop_last() =~= all.take(i as int));
        assert(all.take(i as int + 1).last() == atoms@[i as int]@);
        let name = replace_all(
            c_escape(atoms[i].as_str()).as_str(),
            "#include <setjmp.h>",
            "#include <setjmp.h>\n#include <time.h>",
        );
        out.append("    \"");
        out.append(name.as_str());
        out.append("\"");
        if i + 1 < atoms.len() {
            out.append(",");
        } else {
            out.append("");
        }
        out.append("\n");
        i = i + 1;
    }
    assert(all.take(i as int) =~= all);
    out
}

fn entry_line(symbol: &str, arity: usize) -> (r: String)
    ensures
        r@ == entry_declaration(symbol@, arity as nat),
{
    let mut out = "extern Value ".to_owned();
    out.append(symbol);
    if arity == 0 {
        out.append("(void);\n\n");
        return out;
    }
    let mut params: Vec<String> = Vec::new();
    let mut i: usize = 0;
    while i < arity
        invariant
            i <= arity,
            params@.len() == i,
            forall|k: int| 0 <= k < i ==> (#[trigger] params@[k])@ == entry_param(k as nat),
        decreases arity - i,
    {
        let mut p = "Value a".to_owned();
        push_usize(&mut p, i);
        params.push(p);
        i = i + 1;
    }
    assert(texts(params@) =~= Seq::new(arity as nat, |k: int| entry_param(k as nat)));
    out.append("(");
    out.append(join(&params, ", ").as_str());
    out.append(");\n\n");
    out
}

/// The C source for a program: the runtime with the program's atoms, and a
/// `main` that calls its first function.
pub fn generate_runtime_c(atoms: &Vec<String>, entry_symbol: &str, entry_arity: usize) -> (r: String)
    ensures
        r@ == runtime_text(texts(atoms@), entry_symbol@, entry_arity as nat),
{
    let mut t = PRELUDE.to_owned();
    t.append(SUPPORT);
    t.append("static const char* atom_names[");
    let n = if atoms.len() == 0 {
        1
    } else {
        atoms.len()
    };
    push_usize(&mut t, n);
    t.append("] = {\n");
    t.append(atom_table(atoms).as_str());
    t.append("};\n");
    t.append("static int num_atoms = ");
    push_usize(&mut t, atoms.len());
    t.append(";\n\n");
    t.append(library_source().as_str());
    t.append("/* ---- Entry point ---- */\n");
    t.append(entry_line(entry_symbol, entry_arity).as_str());
    t.append(ENTRY_HEAD);
    t.append(entry_symbol);
    t.append(ENTRY_TAIL);
    t
}

} // verus!
