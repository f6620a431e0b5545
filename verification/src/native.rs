//! The native backend's plan: the steps from which machine code is built, and
//! how expressions become steps.
use vstd::prelude::*;
use vstd::utf8::encode_utf8;
use crate::erlang::{Clause, Core, Literal, Pat, PatSegment, Segment};
use crate::text::{decimal, with_new};

verus! {

/// One step of building a function. A step that yields a block, a variable, a
/// stack slot or a value is referred to by its place in the list of steps.
#[derive(Debug, Clone, Copy, PartialEq, Eq, Structural)]
pub enum Step {
    CreateBlock,
    /// A block gets a parameter.
    AddParam(usize),
    /// A block gets the parameters of the function.
    FunctionParams(usize),
    SwitchTo(usize),
    Seal(usize),
    /// A block and the index of its parameter.
    Param(usize, usize),
    DeclareVar,
    /// A variable and its value.
    DefVar(usize, usize),
    UseVar(usize),
    Word(i64),
    Byte(i64),
    /// An argument of the call that follows.
    Arg(usize),
    /// A reference to a declared function.
    Import(usize),
    /// A reference to a function, and the number of arguments.
    Call(usize, usize),
    FuncAddr(usize),
    BandImm(usize, i64),
    BorImm(usize, i64),
    BxorImm(usize, i64),
    IshlImm(usize, i64),
    SshrImm(usize, i64),
    EqualImm(usize, i64),
    NotEqualImm(usize, i64),
    Equal(usize, usize),
    Band(usize, usize),
    Bor(usize, usize),
    Bxor(usize, usize),
    Bnot(usize),
    Ishl(usize, usize),
    Sshr(usize, usize),
    Isub(usize, usize),
    /// A condition and the two values it chooses from.
    Select(usize, usize, usize),
    /// A pointer and an offset.
    Load(usize, i32),
    /// A value, a pointer and an offset.
    Store(usize, usize, i32),
    /// The size and the alignment of a stack slot.
    Slot(u32, u8),
    /// A value, a slot and an offset.
    StackStore(usize, usize, i32),
    StackAddr(usize),
    /// The low byte of a word.
    Reduce(usize),
    /// A condition, and the blocks for true and for false.
    Brif(usize, usize, usize),
    Jump(usize),
    /// A block and the value for its parameter.
    JumpWith(usize, usize),
    Trap,
    Return(usize),
}

/// The model of a declared function.
pub struct Decl {
    pub symbol: Seq<char>,
    pub params: nat,
    pub results: nat,
    /// Whether it is defined here.
    pub export: bool,
    /// Whether calls find it by its symbol.
    pub own: bool,
    /// Whether it is a helper of the runtime.
    pub runtime: bool,
}

/// The model of a function whose body is still to be translated.
pub struct Lambda {
    pub func: usize,
    pub params: Seq<Seq<char>>,
    pub captures: Seq<Seq<char>>,
    pub body: Core,
    pub home: Seq<char>,
}

/// The model of what a translation warns of.
pub enum Caution {
    /// A built-in function of `erlang` that the runtime does not have, and the
    /// number of arguments.
    Unsupported(Seq<char>, nat),
    /// A symbol that is in use with another signature than the one with this
    /// number of parameters.
    Undeclared(Seq<char>, nat),
}

/// The state of a translation. It is stuck once something has been met that
/// cannot be translated: a built-in function with too few arguments, a
/// definition with more parameters than its arity, or a symbol that is in use
/// with another signature.
pub struct Gen {
    pub atoms: Seq<Seq<char>>,
    pub funcs: Seq<Decl>,
    pub lambdas: nat,
    pub deferred: Seq<Lambda>,
    pub steps: Seq<Step>,
    pub stuck: bool,
    pub cautions: Seq<Caution>,
}

/// The state with one more warning.
pub open spec fn warned(g: Gen, c: Caution) -> Gen {
    Gen { cautions: g.cautions.push(c), ..g }
}

/// The variables in scope; a later entry hides an earlier one.
pub type Vars = Seq<(Seq<char>, usize)>;

pub open spec fn var_of(vars: Vars, name: Seq<char>) -> Option<usize>
    decreases vars.len(),
{
    if vars.len() == 0 {
        None
    } else if vars.last().0 == name {
        Some(vars.last().1)
    } else {
        var_of(vars.drop_last(), name)
    }
}

/// Adds a step. The second part is its place.
#[verifier::opaque]
pub open spec fn emit(g: Gen, s: Step) -> (Gen, usize) {
    (Gen { steps: g.steps.push(s), ..g }, g.steps.len() as usize)
}

#[verifier::opaque]
pub open spec fn stick(g: Gen) -> (Gen, usize) {
    (Gen { stuck: true, ..g }, 0)
}

/// The place of an atom in the table, which gets it if it is not there yet.
pub open spec fn interned(atoms: Seq<Seq<char>>, name: Seq<char>) -> (Seq<Seq<char>>, nat) {
    if atoms.contains(name) {
        (atoms, crate::hashing::place(atoms, name))
    } else {
        (atoms.push(name), atoms.len())
    }
}

/// Interning gives the atom's place, moves no other atom, and lists none twice.
pub proof fn interning_is_stable(atoms: Seq<Seq<char>>, name: Seq<char>)
    ensures
        interned(atoms, name).1 < interned(atoms, name).0.len(),
        interned(atoms, name).0[interned(atoms, name).1 as int] == name,
        atoms.is_prefix_of(interned(atoms, name).0),
        atoms.no_duplicates() ==> interned(atoms, name).0.no_duplicates(),
        interned(interned(atoms, name).0, name) == interned(atoms, name),
{
    if atoms.contains(name) {
        lemma_place_of(atoms, name);
    } else {
        let more = atoms.push(name);
        assert(more[atoms.len() as int] == name);
        lemma_place_of(more, name);
        assert(crate::hashing::place(more, name) == atoms.len()) by {
            let k = crate::hashing::place(more, name);
            if k < atoms.len() {
                assert(atoms[k as int] == name);
            }
        }
        assert forall|i: int, j: int|
            atoms.no_duplicates() && 0 <= i < more.len() && 0 <= j < more.len() && i
                != j implies more[i] != more[j] by {
            if i < atoms.len() {
                assert(atoms.contains(atoms[i]));
            }
            if j < atoms.len() {
                assert(atoms.contains(atoms[j]));
            }
        }
    }
}

proof fn lemma_place_of(s: Seq<Seq<char>>, x: Seq<char>)
    requires
        s.contains(x),
    ensures
        crate::hashing::place(s, x) < s.len(),
        s[crate::hashing::place(s, x) as int] == x,
    decreases s.len(),
{
    if s[0] != x {
        let k = choose|k: int| 0 <= k < s.len() && s[k] == x;
        assert(s.drop_first()[k - 1] == x);
        lemma_place_of(s.drop_first(), x);
    }
}

pub open spec fn int_word(n: i64) -> i64 {
    (n << 3) | 1
}

pub open spec fn atom_word(index: usize) -> i64 {
    ((index as i64) << 3) | 3
}

/// The word for the empty list.
pub open spec fn nil_word() -> i64 {
    7
}

/// The word for `true`.
pub open spec fn true_word() -> i64 {
    3
}

/// The word for `false`.
pub open spec fn false_word() -> i64 {
    11
}

/// Clears the tag of a pointer.
pub open spec fn pointer_mask() -> i64 {
    (-8) as i64
}

/// The place of the function with a symbol.
pub open spec fn func_at(funcs: Seq<Decl>, symbol: Seq<char>) -> Option<usize>
    decreases funcs.len(),
{
    if funcs.len() == 0 {
        None
    } else if funcs.last().symbol == symbol {
        Some((funcs.len() - 1) as usize)
    } else {
        func_at(funcs.drop_last(), symbol)
    }
}

/// Declares a function. A function with the same symbol and signature is the
/// same function; one with another signature is in the way.
#[verifier::opaque]
pub open spec fn declared(
    funcs: Seq<Decl>,
    symbol: Seq<char>,
    params: nat,
    results: nat,
    export: bool,
    own: bool,
    runtime: bool,
) -> Option<(Seq<Decl>, usize)> {
    match func_at(funcs, symbol) {
        Some(i) => {
            let f = funcs[i as int];
            if f.params == params && f.results == results {
                Some(
                    (
                        funcs.update(
                            i as int,
                            Decl {
                                export: f.export || export,
                                own: f.own || own,
                                runtime: f.runtime || runtime,
                                ..f
                            },
                        ),
                        i,
                    ),
                )
            } else {
                None
            }
        },
        None => Some(
            (
                funcs.push(Decl { symbol, params, results, export, own, runtime }),
                funcs.len() as usize,
            ),
        ),
    }
}

/// The function of the runtime with a name, which is declared if it was not yet.
#[verifier::opaque]
pub open spec fn runtime_func(g: Gen, name: Seq<char>, params: nat, results: nat) -> (Gen, usize) {
    let at = func_at(g.funcs, name);
    if at is Some && g.funcs[at->Some_0 as int].runtime {
        (g, at->Some_0)
    } else {
        match declared(g.funcs, name, params, results, false, false, true) {
            Some((funcs, i)) => (Gen { funcs, ..g }, i),
            None => stick(g),
        }
    }
}

/// The arguments of a call.
pub open spec fn with_args(g: Gen, args: Seq<usize>) -> Gen
    decreases args.len(),
{
    if args.len() == 0 {
        g
    } else {
        emit(with_args(g, args.drop_last()), Step::Arg(args.last())).0
    }
}

#[verifier::opaque]
pub open spec fn call(g: Gen, func: usize, args: Seq<usize>) -> (Gen, usize) {
    let (g1, f) = emit(g, Step::Import(func));
    emit(with_args(g1, args), Step::Call(f, args.len() as usize))
}

/// A call of a function of the runtime that returns a value.
#[verifier::opaque]
pub open spec fn runtime_call(g: Gen, name: Seq<char>, args: Seq<usize>) -> (Gen, usize) {
    let (g1, f) = runtime_func(g, name, args.len(), 1);
    call(g1, f, args)
}

/// A call of a function of the runtime that does not return.
#[verifier::opaque]
pub open spec fn runtime_raise(g: Gen, name: Seq<char>, args: Seq<usize>) -> Gen {
    let (g1, f) = runtime_func(g, name, args.len(), 0);
    call(g1, f, args).0
}

/// Stores bytes one after the other.
pub open spec fn stored_bytes(g: Gen, slot: usize, bytes: Seq<u8>) -> Gen
    decreases bytes.len(),
{
    if bytes.len() == 0 {
        g
    } else {
        let g1 = stored_bytes(g, slot, bytes.drop_last());
        let (g2, v) = emit(g1, Step::Byte(bytes.last() as i64));
        emit(g2, Step::StackStore(v, slot, (bytes.len() - 1) as i32)).0
    }
}

/// A string of the bytes in a slot, behind which a zero is put.
#[verifier::opaque]
pub open spec fn string_in(g: Gen, slot: usize, len: nat) -> (Gen, usize) {
    let (g1, z) = emit(g, Step::Byte(0));
    let g2 = emit(g1, Step::StackStore(z, slot, len as i32)).0;
    let (g3, p) = emit(g2, Step::StackAddr(slot));
    let (g4, n) = emit(g3, Step::Word(len as i64));
    runtime_call(g4, "lux_rt_make_string"@, seq![p, n])
}

/// A string of constant bytes.
#[verifier::opaque]
pub open spec fn bytes_string(g: Gen, bytes: Seq<u8>) -> (Gen, usize) {
    let (g1, slot) = emit(g, Step::Slot((bytes.len() + 1) as u32, 0));
    string_in(stored_bytes(g1, slot, bytes), slot, bytes.len())
}

/// A string literal. The empty one is the empty list.
#[verifier::opaque]
pub open spec fn string_lit(g: Gen, s: Seq<char>) -> (Gen, usize) {
    let bytes = encode_utf8(s);
    if bytes.len() == 0 {
        emit(g, Step::Word(nil_word()))
    } else {
        bytes_string(g, bytes)
    }
}

/// A floating-point literal: a boxed double on the heap.
pub open spec fn float_lit(g: Gen, bits: u64) -> (Gen, usize) {
    let (g1, f) = runtime_func(g, "lux_alloc"@, 1, 1);
    let (g2, size) = emit(g1, Step::Word(16));
    let (g3, p) = call(g2, f, seq![size]);
    let (g4, m) = emit(g3, Step::Word(2));
    let g5 = emit(g4, Step::Store(m, p, 0)).0;
    let (g6, b) = emit(g5, Step::Word(bits as i64));
    let g7 = emit(g6, Step::Store(b, p, 8)).0;
    emit(g7, Step::BorImm(p, 4))
}

#[verifier::opaque]
pub open spec fn lit(g: Gen, l: Literal) -> (Gen, usize) {
    match l {
        Literal::Int(n) => emit(g, Step::Word(int_word(n as i64))),
        Literal::Atom(name) => {
            let (atoms, i) = interned(g.atoms, name);
            emit(Gen { atoms, ..g }, Step::Word(atom_word(i as usize)))
        },
        Literal::Nil => emit(g, Step::Word(nil_word())),
        Literal::Float(bits, _) => float_lit(g, bits),
        Literal::Text(s) => string_lit(g, s),
    }
}

/// The word that a literal is compared with in a pattern. Floating-point
/// numbers are not told apart there.
pub open spec fn lit_word(g: Gen, l: Literal) -> (Gen, i64) {
    match l {
        Literal::Int(n) => (g, int_word(n as i64)),
        Literal::Atom(name) => {
            let (atoms, i) = interned(g.atoms, name);
            (Gen { atoms, ..g }, atom_word(i as usize))
        },
        Literal::Nil => (g, nil_word()),
        Literal::Float(_, _) => (g, int_word(0)),
        Literal::Text(_) => (g, nil_word()),
    }
}

/// Whether a character may stand in a symbol.
pub open spec fn symbol_char(c: char) -> char {
    if crate::native_gen::char_is_alphanumeric(c) {
        c
    } else {
        '_'
    }
}

pub open spec fn symbol_chars(s: Seq<char>) -> Seq<char> {
    Seq::new(s.len(), |i: int| symbol_char(s[i]))
}

/// The linker's name of a function.
pub open spec fn mangled(module: Seq<char>, name: Seq<char>, arity: nat) -> Seq<char> {
    "lux_"@ + symbol_chars(module) + "_"@ + symbol_chars(name) + "_"@ + decimal(arity)
}

pub open spec fn untag(g: Gen, v: usize) -> (Gen, usize) {
    emit(g, Step::SshrImm(v, 3))
}

pub open spec fn tag(g: Gen, v: usize) -> (Gen, usize) {
    let (g1, s) = emit(g, Step::IshlImm(v, 3));
    emit(g1, Step::BorImm(s, 1))
}

/// `true` or `false` for a condition.
pub open spec fn truth(g: Gen, cond: usize) -> (Gen, usize) {
    let (g1, t) = emit(g, Step::Word(true_word()));
    let (g2, f) = emit(g1, Step::Word(false_word()));
    emit(g2, Step::Select(cond, t, f))
}

pub open spec fn zeroed(g: Gen, slot: usize, zero: usize, k: nat) -> Gen
    decreases k,
{
    if k == 0 {
        g
    } else {
        emit(
            zeroed(g, slot, zero, (k - 1) as nat),
            Step::StackStore(zero, slot, ((k - 1) * 8) as i32),
        ).0
    }
}

/// The address of eight zero words on the stack.
pub open spec fn safe_words(g: Gen) -> (Gen, usize) {
    let (g1, slot) = emit(g, Step::Slot(64, 8));
    let (g2, zero) = emit(g1, Step::Word(0));
    emit(zeroed(g2, slot, zero, 8), Step::StackAddr(slot))
}

/// Whether a value has a tag: the tag, and the comparison.
pub open spec fn has_tag(g: Gen, v: usize, tag: i64) -> (Gen, usize) {
    let (g1, t) = emit(g, Step::BandImm(v, 7));
    emit(g1, Step::EqualImm(t, tag))
}

/// The pointer in a value if `cond` holds, and otherwise one to zero words.
pub open spec fn safe_pointer(g: Gen, v: usize, cond: usize) -> (Gen, usize) {
    let (g1, raw) = emit(g, Step::BandImm(v, pointer_mask()));
    let (g2, safe) = safe_words(g1);
    emit(g2, Step::Select(cond, raw, safe))
}

/// Whether a value is boxed, given its tag, and its first word is `marker`.
pub open spec fn is_boxed(g: Gen, v: usize, tag: usize, marker: i64) -> (Gen, usize) {
    let (g1, boxed) = emit(g, Step::EqualImm(tag, 4));
    let (g2, p) = safe_pointer(g1, v, boxed);
    let (g3, first) = emit(g2, Step::Load(p, 0));
    let (g4, same) = emit(g3, Step::EqualImm(first, marker));
    emit(g4, Step::Band(boxed, same))
}

/// Whether a value is boxed with `marker` in its first word.
pub open spec fn is_boxed_with(g: Gen, v: usize, marker: i64) -> (Gen, usize) {
    let (g1, t) = emit(g, Step::BandImm(v, 7));
    let (g2, c) = is_boxed(g1, v, t, marker);
    truth(g2, c)
}

/// The runtime function that a built-in function stands for, and how many of
/// its arguments it takes.
pub open spec fn bif_runtime(func: Seq<char>, n: nat) -> Option<(Seq<char>, nat)> {
    if func == "+"@ {
        Some(("lux_rt_add"@, 2))
    } else if func == "-"@ && n == 2 {
        Some(("lux_rt_sub"@, 2))
    } else if func == "-"@ && n == 1 {
        Some(("lux_rt_negate"@, 1))
    } else if func == "*"@ {
        Some(("lux_rt_mul"@, 2))
    } else if func == "/"@ {
        Some(("lux_rt_float_div"@, 2))
    } else if func == "div"@ {
        Some(("lux_rt_safe_div"@, 2))
    } else if func == "rem"@ {
        Some(("lux_rt_safe_rem"@, 2))
    } else if func == "=:="@ {
        Some(("lux_rt_value_equal"@, 2))
    } else if func == "=="@ {
        Some(("lux_rt_value_equal"@, 2))
    } else if func == "<"@ {
        Some(("lux_rt_less_than"@, 2))
    } else if func == "=<"@ {
        Some(("lux_rt_less_equal"@, 2))
    } else if func == ">"@ {
        Some(("lux_rt_greater_than"@, 2))
    } else if func == ">="@ {
        Some(("lux_rt_greater_equal"@, 2))
    } else if func == "length"@ {
        Some(("lux_rt_list_length"@, 1))
    } else if func == "hd"@ {
        Some(("lux_rt_cons_head"@, 1))
    } else if func == "tl"@ {
        Some(("lux_rt_cons_tail"@, 1))
    } else if func == "byte_size"@ {
        Some(("lux_rt_byte_size"@, 1))
    } else if func == "bit_size"@ {
        Some(("lux_rt_byte_size"@, 1))
    } else if func == "binary_part"@ {
        Some(("lux_rt_binary_slice"@, 3))
    } else if func == "integer_to_list"@ {
        Some(("lux_rt_to_string"@, 1))
    } else if func == "integer_to_binary"@ {
        Some(("lux_rt_to_string"@, 1))
    } else if func == "display"@ {
        Some(("lux_rt_display"@, 1))
    } else if func == "++"@ {
        Some(("lux_rt_string_concat"@, 2))
    } else if func == "list_to_binary"@ {
        Some(("lux_rt_list_to_binary"@, 1))
    } else if func == "binary_to_list"@ {
        Some(("lux_rt_binary_to_list"@, 1))
    } else if func == "put"@ {
        Some(("lux_rt_put"@, 2))
    } else if func == "get"@ {
        Some(("lux_rt_get"@, 1))
    } else if func == "system_time"@ {
        Some(("lux_rt_system_time"@, 1))
    } else if func == "make_ref"@ {
        Some(("lux_rt_make_ref"@, 0))
    } else {
        None
    }
}

/// A bit operation on two integers.
pub open spec fn bit_operation(func: Seq<char>, a: usize, b: usize) -> Option<Step> {
    if func == "band"@ {
        Some(Step::Band(a, b))
    } else if func == "bor"@ {
        Some(Step::Bor(a, b))
    } else if func == "bxor"@ {
        Some(Step::Bxor(a, b))
    } else if func == "bsl"@ {
        Some(Step::Ishl(a, b))
    } else if func == "bsr"@ {
        Some(Step::Sshr(a, b))
    } else {
        None
    }
}

/// How many arguments a built-in function needs.
pub open spec fn bif_needs(func: Seq<char>, n: nat) -> nat {
    if bif_runtime(func, n) is Some {
        bif_runtime(func, n)->Some_0.1
    } else if bit_operation(func, 0, 0) is Some || func == "=/="@ || func == "/="@ || func == "and"@
        || func == "or"@ || func == "max"@ || func == "min"@ || func == "element"@ {
        2
    } else if func == "bnot"@ || func == "not"@ || func == "is_integer"@ || func == "is_atom"@ || func
        == "is_list"@ || func == "is_tuple"@ || func == "is_binary"@ || func == "is_bitstring"@
        || func == "is_map"@ || func == "is_function"@ || func == "is_boolean"@ || func
        == "is_float"@ || func == "is_number"@ || func == "abs"@ || func == "tuple_size"@ || func
        == "iolist_to_binary"@ || func == "throw"@ || func == "error"@ || func == "exit"@ {
        1
    } else {
        0
    }
}

/// Whether `func` is a test of the kind of a value, and the steps of it.
pub open spec fn kind_test(func: Seq<char>, v: usize, g: Gen) -> Option<(Gen, usize)> {
    if func == "is_integer"@ {
        let (g1, c) = has_tag(g, v, 1);
        Some(truth(g1, c))
    } else if func == "is_atom"@ {
        let (g1, c) = has_tag(g, v, 3);
        Some(truth(g1, c))
    } else if func == "is_function"@ {
        let (g1, c) = has_tag(g, v, 6);
        Some(truth(g1, c))
    } else if func == "is_list"@ {
        let (g1, cons) = has_tag(g, v, 2);
        let (g2, nil) = emit(g1, Step::EqualImm(v, nil_word()));
        let (g3, c) = emit(g2, Step::Bor(cons, nil));
        Some(truth(g3, c))
    } else if func == "is_tuple"@ {
        let (g1, tuple) = has_tag(g, v, 0);
        let (g2, some) = emit(g1, Step::NotEqualImm(v, 0));
        let (g3, c) = emit(g2, Step::Band(tuple, some));
        Some(truth(g3, c))
    } else if func == "is_binary"@ || func == "is_bitstring"@ {
        Some(is_boxed_with(g, v, 1))
    } else if func == "is_map"@ {
        Some(is_boxed_with(g, v, 0x4D41505F))
    } else if func == "is_float"@ {
        Some(is_boxed_with(g, v, 2))
    } else if func == "is_boolean"@ {
        let (g1, t) = emit(g, Step::EqualImm(v, true_word()));
        let (g2, f) = emit(g1, Step::EqualImm(v, false_word()));
        let (g3, c) = emit(g2, Step::Bor(t, f));
        Some(truth(g3, c))
    } else if func == "is_number"@ {
        let (g1, t) = emit(g, Step::BandImm(v, 7));
        let (g2, int_tag) = emit(g1, Step::EqualImm(t, 1));
        let (g3, float) = is_boxed(g2, v, t, 2);
        let (g4, c) = emit(g3, Step::Bor(int_tag, float));
        Some(truth(g4, c))
    } else {
        None
    }
}

/// The comparison that chooses between two numbers.
pub open spec fn chosen(g: Gen, name: Seq<char>, a: usize, b: usize) -> (Gen, usize) {
    let (g1, r) = runtime_call(g, name, seq![a, b]);
    let (g2, c) = emit(g1, Step::EqualImm(r, true_word()));
    emit(g2, Step::Select(c, a, b))
}

/// Steps for `not`, given whether something is true.
pub open spec fn flipped(g: Gen, v: usize) -> (Gen, usize) {
    let (g1, t) = emit(g, Step::EqualImm(v, true_word()));
    let (g2, f) = emit(g1, Step::BxorImm(t, 1));
    truth(g2, f)
}

/// Raising a value.
pub open spec fn raised(g: Gen, name: Seq<char>, v: usize) -> (Gen, usize) {
    emit(runtime_raise(g, name, seq![v]), Step::Word(nil_word()))
}

/// The built-in functions that are more than a call, on one value.
pub open spec fn bif_one(func: Seq<char>, v: usize, g: Gen) -> (Gen, usize) {
    if func == "bnot"@ {
        let (g1, a) = untag(g, v);
        let (g2, r) = emit(g1, Step::Bnot(a));
        tag(g2, r)
    } else if func == "not"@ {
        flipped(g, v)
    } else if func == "abs"@ {
        let (g1, zero) = emit(g, Step::Word(int_word(0)));
        let (g2, less) = runtime_call(g1, "lux_rt_less_than"@, seq![v, zero]);
        let (g3, c) = emit(g2, Step::EqualImm(less, true_word()));
        let (g4, neg) = runtime_call(g3, "lux_rt_negate"@, seq![v]);
        emit(g4, Step::Select(c, neg, v))
    } else if func == "tuple_size"@ {
        let (g1, r) = runtime_call(g, "lux_rt_tuple_arity"@, seq![v]);
        tag(g1, r)
    } else if func == "iolist_to_binary"@ {
        (g, v)
    } else if func == "throw"@ {
        raised(g, "lux_rt_erlang_throw"@, v)
    } else if func == "error"@ || func == "exit"@ {
        raised(g, "lux_rt_erlang_error"@, v)
    } else {
        match kind_test(func, v, g) {
            Some(r) => r,
            None => emit(g, Step::Word(nil_word())),
        }
    }
}

/// The built-in functions that are more than a call, on two values.
pub open spec fn bif_two(func: Seq<char>, a: usize, b: usize, g: Gen) -> (Gen, usize) {
    if bit_operation(func, a, b) is Some {
        let (g1, x) = untag(g, a);
        let (g2, y) = untag(g1, b);
        let (g3, r) = emit(g2, bit_operation(func, x, y)->Some_0);
        tag(g3, r)
    } else if func == "=/="@ || func == "/="@ {
        let (g1, r) = runtime_call(g, "lux_rt_value_equal"@, seq![a, b]);
        flipped(g1, r)
    } else if func == "and"@ || func == "or"@ {
        let (g1, x) = emit(g, Step::EqualImm(a, true_word()));
        let (g2, y) = emit(g1, Step::EqualImm(b, true_word()));
        let (g3, r) = emit(
            g2,
            if func == "and"@ {
                Step::Band(x, y)
            } else {
                Step::Bor(x, y)
            },
        );
        truth(g3, r)
    } else if func == "max"@ {
        chosen(g, "lux_rt_greater_than"@, a, b)
    } else if func == "min"@ {
        chosen(g, "lux_rt_less_than"@, a, b)
    } else {
        let (g1, f) = runtime_func(g, "lux_rt_tuple_element"@, 2, 1);
        let (g2, i) = untag(g1, a);
        let (g3, one) = emit(g2, Step::Word(1));
        let (g4, z) = emit(g3, Step::Isub(i, one));
        call(g4, f, seq![b, z])
    }
}

/// A built-in function of `erlang` on values.
#[verifier::opaque]
pub open spec fn bif(func: Seq<char>, vals: Seq<usize>, g: Gen) -> (Gen, usize) {
    let need = bif_needs(func, vals.len());
    if vals.len() < need {
        stick(g)
    } else {
        match bif_runtime(func, vals.len()) {
            Some((name, k)) => runtime_call(g, name, vals.take(k as int)),
            None => if need == 2 {
                bif_two(func, vals[0], vals[1], g)
            } else if need == 1 {
                bif_one(func, vals[0], g)
            } else if func == "is_pid"@ || func == "is_reference"@ {
                emit(g, Step::Word(false_word()))
            } else if func == "send"@ && vals.len() >= 2 {
                (g, vals[1])
            } else if is_left_out(func) {
                emit(g, Step::Word(nil_word()))
            } else {
                emit(warned(g, Caution::Unsupported(func, vals.len())), Step::Word(nil_word()))
            },
        }
    }
}

/// Whether a built-in function is one that does nothing in native code.
pub open spec fn is_left_out(func: Seq<char>) -> bool {
    func == "send"@ || func == "self"@ || func == "spawn"@ || func == "spawn_link"@
}

/// The offset of a tuple's element.
pub open spec fn element_offset(i: int) -> i32 {
    ((i + 1) * 8) as i32
}

/// Whether a pattern needs no test.
pub open spec fn is_var(p: Pat) -> bool {
    p is Var
}

/// Whether `value` matches a pattern: a condition.
pub open spec fn pattern_test(p: Pat, value: usize, g: Gen) -> (Gen, usize)
    decreases p,
{
    match p {
        Pat::Var(_) => emit(g, Step::Byte(1)),
        Pat::Lit(Literal::Text(s)) => {
            let (g1, want) = string_lit(g, s);
            let (g2, r) = runtime_call(g1, "lux_rt_string_equal"@, seq![value, want]);
            emit(g2, Step::Reduce(r))
        },
        Pat::Lit(l) => {
            let (g1, w) = lit_word(g, l);
            let (g2, want) = emit(g1, Step::Word(w));
            emit(g2, Step::Equal(value, want))
        },
        Pat::Nil => emit(g, Step::EqualImm(value, nil_word())),
        Pat::Tuple(items) => {
            let (g1, tuple) = has_tag(g, value, 0);
            if items.len() == 0 {
                (g1, tuple)
            } else {
                let (g2, p) = safe_pointer(g1, value, tuple);
                let (g3, n) = emit(g2, Step::Load(p, 0));
                let (g4, want) = emit(g3, Step::Word(items.len() as i64));
                let (g5, c) = emit(g4, Step::Equal(n, want));
                let (g6, r) = emit(g5, Step::Band(tuple, c));
                pattern_tests(items, p, g6, r)
            }
        },
        Pat::Cons(h, t) => {
            let (g1, cons) = has_tag(g, value, 2);
            if is_var(*h) && is_var(*t) {
                (g1, cons)
            } else {
                let (g2, p) = safe_pointer(g1, value, cons);
                let (g3, r) = if is_var(*h) {
                    (g2, cons)
                } else {
                    let (a, x) = emit(g2, Step::Load(p, 0));
                    let (b, y) = pattern_test(*h, x, a);
                    emit(b, Step::Band(cons, y))
                };
                if is_var(*t) {
                    (g3, r)
                } else {
                    let (a, x) = emit(g3, Step::Load(p, 8));
                    let (b, y) = pattern_test(*t, x, a);
                    emit(b, Step::Band(r, y))
                }
            }
        },
        Pat::Alias(_, inner) => pattern_test(*inner, value, g),
        Pat::Binary(_) => emit(g, Step::Byte(0)),
    }
}

/// Tests the elements of a tuple one after the other.
pub open spec fn pattern_tests(s: Seq<Pat>, p: usize, g: Gen, r: usize) -> (Gen, usize)
    decreases s,
{
    if s.len() == 0 {
        (g, r)
    } else {
        let (g1, r1) = pattern_tests(s.drop_last(), p, g, r);
        if is_var(s.last()) {
            (g1, r1)
        } else {
            let (g2, x) = emit(g1, Step::Load(p, element_offset(s.len() - 1)));
            let (g3, y) = pattern_test(s.last(), x, g2);
            emit(g3, Step::Band(r1, y))
        }
    }
}

/// A new variable with a value.
#[verifier::opaque]
pub open spec fn bound_var(g: Gen, vars: Vars, name: Seq<char>, value: usize) -> (Gen, Vars) {
    let (g1, v) = emit(g, Step::DeclareVar);
    (emit(g1, Step::DefVar(v, value)).0, vars.push((name, v)))
}

/// A word behind a tagged pointer.
#[verifier::opaque]
pub open spec fn loaded(g: Gen, value: usize, offset: i32) -> (Gen, usize) {
    let (g1, p) = emit(g, Step::BandImm(value, pointer_mask()));
    emit(g1, Step::Load(p, offset))
}

/// Binds the variables of a pattern that `value` has matched.
pub open spec fn pattern_binds(p: Pat, value: usize, g: Gen, vars: Vars) -> (Gen, Vars)
    decreases p,
{
    match p {
        Pat::Var(name) => if name == "_"@ {
            (g, vars)
        } else {
            bound_var(g, vars, name, value)
        },
        Pat::Lit(_) => (g, vars),
        Pat::Nil => (g, vars),
        Pat::Binary(_) => (g, vars),
        Pat::Tuple(items) => patterns_bind(items, value, g, vars),
        Pat::Cons(h, t) => {
            let (g1, x) = loaded(g, value, 0);
            let (g2, y) = loaded(g1, value, 8);
            let (g3, vars1) = pattern_binds(*h, x, g2, vars);
            pattern_binds(*t, y, g3, vars1)
        },
        Pat::Alias(name, inner) => {
            let (g1, vars1) = bound_var(g, vars, name, value);
            pattern_binds(*inner, value, g1, vars1)
        },
    }
}

pub open spec fn patterns_bind(s: Seq<Pat>, value: usize, g: Gen, vars: Vars) -> (Gen, Vars)
    decreases s,
{
    if s.len() == 0 {
        (g, vars)
    } else {
        let (g1, vars1) = patterns_bind(s.drop_last(), value, g, vars);
        let (g2, x) = loaded(g1, value, element_offset(s.len() - 1));
        pattern_binds(s.last(), x, g2, vars1)
    }
}

/// The names that a pattern binds, behind others.
pub open spec fn pattern_names(p: Pat, names: Seq<Seq<char>>) -> Seq<Seq<char>>
    decreases p,
{
    match p {
        Pat::Var(name) => names.push(name),
        Pat::Tuple(items) => patterns_names(items, names),
        Pat::Cons(h, t) => pattern_names(*t, pattern_names(*h, names)),
        Pat::Alias(name, inner) => pattern_names(*inner, names.push(name)),
        Pat::Binary(segments) => pattern_segments_names(segments, names),
        Pat::Lit(_) => names,
        Pat::Nil => names,
    }
}

pub open spec fn patterns_names(s: Seq<Pat>, names: Seq<Seq<char>>) -> Seq<Seq<char>>
    decreases s,
{
    if s.len() == 0 {
        names
    } else {
        pattern_names(s.last(), patterns_names(s.drop_last(), names))
    }
}

pub open spec fn pattern_segments_names(s: Seq<PatSegment>, names: Seq<Seq<char>>) -> Seq<Seq<char>>
    decreases s,
{
    if s.len() == 0 {
        names
    } else {
        pattern_names(s.last().pattern, pattern_segments_names(s.drop_last(), names))
    }
}

/// The free variables of an expression, each once, behind those found before.
/// Names that begin with an underscore are left out.
pub open spec fn free(e: Core, bound: Seq<Seq<char>>, found: Seq<Seq<char>>) -> Seq<Seq<char>>
    decreases e,
{
    match e {
        Core::Var(name) => if bound.contains(name) || (name.len() > 0 && name[0] == '_') {
            found
        } else {
            with_new(found, name)
        },
        Core::Lit(_) => found,
        Core::LocalFunRef(_, _) => found,
        Core::RemoteFunRef(_, _, _) => found,
        Core::Tuple(items) => free_all(items, bound, found),
        Core::List(items, tail) => free(*tail, bound, free_all(items, bound, found)),
        Core::Cons(h, t) => free(*t, bound, free(*h, bound, found)),
        Core::MapLit(entries) => free_entries(entries, bound, found),
        Core::Binary(segments) => free_segments(segments, bound, found),
        Core::Apply(f, args) => free_all(args, bound, free(*f, bound, found)),
        Core::Call(_, _, args) => free_all(args, bound, found),
        Core::Let(bindings, body) => {
            let (inner, found1) = free_bindings(bindings, bound, found);
            free(*body, inner, found1)
        },
        Core::Case(scrutinee, clauses) => free_clauses(
            clauses,
            bound,
            free(*scrutinee, bound, found),
        ),
        Core::Fun(params, body) => free(*body, bound + params, found),
        Core::Sequence(a, b) => free(*b, bound, free(*a, bound, found)),
        Core::Primop(_, args) => free_all(args, bound, found),
        Core::Try(body, vars, handler, evars, catch) => free(
            *catch,
            bound + evars,
            free(*handler, bound + vars, free(*body, bound, found)),
        ),
        Core::Receive(clauses, timeout) => {
            let found1 = free_clauses(clauses, bound, found);
            match timeout {
                Some((ms, body)) => free(*body, bound, free(*ms, bound, found1)),
                None => found1,
            }
        },
    }
}

pub open spec fn free_all(s: Seq<Core>, bound: Seq<Seq<char>>, found: Seq<Seq<char>>) -> Seq<
    Seq<char>,
>
    decreases s,
{
    if s.len() == 0 {
        found
    } else {
        free(s.last(), bound, free_all(s.drop_last(), bound, found))
    }
}

pub open spec fn free_entries(
    s: Seq<(Core, Core)>,
    bound: Seq<Seq<char>>,
    found: Seq<Seq<char>>,
) -> Seq<Seq<char>>
    decreases s,
{
    if s.len() == 0 {
        found
    } else {
        free(s.last().1, bound, free(s.last().0, bound, free_entries(s.drop_last(), bound, found)))
    }
}

pub open spec fn free_segments(
    s: Seq<Segment>,
    bound: Seq<Seq<char>>,
    found: Seq<Seq<char>>,
) -> Seq<Seq<char>>
    decreases s,
{
    if s.len() == 0 {
        found
    } else {
        free(s.last().value, bound, free_segments(s.drop_last(), bound, found))
    }
}

/// The names that are bound behind the bindings, and the free variables.
pub open spec fn free_bindings(
    s: Seq<(Seq<char>, Core)>,
    bound: Seq<Seq<char>>,
    found: Seq<Seq<char>>,
) -> (Seq<Seq<char>>, Seq<Seq<char>>)
    decreases s,
{
    if s.len() == 0 {
        (bound, found)
    } else {
        let (inner, found1) = free_bindings(s.drop_last(), bound, found);
        (inner.push(s.last().0), free(s.last().1, inner, found1))
    }
}

pub open spec fn free_clause(c: Clause, bound: Seq<Seq<char>>, found: Seq<Seq<char>>) -> Seq<
    Seq<char>,
>
    decreases c,
{
    let inner = patterns_names(c.patterns, bound);
    free(c.body, inner, free(c.guard, inner, found))
}

pub open spec fn free_clauses(
    s: Seq<Clause>,
    bound: Seq<Seq<char>>,
    found: Seq<Seq<char>>,
) -> Seq<Seq<char>>
    decreases s,
{
    if s.len() == 0 {
        found
    } else {
        free_clause(s.last(), bound, free_clauses(s.drop_last(), bound, found))
    }
}

/// The atoms of an expression, added to a table.
pub open spec fn scanned(e: Core, atoms: Seq<Seq<char>>) -> Seq<Seq<char>>
    decreases e,
{
    match e {
        Core::Lit(Literal::Atom(name)) => with_new(atoms, name),
        Core::Lit(_) => atoms,
        Core::Var(_) => atoms,
        Core::LocalFunRef(_, _) => atoms,
        Core::RemoteFunRef(_, _, _) => atoms,
        Core::Tuple(items) => scanned_all(items, atoms),
        Core::List(items, tail) => scanned(*tail, scanned_all(items, atoms)),
        Core::Cons(h, t) => scanned(*t, scanned(*h, atoms)),
        Core::MapLit(entries) => scanned_entries(entries, atoms),
        Core::Binary(segments) => scanned_segments(segments, atoms),
        Core::Apply(f, args) => scanned_all(args, scanned(*f, atoms)),
        Core::Call(_, _, args) => scanned_all(args, atoms),
        Core::Let(bindings, body) => scanned(*body, scanned_bindings(bindings, atoms)),
        Core::Case(scrutinee, clauses) => scanned_clauses(clauses, scanned(*scrutinee, atoms)),
        Core::Receive(clauses, timeout) => {
            let atoms1 = scanned_clauses(clauses, atoms);
            match timeout {
                Some((ms, body)) => scanned(*body, scanned(*ms, atoms1)),
                None => atoms1,
            }
        },
        Core::Fun(_, body) => scanned(*body, atoms),
        Core::Primop(_, args) => scanned_all(args, atoms),
        Core::Sequence(a, b) => scanned(*b, scanned(*a, atoms)),
        Core::Try(body, _, handler, _, catch) => scanned(
            *catch,
            scanned(*handler, scanned(*body, atoms)),
        ),
    }
}

pub open spec fn scanned_all(s: Seq<Core>, atoms: Seq<Seq<char>>) -> Seq<Seq<char>>
    decreases s,
{
    if s.len() == 0 {
        atoms
    } else {
        scanned(s.last(), scanned_all(s.drop_last(), atoms))
    }
}

pub open spec fn scanned_entries(s: Seq<(Core, Core)>, atoms: Seq<Seq<char>>) -> Seq<Seq<char>>
    decreases s,
{
    if s.len() == 0 {
        atoms
    } else {
        scanned(s.last().1, scanned(s.last().0, scanned_entries(s.drop_last(), atoms)))
    }
}

pub open spec fn scanned_segments(s: Seq<Segment>, atoms: Seq<Seq<char>>) -> Seq<Seq<char>>
    decreases s,
{
    if s.len() == 0 {
        atoms
    } else {
        scanned(s.last().value, scanned_segments(s.drop_last(), atoms))
    }
}

pub open spec fn scanned_bindings(s: Seq<(Seq<char>, Core)>, atoms: Seq<Seq<char>>) -> Seq<
    Seq<char>,
>
    decreases s,
{
    if s.len() == 0 {
        atoms
    } else {
        scanned(s.last().1, scanned_bindings(s.drop_last(), atoms))
    }
}

pub open spec fn scanned_clause(c: Clause, atoms: Seq<Seq<char>>) -> Seq<Seq<char>>
    decreases c,
{
    scanned(c.body, scanned(c.guard, scanned_patterns(c.patterns, atoms)))
}

pub open spec fn scanned_clauses(s: Seq<Clause>, atoms: Seq<Seq<char>>) -> Seq<Seq<char>>
    decreases s,
{
    if s.len() == 0 {
        atoms
    } else {
        scanned_clause(s.last(), scanned_clauses(s.drop_last(), atoms))
    }
}

pub open spec fn scanned_pattern(p: Pat, atoms: Seq<Seq<char>>) -> Seq<Seq<char>>
    decreases p,
{
    match p {
        Pat::Lit(Literal::Atom(name)) => with_new(atoms, name),
        Pat::Lit(_) => atoms,
        Pat::Var(_) => atoms,
        Pat::Nil => atoms,
        Pat::Tuple(items) => scanned_patterns(items, atoms),
        Pat::Cons(h, t) => scanned_pattern(*t, scanned_pattern(*h, atoms)),
        Pat::Alias(_, inner) => scanned_pattern(*inner, atoms),
        Pat::Binary(segments) => scanned_pattern_segments(segments, atoms),
    }
}

pub open spec fn scanned_patterns(s: Seq<Pat>, atoms: Seq<Seq<char>>) -> Seq<Seq<char>>
    decreases s,
{
    if s.len() == 0 {
        atoms
    } else {
        scanned_pattern(s.last(), scanned_patterns(s.drop_last(), atoms))
    }
}

pub open spec fn scanned_pattern_segments(s: Seq<PatSegment>, atoms: Seq<Seq<char>>) -> Seq<
    Seq<char>,
>
    decreases s,
{
    if s.len() == 0 {
        atoms
    } else {
        scanned_pattern(s.last().pattern, scanned_pattern_segments(s.drop_last(), atoms))
    }
}

} // verus!
