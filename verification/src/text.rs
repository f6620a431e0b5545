//! Text helpers shared by the code generators: decimal numbers, joining,
//! comparison and character maps, each stated over sequences of characters.
use vstd::prelude::*;
use vstd::utf8::*;

verus! {

/// `String::push` appends the given character to the string.
pub assume_specification[ std::string::String::push ](s: &mut std::string::String, c: char)
    ensures
        final(s)@ == old(s)@.push(c),
;

/// The decimal digit that stands for `d`.
pub open spec fn digit(d: nat) -> char {
    if d == 0 {
        '0'
    } else if d == 1 {
        '1'
    } else if d == 2 {
        '2'
    } else if d == 3 {
        '3'
    } else if d == 4 {
        '4'
    } else if d == 5 {
        '5'
    } else if d == 6 {
        '6'
    } else if d == 7 {
        '7'
    } else if d == 8 {
        '8'
    } else {
        '9'
    }
}

/// The decimal text of a natural number, without leading zeros.
pub open spec fn decimal(n: nat) -> Seq<char>
    decreases n,
{
    if n < 10 {
        seq![digit(n)]
    } else {
        decimal(n / 10).push(digit(n % 10))
    }
}

/// The decimal text of an integer, with a leading minus sign if it is negative.
pub open spec fn decimal_int(n: int) -> Seq<char> {
    if n < 0 {
        seq!['-'] + decimal((-n) as nat)
    } else {
        decimal(n as nat)
    }
}

/// The character of one decimal digit.
pub fn digit_char(d: u64) -> (c: char)
    requires
        d < 10,
    ensures
        c == digit(d as nat),
{
    if d == 0 {
        '0'
    } else if d == 1 {
        '1'
    } else if d == 2 {
        '2'
    } else if d == 3 {
        '3'
    } else if d == 4 {
        '4'
    } else if d == 5 {
        '5'
    } else if d == 6 {
        '6'
    } else if d == 7 {
        '7'
    } else if d == 8 {
        '8'
    } else {
        '9'
    }
}

/// Appends the decimal text of `n`.
pub fn push_u64(out: &mut String, n: u64)
    ensures
        final(out)@ == old(out)@ + decimal(n as nat),
    decreases n,
{
    if n < 10 {
        out.push(digit_char(n));
        assert(decimal(n as nat) =~= seq![digit(n as nat)]);
    } else {
        push_u64(out, n / 10);
        out.push(digit_char(n % 10));
        assert(out@ =~= old(out)@ + decimal(n as nat));
    }
}

/// Appends the decimal text of `n`.
pub fn push_usize(out: &mut String, n: usize)
    ensures
        final(out)@ == old(out)@ + decimal(n as nat),
{
    push_u64(out, n as u64);
}

/// Appends the decimal text of `n`.
pub fn push_i64(out: &mut String, n: i64)
    ensures
        final(out)@ == old(out)@ + decimal_int(n as int),
{
    if n < 0 {
        out.push('-');
        if n == i64::MIN {
            push_u64(out, 9223372036854775808u64);
        } else {
            push_u64(out, (-n) as u64);
        }
        assert(out@ =~= old(out)@ + decimal_int(n as int));
    } else {
        push_u64(out, n as u64);
    }
}

/// The decimal text of `n`.
pub fn usize_text(n: usize) -> (r: String)
    ensures
        r@ == decimal(n as nat),
{
    let mut out = String::new();
    push_usize(&mut out, n);
    assert(out@ =~= decimal(n as nat));
    out
}

/// The characters of `s` in order.
pub fn chars_of(s: &str) -> (v: Vec<char>)
    ensures
        v@ == s@,
{
    let mut v: Vec<char> = Vec::new();
    for c in it: s.chars()
        invariant
            it.seq() == s@,
            v@ == s@.take(it.index() as int),
    {
        v.push(c);
        assert(v@ =~= s@.take(it.index() as int + 1));
    }
    assert(s@.take(s@.len() as int) =~= s@);
    v
}

/// Whether two texts hold the same characters.
pub fn same(a: &str, b: &str) -> (r: bool)
    ensures
        r == (a@ == b@),
{
    let x = a.as_bytes();
    let y = b.as_bytes();
    proof {
        encode_utf8_decode_utf8(a@);
        encode_utf8_decode_utf8(b@);
    }
    if x.len() != y.len() {
        return false;
    }
    let mut i: usize = 0;
    while i < x.len()
        invariant
            i <= x@.len(),
            x@.len() == y@.len(),
            x@ == encode_utf8(a@),
            y@ == encode_utf8(b@),
            forall|j: int| 0 <= j < i ==> x@[j] == y@[j],
        decreases x@.len() - i,
    {
        if x[i] != y[i] {
            return false;
        }
        i = i + 1;
    }
    assert(x@ =~= y@);
    true
}

/// The strings' characters, one sequence per string.
pub open spec fn texts(v: Seq<String>) -> Seq<Seq<char>> {
    Seq::new(v.len(), |i: int| v[i]@)
}

/// The parts with `sep` between neighbours.
pub open spec fn joined(parts: Seq<Seq<char>>, sep: Seq<char>) -> Seq<char>
    decreases parts.len(),
{
    if parts.len() == 0 {
        Seq::empty()
    } else if parts.len() == 1 {
        parts[0]
    } else {
        joined(parts.drop_last(), sep) + sep + parts.last()
    }
}

/// The parts with `sep` between neighbours.
pub fn join(parts: &Vec<String>, sep: &str) -> (r: String)
    ensures
        r@ == joined(texts(parts@), sep@),
{
    let mut out = String::new();
    let mut i: usize = 0;
    assert(texts(parts@).take(0) =~= Seq::empty());
    while i < parts.len()
        invariant
            i <= parts@.len(),
            out@ == joined(texts(parts@).take(i as int), sep@),
        decreases parts@.len() - i,
    {
        let ghost all = texts(parts@);
        assert(all.take(i as int + 1).drop_last() =~= all.take(i as int));
        assert(all.take(i as int + 1).last() == parts@[i as int]@);
        if i > 0 {
            out.append(sep);
        } else {
            assert(all.take(0) =~= Seq::empty());
        }
        out.append(parts[i].as_str());
        if i == 0 {
            assert(out@ =~= parts@[0]@);
        }
        i = i + 1;
    }
    assert(texts(parts@).take(i as int) =~= texts(parts@));
    out
}

/// Copies of the strings.
pub fn dup_strings(v: &Vec<String>) -> (r: Vec<String>)
    ensures
        texts(r@) == texts(v@),
        r@.len() == v@.len(),
        forall|i: int| 0 <= i < v@.len() ==> r@[i]@ == v@[i]@,
{
    let mut out: Vec<String> = Vec::new();
    let mut i: usize = 0;
    while i < v.len()
        invariant
            i <= v@.len(),
            out@.len() == i,
            forall|j: int| 0 <= j < i ==> out@[j]@ == v@[j]@,
        decreases v@.len() - i,
    {
        out.push(v[i].clone());
        i = i + 1;
    }
    assert(texts(out@) =~= texts(v@));
    out
}

/// The first place at which `v` holds the text `s`.
pub fn position(v: &Vec<String>, s: &str) -> (r: Option<usize>)
    ensures
        r matches Some(i) ==> i < v@.len() && v@[i as int]@ == s@ && (forall|j: int|
            0 <= j < i ==> v@[j]@ != s@),
        r is None ==> !texts(v@).contains(s@),
        r is Some ==> texts(v@).contains(s@),
{
    let mut i: usize = 0;
    while i < v.len()
        invariant
            i <= v@.len(),
            forall|j: int| 0 <= j < i ==> v@[j]@ != s@,
        decreases v@.len() - i,
    {
        if same(v[i].as_str(), s) {
            assert(texts(v@)[i as int] == s@);
            return Some(i);
        }
        i = i + 1;
    }
    None
}

/// Whether `v` holds the text `s`.
pub fn holds(v: &Vec<String>, s: &str) -> (r: bool)
    ensures
        r == texts(v@).contains(s@),
{
    position(v, s).is_some()
}

/// The list with `s` at its end, unless it is in it already.
pub open spec fn with_new(v: Seq<Seq<char>>, s: Seq<char>) -> Seq<Seq<char>> {
    if v.contains(s) {
        v
    } else {
        v.push(s)
    }
}

/// Adds a text that is not there yet.
pub fn add_new(v: &mut Vec<String>, s: &str)
    ensures
        texts(final(v)@) == with_new(texts(old(v)@), s@),
{
    if !holds(v, s) {
        v.push(s.to_owned());
        assert(texts(v@) =~= texts(old(v)@).push(s@));
    }
}

/// A counter without an upper bound: its decimal digits, the lowest first.
pub struct Counter {
    digits: Vec<u8>,
}

/// The number that decimal digits stand for, the lowest first.
pub open spec fn digits_value(d: Seq<u8>) -> nat
    decreases d.len(),
{
    if d.len() == 0 {
        0
    } else {
        d[0] as nat + 10 * digits_value(d.drop_first())
    }
}

proof fn lemma_digits_text(d: Seq<u8>)
    requires
        d.len() > 0,
        forall|i: int| 0 <= i < d.len() ==> d[i] < 10,
        d.len() > 1 ==> d.last() != 0,
    ensures
        decimal(digits_value(d)) == (if d.len() == 1 {
            seq![digit(d[0] as nat)]
        } else {
            decimal(digits_value(d.drop_first())).push(digit(d[0] as nat))
        }),
        d.len() > 1 ==> digits_value(d) >= 10,
    decreases d.len(),
{
    if d.len() == 1 {
        assert(digits_value(d.drop_first()) == 0);
    } else {
        let rest = d.drop_first();
        assert(rest.last() == d.last());
        if rest.len() > 1 {
            lemma_digits_text(rest);
        } else {
            assert(digits_value(rest.drop_first()) == 0);
            assert(digits_value(rest) == rest[0] as nat);
        }
        assert(digits_value(rest) >= 1);
        let n = digits_value(d);
        assert(n == d[0] as nat + 10 * digits_value(rest));
        assert(n / 10 == digits_value(rest));
        assert(n % 10 == d[0] as nat);
    }
}

impl Counter {
    #[verifier::type_invariant]
    spec fn well_formed(self) -> bool {
        &&& self.digits@.len() > 0
        &&& forall|i: int| 0 <= i < self.digits@.len() ==> self.digits@[i] < 10
        &&& self.digits@.len() > 1 ==> self.digits@.last() != 0
    }

    /// The counter's value.
    pub closed spec fn value(self) -> nat {
        digits_value(self.digits@)
    }

    /// A counter at zero.
    pub fn new() -> (r: Self)
        ensures
            r.value() == 0,
    {
        let mut digits: Vec<u8> = Vec::new();
        digits.push(0);
        assert(digits_value(digits@.drop_first()) == 0);
        Counter { digits }
    }

    /// A counter at the same value.
    pub fn dup(&self) -> (r: Self)
        ensures
            r.value() == self.value(),
    {
        proof {
            use_type_invariant(&*self);
        }
        let mut digits: Vec<u8> = Vec::new();
        let mut i: usize = 0;
        while i < self.digits.len()
            invariant
                i <= self.digits@.len(),
                digits@ == self.digits@.take(i as int),
            decreases self.digits@.len() - i,
        {
            digits.push(self.digits[i]);
            assert(digits@ =~= self.digits@.take(i as int + 1));
            i = i + 1;
        }
        assert(digits@ =~= self.digits@);
        Counter { digits }
    }

    /// The counter after this one.
    pub fn next(&self) -> (r: Self)
        ensures
            r.value() == self.value() + 1,
    {
        proof {
            use_type_invariant(&*self);
        }
        let mut digits: Vec<u8> = Vec::new();
        let mut i: usize = 0;
        let mut carry: bool = true;
        while i < self.digits.len()
            invariant
                i <= self.digits@.len(),
                forall|j: int| 0 <= j < self.digits@.len() ==> self.digits@[j] < 10,
                self.digits@.len() > 1 ==> self.digits@.last() != 0,
                digits@.len() == i,
                forall|j: int| 0 <= j < digits@.len() ==> digits@[j] < 10,
                i == self.digits@.len() && i > 1 && !carry ==> digits@.last() != 0,
                forall|tail: Seq<u8>, more: Seq<u8>|
                    #![trigger digits_value(digits@ + tail), digits_value(self.digits@.take(i as int) + more)]
                    digits_value(tail) == digits_value(more) + (if carry {
                        1nat
                    } else {
                        0nat
                    }) ==> digits_value(digits@ + tail) == digits_value(
                        self.digits@.take(i as int) + more,
                    ) + 1,
            decreases self.digits@.len() - i,
        {
            let d = self.digits[i];
            let ghost before = digits@;
            let ghost carried = carry;
            if carry {
                if d == 9 {
                    digits.push(0);
                } else {
                    digits.push(d + 1);
                    carry = false;
                }
            } else {
                digits.push(d);
            }
            proof {
                assert forall|tail: Seq<u8>, more: Seq<u8>|
                    #![trigger digits_value(digits@ + tail), digits_value(self.digits@.take(i as int + 1) + more)]
                    digits_value(tail) == digits_value(more) + (if carry {
                        1nat
                    } else {
                        0nat
                    }) implies digits_value(digits@ + tail) == digits_value(
                    self.digits@.take(i as int + 1) + more,
                ) + 1 by {
                    let t2 = seq![digits@.last()] + tail;
                    let m2 = seq![d] + more;
                    assert(t2.drop_first() =~= tail);
                    assert(m2.drop_first() =~= more);
                    assert(digits@ + tail =~= before + t2);
                    assert(self.digits@.take(i as int + 1) + more =~= self.digits@.take(i as int) + m2);
                    assert(digits_value(t2) == digits_value(m2) + (if carried {
                        1nat
                    } else {
                        0nat
                    }));
                }
            }
            i = i + 1;
        }
        let ghost before = digits@;
        if carry {
            digits.push(1);
        }
        proof {
            let tail = if carry {
                seq![1u8]
            } else {
                Seq::<u8>::empty()
            };
            let more = Seq::<u8>::empty();
            assert(digits_value(seq![1u8].drop_first()) == 0);
            assert(digits_value(tail) == digits_value(more) + (if carry {
                1nat
            } else {
                0nat
            }));
            assert(before + tail =~= digits@);
            assert(self.digits@.take(i as int) + more =~= self.digits@);
            assert(digits_value(before + tail) == digits_value(self.digits@.take(i as int) + more)
                + 1);
        }
        Counter { digits }
    }

    /// The counter's value in decimal.
    pub fn text(&self) -> (r: String)
        ensures
            r@ == decimal(self.value()),
    {
        proof {
            use_type_invariant(&*self);
        }
        let mut out = String::new();
        let n = self.digits.len();
        let mut i: usize = n - 1;
        let ghost all = self.digits@;
        proof {
            assert(all.skip(n - 1) =~= seq![all.last()]);
            lemma_digits_text(all.skip(n - 1));
        }
        out.push(digit_char(self.digits[i] as u64));
        assert(out@ =~= seq![digit(all[n - 1] as nat)]);
        while i > 0
            invariant
                n == all.len(),
                all == self.digits@,
                i < n,
                forall|j: int| 0 <= j < all.len() ==> all[j] < 10,
                all.len() > 1 ==> all.last() != 0,
                out@ == decimal(digits_value(all.skip(i as int))),
            decreases i,
        {
            i = i - 1;
            proof {
                assert(all.skip(i as int).drop_first() =~= all.skip(i as int + 1));
                lemma_digits_text(all.skip(i as int));
            }
            out.push(digit_char(self.digits[i] as u64));
        }
        assert(all.skip(0) =~= all);
        out
    }
}

} // verus!
