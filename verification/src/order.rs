//! The order of texts, and sorting by it.
use vstd::prelude::*;
use crate::text::{chars_of, texts};

verus! {

/// Lexicographic order by code points, which is also the order of the texts'
/// UTF-8 bytes.
pub open spec fn text_less(a: Seq<char>, b: Seq<char>) -> bool
    decreases a.len(),
{
    if b.len() == 0 {
        false
    } else if a.len() == 0 {
        true
    } else if a[0] != b[0] {
        a[0] < b[0]
    } else {
        text_less(a.drop_first(), b.drop_first())
    }
}

/// A row of texts, by which something is ordered.
pub type Row = Seq<Seq<char>>;

/// Lexicographic order of rows.
pub open spec fn row_less(a: Row, b: Row) -> bool
    decreases a.len(),
{
    if b.len() == 0 {
        false
    } else if a.len() == 0 {
        true
    } else if a[0] != b[0] {
        text_less(a[0], b[0])
    } else {
        row_less(a.drop_first(), b.drop_first())
    }
}

/// The rows with one more put in behind those that are not greater.
pub open spec fn inserted(s: Seq<Row>, x: Row) -> Seq<Row>
    decreases s.len(),
{
    if s.len() == 0 {
        seq![x]
    } else if row_less(x, s.last()) {
        inserted(s.drop_last(), x).push(s.last())
    } else {
        s.push(x)
    }
}

/// The rows in ascending order.
pub open spec fn sorted_rows(s: Seq<Row>) -> Seq<Row>
    decreases s.len(),
{
    if s.len() == 0 {
        Seq::empty()
    } else {
        inserted(sorted_rows(s.drop_last()), s.last())
    }
}

/// The models of rows of strings.
pub open spec fn rows_of(v: Seq<Vec<String>>) -> Seq<Row> {
    Seq::new(v.len(), |i: int| texts(v[i]@))
}

/// No text comes before itself.
pub proof fn text_irreflexive(a: Seq<char>)
    ensures
        !text_less(a, a),
    decreases a.len(),
{
    if a.len() > 0 {
        text_irreflexive(a.drop_first());
    }
}

/// The order of texts is transitive.
pub proof fn text_transitive(a: Seq<char>, b: Seq<char>, c: Seq<char>)
    requires
        text_less(a, b),
        text_less(b, c),
    ensures
        text_less(a, c),
    decreases a.len(),
{
    if a.len() > 0 {
        if a[0] == b[0] && b[0] == c[0] {
            text_transitive(a.drop_first(), b.drop_first(), c.drop_first());
        }
    }
}

/// Of two different texts one comes first.
pub proof fn text_total(a: Seq<char>, b: Seq<char>)
    ensures
        a == b || text_less(a, b) || text_less(b, a),
    decreases a.len(),
{
    if a.len() > 0 && b.len() > 0 {
        if a[0] == b[0] {
            text_total(a.drop_first(), b.drop_first());
            if a.drop_first() == b.drop_first() {
                assert(a =~= seq![a[0]] + a.drop_first());
                assert(b =~= seq![b[0]] + b.drop_first());
            }
        }
    } else if a.len() == 0 && b.len() == 0 {
        assert(a =~= b);
    }
}

/// The order of rows is irreflexive.
pub proof fn row_irreflexive(a: Row)
    ensures
        !row_less(a, a),
    decreases a.len(),
{
    if a.len() > 0 {
        row_irreflexive(a.drop_first());
    }
}

/// The order of rows is transitive.
pub proof fn row_transitive(a: Row, b: Row, c: Row)
    requires
        row_less(a, b),
        row_less(b, c),
    ensures
        row_less(a, c),
    decreases a.len(),
{
    if a.len() > 0 {
        if a[0] == b[0] && b[0] == c[0] {
            row_transitive(a.drop_first(), b.drop_first(), c.drop_first());
        } else if a[0] != b[0] && b[0] != c[0] {
            text_transitive(a[0], b[0], c[0]);
            if a[0] == c[0] {
                text_irreflexive(a[0]);
            }
        }
    }
}

/// Of two different rows one comes first.
pub proof fn row_total(a: Row, b: Row)
    ensures
        a == b || row_less(a, b) || row_less(b, a),
    decreases a.len(),
{
    if a.len() > 0 && b.len() > 0 {
        if a[0] == b[0] {
            row_total(a.drop_first(), b.drop_first());
            if a.drop_first() == b.drop_first() {
                assert(a =~= seq![a[0]] + a.drop_first());
                assert(b =~= seq![b[0]] + b.drop_first());
            }
        } else {
            text_total(a[0], b[0]);
        }
    } else if a.len() == 0 && b.len() == 0 {
        assert(a =~= b);
    }
}

/// Whether no row stands behind a greater one.
pub open spec fn ascending(s: Seq<Row>) -> bool {
    forall|i: int, j: int| 0 <= i < j < s.len() ==> !row_less(#[trigger] s[j], #[trigger] s[i])
}

proof fn inserted_keeps(s: Seq<Row>, x: Row)
    requires
        ascending(s),
    ensures
        ascending(inserted(s, x)),
        inserted(s, x).to_multiset() == s.to_multiset().insert(x),
        inserted(s, x).len() == s.len() + 1,
    decreases s.len(),
{
    broadcast use vstd::seq_lib::group_to_multiset_ensures;

    if s.len() == 0 {
        assert(s.push(x) =~= seq![x]);
    } else if row_less(x, s.last()) {
        let front = s.drop_last();
        assert(ascending(front)) by {
            assert forall|i: int, j: int| 0 <= i < j < front.len() implies !row_less(
                #[trigger] front[j],
                #[trigger] front[i],
            ) by {
                assert(front[j] == s[j] && front[i] == s[i]);
            }
        }
        inserted_keeps(front, x);
        let r = inserted(front, x);
        let out = r.push(s.last());
        assert(s =~= front.push(s.last()));
        assert forall|i: int, j: int| 0 <= i < j < out.len() implies !row_less(
            #[trigger] out[j],
            #[trigger] out[i],
        ) by {
            if j == out.len() - 1 {
                assert(r.to_multiset().count(r[i]) > 0) by {
                    assert(r.contains(r[i]));
                }
                if r[i] == x {
                    if row_less(s.last(), x) {
                        row_transitive(x, s.last(), x);
                        row_irreflexive(x);
                    }
                } else {
                    assert(front.to_multiset().count(r[i]) > 0);
                    assert(front.contains(r[i]));
                    let k = choose|k: int| 0 <= k < front.len() && front[k] == r[i];
                    assert(s[k] == r[i]);
                    assert(!row_less(s[s.len() - 1], s[k]));
                }
            }
        }
        assert(out.to_multiset() =~= s.to_multiset().insert(x));
    } else {
        let out = s.push(x);
        assert forall|i: int, j: int| 0 <= i < j < out.len() implies !row_less(
            #[trigger] out[j],
            #[trigger] out[i],
        ) by {
            if j == out.len() - 1 {
                if row_less(x, s[i]) {
                    if i < s.len() - 1 {
                        row_total(s[i], s.last());
                        assert(!row_less(s[s.len() - 1], s[i]));
                        if s[i] != s.last() {
                            row_transitive(x, s[i], s.last());
                        }
                    }
                }
            } else {
                assert(out[i] == s[i] && out[j] == s[j]);
            }
        }
    }
}

/// Sorting orders the rows and neither adds nor drops any.
pub proof fn sorting_orders(s: Seq<Row>)
    ensures
        ascending(sorted_rows(s)),
        sorted_rows(s).to_multiset() == s.to_multiset(),
        sorted_rows(s).len() == s.len(),
    decreases s.len(),
{
    broadcast use vstd::seq_lib::group_to_multiset_ensures;

    if s.len() > 0 {
        sorting_orders(s.drop_last());
        inserted_keeps(sorted_rows(s.drop_last()), s.last());
        assert(s =~= s.drop_last().push(s.last()));
        assert(sorted_rows(s).to_multiset() =~= s.to_multiset());
    } else {
        assert(sorted_rows(s) =~= s);
    }
}

/// Whether `a` comes before `b`.
pub fn comes_before(a: &str, b: &str) -> (r: bool)
    ensures
        r == text_less(a@, b@),
{
    let x = chars_of(a);
    let y = chars_of(b);
    let mut i: usize = 0;
    assert(x@.skip(0) =~= x@);
    assert(y@.skip(0) =~= y@);
    while i < x.len() && i < y.len() && x[i] == y[i]
        invariant
            i <= x@.len(),
            i <= y@.len(),
            x@ == a@,
            y@ == b@,
            text_less(a@, b@) == text_less(x@.skip(i as int), y@.skip(i as int)),
        decreases x@.len() - i,
    {
        assert(x@.skip(i as int).drop_first() =~= x@.skip(i as int + 1));
        assert(y@.skip(i as int).drop_first() =~= y@.skip(i as int + 1));
        i = i + 1;
    }
    if i >= y.len() {
        false
    } else if i >= x.len() {
        true
    } else {
        x[i] < y[i]
    }
}

/// Whether row `a` comes before row `b`.
pub fn row_before(a: &Vec<String>, b: &Vec<String>) -> (r: bool)
    ensures
        r == row_less(texts(a@), texts(b@)),
{
    let ghost x = texts(a@);
    let ghost y = texts(b@);
    let mut i: usize = 0;
    assert(x.skip(0) =~= x);
    assert(y.skip(0) =~= y);
    while i < a.len() && i < b.len() && crate::text::same(a[i].as_str(), b[i].as_str())
        invariant
            i <= a@.len(),
            i <= b@.len(),
            x == texts(a@),
            y == texts(b@),
            row_less(x, y) == row_less(x.skip(i as int), y.skip(i as int)),
        decreases a@.len() - i,
    {
        assert(x.skip(i as int).drop_first() =~= x.skip(i as int + 1));
        assert(y.skip(i as int).drop_first() =~= y.skip(i as int + 1));
        i = i + 1;
    }
    if i >= b.len() {
        false
    } else if i >= a.len() {
        true
    } else {
        comes_before(a[i].as_str(), b[i].as_str())
    }
}

fn insert_row(v: &mut Vec<Vec<String>>, x: Vec<String>)
    ensures
        rows_of(final(v)@) == inserted(rows_of(old(v)@), texts(x@)),
{
    let ghost s = rows_of(v@);
    let ghost row = texts(x@);
    let mut i: usize = v.len();
    assert(s.take(i as int) =~= s);
    assert(inserted(s, row) =~= inserted(s.take(i as int), row) + s.skip(i as int));
    while i > 0 && row_before(&x, &v[i - 1])
        invariant
            i <= v@.len(),
            s == rows_of(v@),
            row == texts(x@),
            inserted(s, row) == inserted(s.take(i as int), row) + s.skip(i as int),
        decreases i,
    {
        assert(s.take(i as int).drop_last() =~= s.take(i as int - 1));
        assert(inserted(s.take(i as int - 1), row) + s.skip(i as int - 1) =~= inserted(
            s.take(i as int - 1),
            row,
        ).push(s[i as int - 1]) + s.skip(i as int));
        i = i - 1;
    }
    assert(inserted(s.take(i as int), row) =~= s.take(i as int).push(row));
    v.insert(i, x);
    assert(rows_of(v@) =~= s.take(i as int).push(row) + s.skip(i as int));
}

/// Sorts rows.
pub fn sort_rows(rows: Vec<Vec<String>>) -> (r: Vec<Vec<String>>)
    ensures
        rows_of(r@) == sorted_rows(rows_of(rows@)),
        r@.len() == rows@.len(),
{
    let ghost all = rows_of(rows@);
    let ghost n = rows@.len();
    let mut rows = rows;
    let mut rev: Vec<Vec<String>> = Vec::new();
    while rows.len() > 0
        invariant
            all.len() == n,
            rows@.len() + rev@.len() == n,
            forall|i: int| 0 <= i < rows@.len() ==> texts((#[trigger] rows@[i])@) == all[i],
            forall|i: int|
                0 <= i < rev@.len() ==> texts((#[trigger] rev@[i])@) == all[n - 1 - i],
        decreases rows@.len(),
    {
        let x = rows.pop().unwrap();
        rev.push(x);
    }
    let mut out: Vec<Vec<String>> = Vec::new();
    assert(rows_of(out@) =~= sorted_rows(all.take(0)));
    while rev.len() > 0
        invariant
            all.len() == n,
            rev@.len() <= n,
            out@.len() == n - rev@.len(),
            rows_of(out@) == sorted_rows(all.take(n - rev@.len())),
            forall|i: int|
                0 <= i < rev@.len() ==> texts((#[trigger] rev@[i])@) == all[n - 1 - i],
        decreases rev@.len(),
    {
        let ghost k = n - rev@.len();
        let x = rev.pop().unwrap();
        assert(all.take(k + 1).drop_last() =~= all.take(k));
        let ghost before = rows_of(out@);
        insert_row(&mut out, x);
        proof {
            sorting_orders(all.take(k + 1));
        }
        assert(rows_of(out@).len() == out@.len());
    }
    assert(all.take(n as int) =~= all);
    out
}

/// Texts as rows of one text each.
pub open spec fn column(s: Seq<Seq<char>>) -> Seq<Row> {
    Seq::new(s.len(), |i: int| seq![s[i]])
}

/// The texts in ascending order.
pub open spec fn sorted_texts(s: Seq<Seq<char>>) -> Seq<Seq<char>> {
    Seq::new(s.len(), |i: int| sorted_rows(column(s))[i][0])
}

proof fn lemma_column(s: Seq<Seq<char>>)
    ensures
        sorted_rows(column(s)).len() == s.len(),
        forall|i: int|
            0 <= i < s.len() ==> (#[trigger] sorted_rows(column(s))[i]) == seq![
                sorted_texts(s)[i],
            ] && s.contains(sorted_texts(s)[i]),
{
    broadcast use vstd::seq_lib::group_to_multiset_ensures;

    let rows = sorted_rows(column(s));
    sorting_orders(column(s));
    assert forall|i: int| 0 <= i < s.len() implies (#[trigger] rows[i]) == seq![
        sorted_texts(s)[i],
    ] && s.contains(sorted_texts(s)[i]) by {
        assert(rows.contains(rows[i]));
        assert(rows.to_multiset().count(rows[i]) > 0);
        assert(column(s).contains(rows[i]));
        let k = choose|k: int| 0 <= k < column(s).len() && column(s)[k] == rows[i];
        assert(rows[i] =~= seq![rows[i][0]]);
        assert(s[k] == rows[i][0]);
    }
}

/// Sorting texts puts them in ascending order, and neither adds nor drops any.
pub proof fn sorting_orders_texts(s: Seq<Seq<char>>)
    ensures
        sorted_texts(s).len() == s.len(),
        forall|i: int, j: int|
            0 <= i < j < s.len() ==> !text_less(
                #[trigger] sorted_texts(s)[j],
                #[trigger] sorted_texts(s)[i],
            ),
        column(sorted_texts(s)).to_multiset() == column(s).to_multiset(),
{
    lemma_column(s);
    sorting_orders(column(s));
    let rows = sorted_rows(column(s));
    assert(column(sorted_texts(s)) =~= rows);
    assert forall|i: int, j: int| 0 <= i < j < s.len() implies !text_less(
        #[trigger] sorted_texts(s)[j],
        #[trigger] sorted_texts(s)[i],
    ) by {
        assert(!row_less(rows[j], rows[i]));
        if text_less(rows[j][0], rows[i][0]) {
            text_irreflexive(rows[i][0]);
        }
    }
}

/// Whether texts stand in ascending order, each once.
pub open spec fn strictly_ascending(s: Seq<Seq<char>>) -> bool {
    forall|i: int, j: int| 0 <= i < j < s.len() ==> text_less(#[trigger] s[i], #[trigger] s[j])
}

/// Texts in ascending order, each once, are given by which texts they are.
pub proof fn ascending_texts_unique(a: Seq<Seq<char>>, b: Seq<Seq<char>>)
    requires
        strictly_ascending(a),
        strictly_ascending(b),
        forall|x: Seq<char>| #[trigger] a.contains(x) <==> b.contains(x),
    ensures
        a == b,
    decreases a.len(),
{
    if a.len() == 0 {
        if b.len() > 0 {
            assert(b.contains(b[0]));
            assert(a.contains(b[0]));
        }
        assert(a =~= b);
    } else {
        let x = a.last();
        assert(a[a.len() - 1] == x);
        assert(a.contains(x));
        assert(b.contains(x));
        let y = b.last();
        assert(b[b.len() - 1] == y);
        assert(b.contains(y));
        assert(a.contains(y));
        let i = choose|i: int| 0 <= i < b.len() && b[i] == x;
        let j = choose|j: int| 0 <= j < a.len() && a[j] == y;
        if x != y {
            assert(text_less(b[i], b[b.len() - 1]));
            assert(text_less(a[j], a[a.len() - 1]));
            text_transitive(x, y, x);
            text_irreflexive(x);
        }
        let c = a.drop_last();
        let d = b.drop_last();
        assert forall|z: Seq<char>| #[trigger] c.contains(z) <==> d.contains(z) by {
            last_aside(a, z);
            last_aside(b, z);
            assert(a.contains(z) <==> b.contains(z));
        }
        assert forall|k: int, l: int| 0 <= k < l < c.len() implies text_less(
            #[trigger] c[k],
            #[trigger] c[l],
        ) by {
            assert(text_less(a[k], a[l]));
        }
        assert forall|k: int, l: int| 0 <= k < l < d.len() implies text_less(
            #[trigger] d[k],
            #[trigger] d[l],
        ) by {
            assert(text_less(b[k], b[l]));
        }
        ascending_texts_unique(c, d);
        assert(a =~= c.push(x));
        assert(b =~= d.push(y));
    }
}

proof fn last_aside(a: Seq<Seq<char>>, z: Seq<char>)
    requires
        strictly_ascending(a),
        a.len() > 0,
    ensures
        a.drop_last().contains(z) <==> a.contains(z) && z != a.last(),
{
    let c = a.drop_last();
    if c.contains(z) {
        let k = choose|k: int| 0 <= k < c.len() && c[k] == z;
        assert(a[k] == z);
        assert(text_less(a[k], a[a.len() - 1]));
        text_irreflexive(z);
    }
    if a.contains(z) && z != a.last() {
        let k = choose|k: int| 0 <= k < a.len() && a[k] == z;
        assert(c[k] == z);
    }
}

/// Sorting texts that differ puts each once in ascending order.
pub proof fn sorting_ascends(s: Seq<Seq<char>>)
    requires
        s.no_duplicates(),
    ensures
        strictly_ascending(sorted_texts(s)),
        forall|x: Seq<char>| #[trigger] sorted_texts(s).contains(x) <==> s.contains(x),
{
    broadcast use vstd::seq_lib::group_to_multiset_ensures;

    let t = sorted_texts(s);
    sorting_orders_texts(s);
    let a = column(s);
    let b = column(t);
    assert forall|i: int, j: int| 0 <= i < a.len() && 0 <= j < a.len() && i != j implies a[i]
        != a[j] by {
        if a[i] == a[j] {
            assert(a[i][0] == a[j][0]);
            assert(s[i] == s[j]);
        }
    }
    a.lemma_multiset_has_no_duplicates();
    b.lemma_multiset_has_no_duplicates_conv();
    assert forall|i: int, j: int| 0 <= i < j < t.len() implies text_less(
        #[trigger] t[i],
        #[trigger] t[j],
    ) by {
        text_total(t[i], t[j]);
        if t[i] == t[j] {
            assert(b[i] =~= b[j]);
        }
    }
    assert forall|x: Seq<char>| #[trigger] t.contains(x) <==> s.contains(x) by {
        column_contains(s, x);
        column_contains(t, x);
        assert(a.to_multiset().count(seq![x]) == b.to_multiset().count(seq![x]));
    }
}

proof fn column_contains(s: Seq<Seq<char>>, x: Seq<char>)
    ensures
        column(s).contains(seq![x]) <==> s.contains(x),
{
    if s.contains(x) {
        let i = choose|i: int| 0 <= i < s.len() && s[i] == x;
        assert(column(s)[i] =~= seq![x]);
    }
    if column(s).contains(seq![x]) {
        let i = choose|i: int| 0 <= i < column(s).len() && column(s)[i] == seq![x];
        assert(column(s)[i][0] == x);
        assert(s[i] == x);
    }
}

/// Sorts texts.
pub fn sort_texts(v: &Vec<String>) -> (r: Vec<String>)
    ensures
        texts(r@) == sorted_texts(texts(v@)),
{
    let ghost all = texts(v@);
    let mut rows: Vec<Vec<String>> = Vec::new();
    let mut i: usize = 0;
    while i < v.len()
        invariant
            i <= v@.len(),
            rows@.len() == i,
            all == texts(v@),
            forall|k: int| 0 <= k < i ==> texts((#[trigger] rows@[k])@) == seq![all[k]],
        decreases v@.len() - i,
    {
        let mut row: Vec<String> = Vec::new();
        row.push(v[i].clone());
        assert(texts(row@) =~= seq![all[i as int]]);
        rows.push(row);
        i = i + 1;
    }
    assert(rows_of(rows@) =~= column(all));
    let sorted = sort_rows(rows);
    proof {
        lemma_column(all);
    }
    let ghost model = rows_of(sorted@);
    let mut out: Vec<String> = Vec::new();
    let mut j: usize = 0;
    while j < sorted.len()
        invariant
            j <= sorted@.len(),
            sorted@.len() == all.len(),
            out@.len() == j,
            model == rows_of(sorted@),
            model == sorted_rows(column(all)),
            forall|k: int|
                0 <= k < all.len() ==> (#[trigger] sorted_rows(column(all))[k]) == seq![
                    sorted_texts(all)[k],
                ],
            forall|k: int| 0 <= k < j ==> (#[trigger] out@[k])@ == sorted_texts(all)[k],
        decreases sorted@.len() - j,
    {
        assert(model[j as int] == texts(sorted@[j as int]@));
        assert(texts(sorted@[j as int]@).len() == 1);
        assert(texts(sorted@[j as int]@)[0] == sorted@[j as int]@[0]@);
        out.push(sorted[j][0].clone());
        j = j + 1;
    }
    assert(texts(out@) =~= sorted_texts(all));
    out
}

} // verus!
