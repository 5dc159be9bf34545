//! The order in which listed names are returned: lexicographic over Unicode
//! scalar values, which is the byte order of their UTF-8 encodings.
use vstd::prelude::*;
use vstd::relations::{sorted_by, total_ordering};

verus! {

/// `a` comes no later than `b`: compared character by character, the first
/// difference decides, and a proper prefix comes first.
pub open spec fn char_seq_le(a: Seq<char>, b: Seq<char>) -> bool
    decreases a.len(),
{
    if a.len() == 0 {
        true
    } else if b.len() == 0 {
        false
    } else if a[0] != b[0] {
        (a[0] as int) < (b[0] as int)
    } else {
        char_seq_le(a.drop_first(), b.drop_first())
    }
}

/// The order as a relation.
pub open spec fn name_order() -> spec_fn(Seq<char>, Seq<char>) -> bool {
    |a: Seq<char>, b: Seq<char>| char_seq_le(a, b)
}

proof fn lemma_le_reflexive(a: Seq<char>)
    ensures
        char_seq_le(a, a),
    decreases a.len(),
{
    if a.len() > 0 {
        lemma_le_reflexive(a.drop_first());
    }
}

proof fn lemma_le_antisymmetric(a: Seq<char>, b: Seq<char>)
    requires
        char_seq_le(a, b),
        char_seq_le(b, a),
    ensures
        a == b,
    decreases a.len(),
{
    if a.len() == 0 {
        assert(b.len() == 0);
        assert(a =~= b);
    } else {
        assert(b.len() > 0);
        assert(a[0] == b[0]);
        lemma_le_antisymmetric(a.drop_first(), b.drop_first());
        assert(a.drop_first() == b.drop_first());
        assert(a.drop_first().len() == a.len() - 1);
        assert(a.len() == b.len());
        assert forall|i: int| 0 <= i < a.len() implies a[i] == b[i] by {
            if i > 0 {
                assert(a[i] == a.drop_first()[i - 1]);
                assert(b[i] == b.drop_first()[i - 1]);
            }
        }
        assert(a =~= b);
    }
}

proof fn lemma_le_transitive(a: Seq<char>, b: Seq<char>, c: Seq<char>)
    requires
        char_seq_le(a, b),
        char_seq_le(b, c),
    ensures
        char_seq_le(a, c),
    decreases a.len(),
{
    if a.len() > 0 && b.len() > 0 && c.len() > 0 {
        if a[0] == b[0] && b[0] == c[0] {
            lemma_le_transitive(a.drop_first(), b.drop_first(), c.drop_first());
        }
    }
}

proof fn lemma_le_total(a: Seq<char>, b: Seq<char>)
    ensures
        char_seq_le(a, b) || char_seq_le(b, a),
    decreases a.len(),
{
    if a.len() > 0 && b.len() > 0 {
        if a[0] == b[0] {
            lemma_le_total(a.drop_first(), b.drop_first());
        } else {
            assert((a[0] as int) != (b[0] as int));
        }
    }
}

/// The order of listed names is a total order: reflexive, antisymmetric,
/// transitive, and any two names are comparable.
pub proof fn lemma_name_order_total()
    ensures
        total_ordering(name_order()),
{
    assert forall|a: Seq<char>| #[trigger] name_order()(a, a) by {
        lemma_le_reflexive(a);
    }
    assert forall|a: Seq<char>, b: Seq<char>|
        #[trigger] name_order()(a, b) && #[trigger] name_order()(b, a) implies a == b by {
        lemma_le_antisymmetric(a, b);
    }
    assert forall|a: Seq<char>, b: Seq<char>, c: Seq<char>|
        #[trigger] name_order()(a, b) && #[trigger] name_order()(b, c) implies name_order()(
        a,
        c,
    ) by {
        lemma_le_transitive(a, b, c);
    }
    assert forall|a: Seq<char>, b: Seq<char>|
        #[trigger] name_order()(a, b) || #[trigger] name_order()(b, a) by {
        lemma_le_total(a, b);
    }
}

/// How names compare: after an equal prefix the first differing character
/// decides by its code point, and a name comes before every longer name that
/// it begins.
pub proof fn lemma_name_order_rule(p: Seq<char>, a: Seq<char>, b: Seq<char>, x: char, y: char)
    requires
        x != y,
    ensures
        char_seq_le(p + seq![x] + a, p + seq![y] + b) <==> (x as int) < (y as int),
        char_seq_le(p, p + a),
        a.len() > 0 ==> !char_seq_le(p + a, p),
    decreases p.len(),
{
    if p.len() > 0 {
        let q = p.drop_first();
        assert((p + seq![x] + a).drop_first() =~= q + seq![x] + a);
        assert((p + seq![y] + b).drop_first() =~= q + seq![y] + b);
        assert((p + a).drop_first() =~= q + a);
        lemma_name_order_rule(q, a, b, x, y);
    } else {
        assert(p + seq![x] + a =~= seq![x] + a);
        assert(p + seq![y] + b =~= seq![y] + b);
        assert(p + a =~= a);
    }
}

/// Whether `a` comes no later than `b` in the order of listed names.
pub fn str_le(a: &str, b: &str) -> (r: bool)
    ensures
        r == char_seq_le(a@, b@),
{
    let n: usize = a.unicode_len();
    let m: usize = b.unicode_len();
    let mut i: usize = 0;
    assert(a@.skip(0) =~= a@);
    assert(b@.skip(0) =~= b@);
    loop
        invariant
            n == a@.len(),
            m == b@.len(),
            i <= n,
            i <= m,
            char_seq_le(a@, b@) == char_seq_le(a@.skip(i as int), b@.skip(i as int)),
        decreases n - i,
    {
        if i == n {
            return true;
        }
        if i == m {
            return false;
        }
        let ca = a.get_char(i);
        let cb = b.get_char(i);
        assert(a@.skip(i as int)[0] == ca);
        assert(b@.skip(i as int)[0] == cb);
        if ca != cb {
            return ca < cb;
        }
        assert(a@.skip(i as int).drop_first() =~= a@.skip(i + 1));
        assert(b@.skip(i as int).drop_first() =~= b@.skip(i + 1));
        i = i + 1;
    }
}

/// The views of a list of strings.
pub open spec fn views(v: Seq<String>) -> Seq<Seq<char>> {
    v.map_values(|s: String| s@)
}

/// Sort `names` into the order of listed names.
pub fn sort_names(names: &Vec<String>) -> (r: Vec<String>)
    ensures
        views(r@) == views(names@).sort_by(name_order()),
{
    let mut out: Vec<String> = Vec::new();
    let mut i: usize = 0;
    proof {
        lemma_name_order_total();
        assert(views(names@).take(0) =~= Seq::<Seq<char>>::empty());
        assert(views(out@) =~= Seq::<Seq<char>>::empty());
    }
    while i < names.len()
        invariant
            i <= names.len(),
            total_ordering(name_order()),
            sorted_by(views(out@), name_order()),
            views(out@).to_multiset() == views(names@).take(i as int).to_multiset(),
        decreases names.len() - i,
    {
        let x = names[i].clone();
        let mut j: usize = 0;
        while j < out.len() && str_le(out[j].as_str(), x.as_str())
            invariant
                j <= out.len(),
                forall|k: int| 0 <= k < j ==> char_seq_le(#[trigger] out@[k]@, x@),
            decreases out.len() - j,
        {
            j = j + 1;
        }
        let ghost before = views(out@);
        out.insert(j, x);
        proof {
            let after = views(out@);
            assert(after =~= before.insert(j as int, x@));
            assert forall|p: int, q: int| 0 <= p < q < after.len() implies #[trigger] name_order()(
                after[p],
                after[q],
            ) by {
                if q < j {
                    assert(before[p] == after[p] && before[q] == after[q]);
                    assert(name_order()(before[p], before[q]));
                } else if q == j {
                    assert(after[p] == out@[p]@);
                } else if p == j {
                    // x precedes the element that stopped the scan, which
                    // precedes every later one
                    assert(!char_seq_le(before[j as int], x@));
                    lemma_le_total(before[j as int], x@);
                    if q - 1 > j {
                        assert(name_order()(before[j as int], before[q - 1]));
                        lemma_le_transitive(x@, before[j as int], before[q - 1]);
                    }
                } else if p < j {
                    assert(char_seq_le(before[p], x@));
                    assert(!char_seq_le(before[j as int], x@));
                    lemma_le_total(before[j as int], x@);
                    lemma_le_transitive(before[p], x@, before[j as int]);
                    if q - 1 > j {
                        assert(name_order()(before[j as int], before[q - 1]));
                        lemma_le_transitive(before[p], before[j as int], before[q - 1]);
                    }
                } else {
                    assert(name_order()(before[p - 1], before[q - 1]));
                }
            }
            vstd::seq_lib::to_multiset_insert(before, j as int, x@);
            assert(views(names@).take(i + 1) =~= views(names@).take(i as int).push(x@));
            vstd::seq_lib::to_multiset_build(views(names@).take(i as int), x@);
        }
        i = i + 1;
    }
    proof {
        assert(views(names@).take(names@.len() as int) =~= views(names@));
        views(names@).lemma_sort_by_ensures(name_order());
        vstd::seq_lib::lemma_sorted_unique(
            views(out@),
            views(names@).sort_by(name_order()),
            name_order(),
        );
    }
    out
}

} // verus!
