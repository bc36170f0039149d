use vstd::prelude::*;

use crate::text::chars_of;

verus! {

/// Lexicographic order of texts by character (for UTF-8 text the same as
/// the order of their bytes, which `str`'s `Ord` uses).
pub open spec fn text_lt(a: Seq<char>, b: Seq<char>) -> bool
    decreases a.len(),
{
    if a.len() == 0 {
        b.len() > 0
    } else if b.len() == 0 {
        false
    } else if a[0] < b[0] {
        true
    } else if a[0] == b[0] {
        text_lt(a.drop_first(), b.drop_first())
    } else {
        false
    }
}

/// `text_lt` is transitive.
pub proof fn lemma_text_lt_trans(a: Seq<char>, b: Seq<char>, c: Seq<char>)
    requires
        text_lt(a, b),
        text_lt(b, c),
    ensures
        text_lt(a, c),
    decreases a.len(),
{
    if a.len() > 0 && b.len() > 0 && c.len() > 0 && a[0] == b[0] && b[0] == c[0] {
        lemma_text_lt_trans(a.drop_first(), b.drop_first(), c.drop_first());
    }
}

/// `text_lt` is irreflexive.
pub proof fn lemma_text_lt_irrefl(a: Seq<char>)
    ensures
        !text_lt(a, a),
    decreases a.len(),
{
    if a.len() > 0 {
        lemma_text_lt_irrefl(a.drop_first());
    }
}

/// Any two different texts are ordered one way or the other.
pub proof fn lemma_text_lt_total(a: Seq<char>, b: Seq<char>)
    ensures
        a == b || text_lt(a, b) || text_lt(b, a),
    decreases a.len(),
{
    if a.len() > 0 && b.len() > 0 && a[0] == b[0] {
        lemma_text_lt_total(a.drop_first(), b.drop_first());
        if a.drop_first() == b.drop_first() {
            assert(a =~= seq![a[0]] + a.drop_first());
            assert(b =~= seq![b[0]] + b.drop_first());
        }
    } else if a.len() == 0 && b.len() == 0 {
        assert(a =~= b);
    }
}

/// `text_lt` is asymmetric.
pub proof fn lemma_text_lt_asym(a: Seq<char>, b: Seq<char>)
    requires
        text_lt(a, b),
    ensures
        !text_lt(b, a),
{
    if text_lt(b, a) {
        lemma_text_lt_trans(a, b, a);
        lemma_text_lt_irrefl(a);
    }
}

/// Whether `a` comes before `b`; see `text_lt`.
pub fn str_lt(a: &str, b: &str) -> (r: bool)
    ensures
        r == text_lt(a@, b@),
{
    let x = chars_of(a);
    let y = chars_of(b);
    let mut i: usize = 0;
    proof {
        assert(x@.skip(0) =~= x@);
        assert(y@.skip(0) =~= y@);
    }
    while i < x.len() && i < y.len() && x[i] == y[i]
        invariant
            x@ == a@,
            y@ == b@,
            i <= x.len(),
            i <= y.len(),
            text_lt(a@, b@) == text_lt(x@.skip(i as int), y@.skip(i as int)),
        decreases x.len() - i,
    {
        assert(x@.skip(i as int).drop_first() =~= x@.skip(i + 1));
        assert(y@.skip(i as int).drop_first() =~= y@.skip(i + 1));
        i += 1;
    }
    proof {
        assert(x@.skip(0) =~= x@);
    }
    if i == x.len() {
        i < y.len()
    } else if i == y.len() {
        false
    } else {
        assert(x@.skip(i as int)[0] == x@[i as int]);
        assert(y@.skip(i as int)[0] == y@[i as int]);
        x[i] < y[i]
    }
}

/// Whether the texts are in order (no later one comes before an earlier one).
pub open spec fn sorted_texts(v: Seq<Seq<char>>) -> bool {
    forall|i: int, j: int| 0 <= i < j < v.len() ==> !text_lt(#[trigger] v[j], #[trigger] v[i])
}

/// The strings of `v` in order, as `sort_unstable` leaves them.
pub fn sort_strings(v: Vec<String>) -> (r: Vec<String>)
    ensures
        sorted_texts(r.deep_view()),
        r.deep_view().to_multiset() == v.deep_view().to_multiset(),
{
    let mut out: Vec<String> = Vec::new();
    let ghost orig = v.deep_view();
    let mut rest = v;
    broadcast use vstd::multiset::group_multiset_axioms, vstd::seq_lib::group_to_multiset_ensures;
    assert(out.deep_view() =~= Seq::<Seq<char>>::empty());
    while rest.len() > 0
        invariant
            sorted_texts(out.deep_view()),
            out.deep_view().to_multiset().add(rest.deep_view().to_multiset()) == orig.to_multiset(),
        decreases rest.len(),
    {
        let ghost rv = rest.deep_view();
        let x = rest.pop().unwrap();
        let ghost xv = x@;
        assert(rest.deep_view() =~= rv.drop_last());
        assert(rv =~= rest.deep_view().push(xv));
        // find the place: after every element not greater than x
        let mut k: usize = out.len();
        while k > 0 && str_lt(x.as_str(), out[k - 1].as_str())
            invariant
                k <= out.len(),
                forall|j: int| k <= j < out.len() ==> text_lt(xv, #[trigger] out.deep_view()[j]),
                x@ == xv,
            decreases k,
        {
            k -= 1;
        }
        let ghost ov = out.deep_view();
        proof {
            if k > 0 {
                assert(!text_lt(xv, ov[k - 1]));
            }
        }
        out.insert(k, x);
        proof {
            let nv = out.deep_view();
            assert(nv =~= ov.insert(k as int, xv));
            assert forall|i: int, j: int| 0 <= i < j < nv.len() implies !text_lt(#[trigger] nv[j], #[trigger] nv[i]) by {
                if i < k as int && j < k as int {
                    assert(nv[i] == ov[i] && nv[j] == ov[j]);
                } else if i < k as int && j == k as int {
                    // ov[i] <= ov[k-1] <= x
                    assert(nv[i] == ov[i]);
                    assert(!text_lt(ov[k - 1], ov[i]) || i == k - 1);
                    if text_lt(xv, ov[i]) {
                        if i < k - 1 {
                            lemma_text_lt_total(ov[i], ov[k - 1]);
                            if text_lt(ov[i], ov[k - 1]) {
                                lemma_text_lt_trans(xv, ov[i], ov[k - 1]);
                            }
                        }
                    }
                } else if i < k as int && j > k as int {
                    assert(nv[i] == ov[i] && nv[j] == ov[j - 1]);
                } else if i == k as int {
                    assert(nv[j] == ov[j - 1]);
                    assert(text_lt(xv, ov[j - 1]));
                    lemma_text_lt_asym(xv, ov[j - 1]);
                } else {
                    assert(nv[i] == ov[i - 1] && nv[j] == ov[j - 1]);
                }
            }
            assert(nv.to_multiset() =~= ov.to_multiset().insert(xv)) by {
                broadcast use vstd::multiset::group_multiset_axioms, vstd::seq_lib::group_to_multiset_ensures;
                assert(nv.remove(k as int) =~= ov);
                assert(nv[k as int] == xv);
                assert(nv.contains(xv));
                assert(nv.to_multiset().count(xv) > 0);
            }
            assert(out.deep_view().to_multiset().add(rest.deep_view().to_multiset()) =~= orig.to_multiset()) by {
                broadcast use vstd::multiset::group_multiset_axioms, vstd::seq_lib::group_to_multiset_ensures;
                assert(rv.to_multiset() =~= rest.deep_view().to_multiset().insert(xv));
            }
        }
    }
    assert(rest.deep_view() =~= Seq::<Seq<char>>::empty());
    out
}

proof fn lemma_sorted_first_least(v: Seq<Seq<char>>, x: Seq<char>)
    requires
        sorted_texts(v),
        v.to_multiset().count(x) > 0,
    ensures
        v.len() > 0,
        !text_lt(x, v[0]),
{
    broadcast use vstd::seq_lib::group_to_multiset_ensures;
    assert(v.contains(x));
    let j = choose|j: int| 0 <= j < v.len() && v[j] == x;
    if j > 0 {
        assert(!text_lt(v[j], v[0]));
    } else {
        lemma_text_lt_irrefl(x);
    }
}

/// Two orderings of the same texts that are both in order are the same: a
/// sorted listing is determined by what it lists.
pub proof fn law_sorted_unique(a: Seq<Seq<char>>, b: Seq<Seq<char>>)
    requires
        sorted_texts(a),
        sorted_texts(b),
        a.to_multiset() == b.to_multiset(),
    ensures
        a == b,
    decreases a.len(),
{
    broadcast use vstd::seq_lib::group_to_multiset_ensures, vstd::multiset::group_multiset_axioms;
    assert(a.len() == a.to_multiset().len());
    assert(b.len() == b.to_multiset().len());
    if a.len() == 0 {
        assert(a =~= b);
    } else {
        assert(a.contains(a[0]));
        assert(b.contains(b[0]));
        lemma_sorted_first_least(b, a[0]);
        lemma_sorted_first_least(a, b[0]);
        lemma_text_lt_total(a[0], b[0]);
        let x = a[0];
        assert(a.remove(0) =~= a.drop_first());
        assert(b.remove(0) =~= b.drop_first());
        assert(a.drop_first().to_multiset() =~= a.to_multiset().remove(x));
        assert(b.drop_first().to_multiset() =~= b.to_multiset().remove(x));
        assert(sorted_texts(a.drop_first())) by {
            assert forall|i: int, j: int| 0 <= i < j < a.drop_first().len() implies !text_lt(#[trigger] a.drop_first()[j], #[trigger] a.drop_first()[i]) by {
                assert(a.drop_first()[i] == a[i + 1] && a.drop_first()[j] == a[j + 1]);
            }
        }
        assert(sorted_texts(b.drop_first())) by {
            assert forall|i: int, j: int| 0 <= i < j < b.drop_first().len() implies !text_lt(#[trigger] b.drop_first()[j], #[trigger] b.drop_first()[i]) by {
                assert(b.drop_first()[i] == b[i + 1] && b.drop_first()[j] == b[j + 1]);
            }
        }
        law_sorted_unique(a.drop_first(), b.drop_first());
        assert(a =~= seq![x] + a.drop_first());
        assert(b =~= seq![x] + b.drop_first());
    }
}

} // verus!
