//! Lexicographic ordering of byte sequences and a verified sort, used to
//! restore a canonical order to runs of environment-listing lines.

use vstd::multiset::Multiset;
use vstd::prelude::*;
use vstd::relations::{sorted_by, total_ordering};
use vstd::seq_lib::lemma_sorted_unique;

verus! {

broadcast use {
    vstd::multiset::group_multiset_axioms,
    vstd::multiset::lemma_multiset_empty_len,
    vstd::seq_lib::group_to_multiset_ensures,
};

/// Byte-wise lexicographic order: `a` comes no later than `b`.
pub open spec fn lex_le(a: Seq<u8>, b: Seq<u8>) -> bool
    decreases a.len(),
{
    if a.len() == 0 {
        true
    } else if b.len() == 0 {
        false
    } else if a.first() < b.first() {
        true
    } else if a.first() > b.first() {
        false
    } else {
        lex_le(a.drop_first(), b.drop_first())
    }
}

/// The same order as a first-class relation, for vstd's sorting lemmas.
pub open spec fn lex_leq() -> spec_fn(Seq<u8>, Seq<u8>) -> bool {
    |a: Seq<u8>, b: Seq<u8>| lex_le(a, b)
}

pub proof fn lemma_lex_le_reflexive(a: Seq<u8>)
    ensures
        lex_le(a, a),
    decreases a.len(),
{
    if a.len() > 0 {
        lemma_lex_le_reflexive(a.drop_first());
    }
}

pub proof fn lemma_lex_le_connected(a: Seq<u8>, b: Seq<u8>)
    ensures
        lex_le(a, b) || lex_le(b, a),
    decreases a.len(),
{
    if a.len() > 0 && b.len() > 0 && a.first() == b.first() {
        lemma_lex_le_connected(a.drop_first(), b.drop_first());
    }
}

pub proof fn lemma_lex_le_antisymmetric(a: Seq<u8>, b: Seq<u8>)
    requires
        lex_le(a, b),
        lex_le(b, a),
    ensures
        a == b,
    decreases a.len(),
{
    if a.len() == 0 {
        assert(a =~= b);
    } else {
        lemma_lex_le_antisymmetric(a.drop_first(), b.drop_first());
        assert forall|i: int| 0 <= i < a.len() implies a[i] == b[i] by {
            if i > 0 {
                assert(a[i] == a.drop_first()[i - 1]);
                assert(b[i] == b.drop_first()[i - 1]);
            }
        }
        assert(a =~= b);
    }
}

pub proof fn lemma_lex_le_transitive(a: Seq<u8>, b: Seq<u8>, c: Seq<u8>)
    requires
        lex_le(a, b),
        lex_le(b, c),
    ensures
        lex_le(a, c),
    decreases a.len(),
{
    if a.len() > 0 {
        if a.first() == b.first() && b.first() == c.first() {
            lemma_lex_le_transitive(a.drop_first(), b.drop_first(), c.drop_first());
        }
    }
}

/// Byte-wise lexicographic comparison is a total order.
pub proof fn lemma_lex_total_ordering()
    ensures
        total_ordering(lex_leq()),
{
    let leq = lex_leq();
    assert forall|a: Seq<u8>| #[trigger] leq(a, a) by {
        lemma_lex_le_reflexive(a);
    }
    assert forall|a: Seq<u8>, b: Seq<u8>| #[trigger] leq(a, b) && #[trigger] leq(b, a) implies a
        == b by {
        lemma_lex_le_antisymmetric(a, b);
    }
    assert forall|a: Seq<u8>, b: Seq<u8>, c: Seq<u8>|
        #[trigger] leq(a, b) && #[trigger] leq(b, c) implies leq(a, c) by {
        lemma_lex_le_transitive(a, b, c);
    }
    assert forall|a: Seq<u8>, b: Seq<u8>| #[trigger] leq(a, b) || #[trigger] leq(b, a) by {
        lemma_lex_le_connected(a, b);
    }
}

/// Decides `lex_le` on byte vectors.
pub fn lex_le_bytes(a: &Vec<u8>, b: &Vec<u8>) -> (r: bool)
    ensures
        r == lex_le(a@, b@),
{
    let mut i: usize = 0;
    proof {
        assert(a@.skip(0) =~= a@);
        assert(b@.skip(0) =~= b@);
    }
    loop
        invariant
            i <= a.len(),
            i <= b.len(),
            lex_le(a@, b@) == lex_le(a@.skip(i as int), b@.skip(i as int)),
        decreases a.len() - i,
    {
        if i == a.len() {
            assert(a@.skip(i as int).len() == 0);
            return true;
        }
        if i == b.len() {
            assert(b@.skip(i as int).len() == 0);
            return false;
        }
        let x = a[i];
        let y = b[i];
        assert(a@.skip(i as int).first() == a@[i as int]);
        assert(b@.skip(i as int).first() == b@[i as int]);
        if x < y {
            return true;
        }
        if x > y {
            return false;
        }
        proof {
            assert(a@.skip(i as int).drop_first() =~= a@.skip(i + 1));
            assert(b@.skip(i as int).drop_first() =~= b@.skip(i + 1));
        }
        i = i + 1;
    }
}

/// The byte sequences held by a list of byte vectors.
pub open spec fn views(s: Seq<Vec<u8>>) -> Seq<Seq<u8>> {
    s.map_values(|v: Vec<u8>| v@)
}

/// The canonical (sorted) arrangement of a run of lines.
pub open spec fn sort_run(r: Seq<Seq<u8>>) -> Seq<Seq<u8>> {
    r.sort_by(lex_leq())
}

pub proof fn lemma_sort_run_ensures(r: Seq<Seq<u8>>)
    ensures
        sort_run(r).to_multiset() == r.to_multiset(),
        sorted_by(sort_run(r), lex_leq()),
        sort_run(r).len() == r.len(),
{
    lemma_lex_total_ordering();
    r.lemma_sort_by_ensures(lex_leq());
    assert(sort_run(r).to_multiset() =~= r.to_multiset());
    r.to_multiset_ensures();
    sort_run(r).to_multiset_ensures();
}

/// Any sorted rearrangement of `r` is `sort_run(r)`: the canonical form is
/// reached no matter how the lines were ordered beforehand.
pub proof fn lemma_sorted_run_is_sort(r: Seq<Seq<u8>>, s: Seq<Seq<u8>>)
    requires
        sorted_by(s, lex_leq()),
        s.to_multiset() == r.to_multiset(),
    ensures
        s == sort_run(r),
{
    lemma_lex_total_ordering();
    lemma_sort_run_ensures(r);
    lemma_sorted_unique(s, sort_run(r), lex_leq());
}

/// Sorts a run of lines into the canonical arrangement.
#[verifier::loop_isolation(false)]
pub fn sort_lines(input: Vec<Vec<u8>>) -> (r: Vec<Vec<u8>>)
    ensures
        views(r@) == sort_run(views(input@)),
{
    let ghost orig: Seq<Seq<u8>> = views(input@);
    let mut rest = input;
    let mut out: Vec<Vec<u8>> = Vec::new();
    loop
        invariant
            views(out@).to_multiset().add(views(rest@).to_multiset()) == orig.to_multiset(),
            sorted_by(views(out@), lex_leq()),
            forall|i: int, j: int|
                0 <= i < out@.len() && 0 <= j < rest@.len() ==> lex_le(out@[i]@, rest@[j]@),
        decreases rest.len(),
    {
        if rest.len() == 0 {
            proof {
                views(rest@).to_multiset_ensures();
                assert(views(rest@).to_multiset() =~= Multiset::<Seq<u8>>::empty());
                assert(views(out@).to_multiset() =~= orig.to_multiset());
                lemma_sorted_run_is_sort(orig, views(out@));
            }
            return out;
        }
        let mut m: usize = 0;
        let mut k: usize = 1;
        proof {
            lemma_lex_le_reflexive(rest@[0]@);
        }
        while k < rest.len()
            invariant
                m < k <= rest.len(),
                forall|j: int| 0 <= j < k ==> lex_le(rest@[m as int]@, rest@[j]@),
            decreases rest.len() - k,
        {
            if lex_le_bytes(&rest[k], &rest[m]) {
                proof {
                    assert forall|j: int| 0 <= j < k + 1 implies lex_le(
                        rest@[k as int]@,
                        rest@[j]@,
                    ) by {
                        if j < k {
                            lemma_lex_le_transitive(rest@[k as int]@, rest@[m as int]@, rest@[j]@);
                        } else {
                            lemma_lex_le_reflexive(rest@[k as int]@);
                        }
                    }
                }
                m = k;
            } else {
                proof {
                    lemma_lex_le_connected(rest@[k as int]@, rest@[m as int]@);
                }
            }
            k = k + 1;
        }
        proof {
            lemma_lex_le_reflexive(rest@[m as int]@);
        }
        let ghost pre_rest = rest@;
        let ghost pre_out = out@;
        let x = rest.remove(m);
        out.push(x);
        proof {
            assert(views(pre_rest)[m as int] == x@);
            assert(views(rest@) =~= views(pre_rest).remove(m as int));
            assert(views(out@) =~= views(pre_out).push(x@));
            assert(views(pre_rest).to_multiset().count(x@) > 0);
            assert(views(out@).to_multiset() =~= views(pre_out).to_multiset().insert(x@));
            assert(views(rest@).to_multiset() =~= views(pre_rest).to_multiset().remove(x@));
            assert(views(out@).to_multiset().add(views(rest@).to_multiset()) =~= views(
                pre_out,
            ).to_multiset().add(views(pre_rest).to_multiset()));
            assert forall|i: int, j: int|
                0 <= i < out@.len() && 0 <= j < rest@.len() implies lex_le(
                out@[i]@,
                rest@[j]@,
            ) by {
                let jj = if j < m { j } else { j + 1 };
                assert(views(rest@)[j] == views(pre_rest)[jj]);
                if i < pre_out.len() {
                    assert(lex_le(out@[i]@, rest@[j]@));
                } else {
                    assert(out@[i]@ == x@);
                    assert(lex_le(x@, views(pre_rest)[jj]));
                }
            }
            assert forall|i: int, j: int| 0 <= i < j < views(out@).len() implies lex_leq()(
                views(out@)[i],
                views(out@)[j],
            ) by {
                if j < pre_out.len() {
                    assert(sorted_by(views(pre_out), lex_leq()));
                } else {
                    assert(views(out@)[j] == x@);
                    assert(lex_le(views(pre_out)[i], x@));
                }
            }
        }
    }
}

} // verus!
