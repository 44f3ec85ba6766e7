//! Byte-level literal rewriting and substring search: the reference shell's
//! output is rewritten so that self-referential messages compare equal to the
//! candidate's, and captured error streams are searched for the sandbox
//! tool's failure marker.

use vstd::prelude::*;

verus! {

/// `p` is a prefix of `s`.
pub open spec fn starts_with(s: Seq<u8>, p: Seq<u8>) -> bool {
    p.len() <= s.len() && s.take(p.len() as int) == p
}

/// `n` occurs somewhere in `h`.
pub open spec fn contains_seq(h: Seq<u8>, n: Seq<u8>) -> bool {
    exists|i: int| 0 <= i <= h.len() - n.len() && #[trigger] h.subrange(i, i + n.len()) == n
}

/// Every occurrence of `from` replaced by `to`, scanning left to right and
/// never rescanning replaced text. An empty pattern replaces nothing.
pub open spec fn replace_all_spec(s: Seq<u8>, from: Seq<u8>, to: Seq<u8>) -> Seq<u8>
    decreases s.len(),
{
    if from.len() == 0 || s.len() == 0 {
        s
    } else if starts_with(s, from) {
        to + replace_all_spec(s.skip(from.len() as int), from, to)
    } else {
        seq![s.first()] + replace_all_spec(s.drop_first(), from, to)
    }
}

/// Whether `pat` occurs in `s` starting at position `i`.
#[verifier::loop_isolation(false)]
fn match_at(s: &Vec<u8>, i: usize, pat: &[u8]) -> (r: bool)
    requires
        i <= s@.len(),
    ensures
        r == (i + pat@.len() <= s@.len() && s@.subrange(i as int, i + pat@.len()) == pat@),
{
    if s.len() - i < pat.len() {
        return false;
    }
    let mut j: usize = 0;
    while j < pat.len()
        invariant
            j <= pat@.len(),
            i + pat@.len() <= s@.len(),
            forall|k: int| 0 <= k < j ==> s@[i + k] == pat@[k],
        decreases pat@.len() - j,
    {
        proof {
            assert(i + j < s@.len());
        }
        if s[i + j] != pat[j] {
            proof {
                assert(s@.subrange(i as int, i + pat@.len())[j as int] == s@[i + j]);
            }
            return false;
        }
        j = j + 1;
    }
    proof {
        assert(s@.subrange(i as int, i + pat@.len()) =~= pat@);
    }
    true
}

/// Decides whether `pat` occurs anywhere in `h`.
#[verifier::loop_isolation(false)]
pub fn contains_bytes(h: &Vec<u8>, pat: &[u8]) -> (r: bool)
    ensures
        r == contains_seq(h@, pat@),
{
    if pat.len() > h.len() {
        return false;
    }
    let last = h.len() - pat.len();
    let mut i: usize = 0;
    loop
        invariant
            i <= last,
            forall|j: int| 0 <= j < i ==> #[trigger] h@.subrange(j, j + pat@.len()) != pat@,
        decreases last - i,
    {
        if match_at(h, i, pat) {
            return true;
        }
        if i == last {
            proof {
                assert forall|j: int| 0 <= j <= h@.len() - pat@.len() implies #[trigger] h@
                    .subrange(j, j + pat@.len()) != pat@ by {
                    assert(j <= last);
                }
            }
            return false;
        }
        i = i + 1;
    }
}

/// Replaces every occurrence of `from` in `s` by `to`, scanning left to right.
#[verifier::loop_isolation(false)]
pub fn replace_all(s: &Vec<u8>, from: &[u8], to: &[u8]) -> (r: Vec<u8>)
    requires
        from@.len() > 0,
    ensures
        r@ == replace_all_spec(s@, from@, to@),
{
    let mut out: Vec<u8> = Vec::new();
    let mut i: usize = 0;
    proof {
        assert(s@.skip(0) =~= s@);
        assert(out@ + replace_all_spec(s@, from@, to@) =~= replace_all_spec(s@, from@, to@));
    }
    loop
        invariant
            i <= s@.len(),
            replace_all_spec(s@, from@, to@) == out@ + replace_all_spec(
                s@.skip(i as int),
                from@,
                to@,
            ),
        decreases s@.len() - i,
    {
        if i == s.len() {
            proof {
                assert(s@.skip(i as int) =~= Seq::<u8>::empty());
                assert(out@ + replace_all_spec(s@.skip(i as int), from@, to@) =~= out@);
            }
            return out;
        }
        let ghost rest = s@.skip(i as int);
        if match_at(s, i, from) {
            proof {
                assert(rest.take(from@.len() as int) =~= s@.subrange(i as int, i + from@.len()));
                assert(starts_with(rest, from@));
            }
            let ghost pre = out@;
            let mut j: usize = 0;
            while j < to.len()
                invariant
                    j <= to@.len(),
                    out@ == pre + to@.take(j as int),
                decreases to@.len() - j,
            {
                out.push(to[j]);
                proof {
                    assert(pre + to@.take(j + 1) =~= (pre + to@.take(j as int)).push(to@[j as int]));
                }
                j = j + 1;
            }
            proof {
                assert(to@.take(to@.len() as int) =~= to@);
                assert(out@ =~= pre + to@);
                assert(rest.skip(from@.len() as int) =~= s@.skip(i + from@.len()));
                assert(replace_all_spec(rest, from@, to@) == to@ + replace_all_spec(
                    s@.skip(i + from@.len()),
                    from@,
                    to@,
                ));
                assert(out@ + replace_all_spec(s@.skip(i + from@.len()), from@, to@) =~= pre
                    + replace_all_spec(rest, from@, to@));
            }
            i = i + from.len();
        } else {
            proof {
                assert(rest.take(from@.len() as int) =~= s@.subrange(i as int, i + from@.len())
                    || rest.len() < from@.len());
                if from@.len() <= rest.len() {
                    assert(rest.take(from@.len() as int) =~= s@.subrange(
                        i as int,
                        i + from@.len(),
                    ));
                }
                assert(!starts_with(rest, from@));
                assert(rest.first() == s@[i as int]);
                assert(rest.drop_first() =~= s@.skip(i + 1));
                assert(replace_all_spec(rest, from@, to@) == seq![s@[i as int]] + replace_all_spec(
                    s@.skip(i + 1),
                    from@,
                    to@,
                ));
            }
            let ghost pre = out@;
            out.push(s[i]);
            proof {
                assert(out@ + replace_all_spec(s@.skip(i + 1), from@, to@) =~= pre
                    + replace_all_spec(rest, from@, to@));
            }
            i = i + 1;
        }
    }
}

} // verus!
