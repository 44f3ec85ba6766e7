//! Output normalization: captured streams are split into lines, maximal runs
//! of environment-listing lines are sorted into a canonical order, the lines
//! are joined again, and a missing final newline is repaired. Ordinary lines
//! keep their relative order and bound the sorted runs.

use crate::order::{sort_lines, sort_run, views};
use vstd::prelude::*;

verus! {

broadcast use {
    vstd::multiset::group_multiset_axioms,
    vstd::multiset::lemma_multiset_empty_len,
    vstd::seq_lib::group_to_multiset_ensures,
};

/// The byte that separates lines in a captured stream.
pub const NEWLINE: u8 = 0x0a;

/// Appends a final newline unless the stream is empty or already ends with one.
pub open spec fn ensure_newline_spec(s: Seq<u8>) -> Seq<u8> {
    if s.len() == 0 || s.last() == NEWLINE {
        s
    } else {
        s.push(NEWLINE)
    }
}

/// Guarantees that a non-empty stream ends with a newline, leaving an empty
/// stream untouched.
pub fn ensure_newline(bytes: &mut Vec<u8>)
    ensures
        final(bytes)@ == ensure_newline_spec(old(bytes)@),
{
    let n = bytes.len();
    if n > 0 && bytes[n - 1] != NEWLINE {
        bytes.push(NEWLINE);
    }
}

/// Position of the first newline byte, if any.
pub open spec fn line_break(s: Seq<u8>) -> Option<int>
    decreases s.len(),
{
    if s.len() == 0 {
        None
    } else if s.first() == NEWLINE {
        Some(0int)
    } else {
        match line_break(s.drop_first()) {
            None => None,
            Some(i) => Some(i + 1),
        }
    }
}

pub proof fn lemma_line_break(s: Seq<u8>)
    ensures
        match line_break(s) {
            None => forall|j: int| 0 <= j < s.len() ==> s[j] != NEWLINE,
            Some(i) => 0 <= i < s.len() && s[i] == NEWLINE && forall|j: int|
                0 <= j < i ==> s[j] != NEWLINE,
        },
    decreases s.len(),
{
    if s.len() > 0 && s.first() != NEWLINE {
        lemma_line_break(s.drop_first());
        match line_break(s.drop_first()) {
            None => {
                assert forall|j: int| 0 <= j < s.len() implies s[j] != NEWLINE by {
                    if j > 0 {
                        assert(s[j] == s.drop_first()[j - 1]);
                    }
                }
            },
            Some(i) => {
                assert forall|j: int| 0 <= j < i + 1 implies s[j] != NEWLINE by {
                    if j > 0 {
                        assert(s[j] == s.drop_first()[j - 1]);
                    }
                }
            },
        }
    }
}

pub proof fn lemma_line_break_at(s: Seq<u8>, i: int)
    requires
        0 <= i < s.len(),
        s[i] == NEWLINE,
        forall|j: int| 0 <= j < i ==> s[j] != NEWLINE,
    ensures
        line_break(s) == Some(i),
{
    lemma_line_break(s);
    match line_break(s) {
        None => {
            assert(false);
        },
        Some(k) => {
            if k < i {
                assert(s[k] != NEWLINE);
            } else if k > i {
                assert(s[i] != NEWLINE);
            }
        },
    }
}

/// True of a line: no newline byte occurs in it.
pub open spec fn no_newline(l: Seq<u8>) -> bool {
    forall|j: int| 0 <= j < l.len() ==> l[j] != NEWLINE
}

/// True of a list of lines: no line holds a newline byte.
pub open spec fn all_no_newline(ls: Seq<Seq<u8>>) -> bool {
    forall|k: int| 0 <= k < ls.len() ==> no_newline(#[trigger] ls[k])
}

pub proof fn lemma_line_break_none(s: Seq<u8>)
    requires
        no_newline(s),
    ensures
        line_break(s) is None,
{
    lemma_line_break(s);
    if let Some(i) = line_break(s) {
        assert(s[i] != NEWLINE);
    }
}

/// The lines of a stream: maximal newline-free segments. A stream with a
/// trailing newline yields a final empty segment, so that splitting inverts
/// joining exactly.
pub open spec fn split_lines(s: Seq<u8>) -> Seq<Seq<u8>>
    decreases s.len(),
    via split_lines_decreases
{
    match line_break(s) {
        None => seq![s],
        Some(i) => seq![s.take(i)] + split_lines(s.skip(i + 1)),
    }
}

#[via_fn]
proof fn split_lines_decreases(s: Seq<u8>) {
    lemma_line_break(s);
}

pub proof fn lemma_split_lines_props(s: Seq<u8>)
    ensures
        split_lines(s).len() >= 1,
        all_no_newline(split_lines(s)),
    decreases s.len(),
{
    lemma_line_break(s);
    match line_break(s) {
        None => {
            assert(split_lines(s) == seq![s]);
            assert(split_lines(s)[0] == s);
        },
        Some(i) => {
            lemma_split_lines_props(s.skip(i + 1));
            let head = s.take(i);
            assert(no_newline(head)) by {
                assert forall|j: int| 0 <= j < head.len() implies head[j] != NEWLINE by {
                    assert(head[j] == s[j]);
                }
            }
            assert forall|k: int| 0 <= k < split_lines(s).len() implies no_newline(
                #[trigger] split_lines(s)[k],
            ) by {
                if k == 0 {
                    assert(split_lines(s)[0] == head);
                } else {
                    assert(split_lines(s)[k] == split_lines(s.skip(i + 1))[k - 1]);
                }
            }
        },
    }
}

/// Joins lines with single newline separators; the inverse of `split_lines`.
pub open spec fn join_lines(ls: Seq<Seq<u8>>) -> Seq<u8>
    decreases ls.len(),
{
    if ls.len() == 0 {
        Seq::empty()
    } else if ls.len() == 1 {
        ls.first()
    } else {
        ls.first() + seq![NEWLINE] + join_lines(ls.drop_first())
    }
}

pub proof fn lemma_join_append(ls: Seq<Seq<u8>>, x: Seq<u8>)
    ensures
        join_lines(ls.push(x)) == if ls.len() == 0 {
            x
        } else {
            join_lines(ls) + seq![NEWLINE] + x
        },
    decreases ls.len(),
{
    let p = ls.push(x);
    if ls.len() == 0 {
        assert(p.len() == 1);
        assert(join_lines(p) == p.first());
        assert(p.first() == x);
    } else if ls.len() == 1 {
        assert(p.first() == ls.first());
        assert(p.drop_first() =~= seq![x]);
        assert(join_lines(p.drop_first()) == x);
    } else {
        assert(p.first() == ls.first());
        assert(p.drop_first() =~= ls.drop_first().push(x));
        lemma_join_append(ls.drop_first(), x);
    }
}

pub proof fn lemma_split_join(ls: Seq<Seq<u8>>)
    requires
        ls.len() >= 1,
        all_no_newline(ls),
    ensures
        split_lines(join_lines(ls)) == ls,
    decreases ls.len(),
{
    let s = join_lines(ls);
    if ls.len() == 1 {
        assert(s == ls.first());
        assert(no_newline(s));
        lemma_line_break_none(s);
        assert(split_lines(s) =~= ls);
    } else {
        let head = ls.first();
        let rest = join_lines(ls.drop_first());
        assert(s == head + seq![NEWLINE] + rest);
        assert(s[head.len() as int] == NEWLINE);
        assert forall|j: int| 0 <= j < head.len() implies s[j] != NEWLINE by {
            assert(s[j] == head[j]);
            assert(no_newline(head));
        }
        lemma_line_break_at(s, head.len() as int);
        assert(s.take(head.len() as int) =~= head);
        assert(s.skip(head.len() as int + 1) =~= rest);
        assert(all_no_newline(ls.drop_first())) by {
            assert forall|k: int| 0 <= k < ls.drop_first().len() implies no_newline(
                #[trigger] ls.drop_first()[k],
            ) by {
                assert(ls.drop_first()[k] == ls[k + 1]);
            }
        }
        lemma_split_join(ls.drop_first());
        assert(split_lines(s) =~= ls) by {
            assert(split_lines(s) == seq![head] + split_lines(rest));
            assert(split_lines(rest) == ls.drop_first());
        }
    }
}

/// Splits a stream into its lines.
#[verifier::loop_isolation(false)]
pub fn split_stream(s: &Vec<u8>) -> (r: Vec<Vec<u8>>)
    ensures
        views(r@) == split_lines(s@),
{
    let mut out: Vec<Vec<u8>> = Vec::new();
    let mut cur: Vec<u8> = Vec::new();
    let mut i: usize = 0;
    proof {
        assert(cur@ + s@.skip(0) =~= s@);
        assert(views(out@) + split_lines(s@) =~= split_lines(s@));
    }
    while i < s.len()
        invariant
            i <= s.len(),
            no_newline(cur@),
            split_lines(s@) == views(out@) + split_lines(cur@ + s@.skip(i as int)),
        decreases s.len() - i,
    {
        let b = s[i];
        let ghost mid = cur@ + s@.skip(i as int);
        proof {
            assert(mid[cur@.len() as int] == s@[i as int]);
        }
        if b == NEWLINE {
            proof {
                assert forall|j: int| 0 <= j < cur@.len() implies mid[j] != NEWLINE by {
                    assert(mid[j] == cur@[j]);
                }
                lemma_line_break_at(mid, cur@.len() as int);
                assert(mid.take(cur@.len() as int) =~= cur@);
                assert(mid.skip(cur@.len() as int + 1) =~= s@.skip(i + 1));
                assert(split_lines(mid) == seq![cur@] + split_lines(s@.skip(i + 1)));
            }
            let ghost pre_out = out@;
            out.push(cur);
            cur = Vec::new();
            proof {
                assert(views(out@) + split_lines(cur@ + s@.skip(i + 1)) =~= split_lines(s@)) by {
                    assert(views(out@) =~= views(pre_out) + seq![out@[pre_out.len() as int]@]);
                    assert(cur@ + s@.skip(i + 1) =~= s@.skip(i + 1));
                }
            }
        } else {
            proof {
                assert(cur@.push(b) + s@.skip(i + 1) =~= mid);
                assert forall|j: int| 0 <= j < cur@.push(b).len() implies cur@.push(b)[j]
                    != NEWLINE by {
                    if j < cur@.len() {
                        assert(cur@.push(b)[j] == cur@[j]);
                    }
                }
            }
            cur.push(b);
        }
        i = i + 1;
    }
    proof {
        assert(cur@ + s@.skip(i as int) =~= cur@);
        lemma_line_break_none(cur@);
        assert(split_lines(cur@) == seq![cur@]);
    }
    let ghost pre_out = out@;
    out.push(cur);
    proof {
        assert(views(out@) =~= views(pre_out) + seq![out@[pre_out.len() as int]@]);
        assert(views(out@) =~= split_lines(s@));
    }
    out
}

/// Joins lines back into one stream, newline-separated.
#[verifier::loop_isolation(false)]
pub fn join_stream(lines: &Vec<Vec<u8>>) -> (r: Vec<u8>)
    ensures
        r@ == join_lines(views(lines@)),
{
    let mut out: Vec<u8> = Vec::new();
    let mut i: usize = 0;
    proof {
        assert(views(lines@).take(0) =~= Seq::<Seq<u8>>::empty());
    }
    while i < lines.len()
        invariant
            i <= lines.len(),
            out@ == join_lines(views(lines@).take(i as int)),
        decreases lines.len() - i,
    {
        proof {
            lemma_join_append(views(lines@).take(i as int), views(lines@)[i as int]);
            assert(views(lines@).take(i + 1) =~= views(lines@).take(i as int).push(
                views(lines@)[i as int],
            ));
        }
        if i > 0 {
            out.push(NEWLINE);
        }
        let ghost pre = out@;
        let line = &lines[i];
        let mut j: usize = 0;
        while j < line.len()
            invariant
                j <= line.len(),
                out@ == pre + line@.take(j as int),
            decreases line.len() - j,
        {
            out.push(line[j]);
            proof {
                assert(pre + line@.take(j + 1) =~= (pre + line@.take(j as int)).push(
                    line@[j as int],
                ));
            }
            j = j + 1;
        }
        proof {
            assert(line@.take(line@.len() as int) =~= line@);
            assert(out@ == join_lines(views(lines@).take(i + 1)));
        }
        i = i + 1;
    }
    proof {
        assert(views(lines@).take(lines@.len() as int) =~= views(lines@));
    }
    out
}

/// Whether a line is a whitespace-free `NAME=VALUE` assignment, as decided by
/// the matcher in `is_env_assignment`. Only nonempty lines can qualify.
pub uninterp spec fn env_assignment_match(s: Seq<u8>) -> bool;

/// Whether a line is an export declaration `declare -x NAME`, as decided by
/// the matcher in `is_export_decl`. Only nonempty lines can qualify.
pub uninterp spec fn export_decl_match(s: Seq<u8>) -> bool;

/// An environment-assignment line.
pub open spec fn env_line(l: Seq<u8>) -> bool {
    l.len() > 0 && env_assignment_match(l)
}

/// An export-declaration line.
pub open spec fn export_line(l: Seq<u8>) -> bool {
    l.len() > 0 && export_decl_match(l)
}

/// A line whose position carries no information: environment listings and
/// export listings come in an order that differs between shells and between
/// runs, so runs of such lines are sorted before comparison.
pub open spec fn sortable(l: Seq<u8>) -> bool {
    env_line(l) || export_line(l)
}

/// Relies on regex's `Regex::is_match` with the anchored pattern `^\S+=\S*$`:
/// true exactly of whitespace-free `NAME=VALUE` lines. The result is a
/// function of the line alone; an empty line cannot match, since the pattern
/// demands at least one character before the `=`.
#[verifier::external_body]
fn is_env_assignment(line: &[u8]) -> (r: bool)
    ensures
        r == (line@.len() > 0 && env_assignment_match(line@)),
{
    let text = String::from_utf8_lossy(line);
    regex::Regex::new(r"^\S+=\S*$").unwrap().is_match(&text)
}

/// Relies on regex's `Regex::is_match` with the anchored pattern
/// `^declare -x \S+$`: true exactly of export-declaration lines. The result is
/// a function of the line alone; an empty line cannot match.
#[verifier::external_body]
fn is_export_decl(line: &[u8]) -> (r: bool)
    ensures
        r == (line@.len() > 0 && export_decl_match(line@)),
{
    let text = String::from_utf8_lossy(line);
    regex::Regex::new(r"^declare -x \S+$").unwrap().is_match(&text)
}

/// Decides whether a line belongs to a sortable run.
fn is_sortable(line: &Vec<u8>) -> (r: bool)
    ensures
        r == sortable(line@),
{
    is_env_assignment(line.as_slice()) || is_export_decl(line.as_slice())
}

/// Canonical line order: lines are taken in turn; maximal runs of sortable
/// lines are emitted in sorted order, other lines pass through in place and
/// end the current run. `pending` holds the sortable run read so far.
pub open spec fn norm_aux(ls: Seq<Seq<u8>>, pending: Seq<Seq<u8>>) -> Seq<Seq<u8>>
    decreases ls.len(),
{
    if ls.len() == 0 {
        sort_run(pending)
    } else if sortable(ls.first()) {
        norm_aux(ls.drop_first(), pending.push(ls.first()))
    } else {
        sort_run(pending) + seq![ls.first()] + norm_aux(ls.drop_first(), Seq::empty())
    }
}

/// The lines of a stream after canonical reordering.
pub open spec fn norm_lines(ls: Seq<Seq<u8>>) -> Seq<Seq<u8>> {
    norm_aux(ls, Seq::empty())
}

/// A whole stream after canonical line reordering.
pub open spec fn sort_env_spec(s: Seq<u8>) -> Seq<u8> {
    join_lines(norm_lines(split_lines(s)))
}

/// Full normalization: canonical line order, then trailing-newline repair.
pub open spec fn normalize_spec(s: Seq<u8>) -> Seq<u8> {
    ensure_newline_spec(sort_env_spec(s))
}

/// Sorts every maximal run of environment-listing lines in place, leaving
/// ordinary lines where they stand.
#[verifier::loop_isolation(false)]
pub fn sort_env(bytes: &mut Vec<u8>)
    ensures
        final(bytes)@ == sort_env_spec(old(bytes)@),
{
    let ghost all: Seq<Seq<u8>> = split_lines(old(bytes)@);
    let mut lines = split_stream(bytes);
    let mut out: Vec<Vec<u8>> = Vec::new();
    let mut pending: Vec<Vec<u8>> = Vec::new();
    proof {
        assert(views(pending@) =~= Seq::<Seq<u8>>::empty());
        assert(views(lines@) == all);
        assert(views(out@) + norm_aux(views(lines@), views(pending@)) =~= norm_lines(all));
    }
    while lines.len() > 0
        invariant
            norm_lines(all) == views(out@) + norm_aux(views(lines@), views(pending@)),
        decreases lines.len(),
    {
        let ghost pre_lines = views(lines@);
        let ghost pre_pending = views(pending@);
        let line = lines.remove(0);
        proof {
            assert(pre_lines.first() == line@);
            assert(views(lines@) =~= pre_lines.drop_first());
        }
        if is_sortable(&line) {
            pending.push(line);
            proof {
                assert(views(pending@) =~= pre_pending.push(line@));
            }
        } else {
            let mut sorted = sort_lines(pending);
            let ghost pre_out = views(out@);
            out.append(&mut sorted);
            out.push(line);
            pending = Vec::new();
            proof {
                assert(views(pending@) =~= Seq::<Seq<u8>>::empty());
                assert(views(out@) =~= pre_out + sort_run(pre_pending) + seq![line@]);
                assert(norm_aux(pre_lines, pre_pending) == sort_run(pre_pending) + seq![line@]
                    + norm_aux(views(lines@), views(pending@)));
                assert(views(out@) + norm_aux(views(lines@), views(pending@)) =~= pre_out
                    + norm_aux(pre_lines, pre_pending));
            }
        }
    }
    let mut sorted = sort_lines(pending);
    let ghost pre_out = views(out@);
    out.append(&mut sorted);
    proof {
        assert(views(lines@).len() == 0);
        assert(norm_aux(views(lines@), views(pending@)) == sort_run(views(pending@)));
        assert(views(out@) =~= pre_out + sort_run(views(pending@)));
        assert(views(out@) =~= norm_lines(all));
    }
    let joined = join_stream(&out);
    *bytes = joined;
}

/// True of a list of lines: each belongs to a sortable run.
pub open spec fn all_sortable(ls: Seq<Seq<u8>>) -> bool {
    forall|k: int| 0 <= k < ls.len() ==> sortable(#[trigger] ls[k])
}

proof fn lemma_sort_run_empty()
    ensures
        sort_run(Seq::<Seq<u8>>::empty()) == Seq::<Seq<u8>>::empty(),
{
    crate::order::lemma_sort_run_ensures(Seq::<Seq<u8>>::empty());
    assert(sort_run(Seq::<Seq<u8>>::empty()) =~= Seq::<Seq<u8>>::empty());
}

proof fn lemma_sort_run_membership(p: Seq<Seq<u8>>)
    ensures
        forall|x: Seq<u8>| #[trigger] sort_run(p).contains(x) ==> p.contains(x),
{
    crate::order::lemma_sort_run_ensures(p);
    sort_run(p).to_multiset_ensures();
    p.to_multiset_ensures();
    assert forall|x: Seq<u8>| #[trigger] sort_run(p).contains(x) implies p.contains(x) by {
        assert(sort_run(p).to_multiset().count(x) > 0);
        assert(p.to_multiset().count(x) > 0);
    }
}

proof fn lemma_sort_run_all_sortable(p: Seq<Seq<u8>>)
    requires
        all_sortable(p),
    ensures
        all_sortable(sort_run(p)),
{
    lemma_sort_run_membership(p);
    assert forall|k: int| 0 <= k < sort_run(p).len() implies sortable(
        #[trigger] sort_run(p)[k],
    ) by {
        let x = sort_run(p)[k];
        assert(sort_run(p).contains(x));
        assert(p.contains(x));
        let j = choose|j: int| 0 <= j < p.len() && p[j] == x;
        assert(sortable(p[j]));
    }
}

proof fn lemma_sort_run_no_newline(p: Seq<Seq<u8>>)
    requires
        all_no_newline(p),
    ensures
        all_no_newline(sort_run(p)),
{
    lemma_sort_run_membership(p);
    assert forall|k: int| 0 <= k < sort_run(p).len() implies no_newline(
        #[trigger] sort_run(p)[k],
    ) by {
        let x = sort_run(p)[k];
        assert(sort_run(p).contains(x));
        assert(p.contains(x));
        let j = choose|j: int| 0 <= j < p.len() && p[j] == x;
        assert(no_newline(p[j]));
    }
}

proof fn lemma_sort_run_idempotent(p: Seq<Seq<u8>>)
    ensures
        sort_run(sort_run(p)) == sort_run(p),
{
    crate::order::lemma_sort_run_ensures(p);
    crate::order::lemma_sorted_run_is_sort(sort_run(p), sort_run(p));
}

pub proof fn lemma_norm_aux_len(ls: Seq<Seq<u8>>, p: Seq<Seq<u8>>)
    ensures
        norm_aux(ls, p).len() == ls.len() + p.len(),
    decreases ls.len(),
{
    crate::order::lemma_sort_run_ensures(p);
    if ls.len() > 0 {
        if sortable(ls.first()) {
            lemma_norm_aux_len(ls.drop_first(), p.push(ls.first()));
        } else {
            lemma_norm_aux_len(ls.drop_first(), Seq::empty());
        }
    }
}

pub proof fn lemma_norm_aux_no_newline(ls: Seq<Seq<u8>>, p: Seq<Seq<u8>>)
    requires
        all_no_newline(ls),
        all_no_newline(p),
    ensures
        all_no_newline(norm_aux(ls, p)),
    decreases ls.len(),
{
    lemma_sort_run_no_newline(p);
    if ls.len() == 0 {
    } else {
        let f = ls.first();
        assert(no_newline(f));
        assert(all_no_newline(ls.drop_first())) by {
            assert forall|k: int| 0 <= k < ls.drop_first().len() implies no_newline(
                #[trigger] ls.drop_first()[k],
            ) by {
                assert(ls.drop_first()[k] == ls[k + 1]);
            }
        }
        if sortable(f) {
            assert(all_no_newline(p.push(f))) by {
                assert forall|k: int| 0 <= k < p.push(f).len() implies no_newline(
                    #[trigger] p.push(f)[k],
                ) by {
                    if k < p.len() {
                        assert(p.push(f)[k] == p[k]);
                    }
                }
            }
            lemma_norm_aux_no_newline(ls.drop_first(), p.push(f));
        } else {
            lemma_norm_aux_no_newline(ls.drop_first(), Seq::empty());
            let r = sort_run(p) + seq![f] + norm_aux(ls.drop_first(), Seq::empty());
            assert forall|k: int| 0 <= k < r.len() implies no_newline(#[trigger] r[k]) by {
                if k < sort_run(p).len() {
                    assert(r[k] == sort_run(p)[k]);
                } else if k == sort_run(p).len() {
                    assert(r[k] == f);
                } else {
                    assert(r[k] == norm_aux(ls.drop_first(), Seq::empty())[k - sort_run(p).len()
                        - 1]);
                }
            }
        }
    }
}

/// Reading a block of sortable lines only extends the pending run.
proof fn lemma_norm_absorb(m: Seq<Seq<u8>>, rest: Seq<Seq<u8>>, p: Seq<Seq<u8>>)
    requires
        all_sortable(m),
    ensures
        norm_aux(m + rest, p) == norm_aux(rest, p + m),
    decreases m.len(),
{
    if m.len() == 0 {
        assert(m + rest =~= rest);
        assert(p + m =~= p);
    } else {
        let f = m.first();
        assert(sortable(f));
        assert((m + rest).first() == f);
        assert((m + rest).drop_first() =~= m.drop_first() + rest);
        assert(all_sortable(m.drop_first())) by {
            assert forall|k: int| 0 <= k < m.drop_first().len() implies sortable(
                #[trigger] m.drop_first()[k],
            ) by {
                assert(m.drop_first()[k] == m[k + 1]);
            }
        }
        lemma_norm_absorb(m.drop_first(), rest, p.push(f));
        assert(p.push(f) + m.drop_first() =~= p + m);
    }
}

/// The canonical order depends on the pending run only through its multiset.
proof fn lemma_norm_pending_multiset(ls: Seq<Seq<u8>>, p1: Seq<Seq<u8>>, p2: Seq<Seq<u8>>)
    requires
        p1.to_multiset() == p2.to_multiset(),
    ensures
        norm_aux(ls, p1) == norm_aux(ls, p2),
    decreases ls.len(),
{
    assert(sort_run(p1) == sort_run(p2)) by {
        crate::order::lemma_sort_run_ensures(p1);
        crate::order::lemma_sorted_run_is_sort(p2, sort_run(p1));
    }
    if ls.len() > 0 {
        let f = ls.first();
        if sortable(f) {
            assert(p1.push(f).to_multiset() == p2.push(f).to_multiset()) by {
                p1.to_multiset_ensures();
                p2.to_multiset_ensures();
            }
            lemma_norm_pending_multiset(ls.drop_first(), p1.push(f), p2.push(f));
        }
    }
}

/// A canonically ordered line list is a fixed point of reordering, also after
/// an empty line is appended to it.
proof fn lemma_norm_aux_stable(ls: Seq<Seq<u8>>, p: Seq<Seq<u8>>, tail: Seq<Seq<u8>>)
    requires
        all_sortable(p),
        tail == Seq::<Seq<u8>>::empty() || tail == seq![Seq::<u8>::empty()],
    ensures
        norm_aux(norm_aux(ls, p) + tail, Seq::empty()) == norm_aux(ls, p) + tail,
    decreases ls.len(),
{
    if ls.len() == 0 {
        lemma_sort_run_all_sortable(p);
        lemma_norm_absorb(sort_run(p), tail, Seq::empty());
        assert(Seq::<Seq<u8>>::empty() + sort_run(p) =~= sort_run(p));
        lemma_sort_run_idempotent(p);
        if tail.len() == 0 {
            assert(norm_aux(tail, sort_run(p)) == sort_run(sort_run(p)));
            assert(sort_run(p) + tail =~= sort_run(p));
        } else {
            let e = tail.first();
            assert(e == Seq::<u8>::empty());
            assert(!sortable(e));
            assert(tail.drop_first() =~= Seq::<Seq<u8>>::empty());
            lemma_sort_run_empty();
            assert(norm_aux(tail, sort_run(p)) == sort_run(sort_run(p)) + seq![e] + norm_aux(
                Seq::empty(),
                Seq::empty(),
            ));
            assert(sort_run(p) + seq![e] + Seq::<Seq<u8>>::empty() =~= sort_run(p) + tail);
        }
    } else if sortable(ls.first()) {
        let f = ls.first();
        assert(all_sortable(p.push(f))) by {
            assert forall|k: int| 0 <= k < p.push(f).len() implies sortable(
                #[trigger] p.push(f)[k],
            ) by {
                if k < p.len() {
                    assert(p.push(f)[k] == p[k]);
                }
            }
        }
        lemma_norm_aux_stable(ls.drop_first(), p.push(f), tail);
    } else {
        let f = ls.first();
        let rest = norm_aux(ls.drop_first(), Seq::empty());
        assert(norm_aux(ls, p) == sort_run(p) + seq![f] + rest);
        lemma_sort_run_all_sortable(p);
        assert((sort_run(p) + seq![f] + rest) + tail =~= sort_run(p) + (seq![f] + (rest + tail)));
        lemma_norm_absorb(sort_run(p), seq![f] + (rest + tail), Seq::empty());
        assert(Seq::<Seq<u8>>::empty() + sort_run(p) =~= sort_run(p));
        assert((seq![f] + (rest + tail)).first() == f);
        assert((seq![f] + (rest + tail)).drop_first() =~= rest + tail);
        lemma_sort_run_idempotent(p);
        assert(all_sortable(Seq::<Seq<u8>>::empty()));
        lemma_norm_aux_stable(ls.drop_first(), Seq::empty(), tail);
        assert(norm_aux(norm_aux(ls, p) + tail, Seq::empty()) == sort_run(sort_run(p)) + seq![f]
            + norm_aux(rest + tail, Seq::empty()));
        assert(sort_run(p) + seq![f] + (rest + tail) =~= (sort_run(p) + seq![f] + rest) + tail);
    }
}

/// Normalization is idempotent: normalizing an already-normalized stream
/// yields that stream unchanged.
#[verifier::rlimit(60)]
pub proof fn lemma_normalize_idempotent(s: Seq<u8>)
    ensures
        normalize_spec(normalize_spec(s)) == normalize_spec(s),
{
    let ls = split_lines(s);
    lemma_split_lines_props(s);
    let nls = norm_lines(ls);
    lemma_norm_aux_len(ls, Seq::empty());
    lemma_norm_aux_no_newline(ls, Seq::empty());
    let y = join_lines(nls);
    assert(normalize_spec(s) == ensure_newline_spec(y));
    if y.len() == 0 {
        assert(normalize_spec(s) == y);
        let e = Seq::<u8>::empty();
        assert(y == e);
        lemma_line_break_none(e);
        assert(split_lines(e) == seq![e]);
        assert(!sortable(e));
        assert(seq![e].first() == e);
        assert(seq![e].drop_first() =~= Seq::<Seq<u8>>::empty());
        lemma_sort_run_empty();
        assert(norm_lines(seq![e]) == sort_run(Seq::empty()) + seq![e] + norm_aux(
            Seq::empty(),
            Seq::empty(),
        ));
        assert(norm_lines(seq![e]) =~= seq![e]);
        assert(join_lines(seq![e]) == e);
        assert(normalize_spec(e) == e);
    } else if y.last() == NEWLINE {
        assert(normalize_spec(s) == y);
        lemma_split_join(nls);
        assert(split_lines(y) == nls);
        lemma_norm_aux_stable(ls, Seq::empty(), Seq::empty());
        assert(nls + Seq::<Seq<u8>>::empty() =~= nls);
        assert(norm_lines(nls) == nls);
        assert(sort_env_spec(y) == y);
        assert(normalize_spec(y) == y);
    } else {
        let z = y.push(NEWLINE);
        assert(normalize_spec(s) == z);
        let e = Seq::<u8>::empty();
        let nls2 = nls.push(e);
        lemma_join_append(nls, e);
        assert(join_lines(nls2) == y + seq![NEWLINE] + e);
        assert(join_lines(nls2) =~= z);
        assert(all_no_newline(nls2)) by {
            assert forall|k: int| 0 <= k < nls2.len() implies no_newline(#[trigger] nls2[k]) by {
                if k < nls.len() {
                    assert(nls2[k] == nls[k]);
                }
            }
        }
        lemma_split_join(nls2);
        assert(split_lines(z) == nls2);
        lemma_norm_aux_stable(ls, Seq::empty(), seq![e]);
        assert(nls + seq![e] =~= nls2);
        assert(norm_lines(nls2) == nls2);
        assert(sort_env_spec(z) == z);
        assert(z.last() == NEWLINE);
        assert(normalize_spec(z) == z);
    }
}

proof fn lemma_norm_permute(
    pre: Seq<Seq<u8>>,
    m1: Seq<Seq<u8>>,
    m2: Seq<Seq<u8>>,
    suf: Seq<Seq<u8>>,
    p: Seq<Seq<u8>>,
)
    requires
        m1.to_multiset() == m2.to_multiset(),
        all_sortable(m1),
        all_sortable(m2),
    ensures
        norm_aux(pre + m1 + suf, p) == norm_aux(pre + m2 + suf, p),
    decreases pre.len(),
{
    if pre.len() == 0 {
        assert(pre + m1 + suf =~= m1 + suf);
        assert(pre + m2 + suf =~= m2 + suf);
        lemma_norm_absorb(m1, suf, p);
        lemma_norm_absorb(m2, suf, p);
        vstd::seq_lib::lemma_multiset_commutative(p, m1);
        vstd::seq_lib::lemma_multiset_commutative(p, m2);
        assert((p + m1).to_multiset() == (p + m2).to_multiset());
        lemma_norm_pending_multiset(suf, p + m1, p + m2);
    } else {
        let f = pre.first();
        assert((pre + m1 + suf).first() == f);
        assert((pre + m2 + suf).first() == f);
        assert((pre + m1 + suf).drop_first() =~= pre.drop_first() + m1 + suf);
        assert((pre + m2 + suf).drop_first() =~= pre.drop_first() + m2 + suf);
        if sortable(f) {
            lemma_norm_permute(pre.drop_first(), m1, m2, suf, p.push(f));
        } else {
            lemma_norm_permute(pre.drop_first(), m1, m2, suf, Seq::empty());
        }
    }
}

/// Normalization is order-insensitive on sortable blocks: permuting the lines
/// of one contiguous block of environment-listing lines before normalizing
/// leaves the normalized stream unchanged.
pub proof fn lemma_normalize_order_insensitive(
    x1: Seq<u8>,
    x2: Seq<u8>,
    pre: Seq<Seq<u8>>,
    m1: Seq<Seq<u8>>,
    m2: Seq<Seq<u8>>,
    suf: Seq<Seq<u8>>,
)
    requires
        split_lines(x1) == pre + m1 + suf,
        split_lines(x2) == pre + m2 + suf,
        m1.to_multiset() == m2.to_multiset(),
        all_sortable(m1),
        all_sortable(m2),
    ensures
        normalize_spec(x1) == normalize_spec(x2),
{
    lemma_norm_permute(pre, m1, m2, suf, Seq::empty());
    assert(norm_lines(split_lines(x1)) == norm_lines(split_lines(x2)));
}

} // verus!
