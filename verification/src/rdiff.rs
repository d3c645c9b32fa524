//! Line diffing: the longest-common-subsequence table and the walk that
//! turns it into a line-by-line diff.

use vstd::prelude::*;

use crate::grid::Grid;

verus! {

/// The larger of two numbers.
pub open spec fn max_nat(a: nat, b: nat) -> nat {
    if a >= b {
        a
    } else {
        b
    }
}

/// The length of the longest common subsequence of `a` and `b`.
pub open spec fn lcs_len(a: Seq<Seq<char>>, b: Seq<Seq<char>>) -> nat
    decreases a.len() + b.len(),
{
    if a.len() == 0 || b.len() == 0 {
        0
    } else if a.last() == b.last() {
        lcs_len(a.drop_last(), b.drop_last()) + 1
    } else {
        max_nat(lcs_len(a.drop_last(), b), lcs_len(a, b.drop_last()))
    }
}

/// The sequences' character views.
pub open spec fn views_of(v: Seq<String>) -> Seq<Seq<char>> {
    v.map_values(|s: String| s@)
}

/// A common subsequence is no longer than either sequence.
pub proof fn lemma_lcs_len_bound(a: Seq<Seq<char>>, b: Seq<Seq<char>>)
    ensures
        lcs_len(a, b) <= a.len(),
        lcs_len(a, b) <= b.len(),
    decreases a.len() + b.len(),
{
    if a.len() != 0 && b.len() != 0 {
        if a.last() == b.last() {
            lemma_lcs_len_bound(a.drop_last(), b.drop_last());
        } else {
            lemma_lcs_len_bound(a.drop_last(), b);
            lemma_lcs_len_bound(a, b.drop_last());
        }
    }
}

/// Fills the longest-common-subsequence table of the two line sequences:
/// cell `(i, j)` holds the length of the longest common subsequence of the
/// first `i` lines of `seq1` and the first `j` lines of `seq2`.
pub fn lcs(seq1: &Vec<String>, seq2: &Vec<String>) -> (c: Grid)
    requires
        (seq1@.len() + 1) * (seq2@.len() + 1) <= usize::MAX,
    ensures
        c.wf(),
        c.rows() == seq1@.len() + 1,
        c.cols() == seq2@.len() + 1,
        forall|i: int, j: int|
            0 <= i <= seq1@.len() && 0 <= j <= seq2@.len() ==> c.cell(i, j) == lcs_len(
                views_of(seq1@).take(i),
                views_of(seq2@).take(j),
            ),
{
    let l1 = seq1.len();
    let l2 = seq2.len();
    proof {
        assert((l1 + 1) * 1 <= (l1 + 1) * (l2 + 1) && (l2 + 1) * 1 <= (l1 + 1) * (l2 + 1))
            by (nonlinear_arith)
            requires
                l1 >= 0,
                l2 >= 0,
        ;
    }
    let ghost va = views_of(seq1@);
    let ghost vb = views_of(seq2@);
    let mut c = Grid::new(l1 + 1, l2 + 1);
    proof {
        assert forall|i: int, j: int|
            0 <= i <= l1 && 0 <= j <= l2 && (i == 0 || j == 0) implies c.cell(i, j) == lcs_len(
            va.take(i),
            vb.take(j),
        ) by {
            if i == 0 {
                assert(va.take(0) =~= Seq::<Seq<char>>::empty());
            } else {
                assert(vb.take(0) =~= Seq::<Seq<char>>::empty());
            }
        }
    }
    let mut i: usize = 0;
    while i < l1
        invariant
            c.wf(),
            c.rows() == l1 + 1,
            c.cols() == l2 + 1,
            i <= l1,
            l1 == seq1@.len(),
            l2 == seq2@.len(),
            va == views_of(seq1@),
            vb == views_of(seq2@),
            forall|r: int| 0 <= r <= l1 ==> c.cell(r, 0) == 0,
            forall|r: int, j: int|
                0 <= r <= i && 0 <= j <= l2 ==> c.cell(r, j) == lcs_len(
                    va.take(r),
                    vb.take(j),
                ),
        decreases l1 - i,
    {
        let mut j: usize = 0;
        while j < l2
            invariant
                c.wf(),
                c.rows() == l1 + 1,
                c.cols() == l2 + 1,
                i < l1,
                j <= l2,
                l1 == seq1@.len(),
                l2 == seq2@.len(),
                va == views_of(seq1@),
                vb == views_of(seq2@),
                forall|r: int| 0 <= r <= l1 ==> c.cell(r, 0) == 0,
                forall|r: int, jj: int|
                    0 <= r <= i && 0 <= jj <= l2 ==> c.cell(r, jj) == lcs_len(
                        va.take(r),
                        vb.take(jj),
                    ),
                forall|jj: int|
                    0 <= jj <= j ==> c.cell(i + 1, jj) == lcs_len(
                        va.take(i + 1),
                        vb.take(jj),
                    ),
            decreases l2 - j,
        {
            proof {
                assert(va.take(i + 1).drop_last() =~= va.take(i as int));
                assert(vb.take(j + 1).drop_last() =~= vb.take(j as int));
                assert(va.take(i + 1).last() == seq1@[i as int]@);
                assert(vb.take(j + 1).last() == seq2@[j as int]@);
                lemma_lcs_len_bound(va.take(i as int), vb.take(j as int));
            }
            if seq1[i] == seq2[j] {
                let v = c.get(i, j).unwrap();
                let _ = c.set(i + 1, j + 1, v + 1);
            } else {
                let above = c.get(i + 1, j).unwrap();
                let left = c.get(i, j + 1).unwrap();
                let m = if above > left {
                    above
                } else {
                    left
                };
                let _ = c.set(i + 1, j + 1, m);
            }
            j += 1;
        }
        i += 1;
    }
    c
}

/// One line of a diff.
#[derive(Clone, Copy, PartialEq, Eq, Structural, Debug)]
pub enum DiffKind {
    /// The line is common to both inputs.
    Same,
    /// The line appears only in the second input.
    Added,
    /// The line appears only in the first input.
    Removed,
}

/// One rendered diff line: its kind and its text.
pub struct DiffLine {
    pub kind: DiffKind,
    pub text: String,
}

/// The mathematical content of one diff line.
pub open spec fn diff_model(d: DiffLine) -> (DiffKind, Seq<char>) {
    (d.kind, d.text@)
}

/// The diff of the first `i` lines of `a` against the first `j` lines of
/// `b`, walked backwards through the filled table `c`.
pub open spec fn spec_diff(
    c: Grid,
    a: Seq<Seq<char>>,
    b: Seq<Seq<char>>,
    i: int,
    j: int,
) -> Seq<(DiffKind, Seq<char>)>
    decreases i + j,
{
    if i < 0 || j < 0 {
        seq![]
    } else if i == 0 && j == 0 {
        seq![]
    } else if i > 0 && j > 0 && a[i - 1] == b[j - 1] {
        spec_diff(c, a, b, i - 1, j - 1).push((DiffKind::Same, a[i - 1]))
    } else if j > 0 && (i == 0 || c.cell(i, j - 1) >= c.cell(i - 1, j)) {
        spec_diff(c, a, b, i, j - 1).push((DiffKind::Added, b[j - 1]))
    } else {
        spec_diff(c, a, b, i - 1, j).push((DiffKind::Removed, a[i - 1]))
    }
}

/// Walks the filled table backwards and renders the diff of the first `i`
/// lines of `lines1` against the first `j` lines of `lines2`, in order.
pub fn diff_lines(
    lcs_table: &Grid,
    lines1: &Vec<String>,
    lines2: &Vec<String>,
    i: usize,
    j: usize,
) -> (r: Vec<DiffLine>)
    requires
        lcs_table.wf(),
        i <= lines1@.len(),
        j <= lines2@.len(),
        lcs_table.rows() == lines1@.len() + 1,
        lcs_table.cols() == lines2@.len() + 1,
    ensures
        r@.map_values(|d: DiffLine| diff_model(d)) == spec_diff(
            *lcs_table,
            views_of(lines1@),
            views_of(lines2@),
            i as int,
            j as int,
        ),
    decreases i + j,
{
    let ghost va = views_of(lines1@);
    let ghost vb = views_of(lines2@);
    if i == 0 && j == 0 {
        let r: Vec<DiffLine> = Vec::new();
        proof {
            assert(r@.map_values(|d: DiffLine| diff_model(d)) =~= spec_diff(
                *lcs_table,
                va,
                vb,
                0,
                0,
            ));
        }
        return r;
    }
    if i > 0 && j > 0 && lines1[i - 1] == lines2[j - 1] {
        let mut r = diff_lines(lcs_table, lines1, lines2, i - 1, j - 1);
        let ghost pre = r@;
        r.push(DiffLine { kind: DiffKind::Same, text: lines1[i - 1].clone() });
        proof {
            assert(r@.map_values(|d: DiffLine| diff_model(d)) =~= pre.map_values(
                |d: DiffLine| diff_model(d),
            ).push((DiffKind::Same, va[i - 1])));
        }
        return r;
    }
    let go_left = if j > 0 {
        if i == 0 {
            true
        } else {
            let left = lcs_table.get(i, j - 1).unwrap();
            let up = lcs_table.get(i - 1, j).unwrap();
            left >= up
        }
    } else {
        false
    };
    if go_left {
        let mut r = diff_lines(lcs_table, lines1, lines2, i, j - 1);
        let ghost pre = r@;
        r.push(DiffLine { kind: DiffKind::Added, text: lines2[j - 1].clone() });
        proof {
            assert(r@.map_values(|d: DiffLine| diff_model(d)) =~= pre.map_values(
                |d: DiffLine| diff_model(d),
            ).push((DiffKind::Added, vb[j - 1])));
        }
        r
    } else {
        let mut r = diff_lines(lcs_table, lines1, lines2, i - 1, j);
        let ghost pre = r@;
        r.push(DiffLine { kind: DiffKind::Removed, text: lines1[i - 1].clone() });
        proof {
            assert(r@.map_values(|d: DiffLine| diff_model(d)) =~= pre.map_values(
                |d: DiffLine| diff_model(d),
            ).push((DiffKind::Removed, va[i - 1])));
        }
        r
    }
}

} // verus!
