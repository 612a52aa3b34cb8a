//! Matrix algebra over the runtime value model: generic transpose, the
//! dynamic-type matrix product, and LU decomposition with partial
//! pivoting, with the determinant and the inverse built on it.

use vstd::prelude::*;
use vstd::std_specs::cmp::PartialEqSpec;

use crate::exact_math::rationals::Rationals;
use crate::interpreting::environment::AssocMap;
use crate::interpreting::function::ram_view;
use crate::interpreting::function::default_fuel;
use crate::parsing::ast::ParamV;
use crate::parsing::ast::Parameters;
use crate::parsing::ast::pheight;
use crate::parsing::ast::pheight_seq;
use crate::parsing::ast::pview_seq;
use crate::parsing::ast::lemma_pview_seq;
use crate::parsing::ast::lemma_pheight_seq_elem;

verus! {

/// The element sequences of a sequence of vectors.
pub open spec fn vv_view<T>(m: Seq<Vec<T>>) -> Seq<Seq<T>> {
    m.map(|i: int, v: Vec<T>| v@)
}

/// A matrix with rows all of the first row's length.
pub open spec fn rectangular<T>(m: Seq<Seq<T>>) -> bool {
    forall|r: int| 0 <= r < m.len() ==> #[trigger] m[r].len() == m[0].len()
}

/// The transposed matrix: rows and columns swapped.
pub open spec fn transpose_spec<T>(m: Seq<Seq<T>>) -> Seq<Seq<T>> {
    Seq::new(m[0].len(), |c: int| Seq::new(m.len(), |r: int| m[r][c]))
}

/// Transposing twice gives the matrix back, for any rectangular matrix
/// with at least one row and one column.
pub proof fn lemma_transpose_involutive<T>(m: Seq<Seq<T>>)
    requires
        rectangular(m),
        m.len() > 0,
        m[0].len() > 0,
    ensures
        transpose_spec(transpose_spec(m)) =~~= m,
{
    let t = transpose_spec(m);
    assert(t.len() == m[0].len());
    assert(rectangular(t));
    assert forall|r: int| 0 <= r < m.len() implies #[trigger] transpose_spec(t)[r] =~= m[r] by {
        assert(transpose_spec(t)[r].len() == t.len());
        assert(forall|c: int| 0 <= c < t.len() ==> #[trigger] transpose_spec(t)[r][c] == m[r][c]);
    }
}

/// Row/column swap of an equal-length-row matrix, by moving each element;
/// no padding happens, so the rows must all have the first row's length.
#[verifier::loop_isolation(false)]
pub fn transpose<T>(matrix: Vec<Vec<T>>) -> (out: Vec<Vec<T>>)
    requires
        matrix@.len() > 0,
        rectangular(vv_view(matrix@)),
    ensures
        vv_view(out@) =~~= transpose_spec(vv_view(matrix@)),
{
    let ghost m0 = vv_view(matrix@);
    let num_cols: usize = matrix[0].len();
    let num_rows: usize = matrix.len();
    let mut rest = matrix;
    let mut out: Vec<Vec<T>> = Vec::new();
    let mut c: usize = 0;
    while c < num_cols
        invariant
            c <= num_cols,
            rest@.len() == num_rows,
            num_rows == m0.len(),
            num_cols == m0[0].len(),
            forall|r: int|
                0 <= r < num_rows ==> (#[trigger] rest@[r])@ =~= m0[r].skip(c as int),
            out@.len() == c,
            forall|cc: int|
                0 <= cc < c ==> (#[trigger] out@[cc])@ =~= Seq::new(
                    num_rows as nat,
                    |r: int| m0[r][cc],
                ),
        decreases num_cols - c,
    {
        let mut out_row: Vec<T> = Vec::new();
        let mut r: usize = 0;
        while r < num_rows
            invariant
                r <= num_rows,
                c < num_cols,
                rest@.len() == num_rows,
                num_rows == m0.len(),
                num_cols == m0[0].len(),
                forall|rr: int|
                    r <= rr < num_rows ==> (#[trigger] rest@[rr])@ =~= m0[rr].skip(c as int),
                forall|rr: int|
                    0 <= rr < r ==> (#[trigger] rest@[rr])@ =~= m0[rr].skip(c as int + 1),
                out_row@.len() == r,
                forall|rr: int| 0 <= rr < r ==> #[trigger] out_row@[rr] == m0[rr][c as int],
            decreases num_rows - r,
        {
            proof {
                assert(m0[r as int].len() == m0[0].len());
                assert(rest@[r as int]@.len() == m0[r as int].skip(c as int).len());
            }
            let row = &mut rest[r];
            let x = row.remove(0);
            proof {
                assert(m0[r as int].skip(c as int)[0] == m0[r as int][c as int]);
                assert(rest@[r as int]@ =~= m0[r as int].skip(c as int).subrange(
                    1,
                    m0[r as int].skip(c as int).len() as int,
                ));
                assert(m0[r as int].skip(c as int).subrange(
                    1,
                    m0[r as int].skip(c as int).len() as int,
                ) =~= m0[r as int].skip(c as int + 1));
            }
            out_row.push(x);
            r += 1;
        }
        out.push(out_row);
        c += 1;
    }
    proof {
        assert forall|cc: int| 0 <= cc < num_cols implies (#[trigger] vv_view(out@)[cc]) =~= transpose_spec(
            m0,
        )[cc] by {
            assert(vv_view(out@)[cc] == out@[cc]@);
        }
    }
    out
}

/// Whether every element of a value sequence is an evaluated vector.
pub open spec fn all_iv(s: Seq<ParamV>) -> bool {
    forall|i: int| 0 <= i < s.len() ==> s[i] is InterpreterVector
}

/// The element sequences of a sequence of evaluated vectors.
pub open spec fn rows_of(s: Seq<ParamV>) -> Seq<Seq<ParamV>> {
    s.map(|i: int, p: ParamV| p->InterpreterVector_0)
}

/// Each row wrapped back into an evaluated vector.
pub open spec fn iv_rows(s: Seq<Seq<ParamV>>) -> Seq<ParamV> {
    s.map(|i: int, row: Seq<ParamV>| ParamV::InterpreterVector(row))
}

/// The height of the highest row of a matrix.
pub open spec fn mrows_h(m: Seq<Seq<ParamV>>) -> nat
    decreases m,
{
    if m.len() == 0 {
        0
    } else {
        let h = pheight_seq(m[0]);
        let t = mrows_h(m.drop_first());
        if h > t {
            h
        } else {
            t
        }
    }
}

/// Rows extracted from a sequence of evaluated vectors sit strictly below
/// the sequence's own height.
pub proof fn lemma_rows_of_height(s: Seq<ParamV>)
    requires
        all_iv(s),
    ensures
        rows_of(s).len() == s.len(),
        s.len() > 0 ==> mrows_h(rows_of(s)) + 1 <= pheight_seq(s),
    decreases s.len(),
{
    if s.len() > 0 {
        assert(rows_of(s).drop_first() =~= rows_of(s.drop_first()));
        assert(forall|i: int|
            0 <= i < s.drop_first().len() ==> #[trigger] s.drop_first()[i] == s[i + 1]);
        assert(all_iv(s.drop_first()));
        lemma_rows_of_height(s.drop_first());
        assert(s[0] is InterpreterVector);
        assert(pheight(s[0]) == 1 + pheight_seq(s[0]->InterpreterVector_0));
        assert(rows_of(s)[0] == s[0]->InterpreterVector_0);
        assert(pheight(s[0]) <= pheight_seq(s));
        if s.drop_first().len() > 0 {
            assert(pheight_seq(s.drop_first()) <= pheight_seq(s));
        }
    }
}

/// The left fold of the running dot product: each step adds the product
/// of the next row element with the matching row's `j`-th entry.
pub open spec fn mm_sum_acc(
    acc: ParamV,
    row: Seq<ParamV>,
    bbm: Seq<Seq<ParamV>>,
    j: int,
    ram: Option<Map<Seq<char>, ParamV>>,
    fuel: nat,
) -> ParamV
    decreases fuel, 4 + pheight_seq(row) + mrows_h(bbm), row.len(),
{
    if row.len() == 0 || bbm.len() == 0 {
        acc
    } else {
        let cell = if 0 <= j < bbm[0].len() {
            bbm[0][j]
        } else {
            ParamV::Null
        };
        proof {
            if 0 <= j < bbm[0].len() {
                lemma_pheight_seq_elem(bbm[0], j);
            }
        }
        mm_sum_acc(
            crate::interpreting::function::add_spec(
                acc,
                crate::interpreting::function::mult_spec(row[0], cell, ram, fuel),
                ram,
                fuel,
            ),
            row.drop_first(),
            bbm.drop_first(),
            j,
            ram,
            fuel,
        )
    }
}

/// The first `p` entries of one result row of the matrix product.
pub open spec fn mm_row(
    row: Seq<ParamV>,
    bbm: Seq<Seq<ParamV>>,
    p: nat,
    ram: Option<Map<Seq<char>, ParamV>>,
    fuel: nat,
) -> Seq<ParamV>
    decreases fuel, 5 + pheight_seq(row) + mrows_h(bbm), p,
{
    if p == 0 {
        Seq::empty()
    } else {
        mm_row(row, bbm, (p - 1) as nat, ram, fuel).push(
            mm_sum_acc(ParamV::Null, row, bbm, p - 1, ram, fuel),
        )
    }
}

/// The rows of the matrix product, each of width `p`.
pub open spec fn mm_rows(
    aam: Seq<Seq<ParamV>>,
    bbm: Seq<Seq<ParamV>>,
    p: nat,
    ram: Option<Map<Seq<char>, ParamV>>,
    fuel: nat,
) -> Seq<Seq<ParamV>>
    decreases fuel, 6 + mrows_h(aam) + mrows_h(bbm), aam.len(),
{
    if aam.len() == 0 {
        Seq::empty()
    } else {
        seq![mm_row(aam[0], bbm, p, ram, fuel)] + mm_rows(aam.drop_first(), bbm, p, ram, fuel)
    }
}

/// Indexing the product rows.
pub proof fn lemma_mm_rows_index(
    aam: Seq<Seq<ParamV>>,
    bbm: Seq<Seq<ParamV>>,
    p: nat,
    ram: Option<Map<Seq<char>, ParamV>>,
    fuel: nat,
)
    ensures
        mm_rows(aam, bbm, p, ram, fuel).len() == aam.len(),
        forall|i: int|
            0 <= i < aam.len() ==> mm_rows(aam, bbm, p, ram, fuel)[i] == mm_row(
                aam[i],
                bbm,
                p,
                ram,
                fuel,
            ),
    decreases aam.len(),
{
    if aam.len() > 0 {
        lemma_mm_rows_index(aam.drop_first(), bbm, p, ram, fuel);
    }
}

/// Indexing one product row.
pub proof fn lemma_mm_row_index(
    row: Seq<ParamV>,
    bbm: Seq<Seq<ParamV>>,
    p: nat,
    ram: Option<Map<Seq<char>, ParamV>>,
    fuel: nat,
)
    ensures
        mm_row(row, bbm, p, ram, fuel).len() == p,
        forall|j: int|
            0 <= j < p ==> mm_row(row, bbm, p, ram, fuel)[j] == mm_sum_acc(
                ParamV::Null,
                row,
                bbm,
                j,
                ram,
                fuel,
            ),
    decreases p,
{
    if p > 0 {
        lemma_mm_row_index(row, bbm, (p - 1) as nat, ram, fuel);
    }
}

/// What the matrix product returns: the empty matrix where the row length
/// of the left matrix does not equal the row count of the right one, the
/// standard triple-loop product otherwise.
pub open spec fn mult_matrix_spec(
    aam: Seq<Seq<ParamV>>,
    bbm: Seq<Seq<ParamV>>,
    ram: Option<Map<Seq<char>, ParamV>>,
    fuel: nat,
) -> Seq<Seq<ParamV>> {
    if aam.len() == 0 || bbm.len() == 0 || aam[0].len() != bbm.len() {
        Seq::empty()
    } else {
        mm_rows(aam, bbm, bbm[0].len(), ram, fuel)
    }
}

/// The view of a matrix held as vectors of values.
pub open spec fn ppview(m: Seq<Vec<Parameters>>) -> Seq<Seq<ParamV>> {
    m.map(|i: int, v: Vec<Parameters>| pview_seq(v@))
}

#[verifier::loop_isolation(false)]
pub(crate) fn mult_matrix_fuel(
    a: &Vec<Vec<Parameters>>,
    b: &Vec<Vec<Parameters>>,
    ram: Option<&AssocMap<Parameters>>,
    fuel: u64,
) -> (res: Vec<Vec<Parameters>>)
    requires
        a@.len() > 0,
        rectangular(ppview(a@)),
        rectangular(ppview(b@)),
        ppview(a@)[0].len() == b@.len() ==> b@.len() > 0,
    ensures
        ppview(res@) =~~= mult_matrix_spec(ppview(a@), ppview(b@), ram_view(ram), fuel as nat),
    decreases fuel, 6 + mrows_h(ppview(a@)) + mrows_h(ppview(b@)), 0nat,
{
    let ghost aam = ppview(a@);
    let ghost bbm = ppview(b@);
    let ghost rv = ram_view(ram);
    proof {
        assert(forall|i: int| 0 <= i < a@.len() ==> aam[i] == pview_seq(a@[i]@));
        assert(forall|i: int| 0 <= i < b@.len() ==> bbm[i] == pview_seq(b@[i]@));
        lemma_pview_seq(a@[0]@);
    }
    let first: usize = a[0].len();
    let second: usize = b.len();
    if first != second {
        let empty: Vec<Vec<Parameters>> = Vec::new();
        proof {
            assert(ppview(empty@) =~= Seq::<Seq<ParamV>>::empty());
        }
        empty
    } else {
        let n: usize = a.len();
        let p: usize = b[0].len();
        proof {
            lemma_pview_seq(b@[0]@);
            lemma_mm_rows_index(aam, bbm, p as nat, rv, fuel as nat);
        }
        let mut res: Vec<Vec<Parameters>> = Vec::new();
        let mut i: usize = 0;
        while i < n
            invariant
                i <= n,
                res@.len() == i,
                forall|ii: int|
                    0 <= ii < i ==> pview_seq((#[trigger] res@[ii])@) == mm_rows(
                        aam,
                        bbm,
                        p as nat,
                        rv,
                        fuel as nat,
                    )[ii],
            decreases n - i,
        {
            proof {
                lemma_pview_seq(a@[i as int]@);
                lemma_mm_row_index(aam[i as int], bbm, p as nat, rv, fuel as nat);
            }
            let mut s: Vec<Parameters> = Vec::new();
            let mut j: usize = 0;
            while j < p
                invariant
                    j <= p,
                    i < n,
                    s@.len() == j,
                    pview_seq(s@).len() == j,
                    forall|jj: int|
                        0 <= jj < j ==> pview_seq(s@)[jj] == mm_row(
                            aam[i as int],
                            bbm,
                            p as nat,
                            rv,
                            fuel as nat,
                        )[jj],
                decreases p - j,
            {
                let mut sum: Parameters = Parameters::Null;
                let mut k: usize = 0;
                proof {
                    assert(aam[i as int].skip(0) =~= aam[i as int]);
                    assert(bbm.skip(0) =~= bbm);
                }
                while k < first
                    invariant
                        k <= first,
                        i < n,
                        j < p,
                        mm_sum_acc(
                            sum@,
                            aam[i as int].skip(k as int),
                            bbm.skip(k as int),
                            j as int,
                            rv,
                            fuel as nat,
                        ) == mm_sum_acc(
                            ParamV::Null,
                            aam[i as int],
                            bbm,
                            j as int,
                            rv,
                            fuel as nat,
                        ),
                    decreases first - k,
                {
                    proof {
                        lemma_pview_seq(a@[i as int]@);
                        lemma_pview_seq(b@[k as int]@);
                        lemma_pheight_seq_elem(aam[i as int], k as int);
                        crate::parsing::ast::lemma_pheight_seq_elem(bbm[k as int], j as int);
                        lemma_mrows_h_elem(bbm, k as int);
                        lemma_mrows_h_elem(aam, i as int);
                        assert(aam[i as int].skip(k as int)[0] == aam[i as int][k as int]);
                        assert(bbm.skip(k as int)[0] == bbm[k as int]);
                        assert(aam[i as int].skip(k as int).drop_first() =~= aam[i as int].skip(
                            k as int + 1,
                        ));
                        assert(bbm.skip(k as int).drop_first() =~= bbm.skip(k as int + 1));
                    }
                    let ea = a[i][k].deep_clone();
                    let eb = b[k][j].deep_clone();
                    let inter = crate::interpreting::function::mult_fuel(ea, eb, ram, fuel);
                    sum = crate::interpreting::function::add_fuel(sum, inter, ram, fuel);
                    k += 1;
                }
                proof {
                    assert(aam[i as int].skip(first as int) =~= Seq::<ParamV>::empty());
                    assert(bbm.skip(first as int) =~= Seq::<Seq<ParamV>>::empty());
                }
                let ghost pre = s@;
                s.push(sum);
                proof {
                    lemma_pview_seq(pre);
                    lemma_pview_seq(s@);
                    assert(s@.drop_last() =~= pre);
                    assert(forall|jj: int|
                        0 <= jj < j ==> pview_seq(s@)[jj] == pview_seq(pre)[jj]);
                }
                j += 1;
            }
            proof {
                assert(pview_seq(s@) =~= mm_row(aam[i as int], bbm, p as nat, rv, fuel as nat));
            }
            res.push(s);
            i += 1;
        }
        proof {
            assert(ppview(res@) =~~= mm_rows(aam, bbm, p as nat, rv, fuel as nat));
        }
        res
    }
}

/// The highest row bounds every row.
pub proof fn lemma_mrows_h_elem(m: Seq<Seq<ParamV>>, i: int)
    requires
        0 <= i < m.len(),
    ensures
        pheight_seq(m[i]) <= mrows_h(m),
    decreases m.len(),
{
    if i > 0 {
        lemma_mrows_h_elem(m.drop_first(), i - 1);
        assert(m.drop_first()[i - 1] == m[i]);
    }
}

/// At least `n` entries in each of the first `n` rows.
pub open spec fn square_rows(rows: Seq<Seq<ParamV>>, n: int) -> bool {
    forall|t: int| 0 <= t < n ==> (#[trigger] rows[t]).len() >= n
}

/// A zero-valued determinant, as the inversion's singularity test sees
/// it.
pub open spec fn singular_det(d: ParamV) -> bool {
    match d {
        ParamV::Int(v) => v == 0,
        ParamV::Float(f) => f.over == 0,
        ParamV::Rational(x) => x.over == 0,
        _ => false,
    }
}

/// The fresh permutation vector the determinant and inversion builtins
/// hand to the decomposition.
pub open spec fn zero_perm(n: int) -> Seq<ParamV> {
    Seq::new((n + 1) as nat, |t: int| ParamV::Int(0))
}

/// The fresh all-zero matrix the inversion builtin fills.
pub open spec fn zero_matrix(n: int) -> Seq<Seq<ParamV>> {
    Seq::new(n as nat, |t: int| Seq::new(n as nat, |u: int| ParamV::Int(0)))
}

/// What the determinant builtin computes on a square matrix of rows: the
/// decomposition, then the signed diagonal product; zero where the
/// decomposition aborts.
pub open spec fn det_on_rows(
    rows: Seq<Seq<ParamV>>,
    n: int,
    ram: Option<Map<Seq<char>, ParamV>>,
    fuel: nat,
) -> ParamV {
    let st = decomp_upto(rows, init_perm(zero_perm(n), n), 0, n, ram, fuel);
    if !st.2 {
        ParamV::Int(0)
    } else {
        let d = det_diag_fold(st.0, n as nat, ram, fuel);
        match st.1[n] {
            ParamV::Int(sw) => {
                if vstd::wrapping::i64_specs::wrapping_sub(sw, n as i64) % 2 == 0 {
                    d
                } else {
                    crate::interpreting::function::minus_spec(ParamV::Int(0), d, ram, fuel)
                }
            },
            _ => ParamV::Float(Rationals { under: 0, over: 0 }),
        }
    }
}

/// What the inversion builtin computes on a square matrix of rows: the
/// decomposition, the singularity checks, then both substitution passes
/// of every column into a fresh zero matrix.
pub open spec fn inverse_on_rows(
    rows: Seq<Seq<ParamV>>,
    n: int,
    ram: Option<Map<Seq<char>, ParamV>>,
    fuel: nat,
) -> ParamV {
    let st = decomp_upto(rows, init_perm(zero_perm(n), n), 0, n, ram, fuel);
    if !st.2 {
        ParamV::Null
    } else {
        let d = det_on_rows(rows, n, ram, fuel);
        if singular_det(d) {
            ParamV::Str("Determinant is zero, matrix is not invertible"@)
        } else {
            ParamV::InterpreterVector(
                iv_rows(invert_cols(st.0, st.1, zero_matrix(n), 0, n, ram, fuel)),
            )
        }
    }
}

/// Transposing commutes with taking views: the view of the transposed
/// value matrix is the transposed view matrix.
pub proof fn lemma_ppview_transpose(m: Seq<Vec<Parameters>>, out: Seq<Vec<Parameters>>)
    requires
        vv_view(out) =~~= transpose_spec(vv_view(m)),
        m.len() > 0,
        rectangular(vv_view(m)),
    ensures
        ppview(out) =~~= transpose_spec(ppview(m)),
{
    assert(forall|r: int| 0 <= r < m.len() ==> #[trigger] ppview(m)[r] == pview_seq(m[r]@));
    assert(forall|r: int|
        0 <= r < m.len() ==> (#[trigger] pview_seq(m[r]@)).len() == m[r]@.len()) by {
        assert forall|r: int|
            0 <= r < m.len() implies (#[trigger] pview_seq(m[r]@)).len() == m[r]@.len() by {
            lemma_pview_seq(m[r]@);
        }
    }
    assert(forall|c: int| 0 <= c < out.len() ==> #[trigger] ppview(out)[c] == pview_seq(out[c]@));
    assert(forall|c: int|
        0 <= c < out.len() ==> (#[trigger] pview_seq(out[c]@)).len() == out[c]@.len()) by {
        assert forall|c: int|
            0 <= c < out.len() implies (#[trigger] pview_seq(out[c]@)).len() == out[c]@.len() by {
            lemma_pview_seq(out[c]@);
        }
    }
    assert(vv_view(out).len() == out.len());
    assert forall|c: int| 0 <= c < ppview(out).len() implies #[trigger] ppview(out)[c]
        =~= transpose_spec(ppview(m))[c] by {
        lemma_pview_seq(out[c]@);
        assert(vv_view(out)[c] == transpose_spec(vv_view(m))[c]);
        assert(out[c]@ == vv_view(out)[c]);
        assert(out[c]@.len() == m.len());
        assert forall|r: int| 0 <= r < m.len() implies #[trigger] pview_seq(out[c]@)[r]
            == ppview(m)[r][c] by {
            lemma_pview_seq(m[r]@);
            assert(out[c]@[r]@ == pview_seq(out[c]@)[r]);
            assert(vv_view(out)[c][r] == out[c]@[r]);
            assert(vv_view(out)[c][r] == vv_view(m)[r][c]);
            assert(vv_view(m)[r][c] == m[r]@[c]);
            assert(m[r]@[c]@ == pview_seq(m[r]@)[c]);
        }
    }
}

/// The dynamic-type matrix product: fails to the empty matrix unless the
/// left row length equals the right row count, and otherwise computes the
/// standard triple-loop dot products through the numeric tower.
pub fn mult_matrix(
    a: Vec<Vec<Parameters>>,
    b: Vec<Vec<Parameters>>,
    ram: Option<&AssocMap<Parameters>>,
) -> (res: Vec<Vec<Parameters>>)
    requires
        a@.len() > 0,
        rectangular(ppview(a@)),
        rectangular(ppview(b@)),
        ppview(a@)[0].len() == b@.len() ==> b@.len() > 0,
    ensures
        ppview(res@) =~~= mult_matrix_spec(
            ppview(a@),
            ppview(b@),
            ram_view(ram),
            crate::interpreting::function::default_fuel(ram),
        ),
{
    let fuel = crate::interpreting::function::fuel_for(ram);
    mult_matrix_fuel(&a, &b, ram, fuel)
}


/// Numeric zero, as the pivot test sees it: the zero integer or a
/// decimal with zero numerator.
pub open spec fn pivot_is_zero(p: ParamV) -> bool {
    match p {
        ParamV::Int(v) => v == 0,
        ParamV::Float(f) => f.over == 0,
        _ => false,
    }
}

/// The pivot scan of column `i` from row `k`: the largest absolute value
/// seen (ties keep the earliest row) and its row index.
pub open spec fn pivot_scan(
    av: Seq<Seq<ParamV>>,
    i: int,
    k: int,
    n: int,
    best: ParamV,
    bidx: int,
    ram: Option<Map<Seq<char>, ParamV>>,
    fuel: nat,
) -> (ParamV, int)
    decreases n - k when k <= n
{
    if k >= n {
        (best, bidx)
    } else {
        let ab = crate::interpreting::function::abs_spec(av[k][i], ram, fuel);
        if crate::interpreting::function::greater_spec(ab, best, ram, fuel) == ParamV::Bool(true) {
            pivot_scan(av, i, k + 1, n, ab, k, ram, fuel)
        } else {
            pivot_scan(av, i, k + 1, n, best, bidx, ram, fuel)
        }
    }
}

/// One eliminated row: position `i` holds the multiplier, the positions
/// to its right up to `n` subtract the multiplier times the pivot row,
/// and everything else stays.
pub open spec fn elim_row(
    rowj: Seq<ParamV>,
    rowi: Seq<ParamV>,
    i: int,
    n: int,
    ram: Option<Map<Seq<char>, ParamV>>,
    fuel: nat,
) -> Seq<ParamV> {
    let m = crate::interpreting::function::divide_spec(rowj[i], rowi[i], ram, fuel);
    Seq::new(
        rowj.len(),
        |k2: int|
            if k2 == i {
                m
            } else if i < k2 < n {
                crate::interpreting::function::minus_spec(
                    rowj[k2],
                    crate::interpreting::function::mult_spec(m, rowi[k2], ram, fuel),
                    ram,
                    fuel,
                )
            } else {
                rowj[k2]
            },
    )
}

/// A partially eliminated row: as `elim_row`, but only the positions
/// strictly below `upto` have been subtracted yet.
pub open spec fn elim_partial(
    rowj: Seq<ParamV>,
    rowi: Seq<ParamV>,
    i: int,
    upto: int,
    n: int,
    ram: Option<Map<Seq<char>, ParamV>>,
    fuel: nat,
) -> Seq<ParamV> {
    let m = crate::interpreting::function::divide_spec(rowj[i], rowi[i], ram, fuel);
    Seq::new(
        rowj.len(),
        |k2: int|
            if k2 == i {
                m
            } else if i < k2 < upto {
                crate::interpreting::function::minus_spec(
                    rowj[k2],
                    crate::interpreting::function::mult_spec(m, rowi[k2], ram, fuel),
                    ram,
                    fuel,
                )
            } else {
                rowj[k2]
            },
    )
}

/// One column of the decomposition: pivot selection, the abort signal on
/// a numerically zero pivot, the row swap with its counter bump, and the
/// elimination of the rows below.
pub open spec fn decomp_step(
    av: Seq<Seq<ParamV>>,
    pv: Seq<ParamV>,
    i: int,
    n: int,
    ram: Option<Map<Seq<char>, ParamV>>,
    fuel: nat,
) -> (Seq<Seq<ParamV>>, Seq<ParamV>, bool) {
    let scan = pivot_scan(
        av,
        i,
        i,
        n,
        ParamV::Float(Rationals { under: 1, over: 0 }),
        0,
        ram,
        fuel,
    );
    if pivot_is_zero(scan.0) {
        (av, pv, false)
    } else {
        let im = scan.1;
        let a2 = if im != i {
            av.update(i, av[im]).update(im, av[i])
        } else {
            av
        };
        let p2 = if im != i {
            pv.update(i, pv[im]).update(im, pv[i]).update(
                n,
                crate::interpreting::function::add_spec(pv[n], ParamV::Int(1), ram, fuel),
            )
        } else {
            pv
        };
        let a3 = Seq::new(
            a2.len(),
            |j: int|
                if i < j < n {
                    elim_row(a2[j], a2[i], i, n, ram, fuel)
                } else {
                    a2[j]
                },
        );
        (a3, p2, true)
    }
}

/// The decomposition run from column `i` on: the final matrix and
/// permutation, and whether every pivot was usable.
pub open spec fn decomp_upto(
    av: Seq<Seq<ParamV>>,
    pv: Seq<ParamV>,
    i: int,
    n: int,
    ram: Option<Map<Seq<char>, ParamV>>,
    fuel: nat,
) -> (Seq<Seq<ParamV>>, Seq<ParamV>, bool)
    decreases n - i when i <= n
{
    if i >= n {
        (av, pv, true)
    } else {
        let st = decomp_step(av, pv, i, n, ram, fuel);
        if !st.2 {
            (st.0, st.1, false)
        } else {
            decomp_upto(st.0, st.1, i + 1, n, ram, fuel)
        }
    }
}

/// The permutation vector as the decomposition first writes it: the
/// identity on the first `n + 1` slots, the rest untouched.
pub open spec fn init_perm(pv: Seq<ParamV>, n: int) -> Seq<ParamV> {
    Seq::new(pv.len(), |t: int| if t <= n { ParamV::Int(t as i64) } else { pv[t] })
}

/// A value matrix holding at least `n` rows of at least `n` entries.
pub open spec fn shape_ok(m: Seq<Vec<Parameters>>, n: nat) -> bool {
    m.len() >= n && forall|r: int| 0 <= r < n ==> (#[trigger] m[r])@.len() >= n
}

/// A copy of one row with the same view.
fn clone_row(v: &Vec<Parameters>) -> (r: Vec<Parameters>)
    ensures
        pview_seq(r@) =~= pview_seq(v@),
        r@.len() == v@.len(),
{
    let mut row: Vec<Parameters> = Vec::new();
    let mut k: usize = 0;
    while k < v.len()
        invariant
            k <= v.len(),
            row@.len() == k,
            pview_seq(row@) =~= pview_seq(v@.subrange(0, k as int)),
        decreases v.len() - k,
    {
        let ghost pre = row@;
        row.push(v[k].deep_clone());
        proof {
            assert(row@.drop_last() =~= pre);
            assert(v@.subrange(0, k as int + 1).drop_last() =~= v@.subrange(0, k as int));
        }
        k += 1;
    }
    proof {
        assert(v@.subrange(0, v@.len() as int) =~= v@);
    }
    row
}

/// In-place LU decomposition with partial pivoting.  The permutation
/// vector records the row order, its last slot counting the swaps for the
/// determinant's sign.  Returns 0 where the best pivot of some column is
/// zero (the matrix is singular), 1 otherwise; the shapes of both
/// arguments are preserved.
#[verifier::loop_isolation(false)]
#[verifier::rlimit(100)]
#[verifier::spinoff_prover]
pub fn lup_decompose(
    a: &mut Vec<Vec<Parameters>>,
    p: &mut Vec<Parameters>,
    n: usize,
    ram: Option<&AssocMap<Parameters>>,
) -> (r: i64)
    requires
        shape_ok(old(a)@, n as nat),
        old(p)@.len() >= n + 1,
        n + 1 < 0x8000_0000_0000_0000,
    ensures
        r == 0 || r == 1,
        final(a)@.len() == old(a)@.len(),
        final(p)@.len() == old(p)@.len(),
        shape_ok(final(a)@, n as nat),
        ({
            let st = decomp_upto(
                ppview(old(a)@),
                init_perm(pview_seq(old(p)@), n as int),
                0,
                n as int,
                ram_view(ram),
                default_fuel(ram),
            );
            (r == 1) == st.2 && ppview(final(a)@) =~~= st.0 && pview_seq(final(p)@) =~~= st.1
        }),
{
    let ghost av0 = ppview(old(a)@);
    let ghost pv00 = pview_seq(old(p)@);
    let ghost pinit = init_perm(pv00, n as int);
    let ghost rv = ram_view(ram);
    let ghost fl = default_fuel(ram);
    let ghost target = decomp_upto(av0, pinit, 0, n as int, rv, fl);
    proof {
        lemma_pview_seq(p@);
    }
    let mut i: usize = 0;
    while i < n
        invariant
            i <= n,
            p@.len() == old(p)@.len(),
            pview_seq(p@).len() == p@.len(),
            forall|t: int| 0 <= t < i ==> pview_seq(p@)[t] == ParamV::Int(t as i64),
            forall|t: int| i <= t < p@.len() ==> pview_seq(p@)[t] == pv00[t],
        decreases n - i,
    {
        let ghost pseq0 = p@;
        proof {
            lemma_pview_seq(pseq0);
        }
        let val = Parameters::Int(i as i64);
        let ghost vv = val@;
        proof {
            assert(vv == ParamV::Int(i as i64));
        }
        p.set(i, val);
        proof {
            lemma_pview_seq(p@);
            assert(pview_seq(p@)[i as int] == vv);
            assert(forall|t: int|
                0 <= t < p@.len() && t != i ==> #[trigger] pview_seq(p@)[t] == pview_seq(
                    pseq0,
                )[t]);
            assert(forall|t: int|
                0 <= t < i + 1 ==> #[trigger] pview_seq(p@)[t] == ParamV::Int(t as i64));
        }
        i += 1;
    }
    let ghost pseqf = p@;
    proof {
        lemma_pview_seq(pseqf);
    }
    let lastval = Parameters::Int(n as i64);
    let ghost lvv = lastval@;
    proof {
        assert(lvv == ParamV::Int(n as i64));
    }
    p.set(n, lastval);
    proof {
        lemma_pview_seq(p@);
        assert(pview_seq(p@)[n as int] == lvv);
        assert(forall|t: int|
            0 <= t < p@.len() && t != n ==> #[trigger] pview_seq(p@)[t] == pview_seq(pseqf)[t]);
        assert(pview_seq(p@) =~= pinit);
    }
    let mut i: usize = 0;
    while i < n
        invariant
            i <= n,
            a@.len() == old(a)@.len(),
            p@.len() == old(p)@.len(),
            shape_ok(a@, n as nat),
            decomp_upto(ppview(a@), pview_seq(p@), i as int, n as int, rv, fl) == target,
        decreases n - i,
    {
        let ghost av_c = ppview(a@);
        let ghost pv_c = pview_seq(p@);
        proof {
            assert(forall|j: int| 0 <= j < a@.len() ==> av_c[j] == pview_seq(a@[j]@));
            assert(forall|j: int|
                0 <= j < a@.len() ==> (#[trigger] pview_seq(a@[j]@)).len() == a@[j]@.len()) by {
                assert forall|j: int|
                    0 <= j < a@.len() implies (#[trigger] pview_seq(a@[j]@)).len()
                    == a@[j]@.len() by {
                    lemma_pview_seq(a@[j]@);
                }
            }
            lemma_pview_seq(p@);
        }
        let mut max_a: Parameters = Parameters::Float(Rationals::new(1, 0));
        let mut i_max: usize = 0;
        let mut k: usize = i;
        proof {
            lemma_pview_seq(a@[i as int]@);
        }
        while k < n
            invariant
                i <= k <= n,
                i < n,
                i_max < n,
                a@.len() == old(a)@.len(),
                p@.len() == old(p)@.len(),
                shape_ok(a@, n as nat),
                av_c == ppview(a@),
                pv_c == pview_seq(p@),
                pivot_scan(av_c, i as int, k as int, n as int, max_a@, i_max as int, rv, fl)
                    == pivot_scan(
                    av_c,
                    i as int,
                    i as int,
                    n as int,
                    ParamV::Float(Rationals { under: 1, over: 0 }),
                    0,
                    rv,
                    fl,
                ),
            decreases n - k,
        {
            proof {
                lemma_pview_seq(a@[k as int]@);
            }
            let abs_a = a[k][i].deep_clone().abs(ram);
            let cmp = crate::interpreting::function::greater(
                abs_a.deep_clone(),
                max_a.deep_clone(),
                ram,
            );
            match cmp {
                Parameters::Bool(true) => {
                    max_a = abs_a;
                    i_max = k;
                },
                _ => (),
            }
            k += 1;
        }
        let ghost scan = pivot_scan(
            av_c,
            i as int,
            i as int,
            n as int,
            ParamV::Float(Rationals { under: 1, over: 0 }),
            0,
            rv,
            fl,
        );
        proof {
            assert(scan == (max_a@, i_max as int));
        }
        let singular: bool = match &max_a {
            Parameters::Int(v) => *v == 0,
            Parameters::Float(f) => f.is_null(),
            _ => false,
        };
        proof {
            assert(singular == pivot_is_zero(scan.0));
        }
        if singular {
            proof {
                assert(decomp_step(av_c, pv_c, i as int, n as int, rv, fl) == (av_c, pv_c, false));
                assert(target == (av_c, pv_c, false));
            }
            return 0;
        }
        if i_max != i {
            let tmp_p = p[i].deep_clone();
            let tmp_p2 = p[i_max].deep_clone();
            p.set(i, tmp_p2);
            p.set(i_max, tmp_p);
            proof {
                lemma_pview_seq(p@);
            }
            let bumped = crate::interpreting::function::add(
                p[n].deep_clone(),
                Parameters::Int(1),
                ram,
            );
            p.set(n, bumped);
            let row_i = clone_row(&a[i]);
            let row_max = clone_row(&a[i_max]);
            a.set(i, row_max);
            a.set(i_max, row_i);
            proof {
                lemma_pview_seq(p@);
                assert(pview_seq(p@) =~= pv_c.update(i as int, pv_c[i_max as int]).update(
                    i_max as int,
                    pv_c[i as int],
                ).update(
                    n as int,
                    crate::interpreting::function::add_spec(
                        pv_c[n as int],
                        ParamV::Int(1),
                        rv,
                        fl,
                    ),
                ));
                assert(ppview(a@) =~~= av_c.update(i as int, av_c[i_max as int]).update(
                    i_max as int,
                    av_c[i as int],
                ));
            }
        }
        let ghost a4 = ppview(a@);
        let ghost p4 = pview_seq(p@);
        proof {
            assert(a4 =~~= (if i_max != i {
                av_c.update(i as int, av_c[i_max as int]).update(i_max as int, av_c[i as int])
            } else {
                av_c
            }));
            assert(forall|j: int| 0 <= j < a@.len() ==> a4[j] == pview_seq(a@[j]@));
            assert(forall|j: int|
                0 <= j < a@.len() ==> (#[trigger] pview_seq(a@[j]@)).len() == a@[j]@.len()) by {
                assert forall|j: int|
                    0 <= j < a@.len() implies (#[trigger] pview_seq(a@[j]@)).len()
                    == a@[j]@.len() by {
                    lemma_pview_seq(a@[j]@);
                }
            }
        }
        let mut j: usize = i + 1;
        while j < n
            invariant
                i < j <= n,
                i < n,
                a@.len() == old(a)@.len(),
                p@.len() == old(p)@.len(),
                shape_ok(a@, n as nat),
                pview_seq(p@) == p4,
                a4.len() == a@.len(),
                forall|jj: int|
                    0 <= jj < a@.len() && !(i < jj < j) ==> pview_seq((#[trigger] a@[jj])@)
                        == a4[jj],
                forall|jj: int|
                    i < jj < j ==> pview_seq((#[trigger] a@[jj])@) == elim_row(
                        a4[jj],
                        a4[i as int],
                        i as int,
                        n as int,
                        rv,
                        fl,
                    ),
            decreases n - j,
        {
            proof {
                lemma_pview_seq(a@[j as int]@);
                lemma_pview_seq(a@[i as int]@);
            }
            let ghost rowj0 = pview_seq(a@[j as int]@);
            let ghost m = crate::interpreting::function::divide_spec(
                rowj0[i as int],
                a4[i as int][i as int],
                rv,
                fl,
            );
            let mult_val = crate::interpreting::function::divide(
                a[j][i].deep_clone(),
                a[i][i].deep_clone(),
                ram,
            );
            let row = &mut a[j];
            row.set(i, mult_val);
            proof {
                lemma_pview_seq(a@[j as int]@);
                assert(mult_val@ == m);
                assert(forall|t: int|
                    0 <= t < a4[j as int].len() && t != i ==> #[trigger] pview_seq(
                        a@[j as int]@,
                    )[t] == rowj0[t]);
                assert(pview_seq(a@[j as int]@) =~= elim_partial(
                    a4[j as int],
                    a4[i as int],
                    i as int,
                    i as int + 1,
                    n as int,
                    rv,
                    fl,
                ));
            }
            let mut k2: usize = i + 1;
            while k2 < n
                invariant
                    i < j < n,
                    i < k2 <= n,
                    a@.len() == old(a)@.len(),
                    p@.len() == old(p)@.len(),
                    shape_ok(a@, n as nat),
                    pview_seq(p@) == p4,
                    a@[j as int]@.len() == a4[j as int].len(),
                    forall|jj: int|
                        0 <= jj < a@.len() && !(i < jj < j + 1) ==> pview_seq(
                            (#[trigger] a@[jj])@,
                        ) == a4[jj],
                    forall|jj: int|
                        i < jj < j ==> pview_seq((#[trigger] a@[jj])@) == elim_row(
                            a4[jj],
                            a4[i as int],
                            i as int,
                            n as int,
                            rv,
                            fl,
                        ),
                    pview_seq(a@[j as int]@) =~= elim_partial(
                        a4[j as int],
                        a4[i as int],
                        i as int,
                        k2 as int,
                        n as int,
                        rv,
                        fl,
                    ),
                decreases n - k2,
            {
                proof {
                    lemma_pview_seq(a@[j as int]@);
                    lemma_pview_seq(a@[i as int]@);
                    assert(pview_seq(a@[i as int]@) == a4[i as int]);
                    assert(pview_seq(a@[j as int]@)[i as int] == m);
                    assert(pview_seq(a@[j as int]@)[k2 as int] == a4[j as int][k2 as int]);
                    assert(a@[j as int]@[i as int]@ == m);
                    assert(a@[j as int]@[k2 as int]@ == a4[j as int][k2 as int]);
                    assert(a@[i as int]@[k2 as int]@ == a4[i as int][k2 as int]);
                }
                let ghost prerow = pview_seq(a@[j as int]@);
                let prod = crate::interpreting::function::mult(
                    a[j][i].deep_clone(),
                    a[i][k2].deep_clone(),
                    ram,
                );
                let ghost dv = crate::interpreting::function::minus_spec(
                    a4[j as int][k2 as int],
                    crate::interpreting::function::mult_spec(
                        m,
                        a4[i as int][k2 as int],
                        rv,
                        fl,
                    ),
                    rv,
                    fl,
                );
                let diff = crate::interpreting::function::minus(a[j][k2].deep_clone(), prod, ram);
                proof {
                    assert(diff@ == dv);
                }
                let ghost rowpre = pview_seq(a@[j as int]@);
                let row = &mut a[j];
                row.set(k2, diff);
                proof {
                    lemma_pview_seq(a@[j as int]@);
                    assert(forall|t: int|
                        0 <= t < a4[j as int].len() && t != k2 ==> #[trigger] pview_seq(
                            a@[j as int]@,
                        )[t] == rowpre[t]);
                    assert(pview_seq(a@[j as int]@)[k2 as int] == dv);
                    assert(pview_seq(a@[j as int]@) =~= elim_partial(
                        a4[j as int],
                        a4[i as int],
                        i as int,
                        k2 as int + 1,
                        n as int,
                        rv,
                        fl,
                    ));
                }
                k2 += 1;
            }
            proof {
                lemma_pview_seq(a@[j as int]@);
                assert(elim_partial(
                    a4[j as int],
                    a4[i as int],
                    i as int,
                    n as int,
                    n as int,
                    rv,
                    fl,
                ) =~= elim_row(a4[j as int], a4[i as int], i as int, n as int, rv, fl));
                assert(pview_seq(a@[j as int]@) =~= elim_row(
                    a4[j as int],
                    a4[i as int],
                    i as int,
                    n as int,
                    rv,
                    fl,
                ));
            }
            j += 1;
        }
        proof {
            assert(ppview(a@) =~~= Seq::new(
                a4.len(),
                |jj: int|
                    if i < jj < n {
                        elim_row(a4[jj], a4[i as int], i as int, n as int, rv, fl)
                    } else {
                        a4[jj]
                    },
            ));
            assert(decomp_step(av_c, pv_c, i as int, n as int, rv, fl) == (
                ppview(a@),
                pview_seq(p@),
                true,
            ));
            assert(decomp_upto(ppview(a@), pview_seq(p@), i as int + 1, n as int, rv, fl)
                == target);
        }
        i += 1;
    }
    proof {
        assert(decomp_upto(ppview(a@), pview_seq(p@), n as int, n as int, rv, fl) == (
            ppview(a@),
            pview_seq(p@),
            true,
        ));
    }
    1
}

/// The running product of the first `i` diagonal entries.
pub open spec fn det_diag_fold(
    av: Seq<Seq<ParamV>>,
    i: nat,
    ram: Option<Map<Seq<char>, ParamV>>,
    fuel: nat,
) -> ParamV
    decreases i,
{
    if i <= 1 {
        av[0][0]
    } else {
        crate::interpreting::function::mult_spec(
            det_diag_fold(av, (i - 1) as nat, ram, fuel),
            av[i - 1][i - 1],
            ram,
            fuel,
        )
    }
}

/// The determinant of a decomposed matrix: the product of its diagonal,
/// negated where the recorded swap count has odd parity.
#[verifier::loop_isolation(false)]
pub fn lup_determinant(
    a: &mut Vec<Vec<Parameters>>,
    p: &mut Vec<Parameters>,
    n: usize,
    ram: Option<&AssocMap<Parameters>>,
) -> (r: Parameters)
    requires
        shape_ok(old(a)@, n as nat),
        old(p)@.len() >= n + 1,
        n >= 1,
        n < 0x8000_0000_0000_0000,
    ensures
        final(a)@ == old(a)@,
        final(p)@ == old(p)@,
        ({
            let av = ppview(old(a)@);
            let d = det_diag_fold(av, n as nat, ram_view(ram), default_fuel(ram));
            r@ == match old(p)@[n as int]@ {
                ParamV::Int(i) => {
                    if vstd::wrapping::i64_specs::wrapping_sub(i, n as i64) % 2 == 0 {
                        d
                    } else {
                        crate::interpreting::function::minus_spec(
                            ParamV::Int(0),
                            d,
                            ram_view(ram),
                            default_fuel(ram),
                        )
                    }
                },
                _ => ParamV::Float(Rationals { under: 0, over: 0 }),
            }
        }),
{
    let ghost av = ppview(a@);
    proof {
        assert(forall|j: int| 0 <= j < a@.len() ==> av[j] == pview_seq(a@[j]@));
        assert(forall|j: int|
            0 <= j < a@.len() ==> pview_seq(a@[j]@).len() == a@[j]@.len()) by {
            assert forall|j: int| 0 <= j < a@.len() implies pview_seq(a@[j]@).len()
                == a@[j]@.len() by {
                lemma_pview_seq(a@[j]@);
            }
        }
        lemma_pview_seq(a@[0]@);
    }
    let mut det: Parameters = a[0][0].deep_clone();
    let mut i: usize = 1;
    while i < n
        invariant
            1 <= i <= n,
            det@ == det_diag_fold(av, i as nat, ram_view(ram), default_fuel(ram)),
        decreases n - i,
    {
        proof {
            lemma_pview_seq(a@[i as int]@);
        }
        det = crate::interpreting::function::mult(det, a[i][i].deep_clone(), ram);
        i += 1;
    }
    match &p[n] {
        Parameters::Int(sw) => {
            let d: i64 = sw.wrapping_sub(n as i64);
            if d % 2 == 0 {
                det
            } else {
                crate::interpreting::function::minus(Parameters::Int(0), det, ram)
            }
        },
        _ => Parameters::Float(Rationals::new(0, 0)),
    }
}


/// The permuted-identity seed of one inverse cell: 1 where the recorded
/// row index equals the column, 0 otherwise; an identifier index reads
/// through the environment first.
pub open spec fn inv_seed(pcell: ParamV, j: int, ram: Option<Map<Seq<char>, ParamV>>) -> ParamV {
    match pcell {
        ParamV::Int(s2) => if s2 == j as i64 {
            ParamV::Int(1)
        } else {
            ParamV::Int(0)
        },
        ParamV::Float(f2) => if f2.eq_spec(&Rationals { under: 1, over: j as i64 }) {
            ParamV::Int(1)
        } else {
            ParamV::Int(0)
        },
        ParamV::Identifier(nm) => match ram {
            None => ParamV::Int(0),
            Some(m) => {
                if m.contains_key(nm) {
                    match m[nm] {
                        ParamV::Int(s2) => if s2 == j as i64 {
                            ParamV::Int(1)
                        } else {
                            ParamV::Int(0)
                        },
                        ParamV::Float(f2) => if f2.eq_spec(
                            &Rationals { under: 1, over: j as i64 },
                        ) {
                            ParamV::Int(1)
                        } else {
                            ParamV::Int(0)
                        },
                        _ => ParamV::Int(0),
                    }
                } else {
                    ParamV::Int(0)
                }
            },
        },
        _ => ParamV::Int(0),
    }
}

/// The forward-substitution fold of one cell: subtracts, for each row
/// above, the stored multiplier times that row's entry of the column.
pub open spec fn fwd_cell(
    acc: ParamV,
    arow: Seq<ParamV>,
    ia: Seq<Seq<ParamV>>,
    j: int,
    k: int,
    i: int,
    ram: Option<Map<Seq<char>, ParamV>>,
    fuel: nat,
) -> ParamV
    decreases i - k when k <= i
{
    if k >= i {
        acc
    } else {
        fwd_cell(
            crate::interpreting::function::minus_spec(
                acc,
                crate::interpreting::function::mult_spec(arow[k], ia[k][j], ram, fuel),
                ram,
                fuel,
            ),
            arow,
            ia,
            j,
            k + 1,
            i,
            ram,
            fuel,
        )
    }
}

/// The forward pass of one column, top row down.
pub open spec fn fwd_rows(
    av: Seq<Seq<ParamV>>,
    pv: Seq<ParamV>,
    ia: Seq<Seq<ParamV>>,
    j: int,
    i: int,
    n: int,
    ram: Option<Map<Seq<char>, ParamV>>,
    fuel: nat,
) -> Seq<Seq<ParamV>>
    decreases n - i when i <= n
{
    if i >= n {
        ia
    } else {
        let cell = fwd_cell(inv_seed(pv[i], j, ram), av[i], ia, j, 0, i, ram, fuel);
        fwd_rows(av, pv, ia.update(i, ia[i].update(j, cell)), j, i + 1, n, ram, fuel)
    }
}

/// The back-substitution fold of one cell: subtracts the upper-triangle
/// entries times the rows already finished below.
pub open spec fn bwd_cell(
    acc: ParamV,
    arow: Seq<ParamV>,
    ia: Seq<Seq<ParamV>>,
    j: int,
    k: int,
    n: int,
    ram: Option<Map<Seq<char>, ParamV>>,
    fuel: nat,
) -> ParamV
    decreases n - k when k <= n
{
    if k >= n {
        acc
    } else {
        bwd_cell(
            crate::interpreting::function::minus_spec(
                acc,
                crate::interpreting::function::mult_spec(arow[k], ia[k][j], ram, fuel),
                ram,
                fuel,
            ),
            arow,
            ia,
            j,
            k + 1,
            n,
            ram,
            fuel,
        )
    }
}

/// The back pass of one column, bottom row up, each cell finished by the
/// division through the diagonal.
pub open spec fn bwd_rows(
    av: Seq<Seq<ParamV>>,
    ia: Seq<Seq<ParamV>>,
    j: int,
    i: int,
    n: int,
    ram: Option<Map<Seq<char>, ParamV>>,
    fuel: nat,
) -> Seq<Seq<ParamV>>
    decreases i + 1 when i >= -1
{
    if i < 0 {
        ia
    } else {
        let cell0 = bwd_cell(ia[i][j], av[i], ia, j, i + 1, n, ram, fuel);
        let cell = crate::interpreting::function::divide_spec(cell0, av[i][i], ram, fuel);
        bwd_rows(av, ia.update(i, ia[i].update(j, cell)), j, i - 1, n, ram, fuel)
    }
}

/// The whole inversion: both passes of each column in turn.
pub open spec fn invert_cols(
    av: Seq<Seq<ParamV>>,
    pv: Seq<ParamV>,
    ia: Seq<Seq<ParamV>>,
    j: int,
    n: int,
    ram: Option<Map<Seq<char>, ParamV>>,
    fuel: nat,
) -> Seq<Seq<ParamV>>
    decreases n - j when j <= n
{
    if j >= n {
        ia
    } else {
        invert_cols(
            av,
            pv,
            bwd_rows(av, fwd_rows(av, pv, ia, j, 0, n, ram, fuel), j, n - 1, n, ram, fuel),
            j + 1,
            n,
            ram,
            fuel,
        )
    }
}

/// Inverts a decomposed matrix into `ia` by forward then back
/// substitution along the recorded permutation; the shape of `ia` is
/// preserved.
#[verifier::loop_isolation(false)]
#[verifier::rlimit(100)]
#[verifier::spinoff_prover]
pub fn lup_invert(
    a: &mut Vec<Vec<Parameters>>,
    p: &mut Vec<Parameters>,
    n: usize,
    ia: &mut Vec<Vec<Parameters>>,
    ram: Option<&AssocMap<Parameters>>,
) -> (r: ())
    requires
        shape_ok(old(a)@, n as nat),
        shape_ok(old(ia)@, n as nat),
        old(p)@.len() >= n + 1,
        n < 0x8000_0000_0000_0000,
    ensures
        final(a)@ == old(a)@,
        final(p)@ == old(p)@,
        final(ia)@.len() == old(ia)@.len(),
        forall|j: int|
            0 <= j < final(ia)@.len() ==> (#[trigger] final(ia)@[j])@.len() == old(ia)@[j]@.len(),
        shape_ok(final(ia)@, n as nat),
        ppview(final(ia)@) =~~= invert_cols(
            ppview(old(a)@),
            pview_seq(old(p)@),
            ppview(old(ia)@),
            0,
            n as int,
            ram_view(ram),
            default_fuel(ram),
        ),
{
    let ghost av_ = ppview(old(a)@);
    let ghost pv_ = pview_seq(old(p)@);
    let ghost rv = ram_view(ram);
    let ghost fl = default_fuel(ram);
    let ghost target = invert_cols(av_, pv_, ppview(old(ia)@), 0, n as int, rv, fl);
    let ghost rows0 = Seq::new(ia@.len(), |t: int| ia@[t]@.len());
    proof {
        lemma_pview_seq(p@);
        assert(forall|t: int| 0 <= t < a@.len() ==> av_[t] == pview_seq(a@[t]@));
    }
    let mut j: usize = 0;
    while j < n
        invariant
            j <= n,
            a@ == old(a)@,
            p@ == old(p)@,
            ia@.len() == old(ia)@.len(),
            forall|jj: int| 0 <= jj < ia@.len() ==> (#[trigger] ia@[jj])@.len() == rows0[jj],
            forall|jj: int|
                0 <= jj < ia@.len() ==> (#[trigger] ia@[jj])@.len() == old(ia)@[jj]@.len(),
            shape_ok(ia@, n as nat),
            invert_cols(av_, pv_, ppview(ia@), j as int, n as int, rv, fl) == target,
        decreases n - j,
    {
        let ghost ia_c = ppview(ia@);
        let mut i: usize = 0;
        while i < n
            invariant
                i <= n,
                j < n,
                a@ == old(a)@,
                p@ == old(p)@,
                ia@.len() == old(ia)@.len(),
                forall|jj: int| 0 <= jj < ia@.len() ==> (#[trigger] ia@[jj])@.len() == rows0[jj],
                shape_ok(ia@, n as nat),
                fwd_rows(av_, pv_, ppview(ia@), j as int, i as int, n as int, rv, fl)
                    == fwd_rows(av_, pv_, ia_c, j as int, 0, n as int, rv, fl),
            decreases n - i,
        {
            let ghost snap = ppview(ia@);
            proof {
                lemma_pview_seq(p@);
                lemma_pview_seq(a@[i as int]@);
                lemma_pview_seq(ia@[i as int]@);
                assert(forall|t: int| 0 <= t < ia@.len() ==> snap[t] == pview_seq(ia@[t]@));
            }
            let seed: Parameters = match &p[i] {
                Parameters::Int(s) => {
                    if *s == j as i64 {
                        Parameters::Int(1)
                    } else {
                        Parameters::Int(0)
                    }
                },
                Parameters::Float(f) => {
                    if f.eq(&Rationals::new(1, j as i64)) {
                        Parameters::Int(1)
                    } else {
                        Parameters::Int(0)
                    }
                },
                Parameters::Identifier(sname) => {
                    match ram {
                        None => Parameters::Int(0),
                        Some(hs) => {
                            match hs.get(sname) {
                                None => Parameters::Int(0),
                                Some(bound) => match bound {
                                    Parameters::Int(s2) => {
                                        if *s2 == j as i64 {
                                            Parameters::Int(1)
                                        } else {
                                            Parameters::Int(0)
                                        }
                                    },
                                    Parameters::Float(f2) => {
                                        if f2.eq(&Rationals::new(1, j as i64)) {
                                            Parameters::Int(1)
                                        } else {
                                            Parameters::Int(0)
                                        }
                                    },
                                    _ => Parameters::Int(0),
                                },
                            }
                        },
                    }
                },
                _ => Parameters::Int(0),
            };
            proof {
                assert(seed@ == inv_seed(pv_[i as int], j as int, rv));
            }
            let row = &mut ia[i];
            row.set(j, seed);
            proof {
                lemma_pview_seq(ia@[i as int]@);
                assert(pview_seq(ia@[i as int]@) =~= snap[i as int].update(j as int, seed@));
            }
            let mut k: usize = 0;
            while k < i
                invariant
                    k <= i,
                    i < n,
                    j < n,
                    a@ == old(a)@,
                    p@ == old(p)@,
                    ia@.len() == old(ia)@.len(),
                    forall|jj: int|
                        0 <= jj < ia@.len() ==> (#[trigger] ia@[jj])@.len() == rows0[jj],
                    shape_ok(ia@, n as nat),
                    snap.len() == ia@.len(),
                    forall|t: int|
                        0 <= t < ia@.len() && t != i ==> #[trigger] pview_seq(ia@[t]@)
                            == snap[t],
                    pview_seq(ia@[i as int]@) =~= snap[i as int].update(
                        j as int,
                        pview_seq(ia@[i as int]@)[j as int],
                    ),
                    fwd_cell(
                        pview_seq(ia@[i as int]@)[j as int],
                        av_[i as int],
                        snap,
                        j as int,
                        k as int,
                        i as int,
                        rv,
                        fl,
                    ) == fwd_cell(
                        inv_seed(pv_[i as int], j as int, rv),
                        av_[i as int],
                        snap,
                        j as int,
                        0,
                        i as int,
                        rv,
                        fl,
                    ),
                decreases i - k,
            {
                proof {
                    lemma_pview_seq(a@[i as int]@);
                    lemma_pview_seq(ia@[i as int]@);
                    lemma_pview_seq(ia@[k as int]@);
                }
                let ghost rowpre = pview_seq(ia@[i as int]@);
                let prod = crate::interpreting::function::mult(
                    a[i][k].deep_clone(),
                    ia[k][j].deep_clone(),
                    ram,
                );
                let diff = crate::interpreting::function::minus(ia[i][j].deep_clone(), prod, ram);
                let row = &mut ia[i];
                row.set(j, diff);
                proof {
                    lemma_pview_seq(ia@[i as int]@);
                    assert(forall|t: int|
                        0 <= t < rowpre.len() && t != j ==> #[trigger] pview_seq(
                            ia@[i as int]@,
                        )[t] == rowpre[t]);
                    assert(pview_seq(ia@[i as int]@)[j as int] == diff@);
                    assert(pview_seq(ia@[i as int]@) =~= rowpre.update(j as int, diff@));
                    assert(pview_seq(ia@[i as int]@) =~= snap[i as int].update(
                        j as int,
                        diff@,
                    ));
                }
                k += 1;
            }
            proof {
                assert(ppview(ia@) =~~= snap.update(
                    i as int,
                    snap[i as int].update(
                        j as int,
                        fwd_cell(
                            inv_seed(pv_[i as int], j as int, rv),
                            av_[i as int],
                            snap,
                            j as int,
                            0,
                            i as int,
                            rv,
                            fl,
                        ),
                    ),
                ));
            }
            i += 1;
        }
        let ghost ia_f = ppview(ia@);
        proof {
            assert(ia_f == fwd_rows(av_, pv_, ia_c, j as int, 0, n as int, rv, fl));
        }
        let mut ii: usize = n;
        while ii > 0
            invariant
                ii <= n,
                j < n,
                a@ == old(a)@,
                p@ == old(p)@,
                ia@.len() == old(ia)@.len(),
                forall|jj: int| 0 <= jj < ia@.len() ==> (#[trigger] ia@[jj])@.len() == rows0[jj],
                shape_ok(ia@, n as nat),
                bwd_rows(av_, ppview(ia@), j as int, ii as int - 1, n as int, rv, fl)
                    == bwd_rows(av_, ia_f, j as int, n as int - 1, n as int, rv, fl),
            decreases ii,
        {
            let i = ii - 1;
            let ghost snap = ppview(ia@);
            proof {
                lemma_pview_seq(a@[i as int]@);
                lemma_pview_seq(ia@[i as int]@);
                assert(forall|t: int| 0 <= t < ia@.len() ==> snap[t] == pview_seq(ia@[t]@));
            }
            let mut k: usize = i + 1;
            while k < n
                invariant
                    i < k <= n,
                    i < n,
                    j < n,
                    a@ == old(a)@,
                    p@ == old(p)@,
                    ia@.len() == old(ia)@.len(),
                    forall|jj: int|
                        0 <= jj < ia@.len() ==> (#[trigger] ia@[jj])@.len() == rows0[jj],
                    shape_ok(ia@, n as nat),
                    snap.len() == ia@.len(),
                    forall|t: int|
                        0 <= t < ia@.len() && t != i ==> #[trigger] pview_seq(ia@[t]@)
                            == snap[t],
                    pview_seq(ia@[i as int]@) =~= snap[i as int].update(
                        j as int,
                        pview_seq(ia@[i as int]@)[j as int],
                    ),
                    bwd_cell(
                        pview_seq(ia@[i as int]@)[j as int],
                        av_[i as int],
                        snap,
                        j as int,
                        k as int,
                        n as int,
                        rv,
                        fl,
                    ) == bwd_cell(
                        snap[i as int][j as int],
                        av_[i as int],
                        snap,
                        j as int,
                        i as int + 1,
                        n as int,
                        rv,
                        fl,
                    ),
                decreases n - k,
            {
                proof {
                    lemma_pview_seq(a@[i as int]@);
                    lemma_pview_seq(ia@[i as int]@);
                    lemma_pview_seq(ia@[k as int]@);
                }
                let ghost rowpre = pview_seq(ia@[i as int]@);
                let prod = crate::interpreting::function::mult(
                    a[i][k].deep_clone(),
                    ia[k][j].deep_clone(),
                    ram,
                );
                let diff = crate::interpreting::function::minus(ia[i][j].deep_clone(), prod, ram);
                let row = &mut ia[i];
                row.set(j, diff);
                proof {
                    lemma_pview_seq(ia@[i as int]@);
                    assert(forall|t: int|
                        0 <= t < rowpre.len() && t != j ==> #[trigger] pview_seq(
                            ia@[i as int]@,
                        )[t] == rowpre[t]);
                    assert(pview_seq(ia@[i as int]@)[j as int] == diff@);
                    assert(pview_seq(ia@[i as int]@) =~= rowpre.update(j as int, diff@));
                    assert(pview_seq(ia@[i as int]@) =~= snap[i as int].update(
                        j as int,
                        diff@,
                    ));
                }
                k += 1;
            }
            proof {
                lemma_pview_seq(a@[i as int]@);
                lemma_pview_seq(ia@[i as int]@);
            }
            let ghost cellfold = pview_seq(ia@[i as int]@)[j as int];
            let ghost rowpre2 = pview_seq(ia@[i as int]@);
            proof {
                assert(cellfold == bwd_cell(
                    snap[i as int][j as int],
                    av_[i as int],
                    snap,
                    j as int,
                    i as int + 1,
                    n as int,
                    rv,
                    fl,
                ));
                assert(pview_seq(a@[i as int]@) == av_[i as int]);
            }
            let q = crate::interpreting::function::divide(
                ia[i][j].deep_clone(),
                a[i][i].deep_clone(),
                ram,
            );
            let row = &mut ia[i];
            row.set(j, q);
            proof {
                lemma_pview_seq(ia@[i as int]@);
                assert(forall|t: int|
                    0 <= t < rowpre2.len() && t != j ==> #[trigger] pview_seq(
                        ia@[i as int]@,
                    )[t] == rowpre2[t]);
                assert(pview_seq(ia@[i as int]@)[j as int] == q@);
                assert(pview_seq(ia@[i as int]@) =~= snap[i as int].update(j as int, q@));
                assert(ppview(ia@) =~~= snap.update(
                    i as int,
                    snap[i as int].update(
                        j as int,
                        crate::interpreting::function::divide_spec(
                            bwd_cell(
                                snap[i as int][j as int],
                                av_[i as int],
                                snap,
                                j as int,
                                i as int + 1,
                                n as int,
                                rv,
                                fl,
                            ),
                            av_[i as int][i as int],
                            rv,
                            fl,
                        ),
                    ),
                ));
            }
            ii = i;
        }
        proof {
            assert(bwd_rows(av_, ppview(ia@), j as int, -1, n as int, rv, fl) == ppview(ia@));
            assert(invert_cols(av_, pv_, ppview(ia@), j as int + 1, n as int, rv, fl) == target);
        }
        j += 1;
    }
    proof {
        assert(invert_cols(av_, pv_, ppview(ia@), n as int, n as int, rv, fl) == ppview(ia@));
    }
}

} // verus!
