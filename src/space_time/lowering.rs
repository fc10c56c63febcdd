//! Placement of a flat list of atoms onto the time x space grid of a type.
use vstd::prelude::*;
use vstd::arithmetic::div_mod::{
    lemma_div_pos_is_pos, lemma_fundamental_div_mod, lemma_fundamental_div_mod_converse,
    lemma_mod_pos_bound,
};
use crate::space_time::types::{lemma_fits_bounds, lemma_positive, Type};

verus! {

/// Whether cycle `tau` of a value of type `t` carries data, or is an idle
/// cycle of some `TSeq` inside `t`.
pub open spec fn time_valid(t: Type, tau: int) -> bool
    decreases t,
{
    match t {
        Type::STuple { n, elem_type } => time_valid(*elem_type, tau),
        Type::SSeq { n, elem_type } => time_valid(*elem_type, tau),
        Type::TSeq { n, i, elem_type } => {
            let c = elem_type.spec_clocks() as int;
            tau / c < n && time_valid(*elem_type, tau % c)
        },
        _ => true,
    }
}

/// The position in the flat atom list of the atom shown in cycle `tau`,
/// lane `sigma`, of a value of type `t` (meaningful where the cycle is valid).
///
/// Branch `j` of a spatial container starts `j` element-regions into the
/// flat list, an element-region being `atoms_per_valid * valid_clocks` of
/// the element; so does branch `j` of a `TSeq`.
pub open spec fn cell_index(t: Type, tau: int, sigma: int) -> int
    decreases t,
{
    match t {
        Type::STuple { n, elem_type } => {
            let w = elem_type.spec_atoms_per_valid() as int;
            (sigma / w) * (w * elem_type.spec_valid_clocks()) + cell_index(*elem_type, tau, sigma % w)
        },
        Type::SSeq { n, elem_type } => {
            let w = elem_type.spec_atoms_per_valid() as int;
            (sigma / w) * (w * elem_type.spec_valid_clocks()) + cell_index(*elem_type, tau, sigma % w)
        },
        Type::TSeq { n, i, elem_type } => {
            let c = elem_type.spec_clocks() as int;
            (tau / c) * (elem_type.spec_atoms_per_valid() * elem_type.spec_valid_clocks()) + cell_index(
                *elem_type,
                tau % c,
                sigma,
            )
        },
        _ => 0,
    }
}

/// What a grid cell holds after a region of type `t`, with its corner at
/// cycle `ct` and lane `cs`, has been placed: the flat position of its atom
/// where the cell lies in the region on a valid cycle, else what it held.
pub open spec fn placed_cell(
    t: Type,
    cs: int,
    ct: int,
    valid: bool,
    ci: int,
    tau: int,
    sigma: int,
    before: Option<usize>,
) -> Option<usize> {
    if ct <= tau < ct + t.spec_clocks() && cs <= sigma < cs + t.spec_atoms_per_valid() && valid
        && time_valid(t, tau - ct) {
        Some((ci + cell_index(t, tau - ct, sigma - cs)) as usize)
    } else {
        before
    }
}

/// The validity of a cycle after a region of type `t` has been placed: a
/// region that starts on lane 0 marks its idle cycles.
pub open spec fn placed_valid(t: Type, cs: int, ct: int, valid: bool, tau: int, before: bool) -> bool {
    if ct <= tau < ct + t.spec_clocks() && cs == 0 && !(valid && time_valid(t, tau - ct)) {
        false
    } else {
        before
    }
}

/// Every row of `grid` has at least `w` cells.
pub open spec fn rows_at_least(grid: Seq<Vec<Option<usize>>>, w: int) -> bool {
    forall|tau: int| 0 <= tau < grid.len() ==> #[trigger] grid[tau]@.len() >= w
}

/// The valid cells of a type index the flat list within its valid part.
pub proof fn lemma_cell_index_bounds(t: Type, tau: int, sigma: int)
    requires
        t.wf(),
        0 <= tau < t.spec_clocks(),
        0 <= sigma < t.spec_atoms_per_valid(),
        time_valid(t, tau),
    ensures
        0 <= cell_index(t, tau, sigma) < t.spec_valid_clocks() * t.spec_atoms_per_valid(),
    decreases t, 0nat,
{
    match t {
        Type::STuple { n, elem_type } => lemma_spatial_bounds(n, *elem_type, tau, sigma),
        Type::SSeq { n, elem_type } => lemma_spatial_bounds(n, *elem_type, tau, sigma),
        Type::TSeq { n, i, elem_type } => {
            let e = *elem_type;
            lemma_positive(e);
            let c = e.spec_clocks() as int;
            let a = e.spec_atoms_per_valid() as int;
            let v = e.spec_valid_clocks() as int;
            let j = tau / c;
            let r = tau % c;
            lemma_split(tau, c);
            lemma_cell_index_bounds(e, r, sigma);
            let k = cell_index(e, r, sigma);
            assert(j * (a * v) + k < (n as int) * v * a) by (nonlinear_arith)
                requires
                    0 <= j < n,
                    0 <= k < v * a,
            ;
            assert(0 <= j * (a * v)) by (nonlinear_arith)
                requires
                    0 <= j,
                    a >= 0,
                    v >= 0,
            ;
        },
        _ => {},
    }
}

proof fn lemma_spatial_bounds(n: u32, e: Type, tau: int, sigma: int)
    requires
        e.wf(),
        n >= 1,
        0 <= tau < e.spec_clocks(),
        0 <= sigma < n * e.spec_atoms_per_valid(),
        time_valid(e, tau),
    ensures
        0 <= (sigma / e.spec_atoms_per_valid() as int) * (e.spec_atoms_per_valid() * e.spec_valid_clocks())
            + cell_index(e, tau, sigma % e.spec_atoms_per_valid() as int) < e.spec_valid_clocks() * (n
            * e.spec_atoms_per_valid()),
    decreases e, 1nat,
{
    lemma_positive(e);
    let w = e.spec_atoms_per_valid() as int;
    let v = e.spec_valid_clocks() as int;
    let j = sigma / w;
    let r = sigma % w;
    lemma_split(sigma, w);
    assert(j < n) by (nonlinear_arith)
        requires
            sigma == j * w + r,
            0 <= r < w,
            sigma < n * w,
            w >= 1,
    ;
    lemma_cell_index_bounds(e, tau, r);
    let k = cell_index(e, tau, r);
    assert(0 <= j * (w * v) + k < v * (n * w)) by (nonlinear_arith)
        requires
            0 <= j < n,
            0 <= k < v * w,
            w >= 1,
            v >= 1,
    ;
}

/// Places the atoms of a region of type `st_type` whose corner is at cycle
/// `cur_time`, lane `cur_space`, and whose first atom is `cur_idx` in the
/// flat list: each cell of a valid cycle gets the flat position of its atom;
/// a region that starts on lane 0 marks each of its idle cycles invalid.
/// `valid` is false inside the idle branches of an enclosing `TSeq`.
#[verifier::loop_isolation(false)]
pub(crate) fn set_val_in_time_space_vec(
    time_space_values_vec: &mut Vec<Vec<Option<usize>>>,
    time_valids_vec: &mut Vec<bool>,
    st_type: &Type,
    total_width: u32,
    total_time: u32,
    valid_time: u32,
    cur_space: u32,
    cur_time: u32,
    valid: bool,
    cur_idx: u32,
)
    requires
        st_type.wf(),
        st_type.fits(),
        total_width == st_type.spec_atoms_per_valid(),
        total_time == st_type.spec_clocks(),
        valid_time == st_type.spec_valid_clocks(),
        cur_time + st_type.spec_clocks() <= old(time_space_values_vec)@.len(),
        cur_time + st_type.spec_clocks() <= u32::MAX,
        cur_space + st_type.spec_atoms_per_valid() <= u32::MAX,
        rows_at_least(old(time_space_values_vec)@, cur_space + st_type.spec_atoms_per_valid()),
        old(time_valids_vec)@.len() == old(time_space_values_vec)@.len(),
        valid ==> cur_idx + st_type.spec_valid_clocks() * st_type.spec_atoms_per_valid() <= u32::MAX,
    ensures
        final(time_space_values_vec)@.len() == old(time_space_values_vec)@.len(),
        forall|tau: int|
            0 <= tau < old(time_space_values_vec)@.len() ==> #[trigger] final(time_space_values_vec)@[tau]@.len() == old(time_space_values_vec)@[tau]@.len(),
        forall|tau: int, sigma: int|
            0 <= tau < old(time_space_values_vec)@.len() && 0 <= sigma < old(time_space_values_vec)@[tau]@.len() ==> #[trigger] final(time_space_values_vec)@[tau]@[sigma] == placed_cell(
                *st_type,
                cur_space as int,
                cur_time as int,
                valid,
                cur_idx as int,
                tau,
                sigma,
                old(time_space_values_vec)@[tau]@[sigma],
            ),
        final(time_valids_vec)@.len() == old(time_valids_vec)@.len(),
        forall|tau: int|
            0 <= tau < old(time_valids_vec)@.len() ==> #[trigger] final(time_valids_vec)@[tau]
                == placed_valid(
                *st_type,
                cur_space as int,
                cur_time as int,
                valid,
                tau,
                old(time_valids_vec)@[tau],
            ),
    decreases st_type,
{
    let ghost grid0 = time_space_values_vec@;
    let ghost valids0 = time_valids_vec@;
    let ghost t = *st_type;
    let ghost ct = cur_time as int;
    let ghost cs = cur_space as int;
    let ghost ci = cur_idx as int;
    proof { lemma_positive(t); }
    match st_type {
        Type::STuple { n, elem_type } | Type::SSeq { n, elem_type } => {
            let ghost e = **elem_type;
            let ghost w = e.spec_atoms_per_valid() as int;
            let ghost v = e.spec_valid_clocks() as int;
            proof {
                lemma_positive(e);
                lemma_fits_bounds(e);
                assert((*n as int * w) / (*n as int) == w) by (nonlinear_arith)
                    requires
                        *n as int >= 1,
                ;
                assert(v * (*n as int * w) == *n as int * (w * v)) by (nonlinear_arith);
            }
            let element_width = total_width / *n;
            let element_time = total_time;
            let element_valid_time = valid_time;
            let mut j: u32 = 0;
            while j < *n
                invariant
                    0 <= j <= *n,
                    *n >= 1,
                    e.wf(),
                    e.fits(),
                    t == *st_type,
                    element_width == w,
                    w >= 1,
                    v >= 1,
                    element_time == e.spec_clocks(),
                    element_valid_time == v,
                    t.spec_atoms_per_valid() == *n as int * w,
                    t.spec_valid_clocks() * t.spec_atoms_per_valid() == *n as int * (w * v),
                    t.spec_clocks() == e.spec_clocks(),
                    forall|tau: int| #[trigger] time_valid(t, tau) == time_valid(e, tau),
                    forall|tau: int, sigma: int| #[trigger]
                        cell_index(t, tau, sigma) == (sigma / w) * (w * v) + cell_index(e, tau, sigma % w),
                    time_space_values_vec@.len() == grid0.len(),
                    forall|tau: int|
                        0 <= tau < grid0.len() ==> #[trigger] time_space_values_vec@[tau]@.len()
                            == grid0[tau]@.len(),
                    forall|tau: int, sigma: int|
                        0 <= tau < grid0.len() && 0 <= sigma < grid0[tau]@.len()
                            ==> #[trigger] time_space_values_vec@[tau]@[sigma] == (if ct <= tau < ct
                            + t.spec_clocks() && cs <= sigma < cs + j * w && valid && time_valid(
                            t,
                            tau - ct,
                        ) {
                            Some((ci + cell_index(t, tau - ct, sigma - cs)) as usize)
                        } else {
                            grid0[tau]@[sigma]
                        }),
                    time_valids_vec@.len() == valids0.len(),
                    forall|tau: int|
                        0 <= tau < valids0.len() ==> #[trigger] time_valids_vec@[tau] == (if j > 0 {
                            placed_valid(t, cs, ct, valid, tau, valids0[tau])
                        } else {
                            valids0[tau]
                        }),
                decreases *n - j,
            {
                proof {
                    assert(j * w + w <= *n as int * w) by (nonlinear_arith)
                        requires
                            0 <= j < *n,
                            w >= 1,
                    ;
                    assert(w * v == v * w) by (nonlinear_arith);
                    assert((j * w) * v + w * v <= *n as int * (w * v)) by (nonlinear_arith)
                        requires
                            0 <= j < *n,
                            w >= 1,
                            v >= 1,
                    ;
                    assert(0 <= j * w <= (j * w) * v) by (nonlinear_arith)
                        requires
                            0 <= j,
                            w >= 1,
                            v >= 1,
                    ;
                }
                let next_idx = if valid {
                    cur_idx + j * element_width * element_valid_time
                } else {
                    cur_idx
                };
                set_val_in_time_space_vec(
                    time_space_values_vec,
                    time_valids_vec,
                    elem_type,
                    element_width,
                    element_time,
                    element_valid_time,
                    cur_space + j * element_width,
                    cur_time,
                    valid,
                    next_idx,
                );
                proof {
                    assert((j + 1) * w == j * w + w) by (nonlinear_arith);
                    assert forall|tau: int, sigma: int|
                        0 <= tau < grid0.len() && 0 <= sigma < grid0[tau]@.len() implies #[trigger] time_space_values_vec@[tau]@[sigma] == (if ct <= tau < ct
                            + t.spec_clocks() && cs <= sigma < cs + (j + 1) * w && valid && time_valid(
                            t,
                            tau - ct,
                        ) {
                            Some((ci + cell_index(t, tau - ct, sigma - cs)) as usize)
                        } else {
                            grid0[tau]@[sigma]
                        }) by {
                        if cs + j * w <= sigma < cs + j * w + w {
                            lemma_split_converse(sigma - cs, w, j as int, sigma - cs - j * w);
                            assert(j * (w * v) == (j * w) * v) by (nonlinear_arith);
                            assert(cell_index(t, tau - ct, sigma - cs) == j * (w * v) + cell_index(e, tau - ct, sigma - cs - j * w));
                            assert(valid ==> next_idx as int == ci + j * (w * v));
                        }
                    }
                    assert forall|tau: int| 0 <= tau < valids0.len() implies #[trigger] time_valids_vec@[tau] == placed_valid(t, cs, ct, valid, tau, valids0[tau]) by {
                        if j > 0 {
                            assert(j * w >= 1) by (nonlinear_arith)
                                requires
                                    j >= 1,
                                    w >= 1,
                            ;
                        }
                    }
                }
                j = j + 1;
            }
            proof {
                assert(j * w == t.spec_atoms_per_valid());
            }
        },
        Type::TSeq { n, i, elem_type } => {
            let ghost e = **elem_type;
            let ghost c = e.spec_clocks() as int;
            let ghost a = e.spec_atoms_per_valid() as int;
            let ghost v = e.spec_valid_clocks() as int;
            let ghost k = *n as int + *i as int;
            proof {
                lemma_positive(e);
                lemma_fits_bounds(e);
                assert((k * c) / k == c && (*n as int * v) / (*n as int) == v) by (nonlinear_arith)
                    requires
                        k >= 1,
                        *n as int >= 1,
                ;
                assert(k <= k * c) by (nonlinear_arith)
                    requires
                        c >= 1,
                        k >= 0,
                ;
                assert((*n as int * v) * a == *n as int * (a * v)) by (nonlinear_arith);
            }
            let element_width = total_width;
            let element_time = total_time / (*n + *i);
            let element_valid_time = valid_time / *n;
            let reps = *n + *i;
            let mut j: u32 = 0;
            while j < reps
                invariant
                    0 <= j <= reps,
                    reps == k,
                    *n >= 1,
                    e.wf(),
                    e.fits(),
                    t == *st_type,
                    element_width == a,
                    element_time == c,
                    element_valid_time == v,
                    c >= 1,
                    a >= 1,
                    v >= 1,
                    t.spec_atoms_per_valid() == a,
                    t.spec_clocks() == k * c,
                    t.spec_valid_clocks() * t.spec_atoms_per_valid() == *n as int * (a * v),
                    forall|tau: int| #[trigger]
                        time_valid(t, tau) == (tau / c < *n && time_valid(e, tau % c)),
                    forall|tau: int, sigma: int| #[trigger]
                        cell_index(t, tau, sigma) == (tau / c) * (a * v) + cell_index(e, tau % c, sigma),
                    time_space_values_vec@.len() == grid0.len(),
                    forall|tau: int|
                        0 <= tau < grid0.len() ==> #[trigger] time_space_values_vec@[tau]@.len()
                            == grid0[tau]@.len(),
                    forall|tau: int, sigma: int|
                        0 <= tau < grid0.len() && 0 <= sigma < grid0[tau]@.len()
                            ==> #[trigger] time_space_values_vec@[tau]@[sigma] == (if ct <= tau < ct
                            + j * c && cs <= sigma < cs + a && valid && time_valid(t, tau - ct) {
                            Some((ci + cell_index(t, tau - ct, sigma - cs)) as usize)
                        } else {
                            grid0[tau]@[sigma]
                        }),
                    time_valids_vec@.len() == valids0.len(),
                    forall|tau: int|
                        0 <= tau < valids0.len() ==> #[trigger] time_valids_vec@[tau] == (if ct <= tau
                            < ct + j * c && cs == 0 && !(valid && time_valid(t, tau - ct)) {
                            false
                        } else {
                            valids0[tau]
                        }),
                decreases reps - j,
            {
                proof {
                    assert(j * c + c <= k * c) by (nonlinear_arith)
                        requires
                            0 <= j < k,
                            c >= 1,
                    ;
                    assert(j < *n ==> (j * a) * v + a * v <= *n as int * (a * v)) by (nonlinear_arith)
                        requires
                            0 <= j,
                            a >= 1,
                            v >= 1,
                    ;
                    assert(0 <= j * a <= (j * a) * v) by (nonlinear_arith)
                        requires
                            0 <= j,
                            a >= 1,
                            v >= 1,
                    ;
                    assert(0 <= j * c) by (nonlinear_arith)
                        requires
                            0 <= j,
                            c >= 1,
                    ;
                }
                let next_valid = valid && j < *n;
                let next_idx = if next_valid {
                    cur_idx + j * element_width * element_valid_time
                } else {
                    cur_idx
                };
                set_val_in_time_space_vec(
                    time_space_values_vec,
                    time_valids_vec,
                    elem_type,
                    element_width,
                    element_time,
                    element_valid_time,
                    cur_space,
                    cur_time + j * element_time,
                    next_valid,
                    next_idx,
                );
                proof {
                    assert((j + 1) * c == j * c + c) by (nonlinear_arith);
                    assert forall|tau: int, sigma: int|
                        0 <= tau < grid0.len() && 0 <= sigma < grid0[tau]@.len() implies #[trigger] time_space_values_vec@[tau]@[sigma] == (if ct <= tau < ct
                            + (j + 1) * c && cs <= sigma < cs + a && valid && time_valid(t, tau - ct) {
                            Some((ci + cell_index(t, tau - ct, sigma - cs)) as usize)
                        } else {
                            grid0[tau]@[sigma]
                        }) by {
                        if ct + j * c <= tau < ct + j * c + c {
                            lemma_split_converse(tau - ct, c, j as int, tau - ct - j * c);
                            assert(j * (a * v) == (j * a) * v) by (nonlinear_arith);
                        }
                    }
                    assert forall|tau: int| 0 <= tau < valids0.len() implies #[trigger] time_valids_vec@[tau] == (if ct <= tau
                            < ct + (j + 1) * c && cs == 0 && !(valid && time_valid(t, tau - ct)) {
                            false
                        } else {
                            valids0[tau]
                        }) by {
                        if ct + j * c <= tau < ct + j * c + c {
                            lemma_split_converse(tau - ct, c, j as int, tau - ct - j * c);
                            assert(time_valid(t, tau - ct) == (j < *n && time_valid(e, tau - ct - j * c)));
                        }
                    }
                }
                j = j + 1;
            }
        },
        _ => {
            if valid {
                time_space_values_vec[cur_time as usize][cur_space as usize] = Some(cur_idx as usize);
            } else if cur_space == 0 {
                time_valids_vec.set(cur_time as usize, false);
            }
        },
    }
}

/// The cell that shows atom `k` of the flat list: the inverse of `cell_index`.
pub open spec fn cell_of(t: Type, k: int) -> (int, int)
    decreases t,
{
    match t {
        Type::STuple { n, elem_type } => {
            let w = elem_type.spec_atoms_per_valid() as int;
            let m = w * elem_type.spec_valid_clocks();
            let (tau, sigma) = cell_of(*elem_type, k % m);
            (tau, (k / m) * w + sigma)
        },
        Type::SSeq { n, elem_type } => {
            let w = elem_type.spec_atoms_per_valid() as int;
            let m = w * elem_type.spec_valid_clocks();
            let (tau, sigma) = cell_of(*elem_type, k % m);
            (tau, (k / m) * w + sigma)
        },
        Type::TSeq { n, i, elem_type } => {
            let c = elem_type.spec_clocks() as int;
            let m = (elem_type.spec_atoms_per_valid() * elem_type.spec_valid_clocks()) as int;
            let (tau, sigma) = cell_of(*elem_type, k % m);
            ((k / m) * c + tau, sigma)
        },
        _ => (0, 0),
    }
}

/// Each atom of the flat list is shown in a cell of a valid cycle.
pub proof fn lemma_cell_of(t: Type, k: int)
    requires
        t.wf(),
        0 <= k < t.spec_valid_clocks() * t.spec_atoms_per_valid(),
    ensures
        0 <= cell_of(t, k).0 < t.spec_clocks(),
        0 <= cell_of(t, k).1 < t.spec_atoms_per_valid(),
        time_valid(t, cell_of(t, k).0),
        cell_index(t, cell_of(t, k).0, cell_of(t, k).1) == k,
    decreases t, 0nat,
{
    match t {
        Type::STuple { n, elem_type } => {
            lemma_cell_of_spatial(n, *elem_type, k);
        },
        Type::SSeq { n, elem_type } => {
            lemma_cell_of_spatial(n, *elem_type, k);
        },
        Type::TSeq { n, i, elem_type } => {
            let e = *elem_type;
            lemma_positive(e);
            let c = e.spec_clocks() as int;
            let a = e.spec_atoms_per_valid() as int;
            let v = e.spec_valid_clocks() as int;
            let m = a * v;
            assert(m >= 1 && (n * v) * a == n * m && v * a == m) by (nonlinear_arith)
                requires
                    a >= 1,
                    v >= 1,
                    m == a * v,
            ;
            lemma_split(k, m);
            let j = k / m;
            let r = k % m;
            assert(j < n) by (nonlinear_arith)
                requires
                    k == j * m + r,
                    0 <= r,
                    k < n * m,
                    m >= 1,
            ;
            lemma_cell_of(e, r);
            let (tau, sigma) = cell_of(e, r);
            let tt = j * c + tau;
            assert(tt < (n + i) * c && 0 <= j * c) by (nonlinear_arith)
                requires
                    0 <= j < n,
                    0 <= tau < c,
                    i >= 0,
                    tt == j * c + tau,
            ;
            lemma_split_converse(tt, c, j, tau);
        },
        _ => {
            let vv = t.spec_valid_clocks();
            let aa = t.spec_atoms_per_valid();
            assert(vv == 1 && aa == 1);
            assert(vv * aa == 1) by (nonlinear_arith)
                requires
                    vv == 1,
                    aa == 1,
            ;
        },
    }
}

proof fn lemma_cell_of_spatial(n: u32, e: Type, k: int)
    requires
        e.wf(),
        n >= 1,
        0 <= k < e.spec_valid_clocks() * (n * e.spec_atoms_per_valid()),
    ensures
        ({
            let w = e.spec_atoms_per_valid() as int;
            let m = w * e.spec_valid_clocks();
            let (tau, sigma) = cell_of(e, k % m);
            let s = (k / m) * w + sigma;
            &&& 0 <= tau < e.spec_clocks()
            &&& 0 <= s < n * w
            &&& time_valid(e, tau)
            &&& (s / w) * m + cell_index(e, tau, s % w) == k
        }),
    decreases e, 1nat,
{
    lemma_positive(e);
    let w = e.spec_atoms_per_valid() as int;
    let v = e.spec_valid_clocks() as int;
    let m = w * v;
    assert(m >= 1 && v * (n * w) == n * m && v * w == m) by (nonlinear_arith)
        requires
            w >= 1,
            v >= 1,
            m == w * v,
    ;
    lemma_split(k, m);
    let j = k / m;
    let r = k % m;
    assert(j < n) by (nonlinear_arith)
        requires
            k == j * m + r,
            0 <= r,
            k < n * m,
            m >= 1,
    ;
    lemma_cell_of(e, r);
    let (tau, sigma) = cell_of(e, r);
    let s = j * w + sigma;
    assert(s < n * w && 0 <= j * w) by (nonlinear_arith)
        requires
            0 <= j < n,
            0 <= sigma < w,
            s == j * w + sigma,
    ;
    lemma_split_converse(s, w, j, sigma);
}

/// Each cell of a valid cycle shows the atom that `cell_of` maps back to it.
pub proof fn lemma_cell_of_index(t: Type, tau: int, sigma: int)
    requires
        t.wf(),
        0 <= tau < t.spec_clocks(),
        0 <= sigma < t.spec_atoms_per_valid(),
        time_valid(t, tau),
    ensures
        cell_of(t, cell_index(t, tau, sigma)) == (tau, sigma),
    decreases t, 0nat,
{
    match t {
        Type::STuple { n, elem_type } => lemma_cell_of_index_spatial(n, *elem_type, tau, sigma),
        Type::SSeq { n, elem_type } => lemma_cell_of_index_spatial(n, *elem_type, tau, sigma),
        Type::TSeq { n, i, elem_type } => {
            let e = *elem_type;
            lemma_positive(e);
            let c = e.spec_clocks() as int;
            let a = e.spec_atoms_per_valid() as int;
            let v = e.spec_valid_clocks() as int;
            let m = a * v;
            lemma_split(tau, c);
            let j = tau / c;
            let r = tau % c;
            lemma_cell_index_bounds(e, r, sigma);
            lemma_cell_of_index(e, r, sigma);
            let ke = cell_index(e, r, sigma);
            assert(0 <= j * m && ke < m) by (nonlinear_arith)
                requires
                    0 <= j,
                    a >= 1,
                    v >= 1,
                    m == a * v,
                    ke < v * a,
            ;
            lemma_split_converse(j * m + ke, m, j, ke);
        },
        _ => {},
    }
}

proof fn lemma_cell_of_index_spatial(n: u32, e: Type, tau: int, sigma: int)
    requires
        e.wf(),
        n >= 1,
        0 <= tau < e.spec_clocks(),
        0 <= sigma < n * e.spec_atoms_per_valid(),
        time_valid(e, tau),
    ensures
        ({
            let w = e.spec_atoms_per_valid() as int;
            let m = w * e.spec_valid_clocks();
            let k = (sigma / w) * m + cell_index(e, tau, sigma % w);
            let (tau2, sigma2) = cell_of(e, k % m);
            tau2 == tau && (k / m) * w + sigma2 == sigma
        }),
    decreases e, 1nat,
{
    lemma_positive(e);
    let w = e.spec_atoms_per_valid() as int;
    let v = e.spec_valid_clocks() as int;
    let m = w * v;
    lemma_split(sigma, w);
    let j = sigma / w;
    let r = sigma % w;
    lemma_cell_index_bounds(e, tau, r);
    lemma_cell_of_index(e, tau, r);
    let ke = cell_index(e, tau, r);
    assert(0 <= j * m && ke < m) by (nonlinear_arith)
        requires
            0 <= j,
            w >= 1,
            v >= 1,
            m == w * v,
            ke < v * w,
    ;
    lemma_split_converse(j * m + ke, m, j, ke);
}

/// The placement is one to one: every atom of the flat list is shown in a
/// cell of a valid cycle (the one `cell_of` names), every such cell shows an
/// atom of the list, and no two such cells show the same atom.
pub proof fn lemma_placement_bijective(t: Type)
    requires
        t.wf(),
    ensures
        forall|k: int|
            0 <= k < t.spec_valid_clocks() * t.spec_atoms_per_valid() ==> {
                let (tau, sigma) = #[trigger] cell_of(t, k);
                &&& 0 <= tau < t.spec_clocks()
                &&& 0 <= sigma < t.spec_atoms_per_valid()
                &&& time_valid(t, tau)
                &&& cell_index(t, tau, sigma) == k
            },
        forall|tau: int, sigma: int|
            0 <= tau < t.spec_clocks() && 0 <= sigma < t.spec_atoms_per_valid() && time_valid(t, tau)
                ==> 0 <= #[trigger] cell_index(t, tau, sigma) < t.spec_valid_clocks() * t.spec_atoms_per_valid(),
        forall|tau1: int, sigma1: int, tau2: int, sigma2: int|
            0 <= tau1 < t.spec_clocks() && 0 <= sigma1 < t.spec_atoms_per_valid() && time_valid(t, tau1)
                && 0 <= tau2 < t.spec_clocks() && 0 <= sigma2 < t.spec_atoms_per_valid() && time_valid(
                t,
                tau2,
            ) && #[trigger] cell_index(t, tau1, sigma1) == #[trigger] cell_index(t, tau2, sigma2) ==> tau1
                == tau2 && sigma1 == sigma2,
{
    assert forall|k: int| 0 <= k < t.spec_valid_clocks() * t.spec_atoms_per_valid() implies {
        let (tau, sigma) = #[trigger] cell_of(t, k);
        &&& 0 <= tau < t.spec_clocks()
        &&& 0 <= sigma < t.spec_atoms_per_valid()
        &&& time_valid(t, tau)
        &&& cell_index(t, tau, sigma) == k
    } by {
        lemma_cell_of(t, k);
    }
    assert forall|tau: int, sigma: int|
        0 <= tau < t.spec_clocks() && 0 <= sigma < t.spec_atoms_per_valid() && time_valid(
            t,
            tau,
        ) implies 0 <= #[trigger] cell_index(t, tau, sigma) < t.spec_valid_clocks()
        * t.spec_atoms_per_valid() by {
        lemma_cell_index_bounds(t, tau, sigma);
    }
    assert forall|tau1: int, sigma1: int, tau2: int, sigma2: int|
        0 <= tau1 < t.spec_clocks() && 0 <= sigma1 < t.spec_atoms_per_valid() && time_valid(t, tau1)
            && 0 <= tau2 < t.spec_clocks() && 0 <= sigma2 < t.spec_atoms_per_valid() && time_valid(
            t,
            tau2,
        ) && #[trigger] cell_index(t, tau1, sigma1) == #[trigger] cell_index(
            t,
            tau2,
            sigma2,
        ) implies tau1 == tau2 && sigma1 == sigma2 by {
        lemma_cell_of_index(t, tau1, sigma1);
        lemma_cell_of_index(t, tau2, sigma2);
    }
}

/// The number of valid cycles among the first `k` cycles of type `t`.
pub open spec fn valid_count(t: Type, k: int) -> nat
    decreases k,
{
    if k <= 0 {
        0
    } else {
        valid_count(t, k - 1) + if time_valid(t, k - 1) {
            1nat
        } else {
            0nat
        }
    }
}

/// Two types whose cycles are valid alike count alike.
proof fn lemma_count_alike(t: Type, e: Type, k: int)
    requires
        forall|tau: int| #[trigger] time_valid(t, tau) == time_valid(e, tau),
    ensures
        valid_count(t, k) == valid_count(e, k),
    decreases k,
{
    if k > 0 {
        lemma_count_alike(t, e, k - 1);
    }
}

/// Within repetition `j` of a `TSeq`, the valid cycles are those of the
/// element, or none in an idle repetition.
proof fn lemma_count_within(t: Type, n: u32, e: Type, j: int, r: int)
    requires
        t is TSeq,
        t.spec_elem() == e,
        t->TSeq_n == n,
        e.spec_clocks() >= 1,
        0 <= j,
        0 <= r <= e.spec_clocks(),
    ensures
        valid_count(t, j * e.spec_clocks() + r) == valid_count(t, j * e.spec_clocks()) + if j < n {
            valid_count(e, r)
        } else {
            0
        },
    decreases r,
{
    let c = e.spec_clocks() as int;
    if r > 0 {
        lemma_count_within(t, n, e, j, r - 1);
        assert(0 <= j * c) by (nonlinear_arith)
            requires
                0 <= j,
                c >= 1,
        ;
        lemma_split_converse(j * c + r - 1, c, j, r - 1);
    }
}

/// After `j` repetitions of a `TSeq`, each non-idle repetition has counted
/// the element's valid cycles.
proof fn lemma_count_repetitions(t: Type, n: u32, e: Type, j: int)
    requires
        t is TSeq,
        t.spec_elem() == e,
        t->TSeq_n == n,
        e.spec_clocks() >= 1,
        valid_count(e, e.spec_clocks() as int) == e.spec_valid_clocks(),
        0 <= j,
    ensures
        valid_count(t, j * e.spec_clocks()) == (if j < n {
            j
        } else {
            n as int
        }) * e.spec_valid_clocks(),
    decreases j,
{
    let c = e.spec_clocks() as int;
    let v = e.spec_valid_clocks() as int;
    if j > 0 {
        lemma_count_repetitions(t, n, e, j - 1);
        lemma_count_within(t, n, e, j - 1, c);
        assert((j - 1) * c + c == j * c) by (nonlinear_arith);
        assert((j - 1) * v + v == j * v) by (nonlinear_arith);
    } else {
        assert(0 * c == 0);
    }
}

/// Exactly `valid_clocks(t)` of the `clocks(t)` cycles of a type carry data.
pub proof fn lemma_valid_cycles_counted(t: Type)
    requires
        t.wf(),
    ensures
        valid_count(t, t.spec_clocks() as int) == t.spec_valid_clocks(),
    decreases t,
{
    match t {
        Type::STuple { n, elem_type } => {
            lemma_valid_cycles_counted(*elem_type);
            lemma_count_alike(t, *elem_type, t.spec_clocks() as int);
        },
        Type::SSeq { n, elem_type } => {
            lemma_valid_cycles_counted(*elem_type);
            lemma_count_alike(t, *elem_type, t.spec_clocks() as int);
        },
        Type::TSeq { n, i, elem_type } => {
            let e = *elem_type;
            lemma_positive(e);
            lemma_valid_cycles_counted(e);
            let k = n as int + i as int;
            lemma_count_repetitions(t, n, e, k);
            if k == n as int {
                assert(k * e.spec_valid_clocks() == n * e.spec_valid_clocks());
            }
        },
        _ => {
            assert(valid_count(t, 0) == 0);
        },
    }
}

/// Quotient and remainder of a non-negative `x` by a positive `d`.
pub proof fn lemma_split(x: int, d: int)
    requires
        0 <= x,
        0 < d,
    ensures
        x == (x / d) * d + x % d,
        0 <= x / d,
        0 <= x % d < d,
{
    lemma_fundamental_div_mod(x, d);
    lemma_div_pos_is_pos(x, d);
    lemma_mod_pos_bound(x, d);
    assert(d * (x / d) == (x / d) * d) by (nonlinear_arith);
}

/// `x = q * d + r` with `0 <= r < d` fixes the quotient and the remainder.
pub proof fn lemma_split_converse(x: int, d: int, q: int, r: int)
    requires
        0 < d,
        0 <= r < d,
        x == q * d + r,
    ensures
        x / d == q,
        x % d == r,
{
    lemma_fundamental_div_mod_converse(x, d, q, r);
}

} // verus!
