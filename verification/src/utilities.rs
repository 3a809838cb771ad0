//! Numeric utilities: grid validation, an upper-bound search on sorted
//! grids, the bisection root finder and 13-point Gauss-Legendre quadrature.

use vstd::prelude::*;

use vstd::string::StringExecFns;

use crate::Scalar;

verus! {

#[derive(Clone, Copy, Debug, PartialEq, Eq, Structural)]
pub enum GridError {
    GridNan { index: usize },
    GridNotAscending { index: usize },
}

/// No entry of `g` is NaN.
pub open spec fn grid_no_nan<S: Scalar>(g: Seq<S>) -> bool {
    forall|i: int| 0 <= i < g.len() ==> !(#[trigger] g[i]).spec_is_nan()
}

/// Each entry is below its successor (phrased, as the check computes it,
/// as the absence of a `>=` violation).
pub open spec fn grid_adjacent_ascending<S: Scalar>(g: Seq<S>) -> bool {
    forall|i: int| 0 < i < g.len() ==> !(#[trigger] g[i - 1].spec_ge(g[i]))
}

/// Entries are pairwise strictly ascending.
pub open spec fn grid_sorted<S: Scalar>(g: Seq<S>) -> bool {
    forall|i: int, j: int| 0 <= i < j < g.len() ==> #[trigger] g[i].spec_lt(g[j])
}

proof fn lemma_sorted_chain<S: Scalar>(g: Seq<S>, i: int, j: int)
    requires
        grid_no_nan(g),
        grid_adjacent_ascending(g),
        0 <= i < j < g.len(),
    ensures
        g[i].spec_lt(g[j]),
    decreases j - i,
{
    S::law_ge_lt(g[j - 1], g[j]);
    if i < j - 1 {
        lemma_sorted_chain(g, i, j - 1);
        S::law_lt_transitive(g[i], g[j - 1], g[j]);
    }
}

/// A grid that passes `check_grid` is pairwise strictly ascending.
pub proof fn lemma_grid_sorted<S: Scalar>(g: Seq<S>)
    requires
        grid_no_nan(g),
        grid_adjacent_ascending(g),
    ensures
        grid_sorted(g),
{
    assert forall|i: int, j: int| 0 <= i < j < g.len() implies #[trigger] g[i].spec_lt(g[j]) by {
        lemma_sorted_chain(g, i, j);
    }
}

/// Entries never step down (phrased, as the checks compute it, as the
/// absence of a `>` violation between neighbours).
pub open spec fn nondecreasing<S: Scalar>(vals: Seq<S>) -> bool {
    forall|j: int| 0 < j < vals.len() ==> !(#[trigger] vals[j - 1].spec_gt(vals[j]))
}

/// `a <= b < c` implies `a < c`, on values that are not NaN.
pub proof fn lemma_le_lt_trans<S: Scalar>(a: S, b: S, c: S)
    requires
        !a.spec_is_nan(),
        !b.spec_is_nan(),
        a.spec_le(b),
        b.spec_lt(c),
    ensures
        a.spec_lt(c),
{
    S::law_le_lt(a, b);
    S::law_connex(a, b);
    if a.spec_lt(b) {
        S::law_lt_transitive(a, b, c);
    } else {
        S::law_eq_lt_compat(a, b, c);
    }
}

/// `a < b <= c` implies `a < c`, on values that are not NaN.
pub proof fn lemma_lt_le_trans<S: Scalar>(a: S, b: S, c: S)
    requires
        !b.spec_is_nan(),
        !c.spec_is_nan(),
        a.spec_lt(b),
        b.spec_le(c),
    ensures
        a.spec_lt(c),
{
    S::law_le_lt(b, c);
    S::law_connex(b, c);
    if b.spec_lt(c) {
        S::law_lt_transitive(a, b, c);
    } else {
        S::law_eq_lt_compat(b, c, a);
    }
}

/// In a NaN-free non-decreasing sequence, earlier entries are `<=` later
/// ones.
pub proof fn lemma_nondecreasing_le<S: Scalar>(vals: Seq<S>, i: int, j: int)
    requires
        grid_no_nan(vals),
        nondecreasing(vals),
        0 <= i <= j < vals.len(),
    ensures
        vals[i].spec_le(vals[j]),
    decreases j - i,
{
    if i == j {
        lemma_le_refl(vals[i]);
    } else {
        lemma_nondecreasing_le(vals, i, j - 1);
        S::law_gt_lt(vals[j - 1], vals[j]);
        S::law_le_lt(vals[i], vals[j - 1]);
        S::law_le_lt(vals[i], vals[j]);
        S::law_le_lt(vals[j - 1], vals[j]);
        // vals[j-1] <= vals[j] since the step down is excluded
        S::law_connex(vals[j - 1], vals[j]);
        if vals[j].spec_lt(vals[i]) {
            if vals[j - 1].spec_lt(vals[j]) {
                S::law_lt_transitive(vals[j - 1], vals[j], vals[i]);
            } else {
                S::law_eq_lt_compat(vals[j - 1], vals[j], vals[i]);
            }
        }
    }
}

/// `<=` is reflexive on values that are not NaN.
pub proof fn lemma_le_refl<S: Scalar>(a: S)
    requires
        !a.spec_is_nan(),
    ensures
        a.spec_le(a),
{
    if a.spec_lt(a) {
        S::law_lt_asymmetric(a, a);
    }
    S::law_le_lt(a, a);
}

/// Exactly when `check_grid` reports `e` for the grid `g`: a NaN entry is
/// reported at the first NaN position, an ascending-order violation at the
/// first violating position of a NaN-free grid.
pub open spec fn grid_error_spec<S: Scalar>(g: Seq<S>, e: GridError) -> bool {
    match e {
        GridError::GridNan { index } => index < g.len() && g[index as int].spec_is_nan() && (
        forall|j: int| 0 <= j < index ==> !(#[trigger] g[j]).spec_is_nan()),
        GridError::GridNotAscending { index } => grid_no_nan(g) && 0 < index < g.len()
            && g[index - 1].spec_ge(g[index as int]) && (forall|j: int|
            0 < j < index ==> !(#[trigger] g[j - 1].spec_ge(g[j]))),
    }
}

/// Validates a grid of breakpoints: rejects the first NaN entry, then the
/// first entry that fails to ascend strictly.
pub fn check_grid<S: Scalar>(grid: &Vec<S>) -> (r: Result<(), GridError>)
    ensures
        match r {
            Ok(()) => grid_no_nan(grid@) && grid_adjacent_ascending(grid@),
            Err(e) => grid_error_spec(grid@, e),
        },
{
    let mut i: usize = 0;
    while i < grid.len()
        invariant
            i <= grid@.len(),
            forall|j: int| 0 <= j < i ==> !(#[trigger] grid@[j]).spec_is_nan(),
        decreases grid@.len() - i,
    {
        if grid[i].is_nan() {
            return Err(GridError::GridNan { index: i });
        }
        i += 1;
    }
    let mut k: usize = 1;
    while k < grid.len()
        invariant
            1 <= k,
            grid_no_nan(grid@),
            forall|j: int| 0 < j < k ==> !(#[trigger] grid@[j - 1].spec_ge(grid@[j])),
        decreases grid@.len() - k,
    {
        if grid[k - 1].ge(grid[k]) {
            return Err(GridError::GridNotAscending { index: k });
        }
        k += 1;
    }
    Ok(())
}

/// One decimal digit as text.
fn digit_str(d: usize) -> (r: &'static str)
    requires
        d < 10,
    ensures
        r@.len() == 1,
{
    proof {
        reveal_strlit("0");
        reveal_strlit("1");
        reveal_strlit("2");
        reveal_strlit("3");
        reveal_strlit("4");
        reveal_strlit("5");
        reveal_strlit("6");
        reveal_strlit("7");
        reveal_strlit("8");
        reveal_strlit("9");
    }
    match d {
        0 => "0",
        1 => "1",
        2 => "2",
        3 => "3",
        4 => "4",
        5 => "5",
        6 => "6",
        7 => "7",
        8 => "8",
        _ => "9",
    }
}

/// The decimal rendering of a count or index, for error messages.
pub(crate) fn usize_to_string(n: usize) -> (r: String)
    ensures
        r@.len() > 0,
{
    let mut digits: Vec<usize> = Vec::new();
    let mut m: usize = n;
    while m >= 10
        invariant
            forall|j: int| 0 <= j < digits@.len() ==> #[trigger] digits@[j] < 10,
        decreases m,
    {
        digits.push(m % 10);
        m = m / 10;
    }
    digits.push(m % 10);
    let mut out: String = String::new();
    let mut i: usize = digits.len();
    while i > 0
        invariant
            i <= digits@.len(),
            digits@.len() >= 1,
            forall|j: int| 0 <= j < digits@.len() ==> #[trigger] digits@[j] < 10,
            out@.len() >= digits@.len() - i,
        decreases i,
    {
        i -= 1;
        out.append(digit_str(digits[i]));
    }
    out
}

/// A message with a count or index spliced into it.
pub(crate) fn indexed_message(prefix: &str, index: usize, suffix: &str) -> (r: String)
    ensures
        r@.len() > 0,
{
    let mut m: String = String::from_str(prefix);
    m.append(usize_to_string(index).as_str());
    m.append(suffix);
    m
}

/// An element-wise copy of a vector.
pub(crate) fn copied_vec<T: Copy>(v: &Vec<T>) -> (r: Vec<T>)
    ensures
        r@ == v@,
{
    let mut r: Vec<T> = Vec::new();
    let mut i: usize = 0;
    while i < v.len()
        invariant
            i <= v@.len(),
            r@ == v@.take(i as int),
        decreases v@.len() - i,
    {
        r.push(v[i]);
        proof {
            assert(r@ =~= v@.take(i + 1));
        }
        i += 1;
    }
    proof {
        assert(r@ =~= v@);
    }
    r
}

/// The least index whose entry lies strictly above `t`; `g.len()` if none
/// does.
pub open spec fn first_upper<S: Scalar>(g: Seq<S>, t: S) -> int
    decreases g.len(),
{
    if g.len() == 0 {
        0
    } else if t.spec_lt(g[0]) {
        0
    } else {
        1 + first_upper(g.drop_first(), t)
    }
}

pub proof fn lemma_first_upper<S: Scalar>(g: Seq<S>, t: S)
    ensures
        0 <= first_upper(g, t) <= g.len(),
        forall|j: int| 0 <= j < first_upper(g, t) ==> !t.spec_lt(#[trigger] g[j]),
        first_upper(g, t) < g.len() ==> t.spec_lt(g[first_upper(g, t)]),
    decreases g.len(),
{
    if g.len() > 0 && !t.spec_lt(g[0]) {
        let rest = g.drop_first();
        lemma_first_upper(rest, t);
        assert forall|j: int| 0 <= j < first_upper(g, t) implies !t.spec_lt(#[trigger] g[j]) by {
            if j > 0 {
                assert(g[j] == rest[j - 1]);
            }
        }
        if first_upper(g, t) < g.len() {
            assert(g[first_upper(g, t)] == rest[first_upper(rest, t)]);
        }
    }
}

/// Binary search for `first_upper`: the index of the first grid entry
/// strictly above `t`.
pub fn upper_bound<S: Scalar>(grid: &Vec<S>, t: S) -> (r: usize)
    requires
        grid_sorted(grid@),
    ensures
        r == first_upper(grid@, t),
{
    proof {
        lemma_first_upper(grid@, t);
    }
    let mut lo: usize = 0;
    let mut hi: usize = grid.len();
    while lo < hi
        invariant
            lo <= hi <= grid@.len(),
            grid_sorted(grid@),
            forall|j: int| 0 <= j < lo ==> !t.spec_lt(#[trigger] grid@[j]),
            forall|j: int| hi <= j < grid@.len() ==> t.spec_lt(#[trigger] grid@[j]),
        decreases hi - lo,
    {
        let mid: usize = lo + (hi - lo) / 2;
        if t.lt(grid[mid]) {
            proof {
                assert forall|j: int| mid <= j < grid@.len() implies t.spec_lt(
                    #[trigger] grid@[j],
                ) by {
                    if j > mid {
                        S::law_lt_transitive(t, grid@[mid as int], grid@[j]);
                    }
                }
            }
            hi = mid;
        } else {
            proof {
                assert forall|j: int| 0 <= j < mid + 1 implies !t.spec_lt(#[trigger] grid@[j]) by {
                    if j < mid && t.spec_lt(grid@[j]) {
                        S::law_lt_transitive(t, grid@[j], grid@[mid as int]);
                    }
                }
            }
            lo = mid + 1;
        }
    }
    proof {
        let f = first_upper(grid@, t);
        if f < lo {
            assert(t.spec_lt(grid@[f]));
        }
        if lo < f {
            assert(t.spec_lt(grid@[lo as int]));
        }
    }
    lo
}

/// Every value the search function can return at `x` compares equal to
/// zero.
pub open spec fn spec_only_zero_at<S: Scalar, F: Fn(S) -> S>(f: F, x: S) -> bool {
    forall|y: S| #[trigger] call_ensures(f, (x,), y) ==> y.spec_eq(S::spec_zero())
}

/// No value the search function can return at `x` compares equal to zero.
pub open spec fn spec_never_zero_at<S: Scalar, F: Fn(S) -> S>(f: F, x: S) -> bool {
    forall|y: S| #[trigger] call_ensures(f, (x,), y) ==> !y.spec_eq(S::spec_zero())
}

/// No admissible pair of endpoint samples brackets a root: neither sample
/// is zero and their product is not negative.
pub open spec fn spec_no_bracket<S: Scalar, F: Fn(S) -> S>(f: F, xmin: S, xmax: S) -> bool {
    forall|y1: S, y2: S|
        #![trigger call_ensures(f, (xmin,), y1), call_ensures(f, (xmax,), y2)]
        call_ensures(f, (xmin,), y1) && call_ensures(f, (xmax,), y2) ==> !y1.spec_eq(
            S::spec_zero(),
        ) && !y2.spec_eq(S::spec_zero()) && !y1.spec_mul(y2).spec_lt(S::spec_zero())
}

/// Root finding by bisection over `[xmin, xmax]`, with a fixed budget of
/// function evaluations and an interval-width tolerance.
///
/// The contract speaks over the search function's own postcondition: a
/// zero sample at an endpoint makes that endpoint the result; when no
/// endpoint pair brackets a root, the result is the endpoint whose sample
/// is smaller in magnitude (the documented best-estimate fallback); and in
/// every case the result is a sampled point inside the interval, or NaN,
/// or the average of two values that were each inside the interval or NaN
/// (the early exit for a degenerate midpoint).
pub fn bisect<S: Scalar, F: Fn(S) -> S>(f: F, xmin: S, xmax: S, xtol: S, max_calls: usize) -> (r:
    S)
    requires
        !xmin.spec_is_nan(),
        !xmax.spec_is_nan(),
        xmin.spec_le(xmax),
        max_calls >= 2,
        forall|x: S| call_requires(f, (x,)),
    ensures
        spec_only_zero_at(f, xmin) ==> r == xmin,
        (spec_never_zero_at(f, xmin) && spec_only_zero_at(f, xmax)) ==> r == xmax,
        spec_no_bracket(f, xmin, xmax) ==> r == xmin || r == xmax,
        (spec_no_bracket(f, xmin, xmax) && (exists|y: S| call_ensures(f, (xmin,), y)) && (exists|
            y: S,
        | call_ensures(f, (xmax,), y))) ==> (exists|y1: S, y2: S|
            #![trigger call_ensures(f, (xmin,), y1), call_ensures(f, (xmax,), y2)]
            call_ensures(f, (xmin,), y1) && call_ensures(f, (xmax,), y2) && r == (
            if y1.spec_abs().spec_lt(y2.spec_abs()) {
                xmin
            } else {
                xmax
            })),
        r.spec_is_nan() || (exists|y: S|
            #[trigger] call_ensures(f, (r,), y) && xmin.spec_le(r) && r.spec_le(xmax)) || (exists|
            a: S,
            b: S,
        |
            (a.spec_is_nan() || (xmin.spec_le(a) && a.spec_le(xmax))) && (b.spec_is_nan() || (
            xmin.spec_le(b) && b.spec_le(xmax))) && r == a.spec_add(b).spec_div(S::spec_two())),
{
    proof {
        lemma_le_refl(xmin);
        lemma_le_refl(xmax);
    }
    let mut lo: S = xmin;
    let mut hi: S = xmax;
    let mut calls: usize = 0;
    let mut fmin: S = f(lo);
    calls += 1;
    if fmin.is_eq(S::zero()) {
        proof {
            assert(call_ensures(f, (xmin,), fmin) && xmin.spec_le(xmin) && xmin.spec_le(xmax));
        }
        return lo;
    }
    let mut fmax: S = f(hi);
    calls += 1;
    if fmax.is_eq(S::zero()) {
        proof {
            assert(call_ensures(f, (xmax,), fmax) && xmin.spec_le(xmax) && xmax.spec_le(xmax));
        }
        return hi;
    }
    let ghost fmin0 = fmin;
    let ghost fmax0 = fmax;
    if fmin.mul(fmax).lt(S::zero()) {
        while calls < max_calls && hi.sub(lo).gt(xtol)
            invariant
                calls <= max_calls,
                !xmin.spec_is_nan(),
                !xmax.spec_is_nan(),
                lo.spec_is_nan() || (xmin.spec_le(lo) && lo.spec_le(xmax)),
                hi.spec_is_nan() || (xmin.spec_le(hi) && hi.spec_le(xmax)),
                forall|x: S| call_requires(f, (x,)),
                call_ensures(f, (xmin,), fmin0),
                call_ensures(f, (xmax,), fmax0),
                !fmin0.spec_eq(S::spec_zero()),
                !fmax0.spec_eq(S::spec_zero()),
                fmin0.spec_mul(fmax0).spec_lt(S::spec_zero()),
                call_ensures(f, (lo,), fmin),
                call_ensures(f, (hi,), fmax),
            decreases max_calls - calls,
        {
            let xmid: S = lo.add(hi).div(S::two());
            if xmid.le(lo) || xmid.ge(hi) {
                proof {
                    assert((lo.spec_is_nan() || (xmin.spec_le(lo) && lo.spec_le(xmax))) && (
                    hi.spec_is_nan() || (xmin.spec_le(hi) && hi.spec_le(xmax))) && xmid
                        == lo.spec_add(hi).spec_div(S::spec_two()));
                }
                return xmid;
            }
            proof {
                if !xmid.spec_is_nan() {
                    if lo.spec_is_nan() || hi.spec_is_nan() {
                        S::law_nan_propagates(lo, hi);
                        S::law_nan_propagates(lo.spec_add(hi), S::spec_two());
                        assert(false);
                    }
                    assert(!lo.spec_is_nan() && !hi.spec_is_nan());
                    S::law_le_lt(xmid, lo);
                    S::law_ge_lt(xmid, hi);
                    S::law_le_lt(xmin, lo);
                    S::law_le_lt(hi, xmax);
                    S::law_le_lt(xmin, xmid);
                    S::law_le_lt(xmid, xmax);
                    if xmid.spec_lt(xmin) {
                        S::law_lt_transitive(lo, xmid, xmin);
                    }
                    if xmax.spec_lt(xmid) {
                        S::law_lt_transitive(xmax, xmid, hi);
                    }
                }
            }
            let fmid: S = f(xmid);
            calls += 1;
            if fmid.is_eq(S::zero()) {
                proof {
                    if !xmid.spec_is_nan() {
                        assert(call_ensures(f, (xmid,), fmid) && xmin.spec_le(xmid)
                            && xmid.spec_le(xmax));
                    }
                }
                return xmid;
            }
            if fmin.mul(fmid).lt(S::zero()) {
                hi = xmid;
                fmax = fmid;
            } else {
                lo = xmid;
                fmin = fmid;
            }
        }
    }
    proof {
        if !(fmin0.spec_mul(fmax0).spec_lt(S::spec_zero())) {
            assert(call_ensures(f, (xmin,), fmin) && call_ensures(f, (xmax,), fmax));
        }
    }
    if fmin.abs().lt(fmax.abs()) {
        lo
    } else {
        hi
    }
}

/// The parameter the quadrature rule samples for node position `x` over the
/// interval `[a, b]`.
pub open spec fn gauss_node_arg<S: Scalar>(a: S, b: S, x: S) -> S {
    b.spec_sub(a).spec_mul(x).spec_div(S::spec_two()).spec_add(
        a.spec_add(b).spec_div(S::spec_two()),
    )
}

/// The running weighted sum over the first `k` nodes, accumulated in node
/// order.
pub open spec fn weighted_sum<S: Scalar>(nodes: Seq<(S, S)>, ys: Seq<S>, k: int) -> S
    decreases k,
{
    if k <= 0 {
        S::spec_zero()
    } else {
        weighted_sum(nodes, ys, k - 1).spec_add(nodes[k - 1].1.spec_mul(ys[k - 1]))
    }
}

/// `weighted_sum` only depends on the sampled values, so two runs that
/// sampled pointwise-equal values agree.
pub proof fn lemma_weighted_sum_congruent<S: Scalar>(
    nodes: Seq<(S, S)>,
    ys: Seq<S>,
    zs: Seq<S>,
    k: int,
)
    requires
        forall|i: int| 0 <= i < k ==> #[trigger] ys[i] == zs[i],
    ensures
        weighted_sum(nodes, ys, k) == weighted_sum(nodes, zs, k),
    decreases k,
{
    if k > 0 {
        lemma_weighted_sum_congruent(nodes, ys, zs, k - 1);
    }
}

/// The weighted node sum of a spec-level integrand sampled at each node.
pub open spec fn weighted_sum_fn<S: Scalar>(nodes: Seq<(S, S)>, g: spec_fn(S) -> S, k: int) -> S
    decreases k,
{
    if k <= 0 {
        S::spec_zero()
    } else {
        weighted_sum_fn(nodes, g, k - 1).spec_add(nodes[k - 1].1.spec_mul(g(nodes[k - 1].0)))
    }
}

/// When the sampled values agree pointwise with a spec-level integrand, the
/// two weighted sums agree.
pub proof fn lemma_weighted_sum_fn<S: Scalar>(
    nodes: Seq<(S, S)>,
    ys: Seq<S>,
    g: spec_fn(S) -> S,
    k: int,
)
    requires
        forall|i: int| 0 <= i < k ==> #[trigger] ys[i] == g(nodes[i].0),
    ensures
        weighted_sum(nodes, ys, k) == weighted_sum_fn(nodes, g, k),
    decreases k,
{
    if k > 0 {
        lemma_weighted_sum_fn(nodes, ys, g, k - 1);
    }
}

/// Gauss-Legendre quadrature of order 13 of `f` over `[a, b]`.
///
/// The result is the weighted node sum of one sampled value per node,
/// scaled by half the interval width; which values were sampled is pinned
/// down by `f`'s own postcondition.
pub fn gauss_legendre13<S: Scalar, F: Fn(S) -> S>(f: &F, a: S, b: S) -> (r: S)
    requires
        forall|x: S| call_requires(*f, (x,)),
    ensures
        exists|ys: Seq<S>|
            ys.len() == S::spec_nodes().len() && (forall|i: int|
                0 <= i < ys.len() ==> call_ensures(
                    *f,
                    (gauss_node_arg(a, b, S::spec_nodes()[i].0),),
                    #[trigger] ys[i],
                )) && r == b.spec_sub(a).spec_mul(
                weighted_sum(S::spec_nodes(), ys, S::spec_nodes().len() as int),
            ).spec_div(S::spec_two()),
{
    let nodes: Vec<(S, S)> = S::nodes();
    let mut acc: S = S::zero();
    let ghost mut ys: Seq<S> = Seq::empty();
    let mut i: usize = 0;
    while i < nodes.len()
        invariant
            nodes@ == S::spec_nodes(),
            i <= nodes@.len(),
            ys.len() == i,
            forall|x: S| call_requires(*f, (x,)),
            forall|j: int|
                0 <= j < i ==> call_ensures(
                    *f,
                    (gauss_node_arg(a, b, S::spec_nodes()[j].0),),
                    #[trigger] ys[j],
                ),
            acc == weighted_sum(S::spec_nodes(), ys, i as int),
        decreases nodes@.len() - i,
    {
        let (x, w) = nodes[i];
        let arg: S = b.sub(a).mul(x).div(S::two()).add(a.add(b).div(S::two()));
        let y: S = f(arg);
        proof {
            let ys0 = ys;
            ys = ys.push(y);
            assert(weighted_sum(S::spec_nodes(), ys, (i + 1) as int) == weighted_sum(
                S::spec_nodes(),
                ys,
                i as int,
            ).spec_add(S::spec_nodes()[i as int].1.spec_mul(y)));
            lemma_weighted_sum_congruent(S::spec_nodes(), ys, ys0, i as int);
        }
        acc = acc.add(w.mul(y));
        i += 1;
    }
    b.sub(a).mul(acc).div(S::two())
}

impl GridError {
    /// A human-readable description of the error.
    pub fn message(&self) -> (r: String)
        ensures
            r@.len() > 0,
    {
        match self {
            GridError::GridNan { index } => indexed_message(
                "index ",
                *index,
                ": NaN values are not allowed in grid",
            ),
            GridError::GridNotAscending { index } => indexed_message(
                "index ",
                *index,
                ": grid values must be strictly ascending",
            ),
        }
    }
}

} // verus!
