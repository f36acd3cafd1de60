//! Properties of the componentwise operations and of the gradient that hold
//! for all inputs, proved over the models that the operations' contracts use.
use vstd::prelude::*;
use crate::matrix::MatrixModel;
use crate::scalar::abs_int;
use crate::gradient::{
    forward_diff2, central_diff2, backward_diff2, grad_y_at, grad_x_at, gradient_defined, is_grad_y, is_grad_x,
};
use crate::componentwise::{
    fits_i64, div_trunc, abs_of, mul_of, div_of, inf_of, sup_of, add_scalar_of, mul_accumulate_of,
    div_accumulate_of, abs_defined, mul_defined, quot_defined, div_defined, accumulate_defined,
    mul_accumulate_defined, div_accumulate_defined, add_scalar_defined,
};

verus! {

/// Taking the absolute value twice gives the same matrix as taking it once;
/// every entry of the absolute value is nonnegative and is the entry of the
/// matrix or its opposite; the shape is kept.
pub proof fn law_abs_idempotent(m: MatrixModel<i64>)
    requires
        abs_defined(m),
    ensures
        abs_defined(abs_of(m)),
        abs_of(m).same_shape(m),
        abs_of(m).data.len() == m.data.len(),
        forall|k: int| 0 <= k < m.data.len() ==> #[trigger] abs_of(m).data[k] >= 0,
        forall|k: int| 0 <= k < m.data.len() ==>
            #[trigger] abs_of(m).data[k] == m.data[k] || abs_of(m).data[k] == -m.data[k],
        abs_of(abs_of(m)) == abs_of(m),
{
    let a = abs_of(m);
    assert(abs_of(a).data =~= a.data);
}

/// The componentwise product does not depend on the order of its operands.
pub proof fn law_mul_commutative(a: MatrixModel<i64>, b: MatrixModel<i64>)
    requires
        a.wf(),
        b.wf(),
        a.same_shape(b),
    ensures
        mul_defined(a, b) == mul_defined(b, a),
        mul_of(a, b) == mul_of(b, a),
{
    assert forall|k: int| 0 <= k < a.data.len() implies a.data[k] * b.data[k] == b.data[k] * a.data[k] by {
        assert(a.data[k] * b.data[k] == b.data[k] * a.data[k]) by (nonlinear_arith);
    }
    assert(mul_of(a, b).data =~= mul_of(b, a).data);
}

proof fn lemma_div_trunc_of_product(x: int, y: int)
    requires
        y != 0,
    ensures
        div_trunc(x * y, y) == x,
{
    let ax = abs_int(x);
    let ay = abs_int(y);
    assert(abs_int(x * y) == ax * ay) by (nonlinear_arith)
        requires
            ax == abs_int(x),
            ay == abs_int(y),
    ;
    assert((ax * ay) / ay == ax) by (nonlinear_arith)
        requires
            ay > 0,
            ax >= 0,
    ;
    assert((x * y < 0) == ((x < 0) != (y < 0)) || x == 0) by (nonlinear_arith)
        requires
            y != 0,
    ;
}

/// Dividing a componentwise product by one of its factors, entry by entry,
/// gives back the other factor, wherever that factor has no zero entry.
pub proof fn law_div_undoes_mul(a: MatrixModel<i64>, b: MatrixModel<i64>)
    requires
        a.wf(),
        b.wf(),
        mul_defined(a, b),
        forall|k: int| 0 <= k < b.data.len() ==> #[trigger] b.data[k] != 0,
    ensures
        div_defined(mul_of(a, b), b),
        div_of(mul_of(a, b), b) == a,
{
    let p = mul_of(a, b);
    assert forall|k: int| 0 <= k < p.data.len() implies #[trigger] quot_defined(p.data[k], b.data[k])
        && div_trunc(p.data[k] as int, b.data[k] as int) == a.data[k] by {
        assert(fits_i64(a.data[k] * b.data[k]));
        assert(b.data[k] != 0);
        lemma_div_trunc_of_product(a.data[k] as int, b.data[k] as int);
        if b.data[k] == -1 {
            assert(a.data[k] * b.data[k] == -a.data[k]);
        }
    }
    assert forall|k: int| 0 <= k < a.data.len() implies #[trigger] div_of(p, b).data[k] == a.data[k] by {
        assert(quot_defined(p.data[k], b.data[k]));
    }
    assert(div_of(p, b).data =~= a.data);
}

/// Adding a scalar and then its opposite gives back the matrix.
pub proof fn law_add_scalar_inverse(m: MatrixModel<i64>, s: i64)
    requires
        add_scalar_defined(m, s),
        s != i64::MIN,
    ensures
        add_scalar_defined(add_scalar_of(m, s), (-s) as i64),
        add_scalar_of(add_scalar_of(m, s), (-s) as i64) == m,
{
    assert(add_scalar_of(add_scalar_of(m, s), (-s) as i64).data =~= m.data);
}

/// The infimum lies below the supremum, entry by entry; each of their
/// entries is one of the two operands' entries, so that the infimum is the
/// smaller and the supremum the larger of the two; both keep the shape and
/// are symmetric in their operands.
pub proof fn law_inf_sup_order(a: MatrixModel<i64>, b: MatrixModel<i64>)
    requires
        a.wf(),
        b.wf(),
        a.same_shape(b),
    ensures
        forall|k: int| 0 <= k < a.data.len() ==>
            #[trigger] inf_of(a, b).data[k] <= sup_of(a, b).data[k],
        forall|k: int| 0 <= k < a.data.len() ==>
            inf_of(a, b).data[k] <= a.data[k] && #[trigger] inf_of(a, b).data[k] <= b.data[k],
        forall|k: int| 0 <= k < a.data.len() ==>
            sup_of(a, b).data[k] >= a.data[k] && #[trigger] sup_of(a, b).data[k] >= b.data[k],
        forall|k: int| 0 <= k < a.data.len() ==>
            #[trigger] inf_of(a, b).data[k] == a.data[k] || inf_of(a, b).data[k] == b.data[k],
        forall|k: int| 0 <= k < a.data.len() ==>
            #[trigger] sup_of(a, b).data[k] == a.data[k] || sup_of(a, b).data[k] == b.data[k],
        inf_of(a, b).same_shape(a),
        sup_of(a, b).same_shape(a),
        inf_of(a, b).data.len() == a.data.len(),
        sup_of(a, b).data.len() == a.data.len(),
        inf_of(a, b) == inf_of(b, a),
        sup_of(a, b) == sup_of(b, a),
        inf_of(a, a) == a,
        sup_of(a, a) == a,
{
    assert(inf_of(a, b).data =~= inf_of(b, a).data);
    assert(sup_of(a, b).data =~= sup_of(b, a).data);
    assert(inf_of(a, a).data =~= a.data);
    assert(sup_of(a, a).data =~= a.data);
}

/// `cmpy` is `alpha` times the componentwise product plus `beta` times the
/// matrix, entry by entry; with `alpha == 1` and `beta == 0` it is the
/// componentwise product.
pub proof fn law_mul_accumulate_is_scaled_product(
    m: MatrixModel<i64>,
    alpha: i64,
    a: MatrixModel<i64>,
    b: MatrixModel<i64>,
    beta: i64,
)
    requires
        m.wf(),
        a.wf(),
        b.wf(),
        mul_accumulate_defined(m, alpha, a, b, beta),
    ensures
        mul_defined(a, b),
        forall|k: int| 0 <= k < m.data.len() ==>
            #[trigger] mul_accumulate_of(m, alpha, a, b, beta).data[k]
                == alpha * mul_of(a, b).data[k] + beta * m.data[k],
        alpha == 1 && beta == 0 ==> mul_accumulate_of(m, alpha, a, b, beta) == mul_of(a, b),
{
    assert forall|k: int| 0 <= k < a.data.len() implies fits_i64(#[trigger] (a.data[k] * b.data[k])) by {
        assert(accumulate_defined(alpha, m.data[k] * 0 + a.data[k] * b.data[k], beta, m.data[k]));
    }
    assert forall|k: int| 0 <= k < m.data.len() implies
        #[trigger] mul_accumulate_of(m, alpha, a, b, beta).data[k]
            == alpha * mul_of(a, b).data[k] + beta * m.data[k] by {
        assert(accumulate_defined(alpha, a.data[k] * b.data[k], beta, m.data[k]));
    }
    if alpha == 1 && beta == 0 {
        assert forall|k: int| 0 <= k < m.data.len() implies
            mul_accumulate_of(m, alpha, a, b, beta).data[k] == mul_of(a, b).data[k] by {
            assert(accumulate_defined(alpha, a.data[k] * b.data[k], beta, m.data[k]));
            assert(1 * (a.data[k] * b.data[k]) == a.data[k] * b.data[k]);
        }
        assert(mul_accumulate_of(m, alpha, a, b, beta).data =~= mul_of(a, b).data);
    }
}

/// `cdpy` is `alpha` times the componentwise quotient plus `beta` times the
/// matrix, entry by entry; with `alpha == 1` and `beta == 0` it is the
/// componentwise quotient.
pub proof fn law_div_accumulate_is_scaled_quotient(
    m: MatrixModel<i64>,
    alpha: i64,
    a: MatrixModel<i64>,
    b: MatrixModel<i64>,
    beta: i64,
)
    requires
        m.wf(),
        a.wf(),
        b.wf(),
        div_accumulate_defined(m, alpha, a, b, beta),
    ensures
        div_defined(a, b),
        forall|k: int| 0 <= k < m.data.len() ==>
            #[trigger] div_accumulate_of(m, alpha, a, b, beta).data[k]
                == alpha * div_of(a, b).data[k] + beta * m.data[k],
        alpha == 1 && beta == 0 ==> div_accumulate_of(m, alpha, a, b, beta) == div_of(a, b),
{
    assert forall|k: int| 0 <= k < m.data.len() implies
        #[trigger] div_accumulate_of(m, alpha, a, b, beta).data[k]
            == alpha * div_of(a, b).data[k] + beta * m.data[k] by {
        assert(quot_defined(a.data[k], b.data[k]));
    }
    if alpha == 1 && beta == 0 {
        assert(div_accumulate_of(m, alpha, a, b, beta).data =~= div_of(a, b).data);
    }
}


/// The value at `t` of the quadratic `c2 * t^2 + c1 * t + c0`.
pub open spec fn quadratic(c2: int, c1: int, c0: int, t: int) -> int {
    c2 * t * t + c1 * t + c0
}

proof fn lemma_stencils_exact(c2: int, c1: int, c0: int, t: int)
    ensures
        forward_diff2(quadratic(c2, c1, c0, t), quadratic(c2, c1, c0, t + 1), quadratic(c2, c1, c0, t + 2))
            == 2 * (2 * c2 * t + c1),
        central_diff2(quadratic(c2, c1, c0, t - 1), quadratic(c2, c1, c0, t + 1)) == 2 * (2 * c2 * t + c1),
        backward_diff2(quadratic(c2, c1, c0, t - 2), quadratic(c2, c1, c0, t - 1), quadratic(c2, c1, c0, t))
            == 2 * (2 * c2 * t + c1),
{
    assert(forward_diff2(quadratic(c2, c1, c0, t), quadratic(c2, c1, c0, t + 1), quadratic(c2, c1, c0, t + 2))
        == 2 * (2 * c2 * t + c1)) by (nonlinear_arith);
    assert(central_diff2(quadratic(c2, c1, c0, t - 1), quadratic(c2, c1, c0, t + 1)) == 2 * (2 * c2 * t + c1))
        by (nonlinear_arith);
    assert(backward_diff2(quadratic(c2, c1, c0, t - 2), quadratic(c2, c1, c0, t - 1), quadratic(c2, c1, c0, t))
        == 2 * (2 * c2 * t + c1)) by (nonlinear_arith);
}

/// The second-order differences are exact on quadratics: when every column
/// of `m` follows the quadratic `c2 * y^2 + c1 * y + c0` of the row index,
/// the `y` component of the gradient is its derivative `2 * c2 * y + c1`
/// (held at twice its value) at every entry, edges included.
pub proof fn law_grad_y_exact_on_quadratics(m: MatrixModel<i32>, c2: int, c1: int, c0: int)
    requires
        gradient_defined(m),
        forall|y: int, x: int|
            0 <= y < m.nrows && 0 <= x < m.ncols ==> #[trigger] m.at(y, x) as int == quadratic(c2, c1, c0, y),
    ensures
        forall|y: int, x: int|
            0 <= y < m.nrows && 0 <= x < m.ncols ==> #[trigger] grad_y_at(m, y, x) == 2 * (2 * c2 * y + c1),
{
    assert forall|y: int, x: int| 0 <= y < m.nrows && 0 <= x < m.ncols implies
        #[trigger] grad_y_at(m, y, x) == 2 * (2 * c2 * y + c1) by {
        let h = m.nrows as int;
        assert(m.at(0, x) as int == quadratic(c2, c1, c0, 0));
        assert(m.at(1, x) as int == quadratic(c2, c1, c0, 1));
        assert(m.at(2, x) as int == quadratic(c2, c1, c0, 2));
        assert(m.at(h - 3, x) as int == quadratic(c2, c1, c0, h - 3));
        assert(m.at(h - 2, x) as int == quadratic(c2, c1, c0, h - 2));
        assert(m.at(h - 1, x) as int == quadratic(c2, c1, c0, h - 1));
        if 0 < y < h - 1 {
            assert(m.at(y - 1, x) as int == quadratic(c2, c1, c0, y - 1));
            assert(m.at(y + 1, x) as int == quadratic(c2, c1, c0, y + 1));
        }
        lemma_stencils_exact(c2, c1, c0, y);
    }
}

/// The same exactness along the rows: when every row of `m` follows the
/// quadratic `c2 * x^2 + c1 * x + c0` of the column index, the `x`
/// component of the gradient is `2 * c2 * x + c1` (held at twice its value)
/// at every entry.
pub proof fn law_grad_x_exact_on_quadratics(m: MatrixModel<i32>, c2: int, c1: int, c0: int)
    requires
        gradient_defined(m),
        forall|y: int, x: int|
            0 <= y < m.nrows && 0 <= x < m.ncols ==> #[trigger] m.at(y, x) as int == quadratic(c2, c1, c0, x),
    ensures
        forall|y: int, x: int|
            0 <= y < m.nrows && 0 <= x < m.ncols ==> #[trigger] grad_x_at(m, y, x) == 2 * (2 * c2 * x + c1),
{
    assert forall|y: int, x: int| 0 <= y < m.nrows && 0 <= x < m.ncols implies
        #[trigger] grad_x_at(m, y, x) == 2 * (2 * c2 * x + c1) by {
        let w = m.ncols as int;
        assert(m.at(y, 0) as int == quadratic(c2, c1, c0, 0));
        assert(m.at(y, 1) as int == quadratic(c2, c1, c0, 1));
        assert(m.at(y, 2) as int == quadratic(c2, c1, c0, 2));
        assert(m.at(y, w - 3) as int == quadratic(c2, c1, c0, w - 3));
        assert(m.at(y, w - 2) as int == quadratic(c2, c1, c0, w - 2));
        assert(m.at(y, w - 1) as int == quadratic(c2, c1, c0, w - 1));
        if 0 < x < w - 1 {
            assert(m.at(y, x - 1) as int == quadratic(c2, c1, c0, x - 1));
            assert(m.at(y, x + 1) as int == quadratic(c2, c1, c0, x + 1));
        }
        lemma_stencils_exact(c2, c1, c0, x);
    }
}

/// A constant matrix has a zero gradient in both components.
pub proof fn law_gradient_of_constant(m: MatrixModel<i32>, c: int)
    requires
        gradient_defined(m),
        forall|y: int, x: int| 0 <= y < m.nrows && 0 <= x < m.ncols ==> #[trigger] m.at(y, x) as int == c,
    ensures
        forall|y: int, x: int|
            0 <= y < m.nrows && 0 <= x < m.ncols ==> #[trigger] grad_y_at(m, y, x) == 0 && grad_x_at(m, y, x) == 0,
{
    assert forall|y: int, x: int| 0 <= y < m.nrows && 0 <= x < m.ncols implies
        #[trigger] m.at(y, x) as int == quadratic(0, 0, c, y) && m.at(y, x) as int == quadratic(0, 0, c, x) by {
        assert(0 * y * y + 0 * y + c == c) by (nonlinear_arith);
        assert(0 * x * x + 0 * x + c == c) by (nonlinear_arith);
    }
    law_grad_y_exact_on_quadratics(m, 0, 0, c);
    law_grad_x_exact_on_quadratics(m, 0, 0, c);
}


/// The stencils of the gradient: in the `y` component (held at twice its
/// value), the first row is `-3 m(0, x) + 4 m(1, x) - m(2, x)`, the last row
/// is `m(h-3, x) - 4 m(h-2, x) + 3 m(h-1, x)`, and every row in between is the
/// central difference `m(y+1, x) - m(y-1, x)`; the `x` component is the same
/// along the columns.
pub proof fn law_gradient_stencils(m: MatrixModel<i32>, gy: MatrixModel<i64>, gx: MatrixModel<i64>)
    requires
        gradient_defined(m),
        is_grad_y(gy, m),
        is_grad_x(gx, m),
    ensures
        gy.nrows == m.nrows && gy.ncols == m.ncols,
        gx.nrows == m.nrows && gx.ncols == m.ncols,
        forall|y: int, x: int| 0 < y < m.nrows - 1 && 0 <= x < m.ncols ==>
            #[trigger] gy.at(y, x) == m.at(y + 1, x) - m.at(y - 1, x),
        forall|x: int| 0 <= x < m.ncols ==>
            #[trigger] gy.at(0, x) == -3 * m.at(0, x) + 4 * m.at(1, x) - m.at(2, x),
        forall|x: int| 0 <= x < m.ncols ==>
            #[trigger] gy.at(m.nrows - 1, x) == m.at(m.nrows - 3, x) - 4 * m.at(m.nrows - 2, x)
                + 3 * m.at(m.nrows - 1, x),
        forall|y: int, x: int| 0 <= y < m.nrows && 0 < x < m.ncols - 1 ==>
            #[trigger] gx.at(y, x) == m.at(y, x + 1) - m.at(y, x - 1),
        forall|y: int| 0 <= y < m.nrows ==>
            #[trigger] gx.at(y, 0) == -3 * m.at(y, 0) + 4 * m.at(y, 1) - m.at(y, 2),
        forall|y: int| 0 <= y < m.nrows ==>
            #[trigger] gx.at(y, m.ncols - 1) == m.at(y, m.ncols - 3) - 4 * m.at(y, m.ncols - 2)
                + 3 * m.at(y, m.ncols - 1),
{
    assert forall|y: int, x: int| 0 < y < m.nrows - 1 && 0 <= x < m.ncols implies
        #[trigger] gy.at(y, x) == m.at(y + 1, x) - m.at(y - 1, x) by {
        assert(gy.at(y, x) == grad_y_at(m, y, x));
    }
    assert forall|x: int| 0 <= x < m.ncols implies
        #[trigger] gy.at(0, x) == -3 * m.at(0, x) + 4 * m.at(1, x) - m.at(2, x) by {
        assert(gy.at(0, x) == grad_y_at(m, 0, x));
    }
    assert forall|x: int| 0 <= x < m.ncols implies
        #[trigger] gy.at(m.nrows - 1, x) == m.at(m.nrows - 3, x) - 4 * m.at(m.nrows - 2, x)
            + 3 * m.at(m.nrows - 1, x) by {
        assert(gy.at(m.nrows - 1, x) == grad_y_at(m, m.nrows - 1, x));
    }
    assert forall|y: int, x: int| 0 <= y < m.nrows && 0 < x < m.ncols - 1 implies
        #[trigger] gx.at(y, x) == m.at(y, x + 1) - m.at(y, x - 1) by {
        assert(gx.at(y, x) == grad_x_at(m, y, x));
    }
    assert forall|y: int| 0 <= y < m.nrows implies
        #[trigger] gx.at(y, 0) == -3 * m.at(y, 0) + 4 * m.at(y, 1) - m.at(y, 2) by {
        assert(gx.at(y, 0) == grad_x_at(m, y, 0));
    }
    assert forall|y: int| 0 <= y < m.nrows implies
        #[trigger] gx.at(y, m.ncols - 1) == m.at(y, m.ncols - 3) - 4 * m.at(y, m.ncols - 2)
            + 3 * m.at(y, m.ncols - 1) by {
        assert(gx.at(y, m.ncols - 1) == grad_x_at(m, y, m.ncols - 1));
    }
}

/// The componentwise quotient rounds toward zero: each entry `q` of `a / b`
/// leaves a remainder `a - q * b` smaller than `b` in magnitude and, when not
/// zero, of the sign of `a`; the shape is kept.
pub proof fn law_div_remainder(a: MatrixModel<i64>, b: MatrixModel<i64>)
    requires
        a.wf(),
        b.wf(),
        div_defined(a, b),
    ensures
        div_of(a, b).same_shape(a),
        div_of(a, b).data.len() == a.data.len(),
        forall|k: int| 0 <= k < a.data.len() ==> {
            let r = a.data[k] - #[trigger] div_of(a, b).data[k] * b.data[k];
            &&& abs_int(r) < abs_int(b.data[k] as int)
            &&& (r == 0 || (r < 0) == (a.data[k] < 0))
        },
{
    assert forall|k: int| 0 <= k < a.data.len() implies {
        let r = a.data[k] - #[trigger] div_of(a, b).data[k] * b.data[k];
        &&& abs_int(r) < abs_int(b.data[k] as int)
        &&& (r == 0 || (r < 0) == (a.data[k] < 0))
    } by {
        let x = a.data[k] as int;
        let y = b.data[k] as int;
        assert(quot_defined(a.data[k], b.data[k]));
        lemma_div_trunc_remainder(x, y);
        lemma_div_trunc_fits(x, y);
        assert(div_of(a, b).data[k] == div_trunc(x, y));
    }
}

proof fn lemma_div_trunc_fits(x: int, y: int)
    requires
        y != 0,
        i64::MIN <= x <= i64::MAX,
        i64::MIN <= y <= i64::MAX,
        !(x == i64::MIN && y == -1),
    ensures
        i64::MIN <= div_trunc(x, y) <= i64::MAX,
{
    let ax = abs_int(x);
    let ay = abs_int(y);
    assert(0 <= ax / ay <= ax) by (nonlinear_arith)
        requires
            ax >= 0,
            ay >= 1,
    ;
    if ay == 1 {
        assert(ax / 1 == ax);
    } else {
        assert(ax == 0 || ax / ay < ax) by (nonlinear_arith)
            requires
                ax >= 0,
                ay >= 2,
        ;
    }
}

proof fn lemma_div_trunc_remainder(x: int, y: int)
    requires
        y != 0,
    ensures
        abs_int(x - div_trunc(x, y) * y) < abs_int(y),
        x - div_trunc(x, y) * y == 0 || (x - div_trunc(x, y) * y < 0) == (x < 0),
{
    let ax = abs_int(x);
    let ay = abs_int(y);
    let q = ax / ay;
    let r = ax % ay;
    assert(ax == q * ay + r && 0 <= r < ay) by (nonlinear_arith)
        requires
            ay > 0,
            q == ax / ay,
            r == ax % ay,
    ;
    let d = div_trunc(x, y);
    if x >= 0 {
        if y > 0 {
            assert(x - d * y == r);
        } else {
            assert(d * y == q * ay) by (nonlinear_arith)
                requires
                    d == -q,
                    y == -ay,
            ;
        }
    } else {
        if y > 0 {
            assert(d * y == -(q * ay)) by (nonlinear_arith)
                requires
                    d == -q,
                    y == ay,
            ;
        } else {
            assert(d * y == -(q * ay)) by (nonlinear_arith)
                requires
                    d == q,
                    y == -ay,
            ;
        }
    }
}

/// The componentwise product with a matrix of ones gives back the matrix,
/// and with a matrix of zeros gives zeros.
pub proof fn law_mul_identity_and_zero(a: MatrixModel<i64>, b: MatrixModel<i64>)
    requires
        a.wf(),
        b.wf(),
        a.same_shape(b),
        (forall|k: int| 0 <= k < b.data.len() ==> #[trigger] b.data[k] == 1)
            || (forall|k: int| 0 <= k < b.data.len() ==> #[trigger] b.data[k] == 0),
    ensures
        mul_defined(a, b),
        mul_of(a, b).same_shape(a),
        (forall|k: int| 0 <= k < b.data.len() ==> #[trigger] b.data[k] == 1) ==> mul_of(a, b) == a,
        (forall|k: int| 0 <= k < b.data.len() ==> #[trigger] b.data[k] == 0) ==>
            forall|k: int| 0 <= k < a.data.len() ==> #[trigger] mul_of(a, b).data[k] == 0,
{
    assert forall|k: int| 0 <= k < a.data.len() implies fits_i64(#[trigger] (a.data[k] * b.data[k])) by {
        if b.data[k] == 1 {
            assert(a.data[k] * 1 == a.data[k]);
        } else {
            assert(a.data[k] * 0 == 0);
        }
    }
    if forall|k: int| 0 <= k < b.data.len() ==> #[trigger] b.data[k] == 1 {
        assert forall|k: int| 0 <= k < a.data.len() implies #[trigger] mul_of(a, b).data[k] == a.data[k] by {
            assert(a.data[k] * 1 == a.data[k]);
            assert(b.data[k] == 1);
        }
        assert(mul_of(a, b).data =~= a.data);
    }
    if forall|k: int| 0 <= k < b.data.len() ==> #[trigger] b.data[k] == 0 {
        assert forall|k: int| 0 <= k < a.data.len() implies #[trigger] mul_of(a, b).data[k] == 0 by {
            assert(a.data[k] * 0 == 0);
            assert(b.data[k] == 0);
        }
    }
}

/// Adding `s` and then `t` is adding `s + t`; adding zero keeps the matrix.
pub proof fn law_add_scalar_compose(m: MatrixModel<i64>, s: i64, t: i64)
    requires
        add_scalar_defined(m, s),
        add_scalar_defined(add_scalar_of(m, s), t),
        i64::MIN <= s + t <= i64::MAX,
    ensures
        add_scalar_of(m, s).same_shape(m),
        add_scalar_defined(m, (s + t) as i64),
        add_scalar_of(add_scalar_of(m, s), t) == add_scalar_of(m, (s + t) as i64),
        add_scalar_of(m, 0) == m,
{
    let m1 = add_scalar_of(m, s);
    assert forall|k: int| 0 <= k < m.data.len() implies fits_i64(#[trigger] m.data[k] + ((s + t) as i64)) by {
        assert(fits_i64(m1.data[k] + t));
    }
    assert forall|k: int| 0 <= k < m.data.len() implies
        #[trigger] add_scalar_of(m1, t).data[k] == add_scalar_of(m, (s + t) as i64).data[k] by {
        assert(fits_i64(m1.data[k] + t));
    }
    assert(add_scalar_of(m1, t).data =~= add_scalar_of(m, (s + t) as i64).data);
    assert(add_scalar_of(m, 0).data =~= m.data);
}

} // verus!
