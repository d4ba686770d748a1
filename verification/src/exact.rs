//! Numbers that are computed with exactly, as a measure for the formulas.
//!
//! The laws that use it say what a function means: where every operation of the number
//! type gives the exact result, the function gives what mathematics asks for.

use vstd::prelude::*;

use crate::numeric::{Expr, Narrow, Real};

verus! {

/// The sine and the cosine of angles in radians, and half the circumference of the unit
/// circle.
pub ghost struct Circle {
    pub pi: real,
    pub cos: spec_fn(real) -> real,
    pub sin: spec_fn(real) -> real,
}

/// Names two angles whose difference is looked at.
pub open spec fn angles(a: real, b: real) -> bool {
    true
}

impl Circle {
    /// The sine and the cosine are those of a circle: they follow the rules for
    /// differences of angles, from the right angle on.
    pub open spec fn is_round(self) -> bool {
        &&& self.pi > 0 as real
        &&& (self.cos)(0 as real) == 1 as real
        &&& (self.sin)(0 as real) == 0 as real
        &&& (self.cos)(self.pi / (2 as real)) == 0 as real
        &&& (self.sin)(self.pi / (2 as real)) == 1 as real
        &&& forall|a: real, b: real| #[trigger]
            angles(a, b) ==> (self.cos)(a - b) == (self.cos)(a) * (self.cos)(b) + (self.sin)(a) * (
            self.sin)(b)
        &&& forall|a: real, b: real| #[trigger]
            angles(a, b) ==> (self.sin)(a - b) == (self.sin)(a) * (self.cos)(b) - (self.cos)(a) * (
            self.sin)(b)
    }
}

/// The size of a number.
pub open spec fn size(x: real) -> real {
    if x < 0 as real {
        -x
    } else {
        x
    }
}

/// Every operation on numbers gives the exact result, where there is one. `value` tells
/// which number a value of the type stands for.
pub open spec fn is_exact<R: Real>(value: spec_fn(R) -> real, circle: Circle) -> bool {
    &&& forall|n: u64, r: R| #[trigger]
        call_ensures(R::whole, (n,), r) ==> value(r) == n as int as real
    &&& forall|r: R| #[trigger] call_ensures(R::pi, (), r) ==> value(r) == circle.pi
    &&& forall|x: R, y: R, r: R| #[trigger]
        call_ensures(R::plus, (x, y), r) ==> value(r) == value(x) + value(y)
    &&& forall|x: R, y: R, r: R| #[trigger]
        call_ensures(R::minus, (x, y), r) ==> value(r) == value(x) - value(y)
    &&& forall|x: R, y: R, r: R| #[trigger]
        call_ensures(R::times, (x, y), r) ==> value(r) == value(x) * value(y)
    &&& forall|x: R, y: R, r: R| #[trigger]
        call_ensures(R::over, (x, y), r) && value(y) != 0 as real ==> value(r) == value(x) / value(
            y,
        ) && value(r) * value(y) == value(x)
    &&& forall|x: R, r: R| #[trigger]
        call_ensures(R::abs, (x,), r) ==> value(r) == size(value(x))
    &&& forall|x: R, r: R| #[trigger]
        call_ensures(R::squared, (x,), r) ==> value(r) == value(x) * value(x)
    &&& forall|x: R, r: R| #[trigger]
        call_ensures(R::sqrt, (x,), r) && value(x) >= 0 as real ==> value(r) >= 0 as real && value(
            r,
        ) * value(r) == value(x)
    &&& forall|x: R, r: R| #[trigger]
        call_ensures(R::cos, (x,), r) ==> value(r) == (circle.cos)(value(x))
    &&& forall|x: R, r: R| #[trigger]
        call_ensures(R::asin, (x,), r) && 0 as real <= value(x) <= 1 as real ==> 0 as real <= value(
            r,
        ) <= circle.pi / (2 as real) && (circle.sin)(value(r)) == value(x)
    &&& forall|x: R, y: R, r: bool| #[trigger]
        call_ensures(R::less, (x, y), r) ==> r == (value(x) < value(y))
    &&& forall|x: R, y: R, r: bool| #[trigger]
        call_ensures(R::at_most, (x, y), r) ==> r == (value(x) <= value(y))
    &&& forall|x: R, i: usize| #[trigger]
        call_ensures(R::to_index, (x,), i) && 0 as real <= value(x) < 0x1_0000_0000 as real ==> i
            == value(x).floor()
}

/// Every operation of `N` and of the wider type gives the exact result, and the
/// conversions between them keep the number.
pub open spec fn is_exact_narrow<N: Narrow>(
    value: spec_fn(N) -> real,
    wide_value: spec_fn(N::Wide) -> real,
    circle: Circle,
) -> bool {
    &&& is_exact(value, circle)
    &&& is_exact(wide_value, circle)
    &&& forall|x: N, w: N::Wide| #[trigger]
        call_ensures(N::widen, (x,), w) ==> wide_value(w) == value(x)
    &&& forall|w: N::Wide, r: N| #[trigger]
        call_ensures(N::narrow, (w,), r) ==> value(r) == wide_value(w)
}

/// `y` is the root of `x`.
pub open spec fn is_root(y: real, x: real) -> bool {
    y >= 0 as real && y * y == x
}

/// The root of a number.
pub open spec fn root(x: real) -> real {
    choose|y: real| is_root(y, x)
}

/// There is one root.
pub proof fn lemma_root(y: real, x: real)
    requires
        is_root(y, x),
    ensures
        root(x) == y,
        is_root(root(x), x),
{
    lemma_squares_are_ordered(root(x), y);
}

/// The number that an expression without arcsines stands for.
pub open spec fn means<R>(e: Expr<R>, value: spec_fn(R) -> real, circle: Circle) -> real
    decreases e,
{
    match e {
        Expr::Value(v) => value(v),
        Expr::Whole(n) => n as int as real,
        Expr::Pi => circle.pi,
        Expr::Sum(a, b) => means(*a, value, circle) + means(*b, value, circle),
        Expr::Difference(a, b) => means(*a, value, circle) - means(*b, value, circle),
        Expr::Product(a, b) => means(*a, value, circle) * means(*b, value, circle),
        Expr::Quotient(a, b) => means(*a, value, circle) / means(*b, value, circle),
        Expr::Abs(a) => size(means(*a, value, circle)),
        Expr::Squared(a) => means(*a, value, circle) * means(*a, value, circle),
        Expr::Cos(a) => (circle.cos)(means(*a, value, circle)),
        Expr::Sqrt(a) => root(means(*a, value, circle)),
        Expr::Asin(_) => 0 as real,
    }
}

/// The expression has no arcsines, divides by no zero and takes no root of a negative
/// number.
pub open spec fn is_plain<R>(e: Expr<R>, value: spec_fn(R) -> real, circle: Circle) -> bool
    decreases e,
{
    match e {
        Expr::Value(_) => true,
        Expr::Whole(_) => true,
        Expr::Pi => true,
        Expr::Sum(a, b) => is_plain(*a, value, circle) && is_plain(*b, value, circle),
        Expr::Difference(a, b) => is_plain(*a, value, circle) && is_plain(*b, value, circle),
        Expr::Product(a, b) => is_plain(*a, value, circle) && is_plain(*b, value, circle),
        Expr::Quotient(a, b) => is_plain(*a, value, circle) && is_plain(*b, value, circle)
            && means(*b, value, circle) != 0 as real,
        Expr::Abs(a) => is_plain(*a, value, circle),
        Expr::Squared(a) => is_plain(*a, value, circle),
        Expr::Cos(a) => is_plain(*a, value, circle),
        Expr::Sqrt(a) => is_plain(*a, value, circle) && means(*a, value, circle) >= 0 as real,
        Expr::Asin(_) => false,
    }
}

/// With exact operations, an expression gives the number that it stands for.
pub proof fn law_exact_expression<R: Real>(
    value: spec_fn(R) -> real,
    circle: Circle,
    e: Expr<R>,
    r: R,
)
    requires
        is_exact(value, circle),
        is_plain(e, value, circle),
        e.gives(r),
    ensures
        value(r) == means(e, value, circle),
    decreases e,
{
    match e {
        Expr::Value(_) => {},
        Expr::Whole(_) => {},
        Expr::Pi => {},
        Expr::Sum(a, b) => {
            let (x, y) = choose|x: R, y: R|
                a.gives(x) && b.gives(y) && #[trigger] call_ensures(R::plus, (x, y), r);
            law_exact_expression(value, circle, *a, x);
            law_exact_expression(value, circle, *b, y);
        },
        Expr::Difference(a, b) => {
            let (x, y) = choose|x: R, y: R|
                a.gives(x) && b.gives(y) && #[trigger] call_ensures(R::minus, (x, y), r);
            law_exact_expression(value, circle, *a, x);
            law_exact_expression(value, circle, *b, y);
        },
        Expr::Product(a, b) => {
            let (x, y) = choose|x: R, y: R|
                a.gives(x) && b.gives(y) && #[trigger] call_ensures(R::times, (x, y), r);
            law_exact_expression(value, circle, *a, x);
            law_exact_expression(value, circle, *b, y);
        },
        Expr::Quotient(a, b) => {
            let (x, y) = choose|x: R, y: R|
                a.gives(x) && b.gives(y) && #[trigger] call_ensures(R::over, (x, y), r);
            law_exact_expression(value, circle, *a, x);
            law_exact_expression(value, circle, *b, y);
        },
        Expr::Abs(a) => {
            let x = choose|x: R| a.gives(x) && #[trigger] call_ensures(R::abs, (x,), r);
            law_exact_expression(value, circle, *a, x);
        },
        Expr::Squared(a) => {
            let x = choose|x: R| a.gives(x) && #[trigger] call_ensures(R::squared, (x,), r);
            law_exact_expression(value, circle, *a, x);
        },
        Expr::Cos(a) => {
            let x = choose|x: R| a.gives(x) && #[trigger] call_ensures(R::cos, (x,), r);
            law_exact_expression(value, circle, *a, x);
        },
        Expr::Sqrt(a) => {
            let x = choose|x: R| a.gives(x) && #[trigger] call_ensures(R::sqrt, (x,), r);
            law_exact_expression(value, circle, *a, x);
            lemma_root(value(r), means(*a, value, circle));
        },
        Expr::Asin(_) => {},
    }
}

/// With exact operations, the root of an expression is not negative and has the
/// expression as its square.
pub proof fn law_exact_root<R: Real>(value: spec_fn(R) -> real, circle: Circle, e: Expr<R>, r: R)
    requires
        is_exact(value, circle),
        is_plain(e, value, circle),
        means(e, value, circle) >= 0 as real,
        e.sqrt().gives(r),
    ensures
        value(r) >= 0 as real,
        value(r) * value(r) == means(e, value, circle),
{
    let x = choose|x: R| e.gives(x) && #[trigger] call_ensures(R::sqrt, (x,), r);
    law_exact_expression(value, circle, e, x);
}

/// With exact operations, comparing expressions compares the numbers they stand for.
pub proof fn law_exact_comparison<R: Real>(
    value: spec_fn(R) -> real,
    circle: Circle,
    a: Expr<R>,
    b: Expr<R>,
    r: bool,
)
    requires
        is_exact(value, circle),
        is_plain(a, value, circle),
        is_plain(b, value, circle),
    ensures
        a.less_gives(b, r) ==> r == (means(a, value, circle) < means(b, value, circle)),
        a.at_most_gives(b, r) ==> r == (means(a, value, circle) <= means(b, value, circle)),
{
    if a.less_gives(b, r) {
        let (x, y) = choose|x: R, y: R|
            a.gives(x) && b.gives(y) && #[trigger] call_ensures(R::less, (x, y), r);
        law_exact_expression(value, circle, a, x);
        law_exact_expression(value, circle, b, y);
    }
    if a.at_most_gives(b, r) {
        let (x, y) = choose|x: R, y: R|
            a.gives(x) && b.gives(y) && #[trigger] call_ensures(R::at_most, (x, y), r);
        law_exact_expression(value, circle, a, x);
        law_exact_expression(value, circle, b, y);
    }
}

/// The squares of sine and cosine make one, the sine of a negative angle is negative,
/// the cosine stays; and a right angle back the cosine is the sine.
pub proof fn law_circle(circle: Circle, a: real)
    requires
        circle.is_round(),
    ensures
        (circle.cos)(a) * (circle.cos)(a) + (circle.sin)(a) * (circle.sin)(a) == 1 as real,
        (circle.cos)(-a) == (circle.cos)(a),
        (circle.sin)(-a) == -(circle.sin)(a),
        (circle.cos)(a - circle.pi / (2 as real)) == (circle.sin)(a),
{
    assert(angles(a, a));
    assert(a - a == 0 as real);
    assert(angles(0 as real, a));
    assert(0 as real - a == -a);
    assert(angles(a, circle.pi / (2 as real)));
}

/// Sine and cosine repeat after a full turn.
pub proof fn law_full_turn(circle: Circle, a: real)
    requires
        circle.is_round(),
    ensures
        (circle.cos)(a - 2 as real * circle.pi) == (circle.cos)(a),
        (circle.sin)(a - 2 as real * circle.pi) == (circle.sin)(a),
{
    let q = circle.pi / (2 as real);
    law_circle(circle, q);
    assert(angles(q, -q));
    assert(q - (-q) == circle.pi);
    law_circle(circle, circle.pi);
    assert(angles(circle.pi, -circle.pi));
    assert(circle.pi - (-circle.pi) == 2 as real * circle.pi);
    assert((circle.sin)(circle.pi) == 0 as real);
    assert((circle.cos)(circle.pi) == -(1 as real));
    assert((circle.cos)(2 as real * circle.pi) == 1 as real);
    assert((circle.sin)(2 as real * circle.pi) == 0 as real);
    assert(angles(a, 2 as real * circle.pi));
    let c = (circle.cos)(a);
    let s = (circle.sin)(a);
    assert(s * (1 as real) - c * (0 as real) == s) by (nonlinear_arith);
    assert(c * (1 as real) + s * (0 as real) == c) by (nonlinear_arith);
}

/// Sine and cosine repeat after any number of full turns.
pub proof fn law_full_turns(circle: Circle, a: real, k: int)
    requires
        circle.is_round(),
    ensures
        (circle.cos)(a + 2 as real * circle.pi * (k as real)) == (circle.cos)(a),
        (circle.sin)(a + 2 as real * circle.pi * (k as real)) == (circle.sin)(a),
    decreases if k < 0 { -k } else { k },
{
    let p = circle.pi;
    let t = a + 2 as real * p * (k as real);
    if k > 0 {
        law_full_turns(circle, a, k - 1);
        law_full_turn(circle, t);
        assert(t - 2 as real * p == a + 2 as real * p * ((k - 1) as real)) by (nonlinear_arith)
            requires
                t == a + 2 as real * p * (k as real),
                (k - 1) as real == k as real - 1 as real,
        ;
    } else if k < 0 {
        law_full_turns(circle, a, k + 1);
        let u = a + 2 as real * p * ((k + 1) as real);
        law_full_turn(circle, u);
        assert(u - 2 as real * p == t) by (nonlinear_arith)
            requires
                t == a + 2 as real * p * (k as real),
                u == a + 2 as real * p * ((k + 1) as real),
                (k + 1) as real == k as real + 1 as real,
        ;
    } else {
        assert(t == a) by (nonlinear_arith)
            requires
                t == a + 2 as real * p * (k as real),
                k as real == 0 as real,
        ;
    }
}

/// The sine of half an angle has as its square half of what the cosine lacks to one.
pub proof fn law_half_angle(circle: Circle, a: real)
    requires
        circle.is_round(),
    ensures
        2 as real * ((circle.sin)(a) * (circle.sin)(a)) == 1 as real - (circle.cos)(2 as real * a),
{
    law_circle(circle, a);
    assert(angles(a, -a));
    assert(a - (-a) == 2 as real * a);
    let s = (circle.sin)(a);
    assert(s * (-s) == -(s * s)) by (nonlinear_arith);
}

/// With exact operations, a quotient times the divisor is the dividend.
pub proof fn law_exact_quotient<R: Real>(
    value: spec_fn(R) -> real,
    circle: Circle,
    a: Expr<R>,
    b: Expr<R>,
    r: R,
)
    requires
        is_exact(value, circle),
        is_plain(a, value, circle),
        is_plain(b, value, circle),
        means(b, value, circle) != 0 as real,
        a.over(b).gives(r),
    ensures
        value(r) == means(a, value, circle) / means(b, value, circle),
        value(r) * means(b, value, circle) == means(a, value, circle),
{
    let (x, y) = choose|x: R, y: R|
        a.gives(x) && b.gives(y) && #[trigger] call_ensures(R::over, (x, y), r);
    law_exact_expression(value, circle, a, x);
    law_exact_expression(value, circle, b, y);
}

/// A sum may be multiplied term by term.
pub proof fn lemma_distribute(x: real, y: real, z: real)
    ensures
        (x + y) * z == x * z + y * z,
        z * (x + y) == z * x + z * y,
{
    assert((x + y) * z == x * z + y * z) by (nonlinear_arith);
    lemma_swap_factors(x + y, z);
    lemma_swap_factors(x, z);
    lemma_swap_factors(y, z);
}

/// Factors may be taken in any grouping.
pub proof fn lemma_regroup(x: real, y: real, z: real)
    ensures
        (x * y) * z == x * (y * z),
{
    assert((x * y) * z == x * (y * z)) by (nonlinear_arith);
}

/// Factors may be taken in any order.
pub proof fn lemma_swap_factors(x: real, y: real)
    ensures
        x * y == y * x,
{
    assert(x * y == y * x) by (nonlinear_arith);
}

/// A product of positive numbers is positive.
pub proof fn lemma_positive(x: real, y: real)
    requires
        x > 0 as real,
        y > 0 as real,
    ensures
        x * y > 0 as real,
{
    assert(x * y > 0 as real) by (nonlinear_arith)
        requires
            x > 0 as real,
            y > 0 as real,
    ;
}

/// A product with zero is zero.
pub proof fn lemma_zero(x: real)
    ensures
        0 as real * x == 0 as real,
        x * (0 as real) == 0 as real,
{
    lemma_distribute(0 as real, 0 as real, x);
}

/// The sign of a factor is that of the product.
pub proof fn lemma_negate(x: real, y: real)
    ensures
        (-x) * y == -(x * y),
        y * (-x) == -(y * x),
{
    lemma_distribute(x, -x, y);
    assert(x + (-x) == 0 as real);
    lemma_zero(y);
}

/// A difference may be multiplied term by term.
pub proof fn lemma_distribute_difference(x: real, y: real, z: real)
    ensures
        (x - y) * z == x * z - y * z,
        z * (x - y) == z * x - z * y,
{
    lemma_distribute(x, -y, z);
    assert(x + (-y) == x - y);
    lemma_negate(y, z);
}

/// A square is not negative, and it is that of the size.
pub proof fn lemma_square(x: real)
    ensures
        x * x >= 0 as real,
        x != 0 as real ==> x * x > 0 as real,
        (-x) * (-x) == x * x,
        size(x) * size(x) == x * x,
{
    lemma_negate(x, -x);
    lemma_negate(x, x);
    if x > 0 as real {
        lemma_positive(x, x);
    } else if x < 0 as real {
        lemma_positive(-x, -x);
    } else {
        lemma_zero(x);
    }
}

/// The square of a product is the product of the squares.
pub proof fn lemma_square_of_product(x: real, y: real)
    ensures
        (x * y) * (x * y) == (x * x) * (y * y),
{
    lemma_regroup(x, y, x * y);
    lemma_swap_factors(x, y);
    lemma_regroup(y, y, x);
    lemma_swap_factors(y * y, x);
    lemma_regroup(x, x, y * y);
}

/// What is at most something stays so when both are multiplied with a number that is not
/// negative.
pub proof fn lemma_scale(x: real, y: real, w: real)
    requires
        w >= 0 as real,
    ensures
        x <= y ==> x * w <= y * w,
        w > 0 as real && x < y ==> x * w < y * w,
{
    lemma_distribute_difference(y, x, w);
    if x < y && w > 0 as real {
        lemma_positive(y - x, w);
    } else if w == 0 as real {
        lemma_zero(x);
        lemma_zero(y);
    }
}

/// Of numbers that are not negative, the larger has the larger square.
pub proof fn lemma_squares_are_ordered(x: real, y: real)
    requires
        x >= 0 as real,
        y >= 0 as real,
    ensures
        x < y <==> x * x < y * y,
        x == y <==> x * x == y * y,
{
    if x < y {
        lemma_scale(x, y, x);
        lemma_scale(x, y, y);
        lemma_swap_factors(x, y);
    } else if y < x {
        lemma_scale(y, x, x);
        lemma_scale(y, x, y);
        lemma_swap_factors(x, y);
    }
}

/// Equal factors may stand for each other.
pub proof fn lemma_same_factor(x: real, y: real, z: real)
    requires
        y == z,
    ensures
        x * y == x * z,
        y * x == z * x,
{
}

/// A positive factor may be taken off both sides.
pub proof fn lemma_cancel(x: real, y: real, w: real)
    requires
        w > 0 as real,
        x * w == y * w,
    ensures
        x == y,
{
    lemma_scale(x, y, w);
    lemma_scale(y, x, w);
}

} // verus!
