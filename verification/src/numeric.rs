//! Arithmetic over a number type that is left open.
//!
//! The formulas of this library are written over any type that implements
//! [`Real`]. Nothing is presumed of what an operation returns, so that number types
//! whose operations round are covered. A statement about a formula therefore names
//! an expression ([`Expr`]) and says of a number that the expression gives it
//! ([`Expr::gives`]): each operation of the expression was carried out on what its
//! operands gave.

use vstd::prelude::*;

verus! {

/// A number type with the operations that the formulas need.
pub trait Real: Copy {
    /// The whole number `n`.
    fn whole(n: u64) -> Self;

    /// The ratio of a circle's circumference to its diameter.
    fn pi() -> Self;

    /// `self + other`
    fn plus(self, other: Self) -> Self;

    /// `self - other`
    fn minus(self, other: Self) -> Self;

    /// `self * other`
    fn times(self, other: Self) -> Self;

    /// `self / other`
    fn over(self, other: Self) -> Self;

    /// The absolute value.
    fn abs(self) -> Self;

    /// The second power.
    fn squared(self) -> Self;

    /// The square root.
    fn sqrt(self) -> Self;

    /// The cosine of an angle in radians.
    fn cos(self) -> Self;

    /// The arcsine, in radians.
    fn asin(self) -> Self;

    /// `self < other`
    fn less(self, other: Self) -> bool;

    /// `self <= other`
    fn at_most(self, other: Self) -> bool;

    /// The whole part as a table index, the nearest index where there is none.
    fn to_index(self) -> usize;
}

/// A number type that is computed with in a wider one where precision matters.
pub trait Narrow: Real {
    type Wide: Real;

    /// The same number in the wider type.
    fn widen(self) -> Self::Wide;

    /// The nearest number to one of the wider type.
    fn narrow(wide: Self::Wide) -> Self;
}

/// An arithmetic expression.
pub ghost enum Expr<R> {
    Value(R),
    Whole(u64),
    Pi,
    Sum(Box<Expr<R>>, Box<Expr<R>>),
    Difference(Box<Expr<R>>, Box<Expr<R>>),
    Product(Box<Expr<R>>, Box<Expr<R>>),
    Quotient(Box<Expr<R>>, Box<Expr<R>>),
    Abs(Box<Expr<R>>),
    Squared(Box<Expr<R>>),
    Sqrt(Box<Expr<R>>),
    Cos(Box<Expr<R>>),
    Asin(Box<Expr<R>>),
}

impl<R> Expr<R> {
    pub open spec fn plus(self, other: Expr<R>) -> Expr<R> {
        Expr::Sum(Box::new(self), Box::new(other))
    }

    pub open spec fn minus(self, other: Expr<R>) -> Expr<R> {
        Expr::Difference(Box::new(self), Box::new(other))
    }

    pub open spec fn times(self, other: Expr<R>) -> Expr<R> {
        Expr::Product(Box::new(self), Box::new(other))
    }

    pub open spec fn over(self, other: Expr<R>) -> Expr<R> {
        Expr::Quotient(Box::new(self), Box::new(other))
    }

    pub open spec fn abs(self) -> Expr<R> {
        Expr::Abs(Box::new(self))
    }

    pub open spec fn squared(self) -> Expr<R> {
        Expr::Squared(Box::new(self))
    }

    pub open spec fn sqrt(self) -> Expr<R> {
        Expr::Sqrt(Box::new(self))
    }

    pub open spec fn cos(self) -> Expr<R> {
        Expr::Cos(Box::new(self))
    }

    pub open spec fn asin(self) -> Expr<R> {
        Expr::Asin(Box::new(self))
    }
}

impl<R: Real> Expr<R> {
    /// Working the expression out, operation by operation, gives `r`.
    pub open spec fn gives(self, r: R) -> bool
        decreases self,
    {
        match self {
            Expr::Value(v) => r == v,
            Expr::Whole(n) => call_ensures(R::whole, (n,), r),
            Expr::Pi => call_ensures(R::pi, (), r),
            Expr::Sum(a, b) => exists|x: R, y: R|
                {
                    &&& a.gives(x)
                    &&& b.gives(y)
                    &&& #[trigger] call_ensures(R::plus, (x, y), r)
                },
            Expr::Difference(a, b) => exists|x: R, y: R|
                {
                    &&& a.gives(x)
                    &&& b.gives(y)
                    &&& #[trigger] call_ensures(R::minus, (x, y), r)
                },
            Expr::Product(a, b) => exists|x: R, y: R|
                {
                    &&& a.gives(x)
                    &&& b.gives(y)
                    &&& #[trigger] call_ensures(R::times, (x, y), r)
                },
            Expr::Quotient(a, b) => exists|x: R, y: R|
                {
                    &&& a.gives(x)
                    &&& b.gives(y)
                    &&& #[trigger] call_ensures(R::over, (x, y), r)
                },
            Expr::Abs(a) => exists|x: R| a.gives(x) && #[trigger] call_ensures(R::abs, (x,), r),
            Expr::Squared(a) => exists|x: R| a.gives(x) && #[trigger] call_ensures(R::squared, (x,), r),
            Expr::Sqrt(a) => exists|x: R| a.gives(x) && #[trigger] call_ensures(R::sqrt, (x,), r),
            Expr::Cos(a) => exists|x: R| a.gives(x) && #[trigger] call_ensures(R::cos, (x,), r),
            Expr::Asin(a) => exists|x: R| a.gives(x) && #[trigger] call_ensures(R::asin, (x,), r),
        }
    }

    /// Comparing what the two expressions give with `<` gives `r`.
    pub open spec fn less_gives(self, other: Expr<R>, r: bool) -> bool {
        exists|x: R, y: R|
            {
                &&& self.gives(x)
                &&& other.gives(y)
                &&& #[trigger] call_ensures(R::less, (x, y), r)
            }
    }

    /// Comparing what the two expressions give with `<=` gives `r`.
    pub open spec fn at_most_gives(self, other: Expr<R>, r: bool) -> bool {
        exists|x: R, y: R|
            {
                &&& self.gives(x)
                &&& other.gives(y)
                &&& #[trigger] call_ensures(R::at_most, (x, y), r)
            }
    }
}

/// A number together with the expression that gave it.
#[derive(Copy)]
pub struct Term<R: Real> {
    value: R,
    expr: Ghost<Expr<R>>,
}

impl<R: Real> Clone for Term<R> {
    fn clone(&self) -> (r: Self)
        ensures
            r == *self,
    {
        *self
    }
}

impl<R: Real> Term<R> {
    #[verifier::type_invariant]
    spec fn inv(self) -> bool {
        self.expr@.gives(self.value)
    }

    /// The expression.
    pub closed spec fn expr(self) -> Expr<R> {
        self.expr@
    }

    /// A given number.
    pub fn of(value: R) -> (t: Term<R>)
        ensures
            t.expr() == Expr::Value(value),
    {
        Term { value, expr: Ghost(Expr::Value(value)) }
    }

    /// A whole number.
    pub fn whole(n: u64) -> (t: Term<R>)
        ensures
            t.expr() == Expr::<R>::Whole(n),
    {
        Term { value: R::whole(n), expr: Ghost(Expr::Whole(n)) }
    }

    /// The ratio of a circle's circumference to its diameter.
    pub fn pi() -> (t: Term<R>)
        ensures
            t.expr() == Expr::<R>::Pi,
    {
        Term { value: R::pi(), expr: Ghost(Expr::Pi) }
    }

    /// The number.
    pub fn value(self) -> (r: R)
        ensures
            self.expr().gives(r),
    {
        proof {
            use_type_invariant(self);
        }
        self.value
    }

    /// `self + other`
    pub fn plus(self, other: Term<R>) -> (t: Term<R>)
        ensures
            t.expr() == self.expr().plus(other.expr()),
    {
        proof {
            use_type_invariant(self);
            use_type_invariant(other);
        }
        let value = self.value.plus(other.value);
        assert(call_ensures(R::plus, (self.value, other.value), value));
        Term { value, expr: Ghost(self.expr@.plus(other.expr@)) }
    }

    /// `self - other`
    pub fn minus(self, other: Term<R>) -> (t: Term<R>)
        ensures
            t.expr() == self.expr().minus(other.expr()),
    {
        proof {
            use_type_invariant(self);
            use_type_invariant(other);
        }
        let value = self.value.minus(other.value);
        assert(call_ensures(R::minus, (self.value, other.value), value));
        Term { value, expr: Ghost(self.expr@.minus(other.expr@)) }
    }

    /// `self * other`
    pub fn times(self, other: Term<R>) -> (t: Term<R>)
        ensures
            t.expr() == self.expr().times(other.expr()),
    {
        proof {
            use_type_invariant(self);
            use_type_invariant(other);
        }
        let value = self.value.times(other.value);
        assert(call_ensures(R::times, (self.value, other.value), value));
        Term { value, expr: Ghost(self.expr@.times(other.expr@)) }
    }

    /// `self / other`
    pub fn over(self, other: Term<R>) -> (t: Term<R>)
        ensures
            t.expr() == self.expr().over(other.expr()),
    {
        proof {
            use_type_invariant(self);
            use_type_invariant(other);
        }
        let value = self.value.over(other.value);
        assert(call_ensures(R::over, (self.value, other.value), value));
        Term { value, expr: Ghost(self.expr@.over(other.expr@)) }
    }

    /// The absolute value.
    pub fn abs(self) -> (t: Term<R>)
        ensures
            t.expr() == self.expr().abs(),
    {
        proof {
            use_type_invariant(self);
        }
        let value = self.value.abs();
        assert(call_ensures(R::abs, (self.value,), value));
        Term { value, expr: Ghost(self.expr@.abs()) }
    }

    /// The second power.
    pub fn squared(self) -> (t: Term<R>)
        ensures
            t.expr() == self.expr().squared(),
    {
        proof {
            use_type_invariant(self);
        }
        let value = self.value.squared();
        assert(call_ensures(R::squared, (self.value,), value));
        Term { value, expr: Ghost(self.expr@.squared()) }
    }

    /// The square root.
    pub fn sqrt(self) -> (t: Term<R>)
        ensures
            t.expr() == self.expr().sqrt(),
    {
        proof {
            use_type_invariant(self);
        }
        let value = self.value.sqrt();
        assert(call_ensures(R::sqrt, (self.value,), value));
        Term { value, expr: Ghost(self.expr@.sqrt()) }
    }

    /// The cosine.
    pub fn cos(self) -> (t: Term<R>)
        ensures
            t.expr() == self.expr().cos(),
    {
        proof {
            use_type_invariant(self);
        }
        let value = self.value.cos();
        assert(call_ensures(R::cos, (self.value,), value));
        Term { value, expr: Ghost(self.expr@.cos()) }
    }

    /// The arcsine.
    pub fn asin(self) -> (t: Term<R>)
        ensures
            t.expr() == self.expr().asin(),
    {
        proof {
            use_type_invariant(self);
        }
        let value = self.value.asin();
        assert(call_ensures(R::asin, (self.value,), value));
        Term { value, expr: Ghost(self.expr@.asin()) }
    }

    /// `self < other`
    pub fn less(self, other: Term<R>) -> (r: bool)
        ensures
            self.expr().less_gives(other.expr(), r),
    {
        proof {
            use_type_invariant(self);
            use_type_invariant(other);
        }
        let r = self.value.less(other.value);
        assert(call_ensures(R::less, (self.value, other.value), r));
        r
    }

    /// `self <= other`
    pub fn at_most(self, other: Term<R>) -> (r: bool)
        ensures
            self.expr().at_most_gives(other.expr(), r),
    {
        proof {
            use_type_invariant(self);
            use_type_invariant(other);
        }
        let r = self.value.at_most(other.value);
        assert(call_ensures(R::at_most, (self.value, other.value), r));
        r
    }
}

/// What the wider expression gives, brought back to `N`, is `r`.
pub open spec fn narrowed<N: Narrow>(e: Expr<N::Wide>, r: N) -> bool {
    exists|w: N::Wide| e.gives(w) && #[trigger] call_ensures(N::narrow, (w,), r)
}

/// Brings a number of the wider type back to `N`.
pub fn narrow<N: Narrow>(wide: Term<N::Wide>) -> (r: N)
    ensures
        narrowed(wide.expr(), r),
{
    let w = wide.value();
    let r = N::narrow(w);
    assert(wide.expr().gives(w) && call_ensures(N::narrow, (w,), r));
    r
}

/// The decimal fraction `digits / scale`.
pub open spec fn decimal<R>(digits: u64, scale: u64) -> Expr<R> {
    Expr::Whole(digits).over(Expr::Whole(scale))
}

impl<R: Real> Term<R> {
    /// The decimal fraction `digits / scale`.
    pub fn decimal(digits: u64, scale: u64) -> (t: Term<R>)
        ensures
            t.expr() == decimal::<R>(digits, scale),
    {
        Term::whole(digits).over(Term::whole(scale))
    }
}

/// No operation has two outcomes for the same operands.
pub open spec fn has_one_outcome<R: Real>() -> bool {
    &&& forall|n: u64, r: R, s: R| #[trigger]
        call_ensures(R::whole, (n,), r) && #[trigger] call_ensures(R::whole, (n,), s) ==> r == s
    &&& forall|r: R, s: R| #[trigger]
        call_ensures(R::pi, (), r) && #[trigger] call_ensures(R::pi, (), s) ==> r == s
    &&& forall|x: R, y: R, r: R, s: R| #[trigger]
        call_ensures(R::plus, (x, y), r) && #[trigger] call_ensures(R::plus, (x, y), s) ==> r == s
    &&& forall|x: R, y: R, r: R, s: R| #[trigger]
        call_ensures(R::minus, (x, y), r) && #[trigger] call_ensures(R::minus, (x, y), s) ==> r == s
    &&& forall|x: R, y: R, r: R, s: R| #[trigger]
        call_ensures(R::times, (x, y), r) && #[trigger] call_ensures(R::times, (x, y), s) ==> r == s
    &&& forall|x: R, y: R, r: R, s: R| #[trigger]
        call_ensures(R::over, (x, y), r) && #[trigger] call_ensures(R::over, (x, y), s) ==> r == s
    &&& forall|x: R, r: R, s: R| #[trigger]
        call_ensures(R::abs, (x,), r) && #[trigger] call_ensures(R::abs, (x,), s) ==> r == s
    &&& forall|x: R, r: R, s: R| #[trigger]
        call_ensures(R::squared, (x,), r) && #[trigger] call_ensures(R::squared, (x,), s) ==> r == s
    &&& forall|x: R, r: R, s: R| #[trigger]
        call_ensures(R::sqrt, (x,), r) && #[trigger] call_ensures(R::sqrt, (x,), s) ==> r == s
    &&& forall|x: R, r: R, s: R| #[trigger]
        call_ensures(R::cos, (x,), r) && #[trigger] call_ensures(R::cos, (x,), s) ==> r == s
    &&& forall|x: R, r: R, s: R| #[trigger]
        call_ensures(R::asin, (x,), r) && #[trigger] call_ensures(R::asin, (x,), s) ==> r == s
    &&& forall|x: R, y: R| !(#[trigger] call_ensures(R::less, (x, y), true) && call_ensures(
        R::less,
        (x, y),
        false,
    ))
    &&& forall|x: R, y: R| !(#[trigger] call_ensures(R::at_most, (x, y), true) && call_ensures(
        R::at_most,
        (x, y),
        false,
    ))
    &&& forall|x: R, i: usize, j: usize| #[trigger]
        call_ensures(R::to_index, (x,), i) && #[trigger] call_ensures(R::to_index, (x,), j) ==> i
            == j
}

/// No operation of `N` or of the wider type has two outcomes, nor has a conversion
/// between them.
pub open spec fn narrow_has_one_outcome<N: Narrow>() -> bool {
    &&& has_one_outcome::<N>()
    &&& has_one_outcome::<N::Wide>()
    &&& forall|x: N, r: N::Wide, s: N::Wide| #[trigger]
        call_ensures(N::widen, (x,), r) && #[trigger] call_ensures(N::widen, (x,), s) ==> r == s
    &&& forall|w: N::Wide, r: N, s: N| #[trigger]
        call_ensures(N::narrow, (w,), r) && #[trigger] call_ensures(N::narrow, (w,), s) ==> r == s
}

/// Where no operation has two outcomes, no expression has.
pub proof fn law_expression_has_one_outcome<R: Real>(e: Expr<R>, r: R, s: R)
    requires
        has_one_outcome::<R>(),
        e.gives(r),
        e.gives(s),
    ensures
        r == s,
    decreases e,
{
    match e {
        Expr::Value(_) => {},
        Expr::Whole(_) => {},
        Expr::Pi => {},
        Expr::Sum(a, b) => {
            let (x, y) = choose|x: R, y: R|
                a.gives(x) && b.gives(y) && #[trigger] call_ensures(R::plus, (x, y), r);
            let (u, v) = choose|u: R, v: R|
                a.gives(u) && b.gives(v) && #[trigger] call_ensures(R::plus, (u, v), s);
            law_expression_has_one_outcome(*a, x, u);
            law_expression_has_one_outcome(*b, y, v);
        },
        Expr::Difference(a, b) => {
            let (x, y) = choose|x: R, y: R|
                a.gives(x) && b.gives(y) && #[trigger] call_ensures(R::minus, (x, y), r);
            let (u, v) = choose|u: R, v: R|
                a.gives(u) && b.gives(v) && #[trigger] call_ensures(R::minus, (u, v), s);
            law_expression_has_one_outcome(*a, x, u);
            law_expression_has_one_outcome(*b, y, v);
        },
        Expr::Product(a, b) => {
            let (x, y) = choose|x: R, y: R|
                a.gives(x) && b.gives(y) && #[trigger] call_ensures(R::times, (x, y), r);
            let (u, v) = choose|u: R, v: R|
                a.gives(u) && b.gives(v) && #[trigger] call_ensures(R::times, (u, v), s);
            law_expression_has_one_outcome(*a, x, u);
            law_expression_has_one_outcome(*b, y, v);
        },
        Expr::Quotient(a, b) => {
            let (x, y) = choose|x: R, y: R|
                a.gives(x) && b.gives(y) && #[trigger] call_ensures(R::over, (x, y), r);
            let (u, v) = choose|u: R, v: R|
                a.gives(u) && b.gives(v) && #[trigger] call_ensures(R::over, (u, v), s);
            law_expression_has_one_outcome(*a, x, u);
            law_expression_has_one_outcome(*b, y, v);
        },
        Expr::Abs(a) => {
            let x = choose|x: R| a.gives(x) && #[trigger] call_ensures(R::abs, (x,), r);
            let u = choose|u: R| a.gives(u) && #[trigger] call_ensures(R::abs, (u,), s);
            law_expression_has_one_outcome(*a, x, u);
        },
        Expr::Squared(a) => {
            let x = choose|x: R| a.gives(x) && #[trigger] call_ensures(R::squared, (x,), r);
            let u = choose|u: R| a.gives(u) && #[trigger] call_ensures(R::squared, (u,), s);
            law_expression_has_one_outcome(*a, x, u);
        },
        Expr::Sqrt(a) => {
            let x = choose|x: R| a.gives(x) && #[trigger] call_ensures(R::sqrt, (x,), r);
            let u = choose|u: R| a.gives(u) && #[trigger] call_ensures(R::sqrt, (u,), s);
            law_expression_has_one_outcome(*a, x, u);
        },
        Expr::Cos(a) => {
            let x = choose|x: R| a.gives(x) && #[trigger] call_ensures(R::cos, (x,), r);
            let u = choose|u: R| a.gives(u) && #[trigger] call_ensures(R::cos, (u,), s);
            law_expression_has_one_outcome(*a, x, u);
        },
        Expr::Asin(a) => {
            let x = choose|x: R| a.gives(x) && #[trigger] call_ensures(R::asin, (x,), r);
            let u = choose|u: R| a.gives(u) && #[trigger] call_ensures(R::asin, (u,), s);
            law_expression_has_one_outcome(*a, x, u);
        },
    }
}

/// Where no operation has two outcomes, no comparison of expressions has.
pub proof fn law_comparison_has_one_outcome<R: Real>(a: Expr<R>, b: Expr<R>)
    requires
        has_one_outcome::<R>(),
    ensures
        !(a.less_gives(b, true) && a.less_gives(b, false)),
        !(a.at_most_gives(b, true) && a.at_most_gives(b, false)),
{
    if a.less_gives(b, true) && a.less_gives(b, false) {
        let (x, y) = choose|x: R, y: R|
            a.gives(x) && b.gives(y) && #[trigger] call_ensures(R::less, (x, y), true);
        let (u, v) = choose|u: R, v: R|
            a.gives(u) && b.gives(v) && #[trigger] call_ensures(R::less, (u, v), false);
        law_expression_has_one_outcome(a, x, u);
        law_expression_has_one_outcome(b, y, v);
    }
    if a.at_most_gives(b, true) && a.at_most_gives(b, false) {
        let (x, y) = choose|x: R, y: R|
            a.gives(x) && b.gives(y) && #[trigger] call_ensures(R::at_most, (x, y), true);
        let (u, v) = choose|u: R, v: R|
            a.gives(u) && b.gives(v) && #[trigger] call_ensures(R::at_most, (u, v), false);
        law_expression_has_one_outcome(a, x, u);
        law_expression_has_one_outcome(b, y, v);
    }
}

/// Where no operation has two outcomes, a narrowed expression has one.
pub proof fn law_narrowed_has_one_outcome<N: Narrow>(e: Expr<N::Wide>, r: N, s: N)
    requires
        narrow_has_one_outcome::<N>(),
        narrowed(e, r),
        narrowed(e, s),
    ensures
        r == s,
{
    let w = choose|w: N::Wide| e.gives(w) && #[trigger] call_ensures(N::narrow, (w,), r);
    let v = choose|v: N::Wide| e.gives(v) && #[trigger] call_ensures(N::narrow, (v,), s);
    law_expression_has_one_outcome(e, w, v);
}

} // verus!
