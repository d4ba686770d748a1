//! Whether a point lies in one of several ellipses.

use vstd::pervasive::unreached;
use vstd::prelude::*;

use crate::eval::{
    find_column_len, has_shape, input_rows, law_scalars_have_no_rows, shape, Column, Scalar, Value,
    ValueRef,
};
use crate::numeric::{has_one_outcome, law_comparison_has_one_outcome, Expr, Real, Term};

verus! {

/// An ellipse by its center and its half axes, which are parallel to the axes of
/// the coordinates.
pub struct Ellipse<R> {
    pub x: R,
    pub y: R,
    pub a: R,
    pub b: R,
}

/// What a point of the ellipse satisfies: of each pair, the first is at most the
/// second. The first four say that the point lies in the rectangle around the
/// ellipse.
pub open spec fn conditions<R>(el: Ellipse<R>, x: R, y: R) -> Seq<(Expr<R>, Expr<R>)> {
    let p1 = Expr::Value(x).minus(Expr::Value(el.x)).over(Expr::Value(el.a));
    let p2 = Expr::Value(y).minus(Expr::Value(el.y)).over(Expr::Value(el.b));
    seq![
        (Expr::Value(x), Expr::Value(el.x).plus(Expr::Value(el.a))),
        (Expr::Value(el.x).minus(Expr::Value(el.a)), Expr::Value(x)),
        (Expr::Value(y), Expr::Value(el.y).plus(Expr::Value(el.b))),
        (Expr::Value(el.y).minus(Expr::Value(el.b)), Expr::Value(y)),
        (p1.times(p1).plus(p2.times(p2)), Expr::Whole(1)),
    ]
}

/// Testing whether the point lies in the ellipse gives `r`: yes where all conditions
/// were found to hold, no where one was found not to hold.
pub open spec fn inside_gives<R: Real>(el: Ellipse<R>, x: R, y: R, r: bool) -> bool {
    let c = conditions(el, x, y);
    if r {
        forall|k: int| 0 <= k < c.len() ==> (#[trigger] c[k]).0.at_most_gives(c[k].1, true)
    } else {
        exists|k: int| 0 <= k < c.len() && (#[trigger] c[k]).0.at_most_gives(c[k].1, false)
    }
}

impl<R: Real> Ellipse<R> {
    /// Whether the point lies in the ellipse.
    pub fn contains(&self, x: R, y: R) -> (r: bool)
        ensures
            inside_gives(*self, x, y, r),
    {
        let ghost c = conditions(*self, x, y);
        let px = Term::of(x);
        let py = Term::of(y);
        let cx = Term::of(self.x);
        let cy = Term::of(self.y);
        let a = Term::of(self.a);
        let b = Term::of(self.b);
        let p1 = px.minus(cx).over(a);
        let p2 = py.minus(cy).over(b);
        if !px.at_most(cx.plus(a)) {
            assert(c[0].0.at_most_gives(c[0].1, false));
            return false;
        }
        assert(c[0].0.at_most_gives(c[0].1, true));
        if !cx.minus(a).at_most(px) {
            assert(c[1].0.at_most_gives(c[1].1, false));
            return false;
        }
        assert(c[1].0.at_most_gives(c[1].1, true));
        if !py.at_most(cy.plus(b)) {
            assert(c[2].0.at_most_gives(c[2].1, false));
            return false;
        }
        assert(c[2].0.at_most_gives(c[2].1, true));
        if !cy.minus(b).at_most(py) {
            assert(c[3].0.at_most_gives(c[3].1, false));
            return false;
        }
        assert(c[3].0.at_most_gives(c[3].1, true));
        let r = p1.times(p1).plus(p2.times(p2)).at_most(Term::whole(1));
        assert(c[4].0.at_most_gives(c[4].1, r));
        r
    }
}

/// The ellipse that is tested after `k` others, where the test begins with `start`
/// and goes round through `count` ellipses.
pub open spec fn probe(start: int, count: int, k: int) -> int {
    if start < count {
        (start + k) % count
    } else {
        start + k
    }
}

/// Every ellipse that the test comes to, after none before it was found to hold the
/// point, is there.
pub open spec fn reaches_only_ellipses<R: Real>(
    ellipses: Seq<Ellipse<R>>,
    x: R,
    y: R,
    start: int,
    count: int,
) -> bool {
    forall|k: int|
        0 <= k < count && (forall|j: int|
            0 <= j < k ==> inside_gives(
                ellipses[#[trigger] probe(start, count, j)],
                x,
                y,
                false,
            )) ==> #[trigger] probe(start, count, k) < ellipses.len()
}

/// Testing the ellipses in turn gives `r`, and moves the start from `before` to `after`:
/// to the first ellipse that was found to hold the point, and nowhere where none was.
pub open spec fn search_gives<R: Real>(
    ellipses: Seq<Ellipse<R>>,
    x: R,
    y: R,
    count: int,
    before: int,
    after: int,
    r: bool,
) -> bool {
    if r {
        exists|k: int|
            {
                &&& 0 <= k < count
                &&& after == #[trigger] probe(before, count, k)
                &&& inside_gives(ellipses[after], x, y, true)
                &&& forall|j: int|
                    0 <= j < k ==> inside_gives(
                        ellipses[#[trigger] probe(before, count, j)],
                        x,
                        y,
                        false,
                    )
            }
    } else {
        &&& after == before
        &&& forall|j: int|
            0 <= j < count ==> inside_gives(
                ellipses[#[trigger] probe(before, count, j)],
                x,
                y,
                false,
            )
    }
}

/// Whether the point lies in one of the `ellipses_count` ellipses that are tested.
///
/// The ellipses are tested in turn, beginning with that at `start_idx`, where the
/// ellipse that is found is left for the next test.
pub fn is_point_in_ellipses<R: Real>(
    x: R,
    y: R,
    ellipses: &[Ellipse<R>],
    ellipses_count: usize,
    start_idx: &mut usize,
) -> (r: bool)
    requires
        reaches_only_ellipses(
            ellipses@,
            x,
            y,
            *old(start_idx) as int,
            ellipses_count as int,
        ),
    ensures
        search_gives(
            ellipses@,
            x,
            y,
            ellipses_count as int,
            *old(start_idx) as int,
            *final(start_idx) as int,
            r,
        ),
{
    let ghost start = *start_idx as int;
    let ghost count = ellipses_count as int;
    let mut index: usize = *start_idx;
    proof {
        if start < count {
            vstd::arithmetic::div_mod::lemma_small_mod(start as nat, count as nat);
        }
    }
    for k in 0..ellipses_count
        invariant
            start == *start_idx,
            *start_idx == *old(start_idx),
            count == ellipses_count,
            reaches_only_ellipses(ellipses@, x, y, start, count),
            k < count ==> index == probe(start, count, k as int),
            forall|j: int|
                0 <= j < k ==> inside_gives(
                    ellipses@[#[trigger] probe(start, count, j)],
                    x,
                    y,
                    false,
                ),
    {
        let inside = ellipses[index].contains(x, y);
        if inside {
            *start_idx = index;
            return true;
        }
        proof {
            lemma_next_probe(start, count, k as int);
        }
        index += 1;
        if index == ellipses_count {
            index = 0;
        }
    }
    false
}

/// The next ellipse is the following one, and after the last one the first.
proof fn lemma_next_probe(start: int, count: int, k: int)
    requires
        0 <= start,
        0 <= k < count,
    ensures
        ({
            let next = probe(start, count, k) + 1;
            probe(start, count, k + 1) == if next == count {
                0
            } else {
                next
            }
        }),
{
    if start < count {
        let i = start + k;
        if i < count {
            vstd::arithmetic::div_mod::lemma_small_mod(i as nat, count as nat);
            if i + 1 == count {
                vstd::arithmetic::div_mod::lemma_mod_self_0(count);
            } else {
                vstd::arithmetic::div_mod::lemma_small_mod((i + 1) as nat, count as nat);
            }
        } else {
            let j = i - count;
            vstd::arithmetic::div_mod::lemma_mod_add_multiples_vanish(j, count);
            vstd::arithmetic::div_mod::lemma_mod_add_multiples_vanish(j + 1, count);
            vstd::arithmetic::div_mod::lemma_small_mod(j as nat, count as nat);
            vstd::arithmetic::div_mod::lemma_small_mod((j + 1) as nat, count as nat);
        }
    }
}

/// A test that begins anywhere comes to every ellipse, so where it begins does not
/// decide whether one is found.
pub proof fn law_every_ellipse_is_tested(start: int, count: int, e: int)
    requires
        0 <= start < count,
        0 <= e < count,
    ensures
        exists|k: int| 0 <= k < count && #[trigger] probe(start, count, k) == e,
{
    if start <= e {
        let k = e - start;
        vstd::arithmetic::div_mod::lemma_small_mod(e as nat, count as nat);
        assert(probe(start, count, k) == e);
    } else {
        let k = e - start + count;
        vstd::arithmetic::div_mod::lemma_mod_add_multiples_vanish(e, count);
        vstd::arithmetic::div_mod::lemma_small_mod(e as nat, count as nat);
        assert(probe(start, count, k) == e);
    }
}

/// The argument is a number or a column of numbers.
pub open spec fn is_numeric<T>(arg: ValueRef<T>) -> bool {
    match arg {
        ValueRef::Scalar(v) => v is Number,
        ValueRef::Column(c) => c is Number,
    }
}

/// The number that a numeric argument has in a row.
pub open spec fn cell<T>(arg: ValueRef<T>, row: int) -> T {
    match arg {
        ValueRef::Scalar(v) => v->Number_0,
        ValueRef::Column(c) => c->Number_0@[row],
    }
}

/// How many ellipses `count` arguments describe, after the two coordinates of the
/// point with four arguments each. What is left over describes none.
pub open spec fn ellipse_count(count: int) -> int {
    (count - 2) / 4
}

/// `v` is what the argument says of an ellipse: a number says itself, a column zero.
pub open spec fn parameter_gives<R: Real>(arg: ValueRef<R>, v: R) -> bool {
    match arg {
        ValueRef::Scalar(s) => v == s->Number_0,
        ValueRef::Column(_) => Expr::Whole(0).gives(v),
    }
}

/// `el` is the ellipse number `e` that the arguments describe.
pub open spec fn ellipse_gives<R: Real>(args: Seq<ValueRef<R>>, e: int, el: Ellipse<R>) -> bool {
    &&& parameter_gives(args[2 + 4 * e], el.x)
    &&& parameter_gives(args[2 + 4 * e + 1], el.y)
    &&& parameter_gives(args[2 + 4 * e + 2], el.a)
    &&& parameter_gives(args[2 + 4 * e + 3], el.b)
}

/// `ellipses` are those that the arguments describe.
pub open spec fn are_ellipses<R: Real>(
    args: Seq<ValueRef<R>>,
    ellipses: Seq<Ellipse<R>>,
) -> bool {
    &&& ellipses.len() == ellipse_count(args.len() as int)
    &&& forall|e: int|
        0 <= e < ellipses.len() ==> ellipse_gives(args, e, #[trigger] ellipses[e])
}

/// Testing whether the point lies in one of the ellipses gives `r`: yes where it was
/// found in one, no where it was found outside of each.
pub open spec fn any_inside_gives<R: Real>(
    ellipses: Seq<Ellipse<R>>,
    x: R,
    y: R,
    r: bool,
) -> bool {
    if r {
        exists|e: int| 0 <= e < ellipses.len() && inside_gives(#[trigger] ellipses[e], x, y, true)
    } else {
        forall|e: int|
            0 <= e < ellipses.len() ==> inside_gives(#[trigger] ellipses[e], x, y, false)
    }
}

/// What an argument says of an ellipse.
fn parameter<R: Real>(arg: &ValueRef<R>) -> (v: R)
    requires
        is_numeric(*arg),
    ensures
        parameter_gives(*arg, v),
{
    match arg {
        ValueRef::Scalar(Scalar::Number(v)) => *v,
        _ => Term::whole(0).value(),
    }
}

/// The ellipses that the arguments describe.
fn read_ellipses<R: Real>(args: &[ValueRef<R>]) -> (ellipses: Vec<Ellipse<R>>)
    requires
        args@.len() >= 2,
        forall|k: int| 0 <= k < args@.len() ==> is_numeric(#[trigger] args@[k]),
    ensures
        are_ellipses(args@, ellipses@),
{
    let count: usize = args.len();
    let ellipses_cnt: usize = (count - 2) / 4;
    let mut ellipses: Vec<Ellipse<R>> = Vec::new();
    for e in 0..ellipses_cnt
        invariant
            count == args@.len(),
            count >= 2,
            ellipses_cnt == ellipse_count(args@.len() as int),
            forall|k: int| 0 <= k < args@.len() ==> is_numeric(#[trigger] args@[k]),
            ellipses@.len() == e,
            forall|k: int| 0 <= k < e ==> ellipse_gives(args@, k, #[trigger] ellipses@[k]),
    {
        let first: usize = 2 + 4 * e;
        ellipses.push(
            Ellipse {
                x: parameter(&args[first]),
                y: parameter(&args[first + 1]),
                a: parameter(&args[first + 2]),
                b: parameter(&args[first + 3]),
            },
        );
    }
    ellipses
}

/// The number that an argument has in a row.
fn read_cell<R: Real>(arg: &ValueRef<R>, row: usize) -> (v: R)
    requires
        is_numeric(*arg),
        arg matches ValueRef::Column(c) ==> row < c.rows(),
    ensures
        v == cell(*arg, row as int),
{
    match arg {
        ValueRef::Scalar(Scalar::Number(v)) => *v,
        ValueRef::Column(Column::Number(values)) => values[row],
        _ => unreached(),
    }
}

/// The arguments are the coordinates of a point and numbers.
pub open spec fn is_point_and_parameters<T>(args: Seq<ValueRef<T>>) -> bool {
    &&& args.len() >= 2
    &&& forall|k: int| 0 <= k < args.len() ==> is_numeric(#[trigger] args[k])
    &&& args[0] matches ValueRef::Column(c) ==> input_rows(args) <= c.rows()
    &&& args[1] matches ValueRef::Column(c) ==> input_rows(args) <= c.rows()
}

/// `value` has, for each row, one where the point was found in one of the ellipses that
/// the arguments describe and zero where it was not.
pub open spec fn in_ellipses_gives<R: Real>(args: Seq<ValueRef<R>>, value: Value) -> bool {
    &&& has_shape(args, value)
    &&& exists|ellipses: Seq<Ellipse<R>>|
        {
            &&& #[trigger] are_ellipses(args, ellipses)
            &&& forall|i: int|
                0 <= i < input_rows(args) ==> {
                    &&& #[trigger] value.rows()[i] <= 1
                    &&& any_inside_gives(
                        ellipses,
                        cell(args[0], i),
                        cell(args[1], i),
                        value.rows()[i] == 1,
                    )
                }
        }
}

/// For each row, one where the point lies in an ellipse and zero where it does not.
///
/// The first two arguments are the coordinates of the point, and each four that
/// follow are the center and the half axes of an ellipse.
pub fn point_in_ellipses_fn<R: Real>(args: &[ValueRef<R>]) -> (value: Value)
    requires
        is_point_and_parameters(args@),
    ensures
        in_ellipses_gives(args@, value),
{
    let len = find_column_len(args);
    let input_rows: usize = match len {
        Some(n) => n,
        None => 1,
    };
    let ellipses = read_ellipses(args);
    let ellipses_cnt = ellipses.len();

    let mut start_index: usize = 0;
    let mut rows: Vec<u8> = Vec::new();
    for idx in 0..input_rows
        invariant
            args@.len() >= 2,
            is_numeric(args@[0]) && is_numeric(args@[1]),
            args@[0] matches ValueRef::Column(c) ==> input_rows <= c.rows(),
            args@[1] matches ValueRef::Column(c) ==> input_rows <= c.rows(),
            ellipses_cnt == ellipses@.len(),
            ellipses_cnt == 0 || start_index < ellipses_cnt,
            rows@.len() == idx,
            forall|i: int|
                0 <= i < idx ==> {
                    &&& #[trigger] rows@[i] <= 1
                    &&& any_inside_gives(
                        ellipses@,
                        cell(args@[0], i),
                        cell(args@[1], i),
                        rows@[i] == 1,
                    )
                },
    {
        let x = read_cell(&args[0], idx);
        let y = read_cell(&args[1], idx);
        let ghost start = start_index as int;
        proof {
            assert forall|k: int| 0 <= k < ellipses_cnt implies #[trigger] probe(
                start,
                ellipses_cnt as int,
                k,
            ) < ellipses@.len() by {
                vstd::arithmetic::div_mod::lemma_mod_bound(start + k, ellipses_cnt as int);
            }
        }
        let found = is_point_in_ellipses(
            x,
            y,
            ellipses.as_slice(),
            ellipses_cnt,
            &mut start_index,
        );
        proof {
            lemma_found(ellipses@, x, y, start, start_index as int, found);
        }
        rows.push(
            if found {
                1
            } else {
                0
            },
        );
    }
    let value = shape(args, len, rows);
    assert(are_ellipses(args@, ellipses@));
    value
}

/// What a test from `start` on finds is what there is among all ellipses.
proof fn lemma_found<R: Real>(
    ellipses: Seq<Ellipse<R>>,
    x: R,
    y: R,
    start: int,
    next: int,
    found: bool,
)
    requires
        ellipses.len() == 0 || 0 <= start < ellipses.len(),
        found ==> exists|k: int|
            0 <= k < ellipses.len() && next == #[trigger] probe(start, ellipses.len() as int, k)
                && inside_gives(ellipses[next], x, y, true),
        !found ==> forall|j: int|
            0 <= j < ellipses.len() ==> inside_gives(
                ellipses[#[trigger] probe(start, ellipses.len() as int, j)],
                x,
                y,
                false,
            ),
    ensures
        any_inside_gives(ellipses, x, y, found),
        found ==> 0 <= next < ellipses.len(),
{
    let count = ellipses.len() as int;
    if found {
        let k = choose|k: int|
            0 <= k < ellipses.len() && next == #[trigger] probe(start, ellipses.len() as int, k)
                && inside_gives(ellipses[next], x, y, true);
        vstd::arithmetic::div_mod::lemma_mod_bound(start + k, count);
        assert(inside_gives(ellipses[next], x, y, true));
    } else {
        assert forall|e: int| 0 <= e < ellipses.len() implies inside_gives(
            #[trigger] ellipses[e],
            x,
            y,
            false,
        ) by {
            law_every_ellipse_is_tested(start, count, e);
        }
    }
}

/// A point in an ellipse lies in the rectangle around it, by its four sides.
pub proof fn law_ellipse_lies_in_its_rectangle<R: Real>(el: Ellipse<R>, x: R, y: R)
    requires
        inside_gives(el, x, y, true),
    ensures
        Expr::Value(x).at_most_gives(Expr::Value(el.x).plus(Expr::Value(el.a)), true),
        Expr::Value(el.x).minus(Expr::Value(el.a)).at_most_gives(Expr::Value(x), true),
        Expr::Value(y).at_most_gives(Expr::Value(el.y).plus(Expr::Value(el.b)), true),
        Expr::Value(el.y).minus(Expr::Value(el.b)).at_most_gives(Expr::Value(y), true),
{
    let c = conditions(el, x, y);
    assert(c[0].0.at_most_gives(c[0].1, true));
    assert(c[1].0.at_most_gives(c[1].1, true));
    assert(c[2].0.at_most_gives(c[2].1, true));
    assert(c[3].0.at_most_gives(c[3].1, true));
}

/// Up to three arguments after the last ellipse describe no ellipse.
proof fn lemma_leftover_describes_nothing<R: Real>(
    args: Seq<ValueRef<R>>,
    leftover: Seq<ValueRef<R>>,
    ellipses: Seq<Ellipse<R>>,
)
    requires
        args.len() >= 2,
        args.len() % 4 == 2,
        leftover.len() < 4,
    ensures
        are_ellipses(args + leftover, ellipses) <==> are_ellipses(args, ellipses),
{
    let all = args + leftover;
    assert(ellipse_count(all.len() as int) == ellipse_count(args.len() as int));
    if ellipses.len() == ellipse_count(args.len() as int) {
        assert forall|e: int| 0 <= e < ellipses.len() implies ellipse_gives(
            all,
            e,
            #[trigger] ellipses[e],
        ) == ellipse_gives(args, e, ellipses[e]) by {
            assert(2 + 4 * e + 3 < args.len());
        }
    }
}

/// Up to three numbers after the last ellipse do not change the value.
pub proof fn law_leftover_arguments_are_ignored<R: Real>(
    args: Seq<ValueRef<R>>,
    leftover: Seq<ValueRef<R>>,
    value: Value,
)
    requires
        args.len() >= 2,
        args.len() % 4 == 2,
        leftover.len() < 4,
        forall|k: int| 0 <= k < leftover.len() ==> #[trigger] leftover[k] is Scalar,
    ensures
        in_ellipses_gives(args + leftover, value) <==> in_ellipses_gives(args, value),
{
    law_scalars_have_no_rows(args, leftover);
    assert forall|ellipses: Seq<Ellipse<R>>| #[trigger]
        are_ellipses(args + leftover, ellipses) <==> are_ellipses(args, ellipses) by {
        lemma_leftover_describes_nothing(args, leftover, ellipses);
    }
    assert forall|ellipses: Seq<Ellipse<R>>| #[trigger] are_ellipses(args, ellipses) implies
        are_ellipses(args + leftover, ellipses) by {
        lemma_leftover_describes_nothing(args, leftover, ellipses);
    }
}

/// The test of an ellipse has one outcome, for numbers whose operations have one.
pub proof fn law_test_has_one_outcome<R: Real>(el: Ellipse<R>, x: R, y: R)
    requires
        has_one_outcome::<R>(),
    ensures
        !(inside_gives(el, x, y, true) && inside_gives(el, x, y, false)),
{
    if inside_gives(el, x, y, true) && inside_gives(el, x, y, false) {
        let c = conditions(el, x, y);
        let k = choose|k: int|
            0 <= k < c.len() && (#[trigger] c[k]).0.at_most_gives(c[k].1, false);
        law_comparison_has_one_outcome(c[k].0, c[k].1);
    }
}

/// Arguments describe the same ellipses whenever they are read.
proof fn lemma_same_ellipses<R: Real>(
    args: Seq<ValueRef<R>>,
    one: Seq<Ellipse<R>>,
    other: Seq<Ellipse<R>>,
)
    requires
        has_one_outcome::<R>(),
        are_ellipses(args, one),
        are_ellipses(args, other),
    ensures
        one == other,
{
    assert forall|e: int| 0 <= e < one.len() implies one[e] == other[e] by {
        assert(ellipse_gives(args, e, one[e]));
        assert(ellipse_gives(args, e, other[e]));
    }
    assert(one =~= other);
}

/// The ellipses by which a value was found.
spec fn ellipses_behind<R: Real>(args: Seq<ValueRef<R>>, value: Value) -> Seq<Ellipse<R>> {
    choose|ellipses: Seq<Ellipse<R>>|
        {
            &&& #[trigger] are_ellipses(args, ellipses)
            &&& forall|i: int|
                0 <= i < input_rows(args) ==> {
                    &&& #[trigger] value.rows()[i] <= 1
                    &&& any_inside_gives(
                        ellipses,
                        cell(args[0], i),
                        cell(args[1], i),
                        value.rows()[i] == 1,
                    )
                }
        }
}

/// Rows do not influence each other: where the points of some rows, in any order, are
/// asked about the same ellipses, their values come out in that order.
pub proof fn law_values_follow_the_rows<R: Real>(
    args: Seq<ValueRef<R>>,
    value: Value,
    rows: Seq<int>,
    picked: Seq<ValueRef<R>>,
    picked_value: Value,
)
    requires
        has_one_outcome::<R>(),
        args.len() >= 2,
        in_ellipses_gives(args, value),
        in_ellipses_gives(picked, picked_value),
        picked.len() == args.len(),
        forall|k: int| 2 <= k < args.len() ==> #[trigger] picked[k] == args[k],
        input_rows(picked) == rows.len(),
        forall|i: int|
            0 <= i < rows.len() ==> {
                &&& 0 <= #[trigger] rows[i] < input_rows(args)
                &&& cell(picked[0], i) == cell(args[0], rows[i])
                &&& cell(picked[1], i) == cell(args[1], rows[i])
            },
    ensures
        forall|i: int|
            0 <= i < rows.len() ==> picked_value.rows()[i] == value.rows()[#[trigger] rows[i]],
{
    let one = ellipses_behind(args, value);
    let other = ellipses_behind(picked, picked_value);
    assert(are_ellipses(args, other)) by {
        assert forall|e: int| 0 <= e < other.len() implies ellipse_gives(
            args,
            e,
            #[trigger] other[e],
        ) by {
            assert(ellipse_gives(picked, e, other[e]));
            assert(picked[2 + 4 * e] == args[2 + 4 * e]);
            assert(picked[2 + 4 * e + 1] == args[2 + 4 * e + 1]);
            assert(picked[2 + 4 * e + 2] == args[2 + 4 * e + 2]);
            assert(picked[2 + 4 * e + 3] == args[2 + 4 * e + 3]);
        }
    }
    lemma_same_ellipses(args, one, other);
    assert forall|i: int| 0 <= i < rows.len() implies picked_value.rows()[i]
        == value.rows()[#[trigger] rows[i]] by {
        lemma_one_value(
            one,
            cell(args[0], rows[i]),
            cell(args[1], rows[i]),
            picked_value.rows()[i],
            value.rows()[rows[i]],
        );
    }
}

/// There is one value for a point.
proof fn lemma_one_value<R: Real>(ellipses: Seq<Ellipse<R>>, x: R, y: R, u: u8, v: u8)
    requires
        has_one_outcome::<R>(),
        u <= 1,
        v <= 1,
        any_inside_gives(ellipses, x, y, u == 1),
        any_inside_gives(ellipses, x, y, v == 1),
    ensures
        u == v,
{
    assert forall|e: int| 0 <= e < ellipses.len() implies !(inside_gives(
        #[trigger] ellipses[e],
        x,
        y,
        true,
    ) && inside_gives(ellipses[e], x, y, false)) by {
        law_test_has_one_outcome(ellipses[e], x, y);
    }
    law_start_does_not_decide(ellipses, x, y, u == 1, v == 1);
}

/// Arguments have one value, for numbers whose operations have one outcome.
pub proof fn law_value_has_one_outcome<R: Real>(
    args: Seq<ValueRef<R>>,
    one: Value,
    other: Value,
)
    requires
        has_one_outcome::<R>(),
        args.len() >= 2,
        in_ellipses_gives(args, one),
        in_ellipses_gives(args, other),
    ensures
        one.rows() == other.rows(),
        one is Column <==> other is Column,
{
    let rows = Seq::new(input_rows(args), |i: int| i);
    law_values_follow_the_rows(args, one, rows, args, other);
    assert forall|i: int| 0 <= i < one.rows().len() implies one.rows()[i] == other.rows()[i] by {
        assert(rows[i] == i);
    }
    assert(one.rows() =~= other.rows());
}

/// Up to three numbers after the last ellipse leave the value equal, for numbers whose
/// operations have one outcome.
pub proof fn law_leftover_arguments_keep_the_value<R: Real>(
    args: Seq<ValueRef<R>>,
    value: Value,
    leftover: Seq<ValueRef<R>>,
    longer_value: Value,
)
    requires
        has_one_outcome::<R>(),
        args.len() >= 2,
        args.len() % 4 == 2,
        leftover.len() < 4,
        forall|k: int| 0 <= k < leftover.len() ==> #[trigger] leftover[k] is Scalar,
        in_ellipses_gives(args, value),
        in_ellipses_gives(args + leftover, longer_value),
    ensures
        longer_value.rows() == value.rows(),
        longer_value is Column <==> value is Column,
{
    law_leftover_arguments_are_ignored(args, leftover, longer_value);
    law_value_has_one_outcome(args, longer_value, value);
}

/// The four arguments of ellipse `e` are those of ellipse `f` among the others.
pub open spec fn is_same_group<T>(
    args: Seq<ValueRef<T>>,
    e: int,
    others: Seq<ValueRef<T>>,
    f: int,
) -> bool {
    &&& args[2 + 4 * e] == others[2 + 4 * f]
    &&& args[2 + 4 * e + 1] == others[2 + 4 * f + 1]
    &&& args[2 + 4 * e + 2] == others[2 + 4 * f + 2]
    &&& args[2 + 4 * e + 3] == others[2 + 4 * f + 3]
}

/// The order of the ellipses does not matter: where `order` names each ellipse, taking
/// them in that order gives the same value.
pub proof fn law_order_of_ellipses_does_not_matter<R: Real>(
    args: Seq<ValueRef<R>>,
    value: Value,
    order: Seq<int>,
    reordered: Seq<ValueRef<R>>,
    reordered_value: Value,
)
    requires
        has_one_outcome::<R>(),
        args.len() >= 2,
        in_ellipses_gives(args, value),
        in_ellipses_gives(reordered, reordered_value),
        reordered.len() == args.len(),
        reordered[0] == args[0],
        reordered[1] == args[1],
        forall|k: int| 2 <= k < args.len() ==> #[trigger] args[k] is Scalar,
        forall|k: int| 2 <= k < args.len() ==> #[trigger] reordered[k] is Scalar,
        order.len() == ellipse_count(args.len() as int),
        forall|e: int| 0 <= e < order.len() ==> #[trigger] order.contains(e),
        forall|e: int|
            0 <= e < order.len() ==> 0 <= #[trigger] order[e] < order.len() && is_same_group(
                reordered,
                e,
                args,
                order[e],
            ),
    ensures
        reordered_value.rows() == value.rows(),
        reordered_value is Column <==> value is Column,
{
    law_scalars_have_no_rows(args.take(2), args.skip(2));
    law_scalars_have_no_rows(reordered.take(2), reordered.skip(2));
    assert(args.take(2) + args.skip(2) =~= args);
    assert(reordered.take(2) + reordered.skip(2) =~= reordered);
    assert(args.take(2) =~= reordered.take(2));
    let one = ellipses_behind(args, value);
    let other = ellipses_behind(reordered, reordered_value);
    assert forall|e: int| 0 <= e < order.len() implies other[e] == one[#[trigger] order[e]] by {
        assert(ellipse_gives(reordered, e, other[e]));
        assert(ellipse_gives(args, order[e], one[order[e]]));
        assert(is_same_group(reordered, e, args, order[e]));
        assert(reordered[2 + 4 * e] is Scalar && reordered[2 + 4 * e + 1] is Scalar
            && reordered[2 + 4 * e + 2] is Scalar && reordered[2 + 4 * e + 3] is Scalar);
    }
    assert forall|i: int| 0 <= i < input_rows(args) implies reordered_value.rows()[i]
        == value.rows()[i] by {
        let x = cell(args[0], i);
        let y = cell(args[1], i);
        let found = reordered_value.rows()[i] == 1;
        assert(reordered_value.rows()[i] <= 1 && value.rows()[i] <= 1);
        assert(any_inside_gives(other, x, y, found));
        if found {
            let e = choose|e: int|
                0 <= e < other.len() && inside_gives(#[trigger] other[e], x, y, true);
            assert(inside_gives(one[order[e]], x, y, true));
        } else {
            assert forall|f: int| 0 <= f < one.len() implies inside_gives(
                #[trigger] one[f],
                x,
                y,
                false,
            ) by {
                assert(order.contains(f));
                let e = choose|e: int| 0 <= e < order.len() && order[e] == f;
                assert(other[e] == one[order[e]]);
            }
        }
        assert(any_inside_gives(one, x, y, found));
        lemma_one_value(one, x, y, reordered_value.rows()[i], value.rows()[i]);
    }
    assert(reordered_value.rows() =~= value.rows());
}

/// Without an ellipse, no point lies in one.
pub proof fn law_nothing_lies_in_no_ellipse<R: Real>(x: R, y: R, r: bool)
    requires
        any_inside_gives(Seq::<Ellipse<R>>::empty(), x, y, r),
    ensures
        !r,
{
}

/// Where a test of one ellipse has one outcome only, so has the test of them all: it
/// does not depend on the ellipse that it begins with.
pub proof fn law_start_does_not_decide<R: Real>(
    ellipses: Seq<Ellipse<R>>,
    x: R,
    y: R,
    one: bool,
    other: bool,
)
    requires
        forall|e: int|
            0 <= e < ellipses.len() ==> !(inside_gives(#[trigger] ellipses[e], x, y, true)
                && inside_gives(ellipses[e], x, y, false)),
        any_inside_gives(ellipses, x, y, one),
        any_inside_gives(ellipses, x, y, other),
    ensures
        one == other,
{
}

} // verus!
