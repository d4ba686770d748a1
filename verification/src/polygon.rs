//! Whether a point lies in a polygon.

use vstd::pervasive::unreached;
use vstd::prelude::*;

use crate::eval::{
    find_column_len, has_shape, height, input_rows, law_scalars_have_no_rows,
    law_rows_are_the_values, law_shape_is_that_of_the_arguments, shape, value_at, value_count,
    Column, Scalar, Value, ValueRef,
};

verus! {

/// The value is a tuple of at least two numbers, and of numbers only.
pub open spec fn is_point<T>(value: Scalar<T>) -> bool {
    value matches Scalar::Tuple(fields) && fields@.len() >= 2 && forall|k: int|
        0 <= k < fields@.len() ==> #[trigger] fields@[k] is Number
}

/// The column holds tuples of at least two numbers, and of numbers only, for at
/// least `rows` rows.
pub open spec fn are_points<T>(column: Column<T>, rows: nat) -> bool {
    column matches Column::Tuple { fields, len } && fields@.len() >= 2 && forall|k: int|
        0 <= k < fields@.len() ==> #[trigger] fields@[k] is Number && rows <= fields@[k].rows()
}

/// The column holds the corners of a ring. An empty one may be of any kind.
pub open spec fn are_corners<T>(column: Column<T>) -> bool {
    column.rows() > 0 ==> are_points(column, column.rows())
}

/// The argument is a ring: an array of points.
pub open spec fn is_ring<T>(arg: ValueRef<T>) -> bool {
    arg matches ValueRef::Scalar(Scalar::Array(corners)) && are_corners(corners)
}

/// The argument is a list of rings: an array of arrays of points.
pub open spec fn is_ring_list<T>(arg: ValueRef<T>) -> bool {
    arg matches ValueRef::Scalar(Scalar::Array(Column::Array(list))) && forall|k: int|
        0 <= k < list@.len() ==> are_corners(#[trigger] list@[k])
}

/// The arguments are a point and a polygon. The polygon is its outer ring, or its outer
/// ring and one more argument for each hole, or one list of its outer ring and its
/// holes.
pub open spec fn is_point_and_polygon<T>(args: Seq<ValueRef<T>>) -> bool {
    &&& args.len() >= 2
    &&& match args[0] {
        ValueRef::Scalar(point) => is_point(point),
        ValueRef::Column(points) => are_points(points, input_rows(args)),
    }
    &&& {
        ||| forall|k: int| 1 <= k < args.len() ==> is_ring(#[trigger] args[k])
        ||| args.len() == 2 && is_ring_list(args[1])
    }
}

/// The first two fields of the tuples in a row of a column.
pub open spec fn point_at<T>(column: Column<T>, row: int) -> (T, T) {
    (
        column->Tuple_fields@[0]->Number_0@[row],
        column->Tuple_fields@[1]->Number_0@[row],
    )
}

/// The point of a row.
pub open spec fn point<T>(args: Seq<ValueRef<T>>, row: int) -> (T, T) {
    match args[0] {
        ValueRef::Scalar(v) => (v->Tuple_0@[0]->Number_0, v->Tuple_0@[1]->Number_0),
        ValueRef::Column(c) => point_at(c, row),
    }
}

/// The corners of a ring.
pub open spec fn ring<T>(corners: Column<T>) -> Seq<(T, T)> {
    Seq::new(corners.rows(), |k: int| point_at(corners, k))
}

/// The rings of the polygon: the outer ring, and then the holes.
pub open spec fn rings<T>(args: Seq<ValueRef<T>>) -> Seq<Seq<(T, T)>> {
    match args[1]->Scalar_0->Array_0 {
        Column::Array(list) if args.len() == 2 && list@.len() > 0 => list@.map_values(
            |corners: Column<T>| ring(corners),
        ),
        _ => Seq::new(
            (args.len() - 1) as nat,
            |k: int| ring(args[k + 1]->Scalar_0->Array_0),
        ),
    }
}

/// The first two fields of the tuple in a row of a column.
fn read_point_at<T: Copy>(column: &Column<T>, row: usize) -> (p: (T, T))
    requires
        are_points(*column, row as nat + 1),
    ensures
        p == point_at(*column, row as int),
{
    match column {
        Column::Tuple { fields, len } => {
            assert(fields@[0] is Number && fields@[1] is Number);
            match (&fields[0], &fields[1]) {
                (Column::Number(xs), Column::Number(ys)) => (xs[row], ys[row]),
                _ => unreached(),
            }
        },
        _ => unreached(),
    }
}

/// The point of a row.
fn read_point<T: Copy>(arg: &ValueRef<T>, row: usize) -> (p: (T, T))
    requires
        match *arg {
            ValueRef::Scalar(point) => is_point(point),
            ValueRef::Column(points) => are_points(points, row as nat + 1),
        },
    ensures
        p == point(seq![*arg], row as int),
{
    match arg {
        ValueRef::Scalar(Scalar::Tuple(fields)) => {
            assert(fields@[0] is Number && fields@[1] is Number);
            match (&fields[0], &fields[1]) {
                (Scalar::Number(x), Scalar::Number(y)) => (*x, *y),
                _ => unreached(),
            }
        },
        ValueRef::Column(column) => read_point_at(column, row),
        _ => unreached(),
    }
}

/// The corners of a ring.
fn read_ring<T: Copy>(corners: &Column<T>) -> (points: Vec<(T, T)>)
    requires
        are_corners(*corners),
    ensures
        points@ == ring(*corners),
{
    let count: usize = corners.len();
    let mut points: Vec<(T, T)> = Vec::new();
    for k in 0..count
        invariant
            count == corners.rows(),
            are_corners(*corners),
            points@.len() == k,
            forall|i: int| 0 <= i < k ==> #[trigger] points@[i] == point_at(*corners, i),
    {
        points.push(read_point_at(corners, k));
    }
    assert(points@ =~= ring(*corners));
    points
}

/// The corners of each ring of a list.
pub open spec fn corners_of<T>(list: Seq<Vec<(T, T)>>) -> Seq<Seq<(T, T)>> {
    list.map_values(|points: Vec<(T, T)>| points@)
}

/// The rings of a list from the second on.
fn read_listed_holes<T: Copy>(list: &Vec<Column<T>>) -> (holes: Vec<Vec<(T, T)>>)
    requires
        list@.len() > 0,
        forall|k: int| 0 <= k < list@.len() ==> are_corners(#[trigger] list@[k]),
    ensures
        corners_of(holes@) == list@.map_values(|corners: Column<T>| ring(corners)).skip(1),
{
    let mut holes: Vec<Vec<(T, T)>> = Vec::new();
    for k in 1..list.len()
        invariant
            forall|k: int| 0 <= k < list@.len() ==> are_corners(#[trigger] list@[k]),
            list@.len() > 0,
            holes@.len() == k - 1,
            forall|i: int| 0 <= i < k - 1 ==> (#[trigger] holes@[i])@ == ring(list@[i + 1]),
    {
        holes.push(read_ring(&list[k]));
    }
    assert(corners_of(holes@) =~= list@.map_values(|corners: Column<T>| ring(corners)).skip(1));
    holes
}

/// The rings of the arguments from the third on.
fn read_further_holes<T: Copy>(args: &[ValueRef<T>]) -> (holes: Vec<Vec<(T, T)>>)
    requires
        args@.len() >= 2,
        forall|k: int| 2 <= k < args@.len() ==> is_ring(#[trigger] args@[k]),
    ensures
        holes@.len() == args@.len() - 2,
        forall|i: int|
            0 <= i < holes@.len() ==> (#[trigger] holes@[i])@ == ring(
                args@[i + 2]->Scalar_0->Array_0,
            ),
{
    let mut holes: Vec<Vec<(T, T)>> = Vec::new();
    for k in 2..args.len()
        invariant
            args@.len() >= 2,
            forall|k: int| 2 <= k < args@.len() ==> is_ring(#[trigger] args@[k]),
            holes@.len() == k - 2,
            forall|i: int|
                0 <= i < k - 2 ==> (#[trigger] holes@[i])@ == ring(
                    args@[i + 2]->Scalar_0->Array_0,
                ),
    {
        assert(is_ring(args@[k as int]));
        match &args[k] {
            ValueRef::Scalar(Scalar::Array(corners)) => holes.push(read_ring(corners)),
            _ => unreached(),
        }
    }
    holes
}

/// The outer ring and the holes of the polygon.
fn read_rings<T: Copy>(args: &[ValueRef<T>]) -> (r: (Vec<(T, T)>, Vec<Vec<(T, T)>>))
    requires
        is_point_and_polygon(args@),
    ensures
        r.0@ == rings(args@)[0],
        corners_of(r.1@) == rings(args@).skip(1),
{
    match &args[1] {
        ValueRef::Scalar(Scalar::Array(Column::Array(list))) if args.len() == 2 && list.len()
            > 0 => {
            proof {
                if is_ring(args@[1]) {
                    assert(are_points(args@[1]->Scalar_0->Array_0, list@.len()));
                }
                assert(is_ring_list(args@[1]));
                assert(are_corners(list@[0]));
            }
            (read_ring(&list[0]), read_listed_holes(list))
        },
        ValueRef::Scalar(Scalar::Array(corners)) => {
            proof {
                if !is_ring(args@[1]) {
                    assert(is_ring_list(args@[1]));
                }
            }
            let outer = read_ring(corners);
            let holes = read_further_holes(args);
            assert(corners_of(holes@) =~= rings(args@).skip(1));
            (outer, holes)
        },
        _ => {
            proof {
                assert(is_ring(args@[1]) || is_ring_list(args@[1]));
            }
            unreached()
        },
    }
}

/// Asking `contains` about the outer ring, the holes and the point gives `r`.
pub open spec fn contains_gives<T, F: Fn(&Vec<(T, T)>, &Vec<Vec<(T, T)>>, (T, T)) -> bool>(
    contains: F,
    outer: Seq<(T, T)>,
    holes: Seq<Seq<(T, T)>>,
    p: (T, T),
    r: bool,
) -> bool {
    exists|o: &Vec<(T, T)>, h: &Vec<Vec<(T, T)>>|
        o@ == outer && corners_of(h@) == holes && #[trigger] call_ensures(contains, (o, h, p), r)
}

/// `contains` can be asked about the polygon and the point of every row.
pub open spec fn accepts<T, F: Fn(&Vec<(T, T)>, &Vec<Vec<(T, T)>>, (T, T)) -> bool>(
    contains: F,
    args: Seq<ValueRef<T>>,
) -> bool {
    forall|o: &Vec<(T, T)>, h: &Vec<Vec<(T, T)>>, i: int|
        0 <= i < input_rows(args) && o@ == rings(args)[0] && corners_of(h@) == rings(args).skip(1)
            ==> #[trigger] call_requires(contains, (o, h, point(args, i)))
}

/// `value` has, for each row, one where the point was found in the polygon and zero
/// where it was not.
pub open spec fn in_polygon_gives<T, F: Fn(&Vec<(T, T)>, &Vec<Vec<(T, T)>>, (T, T)) -> bool>(
    args: Seq<ValueRef<T>>,
    contains: F,
    value: Value,
) -> bool {
    &&& has_shape(args, value)
    &&& forall|i: int|
        0 <= i < input_rows(args) ==> {
            &&& #[trigger] value.rows()[i] <= 1
            &&& contains_gives(
                contains,
                rings(args)[0],
                rings(args).skip(1),
                point(args, i),
                value.rows()[i] == 1,
            )
        }
}

/// For each row, one where the point lies in the polygon and zero where it does not.
///
/// The first argument is the point. The polygon is given in one of three forms:
/// - the second argument is an array of its corners, and it has no holes;
/// - the second argument is an array of its corners, and each further argument is an
///   array of the corners of a hole;
/// - the second argument is an array of arrays of corners, first of the polygon and
///   then of each hole.
///
/// `contains` tells of an outer ring, the holes and a point whether the polygon
/// contains the point.
pub fn point_in_polygon_fn<
    T: Copy,
    F: Fn(&Vec<(T, T)>, &Vec<Vec<(T, T)>>, (T, T)) -> bool,
>(args: &[ValueRef<T>], contains: F) -> (value: Value)
    requires
        input_rows(args@) > 0 ==> is_point_and_polygon(args@),
        accepts(contains, args@),
    ensures
        in_polygon_gives(args@, contains, value),
{
    let len = find_column_len(args);
    let input_rows: usize = match len {
        Some(n) => n,
        None => 1,
    };
    let mut rows: Vec<u8> = Vec::new();
    for idx in 0..input_rows
        invariant
            input_rows == crate::eval::input_rows(args@),
            input_rows > 0 ==> is_point_and_polygon(args@),
            accepts(contains, args@),
            rows@.len() == idx,
            forall|i: int|
                0 <= i < idx ==> {
                    &&& #[trigger] rows@[i] <= 1
                    &&& contains_gives(
                        contains,
                        rings(args@)[0],
                        rings(args@).skip(1),
                        point(args@, i),
                        rows@[i] == 1,
                    )
                },
    {
        let p = read_point(&args[0], idx);
        let (outer, holes) = read_rings(args);
        assert(p == point(args@, idx as int));
        let is_in = contains(&outer, &holes, p);
        assert(call_ensures(contains, (&outer, &holes, p), is_in));
        rows.push(
            if is_in {
                1
            } else {
                0
            },
        );
    }
    shape(args, len, rows)
}

/// The argument has, in the row, a tuple whose first field is `p.0` and whose second field
/// is `p.1`.
pub open spec fn is_tuple_at<T>(arg: ValueRef<T>, row: int, p: (T, T)) -> bool {
    match arg {
        ValueRef::Scalar(Scalar::Tuple(fields)) => {
            &&& fields@.len() >= 2
            &&& fields@[0] == Scalar::Number(p.0)
            &&& fields@[1] == Scalar::Number(p.1)
        },
        ValueRef::Column(Column::Tuple { fields, len }) => {
            &&& fields@.len() >= 2
            &&& fields@[0] matches Column::Number(xs) && 0 <= row < xs@.len() && xs@[row] == p.0
            &&& fields@[1] matches Column::Number(ys) && 0 <= row < ys@.len() && ys@[row] == p.1
        },
        _ => false,
    }
}

/// The column has the corners of the ring as its rows: the first field of each tuple is
/// the first coordinate, and the second field is the second.
pub open spec fn is_column_of<T>(column: Column<T>, corners: Seq<(T, T)>) -> bool {
    if corners.len() == 0 {
        height(column) == 0
    } else {
        column matches Column::Tuple { fields, len } && len == corners.len() && fields@.len() >= 2
            && (fields@[0] matches Column::Number(xs) && (fields@[1] matches Column::Number(ys) && {
            &&& xs@.len() >= corners.len()
            &&& ys@.len() >= corners.len()
            &&& forall|k: int|
                0 <= k < corners.len() ==> (#[trigger] corners[k]).0 == xs@[k] && corners[k].1
                    == ys@[k]
        }))
    }
}

/// The arguments after the first give the rings: each as an argument of its own, or all in
/// one array.
pub open spec fn are_given<T>(args: Seq<ValueRef<T>>, given: Seq<Seq<(T, T)>>) -> bool {
    ||| {
        &&& args.len() == given.len() + 1
        &&& forall|k: int|
            1 <= k < args.len() ==> (#[trigger] args[k] matches ValueRef::Scalar(
                Scalar::Array(column),
            ) && is_column_of(column, given[k - 1]))
    }
    ||| {
        &&& args.len() == 2
        &&& args[1] matches ValueRef::Scalar(Scalar::Array(Column::Array(list)))
        &&& list@.len() == given.len()
        &&& forall|k: int| 0 <= k < list@.len() ==> is_column_of(#[trigger] list@[k], given[k])
    }
}

/// A column of the corners of a ring gives that ring.
proof fn lemma_ring_of_column<T>(column: Column<T>, corners: Seq<(T, T)>)
    requires
        is_column_of(column, corners),
    ensures
        ring(column) == corners,
{
    assert(ring(column).len() == corners.len());
    assert forall|k: int| 0 <= k < corners.len() implies ring(column)[k] == corners[k] by {
        assert(corners[k].0 == column->Tuple_fields@[0]->Number_0@[k]);
    }
    assert(ring(column) =~= corners);
}

/// Rings that are given are the rings of the polygon.
proof fn lemma_given_rings<T>(args: Seq<ValueRef<T>>, given: Seq<Seq<(T, T)>>)
    requires
        given.len() >= 1,
        are_given(args, given),
    ensures
        rings(args) == given,
{
    if args.len() == given.len() + 1 && forall|k: int|
        1 <= k < args.len() ==> (#[trigger] args[k] matches ValueRef::Scalar(Scalar::Array(column))
            && is_column_of(column, given[k - 1])) {
        assert forall|k: int| 0 <= k < given.len() implies #[trigger] ring(
            args[k + 1]->Scalar_0->Array_0,
        ) == given[k] by {
            assert(args[k + 1] is Scalar);
            lemma_ring_of_column(args[k + 1]->Scalar_0->Array_0, given[k]);
        }
        assert(args[1] is Scalar);
        assert(is_column_of(args[1]->Scalar_0->Array_0, given[0]));
        assert(rings(args).len() == given.len());
        assert forall|k: int| 0 <= k < given.len() implies rings(args)[k] == given[k] by {
            assert(ring(args[k + 1]->Scalar_0->Array_0) == given[k]);
        }
        assert(rings(args) =~= given);
    } else {
        let list = args[1]->Scalar_0->Array_0->Array_0@;
        assert forall|k: int| 0 <= k < given.len() implies ring(#[trigger] list[k]) == given[k] by {
            lemma_ring_of_column(list[k], given[k]);
        }
        assert(rings(args) =~= given);
    }
}

/// For each row, the polygon of the given rings is asked about the tuple of that row: its
/// first field is the first coordinate of the point, and its second field the second.
/// The value is one where the answer is yes, and zero where it is no.
pub proof fn law_polygon_is_asked_about_the_point<
    T: Copy,
    F: Fn(&Vec<(T, T)>, &Vec<Vec<(T, T)>>, (T, T)) -> bool,
>(
    args: &[ValueRef<T>],
    contains: F,
    value: Value,
    row: int,
    p: (T, T),
    given: Seq<Seq<(T, T)>>,
    answer: bool,
)
    requires
        call_ensures(point_in_polygon_fn::<T, F>, (args, contains), value),
        0 <= row < value_count(value),
        is_tuple_at(args@[0], row, p),
        given.len() >= 1,
        are_given(args@, given),
        answer == (value_at(value, row) == 1),
    ensures
        value_at(value, row) == 0 || value_at(value, row) == 1,
        exists|o: &Vec<(T, T)>, h: &Vec<Vec<(T, T)>>|
            {
                &&& #[trigger] call_ensures(contains, (o, h, p), answer)
                &&& o@ == given[0]
                &&& h@.len() == given.len() - 1
                &&& forall|k: int| 0 <= k < h@.len() ==> (#[trigger] h@[k])@ == given[k + 1]
            },
{
    lemma_polygon_is_asked(args, contains, value, row, p, given, answer);
}

/// The polygon is asked about the tuple of each row.
pub proof fn lemma_polygon_is_asked<
    T: Copy,
    F: Fn(&Vec<(T, T)>, &Vec<Vec<(T, T)>>, (T, T)) -> bool,
>(
    args: &[ValueRef<T>],
    contains: F,
    value: Value,
    row: int,
    p: (T, T),
    given: Seq<Seq<(T, T)>>,
    answer: bool,
)
    requires
        in_polygon_gives(args@, contains, value),
        0 <= row < value_count(value),
        is_tuple_at(args@[0], row, p),
        given.len() >= 1,
        are_given(args@, given),
        answer == (value_at(value, row) == 1),
    ensures
        value_at(value, row) == 0 || value_at(value, row) == 1,
        exists|o: &Vec<(T, T)>, h: &Vec<Vec<(T, T)>>|
            {
                &&& #[trigger] call_ensures(contains, (o, h, p), answer)
                &&& o@ == given[0]
                &&& h@.len() == given.len() - 1
                &&& forall|k: int| 0 <= k < h@.len() ==> (#[trigger] h@[k])@ == given[k + 1]
            },
{
    law_rows_are_the_values(value, row);
    lemma_given_rings(args@, given);
    lemma_point_is_tuple(args@, row, p);
    assert(value.rows()[row] <= 1);
    assert(contains_gives(contains, given[0], given.skip(1), p, answer));
    let (o, h) = choose|o: &Vec<(T, T)>, h: &Vec<Vec<(T, T)>>|
        o@ == given[0] && corners_of(h@) == given.skip(1) && #[trigger] call_ensures(
            contains,
            (o, h, p),
            answer,
        );
    assert(corners_of(h@).len() == given.skip(1).len());
    assert forall|k: int| 0 <= k < h@.len() implies (#[trigger] h@[k])@ == given[k + 1] by {
        assert(corners_of(h@)[k] == given.skip(1)[k]);
    }
    assert(call_ensures(contains, (o, h, p), answer));
}

/// The point of a row is the tuple of that row.
proof fn lemma_point_is_tuple<T>(args: Seq<ValueRef<T>>, row: int, p: (T, T))
    requires
        is_tuple_at(args[0], row, p),
    ensures
        point(args, row) == p,
{
}

/// Where `contains` has one answer to each question, the value of a row is what the
/// function gives for the tuple of that row alone: rows do not influence each other, and
/// a tuple means the same in a column and as a scalar.
pub proof fn law_rows_are_independent<
    T,
    F: Fn(&Vec<(T, T)>, &Vec<Vec<(T, T)>>, (T, T)) -> bool,
>(
    args: Seq<ValueRef<T>>,
    contains: F,
    value: Value,
    row: int,
    p: (T, T),
    alone: ValueRef<T>,
    alone_value: Value,
)
    requires
        forall|outer: Seq<(T, T)>, holes: Seq<Seq<(T, T)>>, q: (T, T)|
            !(#[trigger] contains_gives(contains, outer, holes, q, true) && contains_gives(
                contains,
                outer,
                holes,
                q,
                false,
            )),
        is_point_and_polygon(args),
        in_polygon_gives(args, contains, value),
        0 <= row < input_rows(args),
        is_tuple_at(args[0], row, p),
        alone is Scalar,
        is_tuple_at(alone, 0, p),
        in_polygon_gives(args.update(0, alone), contains, alone_value),
    ensures
        alone_value is Scalar,
        alone_value->Scalar_0 == value_at(value, row),
{
    let single = args.update(0, alone);
    assert forall|k: int| 0 <= k < single.len() implies #[trigger] single[k] is Scalar by {
        if k > 0 {
            assert(is_ring(args[k]) || is_ring_list(args[k]));
        }
    }
    law_scalars_have_no_rows(Seq::empty(), single);
    assert(Seq::empty() + single =~= single);
    assert(rings(single) =~= rings(args)) by {
        assert(single[1] == args[1]);
    }
    lemma_point_is_tuple(args, row, p);
    lemma_point_is_tuple(single, 0, p);
    law_rows_are_the_values(value, row);
    assert(alone_value.rows()[0] <= 1);
    assert(value.rows()[row] <= 1);
}

/// The value is a scalar where no argument is a column, and has the height of the first
/// column where one is.
pub proof fn law_polygon_value_has_the_shape_of_the_arguments<
    T: Copy,
    F: Fn(&Vec<(T, T)>, &Vec<Vec<(T, T)>>, (T, T)) -> bool,
>(args: &[ValueRef<T>], contains: F, value: Value, k: int)
    requires
        call_ensures(point_in_polygon_fn::<T, F>, (args, contains), value),
        0 <= k <= args@.len(),
        forall|j: int| 0 <= j < k ==> #[trigger] args@[j] is Scalar,
        k < args@.len() ==> args@[k] is Column,
    ensures
        k == args@.len() ==> value is Scalar,
        k < args@.len() ==> (value matches Value::Column(values) && values@.len() == height(
            args@[k]->Column_0,
        )),
{
    law_shape_is_that_of_the_arguments(args@, k, value);
}

} // verus!
